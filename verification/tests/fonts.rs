use runebender::preview_font::{make_cmap_table as preview_cmap, UfOtf};
use runebender::virtual_font::{
    make_cmap_table, make_horiz_tables, HorizontalMetricRecord, KernFormat0Pair, KernSubtable,
    KernSubtableCoverage, KernTable,
};

#[test]
fn virtual_font_cmap() {
    let table = make_cmap_table(&['\0', 'A', 'B', 'D']);
    let expected: Vec<u8> = vec![
        0, 0, 0, 1, 0, 0, 0, 4, 0, 0, 0, 12, // header and record
        0, 4, 0, 40, 0, 0, 0, 6, 0, 0, 0, 0, 0, 0, // subtable header
        0, 0x42, 0, 0x44, 0xff, 0xff, // end codes
        0, 0, // padding
        0, 0x41, 0, 0x44, 0xff, 0xff, // start codes
        0xff, 0xc0, 0xff, 0xbf, 0, 1, // deltas
        0, 0, 0, 0, 0, 0, // offsets
    ];
    assert_eq!(table, expected);
}

#[test]
fn preview_cmap_sorts_by_code() {
    let table = preview_cmap(&[None, Some('B'), Some('A'), Some('C')]);
    let expected: Vec<u8> = vec![
        0, 0, 0, 1, 0, 0, 0, 4, 0, 0, 0, 12, // header and record
        0, 4, 0, 38, 0, 0, 0, 4, 0, 0, 0, 0, 0, 0, // subtable header
        0, 0x43, 0xff, 0xff, // end codes
        0, 0, // padding
        0, 0x41, 0xff, 0xff, // start codes
        0xff, 0xbf, 0, 1, // deltas
        0, 0, 0, 0, // offsets
        0, 2, 0, 1, 0, 3, // glyph ids
    ];
    assert_eq!(table, expected);
    let font = UfOtf::new(
        vec![".notdef".to_string(), "B".to_string(), "A".to_string(), "C".to_string()],
        vec![None, Some('B'), Some('A'), Some('C')],
    );
    assert_eq!(font.make_cmap_table(), expected);
    assert_eq!(font.glyph_for_id(2), Some("A".to_string()));
    assert_eq!(font.glyph_for_id(4), None);
}

#[test]
fn horizontal_tables() {
    let records = vec![
        HorizontalMetricRecord { advance_width: 500, left_side_bearing: 10 },
        HorizontalMetricRecord { advance_width: 600, left_side_bearing: -5 },
    ];
    let (hhea, hmtx) = make_horiz_tables(records, 800, -200, 0);
    assert_eq!(hmtx, vec![0x01, 0xf4, 0, 10, 0x02, 0x58, 0xff, 0xfb]);
    assert_eq!(hhea.len(), 36);
    // version 1.0, ascender, descender, line gap
    assert_eq!(&hhea[0..10], &[0, 1, 0, 0, 0x03, 0x20, 0xff, 0x38, 0, 0]);
    // the widest advance and the smallest side bearing
    assert_eq!(&hhea[10..14], &[0x02, 0x58, 0xff, 0xfb]);
    // two metrics
    assert_eq!(&hhea[34..36], &[0, 2]);
}

#[test]
fn kern_table_sorts_pairs() {
    let table = KernTable {
        version: 0,
        subtables: vec![KernSubtable {
            version: 0,
            coverage: KernSubtableCoverage::default(),
            pairs: vec![
                KernFormat0Pair { left: 2, right: 1, value: -10 },
                KernFormat0Pair { left: 1, right: 3, value: 5 },
            ],
        }],
    };
    let bytes = table.encode();
    // the subtable length is written as a `usize`
    let mut expected: Vec<u8> = vec![0, 0, 0, 1, 0, 0];
    expected.extend_from_slice(&18usize.to_be_bytes());
    expected.extend_from_slice(&[
        0, 1, // coverage
        0, 2, 0, 12, 0, 24, 0xff, 0xf6, // pair count, search range, selector, shift
        0, 1, 0, 3, 0, 5, // first pair
        0, 2, 0, 1, 0xff, 0xf6, // second pair
    ]);
    assert_eq!(bytes, expected);
}
