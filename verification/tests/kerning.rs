use runebender::glyph_order::{glyph_ids, sort_entries, VirtualFont};
use runebender::kerning::{expand_group, make_kern_pairs, make_kern_table};
use runebender::virtual_font::{KernFormat0Pair, KernSubtable, KernSubtableCoverage, KernTable};

fn glyphs() -> Vec<(char, String)> {
    glyph_ids(vec![
        ('b', "b".to_string()),
        ('a', "a".to_string()),
        ('a', "a.alt".to_string()),
        ('c', "c".to_string()),
    ])
}

#[test]
fn glyph_order_is_sorted_with_notdef_first() {
    let g = glyphs();
    let names: Vec<&str> = g.iter().map(|(_, n)| n.as_str()).collect();
    assert_eq!(names, vec![".notdef", "a", "a.alt", "b", "c"]);
    assert_eq!(g[0].0, '\0');
}

#[test]
fn sort_by_char_then_name() {
    let sorted = sort_entries(vec![
        ('z', "z".to_string()),
        ('a', "b".to_string()),
        ('a', "a".to_string()),
        ('a', "ab".to_string()),
    ]);
    let names: Vec<&str> = sorted.iter().map(|(_, n)| n.as_str()).collect();
    assert_eq!(names, vec!["a", "ab", "b", "z"]);
}

#[test]
fn expanding_groups_and_names() {
    let g = glyphs();
    let groups = vec![(
        "public.kern1.A".to_string(),
        vec!["a".to_string(), "missing".to_string(), "a.alt".to_string()],
    )];
    assert_eq!(
        expand_group("public.kern1.", Some(&groups), &g, "public.kern1.A"),
        vec![1, 2]
    );
    assert_eq!(
        expand_group("public.kern1.", Some(&groups), &g, "public.kern1.B"),
        Vec::<u16>::new()
    );
    assert_eq!(
        expand_group("public.kern1.", None, &g, "public.kern1.A"),
        Vec::<u16>::new()
    );
    assert_eq!(expand_group("public.kern2.", Some(&groups), &g, "c"), vec![4]);
    assert_eq!(expand_group("public.kern2.", Some(&groups), &g, "d"), Vec::<u16>::new());
}

#[test]
fn kern_pairs_and_table() {
    let g = glyphs();
    let groups = vec![(
        "public.kern2.B".to_string(),
        vec!["b".to_string(), "c".to_string()],
    )];
    let kerning = vec![
        ("c".to_string(), vec![("a".to_string(), -20)]),
        ("a".to_string(), vec![("public.kern2.B".to_string(), 15)]),
    ];
    let pairs = make_kern_pairs(&kerning, Some(&groups), &g);
    assert_eq!(
        pairs,
        vec![
            KernFormat0Pair { left: 4, right: 1, value: -20 },
            KernFormat0Pair { left: 1, right: 3, value: 15 },
            KernFormat0Pair { left: 1, right: 4, value: 15 },
        ]
    );
    let expected = KernTable {
        version: 0,
        subtables: vec![KernSubtable {
            version: 0,
            coverage: KernSubtableCoverage::default(),
            pairs: pairs.clone(),
        }],
    }
    .encode();
    assert_eq!(make_kern_table(&kerning, Some(&groups), &g), expected);
}

#[test]
fn virtual_font_lookup() {
    let g = glyphs();
    let font = VirtualFont::new(g, vec![1], vec![2], vec![3], vec![4]);
    assert_eq!(font.glyph_for_id(3).map(|s| s.as_str()), Some("b"));
    assert_eq!(font.glyph_for_id(5), None);
    assert_eq!(font.cmap(), &[1]);
    assert_eq!(font.hhea(), &[2]);
    assert_eq!(font.hmtx(), &[3]);
    assert_eq!(font.kern(), &[4]);
}
