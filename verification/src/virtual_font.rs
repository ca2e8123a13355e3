//! The OpenType tables of a font that exists only in memory.
//!
//! These tables let a shaping engine treat the glyphs of the open font as if
//! they were a compiled font file: `cmap` maps characters to glyph ids,
//! `hhea` and `hmtx` hold the horizontal metrics, and `kern` the kerning
//! pairs.

use vstd::prelude::*;
use crate::bytes::{be16, be16_seq, be64, lemma_be16_seq_push, push_i16, push_u16, push_u64};
use crate::cmap::{cmap_table_bytes, codes_can_advance, encode_cmap};
use crate::sort::{stable_sort, stably_sorted, SortKey};
use crate::bytes::{be_usize, push_usize};
use vstd::arithmetic::power2::{lemma2_to64, pow2};

verus! {

/// The OpenType `hhea` table.
pub struct HorizontalHeader {
    pub version: (u16, u16),
    pub ascender: i16,
    pub descender: i16,
    pub line_gap: i16,
    pub advance_width_max: u16,
    pub left_side_bearing_min: i16,
    pub right_side_bearing_min: i16,
    pub max_x_extent: i16,
    pub caret_slope_rise: i16,
    pub caret_slope_run: i16,
    pub caret_offset: i16,
    pub reserved: u64,
    pub format: i16,
    pub number_of_h_metrics: u16,
}

/// The encoded `hhea` table: each field in declaration order, big-endian.
pub open spec fn hhea_bytes(h: HorizontalHeader) -> Seq<u8> {
    be16(h.version.0 as int) + be16(h.version.1 as int) + be16(h.ascender as int) + be16(
        h.descender as int,
    ) + be16(h.line_gap as int) + be16(h.advance_width_max as int) + be16(
        h.left_side_bearing_min as int,
    ) + be16(h.right_side_bearing_min as int) + be16(h.max_x_extent as int) + be16(
        h.caret_slope_rise as int,
    ) + be16(h.caret_slope_run as int) + be16(h.caret_offset as int) + be64(h.reserved as int)
        + be16(h.format as int) + be16(h.number_of_h_metrics as int)
}

impl HorizontalHeader {
    pub fn encode(&self) -> (r: Vec<u8>)
        ensures
            r@ == hhea_bytes(*self),
    {
        let mut result = Vec::with_capacity(36);
        push_u16(&mut result, self.version.0);
        push_u16(&mut result, self.version.1);
        push_i16(&mut result, self.ascender);
        push_i16(&mut result, self.descender);
        push_i16(&mut result, self.line_gap);
        push_u16(&mut result, self.advance_width_max);
        push_i16(&mut result, self.left_side_bearing_min);
        push_i16(&mut result, self.right_side_bearing_min);
        push_i16(&mut result, self.max_x_extent);
        push_i16(&mut result, self.caret_slope_rise);
        push_i16(&mut result, self.caret_slope_run);
        push_i16(&mut result, self.caret_offset);
        push_u64(&mut result, self.reserved);
        push_i16(&mut result, self.format);
        push_u16(&mut result, self.number_of_h_metrics);
        assert(result@ =~= hhea_bytes(*self));
        result
    }
}

/// One entry of the `hmtx` table.
#[derive(Clone, Copy, Debug)]
pub struct HorizontalMetricRecord {
    pub advance_width: u16,
    pub left_side_bearing: i16,
}

pub open spec fn record_bytes(r: HorizontalMetricRecord) -> Seq<u8> {
    be16(r.advance_width as int) + be16(r.left_side_bearing as int)
}

/// The concatenated encodings of a sequence of metric records.
pub open spec fn records_bytes(rs: Seq<HorizontalMetricRecord>) -> Seq<u8>
    decreases rs.len(),
{
    if rs.len() == 0 {
        Seq::empty()
    } else {
        records_bytes(rs.drop_last()) + record_bytes(rs.last())
    }
}

/// The OpenType `hmtx` table.
pub struct HorizontalMetrics {
    pub records: Vec<HorizontalMetricRecord>,
    pub left_side_bearings: Vec<i16>,
}

/// The encoded `hmtx` table: the records, then the extra side bearings.
pub open spec fn hmtx_bytes(records: Seq<HorizontalMetricRecord>, lsbs: Seq<i16>) -> Seq<u8> {
    records_bytes(records) + be16_seq(lsbs.map_values(|x: i16| x as int))
}

impl HorizontalMetrics {
    pub fn encode(&self) -> (r: Vec<u8>)
        ensures
            r@ == hmtx_bytes(self.records@, self.left_side_bearings@),
    {
        let mut result = Vec::new();
        let mut i: usize = 0;
        while i < self.records.len()
            invariant
                0 <= i <= self.records.len(),
                result@ == records_bytes(self.records@.take(i as int)),
            decreases self.records.len() - i,
        {
            let record = self.records[i];
            push_u16(&mut result, record.advance_width);
            push_i16(&mut result, record.left_side_bearing);
            assert(self.records@.take(i + 1).drop_last() =~= self.records@.take(i as int));
            assert(result@ =~= records_bytes(self.records@.take(i + 1)));
            i += 1;
        }
        assert(self.records@.take(self.records.len() as int) =~= self.records@);
        let ghost recs = result@;
        let ghost ints = self.left_side_bearings@.map_values(|x: i16| x as int);
        let mut j: usize = 0;
        while j < self.left_side_bearings.len()
            invariant
                0 <= j <= self.left_side_bearings.len(),
                ints == self.left_side_bearings@.map_values(|x: i16| x as int),
                result@ == recs + be16_seq(ints.take(j as int)),
            decreases self.left_side_bearings.len() - j,
        {
            proof {
                lemma_be16_seq_push(ints.take(j as int), ints[j as int]);
                assert(ints.take(j as int).push(ints[j as int]) =~= ints.take(j + 1));
            }
            push_i16(&mut result, self.left_side_bearings[j]);
            assert(result@ =~= recs + be16_seq(ints.take(j + 1)));
            j += 1;
        }
        assert(ints.take(self.left_side_bearings.len() as int) =~= ints);
        result
    }
}


/// The BMP code of each character, in order.
pub open spec fn bmp_codes(chars: Seq<char>) -> Seq<u16> {
    chars.map_values(|c: char| c as u32 as u16)
}

/// All but the first entry of `s` (nothing, for an empty sequence).
pub open spec fn after_first(s: Seq<char>) -> Seq<char> {
    if s.len() == 0 {
        s
    } else {
        s.skip(1)
    }
}

/// Every character is in the Basic Multilingual Plane.
pub open spec fn all_in_bmp(chars: Seq<char>) -> bool {
    forall|k: int| 0 <= k < chars.len() ==> (#[trigger] chars[k]) as u32 <= 0xffff
}

/// Builds the `cmap` table for the glyph list of a virtual font.
///
/// `glyph_chars` holds the character of each glyph, sorted by character; its
/// first entry belongs to `.notdef` and gets no mapping. The character of
/// the glyph at index `i` maps to glyph id `i`.
pub fn make_cmap_table(glyph_chars: &[char]) -> (r: Vec<u8>)
    requires
        all_in_bmp(after_first(glyph_chars@)),
        codes_can_advance(bmp_codes(after_first(glyph_chars@))),
    ensures
        r@ == cmap_table_bytes(bmp_codes(after_first(glyph_chars@)), 1, Seq::empty()),
{
    let mut codes: Vec<u16> = Vec::new();
    let mut i: usize = 1;
    while i < glyph_chars.len()
        invariant
            1 <= i,
            i <= glyph_chars.len() || i == 1,
            all_in_bmp(after_first(glyph_chars@)),
            codes@ == bmp_codes(after_first(glyph_chars@)).take(i - 1),
        decreases glyph_chars.len() - i,
    {
        assert(after_first(glyph_chars@)[i - 1] == glyph_chars[i as int]);
        let chr: u16 = glyph_chars[i] as u32 as u16;
        codes.push(chr);
        assert(codes@ =~= bmp_codes(after_first(glyph_chars@)).take(i as int));
        i += 1;
    }
    if glyph_chars.len() > 0 {
        assert(i == glyph_chars.len());
        assert(bmp_codes(after_first(glyph_chars@)).len() == glyph_chars.len() - 1);
        assert(bmp_codes(after_first(glyph_chars@)).take(i - 1) =~= bmp_codes(
            after_first(glyph_chars@),
        ));
    } else {
        assert(codes@.len() == 0);
        assert(bmp_codes(after_first(glyph_chars@)).len() == 0);
    }
    assert(codes@ =~= bmp_codes(after_first(glyph_chars@)));
    let no_glyph_ids: Vec<u16> = Vec::new();
    assert(no_glyph_ids@.map_values(|x: u16| x as int) =~= Seq::<int>::empty());
    encode_cmap(&codes, 1, &no_glyph_ids)
}

/// The largest value of `s`, or 0 for an empty sequence.
pub open spec fn max_u16(s: Seq<u16>) -> u16
    decreases s.len(),
{
    if s.len() == 0 {
        0
    } else if s.len() == 1 || max_u16(s.drop_last()) < s.last() {
        s.last()
    } else {
        max_u16(s.drop_last())
    }
}

/// The smallest value of `s`, or 0 for an empty sequence.
pub open spec fn min_i16(s: Seq<i16>) -> i16
    decreases s.len(),
{
    if s.len() == 0 {
        0
    } else if s.len() == 1 || s.last() < min_i16(s.drop_last()) {
        s.last()
    } else {
        min_i16(s.drop_last())
    }
}

/// The largest value is at least every value and, for a sequence that is
/// not empty, is one of them.
pub proof fn lemma_max_u16_is_max(s: Seq<u16>)
    ensures
        forall|i: int| 0 <= i < s.len() ==> s[i] <= #[trigger] max_u16(s),
        s.len() > 0 ==> exists|i: int| 0 <= i < s.len() && s[i] == max_u16(s),
        s.len() == 0 ==> max_u16(s) == 0,
    decreases s.len(),
{
    if s.len() > 0 {
        lemma_max_u16_is_max(s.drop_last());
        assert forall|i: int| 0 <= i < s.len() implies s[i] <= #[trigger] max_u16(s) by {
            if i < s.len() - 1 {
                assert(s[i] == s.drop_last()[i]);
            }
        }
        if s.len() > 1 && max_u16(s) != s.last() {
            let j = choose|j: int| 0 <= j < s.drop_last().len() && s.drop_last()[j] == max_u16(s.drop_last());
            assert(s[j] == max_u16(s));
        } else {
            assert(s[s.len() - 1] == max_u16(s));
        }
    }
}

/// The smallest value is at most every value and, for a sequence that is
/// not empty, is one of them.
pub proof fn lemma_min_i16_is_min(s: Seq<i16>)
    ensures
        forall|i: int| 0 <= i < s.len() ==> #[trigger] min_i16(s) <= s[i],
        s.len() > 0 ==> exists|i: int| 0 <= i < s.len() && s[i] == min_i16(s),
        s.len() == 0 ==> min_i16(s) == 0,
    decreases s.len(),
{
    if s.len() > 0 {
        lemma_min_i16_is_min(s.drop_last());
        assert forall|i: int| 0 <= i < s.len() implies #[trigger] min_i16(s) <= s[i] by {
            if i < s.len() - 1 {
                assert(s[i] == s.drop_last()[i]);
            }
        }
        if s.len() > 1 && min_i16(s) != s.last() {
            let j = choose|j: int| 0 <= j < s.drop_last().len() && s.drop_last()[j] == min_i16(s.drop_last());
            assert(s[j] == min_i16(s));
        } else {
            assert(s[s.len() - 1] == min_i16(s));
        }
    }
}

/// The `hhea` header that describes `records`, with the given vertical metrics.
pub open spec fn header_for(
    records: Seq<HorizontalMetricRecord>,
    ascender: i16,
    descender: i16,
    line_gap: i16,
) -> HorizontalHeader {
    HorizontalHeader {
        version: (1, 0),
        ascender,
        descender,
        line_gap,
        advance_width_max: max_u16(records.map_values(|r: HorizontalMetricRecord| r.advance_width)),
        left_side_bearing_min: min_i16(
            records.map_values(|r: HorizontalMetricRecord| r.left_side_bearing),
        ),
        right_side_bearing_min: 6,
        max_x_extent: 900,
        caret_slope_rise: 1,
        caret_slope_run: 0,
        caret_offset: 0,
        reserved: 0,
        format: 0,
        number_of_h_metrics: (records.len() % 0x1_0000) as u16,
    }
}

fn max_advance_width(records: &Vec<HorizontalMetricRecord>) -> (m: u16)
    ensures
        m == max_u16(records@.map_values(|r: HorizontalMetricRecord| r.advance_width)),
{
    let ghost widths = records@.map_values(|r: HorizontalMetricRecord| r.advance_width);
    let mut advance_width_max: u16 = 0;
    let mut i: usize = 0;
    while i < records.len()
        invariant
            0 <= i <= records.len(),
            widths == records@.map_values(|r: HorizontalMetricRecord| r.advance_width),
            advance_width_max == max_u16(widths.take(i as int)),
        decreases records.len() - i,
    {
        assert(widths.take(i + 1).drop_last() =~= widths.take(i as int));
        if i == 0 || advance_width_max < records[i].advance_width {
            advance_width_max = records[i].advance_width;
        }
        i += 1;
    }
    assert(widths.take(records.len() as int) =~= widths);
    advance_width_max
}

fn min_left_side_bearing(records: &Vec<HorizontalMetricRecord>) -> (m: i16)
    ensures
        m == min_i16(records@.map_values(|r: HorizontalMetricRecord| r.left_side_bearing)),
{
    let ghost lsbs = records@.map_values(|r: HorizontalMetricRecord| r.left_side_bearing);
    let mut left_side_bearing_min: i16 = 0;
    let mut i: usize = 0;
    while i < records.len()
        invariant
            0 <= i <= records.len(),
            lsbs == records@.map_values(|r: HorizontalMetricRecord| r.left_side_bearing),
            left_side_bearing_min == min_i16(lsbs.take(i as int)),
        decreases records.len() - i,
    {
        assert(lsbs.take(i + 1).drop_last() =~= lsbs.take(i as int));
        if i == 0 || records[i].left_side_bearing < left_side_bearing_min {
            left_side_bearing_min = records[i].left_side_bearing;
        }
        i += 1;
    }
    assert(lsbs.take(records.len() as int) =~= lsbs);
    left_side_bearing_min
}

/// The value of the big-endian 16-bit field at `at` in `b`.
pub open spec fn field16(b: Seq<u8>, at: int) -> int {
    b[at] * 256 + b[at + 1]
}

/// The `hhea` table of a set of glyph metrics names, as its widest advance
/// (bytes 10 and 11), the advance of a glyph that is at least the advance
/// of every glyph, and as its smallest left side bearing (bytes 12 and 13)
/// the bearing of a glyph that is at most every glyph's; 0 for each when
/// there are no glyphs.
pub proof fn lemma_hhea_extremes(
    records: Seq<HorizontalMetricRecord>,
    ascender: i16,
    descender: i16,
    line_gap: i16,
)
    ensures
        ({
            let b = hhea_bytes(header_for(records, ascender, descender, line_gap));
            let max = field16(b, 10);
            let min = field16(b, 12);
            &&& forall|i: int| 0 <= i < records.len() ==> (#[trigger] records[i]).advance_width <= max
            &&& records.len() > 0 ==> exists|i: int| 0 <= i < records.len() && records[i].advance_width == max
            &&& records.len() == 0 ==> max == 0
            &&& min == (min_i16_of(records) as int) % 0x1_0000
            &&& forall|i: int| 0 <= i < records.len() ==> min_i16_of(records) <= (#[trigger] records[i]).left_side_bearing
            &&& records.len() > 0 ==> exists|i: int| 0 <= i < records.len() && records[i].left_side_bearing == min_i16_of(records)
        }),
{
    let widths = records.map_values(|r: HorizontalMetricRecord| r.advance_width);
    let lsbs = records.map_values(|r: HorizontalMetricRecord| r.left_side_bearing);
    lemma_max_u16_is_max(widths);
    lemma_min_i16_is_min(lsbs);
    let h = header_for(records, ascender, descender, line_gap);
    lemma_hhea_fields(h);
    assert forall|i: int| 0 <= i < records.len() implies (#[trigger] records[i]).advance_width <= h.advance_width_max by {
        assert(widths[i] == records[i].advance_width);
    }
    if records.len() > 0 {
        let j = choose|j: int| 0 <= j < widths.len() && widths[j] == max_u16(widths);
        assert(records[j].advance_width == widths[j]);
        let k = choose|k: int| 0 <= k < lsbs.len() && lsbs[k] == min_i16(lsbs);
        assert(records[k].left_side_bearing == lsbs[k]);
    }
    assert forall|i: int| 0 <= i < records.len() implies min_i16_of(records) <= (#[trigger] records[i]).left_side_bearing by {
        assert(lsbs[i] == records[i].left_side_bearing);
    }
}

/// The smallest left side bearing of the records.
pub open spec fn min_i16_of(records: Seq<HorizontalMetricRecord>) -> i16 {
    min_i16(records.map_values(|r: HorizontalMetricRecord| r.left_side_bearing))
}

/// The two bytes of `be16(x)` read back give `x` modulo 2^16.
proof fn lemma_be16_value(x: int)
    ensures
        be16(x)[0] * 256 + be16(x)[1] == x % 0x1_0000,
{
    let v = x % 0x1_0000;
    assert(0 <= v < 0x1_0000);
    assert(0 <= v / 0x100 < 0x100);
    assert((v / 0x100) as u8 == v / 0x100);
    assert((v % 0x100) as u8 == v % 0x100);
    assert(v / 0x100 * 256 + v % 0x100 == v);
}

/// Where the widest advance and the smallest left side bearing stand in the
/// encoded `hhea` table.
proof fn lemma_hhea_fields(h: HorizontalHeader)
    ensures
        field16(hhea_bytes(h), 10) == h.advance_width_max,
        field16(hhea_bytes(h), 12) == (h.left_side_bearing_min as int) % 0x1_0000,
{
    lemma_be16_value(h.advance_width_max as int);
    lemma_be16_value(h.left_side_bearing_min as int);
    let pre = be16(h.version.0 as int) + be16(h.version.1 as int) + be16(h.ascender as int) + be16(
        h.descender as int,
    ) + be16(h.line_gap as int);
    let m = be16(h.advance_width_max as int);
    let l = be16(h.left_side_bearing_min as int);
    let head = pre + m + l;
    assert(pre.len() == 10);
    assert(head.len() == 14);
    assert(head[10] == m[0] && head[11] == m[1] && head[12] == l[0] && head[13] == l[1]);
    let b = hhea_bytes(h);
    assert(b.subrange(0, 14) =~= head) by {
        lemma_head_of_hhea(h, head);
    }
    assert(b[10] == b.subrange(0, 14)[10]);
    assert(b[11] == b.subrange(0, 14)[11]);
    assert(b[12] == b.subrange(0, 14)[12]);
    assert(b[13] == b.subrange(0, 14)[13]);
}

/// The first fourteen bytes of the encoded `hhea` table.
#[verifier::rlimit(50)]
proof fn lemma_head_of_hhea(h: HorizontalHeader, head: Seq<u8>)
    requires
        head == be16(h.version.0 as int) + be16(h.version.1 as int) + be16(h.ascender as int) + be16(
            h.descender as int,
        ) + be16(h.line_gap as int) + be16(h.advance_width_max as int) + be16(h.left_side_bearing_min as int),
    ensures
        hhea_bytes(h).subrange(0, 14) == head,
{
    let rest = be16(h.right_side_bearing_min as int) + be16(h.max_x_extent as int) + be16(h.caret_slope_rise as int)
        + be16(h.caret_slope_run as int) + be16(h.caret_offset as int) + be64(h.reserved as int) + be16(h.format as int)
        + be16(h.number_of_h_metrics as int);
    assert(head.len() == 14);
    assert(hhea_bytes(h) =~= head + rest);
    assert((head + rest).subrange(0, 14) =~= head);
}

/// Builds the `hhea` and `hmtx` tables from the metrics of each glyph, in
/// glyph id order, and the font's vertical metrics.
pub fn make_horiz_tables(
    records: Vec<HorizontalMetricRecord>,
    ascender: i16,
    descender: i16,
    line_gap: i16,
) -> (r: (Vec<u8>, Vec<u8>))
    ensures
        r.0@ == hhea_bytes(header_for(records@, ascender, descender, line_gap)),
        r.1@ == hmtx_bytes(records@, Seq::empty()),
{
    let advance_width_max = max_advance_width(&records);
    let left_side_bearing_min = min_left_side_bearing(&records);
    let metrics = HorizontalMetrics { records, left_side_bearings: Vec::new() };
    let hhea = HorizontalHeader {
        version: (1, 0),
        ascender,
        descender,
        line_gap,
        advance_width_max,
        left_side_bearing_min,
        // fixed placeholder values, not measured from the glyphs
        right_side_bearing_min: 6,
        max_x_extent: 900,
        caret_slope_rise: 1,
        caret_slope_run: 0,
        caret_offset: 0,
        reserved: 0,
        format: 0,
        number_of_h_metrics: (metrics.records.len() % 65536) as u16,
    };
    assert(hhea == header_for(metrics.records@, ascender, descender, line_gap));
    let hmtx = metrics.encode();
    assert(metrics.left_side_bearings@ =~= Seq::<i16>::empty());
    (hhea.encode(), hmtx)
}


/// One kerning pair of a format 0 `kern` subtable.
#[derive(Clone, Copy, PartialEq, Eq, Structural, Debug)]
pub struct KernFormat0Pair {
    pub left: u16,
    pub right: u16,
    pub value: i16,
}

/// Pairs are ordered by their glyph ids only, not by their value.
impl SortKey for KernFormat0Pair {
    open spec fn key(&self) -> (u16, u16) {
        (self.left, self.right)
    }

    fn sort_key(&self) -> (r: (u16, u16)) {
        (self.left, self.right)
    }
}

pub open spec fn pair_bytes(p: KernFormat0Pair) -> Seq<u8> {
    be16(p.left as int) + be16(p.right as int) + be16(p.value as int)
}

/// The concatenated encodings of a sequence of pairs.
pub open spec fn pairs_bytes(ps: Seq<KernFormat0Pair>) -> Seq<u8>
    decreases ps.len(),
{
    if ps.len() == 0 {
        Seq::empty()
    } else {
        pairs_bytes(ps.drop_last()) + pair_bytes(ps.last())
    }
}

impl KernFormat0Pair {
    pub fn encode(&self) -> (r: Vec<u8>)
        ensures
            r@ == pair_bytes(*self),
    {
        let mut result = Vec::with_capacity(6);
        push_u16(&mut result, self.left);
        push_u16(&mut result, self.right);
        push_i16(&mut result, self.value);
        assert(result@ =~= pair_bytes(*self));
        result
    }
}

/// The coverage flags of a `kern` subtable.
#[derive(Clone, Copy, PartialEq, Eq, Structural, Debug)]
pub struct KernSubtableCoverage {
    pub horizontal: bool,
    pub minimum: bool,
    pub cross_stream: bool,
    pub over_ride: bool,
    pub format: u8,
}

/// The coverage word: one bit per flag, in the low bits, and the format in
/// the high byte.
pub open spec fn coverage_bits(c: KernSubtableCoverage) -> u16 {
    ((if c.horizontal { 1int } else { 0 }) + (if c.minimum { 2int } else { 0 }) + (if c.cross_stream {
        4int
    } else {
        0
    }) + (if c.over_ride { 8int } else { 0 }) + c.format * 256) as u16
}

impl KernSubtableCoverage {
    /// Horizontal kerning values, format 0.
    pub fn default() -> (c: KernSubtableCoverage)
        ensures
            c == (KernSubtableCoverage {
                horizontal: true,
                minimum: false,
                cross_stream: false,
                over_ride: false,
                format: 0,
            }),
    {
        KernSubtableCoverage {
            horizontal: true,
            minimum: false,
            cross_stream: false,
            over_ride: false,
            format: 0,
        }
    }

    pub fn encode(&self) -> (r: u16)
        ensures
            r == coverage_bits(*self),
    {
        let mut r: u16 = 0;
        if self.horizontal {
            r = r + 1;
        }
        if self.minimum {
            r = r + 2;
        }
        if self.cross_stream {
            r = r + 4;
        }
        if self.over_ride {
            r = r + 8;
        }
        r = r + (self.format as u16) * 256;
        r
    }
}

/// A format 0 `kern` subtable.
pub struct KernSubtable {
    pub version: u16,
    pub coverage: KernSubtableCoverage,
    pub pairs: Vec<KernFormat0Pair>,
}

/// The subtable's search range: six times 2 to the power
/// `(15 - leading zeros of n) mod 16`, modulo 2^16.
pub open spec fn kern_search_range(n: u16) -> int {
    ((pow2(((15 - n.leading_zeros()) % 16) as nat) * 6) % 0x1_0000) as int
}

/// The subtable's entry selector field: six times 2 to the power
/// `(16 - leading zeros of n) mod 16`, modulo 2^16.
pub open spec fn kern_entry_selector(n: u16) -> int {
    ((pow2(((16 - n.leading_zeros()) % 16) as nat) * 6) % 0x1_0000) as int
}

/// The encoded subtable, with its pairs in the order `sorted`.
pub open spec fn subtable_bytes(
    version: u16,
    coverage: KernSubtableCoverage,
    n_pairs: int,
    sorted: Seq<KernFormat0Pair>,
) -> Seq<u8> {
    let n = (n_pairs % 0x1_0000) as u16;
    be16(version as int) + be_usize(6 + n_pairs * 6) + be16(coverage_bits(coverage) as int) + be16(
        n as int,
    ) + be16(kern_search_range(n)) + be16(kern_entry_selector(n)) + be16(
        n - kern_search_range(n),
    ) + pairs_bytes(sorted)
}


/// `bytes` encodes the subtable `st`: its pairs appear stably sorted by
/// their glyph ids.
pub open spec fn encodes_subtable(
    version: u16,
    coverage: KernSubtableCoverage,
    pairs: Seq<KernFormat0Pair>,
    bytes: Seq<u8>,
) -> bool {
    exists|sorted: Seq<KernFormat0Pair>|
        stably_sorted(sorted, pairs) && bytes == subtable_bytes(
            version,
            coverage,
            pairs.len() as int,
            sorted,
        )
}

/// 2 to the power `e`.
fn pow2_u16(e: u32) -> (r: u16)
    requires
        e < 16,
    ensures
        r as nat == pow2(e as nat),
{
    proof {
        lemma2_to64();
    }
    let mut r: u16 = 1;
    let mut i: u32 = 0;
    while i < e
        invariant
            0 <= i <= e < 16,
            r as nat == pow2(i as nat),
        decreases e - i,
    {
        proof {
            lemma2_to64();
            vstd::arithmetic::power2::lemma_pow2_unfold((i + 1) as nat);
        }
        r = r * 2;
        i += 1;
    }
    r
}

/// The subtable's fields before its pairs.
pub open spec fn subtable_header_bytes(
    version: u16,
    coverage: KernSubtableCoverage,
    n_pairs: int,
) -> Seq<u8> {
    let n = (n_pairs % 0x1_0000) as u16;
    be16(version as int) + be_usize(6 + n_pairs * 6) + be16(coverage_bits(coverage) as int) + be16(
        n as int,
    ) + be16(kern_search_range(n)) + be16(kern_entry_selector(n)) + be16(
        n - kern_search_range(n),
    )
}

/// The search range, entry selector, and range shift for `n_pairs` pairs,
/// computed with wrapping 16-bit arithmetic.
fn kern_search_fields(n_pairs: u16) -> (r: (u16, u16, u16))
    ensures
        r.0 as int == kern_search_range(n_pairs),
        r.1 as int == kern_entry_selector(n_pairs),
        r.2 as int == (n_pairs - kern_search_range(n_pairs)) % 0x1_0000,
{
    let lz = n_pairs.leading_zeros();
    proof {
        vstd::std_specs::bits::axiom_u16_leading_zeros(n_pairs);
    }
    let search_range: u16 = pow2_u16((31 - lz) % 16).wrapping_mul(6);
    let entry_selector: u16 = pow2_u16((32 - lz) % 16).wrapping_mul(6);
    let range_shift: u16 = n_pairs.wrapping_sub(search_range);
    assert((31 - lz) % 16 == (15 - lz) % 16);
    assert((32 - lz) % 16 == (16 - lz) % 16);
    (search_range, entry_selector, range_shift)
}

#[verifier::rlimit(40)]
fn push_subtable_header(
    out: &mut Vec<u8>,
    version: u16,
    coverage: KernSubtableCoverage,
    pair_count: usize,
)
    requires
        pair_count <= (usize::MAX - 6) / 6,
    ensures
        final(out)@ == old(out)@ + subtable_header_bytes(version, coverage, pair_count as int),
{
    let ghost start = out@;
    let length = 6 + pair_count * 6;
    push_u16(out, version);
    push_usize(out, length);
    push_u16(out, coverage.encode());
    let ghost first = out@;
    assert(first =~= start + be16(version as int) + be_usize(6 + pair_count * 6) + be16(coverage_bits(coverage) as int));

    let n_pairs = (pair_count % 65536) as u16;
    push_u16(out, n_pairs);
    let (search_range, entry_selector, range_shift) = kern_search_fields(n_pairs);
    push_u16(out, search_range);
    push_u16(out, entry_selector);
    push_u16(out, range_shift);
    assert(be16(range_shift as int) == be16(n_pairs - kern_search_range(n_pairs)));
    assert(out@ =~= first + be16(n_pairs as int) + be16(kern_search_range(n_pairs)) + be16(
        kern_entry_selector(n_pairs),
    ) + be16(n_pairs - kern_search_range(n_pairs)));
    assert(out@ =~= start + subtable_header_bytes(version, coverage, pair_count as int));
}

/// Appends the encoding of every pair, in order.
fn push_pairs(out: &mut Vec<u8>, pairs: &Vec<KernFormat0Pair>)
    ensures
        final(out)@ == old(out)@ + pairs_bytes(pairs@),
{
    let ghost start = out@;
    let mut j: usize = 0;
    while j < pairs.len()
        invariant
            0 <= j <= pairs.len(),
            out@ == start + pairs_bytes(pairs@.take(j as int)),
        decreases pairs.len() - j,
    {
        let p = pairs[j];
        push_u16(out, p.left);
        push_u16(out, p.right);
        push_i16(out, p.value);
        assert(pairs@.take(j + 1).drop_last() =~= pairs@.take(j as int));
        assert(out@ =~= start + pairs_bytes(pairs@.take(j + 1)));
        j += 1;
    }
    assert(pairs@.take(pairs.len() as int) =~= pairs@);
}

fn copy_pairs(pairs: &Vec<KernFormat0Pair>) -> (r: Vec<KernFormat0Pair>)
    ensures
        r@ == pairs@,
{
    let mut out: Vec<KernFormat0Pair> = Vec::new();
    let mut i: usize = 0;
    while i < pairs.len()
        invariant
            0 <= i <= pairs.len(),
            out@ == pairs@.take(i as int),
        decreases pairs.len() - i,
    {
        out.push(pairs[i]);
        assert(out@ =~= pairs@.take(i + 1));
        i += 1;
    }
    assert(pairs@.take(pairs.len() as int) =~= pairs@);
    out
}

impl KernSubtable {
    pub fn encode(&self) -> (r: Vec<u8>)
        requires
            self.pairs.len() <= (usize::MAX - 6) / 6,
        ensures
            encodes_subtable(self.version, self.coverage, self.pairs@, r@),
    {
        let mut result = Vec::new();
        push_subtable_header(&mut result, self.version, self.coverage, self.pairs.len());
        let mut pairs = copy_pairs(&self.pairs);
        stable_sort(&mut pairs);
        push_pairs(&mut result, &pairs);
        assert(result@ =~= subtable_bytes(
            self.version,
            self.coverage,
            self.pairs.len() as int,
            pairs@,
        ));
        result
    }
}

/// A `kern` table.
pub struct KernTable {
    pub version: u16,
    pub subtables: Vec<KernSubtable>,
}

/// `bytes` encodes a `kern` table with this version and these subtables:
/// the version, the subtable count, then each subtable's encoding.
pub open spec fn encodes_kern_table(version: u16, subtables: Seq<KernSubtable>, bytes: Seq<u8>) -> bool {
    exists|chunks: Seq<Seq<u8>>|
        {
            &&& chunks.len() == subtables.len()
            &&& forall|i: int|
                0 <= i < chunks.len() ==> encodes_subtable(
                    subtables[i].version,
                    subtables[i].coverage,
                    subtables[i].pairs@,
                    #[trigger] chunks[i],
                )
            &&& bytes == be16(version as int) + be16(subtables.len() as int) + chunks.flatten_alt()
        }
}

impl KernTable {
    pub fn encode(&self) -> (r: Vec<u8>)
        requires
            forall|i: int|
                0 <= i < self.subtables.len() ==> (#[trigger] self.subtables[i]).pairs.len() <= (
                usize::MAX - 6) / 6,
        ensures
            encodes_kern_table(self.version, self.subtables@, r@),
    {
        let mut result = Vec::<u8>::new();
        push_u16(&mut result, self.version);
        push_u16(&mut result, (self.subtables.len() % 65536) as u16);
        let ghost header = result@;
        assert(be16((self.subtables.len() % 65536) as int) == be16(self.subtables.len() as int));
        let ghost mut chunks: Seq<Seq<u8>> = Seq::empty();
        let mut i: usize = 0;
        while i < self.subtables.len()
            invariant
                0 <= i <= self.subtables.len(),
                forall|j: int|
                    0 <= j < self.subtables.len() ==> (#[trigger] self.subtables[j]).pairs.len() <= (
                    usize::MAX - 6) / 6,
                chunks.len() == i,
                forall|j: int|
                    0 <= j < i ==> encodes_subtable(
                        self.subtables[j].version,
                        self.subtables[j].coverage,
                        self.subtables[j].pairs@,
                        #[trigger] chunks[j],
                    ),
                result@ == header + chunks.flatten_alt(),
            decreases self.subtables.len() - i,
        {
            let bytes = self.subtables[i].encode();
            let ghost before = result@;
            let mut k: usize = 0;
            while k < bytes.len()
                invariant
                    0 <= k <= bytes.len(),
                    result@ == before + bytes@.take(k as int),
                decreases bytes.len() - k,
            {
                result.push(bytes[k]);
                assert(result@ =~= before + bytes@.take(k + 1));
                k += 1;
            }
            assert(bytes@.take(bytes.len() as int) =~= bytes@);
            proof {
                let next = chunks.push(bytes@);
                assert(next.drop_last() =~= chunks);
                assert(next.flatten_alt() == chunks.flatten_alt() + bytes@);
                assert(result@ =~= header + next.flatten_alt());
                chunks = next;
            }
            i += 1;
        }
        result
    }
}

} // verus!
