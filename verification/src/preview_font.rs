//! The `cmap` table of the preview font: each glyph whose first code point
//! is in the Basic Multilingual Plane maps from that code point, and the
//! table lists the glyph ids after its segments.

use vstd::prelude::*;
use crate::cmap::{cmap_table_bytes, codes_can_advance, encode_cmap};
use crate::sort::{key_is, key_le, stable_sort, stably_sorted, with_key, SortKey};

verus! {

/// A code point and the index of its glyph, both 16 bits wide.
#[derive(Clone, Copy, PartialEq, Eq, Debug, Structural)]
pub struct CodeGlyph {
    pub code: u16,
    pub glyph: u16,
}

impl SortKey for CodeGlyph {
    open spec fn key(&self) -> (u16, u16) {
        (self.code, self.glyph)
    }

    fn sort_key(&self) -> (r: (u16, u16)) {
        (self.code, self.glyph)
    }
}

/// For each glyph, in order, whose first code point and index both fit in 16
/// bits: the pair of them.
pub open spec fn code_glyph_pairs(first_codepoints: Seq<Option<char>>) -> Seq<CodeGlyph>
    decreases first_codepoints.len(),
{
    if first_codepoints.len() == 0 {
        Seq::empty()
    } else {
        let prev = code_glyph_pairs(first_codepoints.drop_last());
        let i = first_codepoints.len() - 1;
        match first_codepoints.last() {
            Some(c) => if (c as u32) <= 0xffff && i <= 0xffff {
                prev.push(CodeGlyph { code: c as u32 as u16, glyph: i as u16 })
            } else {
                prev
            },
            None => prev,
        }
    }
}

/// At most one pair has the code 0xffff.
pub open spec fn at_most_one_last_code(pairs: Seq<CodeGlyph>) -> bool {
    forall|i: int, j: int|
        0 <= i < pairs.len() && 0 <= j < pairs.len() && i != j && (#[trigger] pairs[i]).code == 0xffff
            ==> (#[trigger] pairs[j]).code != 0xffff
}

/// The table for pairs sorted by code, then by glyph: the code at position
/// `k` maps to `k`, and the glyph ids follow the segments.
pub open spec fn preview_cmap_bytes(sorted: Seq<CodeGlyph>) -> Seq<u8> {
    cmap_table_bytes(
        sorted.map_values(|p: CodeGlyph| p.code),
        0,
        sorted.map_values(|p: CodeGlyph| p.glyph as int),
    )
}

/// Two positions that pass a test make a filter at least two long.
proof fn lemma_filter_two<T>(s: Seq<T>, p: spec_fn(T) -> bool, i: int, j: int)
    requires
        0 <= i < j < s.len(),
        p(s[i]),
        p(s[j]),
    ensures
        s.filter(p).len() >= 2,
    decreases s.len(),
{
    reveal(Seq::filter);
    let init = s.drop_last();
    if j == s.len() - 1 {
        assert(init[i] == s[i]);
        init.lemma_filter_contains(p, i);
    } else {
        assert(init[i] == s[i] && init[j] == s[j]);
        lemma_filter_two(init, p, i, j);
    }
}

/// A filter at least two long comes from two positions that pass the test.
proof fn lemma_filter_two_rev<T>(s: Seq<T>, p: spec_fn(T) -> bool)
    requires
        s.filter(p).len() >= 2,
    ensures
        exists|i: int, j: int| 0 <= i < j < s.len() && p(#[trigger] s[i]) && p(#[trigger] s[j]),
    decreases s.len(),
{
    reveal(Seq::filter);
    let init = s.drop_last();
    if p(s.last()) {
        let x = init.filter(p)[0];
        assert(init.filter(p).contains(x));
        init.lemma_filter_pred(p, 0);
        init.lemma_filter_contains_rev(p, x);
        let i = choose|i: int| 0 <= i < init.len() && init[i] == x;
        assert(s[i] == init[i]);
        assert(p(s[i]) && p(s[s.len() - 1]));
    } else {
        lemma_filter_two_rev(init, p);
        let (i, j) = choose|i: int, j: int| 0 <= i < j < init.len() && p(#[trigger] init[i]) && p(#[trigger] init[j]);
        assert(s[i] == init[i] && s[j] == init[j]);
    }
}

/// A key that a filter by key finds occurs in the source.
proof fn lemma_with_key_source<T: SortKey>(s: Seq<T>, k: (u16, u16))
    requires
        with_key(s, k).len() >= 1,
    ensures
        exists|i: int| 0 <= i < s.len() && (#[trigger] s[i]).key() == k,
{
    let x = with_key(s, k)[0];
    assert(with_key(s, k).contains(x));
    s.lemma_filter_pred(key_is::<T>(k), 0);
    s.lemma_filter_contains_rev(key_is::<T>(k), x);
    let i = choose|i: int| 0 <= i < s.len() && s[i] == x;
    assert(s[i].key() == k);
}

/// At most one item has a key whose first part is 0xffff.
pub open spec fn at_most_one_last_key<T: SortKey>(s: Seq<T>) -> bool {
    forall|i: int, j: int|
        0 <= i < s.len() && 0 <= j < s.len() && i != j && (#[trigger] s[i]).key().0 == 0xffff
            ==> (#[trigger] s[j]).key().0 != 0xffff
}

/// When at most one item has a key starting with 0xffff, only the last item
/// of the sorted sequence can.
proof fn lemma_sorted_keys_advance<T: SortKey>(out: Seq<T>, inp: Seq<T>)
    requires
        stably_sorted(out, inp),
        at_most_one_last_key(inp),
    ensures
        forall|k: int| 0 <= k < out.len() - 1 ==> (#[trigger] out[k]).key().0 < 0xffff,
{
    assert forall|k: int| 0 <= k < out.len() - 1 implies (#[trigger] out[k]).key().0 < 0xffff by {
        if out[k].key().0 == 0xffff {
            let a = out[k].key();
            let b = out[k + 1].key();
            assert(key_le(out[k].key(), out[k + 1].key()));
            assert(b.0 == 0xffff);
            if a == b {
                lemma_filter_two(out, key_is::<T>(a), k, k + 1);
                assert(with_key(out, a) == with_key(inp, a));
                lemma_filter_two_rev(inp, key_is::<T>(a));
                let (i, j) = choose|i: int, j: int|
                    0 <= i < j < inp.len() && key_is::<T>(a)(#[trigger] inp[i]) && key_is::<T>(a)(#[trigger] inp[j]);
                assert(inp[i].key().0 == 0xffff && inp[j].key().0 == 0xffff);
            } else {
                out.lemma_filter_contains(key_is::<T>(a), k);
                out.lemma_filter_contains(key_is::<T>(b), k + 1);
                assert(with_key(out, a) == with_key(inp, a));
                assert(with_key(out, b) == with_key(inp, b));
                lemma_with_key_source(inp, a);
                lemma_with_key_source(inp, b);
                let i = choose|i: int| 0 <= i < inp.len() && (#[trigger] inp[i]).key() == a;
                let j = choose|j: int| 0 <= j < inp.len() && (#[trigger] inp[j]).key() == b;
                assert(inp[i].key().0 == 0xffff && inp[j].key().0 == 0xffff);
            }
        }
    }
}

/// The pairs of code point and glyph index of the glyphs, in glyph order.
pub fn code_glyph_pairs_of(first_codepoints: &[Option<char>]) -> (r: Vec<CodeGlyph>)
    ensures
        r@ == code_glyph_pairs(first_codepoints@),
{
    let mut out: Vec<CodeGlyph> = Vec::new();
    let mut i: usize = 0;
    while i < first_codepoints.len()
        invariant
            0 <= i <= first_codepoints.len(),
            out@ == code_glyph_pairs(first_codepoints@.take(i as int)),
        decreases first_codepoints.len() - i,
    {
        let ghost pre = first_codepoints@.take(i + 1);
        assert(pre.drop_last() =~= first_codepoints@.take(i as int));
        match first_codepoints[i] {
            Some(c) => {
                let code: u32 = c as u32;
                if code <= 0xffff && i <= 0xffff {
                    out.push(CodeGlyph { code: code as u16, glyph: i as u16 });
                }
            },
            None => {},
        }
        i += 1;
    }
    assert(first_codepoints@.take(first_codepoints.len() as int) =~= first_codepoints@);
    out
}

/// Builds the preview font's `cmap` table from the first code point of each
/// glyph, in glyph order.
pub fn make_cmap_table(first_codepoints: &[Option<char>]) -> (r: Vec<u8>)
    requires
        at_most_one_last_code(code_glyph_pairs(first_codepoints@)),
    ensures
        exists|sorted: Seq<CodeGlyph>|
            stably_sorted(sorted, code_glyph_pairs(first_codepoints@)) && r@ == preview_cmap_bytes(
                sorted,
            ),
{
    let mut data = code_glyph_pairs_of(first_codepoints);
    let ghost inp = data@;
    stable_sort(&mut data);
    let mut codes: Vec<u16> = Vec::new();
    let mut glyph_ids: Vec<u16> = Vec::new();
    let mut k: usize = 0;
    while k < data.len()
        invariant
            0 <= k <= data.len(),
            codes@ == data@.take(k as int).map_values(|p: CodeGlyph| p.code),
            glyph_ids@ == data@.take(k as int).map_values(|p: CodeGlyph| p.glyph),
        decreases data.len() - k,
    {
        codes.push(data[k].code);
        glyph_ids.push(data[k].glyph);
        assert(codes@ =~= data@.take(k + 1).map_values(|p: CodeGlyph| p.code));
        assert(glyph_ids@ =~= data@.take(k + 1).map_values(|p: CodeGlyph| p.glyph));
        k += 1;
    }
    assert(data@.take(data.len() as int) =~= data@);
    proof {
        assert(at_most_one_last_key(inp)) by {
            assert forall|i: int, j: int|
                0 <= i < inp.len() && 0 <= j < inp.len() && i != j && (#[trigger] inp[i]).key().0 == 0xffff
                    implies (#[trigger] inp[j]).key().0 != 0xffff by {
                assert(inp[i].code == 0xffff);
            }
        }
        lemma_sorted_keys_advance(data@, inp);
        assert(codes_can_advance(codes@)) by {
            assert forall|k: int| 0 <= k < codes@.len() - 1 implies #[trigger] codes@[k] < 0xffff by {
                assert(data@[k].key().0 < 0xffff);
            }
        }
        assert(glyph_ids@.map_values(|x: u16| x as int) =~= data@.map_values(|p: CodeGlyph| p.glyph as int));
    }
    let r = encode_cmap(&codes, 0, &glyph_ids);
    assert(stably_sorted(data@, code_glyph_pairs(first_codepoints@)) && r@ == preview_cmap_bytes(data@));
    r
}

/// The preview font: the name and the first code point of each glyph, in
/// the order of its default layer.
pub struct UfOtf {
    glyph_names: Vec<String>,
    first_codepoints: Vec<Option<char>>,
}

impl UfOtf {
    pub closed spec fn names(self) -> Seq<Seq<char>> {
        self.glyph_names@.map_values(|s: String| s@)
    }

    pub closed spec fn codepoints(self) -> Seq<Option<char>> {
        self.first_codepoints@
    }

    pub fn new(glyph_names: Vec<String>, first_codepoints: Vec<Option<char>>) -> (r: Self)
        ensures
            r.names() == glyph_names@.map_values(|s: String| s@),
            r.codepoints() == first_codepoints@,
    {
        UfOtf { glyph_names, first_codepoints }
    }

    /// The name of the glyph with this id. Ids are glyph indices taken
    /// modulo 2^16; where several glyphs share one, the last of them has it.
    pub fn glyph_for_id(&self, id: u16) -> (r: Option<String>)
        ensures
            r is None <==> id >= self.names().len(),
            r matches Some(name) ==> exists|i: int|
                0 <= i < self.names().len() && i % 0x1_0000 == id && name@ == self.names()[i]
                    && i + 0x1_0000 >= self.names().len(),
    {
        let n = self.glyph_names.len();
        if (id as usize) >= n {
            return None;
        }
        let mut i: usize = id as usize;
        while n - i > 0x1_0000
            invariant
                i < n == self.glyph_names.len(),
                i % 0x1_0000 == id,
            decreases n - i,
        {
            i = i + 0x1_0000;
        }
        let name = self.glyph_names[i].clone();
        assert(self.names()[i as int] == self.glyph_names@[i as int]@);
        Some(name)
    }

    /// The `cmap` table of the font.
    pub fn make_cmap_table(&self) -> (r: Vec<u8>)
        requires
            at_most_one_last_code(code_glyph_pairs(self.codepoints())),
        ensures
            exists|sorted: Seq<CodeGlyph>|
                stably_sorted(sorted, code_glyph_pairs(self.codepoints())) && r@ == preview_cmap_bytes(
                    sorted,
                ),
    {
        make_cmap_table(self.first_codepoints.as_slice())
    }
}

} // verus!
