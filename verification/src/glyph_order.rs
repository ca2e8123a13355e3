//! The glyph order of the virtual font: `.notdef` and one entry for each
//! code point of each glyph, sorted by code point, then by glyph name.

use vstd::prelude::*;
use vstd::multiset::Multiset;
use vstd::string::StrSliceExecFns;

verus! {

/// `a` comes strictly before `b`, comparing characters in order.
pub open spec fn chars_lt(a: Seq<char>, b: Seq<char>) -> bool
    decreases a.len(),
{
    if a.len() == 0 {
        b.len() > 0
    } else if b.len() == 0 {
        false
    } else if a[0] != b[0] {
        a[0] < b[0]
    } else {
        chars_lt(a.drop_first(), b.drop_first())
    }
}

/// The order of glyph entries: by character, then by name.
pub open spec fn entry_le(a: (char, Seq<char>), b: (char, Seq<char>)) -> bool {
    a.0 < b.0 || (a.0 == b.0 && !chars_lt(b.1, a.1))
}

/// An entry as plain values.
pub open spec fn entry_view(e: (char, String)) -> (char, Seq<char>) {
    (e.0, e.1@)
}

/// The entries are in order.
pub open spec fn entries_sorted(s: Seq<(char, String)>) -> bool {
    forall|i: int, j: int| 0 <= i < j < s.len() ==> entry_le(entry_view(#[trigger] s[i]), entry_view(#[trigger] s[j]))
}

/// The entries, as plain values, counted with their multiplicity.
pub open spec fn entry_multiset(s: Seq<(char, String)>) -> Multiset<(char, Seq<char>)> {
    s.map_values(|e: (char, String)| entry_view(e)).to_multiset()
}

/// Whether `a` comes strictly before `b`.
fn str_lt(a: &str, b: &str) -> (r: bool)
    ensures
        r == chars_lt(a@, b@),
{
    let n = a.unicode_len();
    let m = b.unicode_len();
    let mut i: usize = 0;
    assert(a@.skip(0) =~= a@ && b@.skip(0) =~= b@);
    while i < n && i < m
        invariant
            n == a@.len(),
            m == b@.len(),
            0 <= i <= n,
            i <= m,
            chars_lt(a@, b@) == chars_lt(a@.skip(i as int), b@.skip(i as int)),
        decreases n - i,
    {
        let x = a.get_char(i);
        let y = b.get_char(i);
        assert(a@.skip(i as int)[0] == x && b@.skip(i as int)[0] == y);
        if x != y {
            return x < y;
        }
        assert(a@.skip(i as int).drop_first() =~= a@.skip(i + 1));
        assert(b@.skip(i as int).drop_first() =~= b@.skip(i + 1));
        i += 1;
    }
    i == n && i < m
}

/// Whether entry `a` may come before entry `b`.
fn entry_leq(a: &(char, String), b: &(char, String)) -> (r: bool)
    ensures
        r == entry_le(entry_view(*a), entry_view(*b)),
{
    if a.0 < b.0 {
        true
    } else if a.0 == b.0 {
        !str_lt(b.1.as_str(), a.1.as_str())
    } else {
        false
    }
}

/// No sequence comes before itself.
proof fn lemma_chars_lt_irreflexive(a: Seq<char>)
    ensures
        !chars_lt(a, a),
    decreases a.len(),
{
    if a.len() > 0 {
        lemma_chars_lt_irreflexive(a.drop_first());
    }
}

/// Of two different sequences, exactly one comes first.
proof fn lemma_chars_lt_total(a: Seq<char>, b: Seq<char>)
    ensures
        chars_lt(a, b) ==> !chars_lt(b, a),
        a != b ==> chars_lt(a, b) || chars_lt(b, a),
    decreases a.len(),
{
    if a.len() > 0 && b.len() > 0 {
        lemma_chars_lt_total(a.drop_first(), b.drop_first());
        if a[0] == b[0] && a.drop_first() == b.drop_first() {
            assert(a =~= seq![a[0]] + a.drop_first());
            assert(b =~= seq![b[0]] + b.drop_first());
        }
    } else if a.len() == 0 && b.len() == 0 {
        assert(a =~= b);
    }
}

/// Coming first is transitive.
proof fn lemma_chars_lt_transitive(a: Seq<char>, b: Seq<char>, c: Seq<char>)
    requires
        chars_lt(a, b),
        chars_lt(b, c),
    ensures
        chars_lt(a, c),
    decreases a.len(),
{
    if a.len() > 0 && b.len() > 0 && c.len() > 0 && a[0] == b[0] && b[0] == c[0] {
        lemma_chars_lt_transitive(a.drop_first(), b.drop_first(), c.drop_first());
    }
}

/// `entry_le` is a total preorder.
proof fn lemma_entry_le_order(a: (char, Seq<char>), b: (char, Seq<char>), c: (char, Seq<char>))
    ensures
        entry_le(a, b) || entry_le(b, a),
        entry_le(a, b) && entry_le(b, c) ==> entry_le(a, c),
{
    lemma_chars_lt_total(a.1, b.1);
    lemma_chars_lt_irreflexive(a.1);
    if entry_le(a, b) && entry_le(b, c) && a.0 == c.0 && chars_lt(c.1, a.1) {
        // then a.0 == b.0 == c.0, and c < a <= b, so c < b
        lemma_chars_lt_total(a.1, b.1);
        if a.1 == b.1 {
        } else {
            lemma_chars_lt_total(b.1, a.1);
            lemma_chars_lt_transitive(c.1, a.1, b.1);
        }
    }
}

/// The multiset of a concatenation.
proof fn lemma_entry_multiset_add(a: Seq<(char, String)>, b: Seq<(char, String)>)
    ensures
        entry_multiset(a + b) == entry_multiset(a).add(entry_multiset(b)),
{
    let f = |e: (char, String)| entry_view(e);
    assert((a + b).map_values(f) =~= a.map_values(f) + b.map_values(f));
    vstd::seq_lib::lemma_multiset_commutative(a.map_values(f), b.map_values(f));
}

/// Sorts the entries by character, then by name.
pub fn sort_entries(v: Vec<(char, String)>) -> (r: Vec<(char, String)>)
    ensures
        entries_sorted(r@),
        entry_multiset(r@) == entry_multiset(v@),
{
    broadcast use {vstd::seq_lib::to_multiset_build, vstd::seq_lib::to_multiset_insert};

    let ghost inp = v@;
    let mut rest = v;
    let mut out: Vec<(char, String)> = Vec::new();
    assert(rest@ + out@ =~= inp);
    while rest.len() > 0
        invariant
            entries_sorted(out@),
            entry_multiset(rest@ + out@) == entry_multiset(inp),
        decreases rest.len(),
    {
        let ghost before_rest = rest@;
        let x = rest.pop().unwrap();
        proof {
            assert(before_rest =~= rest@.push(x));
            assert(rest@.push(x).map_values(|e: (char, String)| entry_view(e)) =~= rest@.map_values(
                |e: (char, String)| entry_view(e),
            ).push(entry_view(x)));
            lemma_entry_multiset_add(rest@.push(x), out@);
            lemma_entry_multiset_add(rest@, out@);
        }
        let mut p = out.len();
        while p > 0 && !entry_leq(&out[p - 1], &x)
            invariant
                0 <= p <= out.len(),
                entries_sorted(out@),
                forall|j: int| p <= j < out.len() ==> !entry_le(entry_view(#[trigger] out@[j]), entry_view(x)),
            decreases p,
        {
            p -= 1;
        }
        proof {
            assert forall|j: int| 0 <= j < p implies entry_le(entry_view(#[trigger] out@[j]), entry_view(x)) by {
                lemma_entry_le_order(entry_view(out@[j]), entry_view(out@[p - 1]), entry_view(x));
            }
            assert forall|j: int| p <= j < out.len() implies entry_le(entry_view(x), entry_view(#[trigger] out@[j])) by {
                lemma_entry_le_order(entry_view(x), entry_view(out@[j]), entry_view(x));
            }
        }
        let ghost before_out = out@;
        out.insert(p, x);
        proof {
            assert forall|i: int, j: int| 0 <= i < j < out@.len() implies entry_le(
                entry_view(#[trigger] out@[i]),
                entry_view(#[trigger] out@[j]),
            ) by {
                if i < p && j < p {
                    assert(out@[i] == before_out[i] && out@[j] == before_out[j]);
                } else if i < p && j == p {
                    assert(out@[i] == before_out[i]);
                } else if i < p {
                    assert(out@[i] == before_out[i] && out@[j] == before_out[j - 1]);
                    lemma_entry_le_order(entry_view(before_out[i]), entry_view(x), entry_view(before_out[j - 1]));
                } else if i == p {
                    assert(out@[j] == before_out[j - 1]);
                } else {
                    assert(out@[i] == before_out[i - 1] && out@[j] == before_out[j - 1]);
                }
            }
            assert(out@.map_values(|e: (char, String)| entry_view(e)) =~= before_out.map_values(
                |e: (char, String)| entry_view(e),
            ).insert(p as int, entry_view(x)));
            lemma_entry_multiset_add(rest@, out@);
            vstd::seq_lib::to_multiset_insert(
                before_out.map_values(|e: (char, String)| entry_view(e)),
                p as int,
                entry_view(x),
            );
            vstd::seq_lib::to_multiset_build(rest@.map_values(|e: (char, String)| entry_view(e)), entry_view(x));
            assert(entry_multiset(out@) == entry_multiset(before_out).insert(entry_view(x)));
            assert(entry_multiset(rest@.push(x)) == entry_multiset(rest@).insert(entry_view(x)));
            assert(entry_multiset(rest@ + out@) =~= entry_multiset(rest@.push(x)).add(entry_multiset(before_out)));
        }
    }
    assert(rest@ + out@ =~= out@);
    out
}

/// The glyph order: `.notdef` for the character 0, then the given entries,
/// sorted by character, then by name.
pub fn glyph_ids(chars_and_names: Vec<(char, String)>) -> (r: Vec<(char, String)>)
    ensures
        entries_sorted(r@),
        entry_multiset(r@) == entry_multiset(chars_and_names@).insert(('\0', ".notdef"@)),
{
    broadcast use vstd::seq_lib::to_multiset_build;

    let mut all = chars_and_names;
    let ghost before = all@;
    all.push(('\0', ".notdef".to_owned()));
    proof {
        assert(all@.map_values(|e: (char, String)| entry_view(e)) =~= before.map_values(
            |e: (char, String)| entry_view(e),
        ).push(('\0', ".notdef"@)));
    }
    sort_entries(all)
}

/// The font-like tables of a font being edited, with its glyph order.
pub struct VirtualFont {
    glyph_ids: Vec<(char, String)>,
    cmap: Vec<u8>,
    hhea: Vec<u8>,
    hmtx: Vec<u8>,
    kern: Vec<u8>,
}

impl VirtualFont {
    pub closed spec fn glyph_order(self) -> Seq<(char, String)> {
        self.glyph_ids@
    }

    pub closed spec fn tables(self) -> (Seq<u8>, Seq<u8>, Seq<u8>, Seq<u8>) {
        (self.cmap@, self.hhea@, self.hmtx@, self.kern@)
    }

    /// A font with this glyph order and these tables.
    pub fn new(
        glyph_ids: Vec<(char, String)>,
        cmap: Vec<u8>,
        hhea: Vec<u8>,
        hmtx: Vec<u8>,
        kern: Vec<u8>,
    ) -> (r: Self)
        ensures
            r.glyph_order() == glyph_ids@,
            r.tables() == (cmap@, hhea@, hmtx@, kern@),
    {
        VirtualFont { glyph_ids, cmap, hhea, hmtx, kern }
    }

    /// The name of the glyph with this id.
    pub fn glyph_for_id(&self, id: u16) -> (r: Option<&String>)
        ensures
            (id as int) < self.glyph_order().len() ==> r == Some(&self.glyph_order()[id as int].1),
            (id as int) >= self.glyph_order().len() ==> r is None,
    {
        let i = id as usize;
        if i < self.glyph_ids.len() {
            Some(&self.glyph_ids[i].1)
        } else {
            None
        }
    }

    pub fn cmap(&self) -> (r: &[u8])
        ensures
            r@ == self.tables().0,
    {
        self.cmap.as_slice()
    }

    pub fn hhea(&self) -> (r: &[u8])
        ensures
            r@ == self.tables().1,
    {
        self.hhea.as_slice()
    }

    pub fn hmtx(&self) -> (r: &[u8])
        ensures
            r@ == self.tables().2,
    {
        self.hmtx.as_slice()
    }

    pub fn kern(&self) -> (r: &[u8])
        ensures
            r@ == self.tables().3,
    {
        self.kern.as_slice()
    }
}

} // verus!
