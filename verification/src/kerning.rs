//! The `kern` table of the virtual font, from the font's kerning and
//! groups.
//!
//! A kerning entry names its first and second side either by a glyph name
//! or, with the prefix `public.kern1.` or `public.kern2.`, by a group of
//! glyphs; each side expands to the ids of its glyphs in the glyph order.

use vstd::prelude::*;
use vstd::string::StrSliceExecFns;
use crate::bytes::be16;
use crate::glyph_names::same_chars;
use crate::virtual_font::{
    encodes_kern_table, encodes_subtable, KernFormat0Pair, KernSubtable, KernSubtableCoverage,
    KernTable,
};

verus! {

/// The first position at or after `i` of a glyph named `name`.
pub open spec fn name_position_from(glyphs: Seq<(char, String)>, name: Seq<char>, i: int) -> Option<int>
    decreases glyphs.len() - i,
{
    if i < 0 || i >= glyphs.len() {
        None
    } else if glyphs[i].1@ == name {
        Some(i)
    } else {
        name_position_from(glyphs, name, i + 1)
    }
}

/// The members of the first group named `k`.
pub open spec fn group_members_from(groups: Seq<(String, Vec<String>)>, k: Seq<char>, i: int) -> Option<Seq<String>>
    decreases groups.len() - i,
{
    if i < 0 || i >= groups.len() {
        None
    } else if groups[i].0@ == k {
        Some(groups[i].1@)
    } else {
        group_members_from(groups, k, i + 1)
    }
}

/// The ids (positions, as 16-bit values) of the members that are glyphs.
pub open spec fn member_ids(glyphs: Seq<(char, String)>, members: Seq<String>) -> Seq<u16>
    decreases members.len(),
{
    if members.len() == 0 {
        Seq::empty()
    } else {
        let before = member_ids(glyphs, members.drop_last());
        match name_position_from(glyphs, members.last()@, 0) {
            Some(p) => before.push(p as u16),
            None => before,
        }
    }
}

/// `p` is a prefix of `s`.
pub open spec fn has_prefix(s: Seq<char>, p: Seq<char>) -> bool {
    p.len() <= s.len() && s.take(p.len() as int) == p
}

/// The glyph ids of one side of a kerning entry: the members of a group
/// when `k` starts with `prefix` (none when there are no groups, or no such
/// group), else the glyph named `k`.
pub open spec fn expanded(
    prefix: Seq<char>,
    groups: Option<Seq<(String, Vec<String>)>>,
    glyphs: Seq<(char, String)>,
    k: Seq<char>,
) -> Seq<u16> {
    if has_prefix(k, prefix) {
        match groups {
            Some(gs) => match group_members_from(gs, k, 0) {
                Some(members) => member_ids(glyphs, members),
                None => Seq::empty(),
            },
            None => Seq::empty(),
        }
    } else {
        match name_position_from(glyphs, k, 0) {
            Some(id) => seq![id as u16],
            None => Seq::empty(),
        }
    }
}

/// One pair for each right-hand id.
pub open spec fn pairs_with_left(left: u16, rights: Seq<u16>, value: i16) -> Seq<KernFormat0Pair> {
    rights.map_values(|r: u16| KernFormat0Pair { left, right: r, value })
}

/// The pairs of one left-hand id with each second side, in order.
pub open spec fn pairs_for_left(left: u16, seconds: Seq<(Seq<u16>, i16)>) -> Seq<KernFormat0Pair>
    decreases seconds.len(),
{
    if seconds.len() == 0 {
        Seq::empty()
    } else {
        pairs_for_left(left, seconds.drop_last()) + pairs_with_left(
            left,
            seconds.last().0,
            seconds.last().1,
        )
    }
}

/// The pairs of each left-hand id with each second side, in order.
pub open spec fn pairs_for_entry(lefts: Seq<u16>, seconds: Seq<(Seq<u16>, i16)>) -> Seq<KernFormat0Pair>
    decreases lefts.len(),
{
    if lefts.len() == 0 {
        Seq::empty()
    } else {
        pairs_for_entry(lefts.drop_last(), seconds) + pairs_for_left(lefts.last(), seconds)
    }
}

/// The second sides of a kerning entry, expanded.
pub open spec fn expanded_seconds(
    groups: Option<Seq<(String, Vec<String>)>>,
    glyphs: Seq<(char, String)>,
    seconds: Seq<(String, i16)>,
) -> Seq<(Seq<u16>, i16)> {
    seconds.map_values(|s: (String, i16)| (expanded("public.kern2."@, groups, glyphs, s.0@), s.1))
}

/// All the kerning pairs, entry by entry.
pub open spec fn kern_pairs(
    kerning: Seq<(String, Vec<(String, i16)>)>,
    groups: Option<Seq<(String, Vec<String>)>>,
    glyphs: Seq<(char, String)>,
) -> Seq<KernFormat0Pair>
    decreases kerning.len(),
{
    if kerning.len() == 0 {
        Seq::empty()
    } else {
        let e = kerning.last();
        kern_pairs(kerning.drop_last(), groups, glyphs) + pairs_for_entry(
            expanded("public.kern1."@, groups, glyphs, e.0@),
            expanded_seconds(groups, glyphs, e.1@),
        )
    }
}

/// The groups, as plain values.
pub open spec fn groups_view(groups: Option<&[(String, Vec<String>)]>) -> Option<Seq<(String, Vec<String>)>> {
    match groups {
        Some(gs) => Some(gs@),
        None => None,
    }
}

/// The position of the first glyph named `name`.
fn name_position(glyphs: &[(char, String)], name: &str) -> (r: Option<usize>)
    ensures
        r matches Some(p) ==> name_position_from(glyphs@, name@, 0) == Some(p as int),
        r is None ==> name_position_from(glyphs@, name@, 0) is None,
{
    let mut i: usize = 0;
    while i < glyphs.len()
        invariant
            0 <= i <= glyphs.len(),
            name_position_from(glyphs@, name@, 0) == name_position_from(glyphs@, name@, i as int),
        decreases glyphs.len() - i,
    {
        if same_chars(glyphs[i].1.as_str(), name) {
            return Some(i);
        }
        i += 1;
    }
    None
}

/// The members of the first group named `k`.
fn group_members<'a>(groups: &'a [(String, Vec<String>)], k: &str) -> (r: Option<&'a Vec<String>>)
    ensures
        r matches Some(m) ==> group_members_from(groups@, k@, 0) == Some(m@),
        r is None ==> group_members_from(groups@, k@, 0) is None,
{
    let mut i: usize = 0;
    while i < groups.len()
        invariant
            0 <= i <= groups.len(),
            group_members_from(groups@, k@, 0) == group_members_from(groups@, k@, i as int),
        decreases groups.len() - i,
    {
        if same_chars(groups[i].0.as_str(), k) {
            return Some(&groups[i].1);
        }
        i += 1;
    }
    None
}

/// Whether `s` starts with `p`.
fn starts_with(s: &str, p: &str) -> (r: bool)
    ensures
        r == has_prefix(s@, p@),
{
    let n = p.unicode_len();
    if n > s.unicode_len() {
        return false;
    }
    let mut i: usize = 0;
    while i < n
        invariant
            n == p@.len() <= s@.len(),
            0 <= i <= n,
            forall|j: int| 0 <= j < i ==> s@[j] == p@[j],
        decreases n - i,
    {
        if s.get_char(i) != p.get_char(i) {
            assert(s@.take(n as int)[i as int] != p@[i as int]);
            return false;
        }
        i += 1;
    }
    assert(s@.take(n as int) =~= p@);
    true
}

/// The glyph ids of one side of a kerning entry.
pub fn expand_group(
    prefix: &str,
    groups: Option<&[(String, Vec<String>)]>,
    glyphs: &[(char, String)],
    k: &str,
) -> (r: Vec<u16>)
    ensures
        r@ == expanded(prefix@, groups_view(groups), glyphs@, k@),
{
    if starts_with(k, prefix) {
        match groups {
            Some(gs) => match group_members(gs, k) {
                Some(members) => {
                    let mut out: Vec<u16> = Vec::new();
                    let mut i: usize = 0;
                    while i < members.len()
                        invariant
                            0 <= i <= members.len(),
                            out@ == member_ids(glyphs@, members@.take(i as int)),
                        decreases members.len() - i,
                    {
                        assert(members@.take(i + 1).drop_last() =~= members@.take(i as int));
                        match name_position(glyphs, members[i].as_str()) {
                            Some(p) => out.push(p as u16),
                            None => {},
                        }
                        i += 1;
                    }
                    assert(members@.take(members.len() as int) =~= members@);
                    out
                },
                None => Vec::new(),
            },
            None => Vec::new(),
        }
    } else {
        match name_position(glyphs, k) {
            Some(id) => {
                let v = vec![id as u16];
                assert(v@ =~= seq![id as u16]);
                v
            },
            None => Vec::new(),
        }
    }
}

/// Appends the pairs of `left` with each id of `rights`.
fn push_pairs_with_left(out: &mut Vec<KernFormat0Pair>, left: u16, rights: &Vec<u16>, value: i16)
    ensures
        final(out)@ == old(out)@ + pairs_with_left(left, rights@, value),
{
    let mut j: usize = 0;
    while j < rights.len()
        invariant
            0 <= j <= rights.len(),
            out@ == old(out)@ + pairs_with_left(left, rights@.take(j as int), value),
        decreases rights.len() - j,
    {
        out.push(KernFormat0Pair { left, right: rights[j], value });
        assert(pairs_with_left(left, rights@.take(j + 1), value) =~= pairs_with_left(
            left,
            rights@.take(j as int),
            value,
        ).push(KernFormat0Pair { left, right: rights[j as int], value }));
        j += 1;
    }
    assert(rights@.take(rights.len() as int) =~= rights@);
}

/// The second sides of an entry, as plain values.
pub open spec fn seconds_view(seconds: Seq<(Vec<u16>, i16)>) -> Seq<(Seq<u16>, i16)> {
    seconds.map_values(|s: (Vec<u16>, i16)| (s.0@, s.1))
}

/// Appends the pairs of each id of `lefts` with each second side.
fn push_entry_pairs(out: &mut Vec<KernFormat0Pair>, lefts: &Vec<u16>, seconds: &Vec<(Vec<u16>, i16)>)
    ensures
        final(out)@ == old(out)@ + pairs_for_entry(lefts@, seconds_view(seconds@)),
{
    let ghost sv = seconds_view(seconds@);
    let mut i: usize = 0;
    while i < lefts.len()
        invariant
            0 <= i <= lefts.len(),
            sv == seconds_view(seconds@),
            out@ == old(out)@ + pairs_for_entry(lefts@.take(i as int), sv),
        decreases lefts.len() - i,
    {
        let ghost before_i = out@;
        let mut j: usize = 0;
        while j < seconds.len()
            invariant
                0 <= j <= seconds.len(),
                i < lefts.len(),
                sv == seconds_view(seconds@),
                out@ == before_i + pairs_for_left(lefts[i as int], sv.take(j as int)),
            decreases seconds.len() - j,
        {
            assert(sv.take(j + 1).drop_last() =~= sv.take(j as int));
            push_pairs_with_left(out, lefts[i], &seconds[j].0, seconds[j].1);
            j += 1;
        }
        assert(sv.take(seconds.len() as int) =~= sv);
        assert(lefts@.take(i + 1).drop_last() =~= lefts@.take(i as int));
        i += 1;
    }
    assert(lefts@.take(lefts.len() as int) =~= lefts@);
}

/// All the kerning pairs: for each kerning entry in order, each glyph of
/// its first side with each glyph of each of its second sides.
pub fn make_kern_pairs(
    kerning: &[(String, Vec<(String, i16)>)],
    groups: Option<&[(String, Vec<String>)]>,
    glyphs: &[(char, String)],
) -> (r: Vec<KernFormat0Pair>)
    ensures
        r@ == kern_pairs(kerning@, groups_view(groups), glyphs@),
{
    let mut pairs: Vec<KernFormat0Pair> = Vec::new();
    let mut e: usize = 0;
    while e < kerning.len()
        invariant
            0 <= e <= kerning.len(),
            pairs@ == kern_pairs(kerning@.take(e as int), groups_view(groups), glyphs@),
        decreases kerning.len() - e,
    {
        let kern1ids = expand_group("public.kern1.", groups, glyphs, kerning[e].0.as_str());
        let kern2s = &kerning[e].1;
        let mut kern2kvs: Vec<(Vec<u16>, i16)> = Vec::new();
        let mut j: usize = 0;
        while j < kern2s.len()
            invariant
                0 <= j <= kern2s.len(),
                seconds_view(kern2kvs@) == expanded_seconds(groups_view(groups), glyphs@, kern2s@.take(j as int)),
            decreases kern2s.len() - j,
        {
            let ids = expand_group("public.kern2.", groups, glyphs, kern2s[j].0.as_str());
            let ghost before = kern2kvs@;
            kern2kvs.push((ids, kern2s[j].1));
            assert(seconds_view(kern2kvs@) =~= seconds_view(before).push((ids@, kern2s[j as int].1)));
            assert(expanded_seconds(groups_view(groups), glyphs@, kern2s@.take(j + 1)) =~= expanded_seconds(
                groups_view(groups),
                glyphs@,
                kern2s@.take(j as int),
            ).push((ids@, kern2s[j as int].1)));
            j += 1;
        }
        assert(kern2s@.take(kern2s.len() as int) =~= kern2s@);
        push_entry_pairs(&mut pairs, &kern1ids, &kern2kvs);
        assert(kerning@.take(e + 1).drop_last() =~= kerning@.take(e as int));
        e += 1;
    }
    assert(kerning@.take(kerning.len() as int) =~= kerning@);
    pairs
}

/// The encoded `kern` table of the virtual font: one format 0 subtable
/// with horizontal coverage that holds all the kerning pairs.
pub fn make_kern_table(
    kerning: &[(String, Vec<(String, i16)>)],
    groups: Option<&[(String, Vec<String>)]>,
    glyphs: &[(char, String)],
) -> (r: Vec<u8>)
    requires
        kern_pairs(kerning@, groups_view(groups), glyphs@).len() <= (usize::MAX - 6) / 6,
    ensures
        exists|sub: Seq<u8>|
            encodes_subtable(
                0,
                KernSubtableCoverage {
                    horizontal: true,
                    minimum: false,
                    cross_stream: false,
                    over_ride: false,
                    format: 0,
                },
                kern_pairs(kerning@, groups_view(groups), glyphs@),
                sub,
            ) && r@ == be16(0) + be16(1) + sub,
{
    let pairs = make_kern_pairs(kerning, groups, glyphs);
    let table = KernTable {
        version: 0,
        subtables: vec![KernSubtable { version: 0, coverage: KernSubtableCoverage::default(), pairs }],
    };
    let r = table.encode();
    proof {
        let chunks = choose|chunks: Seq<Seq<u8>>|
            {
                &&& chunks.len() == table.subtables@.len()
                &&& forall|i: int|
                    0 <= i < chunks.len() ==> encodes_subtable(
                        table.subtables@[i].version,
                        table.subtables@[i].coverage,
                        table.subtables@[i].pairs@,
                        #[trigger] chunks[i],
                    )
                &&& r@ == be16(table.version as int) + be16(table.subtables@.len() as int)
                    + chunks.flatten_alt()
            };
        assert(encodes_subtable(
            table.subtables@[0].version,
            table.subtables@[0].coverage,
            table.subtables@[0].pairs@,
            chunks[0],
        ));
        assert(chunks.drop_last() =~= Seq::<Seq<u8>>::empty());
        assert(chunks.flatten_alt() == Seq::<Seq<u8>>::empty().flatten_alt() + chunks[0]);
        assert(Seq::<Seq<u8>>::empty().flatten_alt() =~= Seq::<u8>::empty());
        assert(chunks.flatten_alt() =~= chunks[0]);
    }
    r
}

/// The ids of a group's members hold the position of each member that is a
/// glyph.
proof fn lemma_member_ids_contain(glyphs: Seq<(char, String)>, members: Seq<String>, j: int, p: int)
    requires
        0 <= j < members.len(),
        name_position_from(glyphs, members[j]@, 0) == Some(p),
    ensures
        member_ids(glyphs, members).contains(p as u16),
    decreases members.len(),
{
    let before = member_ids(glyphs, members.drop_last());
    if j == members.len() - 1 {
        assert(member_ids(glyphs, members) == before.push(p as u16));
        assert(member_ids(glyphs, members)[before.len() as int] == p as u16);
    } else {
        assert(members.drop_last()[j] == members[j]);
        lemma_member_ids_contain(glyphs, members.drop_last(), j, p);
        let k = choose|k: int| 0 <= k < before.len() && before[k] == p as u16;
        let ids = member_ids(glyphs, members);
        assert(ids.len() >= before.len());
        assert(ids[k] == before[k]);
    }
}

/// The pairs of a left id with the second sides hold a pair with each id of
/// each second side, with that side's value.
proof fn lemma_pairs_for_left_contain(left: u16, seconds: Seq<(Seq<u16>, i16)>, t: int, right: u16)
    requires
        0 <= t < seconds.len(),
        seconds[t].0.contains(right),
    ensures
        pairs_for_left(left, seconds).contains(KernFormat0Pair { left, right, value: seconds[t].1 }),
    decreases seconds.len(),
{
    let before = pairs_for_left(left, seconds.drop_last());
    let last = pairs_with_left(left, seconds.last().0, seconds.last().1);
    let all = pairs_for_left(left, seconds);
    assert(all == before + last);
    let pair = KernFormat0Pair { left, right, value: seconds[t].1 };
    if t == seconds.len() - 1 {
        let k = choose|k: int| 0 <= k < seconds[t].0.len() && seconds[t].0[k] == right;
        assert(last[k] == pair);
        assert(all[before.len() + k] == pair);
    } else {
        assert(seconds.drop_last()[t] == seconds[t]);
        lemma_pairs_for_left_contain(left, seconds.drop_last(), t, right);
        let k = choose|k: int| 0 <= k < before.len() && before[k] == pair;
        assert(all[k] == pair);
    }
}

/// The pairs of an entry hold a pair of each left id with each id of each
/// second side, with that side's value.
proof fn lemma_pairs_for_entry_contain(
    lefts: Seq<u16>,
    seconds: Seq<(Seq<u16>, i16)>,
    left: u16,
    t: int,
    right: u16,
)
    requires
        lefts.contains(left),
        0 <= t < seconds.len(),
        seconds[t].0.contains(right),
    ensures
        pairs_for_entry(lefts, seconds).contains(KernFormat0Pair { left, right, value: seconds[t].1 }),
    decreases lefts.len(),
{
    let pair = KernFormat0Pair { left, right, value: seconds[t].1 };
    let before = pairs_for_entry(lefts.drop_last(), seconds);
    let mine = pairs_for_left(lefts.last(), seconds);
    let all = pairs_for_entry(lefts, seconds);
    assert(all == before + mine);
    if lefts.last() == left {
        lemma_pairs_for_left_contain(left, seconds, t, right);
        let k = choose|k: int| 0 <= k < mine.len() && mine[k] == pair;
        assert(all[before.len() + k] == pair);
    } else {
        let j = choose|j: int| 0 <= j < lefts.len() && lefts[j] == left;
        assert(lefts.drop_last()[j] == left);
        lemma_pairs_for_entry_contain(lefts.drop_last(), seconds, left, t, right);
        let k = choose|k: int| 0 <= k < before.len() && before[k] == pair;
        assert(all[k] == pair);
    }
}

/// The pairs of all the entries hold the pairs of each entry.
proof fn lemma_kern_pairs_contain(
    kerning: Seq<(String, Vec<(String, i16)>)>,
    groups: Option<Seq<(String, Vec<String>)>>,
    glyphs: Seq<(char, String)>,
    e: int,
    pair: KernFormat0Pair,
)
    requires
        0 <= e < kerning.len(),
        pairs_for_entry(
            expanded("public.kern1."@, groups, glyphs, kerning[e].0@),
            expanded_seconds(groups, glyphs, kerning[e].1@),
        ).contains(pair),
    ensures
        kern_pairs(kerning, groups, glyphs).contains(pair),
    decreases kerning.len(),
{
    let before = kern_pairs(kerning.drop_last(), groups, glyphs);
    let all = kern_pairs(kerning, groups, glyphs);
    let e_last = kerning.last();
    let mine = pairs_for_entry(
        expanded("public.kern1."@, groups, glyphs, e_last.0@),
        expanded_seconds(groups, glyphs, e_last.1@),
    );
    assert(all == before + mine);
    if e == kerning.len() - 1 {
        let k = choose|k: int| 0 <= k < mine.len() && mine[k] == pair;
        assert(all[before.len() + k] == pair);
    } else {
        assert(kerning.drop_last()[e] == kerning[e]);
        lemma_kern_pairs_contain(kerning.drop_last(), groups, glyphs, e, pair);
        let k = choose|k: int| 0 <= k < before.len() && before[k] == pair;
        assert(all[k] == pair);
    }
}

/// A kerning entry whose first side names a `public.kern1.` group kerns
/// every member of that group that is in the glyph order: for each second
/// side that names a glyph directly, the pairs hold the member's id on the
/// left, the glyph's id on the right, and the entry's value.
pub proof fn lemma_kern1_group_members_kerned(
    kerning: Seq<(String, Vec<(String, i16)>)>,
    groups: Seq<(String, Vec<String>)>,
    glyphs: Seq<(char, String)>,
    e: int,
    j: int,
    left: int,
    t: int,
    right: int,
)
    requires
        0 <= e < kerning.len(),
        has_prefix(kerning[e].0@, "public.kern1."@),
        group_members_from(groups, kerning[e].0@, 0) is Some,
        0 <= j < group_members_from(groups, kerning[e].0@, 0)->0.len(),
        name_position_from(glyphs, group_members_from(groups, kerning[e].0@, 0)->0[j]@, 0) == Some(left),
        0 <= t < kerning[e].1@.len(),
        !has_prefix(kerning[e].1@[t].0@, "public.kern2."@),
        name_position_from(glyphs, kerning[e].1@[t].0@, 0) == Some(right),
    ensures
        kern_pairs(kerning, Some(groups), glyphs).contains(
            KernFormat0Pair { left: left as u16, right: right as u16, value: kerning[e].1@[t].1 },
        ),
{
    let members = group_members_from(groups, kerning[e].0@, 0)->0;
    lemma_member_ids_contain(glyphs, members, j, left);
    let lefts = expanded("public.kern1."@, Some(groups), glyphs, kerning[e].0@);
    assert(lefts == member_ids(glyphs, members));
    let seconds = expanded_seconds(Some(groups), glyphs, kerning[e].1@);
    assert(seconds[t] == (seq![right as u16], kerning[e].1@[t].1));
    assert(seconds[t].0[0] == right as u16);
    lemma_pairs_for_entry_contain(lefts, seconds, left as u16, t, right as u16);
    lemma_kern_pairs_contain(
        kerning,
        Some(groups),
        glyphs,
        e,
        KernFormat0Pair { left: left as u16, right: right as u16, value: kerning[e].1@[t].1 },
    );
}

/// A kerning entry whose sides both name glyphs directly gives the pair of
/// their ids with its value.
pub proof fn lemma_glyph_pair_kerned(
    kerning: Seq<(String, Vec<(String, i16)>)>,
    groups: Option<Seq<(String, Vec<String>)>>,
    glyphs: Seq<(char, String)>,
    e: int,
    left: int,
    t: int,
    right: int,
)
    requires
        0 <= e < kerning.len(),
        !has_prefix(kerning[e].0@, "public.kern1."@),
        name_position_from(glyphs, kerning[e].0@, 0) == Some(left),
        0 <= t < kerning[e].1@.len(),
        !has_prefix(kerning[e].1@[t].0@, "public.kern2."@),
        name_position_from(glyphs, kerning[e].1@[t].0@, 0) == Some(right),
    ensures
        kern_pairs(kerning, groups, glyphs).contains(
            KernFormat0Pair { left: left as u16, right: right as u16, value: kerning[e].1@[t].1 },
        ),
{
    let lefts = expanded("public.kern1."@, groups, glyphs, kerning[e].0@);
    assert(lefts[0] == left as u16);
    let seconds = expanded_seconds(groups, glyphs, kerning[e].1@);
    assert(seconds[t].0[0] == right as u16);
    lemma_pairs_for_entry_contain(lefts, seconds, left as u16, t, right as u16);
    lemma_kern_pairs_contain(
        kerning,
        groups,
        glyphs,
        e,
        KernFormat0Pair { left: left as u16, right: right as u16, value: kerning[e].1@[t].1 },
    );
}

/// A kerning entry whose second side names a `public.kern2.` group kerns
/// every member of that group that is in the glyph order: with a first side
/// that names a glyph directly, the pairs hold that glyph's id on the left,
/// the member's id on the right, and the side's value.
pub proof fn lemma_kern2_group_members_kerned(
    kerning: Seq<(String, Vec<(String, i16)>)>,
    groups: Seq<(String, Vec<String>)>,
    glyphs: Seq<(char, String)>,
    e: int,
    left: int,
    t: int,
    j: int,
    right: int,
)
    requires
        0 <= e < kerning.len(),
        !has_prefix(kerning[e].0@, "public.kern1."@),
        name_position_from(glyphs, kerning[e].0@, 0) == Some(left),
        0 <= t < kerning[e].1@.len(),
        has_prefix(kerning[e].1@[t].0@, "public.kern2."@),
        group_members_from(groups, kerning[e].1@[t].0@, 0) is Some,
        0 <= j < group_members_from(groups, kerning[e].1@[t].0@, 0)->0.len(),
        name_position_from(glyphs, group_members_from(groups, kerning[e].1@[t].0@, 0)->0[j]@, 0) == Some(right),
    ensures
        kern_pairs(kerning, Some(groups), glyphs).contains(
            KernFormat0Pair { left: left as u16, right: right as u16, value: kerning[e].1@[t].1 },
        ),
{
    let members = group_members_from(groups, kerning[e].1@[t].0@, 0)->0;
    lemma_member_ids_contain(glyphs, members, j, right);
    let lefts = expanded("public.kern1."@, Some(groups), glyphs, kerning[e].0@);
    assert(lefts[0] == left as u16);
    let seconds = expanded_seconds(Some(groups), glyphs, kerning[e].1@);
    assert(seconds[t] == (member_ids(glyphs, members), kerning[e].1@[t].1));
    lemma_pairs_for_entry_contain(lefts, seconds, left as u16, t, right as u16);
    lemma_kern_pairs_contain(
        kerning,
        Some(groups),
        glyphs,
        e,
        KernFormat0Pair { left: left as u16, right: right as u16, value: kerning[e].1@[t].1 },
    );
}

} // verus!
