//! The OpenType `cmap` table, in its format 4 (segment mapping to delta
//! values) with a single Unicode BMP encoding record.
//!
//! The character codes are grouped into runs of consecutive codes; each run
//! becomes a segment whose `idDelta` maps its codes to consecutive glyph ids.

use vstd::prelude::*;
use vstd::arithmetic::div_mod::{lemma_fundamental_div_mod, lemma_mod_multiples_vanish};
use crate::bytes::{be16, be16_seq, be32, lemma_be16_seq_push, push_u16, push_u16_all, push_u32};

verus! {

/// The runs of consecutive codes in `codes`, in order. Each run is given as
/// (first code, last code, position in `codes` of the first code). A new run
/// starts at every code that is not one more than the code before it.
pub open spec fn code_runs(codes: Seq<u16>) -> Seq<(int, int, int)>
    decreases codes.len(),
{
    if codes.len() == 0 {
        Seq::empty()
    } else {
        let prev = code_runs(codes.drop_last());
        let k = codes.len() - 1;
        let c = codes[k] as int;
        if k > 0 && codes[k - 1] + 1 == c {
            prev.update(prev.len() - 1, (prev.last().0, c, prev.last().2))
        } else {
            prev.push((c, c, k))
        }
    }
}

/// The segment start codes: one per run, then the required final segment.
pub open spec fn segment_starts(codes: Seq<u16>) -> Seq<int> {
    code_runs(codes).map_values(|r: (int, int, int)| r.0).push(0xffff)
}

/// The segment end codes: one per run, then the required final segment.
pub open spec fn segment_ends(codes: Seq<u16>) -> Seq<int> {
    code_runs(codes).map_values(|r: (int, int, int)| r.1).push(0xffff)
}

/// The segment deltas (modulo 2^16): the code at position `k` of `codes` maps
/// to glyph id `k + base`. The final segment has delta 1.
pub open spec fn segment_deltas(codes: Seq<u16>, base: int) -> Seq<int> {
    code_runs(codes).map_values(|r: (int, int, int)| (r.2 + base - r.0) % 0x1_0000).push(1)
}

/// The segment range offsets, all zero.
pub open spec fn segment_offsets(codes: Seq<u16>) -> Seq<int> {
    Seq::new(code_runs(codes).len() + 1, |i: int| 0int)
}

/// The number of segments, including the required final segment.
pub open spec fn segment_count(codes: Seq<u16>) -> int {
    code_runs(codes).len() + 1int
}

/// The whole encoded table: header, one encoding record (platform 0,
/// encoding 4, offset 12), then the format 4 subtable, followed by the
/// values of `glyph_ids`.
pub open spec fn cmap_table_bytes(codes: Seq<u16>, base: int, glyph_ids: Seq<int>) -> Seq<u8> {
    let n = segment_count(codes);
    be16(0) + be16(1) + be16(0) + be16(4) + be32(12) + be16(4) + be16(
        16 + 8 * n + 2 * glyph_ids.len(),
    ) + be16(0) + be16(2 * n) + be16(0) + be16(0) + be16(0) + be16_seq(segment_ends(codes))
        + be16(0) + be16_seq(segment_starts(codes)) + be16_seq(segment_deltas(codes, base))
        + be16_seq(segment_offsets(codes)) + be16_seq(glyph_ids)
}

/// No code but possibly the last one is 0xffff.
pub open spec fn codes_can_advance(codes: Seq<u16>) -> bool {
    forall|k: int| 0 <= k < codes.len() - 1 ==> #[trigger] codes[k] < 0xffff
}

/// Basic facts about runs: there is at least one run for a nonempty
/// sequence, the last run ends at the last code, and runs start in order at
/// increasing positions.
pub proof fn lemma_runs_basic(codes: Seq<u16>)
    ensures
        code_runs(codes).len() <= codes.len(),
        codes.len() > 0 ==> code_runs(codes).len() > 0 && code_runs(codes).last().1
            == codes.last() as int,
        forall|j: int|
            0 <= j < code_runs(codes).len() ==> 0 <= #[trigger] code_runs(codes)[j].2
                < codes.len() && code_runs(codes)[j].0 == codes[code_runs(codes)[j].2] as int,
    decreases codes.len(),
{
    if codes.len() > 0 {
        lemma_runs_basic(codes.drop_last());
    }
}

proof fn lemma_take_runs_step(codes: Seq<u16>, k: int)
    requires
        0 <= k < codes.len(),
    ensures
        code_runs(codes.take(k + 1)) == ({
            let prev = code_runs(codes.take(k));
            let c = codes[k] as int;
            if k > 0 && codes[k - 1] + 1 == c {
                prev.update(prev.len() - 1, (prev.last().0, c, prev.last().2))
            } else {
                prev.push((c, c, k))
            }
        }),
{
    let t = codes.take(k + 1);
    assert(t.drop_last() =~= codes.take(k));
    assert(t[k] == codes[k]);
    if k > 0 {
        assert(t[k - 1] == codes[k - 1]);
    }
}

proof fn lemma_length_mod(n: int, g: int)
    requires
        n >= 0,
        g >= 0,
    ensures
        (16 + 8 * (n % 8192) + 2 * (g % 32768)) % 0x1_0000 == (16 + 8 * n + 2 * g) % 0x1_0000,
        (2 * (n % 32768)) % 0x1_0000 == (2 * n) % 0x1_0000,
{
    lemma_fundamental_div_mod(n, 8192);
    lemma_fundamental_div_mod(g, 32768);
    lemma_fundamental_div_mod(n, 32768);
    let b = 16 + 8 * (n % 8192) + 2 * (g % 32768);
    let a = n / 8192 + g / 32768;
    assert(16 + 8 * n + 2 * g == 0x1_0000 * a + b) by (nonlinear_arith)
        requires
            n == 8192 * (n / 8192) + n % 8192,
            g == 32768 * (g / 32768) + g % 32768,
            a == n / 8192 + g / 32768,
            b == 16 + 8 * (n % 8192) + 2 * (g % 32768),
    ;
    lemma_mod_multiples_vanish(a, b, 0x1_0000);
    assert(2 * n == 0x1_0000 * (n / 32768) + 2 * (n % 32768)) by (nonlinear_arith)
        requires
            n == 32768 * (n / 32768) + n % 32768,
    ;
    lemma_mod_multiples_vanish(n / 32768, 2 * (n % 32768), 0x1_0000);
}

/// `(k + base - start) mod 2^16`, computed without overflow.
fn delta_for(k: usize, base: usize, start: u16) -> (d: u16)
    requires
        base <= 1,
    ensures
        d as int == (k + base - start) % 0x1_0000,
{
    let kb: u32 = (k % 65536) as u32 + base as u32;
    let d = ((kb + 65536 - start as u32) % 65536) as u16;
    proof {
        lemma_fundamental_div_mod(k as int, 0x1_0000);
        let b = (k as int % 0x1_0000) + base - start + 0x1_0000;
        assert(k + base - start == 0x1_0000 * (k as int / 0x1_0000 - 1) + b);
        lemma_mod_multiples_vanish(k as int / 0x1_0000 - 1, b, 0x1_0000);
    }
    d
}

/// Encodes a `cmap` table for `codes`, where the code at position `k` maps to
/// glyph id `k + base`, and appends `glyph_ids` to the subtable.
pub fn encode_cmap(codes: &Vec<u16>, base: usize, glyph_ids: &Vec<u16>) -> (r: Vec<u8>)
    requires
        base <= 1,
        codes_can_advance(codes@),
    ensures
        r@ == cmap_table_bytes(codes@, base as int, glyph_ids@.map_values(|x: u16| x as int)),
{
    let mut start_codes: Vec<u16> = Vec::new();
    let mut end_codes: Vec<u16> = Vec::new();
    let mut offsets: Vec<u16> = Vec::new();
    let mut deltas: Vec<u16> = Vec::new();

    let mut k: usize = 0;
    while k < codes.len()
        invariant
            0 <= k <= codes.len(),
            base <= 1,
            codes_can_advance(codes@),
            start_codes.len() == code_runs(codes@.take(k as int)).len(),
            end_codes.len() == start_codes.len(),
            deltas.len() == start_codes.len(),
            offsets.len() == start_codes.len(),
            forall|j: int|
                0 <= j < start_codes.len() ==> {
                    let r = #[trigger] code_runs(codes@.take(k as int))[j];
                    &&& start_codes[j] as int == r.0
                    &&& end_codes[j] as int == r.1
                    &&& deltas[j] as int == (r.2 + base - r.0) % 0x1_0000
                    &&& offsets[j] == 0
                },
            k > 0 ==> end_codes.len() > 0 && end_codes[end_codes.len() - 1] == codes[k - 1],
        decreases codes.len() - k,
    {
        let chr = codes[k];
        proof {
            lemma_take_runs_step(codes@, k as int);
            lemma_runs_basic(codes@.take(k as int));
            lemma_runs_basic(codes@.take(k + 1));
            assert(codes@.take(k as int).len() == k);
            if k > 0 {
                assert(codes@.take(k as int).last() == codes[k - 1]);
                assert(codes[k - 1] < 0xffff);
            }
        }
        let ghost prev = code_runs(codes@.take(k as int));
        let extends = end_codes.len() > 0 && end_codes[end_codes.len() - 1] + 1 == chr;
        if extends {
            let last = end_codes.len() - 1;
            end_codes.set(last, chr);
        } else {
            start_codes.push(chr);
            end_codes.push(chr);
            deltas.push(delta_for(k, base, chr));
            offsets.push(0);
        }
        proof {
            let next = code_runs(codes@.take(k + 1));
            assert(extends == (k > 0 && codes[k - 1] + 1 == chr as int));
            if extends {
                assert(next == prev.update(prev.len() - 1, (prev.last().0, chr as int, prev.last().2)));
            } else {
                assert(next == prev.push((chr as int, chr as int, k as int)));
            }
            assert forall|j: int| 0 <= j < start_codes.len() implies {
                let r = #[trigger] code_runs(codes@.take(k + 1))[j];
                &&& start_codes[j] as int == r.0
                &&& end_codes[j] as int == r.1
                &&& deltas[j] as int == (r.2 + base - r.0) % 0x1_0000
                &&& offsets[j] == 0
            } by {
                if j < prev.len() {
                    assert(prev[j] == code_runs(codes@.take(k as int))[j]);
                }
            }
        }
        k += 1;
    }
    assert(codes@.take(codes.len() as int) =~= codes@);
    assert forall|j: int| 0 <= j < offsets.len() implies offsets[j] == 0 by {
        let _ = code_runs(codes@.take(k as int))[j];
    }

    // and required end segment
    start_codes.push(0xffff);
    end_codes.push(0xffff);
    deltas.push(1);
    offsets.push(0);

    let seg_count = start_codes.len();
    proof {
        lemma_length_mod(seg_count as int, glyph_ids.len() as int);
    }
    let length: u16 = ((16 + 8 * (seg_count % 8192) + 2 * (glyph_ids.len() % 32768)) % 65536) as u16;
    let segment_count_x2: u16 = ((2 * (seg_count % 32768)) % 65536) as u16;

    let mut result = Vec::new();
    //header:
    push_u16(&mut result, 0);  // version
    push_u16(&mut result, 1);  // table_count
    // record:
    push_u16(&mut result, 0);  // platform_id
    push_u16(&mut result, 4);  // encoding_id
    push_u32(&mut result, 12);  // offset
    // encoding
    push_u16(&mut result, 4);  // format
    push_u16(&mut result, length);
    push_u16(&mut result, 0);  // language
    push_u16(&mut result, segment_count_x2);
    push_u16(&mut result, 0);  // search_range
    push_u16(&mut result, 0);  // entry_selector
    push_u16(&mut result, 0);  // range_shift
    push_u16_all(&mut result, &end_codes);
    push_u16(&mut result, 0);  // padding
    push_u16_all(&mut result, &start_codes);
    push_u16_all(&mut result, &deltas);
    push_u16_all(&mut result, &offsets);
    push_u16_all(&mut result, glyph_ids);
    proof {
        assert(end_codes@.map_values(|x: u16| x as int) =~= segment_ends(codes@));
        assert(start_codes@.map_values(|x: u16| x as int) =~= segment_starts(codes@));
        assert(deltas@.map_values(|x: u16| x as int) =~= segment_deltas(codes@, base as int));
        assert(offsets@.map_values(|x: u16| x as int) =~= segment_offsets(codes@));
        assert(be16(length as int) == be16(16 + 8 * segment_count(codes@) + 2 * glyph_ids.len()));
        assert(be16(segment_count_x2 as int) == be16(2 * segment_count(codes@)));
    }
    assert(result@ =~= cmap_table_bytes(
        codes@,
        base as int,
        glyph_ids@.map_values(|x: u16| x as int),
    ));
    result
}


/// Where the run at index `j` of `runs` ends: the position of the first code
/// of the next run, or `n` for the last run.
pub open spec fn run_end_position(runs: Seq<(int, int, int)>, j: int, n: int) -> int {
    if j + 1 < runs.len() {
        runs[j + 1].2
    } else {
        n
    }
}

/// The shape of the runs of `codes`: they cover the positions of `codes` in
/// order, without gaps, and within a run the codes go up by one.
#[verifier::opaque]
pub open spec fn runs_cover(codes: Seq<u16>, runs: Seq<(int, int, int)>) -> bool {
    &&& codes.len() > 0 ==> runs.len() > 0 && runs[0].2 == 0
    &&& forall|j: int|
        0 <= j < runs.len() ==> {
            let first = #[trigger] runs[j].2;
            let stop = run_end_position(runs, j, codes.len() as int);
            &&& 0 <= first < stop <= codes.len()
            &&& runs[j].0 == codes[first] as int
            &&& runs[j].1 == codes[stop - 1] as int
            &&& forall|p: int| first <= p < stop ==> #[trigger] codes[p] as int == runs[j].0 + (p - first)
        }
}

pub proof fn lemma_runs_cover(codes: Seq<u16>)
    ensures
        runs_cover(codes, code_runs(codes)),
    decreases codes.len(),
{
    reveal(runs_cover);
    if codes.len() > 0 {
        let prefix = codes.drop_last();
        lemma_runs_cover(prefix);
        lemma_runs_basic(prefix);
        let prev = code_runs(prefix);
        let runs = code_runs(codes);
        let k = codes.len() - 1;
        let n = codes.len() as int;
        assert forall|p: int| 0 <= p < k implies prefix[p] == codes[p] by {}
        if k > 0 && codes[k - 1] + 1 == codes[k] as int {
            assert forall|j: int| 0 <= j < runs.len() implies {
                let first = #[trigger] runs[j].2;
                let stop = run_end_position(runs, j, n);
                &&& 0 <= first < stop <= codes.len()
                &&& runs[j].0 == codes[first] as int
                &&& runs[j].1 == codes[stop - 1] as int
                &&& forall|p: int| first <= p < stop ==> #[trigger] codes[p] as int == runs[j].0 + (p - first)
            } by {
                let _ = prev[j];
                if j + 1 < runs.len() {
                    let _ = prev[j + 1];
                }
            }
        } else {
            assert forall|j: int| 0 <= j < runs.len() implies {
                let first = #[trigger] runs[j].2;
                let stop = run_end_position(runs, j, n);
                &&& 0 <= first < stop <= codes.len()
                &&& runs[j].0 == codes[first] as int
                &&& runs[j].1 == codes[stop - 1] as int
                &&& forall|p: int| first <= p < stop ==> #[trigger] codes[p] as int == runs[j].0 + (p - first)
            } by {
                if j < prev.len() {
                    let _ = prev[j];
                    if j + 1 < prev.len() {
                        let _ = prev[j + 1];
                    }
                }
            }
        }
    }
}

/// The glyph id that a format 4 subtable whose range offsets are all zero
/// gives for the code `c`, searching the segments from index `j` on: the
/// first segment whose end is at least `c` maps `c` if it starts at or
/// before `c`; otherwise `c` is not mapped.
pub open spec fn format4_lookup_from(
    starts: Seq<int>,
    ends: Seq<int>,
    deltas: Seq<int>,
    c: int,
    j: int,
) -> Option<int>
    decreases ends.len() - j,
{
    if j < 0 || j >= ends.len() {
        None
    } else if ends[j] >= c {
        if starts[j] <= c {
            Some((c + deltas[j]) % 0x1_0000)
        } else {
            None
        }
    } else {
        format4_lookup_from(starts, ends, deltas, c, j + 1)
    }
}

proof fn lemma_lookup_skip(starts: Seq<int>, ends: Seq<int>, deltas: Seq<int>, c: int, i: int, j: int)
    requires
        0 <= i <= j,
        forall|m: int| i <= m < j ==> #[trigger] ends[m] < c,
    ensures
        format4_lookup_from(starts, ends, deltas, c, i) == format4_lookup_from(starts, ends, deltas, c, j),
    decreases j - i,
{
    if i < j {
        lemma_lookup_skip(starts, ends, deltas, c, i + 1, j);
    }
}

/// The encoded table maps each character code to its glyph: when the codes
/// are strictly increasing, looking up the code at position `k` in the
/// segments gives glyph id `k + base` (modulo 2^16).
pub proof fn lemma_cmap_maps_codes_to_glyphs(codes: Seq<u16>, base: int, k: int)
    requires
        0 <= k < codes.len(),
        forall|a: int, b: int| 0 <= a < b < codes.len() ==> codes[a] < codes[b],
    ensures
        format4_lookup_from(
            segment_starts(codes),
            segment_ends(codes),
            segment_deltas(codes, base),
            codes[k] as int,
            0,
        ) == Some((k + base) % 0x1_0000),
{
    lemma_runs_cover(codes);
    let runs = code_runs(codes);
    let n = codes.len() as int;
    let starts = segment_starts(codes);
    let ends = segment_ends(codes);
    let deltas = segment_deltas(codes, base);
    let c = codes[k] as int;
    // the run holding position k
    assert(exists|j: int| 0 <= j < runs.len() && (#[trigger] runs[j]).2 <= k < run_end_position(runs, j, n)) by {
        lemma_runs_basic(codes);
        lemma_cover_at(codes, runs, 0, 0);
        lemma_run_holding(codes, runs, k, 0);
    }
    let j = choose|j: int| 0 <= j < runs.len() && (#[trigger] runs[j]).2 <= k < run_end_position(runs, j, n);
    let first = runs[j].2;
    let stop = run_end_position(runs, j, n);
    lemma_cover_at(codes, runs, j, k);
    assert(0 <= first < stop <= n);
    assert(codes[k] as int == runs[j].0 + (k - first));
    assert forall|m: int| 0 <= m < j implies #[trigger] ends[m] < c by {
        lemma_runs_ordered(codes, runs, m, j);
        lemma_cover_at(codes, runs, m, k);
        let stop_m = run_end_position(runs, m, n);
        assert(stop_m - 1 < k);
        assert(codes[stop_m - 1] < codes[k]);
    }
    lemma_lookup_skip(starts, ends, deltas, c, 0, j);
    assert(ends[j] == runs[j].1);
    assert(starts[j] == runs[j].0);
    assert(deltas[j] == (first + base - runs[j].0) % 0x1_0000);
    if stop - 1 > k {
        assert(codes[k] < codes[stop - 1]);
    }
    assert(ends[j] >= c);
    assert(starts[j] <= c) by {
        if first < k {
            assert(codes[first] < codes[k]);
        }
    }
    vstd::arithmetic::div_mod::lemma_add_mod_noop_right(c, first + base - runs[j].0, 0x1_0000);
    assert(c + (first + base - runs[j].0) == k + base);
}

/// What `runs_cover` says of run `j`, and of the code at position `p`.
proof fn lemma_cover_at(codes: Seq<u16>, runs: Seq<(int, int, int)>, j: int, p: int)
    requires
        runs_cover(codes, runs),
        0 <= j < runs.len(),
    ensures
        0 <= runs[j].2 < run_end_position(runs, j, codes.len() as int) <= codes.len(),
        runs[j].0 == codes[runs[j].2] as int,
        runs[j].1 == codes[run_end_position(runs, j, codes.len() as int) - 1] as int,
        runs[j].2 <= p < run_end_position(runs, j, codes.len() as int) ==> codes[p] as int
            == runs[j].0 + (p - runs[j].2),
        codes.len() > 0 ==> runs[0].2 == 0,
{
    reveal(runs_cover);
    let _ = runs[j].2;
    if runs[j].2 <= p < run_end_position(runs, j, codes.len() as int) {
        let _ = codes[p];
    }
}

/// Run starts are increasing, and each run ends before the next one starts.
proof fn lemma_runs_ordered(codes: Seq<u16>, runs: Seq<(int, int, int)>, m: int, j: int)
    requires
        runs_cover(codes, runs),
        0 <= m < j < runs.len(),
    ensures
        run_end_position(runs, m, codes.len() as int) <= runs[j].2,
    decreases j - m,
{
    lemma_cover_at(codes, runs, m, 0);
    lemma_cover_at(codes, runs, m + 1, 0);
    if m + 1 < j {
        lemma_runs_ordered(codes, runs, m + 1, j);
    }
}

/// Every position from the start of run `j` on is held by run `j` or a later one.
proof fn lemma_run_holding(codes: Seq<u16>, runs: Seq<(int, int, int)>, k: int, j: int)
    requires
        runs_cover(codes, runs),
        0 <= j < runs.len(),
        runs[j].2 <= k < codes.len(),
    ensures
        exists|i: int| 0 <= i < runs.len() && (#[trigger] runs[i]).2 <= k < run_end_position(runs, i, codes.len() as int),
    decreases runs.len() - j,
{
    lemma_cover_at(codes, runs, j, k);
    if k >= run_end_position(runs, j, codes.len() as int) {
        lemma_cover_at(codes, runs, j + 1, k);
        lemma_run_holding(codes, runs, k, j + 1);
    }
}

} // verus!
