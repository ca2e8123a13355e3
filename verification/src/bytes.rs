//! Big-endian encoding of integers, as used by OpenType tables.

use vstd::prelude::*;

verus! {

/// The two big-endian bytes of `x` taken modulo 2^16 (two's complement for
/// negative values).
pub open spec fn be16(x: int) -> Seq<u8> {
    let v = x % 0x1_0000;
    seq![(v / 0x100) as u8, (v % 0x100) as u8]
}

/// The four big-endian bytes of `x` taken modulo 2^32.
pub open spec fn be32(x: int) -> Seq<u8> {
    let v = x % 0x1_0000_0000;
    be16(v / 0x1_0000) + be16(v % 0x1_0000)
}

/// The eight big-endian bytes of `x` taken modulo 2^64.
pub open spec fn be64(x: int) -> Seq<u8> {
    let v = x % 0x1_0000_0000_0000_0000;
    be32(v / 0x1_0000_0000) + be32(v % 0x1_0000_0000)
}

/// The big-endian bytes of a `usize`, as wide as the platform's `usize`.
pub open spec fn be_usize(x: int) -> Seq<u8> {
    if usize::BITS == 64 {
        be64(x)
    } else {
        be32(x)
    }
}

/// The concatenation of the two-byte encodings of each value in `xs`.
pub open spec fn be16_seq(xs: Seq<int>) -> Seq<u8>
    decreases xs.len(),
{
    if xs.len() == 0 {
        Seq::empty()
    } else {
        be16_seq(xs.drop_last()) + be16(xs.last())
    }
}

pub proof fn lemma_be16_seq_len(xs: Seq<int>)
    ensures
        be16_seq(xs).len() == 2 * xs.len(),
    decreases xs.len(),
{
    if xs.len() > 0 {
        lemma_be16_seq_len(xs.drop_last());
    }
}

/// Encoding a sequence with one more value appends that value's bytes.
pub proof fn lemma_be16_seq_push(xs: Seq<int>, x: int)
    ensures
        be16_seq(xs.push(x)) == be16_seq(xs) + be16(x),
{
    assert(xs.push(x).drop_last() =~= xs);
}

/// Appends the big-endian bytes of `x`.
pub fn push_u16(out: &mut Vec<u8>, x: u16)
    ensures
        final(out)@ == old(out)@ + be16(x as int),
{
    out.push((x / 256) as u8);
    out.push((x % 256) as u8);
    assert(final(out)@ =~= old(out)@ + be16(x as int));
}

/// Appends the big-endian two's complement bytes of `x`.
pub fn push_i16(out: &mut Vec<u8>, x: i16)
    ensures
        final(out)@ == old(out)@ + be16(x as int),
{
    let v: u16 = if x < 0 {
        (x as i32 + 65536) as u16
    } else {
        x as u16
    };
    assert(v as int == (x as int) % 0x1_0000);
    push_u16(out, v);
}

/// Appends the big-endian bytes of `x`.
pub fn push_u32(out: &mut Vec<u8>, x: u32)
    ensures
        final(out)@ == old(out)@ + be32(x as int),
{
    push_u16(out, (x / 65536) as u16);
    push_u16(out, (x % 65536) as u16);
    assert(final(out)@ =~= old(out)@ + be32(x as int));
}

/// Appends the big-endian bytes of `x`.
pub fn push_u64(out: &mut Vec<u8>, x: u64)
    ensures
        final(out)@ == old(out)@ + be64(x as int),
{
    let hi = (x / 0x1_0000_0000) as u32;
    let lo = (x % 0x1_0000_0000) as u32;
    let ghost before = out@;
    push_u32(out, hi);
    push_u32(out, lo);
    assert((x as int) % 0x1_0000_0000_0000_0000 == x as int);
    assert(be64(x as int) == be32(hi as int) + be32(lo as int));
    assert(out@ =~= before + be64(x as int));
}

/// Appends the big-endian bytes of `x`, as many as a `usize` has.
pub fn push_usize(out: &mut Vec<u8>, x: usize)
    ensures
        final(out)@ == old(out)@ + be_usize(x as int),
{
    if usize::BITS == 64 {
        push_u64(out, x as u64);
    } else {
        push_u32(out, x as u32);
    }
}

/// Appends the big-endian bytes of every value in `xs`, in order.
pub fn push_u16_all(out: &mut Vec<u8>, xs: &Vec<u16>)
    ensures
        final(out)@ == old(out)@ + be16_seq(xs@.map_values(|x: u16| x as int)),
{
    let ghost start = out@;
    let ghost ints = xs@.map_values(|x: u16| x as int);
    let mut i: usize = 0;
    while i < xs.len()
        invariant
            0 <= i <= xs.len(),
            ints == xs@.map_values(|x: u16| x as int),
            out@ == start + be16_seq(ints.take(i as int)),
        decreases xs.len() - i,
    {
        proof {
            lemma_be16_seq_push(ints.take(i as int), ints[i as int]);
            assert(ints.take(i as int).push(ints[i as int]) =~= ints.take(i + 1));
        }
        push_u16(out, xs[i]);
        i += 1;
    }
    assert(ints.take(xs.len() as int) =~= ints);
    assert(out@ =~= start + be16_seq(ints));
}

} // verus!
