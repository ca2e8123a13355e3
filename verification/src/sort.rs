//! A stable sort by a two-part key.

use vstd::prelude::*;

verus! {

/// Items that are ordered by a pair of integers, compared lexicographically.
pub trait SortKey {
    spec fn key(&self) -> (u16, u16);

    fn sort_key(&self) -> (r: (u16, u16))
        ensures
            r == self.key(),
    ;
}

/// Lexicographic order on keys.
pub open spec fn key_le(a: (u16, u16), b: (u16, u16)) -> bool {
    a.0 < b.0 || (a.0 == b.0 && a.1 <= b.1)
}

/// The items are in nondecreasing key order.
pub open spec fn sorted_by_key<T: SortKey>(s: Seq<T>) -> bool {
    forall|i: int, j: int| 0 <= i < j < s.len() ==> key_le(#[trigger] s[i].key(), #[trigger] s[j].key())
}

/// The items of `s` whose key is `k`, in order.
pub open spec fn with_key<T: SortKey>(s: Seq<T>, k: (u16, u16)) -> Seq<T> {
    s.filter(key_is(k))
}

/// The test that an item has key `k`.
pub open spec fn key_is<T: SortKey>(k: (u16, u16)) -> spec_fn(T) -> bool {
    |x: T| x.key() == k
}

/// `out` is `inp` stably sorted by key: its keys are in order, and the items
/// that share a key keep their relative order.
pub open spec fn stably_sorted<T: SortKey>(out: Seq<T>, inp: Seq<T>) -> bool {
    &&& sorted_by_key(out)
    &&& forall|k: (u16, u16)| #[trigger] with_key(out, k) == with_key(inp, k)
}

pub proof fn lemma_filter_push<T>(s: Seq<T>, x: T, pred: spec_fn(T) -> bool)
    ensures
        s.push(x).filter(pred) == (if pred(x) {
            s.filter(pred).push(x)
        } else {
            s.filter(pred)
        }),
{
    reveal(Seq::filter);
    assert(s.push(x).drop_last() =~= s);
}

pub proof fn lemma_filter_none<T>(s: Seq<T>, pred: spec_fn(T) -> bool)
    requires
        forall|i: int| 0 <= i < s.len() ==> !pred(#[trigger] s[i]),
    ensures
        s.filter(pred) == Seq::<T>::empty(),
    decreases s.len(),
{
    reveal(Seq::filter);
    if s.len() > 0 {
        lemma_filter_none(s.drop_last(), pred);
        assert(!pred(s[s.len() - 1]));
    }
}

/// Inserting `x` after every item whose key is not greater than its own, and
/// before every item whose key is, keeps the sort stable.
proof fn lemma_insert_stable<T: SortKey>(pre: Seq<T>, inp: Seq<T>, x: T, p: int)
    requires
        stably_sorted(pre, inp),
        0 <= p <= pre.len(),
        forall|j: int| 0 <= j < p ==> key_le(#[trigger] pre[j].key(), x.key()),
        forall|j: int| p <= j < pre.len() ==> !key_le(#[trigger] pre[j].key(), x.key()),
    ensures
        stably_sorted(pre.insert(p, x), inp.push(x)),
{
    let post = pre.insert(p, x);
    let left = pre.take(p);
    let right = pre.skip(p);
    assert(pre =~= left + right);
    assert(post =~= left + seq![x] + right);
    assert forall|i: int, j: int| 0 <= i < j < post.len() implies key_le(
        #[trigger] post[i].key(),
        #[trigger] post[j].key(),
    ) by {
        if i < p && j < p {
            assert(post[i] == pre[i] && post[j] == pre[j]);
        } else if i < p && j == p {
        } else if i < p {
            assert(post[i] == pre[i] && post[j] == pre[j - 1]);
        } else if i == p {
            assert(post[j] == pre[j - 1]);
        } else {
            assert(post[i] == pre[i - 1] && post[j] == pre[j - 1]);
        }
    }
    assert forall|k: (u16, u16)| #[trigger] with_key(post, k) == with_key(inp.push(x), k) by {
        let pred = key_is::<T>(k);
        Seq::filter_distributes_over_add(left, right, pred);
        Seq::filter_distributes_over_add(left + seq![x], right, pred);
        Seq::filter_distributes_over_add(left, seq![x], pred);
        lemma_filter_push(inp, x, pred);
        lemma_filter_push(Seq::<T>::empty(), x, pred);
        assert(Seq::<T>::empty().push(x) =~= seq![x]);
        reveal(Seq::filter);
        assert(Seq::<T>::empty().filter(pred) =~= Seq::<T>::empty());
        assert(with_key(pre, k) == with_key(inp, k));
        if x.key() == k {
            assert forall|i: int| 0 <= i < right.len() implies !pred(#[trigger] right[i]) by {
                assert(right[i] == pre[p + i]);
            }
            lemma_filter_none(right, pred);
            assert(right.filter(pred) + Seq::<T>::empty() =~= right.filter(pred));
            assert(with_key(post, k) =~= left.filter(pred).push(x));
            assert(with_key(pre, k) =~= left.filter(pred));
        } else {
            assert(with_key(post, k) =~= left.filter(pred) + right.filter(pred));
        }
    }
}

/// Sorts `v` stably by key.
pub fn stable_sort<T: SortKey + Copy>(v: &mut Vec<T>)
    ensures
        stably_sorted(final(v)@, old(v)@),
{
    let ghost inp = v@;
    let mut out: Vec<T> = Vec::new();
    let mut i: usize = 0;
    proof {
        reveal(Seq::filter);
        assert forall|k: (u16, u16)| #[trigger] with_key(out@, k) == with_key(inp.take(0), k) by {
            assert(inp.take(0) =~= Seq::<T>::empty());
            assert(out@ =~= Seq::<T>::empty());
        }
    }
    while i < v.len()
        invariant
            inp == v@,
            0 <= i <= v.len(),
            stably_sorted(out@, inp.take(i as int)),
        decreases v.len() - i,
    {
        let x = v[i];
        let xk = x.sort_key();
        let mut p = out.len();
        while p > 0
            invariant
                0 <= p <= out.len(),
                xk == x.key(),
                sorted_by_key(out@),
                forall|j: int| p <= j < out.len() ==> !key_le(#[trigger] out[j].key(), x.key()),
            ensures
                0 <= p <= out.len(),
                forall|j: int| p <= j < out.len() ==> !key_le(#[trigger] out[j].key(), x.key()),
                p == 0 || key_le(out@[p - 1].key(), x.key()),
            decreases p,
        {
            let ok = out[p - 1].sort_key();
            if ok.0 < xk.0 || (ok.0 == xk.0 && ok.1 <= xk.1) {
                break;
            }
            p = p - 1;
        }
        proof {
            assert forall|j: int| 0 <= j < p implies key_le(#[trigger] out@[j].key(), x.key()) by {
                if j < p - 1 {
                    assert(key_le(out@[j].key(), out@[p - 1].key()));
                }
            }
            lemma_insert_stable(out@, inp.take(i as int), x, p as int);
            assert(inp.take(i as int).push(x) =~= inp.take(i + 1));
        }
        out.insert(p, x);
        i += 1;
    }
    assert(inp.take(v.len() as int) =~= inp);
    *v = out;
}

} // verus!
