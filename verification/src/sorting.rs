//! Ascending order on cycle counts, and a merge sort that establishes it.

use vstd::prelude::*;
use vstd::relations::sorted_by;
use vstd::seq_lib::{lemma_multiset_commutative, lemma_sorted_unique};

verus! {

/// The order by which samples are sorted: `<=` on unsigned integers.
pub open spec fn leq() -> spec_fn(u64, u64) -> bool {
    |a: u64, b: u64| a <= b
}

/// The samples of `s` in ascending order.
pub open spec fn ascending(s: Seq<u64>) -> Seq<u64> {
    s.sort_by(leq())
}

/// `ascending(s)` is the one rearrangement of `s` in which no sample is
/// followed by a smaller one.
pub proof fn lemma_ascending(s: Seq<u64>)
    ensures
        ascending(s).len() == s.len(),
        ascending(s).to_multiset() == s.to_multiset(),
        sorted_by(ascending(s), leq()),
        forall|i: int, j: int| 0 <= i <= j < s.len() ==> ascending(s)[i] <= ascending(s)[j],
{
    s.lemma_sort_by_ensures(leq());
    s.to_multiset_ensures();
    ascending(s).to_multiset_ensures();
    let sorted = ascending(s);
    assert forall|i: int, j: int| 0 <= i <= j < s.len() implies sorted[i] <= sorted[j] by {
        if i < j {
            assert(leq()(sorted[i], sorted[j]));
        }
    }
}

/// A sequence in ascending order with the samples of `s` is `ascending(s)`.
pub proof fn lemma_ascending_unique(s: Seq<u64>, t: Seq<u64>)
    requires
        sorted_by(t, leq()),
        t.to_multiset() == s.to_multiset(),
    ensures
        t == ascending(s),
{
    s.lemma_sort_by_ensures(leq());
    lemma_sorted_unique(t, ascending(s), leq());
}

/// Taking one more sample of `s` adds that sample to what was taken.
proof fn lemma_take_one_more(s: Seq<u64>, n: int)
    requires
        0 <= n < s.len(),
    ensures
        s.take(n + 1).to_multiset() == s.take(n).to_multiset().insert(s[n]),
{
    broadcast use vstd::seq_lib::group_to_multiset_ensures;

    assert(s.take(n + 1) =~= s.take(n).push(s[n]));
}

/// If `out` holds the samples of `a` and of `b`, then `out` with `x`
/// appended holds them with `x` added on either side.
proof fn lemma_push_merged(out: Seq<u64>, a: Seq<u64>, b: Seq<u64>, x: u64)
    requires
        out.to_multiset() == a.to_multiset().add(b.to_multiset()),
    ensures
        out.push(x).to_multiset() == a.to_multiset().insert(x).add(b.to_multiset()),
        out.push(x).to_multiset() == a.to_multiset().add(b.to_multiset().insert(x)),
{
    broadcast use vstd::seq_lib::group_to_multiset_ensures;

}

/// Merges two ascending runs into one.
fn merge(left: &Vec<u64>, right: &Vec<u64>) -> (out: Vec<u64>)
    requires
        sorted_by(left@, leq()),
        sorted_by(right@, leq()),
    ensures
        sorted_by(out@, leq()),
        out@.to_multiset() == left@.to_multiset().add(right@.to_multiset()),
{
    broadcast use vstd::seq_lib::group_to_multiset_ensures;

    let mut out: Vec<u64> = Vec::new();
    let mut i: usize = 0;
    let mut j: usize = 0;
    while i < left.len() || j < right.len()
        invariant
            i <= left@.len(),
            j <= right@.len(),
            sorted_by(left@, leq()),
            sorted_by(right@, leq()),
            sorted_by(out@, leq()),
            out@.to_multiset() == left@.take(i as int).to_multiset().add(
                right@.take(j as int).to_multiset(),
            ),
            forall|k: int| 0 <= k < out@.len() && i < left@.len() ==> out@[k] <= left@[i as int],
            forall|k: int| 0 <= k < out@.len() && j < right@.len() ==> out@[k] <= right@[j as int],
        decreases left@.len() - i + right@.len() - j,
    {
        let from_left = if i < left.len() && j < right.len() {
            left[i] <= right[j]
        } else {
            i < left.len()
        };
        if from_left {
            proof {
                lemma_take_one_more(left@, i as int);
                lemma_push_merged(
                    out@,
                    left@.take(i as int),
                    right@.take(j as int),
                    left@[i as int],
                );
                if i + 1 < left@.len() {
                    assert(leq()(left@[i as int], left@[i + 1]));
                }
            }
            out.push(left[i]);
            i += 1;
        } else {
            proof {
                lemma_take_one_more(right@, j as int);
                lemma_push_merged(
                    out@,
                    left@.take(i as int),
                    right@.take(j as int),
                    right@[j as int],
                );
                if j + 1 < right@.len() {
                    assert(leq()(right@[j as int], right@[j + 1]));
                }
            }
            out.push(right[j]);
            j += 1;
        }
    }
    proof {
        assert(left@.take(i as int) =~= left@);
        assert(right@.take(j as int) =~= right@);
    }
    out
}

/// Sorts the samples `v[lo..hi]` into a new vector.
fn sorted_range(v: &Vec<u64>, lo: usize, hi: usize) -> (out: Vec<u64>)
    requires
        lo <= hi <= v@.len(),
    ensures
        sorted_by(out@, leq()),
        out@.to_multiset() == v@.subrange(lo as int, hi as int).to_multiset(),
    decreases hi - lo,
{
    if hi - lo == 0 {
        let out: Vec<u64> = Vec::new();
        assert(v@.subrange(lo as int, hi as int) =~= out@);
        out
    } else if hi - lo == 1 {
        let mut out: Vec<u64> = Vec::new();
        out.push(v[lo]);
        assert(v@.subrange(lo as int, hi as int) =~= out@);
        out
    } else {
        let mid: usize = lo + (hi - lo) / 2;
        let left = sorted_range(v, lo, mid);
        let right = sorted_range(v, mid, hi);
        proof {
            let a = v@.subrange(lo as int, mid as int);
            let b = v@.subrange(mid as int, hi as int);
            assert(a + b =~= v@.subrange(lo as int, hi as int));
            lemma_multiset_commutative(a, b);
        }
        merge(&left, &right)
    }
}

/// Returns the samples of `v` in ascending order.
pub fn sort_ascending(v: &Vec<u64>) -> (out: Vec<u64>)
    ensures
        out@ == ascending(v@),
{
    let out = sorted_range(v, 0, v.len());
    proof {
        assert(v@.subrange(0, v@.len() as int) =~= v@);
        lemma_ascending_unique(v@, out@);
    }
    out
}

} // verus!
