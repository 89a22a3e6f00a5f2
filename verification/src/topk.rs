//! Selection of the k highest score keys, in descending order.
//!
//! A score key is a 64-bit value whose unsigned order agrees with the order
//! of the scores it stands for; the scanner that reports the five best rows
//! is, at this level, "sort the keys descending and keep the first five".

use vstd::prelude::*;

use vstd::relations::{sorted_by, total_ordering};
use vstd::seq_lib::lemma_sorted_unique;

verus! {

/// Number of rows the store-backed scan reports.
pub const TOP_K: usize = 5;

/// The descending order on score keys: `x` may stand before `y` when
/// `x >= y`.
pub open spec fn descending() -> spec_fn(u64, u64) -> bool {
    |x: u64, y: u64| x >= y
}

/// A whole score sequence rearranged into descending order.
pub open spec fn sorted_desc(s: Seq<u64>) -> Seq<u64> {
    s.sort_by(descending())
}

/// The descending order is a total order on keys.
proof fn lemma_descending_total_ordering()
    ensures
        total_ordering(descending()),
{
    let leq = descending();
    assert forall|x: u64| #[trigger] leq(x, x) by {}
    assert forall|x: u64, y: u64| #[trigger] leq(x, y) && #[trigger] leq(y, x) implies x == y by {}
    assert forall|x: u64, y: u64, z: u64|
        #[trigger] leq(x, y) && #[trigger] leq(y, z) implies leq(x, z) by {}
    assert forall|x: u64, y: u64| !(#[trigger] leq(x, y)) implies leq(y, x) by {}
}

/// Rearranges the keys into descending order.
fn sort_descending(s: &Vec<u64>) -> (r: Vec<u64>)
    ensures
        r@ == sorted_desc(s@),
{
    let ghost leq = descending();
    let mut out: Vec<u64> = Vec::new();
    let mut i: usize = 0;
    proof {
        assert(out@ =~= s@.take(0));
    }
    while i < s.len()
        invariant
            i <= s@.len(),
            out@.len() == i,
            sorted_by(out@, leq),
            out@.to_multiset() == s@.take(i as int).to_multiset(),
            leq == descending(),
        decreases s@.len() - i,
    {
        let x = s[i];
        let mut p: usize = 0;
        while p < out.len() && out[p] >= x
            invariant
                p <= out@.len(),
                forall|q: int| 0 <= q < p ==> out@[q] >= x,
            decreases out@.len() - p,
        {
            p = p + 1;
        }
        let ghost before = out@;
        out.insert(p, x);
        proof {
            assert forall|a: int, b: int| 0 <= a < b < out@.len() implies #[trigger] leq(
                out@[a],
                out@[b],
            ) by {
                // entries before `p` kept their index, entries after it
                // moved up by one, and `x` itself stands at `p`
                if b < p {
                    assert(leq(before[a], before[b]));
                } else if a > p {
                    assert(leq(before[a - 1], before[b - 1]));
                } else if b == p {
                    assert(before[a] >= x);
                } else {
                    // a <= p < b: everything at p or beyond was below x
                    assert(b - 1 >= p && before[p as int] < x);
                    if b - 1 > p {
                        assert(leq(before[p as int], before[b - 1]));
                    }
                    if a < p {
                        assert(before[a] >= x);
                    }
                }
            }
            vstd::seq_lib::to_multiset_insert(before, p as int, x);
            assert(s@.take(i as int + 1) =~= s@.take(i as int).push(x));
            vstd::seq_lib::to_multiset_build(s@.take(i as int), x);
        }
        i = i + 1;
    }
    proof {
        assert(s@.take(s@.len() as int) =~= s@);
        lemma_descending_total_ordering();
        s@.lemma_sort_by_ensures(leq);
        assert(out@.to_multiset() =~= sorted_desc(s@).to_multiset());
        lemma_sorted_unique(out@, sorted_desc(s@), leq);
        assert(out@ =~= sorted_desc(s@));
    }
    out
}

/// The `k` highest keys, in descending order: exactly the first `k` entries
/// of the descending sort of the input, or the whole sort when the input
/// has fewer than `k` keys. Ties are kept as often as they occur; which of
/// two equal keys came from which row is not distinguishable at this level.
pub fn top_k(scores: &Vec<u64>, k: usize) -> (r: Vec<u64>)
    ensures
        r@ == sorted_desc(scores@).take(vstd::math::min(k as int, scores@.len() as int)),
        r@.len() == vstd::math::min(k as int, scores@.len() as int),
        sorted_by(r@, descending()),
{
    let sorted = sort_descending(scores);
    proof {
        lemma_descending_total_ordering();
        scores@.lemma_sort_by_ensures(descending());
        vstd::seq_lib::to_multiset_len(scores@);
        vstd::seq_lib::to_multiset_len(sorted@);
    }
    let mut r: Vec<u64> = Vec::new();
    let mut i: usize = 0;
    while i < k && i < sorted.len()
        invariant
            sorted@ == sorted_desc(scores@),
            sorted@.len() == scores@.len(),
            i <= k,
            i <= sorted@.len(),
            r@ == sorted@.take(i as int),
        decreases sorted@.len() - i,
    {
        r.push(sorted[i]);
        proof {
            assert(sorted@.take(i as int + 1) =~= sorted@.take(i as int).push(sorted@[i as int]));
        }
        i = i + 1;
    }
    proof {
        assert(r@ == sorted_desc(scores@).take(vstd::math::min(k as int, scores@.len() as int)));
        assert(sorted_by(sorted@, descending()));
        assert forall|a: int, b: int| 0 <= a < b < r@.len() implies #[trigger] descending()(
            r@[a],
            r@[b],
        ) by {
            assert(descending()(sorted@[a], sorted@[b]));
        }
    }
    r
}

/// The highest key of a score sequence; `None` exactly on the empty one.
pub fn max_key(scores: &Vec<u64>) -> (r: Option<u64>)
    ensures
        (r is None) <==> scores@.len() == 0,
        r matches Some(m) ==> scores@.contains(m) && (forall|i: int|
            0 <= i < scores@.len() ==> scores@[i] <= m),
{
    if scores.len() == 0 {
        return None;
    }
    let mut best: u64 = scores[0];
    let mut i: usize = 1;
    while i < scores.len()
        invariant
            1 <= i <= scores@.len(),
            scores@.contains(best),
            forall|j: int| 0 <= j < i ==> scores@[j] <= best,
        decreases scores@.len() - i,
    {
        if scores[i] > best {
            best = scores[i];
        }
        i = i + 1;
    }
    Some(best)
}

} // verus!
