//! Ranking of scored items: highest score first, ties broken by position.
//! Scores arrive as the bit patterns of `f64` values and are ordered the way
//! `f64::total_cmp` orders them.

use vstd::prelude::*;
use crate::images::{is_path_sorted, lemma_path_le_antisymmetric, path_le};

verus! {

/// The place of an `f64` with bit pattern `bits` in the IEEE-754 total order:
/// for a cleared sign bit the bits themselves, for a set sign bit minus one
/// minus the magnitude bits (so -0.0 sits just below +0.0 and NaNs at the ends).
pub open spec fn total_order_key(bits: u64) -> int {
    if bits >= 0x8000_0000_0000_0000u64 {
        -1 - (bits - 0x8000_0000_0000_0000u64)
    } else {
        bits as int
    }
}

/// Executable form of `total_order_key`.
pub fn total_order_key_of(bits: u64) -> (k: i64)
    ensures
        k == total_order_key(bits),
{
    if bits >= 0x8000_0000_0000_0000u64 {
        let mag: u64 = bits - 0x8000_0000_0000_0000u64;
        let m: i64 = mag as i64;
        -1 - m
    } else {
        bits as i64
    }
}

/// The key by which std's total ordering of `f64` compares two values (as
/// `i64`, per its documented implementation): the bit pattern read as a
/// signed integer, with the lower 63 bits flipped when the sign bit is set.
pub open spec fn ieee_order_key(bits: u64) -> i64 {
    (bits as i64) ^ ((((bits as i64) >> 63u64) as u64 >> 1u64) as i64)
}

/// Ranking follows the IEEE-754 total order of std's `f64` comparison
/// exactly: the key of every bit pattern is its `ieee_order_key`, so one score
/// ranks above another exactly when that order puts it after, equal keys come only from
/// equal bit patterns, and a non-negative `f64`'s key is its bit pattern.
pub proof fn lemma_key_is_ieee_total_order(x: u64, y: u64)
    ensures
        total_order_key(x) == ieee_order_key(x) as int,
        total_order_key(x) < total_order_key(y) <==> ieee_order_key(x) < ieee_order_key(y),
        total_order_key(x) == total_order_key(y) <==> x == y,
        x < 0x8000_0000_0000_0000u64 ==> total_order_key(x) == x as int,
{
    lemma_key_matches(x);
    lemma_key_matches(y);
}

proof fn lemma_key_matches(b: u64)
    ensures
        total_order_key(b) == ieee_order_key(b) as int,
{
    if b >= 0x8000_0000_0000_0000u64 {
        assert(ieee_order_key(b) as int == -1 - (b - 0x8000_0000_0000_0000u64)) by (bit_vector)
            requires
                b >= 0x8000_0000_0000_0000u64,
        ;
    } else {
        assert(ieee_order_key(b) as int == b as int) by (bit_vector)
            requires
                b < 0x8000_0000_0000_0000u64,
        ;
    }
}

/// Item `a` comes before item `b`: a higher score, or an equal score and an earlier position.
pub open spec fn ranks_before(scores: Seq<u64>, a: int, b: int) -> bool {
    total_order_key(scores[a]) > total_order_key(scores[b]) || (total_order_key(scores[a])
        == total_order_key(scores[b]) && a < b)
}

/// `r` lists, best first, the `min(k, n)` best of the `n` scored items: valid
/// positions in ranking order, and every item left out ranks after every item listed.
pub open spec fn is_top_ranking(scores: Seq<u64>, k: nat, r: Seq<usize>) -> bool {
    &&& r.len() == if k < scores.len() { k } else { scores.len() }
    &&& forall|i: int| 0 <= i < r.len() ==> #[trigger] r[i] < scores.len()
    &&& forall|i: int, j: int|
        0 <= i < j < r.len() ==> ranks_before(scores, #[trigger] r[i] as int, #[trigger] r[j] as int)
    &&& forall|i: int, x: int|
        0 <= i < r.len() && 0 <= x < scores.len() && !r.contains(x as usize)
            ==> #[trigger] ranks_before(scores, r[i] as int, x)
}

/// Positions of the `top_k` best scores, best first; equal scores keep their
/// input order (a stable descending sort followed by truncation).
pub fn rank_descending(scores: &Vec<u64>, top_k: usize) -> (r: Vec<usize>)
    ensures
        is_top_ranking(scores@, top_k as nat, r@),
{
    let n = scores.len();
    let mut keys: Vec<i64> = Vec::new();
    let mut order: Vec<usize> = Vec::new();
    let mut p: usize = 0;
    while p < n
        invariant
            n == scores.len(),
            p <= n,
            keys.len() == p,
            order.len() == p,
            forall|t: int| 0 <= t < p ==> keys@[t] == total_order_key(#[trigger] scores@[t]),
            forall|t: int| 0 <= t < p ==> #[trigger] order@[t] == t,
        decreases n - p,
    {
        keys.push(total_order_key_of(scores[p]));
        order.push(p);
        p = p + 1;
    }
    let m: usize = if top_k < n { top_k } else { n };
    assert forall|x: int| 0 <= x < n implies #[trigger] order@.contains(x as usize) by {
        assert(order@[x] == x);
    }
    let mut i: usize = 0;
    while i < m
        invariant
            n == scores.len(),
            m <= n,
            i <= m,
            keys.len() == n,
            order.len() == n,
            forall|t: int| 0 <= t < n ==> keys@[t] == total_order_key(#[trigger] scores@[t]),
            forall|q: int| 0 <= q < n ==> #[trigger] order@[q] < n,
            forall|q1: int, q2: int|
                0 <= q1 < q2 < n ==> #[trigger] order@[q1] != #[trigger] order@[q2],
            forall|x: int| 0 <= x < n ==> #[trigger] order@.contains(x as usize),
            forall|a: int, b: int|
                0 <= a < b < n && a < i ==> ranks_before(
                    scores@,
                    #[trigger] order@[a] as int,
                    #[trigger] order@[b] as int,
                ),
        decreases m - i,
    {
        // find the best remaining item
        let mut best: usize = i;
        let mut j: usize = i + 1;
        while j < n
            invariant
                n == scores.len(),
                i < n,
                i <= best < n,
                i < j <= n,
                best < j,
                keys.len() == n,
                order.len() == n,
                forall|t: int| 0 <= t < n ==> keys@[t] == total_order_key(#[trigger] scores@[t]),
                forall|q: int| 0 <= q < n ==> #[trigger] order@[q] < n,
                forall|q1: int, q2: int|
                    0 <= q1 < q2 < n ==> #[trigger] order@[q1] != #[trigger] order@[q2],
                forall|t: int|
                    i <= t < j && t != best ==> ranks_before(
                        scores@,
                        order@[best as int] as int,
                        #[trigger] order@[t] as int,
                    ),
            decreases n - j,
        {
            let c = order[j];
            let b = order[best];
            if keys[c] > keys[b] || (keys[c] == keys[b] && c < b) {
                assert(order@[j as int] != order@[best as int]);
                best = j;
            } else {
                assert(order@[j as int] != order@[best as int]);
            }
            j = j + 1;
        }
        // move it to position i
        let ghost before = order@;
        let a_val = order[i];
        let b_val = order[best];
        order.set(i, b_val);
        order.set(best, a_val);
        assert forall|x: int| 0 <= x < n implies #[trigger] order@.contains(x as usize) by {
            assert(before.contains(x as usize));
            let q0 = choose|q: int| 0 <= q < n && before[q] == x;
            if q0 == i {
                assert(order@[best as int] == x);
            } else if q0 == best {
                assert(order@[i as int] == x);
            } else {
                assert(order@[q0] == x);
            }
        }
        assert forall|q1: int, q2: int| 0 <= q1 < q2 < n implies #[trigger] order@[q1]
            != #[trigger] order@[q2] by {
            assert(before[q1] != before[q2]);
            assert(before[i as int] != before[q1] || q1 == i);
            assert(before[best as int] != before[q2] || q2 == best);
        }
        assert forall|a: int, b: int| 0 <= a < b < n && a < i + 1 implies ranks_before(
            scores@,
            #[trigger] order@[a] as int,
            #[trigger] order@[b] as int,
        ) by {
            if a < i {
                if b == best {
                    assert(order@[b] == before[i as int]);
                } else if b == i {
                    assert(order@[b] == before[best as int]);
                }
            } else {
                if b == best {
                    assert(order@[b] == before[i as int]);
                    assert(before[i as int] != before[best as int] || i == best);
                } else {
                    assert(order@[b] == before[b]);
                }
            }
        }
        i = i + 1;
    }
    let ghost full = order@;
    order.truncate(m);
    assert(order@ =~= full.take(m as int));
    assert forall|ii: int, x: int|
        0 <= ii < order@.len() && 0 <= x < n && !order@.contains(x as usize)
        implies #[trigger] ranks_before(scores@, order@[ii] as int, x) by {
        assert(full.contains(x as usize));
        let q = choose|q: int| 0 <= q < n && full[q] == x;
        if q < m {
            assert(order@[q] == x as usize);
        }
        assert(full[ii] == order@[ii]);
    }
    order
}


/// Over images listed in path order without repeats, ranking by position breaks
/// ties between equal scores by path order: nearest-neighbour results with equal
/// similarity come out in path order.
pub proof fn lemma_position_ties_follow_paths(paths: Seq<Seq<char>>, scores: Seq<u64>, a: int, b: int)
    requires
        is_path_sorted(paths),
        forall|i: int, j: int| 0 <= i < j < paths.len() ==> paths[i] != paths[j],
        scores.len() == paths.len(),
        0 <= a < paths.len(),
        0 <= b < paths.len(),
        a != b,
    ensures
        ranks_before(scores, a, b) <==> (total_order_key(scores[a]) > total_order_key(scores[b]) || (
        total_order_key(scores[a]) == total_order_key(scores[b]) && path_le(paths[a], paths[b]))),
{
    if a < b {
        assert(path_le(paths[a], paths[b]));
    } else {
        assert(path_le(paths[b], paths[a]));
        assert(paths[b] != paths[a]);
        if path_le(paths[a], paths[b]) {
            lemma_path_le_antisymmetric(paths[a], paths[b]);
        }
    }
}

proof fn lemma_ranking_agrees_at(scores: Seq<u64>, k1: nat, k2: nat, r1: Seq<usize>, r2: Seq<usize>, i: int)
    requires
        k1 <= k2,
        is_top_ranking(scores, k1, r1),
        is_top_ranking(scores, k2, r2),
        0 <= i < r1.len(),
        forall|j: int| 0 <= j < i ==> r1[j] == r2[j],
    ensures
        r1[i] == r2[i],
{
    let x = r1[i];
    let y = r2[i];
    assert(r1.len() <= r2.len());
    if x != y {
        // x ranks before y
        if r1.contains(y) {
            let p = choose|p: int| 0 <= p < r1.len() && r1[p] == y;
            if p < i {
                assert(r2[p] == y);
                assert(ranks_before(scores, r2[p] as int, r2[i] as int));
            } else {
                assert(p > i);
                assert(ranks_before(scores, r1[i] as int, r1[p] as int));
            }
        } else {
            assert(ranks_before(scores, r1[i] as int, y as int));
        }
        assert(ranks_before(scores, x as int, y as int));
        // y ranks before x
        if r2.contains(x) {
            let q = choose|q: int| 0 <= q < r2.len() && r2[q] == x;
            if q < i {
                assert(r1[q] == x);
                assert(ranks_before(scores, r1[q] as int, r1[i] as int));
            } else {
                assert(q > i);
                assert(ranks_before(scores, r2[i] as int, r2[q] as int));
            }
        } else {
            assert(ranks_before(scores, r2[i] as int, x as int));
        }
        assert(ranks_before(scores, y as int, x as int));
    }
}

/// Asking for more results only extends the list: the top `k1` are the first
/// `k1` of the top `k2` whenever `k1 <= k2` (so for `k1 == k2` the ranking is unique).
pub proof fn lemma_ranking_prefix(scores: Seq<u64>, k1: nat, k2: nat, r1: Seq<usize>, r2: Seq<usize>)
    requires
        k1 <= k2,
        is_top_ranking(scores, k1, r1),
        is_top_ranking(scores, k2, r2),
    ensures
        r1 == r2.take(r1.len() as int),
{
    lemma_ranking_agrees_below(scores, k1, k2, r1, r2, r1.len() as int);
    assert(r1 =~= r2.take(r1.len() as int));
}

proof fn lemma_ranking_agrees_below(scores: Seq<u64>, k1: nat, k2: nat, r1: Seq<usize>, r2: Seq<usize>, n: int)
    requires
        k1 <= k2,
        is_top_ranking(scores, k1, r1),
        is_top_ranking(scores, k2, r2),
        0 <= n <= r1.len(),
    ensures
        forall|j: int| 0 <= j < n ==> r1[j] == r2[j],
    decreases n,
{
    if n > 0 {
        lemma_ranking_agrees_below(scores, k1, k2, r1, r2, n - 1);
        lemma_ranking_agrees_at(scores, k1, k2, r1, r2, n - 1);
    }
}

} // verus!
