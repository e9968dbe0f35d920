//! A stable descending ranking of similarity scores.
//!
//! Given the score of every catalog entry, [`rank_indices`] lists the entry
//! positions from highest score to lowest; entries with equal scores keep
//! their catalog order. [`is_ranking`] is the defining property, and
//! [`lemma_ranking_unique`] shows that exactly one sequence has it, so a
//! contract stated with `is_ranking` pins the ranked order completely.

use vstd::prelude::*;
use vstd::pervasive::VecAdditionalExecFns;

verus! {

/// Entry `a` ranks strictly before entry `b`: its score is higher, or equal
/// with `a` earlier in the catalog.
pub open spec fn precedes(scores: Seq<u64>, a: int, b: int) -> bool {
    scores[a] > scores[b] || (scores[a] == scores[b] && a < b)
}

/// `idx` lists every position of `scores` exactly once, ordered from highest
/// score to lowest, with ties in catalog order.
pub open spec fn is_ranking(idx: Seq<int>, scores: Seq<u64>) -> bool {
    &&& idx.len() == scores.len()
    &&& forall|p: int| 0 <= p < idx.len() ==> 0 <= #[trigger] idx[p] < scores.len()
    &&& forall|j: int| 0 <= j < scores.len() ==> idx.contains(j)
    &&& forall|p: int, q: int| 0 <= p < q < idx.len() ==> precedes(scores, #[trigger] idx[p], #[trigger] idx[q])
}

/// Scored pair `a` sorts strictly before `b`: higher score first, ties by
/// lower catalog position.
pub open spec fn pair_precedes(a: (u64, usize), b: (u64, usize)) -> bool {
    a.0 > b.0 || (a.0 == b.0 && a.1 < b.1)
}

/// Every pair records the score of the catalog position it carries.
spec fn pairs_well_formed(ps: Seq<(u64, usize)>, scores: Seq<u64>) -> bool {
    forall|k: int| 0 <= k < ps.len() ==> ((#[trigger] ps[k]).1 < scores.len() && ps[k].0 == scores[
        ps[k].1 as int])
}

/// No catalog position occurs in two pairs.
spec fn pairs_distinct(ps: Seq<(u64, usize)>) -> bool {
    forall|k1: int, k2: int| 0 <= k1 < k2 < ps.len() ==> (#[trigger] ps[k1]).1 != (
    #[trigger] ps[k2]).1
}

/// Some pair carries the catalog position `j`.
spec fn has_pos(ps: Seq<(u64, usize)>, j: int) -> bool {
    exists|k: int| 0 <= k < ps.len() && (#[trigger] ps[k]).1 == j
}

/// Every catalog position up to `n` occurs in some pair.
spec fn pairs_complete(ps: Seq<(u64, usize)>, n: int) -> bool {
    forall|j: int| 0 <= j < n ==> #[trigger] has_pos(ps, j)
}

/// The pairs are in stable descending order.
spec fn pairs_sorted(ps: Seq<(u64, usize)>) -> bool {
    forall|p: int, q: int| 0 <= p < q < ps.len() ==> pair_precedes(#[trigger] ps[p], #[trigger] ps[q])
}

/// Lists the positions of `scores` from highest score to lowest, ties in
/// order of position: the unique stable descending order of the catalog.
pub fn rank_indices(scores: &Vec<u64>) -> (r: Vec<usize>)
    ensures
        is_ranking(r@.map_values(|u: usize| u as int), scores@),
{
    let n = scores.len();
    let mut pairs: Vec<(u64, usize)> = Vec::new();
    let mut i: usize = 0;
    while i < n
        invariant
            i <= n,
            n == scores@.len(),
            pairs@.len() == i,
            forall|k: int| 0 <= k < i ==> (#[trigger] pairs@[k]) == (scores@[k], k as usize),
        decreases n - i,
    {
        pairs.push((scores[i], i));
        i += 1;
    }
    assert(pairs_well_formed(pairs@, scores@));
    assert(pairs_distinct(pairs@));
    assert(pairs_complete(pairs@, n as int)) by {
        assert forall|j: int| 0 <= j < n implies #[trigger] has_pos(pairs@, j) by {
            assert(pairs@[j].1 == j);
        }
    }

    let mut i: usize = 1;
    while i < n
        invariant
            n == scores@.len(),
            pairs@.len() == n,
            1 <= i,
            n == 0 ==> i == 1,
            n > 0 ==> i <= n,
            pairs_well_formed(pairs@, scores@),
            pairs_distinct(pairs@),
            pairs_complete(pairs@, n as int),
            forall|p: int, q: int| 0 <= p < q < i ==> pair_precedes(
                #[trigger] pairs@[p],
                #[trigger] pairs@[q],
            ),
        decreases n - i,
    {
        let mut j: usize = i;
        while j > 0 && precedes_exec(pairs[j], pairs[j - 1])
            invariant
                n == scores@.len(),
                pairs@.len() == n,
                j <= i < n,
                pairs_well_formed(pairs@, scores@),
                pairs_distinct(pairs@),
                pairs_complete(pairs@, n as int),
                forall|p: int, q: int| 0 <= p < q <= i && p != j && q != j ==> pair_precedes(
                    #[trigger] pairs@[p],
                    #[trigger] pairs@[q],
                ),
                forall|q: int| j < q <= i ==> pair_precedes(
                    pairs@[j as int],
                    #[trigger] pairs@[q],
                ),
            decreases j,
        {
            let ghost before = pairs@;
            let a = pairs[j];
            let b = pairs[j - 1];
            pairs.set(j - 1, a);
            pairs.set(j, b);
            proof {
                let jj = j as int;
                assert(pairs@ =~= before.update(jj - 1, before[jj]).update(jj, before[jj - 1]));
                assert(pairs_complete(pairs@, n as int)) by {
                    assert forall|v: int| 0 <= v < n implies #[trigger] has_pos(pairs@, v) by {
                        assert(has_pos(before, v));
                        let k0 = choose|k0: int| 0 <= k0 < before.len() && (#[trigger] before[k0]).1
                            == v;
                        if k0 == jj - 1 {
                            assert(pairs@[jj].1 == v);
                        } else if k0 == jj {
                            assert(pairs@[jj - 1].1 == v);
                        } else {
                            assert(pairs@[k0].1 == v);
                        }
                    }
                }
            }
            j -= 1;
        }
        proof {
            let jj = j as int;
            let ii = i as int;
            if jj > 0 {
                // the loop condition failed, and the pair at j differs from
                // its left neighbour, so the neighbour sorts strictly first
                assert(pairs@[jj - 1].1 != pairs@[jj].1);
                assert(pair_precedes(pairs@[jj - 1], pairs@[jj]));
            }
            assert forall|p: int, q: int| 0 <= p < q <= ii implies pair_precedes(
                #[trigger] pairs@[p],
                #[trigger] pairs@[q],
            ) by {
                if q == jj {
                    if p < jj - 1 {
                        assert(pair_precedes(pairs@[p], pairs@[jj - 1]));
                        assert(pair_precedes(pairs@[jj - 1], pairs@[jj]));
                    }
                }
            }
        }
        i += 1;
    }

    let mut r: Vec<usize> = Vec::new();
    let mut p: usize = 0;
    while p < n
        invariant
            n == scores@.len(),
            pairs@.len() == n,
            pairs_well_formed(pairs@, scores@),
            pairs_distinct(pairs@),
            pairs_complete(pairs@, n as int),
            pairs_sorted(pairs@),
            p <= n,
            r@.len() == p,
            forall|k: int| 0 <= k < p ==> (#[trigger] r@[k]) == pairs@[k].1,
        decreases n - p,
    {
        r.push(pairs[p].1);
        p += 1;
    }
    proof {
        let idx = r@.map_values(|u: usize| u as int);
        assert forall|j: int| 0 <= j < scores@.len() implies idx.contains(j) by {
            assert(has_pos(pairs@, j));
            let k = choose|k: int| 0 <= k < pairs@.len() && (#[trigger] pairs@[k]).1 == j;
            assert(idx[k] == j);
        }
        assert forall|a: int, b: int| 0 <= a < b < idx.len() implies precedes(
            scores@,
            #[trigger] idx[a],
            #[trigger] idx[b],
        ) by {
            assert(pair_precedes(pairs@[a], pairs@[b]));
        }
    }
    r
}

/// Executable form of [`pair_precedes`].
fn precedes_exec(a: (u64, usize), b: (u64, usize)) -> (r: bool)
    ensures
        r == pair_precedes(a, b),
{
    a.0 > b.0 || (a.0 == b.0 && a.1 < b.1)
}

/// Positions that agree on a ranking prefix agree at the next position.
proof fn lemma_ranking_agree_at(i1: Seq<int>, i2: Seq<int>, scores: Seq<u64>, p: int)
    requires
        is_ranking(i1, scores),
        is_ranking(i2, scores),
        0 <= p < scores.len(),
        forall|q: int| 0 <= q < p ==> i1[q] == i2[q],
    ensures
        i1[p] == i2[p],
{
    if i1[p] != i2[p] {
        let v = i2[p];
        assert(i1.contains(v));
        let k = choose|k: int| 0 <= k < i1.len() && i1[k] == v;
        if k < p {
            assert(precedes(scores, i2[k], i2[p]));
            assert(false);
        }
        assert(precedes(scores, i1[p], v));
        let w = i1[p];
        assert(i2.contains(w));
        let m = choose|m: int| 0 <= m < i2.len() && i2[m] == w;
        if m < p {
            assert(precedes(scores, i1[m], i1[p]));
            assert(false);
        }
        assert(precedes(scores, v, w));
        assert(false);
    }
}

/// Two rankings of the same scores agree on every position up to `p`.
proof fn lemma_ranking_agree_prefix(i1: Seq<int>, i2: Seq<int>, scores: Seq<u64>, p: int)
    requires
        is_ranking(i1, scores),
        is_ranking(i2, scores),
        0 <= p <= scores.len(),
    ensures
        forall|q: int| 0 <= q < p ==> i1[q] == i2[q],
    decreases p,
{
    if p > 0 {
        lemma_ranking_agree_prefix(i1, i2, scores, p - 1);
        lemma_ranking_agree_at(i1, i2, scores, p - 1);
    }
}

/// The stable descending order is unique: any two sequences with the
/// ranking property are equal.
pub proof fn lemma_ranking_unique(i1: Seq<int>, i2: Seq<int>, scores: Seq<u64>)
    requires
        is_ranking(i1, scores),
        is_ranking(i2, scores),
    ensures
        i1 =~= i2,
{
    lemma_ranking_agree_prefix(i1, i2, scores, scores.len() as int);
}

/// The first maximal score ranks first: if no entry scores higher than
/// entry `i` and no earlier entry ties with it, the ranking opens with `i`.
pub proof fn lemma_ranking_top(idx: Seq<int>, scores: Seq<u64>, i: int)
    requires
        is_ranking(idx, scores),
        0 <= i < scores.len(),
        forall|j: int| 0 <= j < scores.len() ==> scores[j] <= scores[i],
        forall|j: int| 0 <= j < i ==> scores[j] < scores[i],
    ensures
        idx.len() > 0,
        idx[0] == i,
{
    assert(idx.contains(i));
    let k = choose|k: int| 0 <= k < idx.len() && idx[k] == i;
    if k > 0 {
        assert(precedes(scores, idx[0], idx[k]));
        assert(false);
    }
}

} // verus!
