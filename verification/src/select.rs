//! Ordering and budgeted selection of candidates by integer keys.

use vstd::prelude::*;

verus! {

/// Whether `r` lists every index below `n` exactly once.
pub open spec fn is_index_permutation(r: Seq<usize>, n: nat) -> bool {
    &&& r.len() == n
    &&& forall|i: int| 0 <= i < r.len() ==> (#[trigger] r[i]) < n
    &&& forall|i: int, j: int| 0 <= i < j < r.len() ==> r[i] != r[j]
}

/// Whether index `a` comes before index `b` in the stable order by `keys`
/// (largest key first when `descending`, smallest first otherwise; equal
/// keys keep their original order).
pub open spec fn precedes(keys: Seq<u64>, a: usize, b: usize, descending: bool) -> bool {
    if descending {
        keys[a as int] > keys[b as int] || (keys[a as int] == keys[b as int] && a < b)
    } else {
        keys[a as int] < keys[b as int] || (keys[a as int] == keys[b as int] && a < b)
    }
}

/// Whether `r` is ordered by `keys`.
pub open spec fn ordered_by(keys: Seq<u64>, r: Seq<usize>, descending: bool) -> bool {
    forall|i: int, j: int| 0 <= i < j < r.len() ==> precedes(keys, #[trigger] r[i], #[trigger] r[j], descending)
}

/// The indices of `keys`, ordered by key as a stable sort orders them:
/// largest first when `descending`, smallest first otherwise, equal keys in
/// their original order.
pub fn stable_order(keys: &[u64], descending: bool) -> (r: Vec<usize>)
    ensures
        is_index_permutation(r@, keys@.len()),
        ordered_by(keys@, r@, descending),
{
    let mut r: Vec<usize> = Vec::new();
    let mut i: usize = 0;
    while i < keys.len()
        invariant
            i <= keys@.len(),
            r@.len() == i,
            forall|k: int| 0 <= k < r@.len() ==> (#[trigger] r@[k]) < i,
            forall|k: int, m: int| 0 <= k < m < r@.len() ==> r@[k] != r@[m],
            ordered_by(keys@, r@, descending),
        decreases keys@.len() - i,
    {
        let ki = keys[i];
        let mut p: usize = 0;
        while p < r.len()
            invariant
                p <= r@.len(),
                r@.len() == i,
                i < keys@.len(),
                ki == keys@[i as int],
                forall|k: int| 0 <= k < r@.len() ==> (#[trigger] r@[k]) < i,
                forall|q: int| 0 <= q < p ==> precedes(keys@, #[trigger] r@[q], i, descending),
            ensures
                p <= r@.len(),
                forall|q: int| 0 <= q < p ==> precedes(keys@, #[trigger] r@[q], i, descending),
                p < r@.len() ==> !precedes(keys@, r@[p as int], i, descending),
            decreases r@.len() - p,
        {
            let kq = keys[r[p]];
            let before = if descending {
                kq >= ki
            } else {
                kq <= ki
            };
            assert(r@[p as int] < i);
            assert(before == precedes(keys@, r@[p as int], i, descending));
            if !before {
                break;
            }
            p = p + 1;
        }
        let ghost old_r = r@;
        proof {
            if p < old_r.len() {
                assert(!precedes(keys@, old_r[p as int], i, descending));
                assert forall|q: int| p <= q < old_r.len() implies precedes(
                    keys@,
                    i,
                    #[trigger] old_r[q],
                    descending,
                ) by {
                    if q > p {
                        assert(precedes(keys@, old_r[p as int], old_r[q], descending));
                    }
                }
            }
        }
        r.insert(p, i);
        proof {
            assert forall|k: int| 0 <= k < r@.len() implies (#[trigger] r@[k]) < i + 1 by {
                if k < p {
                    assert(r@[k] == old_r[k]);
                } else if k > p {
                    assert(r@[k] == old_r[k - 1]);
                }
            }
            assert forall|k: int, m: int| 0 <= k < m < r@.len() implies r@[k] != r@[m] by {
                if k < p {
                    assert(r@[k] == old_r[k]);
                } else if k > p {
                    assert(r@[k] == old_r[k - 1]);
                }
                if m < p {
                    assert(r@[m] == old_r[m]);
                } else if m > p {
                    assert(r@[m] == old_r[m - 1]);
                }
            }
            assert forall|k: int, m: int| 0 <= k < m < r@.len() implies precedes(
                keys@,
                #[trigger] r@[k],
                #[trigger] r@[m],
                descending,
            ) by {
                if k < p {
                    assert(r@[k] == old_r[k]);
                } else if k > p {
                    assert(r@[k] == old_r[k - 1]);
                }
                if m < p {
                    assert(r@[m] == old_r[m]);
                } else if m > p {
                    assert(r@[m] == old_r[m - 1]);
                }
            }
        }
        i = i + 1;
    }
    r
}

/// The greedy selection over `order`: each candidate is taken when its cost
/// still fits in what is left of `budget` and fewer than `max_count` are
/// taken. Returns the chosen candidates and the cost they use.
pub open spec fn greedy_pick(costs: Seq<u32>, order: Seq<usize>, budget: nat, max_count: nat, k: nat) -> (Seq<usize>, nat)
    decreases k,
{
    if k == 0 {
        (Seq::empty(), 0)
    } else {
        let (picked, used) = greedy_pick(costs, order, budget, max_count, (k - 1) as nat);
        let c = costs[order[k - 1] as int];
        if used + c <= budget && picked.len() < max_count {
            (picked.push(order[k - 1]), (used + c) as nat)
        } else {
            (picked, used)
        }
    }
}

/// The total cost of the chosen candidates.
pub open spec fn total_cost(costs: Seq<u32>, picked: Seq<usize>) -> nat
    decreases picked.len(),
{
    if picked.len() == 0 {
        0
    } else {
        (total_cost(costs, picked.drop_last()) + costs[picked.last() as int]) as nat
    }
}

/// Walks the candidates in `order` and takes each one whose cost still fits
/// in the remaining `budget`, stopping at `max_count` candidates.
pub fn select_within_budget(costs: &[u32], order: &[usize], budget: u32, max_count: usize) -> (r: Vec<usize>)
    requires
        forall|k: int| 0 <= k < order@.len() ==> (#[trigger] order@[k]) < costs@.len(),
    ensures
        r@ == greedy_pick(costs@, order@, budget as nat, max_count as nat, order@.len()).0,
{
    let mut r: Vec<usize> = Vec::new();
    let mut used: u64 = 0;
    let mut k: usize = 0;
    while k < order.len()
        invariant
            k <= order@.len(),
            forall|j: int| 0 <= j < order@.len() ==> (#[trigger] order@[j]) < costs@.len(),
            (r@, used as nat) == greedy_pick(costs@, order@, budget as nat, max_count as nat, k as nat),
            used <= budget,
        decreases order@.len() - k,
    {
        proof {
            lemma_greedy_bounds(costs@, order@, budget as nat, max_count as nat, k as nat);
        }
        let c = costs[order[k]];
        if used + (c as u64) <= budget as u64 && r.len() < max_count {
            r.push(order[k]);
            used = used + c as u64;
        }
        k = k + 1;
    }
    r
}

/// The greedy selection never exceeds its budget or its count, and the
/// cost it reports is the total cost of what it chose.
pub proof fn lemma_greedy_bounds(costs: Seq<u32>, order: Seq<usize>, budget: nat, max_count: nat, k: nat)
    requires
        k <= order.len(),
    ensures
        greedy_pick(costs, order, budget, max_count, k).1 <= budget,
        greedy_pick(costs, order, budget, max_count, k).0.len() <= max_count,
        greedy_pick(costs, order, budget, max_count, k).0.len() <= k,
        greedy_pick(costs, order, budget, max_count, k).1 == total_cost(
            costs,
            greedy_pick(costs, order, budget, max_count, k).0,
        ),
    decreases k,
{
    if k > 0 {
        lemma_greedy_bounds(costs, order, budget, max_count, (k - 1) as nat);
        let (picked, used) = greedy_pick(costs, order, budget, max_count, (k - 1) as nat);
        let c = costs[order[k - 1] as int];
        if used + c <= budget && picked.len() < max_count {
            assert(picked.push(order[k - 1]).drop_last() =~= picked);
        }
    }
}

/// A budgeted selection stays within its token budget and its count limit.
pub proof fn law_selection_within_budget(costs: Seq<u32>, order: Seq<usize>, budget: nat, max_count: nat)
    ensures
        total_cost(costs, greedy_pick(costs, order, budget, max_count, order.len()).0) <= budget,
        greedy_pick(costs, order, budget, max_count, order.len()).0.len() <= max_count,
{
    lemma_greedy_bounds(costs, order, budget, max_count, order.len());
}

} // verus!
