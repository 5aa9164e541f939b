//! Stable ordering of scored items: by group ascending, then score descending,
//! ties kept in the order given.
use vstd::prelude::*;

verus! {

/// Whether item `i` comes before item `j` under `keys` (group, score):
/// lower group first, then higher score, then lower position.
pub open spec fn ranks_before(keys: Seq<(u8, i128)>, i: int, j: int) -> bool {
    keys[i].0 < keys[j].0 || (keys[i].0 == keys[j].0 && keys[i].1 > keys[j].1) || (keys[i].0
        == keys[j].0 && keys[i].1 == keys[j].1 && i < j)
}

/// Whether `order` lists every position of `keys` exactly once.
pub open spec fn is_permutation_of_positions(order: Seq<usize>, n: nat) -> bool {
    &&& order.len() == n
    &&& forall|k: int| 0 <= k < order.len() ==> #[trigger] order[k] < n
    &&& forall|a: int, b: int| 0 <= a < b < order.len() ==> order[a] != order[b]
}

/// Whether `order` is sorted under `ranks_before`.
pub open spec fn is_ranked(keys: Seq<(u8, i128)>, order: Seq<usize>) -> bool {
    forall|a: int, b: int|
        0 <= a < b < order.len() ==> ranks_before(keys, #[trigger] order[a] as int, #[trigger] order[b] as int)
}

fn goes_before(a: (u8, i128), b: (u8, i128)) -> (r: bool)
    ensures
        r == (a.0 < b.0 || (a.0 == b.0 && a.1 > b.1)),
{
    a.0 < b.0 || (a.0 == b.0 && a.1 > b.1)
}

/// The positions of `keys` in ranked order (a stable sort by group ascending,
/// score descending).
pub fn rank_positions(keys: &Vec<(u8, i128)>) -> (order: Vec<usize>)
    ensures
        is_permutation_of_positions(order@, keys@.len()),
        is_ranked(keys@, order@),
{
    let mut order: Vec<usize> = Vec::new();
    let mut i: usize = 0;
    while i < keys.len()
        invariant
            i <= keys.len(),
            order@.len() == i,
            forall|k: int| 0 <= k < order.len() ==> #[trigger] order@[k] < i,
            forall|a: int, b: int| 0 <= a < b < order.len() ==> order@[a] != order@[b],
            is_ranked(keys@, order@),
        decreases keys.len() - i,
    {
        let ki = keys[i];
        let mut p: usize = 0;
        while p < order.len() && !goes_before(ki, keys[order[p]])
            invariant
                p <= order.len(),
                i < keys.len(),
                ki == keys@[i as int],
                forall|k: int| 0 <= k < order.len() ==> #[trigger] order@[k] < i,
                forall|k: int| 0 <= k < p ==> ranks_before(keys@, #[trigger] order@[k] as int, i as int),
            decreases order.len() - p,
        {
            p = p + 1;
        }
        proof {
            if p < order.len() {
                assert(ranks_before(keys@, i as int, order@[p as int] as int));
                assert forall|k: int| p <= k < order.len() implies ranks_before(
                    keys@,
                    i as int,
                    #[trigger] order@[k] as int,
                ) by {
                    if k > p {
                        assert(ranks_before(keys@, order@[p as int] as int, order@[k] as int));
                    }
                }
            }
        }
        let ghost old_order = order@;
        order.insert(p, i);
        proof {
            assert(order@ == old_order.insert(p as int, i));
            assert forall|a: int, b: int| 0 <= a < b < order.len() implies ranks_before(
                keys@,
                #[trigger] order@[a] as int,
                #[trigger] order@[b] as int,
            ) by {
                if b < p {
                    assert(order@[a] == old_order[a] && order@[b] == old_order[b]);
                } else if b == p {
                    assert(order@[a] == old_order[a]);
                } else if a < p {
                    assert(order@[a] == old_order[a] && order@[b] == old_order[b - 1]);
                } else if a == p {
                    assert(order@[b] == old_order[b - 1]);
                } else {
                    assert(order@[a] == old_order[a - 1] && order@[b] == old_order[b - 1]);
                }
            }
            assert forall|k: int| 0 <= k < order.len() implies #[trigger] order@[k] < i + 1 by {
                if k < p {
                    assert(order@[k] == old_order[k]);
                } else if k > p {
                    assert(order@[k] == old_order[k - 1]);
                }
            }
            assert forall|a: int, b: int| 0 <= a < b < order.len() implies order@[a] != order@[b] by {
                if b < p {
                    assert(order@[a] == old_order[a] && order@[b] == old_order[b]);
                } else if b == p {
                    assert(order@[a] == old_order[a]);
                } else if a < p {
                    assert(order@[a] == old_order[a] && order@[b] == old_order[b - 1]);
                } else if a == p {
                    assert(order@[b] == old_order[b - 1]);
                } else {
                    assert(order@[a] == old_order[a - 1] && order@[b] == old_order[b - 1]);
                }
            }
        }
        i = i + 1;
    }
    order
}

} // verus!
