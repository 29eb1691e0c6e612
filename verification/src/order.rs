//! The stable ordering used everywhere the renderer sorts: a permutation
//! of positions under which the keys never decrease and equal keys keep
//! their original order.

use vstd::prelude::*;

verus! {

/// `(key, position)` pairs strictly increase lexicographically along
/// `order`: keys never decrease, ties keep the original positions'
/// order.
pub open spec fn stably_sorted(keys: Seq<u64>, order: Seq<usize>) -> bool {
    forall|a: int, b: int|
        #![trigger order[a], order[b]]
        0 <= a < b < order.len() ==> {
            let ka = keys[order[a] as int];
            let kb = keys[order[b] as int];
            ka < kb || (ka == kb && order[a] < order[b])
        }
}

/// `order` lists every position of `0..n` exactly once.
pub open spec fn is_permutation(order: Seq<usize>, n: nat) -> bool {
    &&& order.len() == n
    &&& forall|i: int| 0 <= i < order.len() ==> (order[i] as int) < n
    &&& forall|a: int, b: int| #![trigger order[a], order[b]] 0 <= a < b < order.len() ==> order[a] != order[b]
    &&& forall|j: usize| (j as int) < n ==> #[trigger] order.contains(j)
}

/// The positions of `keys` in stable ascending key order.
pub fn stable_order(keys: &Vec<u64>) -> (order: Vec<usize>)
    ensures
        is_permutation(order@, keys@.len()),
        stably_sorted(keys@, order@),
{
    let mut order: Vec<usize> = Vec::new();
    let mut i: usize = 0;
    while i < keys.len()
        invariant
            i <= keys@.len(),
            order@.len() == i,
            forall|p: int| 0 <= p < order@.len() ==> (order@[p] as int) < i,
            forall|a: int, b: int| #![trigger order@[a], order@[b]] 0 <= a < b < order@.len() ==> order@[a] != order@[b],
            forall|j: usize| j < i ==> #[trigger] order@.contains(j),
            stably_sorted(keys@, order@),
        decreases keys@.len() - i,
    {
        let key = keys[i];
        let mut pos: usize = order.len();
        while pos > 0 && keys[order[pos - 1]] > key
            invariant
                pos <= order@.len(),
                order@.len() == i,
                i < keys@.len(),
                key == keys@[i as int],
                forall|p: int| 0 <= p < order@.len() ==> (order@[p] as int) < i,
                forall|p: int| pos <= p < order@.len() ==> keys@[order@[p] as int] > key,
            decreases pos,
        {
            pos = pos - 1;
        }
        let ghost before = order@;
        order.insert(pos, i);
        proof {
            assert forall|a: int, b: int| #![trigger order@[a], order@[b]] 0 <= a < b < order@.len() implies {
                let ka = keys@[order@[a] as int];
                let kb = keys@[order@[b] as int];
                ka < kb || (ka == kb && order@[a] < order@[b])
            } by {
                if a < pos && b < pos {
                    assert(order@[a] == before[a] && order@[b] == before[b]);
                } else if a < pos && b == pos {
                    assert(order@[a] == before[a]);
                    assert(keys@[before[a] as int] <= key) by {
                        if pos > 0 {
                            assert(keys@[before[pos - 1] as int] <= key);
                            if a < pos - 1 {
                                assert(stably_sorted(keys@, before));
                            }
                        }
                    }
                } else if a < pos && b > pos {
                    assert(order@[a] == before[a] && order@[b] == before[b - 1]);
                } else if a == pos {
                    assert(order@[b] == before[b - 1]);
                } else {
                    assert(order@[a] == before[a - 1] && order@[b] == before[b - 1]);
                }
            }
            assert forall|j: usize| j < i + 1 implies #[trigger] order@.contains(j) by {
                if j == i {
                    assert(order@[pos as int] == i);
                } else {
                    assert(before.contains(j));
                    let p = choose|p: int| 0 <= p < before.len() && before[p] == j;
                    if p < pos {
                        assert(order@[p] == j);
                    } else {
                        assert(order@[p + 1] == j);
                    }
                }
            }
            assert forall|a: int, b: int| #![trigger order@[a], order@[b]] 0 <= a < b < order@.len() implies order@[a] != order@[b] by {
                if a == pos || b == pos {
                } else {
                    let oa = if a < pos { a } else { a - 1 };
                    let ob = if b < pos { b } else { b - 1 };
                    assert(order@[a] == before[oa] && order@[b] == before[ob]);
                }
            }
        }
        i = i + 1;
    }
    order
}

} // verus!
