//! The patrols tab: the listing order of a town's patrol posts and the
//! swaps its reorder buttons ask for.

use vstd::prelude::*;

use crate::sorting::{is_stable_order, stable_order};

verus! {

/// Patrol orders as sort keys.
pub open spec fn order_keys(orders: Seq<u32>) -> Seq<i64> {
    Seq::new(orders.len(), |i: int| orders[i] as i64)
}

/// Posts in listing order: indices of the posts by increasing patrol order,
/// posts with the same order in their given order.
pub fn patrol_listing(orders: &Vec<u32>) -> (listed: Vec<usize>)
    ensures
        is_stable_order(order_keys(orders@), false, listed@),
        listed@.len() == orders@.len(),
{
    let mut keys: Vec<i64> = Vec::new();
    let mut i: usize = 0;
    while i < orders.len()
        invariant
            i <= orders@.len(),
            keys@ == order_keys(orders@).take(i as int),
        decreases orders@.len() - i,
    {
        keys.push(orders[i] as i64);
        proof {
            assert(keys@ =~= order_keys(orders@).take(i + 1));
        }
        i = i + 1;
    }
    proof {
        assert(keys@ =~= order_keys(orders@));
    }
    stable_order(&keys, false)
}

/// The pair of post slots a reorder button swaps: "Down" (`down`) on the
/// post listed at `i` swaps it with the next post, "Up" with the previous
/// one; the last post has no "Down" and the first no "Up".
pub fn reorder_swap(listed_slots: &Vec<usize>, i: usize, down: bool) -> (r: Option<(usize, usize)>)
    requires
        i < listed_slots@.len(),
    ensures
        down && i + 1 < listed_slots@.len() ==> r == Some((listed_slots@[i as int], listed_slots@[i + 1])),
        down && i + 1 >= listed_slots@.len() ==> r.is_none(),
        !down && i > 0 ==> r == Some((listed_slots@[i as int], listed_slots@[i - 1])),
        !down && i == 0 ==> r.is_none(),
{
    if down {
        if i < listed_slots.len() - 1 {
            Some((listed_slots[i], listed_slots[i + 1]))
        } else {
            None
        }
    } else if i > 0 {
        Some((listed_slots[i], listed_slots[i - 1]))
    } else {
        None
    }
}

} // verus!
