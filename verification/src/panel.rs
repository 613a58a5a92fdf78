//! The list of planets in the panel.

use vstd::prelude::*;

verus! {

/// The order in which the panel lists `count` planets: the one created last comes first.
pub open spec fn newest_first(count: nat) -> Seq<usize> {
    Seq::new(count, |k: int| (count - 1 - k) as usize)
}

/// The indices of `count` planets in the order of the panel's list.
pub fn listing_order(count: usize) -> (order: Vec<usize>)
    ensures
        order@ == newest_first(count as nat),
{
    let mut order: Vec<usize> = Vec::new();
    let mut left: usize = count;
    while left > 0
        invariant
            left <= count,
            order.len() == count - left,
            forall|k: int| 0 <= k < order.len() ==> #[trigger] order[k] == count - 1 - k,
        decreases left,
    {
        left -= 1;
        order.push(left);
    }
    proof {
        assert(order@ =~= newest_first(count as nat));
    }
    order
}

} // verus!
