//! Walking hash maps, whose order is open.

use std::collections::HashMap;

use vstd::prelude::*;
use vstd::std_specs::iter::IteratorSpec;

verus! {

/// Whether `order` lists every key of a map once, in whatever order.
pub open spec fn lists_keys<V>(order: Seq<usize>, m: Map<usize, V>) -> bool {
    &&& order.no_duplicates()
    &&& forall|k: usize| #[trigger] order.contains(k) <==> m.contains_key(k)
}

/// The keys of a map, in the order in which the map happens to hold them.
pub fn keys_of<V>(m: &HashMap<usize, V>) -> (r: Vec<usize>)
    ensures
        lists_keys(r@, m@),
{
    let mut r: Vec<usize> = Vec::new();
    let ghost all: Seq<&usize> = m.keys().remaining();
    for k in it: m.keys()
        invariant
            it.seq() == all,
            r@.len() == it.index(),
            forall|i: int| 0 <= i < r@.len() ==> r@[i] == *all[i],
    {
        r.push(*k);
    }
    proof {
        assert(r@ =~= all.unref());
        assert forall|k: usize| #[trigger] r@.contains(k) <==> m@.contains_key(k) by {
            assert(all.unref().to_set().contains(k) <==> all.unref().contains(k));
        }
        assert forall|i: int, j: int| 0 <= i < r@.len() && 0 <= j < r@.len() && i != j implies r@[i]
            != r@[j] by {
            assert(all[i] != all[j]);
        }
    }
    r
}

} // verus!
