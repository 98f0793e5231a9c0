//! The maps whose finishes are being saved.
//!
//! While a finish is saved on a map, the map is "pending"; readers of its records wait until
//! it is released.
use std::collections::HashSet;

use vstd::prelude::*;

verus! {

broadcast use vstd::std_specs::hash::group_hash_axioms;

/// The set of pending maps.
pub struct Impl {
    data: HashSet<u32>,
}

impl View for Impl {
    type V = Set<u32>;

    closed spec fn view(&self) -> Set<u32> {
        self.data@
    }
}

impl Impl {
    /// No map is pending.
    pub fn new() -> (r: Self)
        ensures
            r@ == Set::<u32>::empty(),
    {
        Impl { data: HashSet::new() }
    }

    /// Whether a finish is being saved on the map.
    pub fn is_finish_pending(&self, map_id: u32) -> (r: bool)
        ensures
            r == self@.contains(map_id),
    {
        self.data.contains(&map_id)
    }

    /// Marks the map as pending.
    pub fn pend(&mut self, map_id: u32)
        ensures
            final(self)@ == old(self)@.insert(map_id),
    {
        self.data.insert(map_id);
    }

    /// Marks the map as no longer pending.
    pub fn release(&mut self, map_id: u32)
        ensures
            final(self)@ == old(self)@.remove(map_id),
    {
        self.data.remove(&map_id);
    }
}

impl Default for Impl {
    fn default() -> (r: Self)
        ensures
            r@ == Set::<u32>::empty(),
    {
        Impl::new()
    }
}

/// Pending maps through `pend` and `release`: a map is pending right after it is pended,
/// it is free right after it is released, the other maps keep their state through either
/// call, and releasing a map that was just pended brings back the set from before, if the
/// map was free then.
pub proof fn law_pend_release(pending: Set<u32>, map_id: u32, other: u32)
    requires
        other != map_id,
    ensures
        pending.insert(map_id).contains(map_id),
        !pending.remove(map_id).contains(map_id),
        pending.insert(map_id).contains(other) == pending.contains(other),
        pending.remove(map_id).contains(other) == pending.contains(other),
        !pending.contains(map_id) ==> pending.insert(map_id).remove(map_id) == pending,
{
    if !pending.contains(map_id) {
        assert(pending.insert(map_id).remove(map_id) =~= pending);
    }
}

} // verus!
