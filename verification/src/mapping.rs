//! The access gates of mapped buffers.

use std::collections::HashSet;
use vstd::prelude::*;

verus! {

/// The access gates of the mapped buffers.
///
/// Each mapped buffer has a gate that tells whether its mapping is
/// currently held for a submission to the GPU. The gates are named by the
/// ids of their buffers; the view is the set of buffers whose access is
/// taken.
pub struct MappingGates {
    taken: HashSet<u64>,
}

impl View for MappingGates {
    type V = Set<u64>;

    closed spec fn view(&self) -> Set<u64> {
        self.taken@
    }
}

impl MappingGates {
    /// Gates with every access free.
    pub fn new() -> (gates: MappingGates)
        ensures
            gates@ == Set::<u64>::empty(),
    {
        MappingGates { taken: HashSet::new() }
    }

    /// Takes the access of a buffer's mapping: succeeds, and marks the
    /// access taken, exactly when it was free.
    pub fn take_access(&mut self, buffer: u64) -> (free: bool)
        ensures
            free == !old(self)@.contains(buffer),
            final(self)@ == old(self)@.insert(buffer),
    {
        self.taken.insert(buffer)
    }

    /// Releases the access of a buffer's mapping.
    pub fn release_access(&mut self, buffer: u64)
        ensures
            final(self)@ == old(self)@.remove(buffer),
    {
        self.taken.remove(&buffer);
    }

    /// Whether the access of a buffer's mapping is taken.
    pub fn is_accessed(&self, buffer: u64) -> (taken: bool)
        ensures
            taken == self@.contains(buffer),
    {
        self.taken.contains(&buffer)
    }
}

} // verus!

verus! {

/// Releasing an access that was just taken from a free gate gives the
/// gates back as they were.
pub proof fn lemma_release_undoes_take(taken: Set<u64>, buffer: u64)
    requires
        !taken.contains(buffer),
    ensures
        taken.insert(buffer).remove(buffer) == taken,
{
    assert(taken.insert(buffer).remove(buffer) =~= taken);
}

} // verus!
