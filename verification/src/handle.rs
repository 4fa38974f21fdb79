//! Handles to device resources.

use vstd::prelude::*;

verus! {

/// A raw (untyped) buffer handle.
///
/// Handles that name the same buffer compare equal; the id is what
/// identifies the buffer. A buffer created with a CPU mapping is mapped
/// for its whole life.
#[derive(Clone, Copy, Debug, PartialEq, Eq, Hash)]
pub struct RawBuffer {
    id: u64,
    mapped: bool,
}

impl RawBuffer {
    /// The id of the buffer that this handle names.
    pub closed spec fn spec_id(&self) -> u64 {
        self.id
    }

    /// Whether the buffer has a CPU mapping.
    pub closed spec fn spec_is_mapped(&self) -> bool {
        self.mapped
    }

    /// A handle to the buffer with the given id, mapped or not.
    pub fn new(id: u64, mapped: bool) -> (buffer: RawBuffer)
        ensures
            buffer.id() == id,
            buffer.is_mapped() == mapped,
    {
        RawBuffer { id, mapped }
    }

    /// The id of the buffer that this handle names.
    #[verifier::when_used_as_spec(spec_id)]
    pub fn id(&self) -> (id: u64)
        ensures
            id == self.spec_id(),
    {
        self.id
    }

    /// Whether the buffer has a CPU mapping.
    #[verifier::when_used_as_spec(spec_is_mapped)]
    pub fn is_mapped(&self) -> (mapped: bool)
        ensures
            mapped == self.spec_is_mapped(),
    {
        self.mapped
    }
}

} // verus!
