//! Queue capabilities that a command buffer can carry.

use vstd::prelude::*;

verus! {

/// A type that is tagged with a queue capability.
pub trait Capability {
    /// The capability tag.
    type Capability;
}

/// Graphics, compute and transfer functionality.
pub struct General;

/// Graphics and transfer functionality.
pub struct Graphics;

/// Compute and transfer functionality.
pub struct Compute;

/// Transfer functionality.
pub struct Transfer;

} // verus!
