//! Command recording and buffer-access bookkeeping of the gfx core.

use vstd::prelude::*;

pub mod capability;
pub mod command;
pub mod handle;
pub mod mapping;

verus! {

/// A graphics backend: the types a backend provides to the core.
pub trait Backend: Sized {
    /// What a finished command buffer hands to the queue for submission.
    type SubmitInfo;
    /// The backend's own command buffer.
    type RawCommandBuffer;
}

/// Errors of a submission to a queue.
#[derive(Clone, Copy, Debug, PartialEq, Eq, Hash, Structural)]
pub enum SubmissionError {
    /// A mapped buffer that the commands access is already held by a
    /// submission, or is accessed twice by the commands themselves.
    AccessOverlap,
}

/// The result of a submission.
pub type SubmissionResult<T> = Result<T, SubmissionError>;

} // verus!
