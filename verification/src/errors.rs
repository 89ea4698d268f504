//! The ways a transformation run can fail. There is no local recovery: every
//! error aborts the current node and propagates to the caller.

use vstd::prelude::*;

verus! {

/// One failure kind of the pipeline.
#[derive(Clone, Copy, PartialEq, Eq, Structural, Debug)]
pub enum GraphvizError {
    /// The renderer subprocess could not be started after the bounded retries.
    SpawnExhausted,
    /// The subprocess ran but exited with a failure status.
    RenderFailed,
    /// Writing the source to the subprocess, or resolving a path, failed.
    IoFailure,
    /// The rewritten event sequence could not be re-serialized.
    SerializationFailed,
    /// A block delimiter was seen that does not fit the open block.
    MalformedBlock,
}

impl GraphvizError {
    /// A short description of the failure.
    pub fn message(&self) -> (r: &'static str)
        ensures
            *self == GraphvizError::SpawnExhausted ==> r@ == "couldn't spawn child process"@,
            *self == GraphvizError::RenderFailed ==> r@ == "error response from Graphviz"@,
            *self == GraphvizError::IoFailure ==> r@ == "couldn't write to child process"@,
            *self == GraphvizError::SerializationFailed ==> r@ == "markdown serialization failed"@,
            *self == GraphvizError::MalformedBlock ==> r@ == "unmatched block delimiter"@,
    {
        match self {
            GraphvizError::SpawnExhausted => "couldn't spawn child process",
            GraphvizError::RenderFailed => "error response from Graphviz",
            GraphvizError::IoFailure => "couldn't write to child process",
            GraphvizError::SerializationFailed => "markdown serialization failed",
            GraphvizError::MalformedBlock => "unmatched block delimiter",
        }
    }
}

} // verus!
