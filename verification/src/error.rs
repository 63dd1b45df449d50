//! The error taxonomy of the library.

use vstd::prelude::*;

verus! {

/// Returned by the non-blocking submission paths when a unit's capacity
/// limiter has no permit immediately available. Recoverable: the caller
/// decides whether to retry, queue, or route the call elsewhere.
#[derive(Debug, PartialEq, Eq, Structural, Clone, Copy)]
pub struct Full;

/// A unit could not be brought up. Fatal to that unit; pool construction
/// aborts on the first such error.
#[derive(Debug, PartialEq, Eq)]
pub enum InitError {
    /// The isolated worker context could not be instantiated at all.
    WebWorkerCreation,
    /// The worker context was created, but its startup handshake reported
    /// that the code it should run failed to load. Carries the
    /// human-readable load error from the handshake message.
    WebWorkerModuleLoading(String),
}

impl Full {
    /// A human-readable description, in place of a `Display` impl.
    pub fn message(&self) -> (r: &'static str)
        ensures
            r@ == "WebWorker capacity reached"@,
    {
        "WebWorker capacity reached"
    }
}

} // verus!
