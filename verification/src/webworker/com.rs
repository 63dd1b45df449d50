//! The wire messages exchanged with an isolated execution unit, and the
//! handshake rule applied to the first message a fresh unit sends.
//!
//! All payloads are opaque byte blobs at this layer; the concrete transport
//! encoding of whole messages is the embedding's concern.

use vstd::prelude::*;

use crate::error::InitError;

verus! {

/// Message sent by the worker exactly once after initialization, reporting
/// whether its code loaded successfully.
#[derive(Debug, PartialEq, Eq)]
pub struct PostInit {
    /// `true` if initialization is complete, `false` if loading failed.
    pub success: bool,
    /// Set when `success` is `false`: a human-readable load error.
    pub message: Option<String>,
}

/// Message sent to the worker when a new task should be executed.
#[derive(Debug, PartialEq, Eq)]
pub struct Request {
    /// The task id used to match the eventual [`Response`] to this request.
    /// Unique among the in-flight calls of the unit that assigned it.
    pub id: usize,
    /// The name of the function the worker should execute.
    pub func_name: String,
    /// The serialized argument, encoded by [`crate::convert::to_bytes`].
    pub arg: Vec<u8>,
}

/// Message sent back by the worker once a task has been executed.
#[derive(Debug, PartialEq, Eq)]
pub struct Response {
    /// The task id, echoed verbatim from the [`Request`].
    pub id: usize,
    /// The serialized result, or `None` if the named function was not
    /// registered in the worker's dispatch table.
    pub response: Option<Vec<u8>>,
}

/// The view of a handshake message: the load error a failed handshake
/// carries, or the empty sequence when none was supplied.
pub open spec fn handshake_message(post_init: PostInit) -> Seq<char> {
    match post_init.message {
        Some(m) => m@,
        None => Seq::empty(),
    }
}

/// Decides the outcome of a unit's startup handshake: a successful
/// handshake lets creation proceed, a failed one aborts it with
/// [`InitError::WebWorkerModuleLoading`] carrying the reported load error.
/// Never panics, even when a failed handshake carries no message.
pub fn evaluate_handshake(post_init: PostInit) -> (r: Result<(), InitError>)
    ensures
        post_init.success <==> r is Ok,
        !post_init.success ==> (r matches Err(InitError::WebWorkerModuleLoading(m)) && m@
            == handshake_message(post_init)),
{
    if post_init.success {
        Ok(())
    } else {
        match post_init.message {
            Some(m) => Err(InitError::WebWorkerModuleLoading(m)),
            None => Err(InitError::WebWorkerModuleLoading(String::new())),
        }
    }
}

} // verus!
