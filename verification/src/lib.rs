//! A pool of isolated execution units that run named, pure compute functions
//! and return their results asynchronously over an unordered message channel.
//!
//! The core of the library is the correlation protocol: every call submitted
//! to a unit is assigned an id that is unique among the unit's in-flight
//! calls, and the unit's response echoes that id back, so an arbitrarily
//! reordered stream of responses still resolves every caller with exactly
//! the result of its own request.

pub mod convert;
pub mod error;
pub mod func;
pub mod limiter;
pub mod pool;
pub mod samples;
pub mod webworker;

pub use error::Full;
pub use error::InitError;
pub use pool::WebWorkerPool;
pub use pool::WorkerPoolOptions;
pub use webworker::worker::WebWorker;
