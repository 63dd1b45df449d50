//! One isolated execution unit: its wire messages, its correlation table,
//! and the state machine that assigns call ids and matches responses.

pub mod com;
pub mod correlate;
pub mod js;
pub mod worker;
