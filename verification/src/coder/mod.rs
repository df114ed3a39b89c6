//! Agent runs: an agent with tools works on a task until it finishes, and
//! coder sessions, where a senior agent analyses the work of a junior one.

pub mod error;
pub mod executor;
pub mod session;
