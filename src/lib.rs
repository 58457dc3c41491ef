//! Worker-side reactive scheduler: clock, pending and actionable indices,
//! delegation rule and execution-transaction planning.

pub mod key;
pub mod shared;
pub mod clock_index;
pub mod pending_index;
pub mod actionable;
pub mod delegation;
pub mod accounts;
pub mod builder;
pub mod observer;
