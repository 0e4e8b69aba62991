//! Scheduling and state-aggregation engine of a service health monitor.
//!
//! The crate holds the endpoint normalizer, the probe evaluation rules of the
//! four checkers, the state store with its aggregation algorithm, and the
//! decisions of the polling loops. Network access, timers and task spawning
//! are left to the program that embeds the library.

pub mod alert;
mod clock;
pub mod config;
pub mod models;
pub mod monitor;
pub mod state;
pub mod utils;
