//! The checkers and the decisions of the polling loops.

pub mod dns_check;
pub mod http_check;
pub mod probe;
pub mod scheduler;
pub mod ssl_check;
pub mod tcp_check;

pub use probe::ProbeResult;
pub use scheduler::{plan, start_monitoring, step, step_at, Action, Event, ProbeRequest, Task};
