//! Outbound alerts.

pub mod slack;
