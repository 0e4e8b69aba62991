//! The configured services and their checks.

pub mod service;
