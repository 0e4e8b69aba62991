//! Helpers shared by the checkers.

pub mod net;
pub mod text;
