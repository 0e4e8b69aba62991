//! What every checker reports.

use vstd::prelude::*;

verus! {

/// The outcome of one probe: whether it succeeded, how long it took from
/// the start of the attempt, and a text for the reader.
#[derive(Debug)]
pub struct ProbeResult {
    pub success: bool,
    pub elapsed_ms: u64,
    pub message: String,
}

} // verus!
