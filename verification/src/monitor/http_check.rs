//! The HTTP checker: a GET that succeeds on a 2xx status.

use vstd::prelude::*;
use vstd::string::*;
use crate::models::service::{CheckConfig, Service};
use crate::monitor::probe::ProbeResult;
use crate::utils::text::{decimal, decimal_text};

verus! {

/// The GET to issue: the URL of the service as it is configured, bounded by
/// the timeout of the check.
#[derive(Debug)]
pub struct HttpRequest {
    pub url: String,
    pub timeout_ms: u64,
}

/// What became of the GET.
#[derive(Debug)]
pub enum HttpOutcome {
    /// A response arrived, with this status code.
    Status(u16),
    /// No response arrived; the text says why.
    TransportError(String),
}

/// The status code is in the 2xx range.
pub open spec fn is_success_status(code: u16) -> bool {
    200 <= code <= 299
}

/// The message of a response with this status code.
pub open spec fn status_message(code: u16) -> Seq<char> {
    "HTTP "@ + decimal_text(code as nat)
}

/// The request that probes `service` for `check`.
pub fn request(service: &Service, check: &CheckConfig) -> (r: HttpRequest)
    ensures
        r.url@ == service.url@,
        r.timeout_ms == check.timeout_ms,
{
    HttpRequest { url: service.url.clone(), timeout_ms: check.timeout_ms }
}

/// Judges the outcome of a GET: success if and only if a response arrived
/// with a 2xx status. The message is `HTTP <status>`, or the text of the
/// transport error.
pub fn run(outcome: HttpOutcome, elapsed_ms: u64) -> (r: ProbeResult)
    ensures
        r.elapsed_ms == elapsed_ms,
        match outcome {
            HttpOutcome::Status(code) => r.success == is_success_status(code) && r.message@
                == status_message(code),
            HttpOutcome::TransportError(text) => !r.success && r.message@ == text@,
        },
{
    match outcome {
        HttpOutcome::Status(code) => {
            let mut message = String::from_str("HTTP ");
            let digits = decimal(code as u64);
            message.append(digits.as_str());
            ProbeResult { success: 200 <= code && code <= 299, elapsed_ms, message }
        },
        HttpOutcome::TransportError(text) => ProbeResult {
            success: false,
            elapsed_ms,
            message: text,
        },
    }
}

} // verus!
