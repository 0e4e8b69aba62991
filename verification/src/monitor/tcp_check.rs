//! The TCP checker: a connect that succeeds if it completes in time.

use vstd::prelude::*;
use vstd::string::*;
use crate::models::service::{CheckConfig, Service};
use crate::monitor::probe::ProbeResult;
use crate::utils::net::{normalize_host_port, spec_normalize_host_port};
use crate::utils::text::{decimal, decimal_text};

verus! {

/// The port that is probed where the URL names none.
pub const DEFAULT_PORT: u16 = 80;

/// The connect to attempt, bounded by the timeout of the check.
#[derive(Debug)]
pub struct TcpRequest {
    pub host: String,
    pub port: u16,
    pub timeout_ms: u64,
}

/// What became of the connect.
#[derive(Debug)]
pub enum TcpOutcome {
    /// The connection was made in time.
    Connected,
    /// The connection was refused or failed; the text says why.
    Failed(String),
    /// The timeout ran out first.
    TimedOut,
}

/// `host:port`.
pub open spec fn endpoint_text(host: Seq<char>, port: u16) -> Seq<char> {
    host + ":"@ + decimal_text(port as nat)
}

/// The message of a connect to `host:port` with this outcome.
pub open spec fn connect_message(
    host: Seq<char>,
    port: u16,
    timeout_ms: u64,
    outcome: TcpOutcome,
) -> Seq<char> {
    match outcome {
        TcpOutcome::Connected => "Connected to "@ + endpoint_text(host, port),
        TcpOutcome::Failed(text) => "Connection to "@ + endpoint_text(host, port) + " failed: "@
            + text@,
        TcpOutcome::TimedOut => "Connection to "@ + endpoint_text(host, port)
            + " timed out after "@ + decimal_text(timeout_ms as nat) + " ms"@,
    }
}

/// `"<prefix><host>:<port>"`.
pub fn with_endpoint(prefix: &str, host: &String, port: u16) -> (r: String)
    ensures
        r@ == prefix@ + endpoint_text(host@, port),
{
    let mut text = String::from_str(prefix);
    text.append(host.as_str());
    text.append(":");
    let digits = decimal(port as u64);
    text.append(digits.as_str());
    assert(text@ =~= prefix@ + endpoint_text(host@, port));
    text
}

/// The text of a connect to `host:port` with this outcome.
pub fn describe_connect(
    host: &String,
    port: u16,
    timeout_ms: u64,
    outcome: &TcpOutcome,
) -> (r: String)
    ensures
        r@ == connect_message(host@, port, timeout_ms, *outcome),
{
    match outcome {
        TcpOutcome::Connected => with_endpoint("Connected to ", host, port),
        TcpOutcome::Failed(text) => {
            let mut message = with_endpoint("Connection to ", host, port);
            message.append(" failed: ");
            message.append(text.as_str());
            message
        },
        TcpOutcome::TimedOut => {
            let mut message = with_endpoint("Connection to ", host, port);
            message.append(" timed out after ");
            let digits = decimal(timeout_ms);
            message.append(digits.as_str());
            message.append(" ms");
            message
        },
    }
}

/// The request that probes `service` for `check`: host and port of its URL,
/// with port 80 where the URL names none.
pub fn request(service: &Service, check: &CheckConfig) -> (r: TcpRequest)
    ensures
        r.host@ == spec_normalize_host_port(service.url@, DEFAULT_PORT).0,
        r.port == spec_normalize_host_port(service.url@, DEFAULT_PORT).1,
        r.timeout_ms == check.timeout_ms,
{
    let target = normalize_host_port(service.url.as_str(), DEFAULT_PORT);
    TcpRequest { host: target.0, port: target.1, timeout_ms: check.timeout_ms }
}

/// Judges the outcome of a connect: success if and only if the connection
/// was made in time. The message names the endpoint, and the error or the
/// timeout where there was one.
pub fn run(request: &TcpRequest, outcome: TcpOutcome, elapsed_ms: u64) -> (r: ProbeResult)
    ensures
        r.elapsed_ms == elapsed_ms,
        r.success == (outcome is Connected),
        r.message@ == connect_message(request.host@, request.port, request.timeout_ms, outcome),
{
    let message = describe_connect(&request.host, request.port, request.timeout_ms, &outcome);
    let success = match outcome {
        TcpOutcome::Connected => true,
        _ => false,
    };
    ProbeResult { success, elapsed_ms, message }
}

} // verus!
