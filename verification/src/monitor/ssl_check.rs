//! The TLS checker: a connect and a handshake that succeeds if the
//! handshake completes.

use vstd::prelude::*;
use vstd::string::*;
use crate::models::service::{CheckConfig, Service};
use crate::monitor::probe::ProbeResult;
use crate::monitor::tcp_check::{
    connect_message, describe_connect, endpoint_text, with_endpoint, TcpOutcome,
};
use crate::utils::net::{normalize_host_port, spec_normalize_host_port};

verus! {

/// The port that is probed where the URL names none.
pub const DEFAULT_PORT: u16 = 443;

/// The handshake to attempt: a connect to `host:port` bounded by the
/// timeout of the check, then a handshake that names `host`.
#[derive(Debug)]
pub struct TlsRequest {
    pub host: String,
    pub port: u16,
    pub timeout_ms: u64,
}

/// What became of the attempt.
#[derive(Debug)]
pub enum TlsOutcome {
    /// The handshake completed.
    Established,
    /// The connection could not be made; the text says why.
    ConnectFailed(String),
    /// The timeout ran out before the connection was made.
    ConnectTimedOut,
    /// The connection was made and the handshake failed; the text says why.
    HandshakeFailed(String),
}

/// The message of an attempt on `host:port` with this outcome. A failure to
/// connect reads as the TCP checker words it.
pub open spec fn handshake_message(
    host: Seq<char>,
    port: u16,
    timeout_ms: u64,
    outcome: TlsOutcome,
) -> Seq<char> {
    match outcome {
        TlsOutcome::Established => "TLS handshake completed with "@ + endpoint_text(host, port),
        TlsOutcome::ConnectFailed(text) => connect_message(
            host,
            port,
            timeout_ms,
            TcpOutcome::Failed(text),
        ),
        TlsOutcome::ConnectTimedOut => connect_message(
            host,
            port,
            timeout_ms,
            TcpOutcome::TimedOut,
        ),
        TlsOutcome::HandshakeFailed(text) => "TLS handshake with "@ + endpoint_text(host, port)
            + " failed: "@ + text@,
    }
}

/// The request that probes `service` for `check`: host and port of its URL,
/// with port 443 where the URL names none.
pub fn request(service: &Service, check: &CheckConfig) -> (r: TlsRequest)
    ensures
        r.host@ == spec_normalize_host_port(service.url@, DEFAULT_PORT).0,
        r.port == spec_normalize_host_port(service.url@, DEFAULT_PORT).1,
        r.timeout_ms == check.timeout_ms,
{
    let target = normalize_host_port(service.url.as_str(), DEFAULT_PORT);
    TlsRequest { host: target.0, port: target.1, timeout_ms: check.timeout_ms }
}

/// Judges the outcome of an attempt: success if and only if the handshake
/// completed. The message tells a failed connect, a connect that timed out
/// and a failed handshake apart.
pub fn run(request: &TlsRequest, outcome: TlsOutcome, elapsed_ms: u64) -> (r: ProbeResult)
    ensures
        r.elapsed_ms == elapsed_ms,
        r.success == (outcome is Established),
        r.message@ == handshake_message(request.host@, request.port, request.timeout_ms, outcome),
{
    match outcome {
        TlsOutcome::Established => ProbeResult {
            success: true,
            elapsed_ms,
            message: with_endpoint("TLS handshake completed with ", &request.host, request.port),
        },
        TlsOutcome::ConnectFailed(text) => ProbeResult {
            success: false,
            elapsed_ms,
            message: describe_connect(
                &request.host,
                request.port,
                request.timeout_ms,
                &TcpOutcome::Failed(text),
            ),
        },
        TlsOutcome::ConnectTimedOut => ProbeResult {
            success: false,
            elapsed_ms,
            message: describe_connect(
                &request.host,
                request.port,
                request.timeout_ms,
                &TcpOutcome::TimedOut,
            ),
        },
        TlsOutcome::HandshakeFailed(text) => {
            let mut message = with_endpoint("TLS handshake with ", &request.host, request.port);
            message.append(" failed: ");
            message.append(text.as_str());
            ProbeResult { success: false, elapsed_ms, message }
        },
    }
}

} // verus!
