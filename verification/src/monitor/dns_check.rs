//! The DNS checker: a lookup that succeeds if it yields an address.

use vstd::prelude::*;
use vstd::string::*;
use crate::models::service::Service;
use crate::monitor::probe::ProbeResult;
use crate::utils::net::{normalize_host, spec_normalize_host};
use crate::utils::text::{join, joined, string_views};

verus! {

/// The name to resolve.
#[derive(Debug)]
pub struct DnsRequest {
    pub host: String,
}

/// What became of the lookup.
#[derive(Debug)]
pub enum DnsOutcome {
    /// The resolver answered with these addresses, each as a text.
    Resolved(Vec<String>),
    /// The resolver failed; the text says why.
    Failed(String),
}

/// The message of an answer with these addresses.
pub open spec fn resolved_message(addresses: Seq<Seq<char>>) -> Seq<char> {
    "Resolved to: "@ + joined(addresses, ", "@)
}

/// The message of a failed lookup.
pub open spec fn failed_message(text: Seq<char>) -> Seq<char> {
    "Error: "@ + text
}

/// The request that probes `service`: the bare host of its URL.
pub fn request(service: &Service) -> (r: DnsRequest)
    ensures
        r.host@ == spec_normalize_host(service.url@),
{
    DnsRequest { host: normalize_host(service.url.as_str()) }
}

/// Judges the outcome of a lookup: success if and only if the resolver
/// answered with at least one address. The message lists the addresses, or
/// gives the error of the resolver.
pub fn run(outcome: DnsOutcome, elapsed_ms: u64) -> (r: ProbeResult)
    ensures
        r.elapsed_ms == elapsed_ms,
        match outcome {
            DnsOutcome::Resolved(addresses) => r.success == (addresses.len() > 0) && r.message@
                == resolved_message(string_views(addresses@)),
            DnsOutcome::Failed(text) => !r.success && r.message@ == failed_message(text@),
        },
{
    match outcome {
        DnsOutcome::Resolved(addresses) => {
            let mut message = String::from_str("Resolved to: ");
            let list = join(&addresses, ", ");
            message.append(list.as_str());
            ProbeResult { success: addresses.len() > 0, elapsed_ms, message }
        },
        DnsOutcome::Failed(text) => {
            let mut message = String::from_str("Error: ");
            message.append(text.as_str());
            ProbeResult { success: false, elapsed_ms, message }
        },
    }
}

} // verus!
