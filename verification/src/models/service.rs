//! A monitored service and the checks that are configured on it.

use vstd::prelude::*;
use vstd::string::*;

verus! {

/// The protocol that a check probes with.
#[derive(Clone, Copy, Debug, PartialEq, Eq, Structural)]
pub enum CheckType {
    Http,
    Tcp,
    Dns,
    Tls,
}

/// One configured probe of a service.
#[derive(Clone, Copy, Debug)]
pub struct CheckConfig {
    pub check_type: CheckType,
    pub interval_seconds: u64,
    pub timeout_ms: u64,
}

/// A named endpoint with its checks. The name identifies the service.
#[derive(Clone, Debug)]
pub struct Service {
    pub name: String,
    pub url: String,
    pub checks: Vec<CheckConfig>,
}

impl CheckType {
    /// The name under which the store keeps the records of such checks.
    pub open spec fn spec_label(self) -> Seq<char> {
        match self {
            CheckType::Http => "HTTP"@,
            CheckType::Tcp => "TCP"@,
            CheckType::Dns => "DNS"@,
            CheckType::Tls => "TLS"@,
        }
    }

    /// The name under which the store keeps the records of such checks.
    pub fn label(&self) -> (r: String)
        ensures
            r@ == self.spec_label(),
    {
        match self {
            CheckType::Http => String::from_str("HTTP"),
            CheckType::Tcp => String::from_str("TCP"),
            CheckType::Dns => String::from_str("DNS"),
            CheckType::Tls => String::from_str("TLS"),
        }
    }
}

/// No two check types share a label.
pub proof fn lemma_labels_differ(a: CheckType, b: CheckType)
    ensures
        a.spec_label() == b.spec_label() <==> a == b,
{
    reveal_strlit("HTTP");
    reveal_strlit("TCP");
    reveal_strlit("DNS");
    reveal_strlit("TLS");
    if a != b {
        let x = a.spec_label();
        let y = b.spec_label();
        assert(x.len() != y.len() || x[1] != y[1]);
    }
}

} // verus!
