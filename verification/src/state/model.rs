//! The records that the store keeps, and their mathematical model.
//!
//! Times are milliseconds since the Unix epoch, UTC. An uptime is held in
//! basis points, hundredths of a percent, rounded down: 7500 stands for 75 %.

use vstd::prelude::*;
use crate::utils::text::joined;

verus! {

/// Health of a check or of a service. `Unknown` means never evaluated.
#[derive(Clone, Copy, Debug, PartialEq, Eq, Structural)]
pub enum HealthStatus {
    Up,
    Down,
    Unknown,
}

/// What the store knows of one check of a service.
#[derive(Debug)]
pub struct CheckStatus {
    pub check_type: String,
    pub status: HealthStatus,
    pub last_check_time: i64,
    pub response_time_ms: Option<u64>,
    pub uptime_basis_points: u64,
    pub total_checks: u64,
    pub successful_checks: u64,
    pub message: String,
    pub interval_seconds: u64,
}

/// The health summary of one service, folded from its checks.
#[derive(Debug)]
pub struct ServiceStatus {
    pub name: String,
    pub url: String,
    pub status: HealthStatus,
    pub last_check_time: i64,
    pub response_time_ms: Option<u64>,
    pub uptime_basis_points: u64,
    pub total_checks: u64,
    pub successful_checks: u64,
    pub message: String,
    pub checks: Vec<CheckStatus>,
}

/// Model of a `CheckStatus`.
pub struct CheckStatusView {
    pub check_type: Seq<char>,
    pub status: HealthStatus,
    pub last_check_time: i64,
    pub response_time_ms: Option<u64>,
    pub uptime_basis_points: nat,
    pub total_checks: nat,
    pub successful_checks: nat,
    pub message: Seq<char>,
    pub interval_seconds: u64,
}

/// Model of a `ServiceStatus`.
pub struct ServiceStatusView {
    pub name: Seq<char>,
    pub url: Seq<char>,
    pub status: HealthStatus,
    pub last_check_time: i64,
    pub response_time_ms: Option<u64>,
    pub uptime_basis_points: nat,
    pub total_checks: nat,
    pub successful_checks: nat,
    pub message: Seq<char>,
    pub checks: Seq<CheckStatusView>,
}

impl View for CheckStatus {
    type V = CheckStatusView;

    open spec fn view(&self) -> CheckStatusView {
        CheckStatusView {
            check_type: self.check_type@,
            status: self.status,
            last_check_time: self.last_check_time,
            response_time_ms: self.response_time_ms,
            uptime_basis_points: self.uptime_basis_points as nat,
            total_checks: self.total_checks as nat,
            successful_checks: self.successful_checks as nat,
            message: self.message@,
            interval_seconds: self.interval_seconds,
        }
    }
}

/// The models of a list of check records, in order.
pub open spec fn check_views(checks: Seq<CheckStatus>) -> Seq<CheckStatusView> {
    checks.map_values(|c: CheckStatus| c@)
}

impl View for ServiceStatus {
    type V = ServiceStatusView;

    open spec fn view(&self) -> ServiceStatusView {
        ServiceStatusView {
            name: self.name@,
            url: self.url@,
            status: self.status,
            last_check_time: self.last_check_time,
            response_time_ms: self.response_time_ms,
            uptime_basis_points: self.uptime_basis_points as nat,
            total_checks: self.total_checks as nat,
            successful_checks: self.successful_checks as nat,
            message: self.message@,
            checks: check_views(self.checks@),
        }
    }
}

/// Uptime in basis points: `successful / total` of 10000, rounded down, and
/// `0` while nothing was counted.
pub open spec fn uptime_of(successful: nat, total: nat) -> nat {
    if total == 0 {
        0
    } else {
        (successful * 10000) / total
    }
}

/// `sum / count`, rounded to the nearest integer, a half upwards.
pub open spec fn rounded_mean(sum: nat, count: nat) -> nat {
    if count == 0 {
        0
    } else {
        sum / count + if 2 * (sum % count) >= count {
            1nat
        } else {
            0nat
        }
    }
}

/// Some check of the list is `Down`.
pub open spec fn any_down(checks: Seq<CheckStatusView>) -> bool {
    exists|i: int| 0 <= i < checks.len() && (#[trigger] checks[i]).status is Down
}

/// Every check of the list is `Up`.
pub open spec fn all_up(checks: Seq<CheckStatusView>) -> bool {
    forall|i: int| 0 <= i < checks.len() ==> (#[trigger] checks[i]).status is Up
}

/// Health of a service with these checks: `Unknown` without checks; else
/// `Down` if any check is `Down`, `Up` if all are `Up`, `Unknown` otherwise.
pub open spec fn status_of(checks: Seq<CheckStatusView>) -> HealthStatus {
    if checks.len() == 0 {
        HealthStatus::Unknown
    } else if any_down(checks) {
        HealthStatus::Down
    } else if all_up(checks) {
        HealthStatus::Up
    } else {
        HealthStatus::Unknown
    }
}

/// The latest `last_check_time` of the list; `0` for an empty list.
pub open spec fn latest_time(checks: Seq<CheckStatusView>) -> i64
    decreases checks.len(),
{
    if checks.len() == 0 {
        0
    } else if checks.len() == 1 {
        checks[0].last_check_time
    } else {
        let before = latest_time(checks.drop_last());
        if checks.last().last_check_time > before {
            checks.last().last_check_time
        } else {
            before
        }
    }
}

/// Sum of the `total_checks` of the list.
pub open spec fn sum_total(checks: Seq<CheckStatusView>) -> nat
    decreases checks.len(),
{
    if checks.len() == 0 {
        0
    } else {
        sum_total(checks.drop_last()) + checks.last().total_checks
    }
}

/// Sum of the `successful_checks` of the list.
pub open spec fn sum_successful(checks: Seq<CheckStatusView>) -> nat
    decreases checks.len(),
{
    if checks.len() == 0 {
        0
    } else {
        sum_successful(checks.drop_last()) + checks.last().successful_checks
    }
}

/// Number of checks of the list that have a response time.
pub open spec fn timed_count(checks: Seq<CheckStatusView>) -> nat
    decreases checks.len(),
{
    if checks.len() == 0 {
        0
    } else {
        timed_count(checks.drop_last()) + if checks.last().response_time_ms is Some {
            1nat
        } else {
            0nat
        }
    }
}

/// Sum of the response times that the checks of the list have.
pub open spec fn timed_sum(checks: Seq<CheckStatusView>) -> nat
    decreases checks.len(),
{
    if checks.len() == 0 {
        0
    } else {
        timed_sum(checks.drop_last()) + match checks.last().response_time_ms {
            Some(ms) => ms as nat,
            None => 0nat,
        }
    }
}

/// Mean response time of the checks that have one, rounded to the nearest
/// millisecond; `None` if no check has one.
pub open spec fn mean_response_time(checks: Seq<CheckStatusView>) -> Option<u64> {
    if timed_count(checks) == 0 {
        None
    } else {
        Some(rounded_mean(timed_sum(checks), timed_count(checks)) as u64)
    }
}

/// What stands between the type and the message of a failing check.
pub open spec fn entry_separator() -> Seq<char> {
    seq![':', ' ']
}

/// What stands between the entries of two failing checks.
pub open spec fn message_separator() -> Seq<char> {
    seq![' ', '|', ' ']
}

/// The entry of a failing check in its service's message.
pub open spec fn check_entry(check: CheckStatusView) -> Seq<char> {
    check.check_type + entry_separator() + check.message
}

/// The entries of the `Down` checks of the list, in order.
pub open spec fn down_entries(checks: Seq<CheckStatusView>) -> Seq<Seq<char>>
    decreases checks.len(),
{
    if checks.len() == 0 {
        Seq::empty()
    } else if checks.last().status is Down {
        down_entries(checks.drop_last()).push(check_entry(checks.last()))
    } else {
        down_entries(checks.drop_last())
    }
}

/// Message of a service with these checks: the entries of its `Down` checks
/// joined by `" | "` while it is `Down`, and empty otherwise.
pub open spec fn message_of(checks: Seq<CheckStatusView>) -> Seq<char> {
    if status_of(checks) is Down {
        joined(down_entries(checks), message_separator())
    } else {
        Seq::empty()
    }
}

/// The summary of a service with this name, this URL and these checks.
pub open spec fn aggregate(
    name: Seq<char>,
    url: Seq<char>,
    checks: Seq<CheckStatusView>,
) -> ServiceStatusView {
    ServiceStatusView {
        name,
        url,
        status: status_of(checks),
        last_check_time: latest_time(checks),
        response_time_ms: mean_response_time(checks),
        uptime_basis_points: uptime_of(sum_successful(checks), sum_total(checks)),
        total_checks: sum_total(checks),
        successful_checks: sum_successful(checks),
        message: message_of(checks),
        checks,
    }
}

impl CheckStatusView {
    /// The counters agree: no more successes than probes, and the uptime is
    /// the one that the counters give.
    pub open spec fn wf(self) -> bool {
        &&& self.successful_checks <= self.total_checks
        &&& self.uptime_basis_points == uptime_of(self.successful_checks, self.total_checks)
    }
}

/// Every record of the list is well formed, and no two have the same type.
pub open spec fn checks_wf(checks: Seq<CheckStatusView>) -> bool {
    &&& forall|i: int| 0 <= i < checks.len() ==> (#[trigger] checks[i]).wf()
    &&& forall|i: int, j: int|
        0 <= i < j < checks.len() ==> (#[trigger] checks[i]).check_type != (
        #[trigger] checks[j]).check_type
}

impl ServiceStatusView {
    /// The summary is the one that its own checks give.
    pub open spec fn wf(self) -> bool {
        &&& checks_wf(self.checks)
        &&& self == aggregate(self.name, self.url, self.checks)
    }
}

} // verus!
