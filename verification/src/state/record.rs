//! Counting one probe result into the records of a service.

use vstd::prelude::*;
use crate::state::aggregate::{
    lemma_sum_successful_bound, lemma_sum_total_prefix, uptime_basis_points,
};
use crate::state::model::{
    aggregate, check_views, checks_wf, sum_successful, sum_total, uptime_of, CheckStatus,
    CheckStatusView, HealthStatus, ServiceStatus,
};

verus! {

/// One reported probe result, with the time at which it is recorded.
pub struct Sample {
    pub service_name: Seq<char>,
    pub url: Seq<char>,
    pub check_type: Seq<char>,
    pub success: bool,
    pub response_time_ms: Option<u64>,
    pub message: Seq<char>,
    pub interval_seconds: u64,
    pub time: i64,
}

/// The record of a check that has not run yet.
pub open spec fn seed_check(check_type: Seq<char>) -> CheckStatusView {
    CheckStatusView {
        check_type,
        status: HealthStatus::Unknown,
        last_check_time: 0,
        response_time_ms: None,
        uptime_basis_points: 0,
        total_checks: 0,
        successful_checks: 0,
        message: Seq::empty(),
        interval_seconds: 0,
    }
}

/// The record `prev` after one more probe is counted in: the counters grow,
/// the uptime follows them, the health is `Up` after a success and `Down`
/// after a failure, and time, response time, message and interval are those
/// of the probe. The type stays.
pub open spec fn check_after(
    prev: CheckStatusView,
    success: bool,
    response_time_ms: Option<u64>,
    message: Seq<char>,
    interval_seconds: u64,
    time: i64,
) -> CheckStatusView {
    let total = prev.total_checks + 1;
    let successful = if success {
        prev.successful_checks + 1
    } else {
        prev.successful_checks
    };
    CheckStatusView {
        check_type: prev.check_type,
        status: if success {
            HealthStatus::Up
        } else {
            HealthStatus::Down
        },
        last_check_time: time,
        response_time_ms,
        uptime_basis_points: uptime_of(successful, total),
        total_checks: total,
        successful_checks: successful,
        message,
        interval_seconds,
    }
}

/// The record `prev` after the result `s` is counted in.
pub open spec fn recorded_check(prev: CheckStatusView, s: Sample) -> CheckStatusView {
    check_after(prev, s.success, s.response_time_ms, s.message, s.interval_seconds, s.time)
}

/// Position of the first record of type `check_type` at or after `from`, or
/// `checks.len()` when there is none.
pub open spec fn position_of_type(
    checks: Seq<CheckStatusView>,
    check_type: Seq<char>,
    from: int,
) -> int
    decreases checks.len() - from,
{
    if from < 0 || from >= checks.len() {
        checks.len() as int
    } else if checks[from].check_type == check_type {
        from
    } else {
        position_of_type(checks, check_type, from + 1)
    }
}

/// The records of a service after `s` is counted in: the record of its type
/// is updated in place, or a new one is added at the end.
pub open spec fn recorded_checks(checks: Seq<CheckStatusView>, s: Sample) -> Seq<CheckStatusView> {
    let i = position_of_type(checks, s.check_type, 0);
    if i < checks.len() {
        checks.update(i, recorded_check(checks[i], s))
    } else {
        checks.push(recorded_check(seed_check(s.check_type), s))
    }
}

/// `position_of_type` returns the first position of the type.
pub proof fn lemma_position_of_type(checks: Seq<CheckStatusView>, check_type: Seq<char>, from: int)
    requires
        0 <= from <= checks.len(),
    ensures
        from <= position_of_type(checks, check_type, from) <= checks.len(),
        position_of_type(checks, check_type, from) < checks.len() ==> checks[position_of_type(
            checks,
            check_type,
            from,
        )].check_type == check_type,
        forall|j: int|
            from <= j < position_of_type(checks, check_type, from) ==> (#[trigger] checks[j]).check_type
                != check_type,
    decreases checks.len() - from,
{
    if from < checks.len() && checks[from].check_type != check_type {
        lemma_position_of_type(checks, check_type, from + 1);
    }
}

/// No record of a list counts more probes than the list as a whole.
pub proof fn lemma_total_below_sum(checks: Seq<CheckStatusView>, i: int)
    requires
        0 <= i < checks.len(),
    ensures
        checks[i].total_checks <= sum_total(checks),
{
    lemma_sum_total_prefix(checks, i + 1);
    assert(checks.take(i + 1).drop_last() =~= checks.take(i));
}

/// Counting one result into the record at `i` adds one probe to the sum,
/// and one success if the probe succeeded.
pub proof fn lemma_sums_after_update(checks: Seq<CheckStatusView>, i: int, s: Sample)
    requires
        0 <= i < checks.len(),
    ensures
        sum_total(checks.update(i, recorded_check(checks[i], s))) == sum_total(checks) + 1,
        sum_successful(checks.update(i, recorded_check(checks[i], s))) == sum_successful(checks)
            + if s.success {
            1nat
        } else {
            0nat
        },
    decreases checks.len(),
{
    let after = checks.update(i, recorded_check(checks[i], s));
    if i == checks.len() - 1 {
        assert(after.drop_last() =~= checks.drop_last());
    } else {
        lemma_sums_after_update(checks.drop_last(), i, s);
        assert(after.drop_last() =~= checks.drop_last().update(
            i,
            recorded_check(checks.drop_last()[i], s),
        ));
    }
}

/// Counting one result into a new record adds one probe to the sum, and one
/// success if the probe succeeded.
pub proof fn lemma_sums_after_push(checks: Seq<CheckStatusView>, s: Sample)
    ensures
        sum_total(checks.push(recorded_check(seed_check(s.check_type), s))) == sum_total(checks)
            + 1,
        sum_successful(checks.push(recorded_check(seed_check(s.check_type), s)))
            == sum_successful(checks) + if s.success {
            1nat
        } else {
            0nat
        },
{
    let after = checks.push(recorded_check(seed_check(s.check_type), s));
    assert(after.drop_last() =~= checks);
}

/// Counting one result in adds one probe to the sum of the service, and one
/// success if the probe succeeded.
pub proof fn lemma_sums_after_record(checks: Seq<CheckStatusView>, s: Sample)
    ensures
        sum_total(recorded_checks(checks, s)) == sum_total(checks) + 1,
        sum_successful(recorded_checks(checks, s)) == sum_successful(checks) + if s.success {
            1nat
        } else {
            0nat
        },
{
    lemma_position_of_type(checks, s.check_type, 0);
    let i = position_of_type(checks, s.check_type, 0);
    if i < checks.len() {
        lemma_sums_after_update(checks, i, s);
    } else {
        lemma_sums_after_push(checks, s);
    }
}

/// Counting one result in keeps the records well formed.
pub proof fn lemma_recorded_checks_wf(checks: Seq<CheckStatusView>, s: Sample)
    requires
        checks_wf(checks),
    ensures
        checks_wf(recorded_checks(checks, s)),
{
    lemma_position_of_type(checks, s.check_type, 0);
    let i = position_of_type(checks, s.check_type, 0);
    let after = recorded_checks(checks, s);
    if i < checks.len() {
        assert(checks[i].wf());
        assert forall|k: int| 0 <= k < after.len() implies (#[trigger] after[k]).wf() by {
            if k != i {
                assert(checks[k].wf());
            }
        }
        assert forall|j: int, k: int| 0 <= j < k < after.len() implies (#[trigger] after[j]).check_type
            != (#[trigger] after[k]).check_type by {
            assert(after[j].check_type == checks[j].check_type);
            assert(after[k].check_type == checks[k].check_type);
        }
    } else {
        assert forall|k: int| 0 <= k < after.len() implies (#[trigger] after[k]).wf() by {
            if k < checks.len() {
                assert(checks[k].wf());
            }
        }
        assert forall|j: int, k: int| 0 <= j < k < after.len() implies (#[trigger] after[j]).check_type
            != (#[trigger] after[k]).check_type by {
            if k < checks.len() {
                assert(after[j].check_type == checks[j].check_type);
                assert(after[k].check_type == checks[k].check_type);
            } else {
                assert(after[j].check_type == checks[j].check_type);
            }
        }
    }
}

impl CheckStatus {
    /// The record of a check of this type that has not run yet.
    pub fn new(check_type: String) -> (r: Self)
        ensures
            r@ == seed_check(check_type@),
    {
        CheckStatus {
            check_type,
            status: HealthStatus::Unknown,
            last_check_time: 0,
            response_time_ms: None,
            uptime_basis_points: 0,
            total_checks: 0,
            successful_checks: 0,
            message: String::new(),
            interval_seconds: 0,
        }
    }

    /// Counts one probe result into the record.
    pub fn record(
        &mut self,
        is_success: bool,
        response_time_ms: Option<u64>,
        message: String,
        interval_seconds: u64,
        now: i64,
    )
        requires
            old(self)@.wf(),
            old(self).total_checks < u64::MAX,
        ensures
            final(self)@.wf(),
            final(self)@ == check_after(
                old(self)@,
                is_success,
                response_time_ms,
                message@,
                interval_seconds,
                now,
            ),
    {
        self.total_checks = self.total_checks + 1;
        if is_success {
            self.successful_checks = self.successful_checks + 1;
            self.status = HealthStatus::Up;
        } else {
            self.status = HealthStatus::Down;
        }
        self.last_check_time = now;
        self.response_time_ms = response_time_ms;
        self.message = message;
        self.interval_seconds = interval_seconds;
        self.uptime_basis_points = uptime_basis_points(self.successful_checks, self.total_checks);
    }
}

impl Clone for CheckStatus {
    fn clone(&self) -> (r: Self)
        ensures
            r@ == self@,
    {
        CheckStatus {
            check_type: self.check_type.clone(),
            status: self.status,
            last_check_time: self.last_check_time,
            response_time_ms: self.response_time_ms,
            uptime_basis_points: self.uptime_basis_points,
            total_checks: self.total_checks,
            successful_checks: self.successful_checks,
            message: self.message.clone(),
            interval_seconds: self.interval_seconds,
        }
    }
}

impl Clone for ServiceStatus {
    fn clone(&self) -> (r: Self)
        ensures
            r@ == self@,
    {
        let mut checks: Vec<CheckStatus> = Vec::new();
        let mut i: usize = 0;
        while i < self.checks.len()
            invariant
                i <= self.checks.len(),
                check_views(checks@) == check_views(self.checks@).take(i as int),
            decreases self.checks.len() - i,
        {
            let ghost before = check_views(checks@);
            checks.push(self.checks[i].clone());
            assert(check_views(checks@) =~= before.push(self.checks[i as int]@));
            assert(check_views(self.checks@).take(i + 1) =~= check_views(self.checks@).take(
                i as int,
            ).push(self.checks[i as int]@));
            i += 1;
        }
        assert(check_views(self.checks@).take(i as int) =~= check_views(self.checks@));
        ServiceStatus {
            name: self.name.clone(),
            url: self.url.clone(),
            status: self.status,
            last_check_time: self.last_check_time,
            response_time_ms: self.response_time_ms,
            uptime_basis_points: self.uptime_basis_points,
            total_checks: self.total_checks,
            successful_checks: self.successful_checks,
            message: self.message.clone(),
            checks,
        }
    }
}

/// Searches the records for the one of type `check_type`.
fn find_check(checks: &Vec<CheckStatus>, check_type: &String) -> (r: usize)
    ensures
        r == position_of_type(check_views(checks@), check_type@, 0),
        r <= checks.len(),
{
    let ghost views = check_views(checks@);
    let mut i: usize = 0;
    while i < checks.len() && checks[i].check_type != *check_type
        invariant
            i <= checks.len(),
            views == check_views(checks@),
            position_of_type(views, check_type@, 0) == position_of_type(views, check_type@, i as int),
        decreases checks.len() - i,
    {
        i += 1;
    }
    i
}

impl ServiceStatus {
    /// The summary of a service of which no check has run yet.
    pub fn new(name: String, url: String) -> (r: Self)
        ensures
            r@ == aggregate(name@, url@, Seq::empty()),
            r@.wf(),
    {
        let r = ServiceStatus {
            name,
            url,
            status: HealthStatus::Unknown,
            last_check_time: 0,
            response_time_ms: None,
            uptime_basis_points: 0,
            total_checks: 0,
            successful_checks: 0,
            message: String::new(),
            checks: Vec::new(),
        };
        assert(r@.checks =~= Seq::empty());
        assert(r@.message =~= Seq::empty());
        r
    }

    /// Counts one probe result into the record of its check, which is
    /// created if this is its first result, refreshes the URL and folds the
    /// checks into the summary anew.
    pub fn record(
        &mut self,
        url: String,
        check_type: String,
        is_success: bool,
        response_time_ms: Option<u64>,
        message: String,
        interval_seconds: u64,
        now: i64,
    )
        requires
            old(self)@.wf(),
            old(self).total_checks < u64::MAX,
        ensures
            final(self)@.wf(),
            final(self)@ == aggregate(
                old(self).name@,
                url@,
                recorded_checks(
                    old(self)@.checks,
                    (Sample {
                        service_name: old(self).name@,
                        url: url@,
                        check_type: check_type@,
                        success: is_success,
                        response_time_ms,
                        message: message@,
                        interval_seconds,
                        time: now,
                    }),
                ),
            ),
    {
        let ghost s = Sample {
            service_name: self.name@,
            url: url@,
            check_type: check_type@,
            success: is_success,
            response_time_ms,
            message: message@,
            interval_seconds,
            time: now,
        };
        let ghost before = check_views(self.checks@);
        proof {
            lemma_position_of_type(before, check_type@, 0);
            lemma_recorded_checks_wf(before, s);
            lemma_sums_after_record(before, s);
        }
        self.url = url;
        let j = find_check(&self.checks, &check_type);
        if j == self.checks.len() {
            self.checks.push(CheckStatus::new(check_type));
            assert(check_views(self.checks@) =~= before.push(seed_check(s.check_type)));
        } else {
            proof {
                lemma_total_below_sum(before, j as int);
            }
        }
        let ghost seeded = check_views(self.checks@);
        self.checks[j].record(is_success, response_time_ms, message, interval_seconds, now);
        assert(check_views(self.checks@) =~= seeded.update(
            j as int,
            recorded_check(seeded[j as int], s),
        ));
        assert(check_views(self.checks@) =~= recorded_checks(before, s));
        proof {
            lemma_sum_successful_bound(recorded_checks(before, s));
        }
        self.recompute();
    }
}

} // verus!
