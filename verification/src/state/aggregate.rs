//! Folding the checks of a service into its summary.

use vstd::prelude::*;
use vstd::string::*;
use crate::state::model::{
    aggregate, all_up, any_down, check_entry, check_views, down_entries, entry_separator,
    latest_time, mean_response_time, message_separator, rounded_mean, status_of, sum_successful,
    sum_total, timed_count, timed_sum, uptime_of, CheckStatus, CheckStatusView, HealthStatus,
    ServiceStatus,
};
use crate::utils::text::joined;

verus! {

/// A list without its last element, then without what was added.
proof fn lemma_take_step<T>(s: Seq<T>, i: int)
    requires
        0 <= i < s.len(),
    ensures
        s.take(i + 1).drop_last() == s.take(i),
        s.take(i + 1).last() == s[i],
        s.take(i + 1).len() == i + 1,
{
    assert(s.take(i + 1).drop_last() =~= s.take(i));
}

/// Uptime in basis points from the two counters.
pub fn uptime_basis_points(successful: u64, total: u64) -> (r: u64)
    requires
        successful <= total,
    ensures
        r == uptime_of(successful as nat, total as nat),
        r <= 10000,
{
    if total == 0 {
        0
    } else {
        let scaled: u128 = successful as u128 * 10000;
        let q: u128 = scaled / (total as u128);
        assert(q <= 10000) by (nonlinear_arith)
            requires
                q == scaled / (total as u128),
                scaled <= 10000 * total,
                total > 0,
        ;
        q as u64
    }
}

/// Health of a service from the health of its checks.
pub fn aggregate_status(checks: &Vec<CheckStatus>) -> (r: HealthStatus)
    ensures
        r == status_of(check_views(checks@)),
{
    let ghost views = check_views(checks@);
    if checks.len() == 0 {
        return HealthStatus::Unknown;
    }
    let mut down = false;
    let mut up = true;
    let mut i: usize = 0;
    while i < checks.len()
        invariant
            i <= checks.len(),
            views == check_views(checks@),
            down == any_down(views.take(i as int)),
            up == all_up(views.take(i as int)),
        decreases checks.len() - i,
    {
        let ghost before = views.take(i as int);
        let ghost after = views.take(i + 1);
        proof {
            lemma_take_step(views, i as int);
            assert(forall|k: int| 0 <= k < i ==> before[k] == after[k]);
        }
        match checks[i].status {
            HealthStatus::Down => {
                assert(after[i as int].status is Down);
                down = true;
                up = false;
            },
            HealthStatus::Up => {
                proof {
                    if any_down(after) {
                        let k = choose|k: int| 0 <= k < after.len() && after[k].status is Down;
                        assert(before[k].status is Down);
                    }
                    if any_down(before) {
                        let k = choose|k: int| 0 <= k < before.len() && before[k].status is Down;
                        assert(after[k].status is Down);
                    }
                }
            },
            HealthStatus::Unknown => {
                proof {
                    assert(!(after[i as int].status is Up));
                    if any_down(after) {
                        let k = choose|k: int| 0 <= k < after.len() && after[k].status is Down;
                        assert(before[k].status is Down);
                    }
                    if any_down(before) {
                        let k = choose|k: int| 0 <= k < before.len() && before[k].status is Down;
                        assert(after[k].status is Down);
                    }
                }
                up = false;
            },
        }
        i += 1;
    }
    assert(views.take(i as int) =~= views);
    if down {
        HealthStatus::Down
    } else if up {
        HealthStatus::Up
    } else {
        HealthStatus::Unknown
    }
}

/// The latest time at which one of the checks ran; `0` without checks.
pub fn latest_check_time(checks: &Vec<CheckStatus>) -> (r: i64)
    ensures
        r == latest_time(check_views(checks@)),
{
    let ghost views = check_views(checks@);
    if checks.len() == 0 {
        return 0;
    }
    let mut latest: i64 = checks[0].last_check_time;
    let mut i: usize = 1;
    assert(views.take(1).len() == 1);
    while i < checks.len()
        invariant
            1 <= i <= checks.len(),
            views == check_views(checks@),
            latest == latest_time(views.take(i as int)),
        decreases checks.len() - i,
    {
        proof {
            lemma_take_step(views, i as int);
        }
        if checks[i].last_check_time > latest {
            latest = checks[i].last_check_time;
        }
        i += 1;
    }
    assert(views.take(i as int) =~= views);
    latest
}

/// The probes counted so far never exceed those of the whole list.
pub proof fn lemma_sum_total_prefix(checks: Seq<CheckStatusView>, n: int)
    requires
        0 <= n <= checks.len(),
    ensures
        sum_total(checks.take(n)) <= sum_total(checks),
    decreases checks.len() - n,
{
    if n < checks.len() {
        lemma_sum_total_prefix(checks, n + 1);
        lemma_take_step(checks, n);
    } else {
        assert(checks.take(n) =~= checks);
    }
}

/// Where no record has more successes than probes, the sums have not either.
pub proof fn lemma_sum_successful_bound(checks: Seq<CheckStatusView>)
    requires
        forall|i: int| 0 <= i < checks.len() ==> (#[trigger] checks[i]).wf(),
    ensures
        sum_successful(checks) <= sum_total(checks),
    decreases checks.len(),
{
    if checks.len() > 0 {
        let front = checks.drop_last();
        assert(forall|i: int| 0 <= i < front.len() ==> front[i] == checks[i]);
        lemma_sum_successful_bound(front);
        assert(checks.last() == checks[checks.len() - 1]);
    }
}

/// A list without `Down` checks has no entries.
pub proof fn lemma_down_entries_empty(checks: Seq<CheckStatusView>)
    ensures
        any_down(checks) <==> down_entries(checks).len() > 0,
    decreases checks.len(),
{
    if checks.len() > 0 {
        let front = checks.drop_last();
        lemma_down_entries_empty(front);
        if any_down(front) {
            let k = choose|k: int| 0 <= k < front.len() && front[k].status is Down;
            assert(checks[k].status is Down);
        }
        if any_down(checks) && !(checks.last().status is Down) {
            let k = choose|k: int| 0 <= k < checks.len() && checks[k].status is Down;
            assert(front[k].status is Down);
        }
        if checks.last().status is Down {
            assert(checks[checks.len() - 1].status is Down);
        }
    }
}

/// A rounded mean is at most half a unit away from the exact one, and a
/// mean of values below a bound stays at or below it.
pub proof fn lemma_rounded_mean(sum: nat, count: nat, bound: nat)
    requires
        count > 0,
        sum <= count * bound,
    ensures
        2 * count * rounded_mean(sum, count) <= 2 * sum + count,
        2 * sum < 2 * count * rounded_mean(sum, count) + count,
        rounded_mean(sum, count) <= bound,
{
    let q = sum / count;
    let r = sum % count;
    assert(sum == q * count + r && 0 <= r < count) by (nonlinear_arith)
        requires
            q == sum / count,
            r == sum % count,
            count > 0,
    ;
    assert(2 * count * q == 2 * (q * count)) by (nonlinear_arith);
    assert(2 * count * (q + 1) == 2 * (q * count) + 2 * count) by (nonlinear_arith);
    assert(q <= bound) by (nonlinear_arith)
        requires
            q * count <= count * bound,
            count > 0,
    ;
    if q == bound {
        assert(q * count == count * bound) by (nonlinear_arith)
            requires
                q == bound,
        ;
    }
}

/// Sum of the probes of all checks.
pub fn total_of(checks: &Vec<CheckStatus>) -> (r: u64)
    requires
        sum_total(check_views(checks@)) <= u64::MAX,
    ensures
        r == sum_total(check_views(checks@)),
{
    let ghost views = check_views(checks@);
    let mut acc: u64 = 0;
    let mut i: usize = 0;
    while i < checks.len()
        invariant
            i <= checks.len(),
            views == check_views(checks@),
            acc == sum_total(views.take(i as int)),
            sum_total(views) <= u64::MAX,
        decreases checks.len() - i,
    {
        proof {
            lemma_take_step(views, i as int);
            lemma_sum_total_prefix(views, i + 1);
        }
        acc = acc + checks[i].total_checks;
        i += 1;
    }
    assert(views.take(i as int) =~= views);
    acc
}

/// The successes counted so far never exceed those of the whole list.
pub proof fn lemma_sum_successful_prefix(checks: Seq<CheckStatusView>, n: int)
    requires
        0 <= n <= checks.len(),
    ensures
        sum_successful(checks.take(n)) <= sum_successful(checks),
    decreases checks.len() - n,
{
    if n < checks.len() {
        lemma_sum_successful_prefix(checks, n + 1);
        lemma_take_step(checks, n);
    } else {
        assert(checks.take(n) =~= checks);
    }
}

/// Sum of the successful probes of all checks.
pub fn successful_of(checks: &Vec<CheckStatus>) -> (r: u64)
    requires
        sum_successful(check_views(checks@)) <= u64::MAX,
    ensures
        r == sum_successful(check_views(checks@)),
{
    let ghost views = check_views(checks@);
    let mut acc: u64 = 0;
    let mut i: usize = 0;
    while i < checks.len()
        invariant
            i <= checks.len(),
            views == check_views(checks@),
            acc == sum_successful(views.take(i as int)),
            sum_successful(views) <= u64::MAX,
        decreases checks.len() - i,
    {
        proof {
            lemma_take_step(views, i as int);
            lemma_sum_successful_prefix(views, i + 1);
        }
        acc = acc + checks[i].successful_checks;
        i += 1;
    }
    assert(views.take(i as int) =~= views);
    acc
}

/// Mean of the response times that the checks have, rounded to the nearest
/// millisecond.
pub fn mean_response(checks: &Vec<CheckStatus>) -> (r: Option<u64>)
    ensures
        r == mean_response_time(check_views(checks@)),
{
    let ghost views = check_views(checks@);
    let mut sum: u128 = 0;
    let mut count: u128 = 0;
    let mut i: usize = 0;
    while i < checks.len()
        invariant
            i <= checks.len(),
            views == check_views(checks@),
            sum == timed_sum(views.take(i as int)),
            count == timed_count(views.take(i as int)),
            count <= i,
            sum <= count * 0xFFFF_FFFF_FFFF_FFFF,
        decreases checks.len() - i,
    {
        proof {
            lemma_take_step(views, i as int);
        }
        match checks[i].response_time_ms {
            Some(ms) => {
                sum = sum + ms as u128;
                count = count + 1;
            },
            None => {},
        }
        i += 1;
    }
    assert(views.take(i as int) =~= views);
    if count == 0 {
        None
    } else {
        proof {
            lemma_rounded_mean(sum as nat, count as nat, 0xFFFF_FFFF_FFFF_FFFF);
        }
        let q: u128 = sum / count;
        let rest: u128 = sum % count;
        let mean: u128 = if 2 * rest >= count {
            q + 1
        } else {
            q
        };
        Some(mean as u64)
    }
}

/// The entries of the failing checks, joined by `" | "`.
pub fn failure_message(checks: &Vec<CheckStatus>) -> (r: String)
    ensures
        r@ == joined(down_entries(check_views(checks@)), message_separator()),
{
    let ghost views = check_views(checks@);
    let mut text = String::new();
    let mut any = false;
    let mut i: usize = 0;
    proof {
        reveal_strlit(" | ");
        reveal_strlit(": ");
        assert(" | "@ =~= message_separator());
        assert(": "@ =~= entry_separator());
    }
    while i < checks.len()
        invariant
            i <= checks.len(),
            views == check_views(checks@),
            text@ == joined(down_entries(views.take(i as int)), message_separator()),
            any == (down_entries(views.take(i as int)).len() > 0),
            " | "@ == message_separator(),
            ": "@ == entry_separator(),
        decreases checks.len() - i,
    {
        let ghost before = down_entries(views.take(i as int));
        proof {
            lemma_take_step(views, i as int);
        }
        match checks[i].status {
            HealthStatus::Down => {
                let ghost entry = check_entry(views[i as int]);
                let ghost after = before.push(entry);
                proof {
                    assert(after.drop_last() =~= before);
                    assert(after.last() == entry);
                }
                if any {
                    text.append(" | ");
                }
                text.append(checks[i].check_type.as_str());
                text.append(": ");
                text.append(checks[i].message.as_str());
                assert(text@ =~= joined(after, message_separator()));
                any = true;
            },
            _ => {},
        }
        i += 1;
    }
    assert(views.take(i as int) =~= views);
    text
}

impl ServiceStatus {
    /// Folds the checks of the service into its summary. Name, URL and
    /// checks stay as they are; every other field is computed anew.
    pub fn recompute(&mut self)
        requires
            sum_successful(check_views(old(self).checks@)) <= sum_total(
                check_views(old(self).checks@),
            ) <= u64::MAX,
        ensures
            final(self)@ == aggregate(
                old(self).name@,
                old(self).url@,
                check_views(old(self).checks@),
            ),
    {
        let ghost views = check_views(self.checks@);
        proof {
            lemma_down_entries_empty(views);
        }
        let status = aggregate_status(&self.checks);
        let total = total_of(&self.checks);
        let successful = successful_of(&self.checks);
        let text = failure_message(&self.checks);
        self.last_check_time = latest_check_time(&self.checks);
        self.response_time_ms = mean_response(&self.checks);
        self.uptime_basis_points = uptime_basis_points(successful, total);
        self.total_checks = total;
        self.successful_checks = successful;
        self.status = status;
        self.message = text;
        proof {
            if !(status is Down) {
                assert(joined(down_entries(views), message_separator()) =~= Seq::<char>::empty());
            }
        }
    }
}

} // verus!
