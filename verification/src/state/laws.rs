//! What holds of the store whatever results it is fed.

use vstd::prelude::*;
use crate::state::aggregate::lemma_down_entries_empty;
use crate::state::model::{
    all_up, any_down, check_entry, down_entries, latest_time, message_of, status_of,
    sum_successful, sum_total, uptime_of, CheckStatusView, ServiceStatusView,
};
use crate::state::record::{lemma_recorded_checks_wf, lemma_sums_after_record, Sample};
use crate::state::store::{checks_before, recorded, recorded_service, store_wf, StoreView};

verus! {

/// The store after the results `samples` were counted in, in order, starting
/// from a store that knows no service.
pub open spec fn replay(samples: Seq<Sample>) -> StoreView
    decreases samples.len(),
{
    if samples.len() == 0 {
        Map::empty()
    } else {
        recorded(replay(samples.drop_last()), samples.last())
    }
}

/// Number of the results of `samples` that belong to the service `name`.
pub open spec fn results_of(samples: Seq<Sample>, name: Seq<char>) -> nat
    decreases samples.len(),
{
    if samples.len() == 0 {
        0
    } else {
        results_of(samples.drop_last(), name) + if samples.last().service_name == name {
            1nat
        } else {
            0nat
        }
    }
}

/// Number of the results of `samples` that belong to the service `name` and
/// report a success.
pub open spec fn successes_of(samples: Seq<Sample>, name: Seq<char>) -> nat
    decreases samples.len(),
{
    if samples.len() == 0 {
        0
    } else {
        successes_of(samples.drop_last(), name) + if samples.last().service_name == name
            && samples.last().success {
            1nat
        } else {
            0nat
        }
    }
}

/// The health of a service with at least one check is `Down` if and only if
/// some check is `Down`, `Up` if and only if every check is `Up`, and
/// `Unknown` in every other case.
pub proof fn lemma_status_of(checks: Seq<CheckStatusView>)
    requires
        checks.len() > 0,
    ensures
        status_of(checks) is Down <==> any_down(checks),
        status_of(checks) is Up <==> all_up(checks),
        status_of(checks) is Unknown <==> !any_down(checks) && !all_up(checks),
{
    if any_down(checks) && all_up(checks) {
        let k = choose|k: int| 0 <= k < checks.len() && checks[k].status is Down;
        assert(checks[k].status is Up);
    }
}

/// An uptime is `successful / total` of 10000 rounded down: it is `0` while
/// nothing was counted, never above 10000 where no more successes than
/// probes were counted, and less than one basis point below the exact
/// ratio.
pub proof fn lemma_uptime_of(successful: nat, total: nat)
    ensures
        total == 0 ==> uptime_of(successful, total) == 0,
        successful == 0 ==> uptime_of(successful, total) == 0,
        total > 0 ==> uptime_of(successful, total) * total <= successful * 10000 < (uptime_of(
            successful,
            total,
        ) + 1) * total,
        successful <= total ==> uptime_of(successful, total) <= 10000,
        total > 0 && successful == total ==> uptime_of(successful, total) == 10000,
{
    if total > 0 {
        let scaled = successful * 10000;
        let q = scaled / total;
        let r = scaled % total;
        assert(scaled == q * total + r && 0 <= r < total) by (nonlinear_arith)
            requires
                q == scaled / total,
                r == scaled % total,
                total > 0,
        ;
        assert((q + 1) * total == q * total + total) by (nonlinear_arith);
        if successful <= total {
            assert(q <= 10000) by (nonlinear_arith)
                requires
                    q * total <= 10000 * total,
                    total > 0,
            ;
        }
        if successful == total {
            assert(q >= 10000) by (nonlinear_arith)
                requires
                    10000 * total < (q + 1) * total,
                    total > 0,
            ;
        }
        if successful == 0 {
            assert(q == 0) by (nonlinear_arith)
                requires
                    q * total <= 0,
                    total > 0,
                    q >= 0,
            ;
        }
    }
}

/// The latest time of a list with at least one check is the time of one of
/// its checks, and no check has a later one.
pub proof fn lemma_latest_time(checks: Seq<CheckStatusView>)
    requires
        checks.len() > 0,
    ensures
        forall|i: int|
            0 <= i < checks.len() ==> (#[trigger] checks[i]).last_check_time <= latest_time(
                checks,
            ),
        exists|i: int|
            0 <= i < checks.len() && (#[trigger] checks[i]).last_check_time == latest_time(checks),
    decreases checks.len(),
{
    if checks.len() == 1 {
        assert(checks[0].last_check_time == latest_time(checks));
    } else {
        let front = checks.drop_last();
        lemma_latest_time(front);
        let k = choose|k: int|
            0 <= k < front.len() && (#[trigger] front[k]).last_check_time == latest_time(front);
        assert(front[k] == checks[k]);
        assert forall|i: int| 0 <= i < checks.len() implies (
        #[trigger] checks[i]).last_check_time <= latest_time(checks) by {
            if i < front.len() {
                assert(front[i] == checks[i]);
            }
        }
        if checks.last().last_check_time > latest_time(front) {
            assert(checks[checks.len() - 1].last_check_time == latest_time(checks));
        } else {
            assert(checks[k].last_check_time == latest_time(checks));
        }
    }
}

/// Where the check at `i` is the only one that is `Down`, the entries are
/// its entry alone.
proof fn lemma_single_down_entry(checks: Seq<CheckStatusView>, i: int)
    requires
        0 <= i < checks.len(),
        forall|k: int| 0 <= k < checks.len() ==> ((#[trigger] checks[k]).status is Down <==> k == i),
    ensures
        down_entries(checks) == seq![check_entry(checks[i])],
    decreases checks.len(),
{
    let front = checks.drop_last();
    assert(forall|k: int| 0 <= k < front.len() ==> front[k] == checks[k]);
    if i == checks.len() - 1 {
        lemma_down_entries_empty(front);
        if any_down(front) {
            let k = choose|k: int| 0 <= k < front.len() && front[k].status is Down;
            assert(checks[k].status is Down);
        }
        assert(down_entries(front) =~= Seq::<Seq<char>>::empty());
        assert(down_entries(checks) =~= seq![check_entry(checks[i])]);
    } else {
        assert(!(checks[checks.len() - 1].status is Down));
        lemma_single_down_entry(front, i);
    }
}

/// The message of a service of which one check only is `Down` is the entry
/// of that check, and holds nothing of the others.
pub proof fn lemma_single_failure_message(checks: Seq<CheckStatusView>, i: int)
    requires
        0 <= i < checks.len(),
        forall|k: int| 0 <= k < checks.len() ==> ((#[trigger] checks[k]).status is Down <==> k == i),
    ensures
        status_of(checks) is Down,
        message_of(checks) == check_entry(checks[i]),
{
    assert(checks[i].status is Down);
    lemma_single_down_entry(checks, i);
}

/// The counters of a well-formed summary are the sums of the counters of
/// its checks.
pub proof fn lemma_totals_are_sums(service: ServiceStatusView)
    requires
        service.wf(),
    ensures
        service.total_checks == sum_total(service.checks),
        service.successful_checks == sum_successful(service.checks),
        service.status == status_of(service.checks),
        service.uptime_basis_points == uptime_of(service.successful_checks, service.total_checks),
{
}

/// Counting a result in keeps every summary well formed.
pub proof fn lemma_recorded_wf(state: StoreView, s: Sample)
    requires
        store_wf(state),
    ensures
        store_wf(recorded(state, s)),
{
    let after = recorded(state, s);
    let before = checks_before(state, s);
    if state.dom().contains(s.service_name) {
        assert(state[s.service_name].wf());
    }
    lemma_recorded_checks_wf(before, s);
    assert forall|name: Seq<char>| after.dom().contains(name) implies (#[trigger] after[name]).wf()
        && after[name].name == name by {
        if name != s.service_name {
            assert(state[name].wf());
        }
    }
}

/// Counting a result in changes the summary of its own service only: every
/// other service is known or unknown as before, with the summary it had.
pub proof fn lemma_recorded_is_local(state: StoreView, s: Sample, name: Seq<char>)
    requires
        name != s.service_name,
    ensures
        recorded(state, s).dom().contains(name) == state.dom().contains(name),
        recorded(state, s)[name] == state[name],
{
}

/// Results of two different services can be counted in either order.
pub proof fn lemma_recorded_commutes(state: StoreView, a: Sample, b: Sample)
    requires
        a.service_name != b.service_name,
    ensures
        recorded(recorded(state, a), b) == recorded(recorded(state, b), a),
{
    assert(recorded(recorded(state, a), b) =~= recorded(recorded(state, b), a));
}

/// After any sequence of results every summary is well formed: its counters
/// are the sums over its checks and its health is the one that its checks
/// give.
pub proof fn lemma_replay_wf(samples: Seq<Sample>)
    ensures
        store_wf(replay(samples)),
    decreases samples.len(),
{
    if samples.len() > 0 {
        lemma_replay_wf(samples.drop_last());
        lemma_recorded_wf(replay(samples.drop_last()), samples.last());
    }
}

/// A service has no more successes than results.
pub proof fn lemma_successes_below_results(samples: Seq<Sample>, name: Seq<char>)
    ensures
        successes_of(samples, name) <= results_of(samples, name),
    decreases samples.len(),
{
    if samples.len() > 0 {
        lemma_successes_below_results(samples.drop_last(), name);
    }
}

/// After any sequence of results, however those of different services are
/// interleaved, a service is known if and only if a result of it was counted
/// in, and its counters are the number of its own results and the number of
/// its own successes.
pub proof fn lemma_replay_counts(samples: Seq<Sample>, name: Seq<char>)
    ensures
        replay(samples).dom().contains(name) <==> results_of(samples, name) > 0,
        replay(samples).dom().contains(name) ==> replay(samples)[name].total_checks == results_of(
            samples,
            name,
        ) && replay(samples)[name].successful_checks == successes_of(samples, name),
    decreases samples.len(),
{
    if samples.len() > 0 {
        let front = samples.drop_last();
        let s = samples.last();
        let state = replay(front);
        lemma_replay_counts(front, name);
        lemma_replay_wf(front);
        if s.service_name == name {
            let before = checks_before(state, s);
            lemma_sums_after_record(before, s);
            if state.dom().contains(name) {
                assert(state[name].wf());
                assert(sum_total(before) == results_of(front, name));
                assert(sum_successful(before) == successes_of(front, name));
            } else {
                assert(sum_total(before) == 0);
                assert(sum_successful(before) == 0);
                lemma_successes_below_results(front, name);
            }
            assert(recorded(state, s)[name] == recorded_service(state, s));
            assert(results_of(samples, name) == results_of(front, name) + 1);
        } else {
            assert(recorded(state, s)[name] == state[name]);
            assert(results_of(samples, name) == results_of(front, name));
            assert(successes_of(samples, name) == successes_of(front, name));
        }
    }
}

} // verus!
