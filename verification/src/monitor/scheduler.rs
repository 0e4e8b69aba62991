//! The decisions of the polling loops.
//!
//! Every configured check of every service is polled by a loop of its own:
//! probe, record the result, sleep for the interval of the check, and again,
//! without end. The loop itself belongs to the embedding program, which
//! performs each `Action` and reports back with the next `Event`; what to do
//! next is decided here.

use vstd::prelude::*;
use crate::clock::now_millis;
use crate::config::Config;
use crate::models::service::{CheckConfig, CheckType, Service};
use crate::monitor::dns_check::DnsRequest;
use crate::monitor::http_check::HttpRequest;
use crate::monitor::probe::ProbeResult;
use crate::monitor::ssl_check::TlsRequest;
use crate::monitor::tcp_check::TcpRequest;
use crate::state::record::Sample;
use crate::state::store::{has_room, recorded, store_wf, AppState};
use crate::utils::net::{spec_normalize_host, spec_normalize_host_port};

verus! {

/// What a loop asks the network for.
#[derive(Debug)]
pub enum ProbeRequest {
    Http(HttpRequest),
    Tcp(TcpRequest),
    Dns(DnsRequest),
    Tls(TlsRequest),
}

/// What a loop does next.
#[derive(Debug)]
pub enum Action {
    /// Run this probe, then report its result.
    Probe(ProbeRequest),
    /// Sleep for this many seconds, then report back.
    Sleep(u64),
}

/// What a loop reports.
#[derive(Debug)]
pub enum Event {
    /// The loop starts.
    Started,
    /// The probe that was asked for ended with this result.
    ProbeFinished(ProbeResult),
    /// The sleep that was asked for is over.
    Woke,
}

/// One polling loop: the check at position `check` of the service at
/// position `service` of the configuration.
#[derive(Clone, Copy, Debug, PartialEq, Eq, Structural)]
pub struct Task {
    pub service: usize,
    pub check: usize,
}

/// `request` is the probe of `check` on `service`: the checker is the one of
/// the type of the check, the target is taken from the URL of the service,
/// and the timeout is the one of the check.
pub open spec fn is_plan_of(request: ProbeRequest, service: Service, check: CheckConfig) -> bool {
    match check.check_type {
        CheckType::Http => request matches ProbeRequest::Http(r) && r.url@ == service.url@
            && r.timeout_ms == check.timeout_ms,
        CheckType::Tcp => request matches ProbeRequest::Tcp(r) && r.host@
            == spec_normalize_host_port(service.url@, 80).0 && r.port == spec_normalize_host_port(
            service.url@,
            80,
        ).1 && r.timeout_ms == check.timeout_ms,
        CheckType::Dns => request matches ProbeRequest::Dns(r) && r.host@ == spec_normalize_host(
            service.url@,
        ),
        CheckType::Tls => request matches ProbeRequest::Tls(r) && r.host@
            == spec_normalize_host_port(service.url@, 443).0 && r.port == spec_normalize_host_port(
            service.url@,
            443,
        ).1 && r.timeout_ms == check.timeout_ms,
    }
}

/// The result `result` of `check` on `service`, as the store counts it in at
/// the time `time`.
pub open spec fn sample_of(
    service: Service,
    check: CheckConfig,
    result: ProbeResult,
    time: i64,
) -> Sample {
    Sample {
        service_name: service.name@,
        url: service.url@,
        check_type: check.check_type.spec_label(),
        success: result.success,
        response_time_ms: Some(result.elapsed_ms),
        message: result.message@,
        interval_seconds: check.interval_seconds,
        time,
    }
}

/// `task` points at a check of the configuration.
pub open spec fn is_task_of(task: Task, services: Seq<Service>) -> bool {
    task.service < services.len() && task.check < services[task.service as int].checks.len()
}

/// `a` comes before `b`: an earlier service, or an earlier check of the same
/// service.
pub open spec fn task_before(a: Task, b: Task) -> bool {
    a.service < b.service || (a.service == b.service && a.check < b.check)
}

/// `tasks` holds the tasks of the configuration that come before `bound`,
/// all of them, in order.
pub open spec fn lists_tasks_before(tasks: Seq<Task>, services: Seq<Service>, bound: Task) -> bool {
    &&& forall|k: int|
        0 <= k < tasks.len() ==> is_task_of(#[trigger] tasks[k], services) && task_before(
            tasks[k],
            bound,
        )
    &&& forall|t: Task|
        is_task_of(t, services) && #[trigger] task_before(t, bound) ==> tasks.contains(t)
    &&& forall|j: int, k: int|
        0 <= j < k < tasks.len() ==> task_before(#[trigger] tasks[j], #[trigger] tasks[k])
}

/// `tasks` holds one task for every check of every service, each once, in
/// the order of the configuration.
pub open spec fn is_task_list(tasks: Seq<Task>, services: Seq<Service>) -> bool {
    &&& forall|k: int| 0 <= k < tasks.len() ==> is_task_of(#[trigger] tasks[k], services)
    &&& forall|t: Task| #[trigger] is_task_of(t, services) ==> tasks.contains(t)
    &&& forall|j: int, k: int|
        0 <= j < k < tasks.len() ==> task_before(#[trigger] tasks[j], #[trigger] tasks[k])
}

/// The probe of `check` on `service`.
pub fn plan(service: &Service, check: &CheckConfig) -> (request: ProbeRequest)
    ensures
        is_plan_of(request, *service, *check),
{
    match check.check_type {
        CheckType::Http => ProbeRequest::Http(crate::monitor::http_check::request(service, check)),
        CheckType::Tcp => ProbeRequest::Tcp(crate::monitor::tcp_check::request(service, check)),
        CheckType::Dns => ProbeRequest::Dns(crate::monitor::dns_check::request(service)),
        CheckType::Tls => ProbeRequest::Tls(crate::monitor::ssl_check::request(service, check)),
    }
}

/// The loops to start: one for every check of every service, whatever their
/// number.
pub fn start_monitoring(config: &Config) -> (tasks: Vec<Task>)
    ensures
        is_task_list(tasks@, config.services@),
{
    let ghost services = config.services@;
    let mut tasks: Vec<Task> = Vec::new();
    let mut i: usize = 0;
    while i < config.services.len()
        invariant
            i <= config.services.len(),
            services == config.services@,
            lists_tasks_before(tasks@, services, Task { service: i, check: 0 }),
        decreases config.services.len() - i,
    {
        let mut j: usize = 0;
        while j < config.services[i].checks.len()
            invariant
                i < config.services.len(),
                j <= config.services[i as int].checks.len(),
                services == config.services@,
                lists_tasks_before(tasks@, services, Task { service: i, check: j }),
            decreases config.services[i as int].checks.len() - j,
        {
            let ghost before = tasks@;
            let ghost bound = Task { service: i, check: j };
            let task = Task { service: i, check: j };
            tasks.push(task);
            proof {
                let next = Task { service: i, check: (j + 1) as usize };
                assert forall|t: Task|
                    is_task_of(t, services) && #[trigger] task_before(t, next)
                    implies tasks@.contains(t) by {
                    if t == task {
                        assert(tasks@[before.len() as int] == t);
                    } else {
                        assert(task_before(t, bound));
                        let k = choose|k: int| 0 <= k < before.len() && before[k] == t;
                        assert(tasks@[k] == t);
                    }
                }
                assert forall|a: int, b: int| 0 <= a < b < tasks@.len() implies task_before(
                    #[trigger] tasks@[a],
                    #[trigger] tasks@[b],
                ) by {
                    if b < before.len() {
                        assert(task_before(before[a], before[b]));
                    } else {
                        assert(task_before(before[a], bound));
                    }
                }
                assert forall|k: int| 0 <= k < tasks@.len() implies is_task_of(
                    #[trigger] tasks@[k],
                    services,
                ) && task_before(tasks@[k], next) by {
                    if k < before.len() {
                        assert(task_before(before[k], bound));
                    }
                }
            }
            j += 1;
        }
        proof {
            let reached = Task { service: i, check: j };
            let next = Task { service: (i + 1) as usize, check: 0 };
            assert forall|t: Task|
                is_task_of(t, services) && #[trigger] task_before(t, next)
                implies tasks@.contains(t) by {
                assert(task_before(t, reached));
            }
            assert forall|k: int| 0 <= k < tasks@.len() implies is_task_of(
                #[trigger] tasks@[k],
                services,
            ) && task_before(tasks@[k], next) by {
                assert(task_before(tasks@[k], reached));
            }
        }
        i += 1;
    }
    proof {
        let end = Task { service: i, check: 0 };
        assert forall|t: Task| #[trigger] is_task_of(t, services) implies tasks@.contains(t) by {
            assert(task_before(t, end));
        }
    }
    tasks
}

/// The next action of the loop of `check` on `service`, with the time of
/// the clock given as `now`.
///
/// A loop that starts or wakes up probes. A loop whose probe has finished
/// has the result counted into the store at the time `now`, and sleeps for
/// the interval of the check. There is no event on which a loop ends.
pub fn step_at(
    state: &mut AppState,
    service: &Service,
    check: &CheckConfig,
    event: Event,
    now: i64,
) -> (action: Action)
    requires
        event is ProbeFinished ==> has_room(old(state)@, service.name@),
    ensures
        match event {
            Event::ProbeFinished(result) => {
                &&& action == Action::Sleep(check.interval_seconds)
                &&& store_wf(final(state)@)
                &&& final(state)@ == recorded(
                    old(state)@,
                    sample_of(*service, *check, result, now),
                )
            },
            _ => {
                &&& final(state)@ == old(state)@
                &&& action matches Action::Probe(request) && is_plan_of(request, *service, *check)
            },
        },
{
    match event {
        Event::ProbeFinished(result) => {
            state.record_result(
                service.name.clone(),
                service.url.clone(),
                check.check_type.label(),
                result.success,
                Some(result.elapsed_ms),
                result.message,
                check.interval_seconds,
                now,
            );
            Action::Sleep(check.interval_seconds)
        },
        _ => Action::Probe(plan(service, check)),
    }
}

/// The next action of the loop of `check` on `service`: what `step_at` does
/// with the time that the clock gives.
pub fn step(
    state: &mut AppState,
    service: &Service,
    check: &CheckConfig,
    event: Event,
) -> (action: Action)
    requires
        event is ProbeFinished ==> has_room(old(state)@, service.name@),
    ensures
        match event {
            Event::ProbeFinished(result) => {
                &&& action == Action::Sleep(check.interval_seconds)
                &&& store_wf(final(state)@)
                &&& exists|time: i64|
                    final(state)@ == #[trigger] recorded(
                        old(state)@,
                        sample_of(*service, *check, result, time),
                    )
            },
            _ => {
                &&& final(state)@ == old(state)@
                &&& action matches Action::Probe(request) && is_plan_of(request, *service, *check)
            },
        },
{
    let now = now_millis();
    step_at(state, service, check, event, now)
}

} // verus!
