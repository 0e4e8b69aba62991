//! The store itself: a map from service name to summary, and the one
//! operation that changes it.

use vstd::prelude::*;
use crate::clock::now_millis;
use crate::state::model::{aggregate, CheckStatusView, ServiceStatus, ServiceStatusView};
use crate::state::record::{recorded_checks, Sample};

verus! {

/// The abstract state of the store: the summary of each known service.
pub type StoreView = Map<Seq<char>, ServiceStatusView>;

/// The records that a service has before `s`: none if it is not known yet.
pub open spec fn checks_before(state: StoreView, s: Sample) -> Seq<CheckStatusView> {
    if state.dom().contains(s.service_name) {
        state[s.service_name].checks
    } else {
        Seq::empty()
    }
}

/// The summary of the service of `s` once `s` is counted in.
pub open spec fn recorded_service(state: StoreView, s: Sample) -> ServiceStatusView {
    aggregate(s.service_name, s.url, recorded_checks(checks_before(state, s), s))
}

/// The store after `s` is counted in: only the service of `s` changes.
pub open spec fn recorded(state: StoreView, s: Sample) -> StoreView {
    state.insert(s.service_name, recorded_service(state, s))
}

/// The service of this name can take one more result: its counter of probes
/// is below the largest `u64`.
pub open spec fn has_room(state: StoreView, name: Seq<char>) -> bool {
    state.dom().contains(name) ==> state[name].total_checks < u64::MAX
}

/// Position of the first summary of the service `name` at or after `from`,
/// or `services.len()` when there is none.
pub open spec fn position_of_name(
    services: Seq<ServiceStatusView>,
    name: Seq<char>,
    from: int,
) -> int
    decreases services.len() - from,
{
    if from < 0 || from >= services.len() {
        services.len() as int
    } else if services[from].name == name {
        from
    } else {
        position_of_name(services, name, from + 1)
    }
}

/// The map that a list of summaries stands for: each name is mapped to the
/// first summary that bears it.
pub open spec fn as_map(services: Seq<ServiceStatusView>) -> StoreView {
    Map::new(
        |name: Seq<char>| position_of_name(services, name, 0) < services.len(),
        |name: Seq<char>| services[position_of_name(services, name, 0)],
    )
}

/// Every summary of the store is well formed and kept under its own name.
pub open spec fn store_wf(state: StoreView) -> bool {
    forall|name: Seq<char>|
        state.dom().contains(name) ==> (#[trigger] state[name]).wf() && state[name].name == name
}

/// `list` holds the summary of every service of `state` once, and nothing
/// else.
pub open spec fn lists_exactly(list: Seq<ServiceStatusView>, state: StoreView) -> bool {
    &&& forall|i: int|
        0 <= i < list.len() ==> state.dom().contains((#[trigger] list[i]).name) && state[list[i].name]
            == list[i]
    &&& forall|name: Seq<char>|
        state.dom().contains(name) ==> exists|i: int|
            0 <= i < list.len() && (#[trigger] list[i]).name == name
    &&& forall|i: int, j: int|
        0 <= i < j < list.len() ==> (#[trigger] list[i]).name != (#[trigger] list[j]).name
}

/// `position_of_name` returns the first position of the name.
pub proof fn lemma_position_of_name(services: Seq<ServiceStatusView>, name: Seq<char>, from: int)
    requires
        0 <= from <= services.len(),
    ensures
        from <= position_of_name(services, name, from) <= services.len(),
        position_of_name(services, name, from) < services.len() ==> services[position_of_name(
            services,
            name,
            from,
        )].name == name,
        forall|j: int|
            from <= j < position_of_name(services, name, from) ==> (#[trigger] services[j]).name
                != name,
    decreases services.len() - from,
{
    if from < services.len() && services[from].name != name {
        lemma_position_of_name(services, name, from + 1);
    }
}

/// Replacing a summary by one of the same name replaces it in the map.
pub proof fn lemma_as_map_update(services: Seq<ServiceStatusView>, i: int, v: ServiceStatusView)
    requires
        0 <= i < services.len(),
        services[i].name == v.name,
        position_of_name(services, v.name, 0) == i,
    ensures
        as_map(services.update(i, v)) == as_map(services).insert(v.name, v),
{
    let after = services.update(i, v);
    let expected = as_map(services).insert(v.name, v);
    assert forall|name: Seq<char>|
        (#[trigger] as_map(after).dom().contains(name)) == expected.dom().contains(name) && (
        expected.dom().contains(name) ==> as_map(after)[name] == expected[name]) by {
        lemma_position_of_name(services, name, 0);
        lemma_position_of_name(after, name, 0);
        let p = position_of_name(services, name, 0);
        let q = position_of_name(after, name, 0);
        if p < q {
            assert(after[p].name == services[p].name);
        }
        if q < p {
            assert(after[q].name == services[q].name);
        }
    }
    assert(as_map(after) =~= expected);
}

/// Adding the summary of an unknown service adds it to the map.
pub proof fn lemma_as_map_push(services: Seq<ServiceStatusView>, v: ServiceStatusView)
    requires
        position_of_name(services, v.name, 0) == services.len(),
    ensures
        as_map(services.push(v)) == as_map(services).insert(v.name, v),
{
    let after = services.push(v);
    let expected = as_map(services).insert(v.name, v);
    assert forall|name: Seq<char>|
        (#[trigger] as_map(after).dom().contains(name)) == expected.dom().contains(name) && (
        expected.dom().contains(name) ==> as_map(after)[name] == expected[name]) by {
        lemma_position_of_name(services, name, 0);
        lemma_position_of_name(after, name, 0);
        let p = position_of_name(services, name, 0);
        let q = position_of_name(after, name, 0);
        if p < q && p < services.len() {
            assert(after[p].name == services[p].name);
        }
        if q < p {
            assert(after[q].name == services[q].name);
        }
        if name == v.name && q > services.len() {
            assert(after[services.len() as int].name == name);
        }
    }
    assert(as_map(after) =~= expected);
}

/// The models of a list of summaries, in order.
pub open spec fn service_views(services: Seq<ServiceStatus>) -> Seq<ServiceStatusView> {
    services.map_values(|s: ServiceStatus| s@)
}

/// No two summaries of the list bear the same name.
pub open spec fn names_differ(services: Seq<ServiceStatusView>) -> bool {
    forall|i: int, j: int|
        0 <= i < j < services.len() ==> (#[trigger] services[i]).name != (#[trigger] services[j]).name
}

/// A list of summaries with different names holds exactly what its map
/// holds.
pub proof fn lemma_lists_exactly(services: Seq<ServiceStatusView>)
    requires
        names_differ(services),
    ensures
        lists_exactly(services, as_map(services)),
{
    let state = as_map(services);
    assert forall|i: int| 0 <= i < services.len() implies state.dom().contains(
        (#[trigger] services[i]).name,
    ) && state[services[i].name] == services[i] by {
        lemma_position_of_name(services, services[i].name, 0);
        let p = position_of_name(services, services[i].name, 0);
        if p < i {
            assert(services[p].name != services[i].name);
        }
    }
    assert forall|name: Seq<char>| state.dom().contains(name) implies exists|i: int|
        0 <= i < services.len() && (#[trigger] services[i]).name == name by {
        lemma_position_of_name(services, name, 0);
        let p = position_of_name(services, name, 0);
        assert(services[p].name == name);
    }
}

/// Searches the summaries for the one of the service `name`.
fn find_service(services: &Vec<ServiceStatus>, name: &String) -> (r: usize)
    ensures
        r == position_of_name(service_views(services@), name@, 0),
        r <= services.len(),
{
    let ghost views = service_views(services@);
    let mut i: usize = 0;
    while i < services.len() && services[i].name != *name
        invariant
            i <= services.len(),
            views == service_views(services@),
            position_of_name(views, name@, 0) == position_of_name(views, name@, i as int),
        decreases services.len() - i,
    {
        i += 1;
    }
    i
}

/// The state store: the summary of every service that has reported a result.
pub struct AppState {
    services: Vec<ServiceStatus>,
}

impl View for AppState {
    type V = StoreView;

    closed spec fn view(&self) -> StoreView {
        as_map(service_views(self.services@))
    }
}

impl AppState {
    /// What holds of every store: every summary is the one that its checks
    /// give, and every service has one summary only.
    #[verifier::type_invariant]
    closed spec fn wf(&self) -> bool {
        &&& names_differ(service_views(self.services@))
        &&& forall|i: int|
            0 <= i < self.services.len() ==> (#[trigger] service_views(self.services@)[i]).wf()
    }

    /// In a well-formed store every summary is well formed and is kept under
    /// its own name.
    proof fn lemma_wf(&self)
        requires
            self.wf(),
        ensures
            store_wf(self@),
    {
        let views = service_views(self.services@);
        assert forall|name: Seq<char>| self@.dom().contains(name) implies (#[trigger] self@[name]).wf()
            && self@[name].name == name by {
            lemma_position_of_name(views, name, 0);
            let p = position_of_name(views, name, 0);
            assert(views[p].wf());
        }
    }

    /// A store that knows no service.
    pub fn new() -> (r: Self)
        ensures
            r@ == Map::<Seq<char>, ServiceStatusView>::empty(),
            store_wf(r@),
    {
        let r = AppState { services: Vec::new() };
        assert(r@ =~= Map::<Seq<char>, ServiceStatusView>::empty());
        r
    }

    /// Whether the service `name` can take one more result.
    pub fn can_record(&self, name: &String) -> (r: bool)
        ensures
            r == has_room(self@, name@),
    {
        let i = find_service(&self.services, name);
        proof {
            use_type_invariant(self);
            lemma_position_of_name(service_views(self.services@), name@, 0);
        }
        if i < self.services.len() {
            self.services[i].total_checks < u64::MAX
        } else {
            true
        }
    }

    /// Counts one probe result in, as recorded at the time `now`.
    ///
    /// The summary of the service is created if this is its first result.
    /// Its URL is refreshed, the record of the check is updated or created,
    /// and the summary is folded anew from the records. No other service
    /// changes.
    pub fn record_result(
        &mut self,
        name: String,
        url: String,
        check_type: String,
        is_success: bool,
        response_time_ms: Option<u64>,
        message: String,
        interval_seconds: u64,
        now: i64,
    )
        requires
            has_room(old(self)@, name@),
        ensures
            store_wf(final(self)@),
            final(self)@ == recorded(
                old(self)@,
                (Sample {
                    service_name: name@,
                    url: url@,
                    check_type: check_type@,
                    success: is_success,
                    response_time_ms,
                    message: message@,
                    interval_seconds,
                    time: now,
                }),
            ),
    {
        let ghost s = Sample {
            service_name: name@,
            url: url@,
            check_type: check_type@,
            success: is_success,
            response_time_ms,
            message: message@,
            interval_seconds,
            time: now,
        };
        let ghost before = service_views(self.services@);
        proof {
            use_type_invariant(&*self);
            lemma_position_of_name(before, name@, 0);
        }
        // The summaries are taken out while they change: the store itself is
        // well formed at every moment.
        let mut services: Vec<ServiceStatus> = Vec::new();
        core::mem::swap(&mut self.services, &mut services);
        let i = find_service(&services, &name);
        if i == services.len() {
            let fresh = ServiceStatus::new(name, url.clone());
            services.push(fresh);
            assert(service_views(services@) =~= before.push(
                aggregate(s.service_name, s.url, Seq::empty()),
            ));
        }
        let ghost seeded = service_views(services@);
        assert(seeded[i as int].wf());
        services[i].record(
            url,
            check_type,
            is_success,
            response_time_ms,
            message,
            interval_seconds,
            now,
        );
        let ghost after = service_views(services@);
        let ghost summary = recorded_service(old(self)@, s);
        proof {
            assert(after =~= seeded.update(i as int, summary));
            if i < before.len() {
                assert(after =~= before.update(i as int, summary));
                lemma_as_map_update(before, i as int, summary);
            } else {
                assert(after =~= before.push(summary));
                lemma_as_map_push(before, summary);
            }
            assert forall|j: int, k: int| 0 <= j < k < after.len() implies (#[trigger] after[j]).name
                != (#[trigger] after[k]).name by {
                if k < before.len() {
                    assert(before[j].name != before[k].name);
                }
            }
            assert forall|j: int| 0 <= j < after.len() implies (#[trigger] after[j]).wf() by {
                if j != i {
                    assert(before[j].wf());
                }
            }
        }
        core::mem::swap(&mut self.services, &mut services);
        proof {
            self.lemma_wf();
        }
    }

    /// Counts one probe result in, as recorded now.
    ///
    /// Does what `record_result` does with the time that the clock gives.
    pub fn update_service_status(
        &mut self,
        name: String,
        url: String,
        check_type: String,
        is_success: bool,
        response_time_ms: Option<u64>,
        message: String,
        interval_seconds: u64,
    )
        requires
            has_room(old(self)@, name@),
        ensures
            store_wf(final(self)@),
            exists|time: i64|
                final(self)@ == #[trigger] recorded(
                    old(self)@,
                    (Sample {
                        service_name: name@,
                        url: url@,
                        check_type: check_type@,
                        success: is_success,
                        response_time_ms,
                        message: message@,
                        interval_seconds,
                        time,
                    }),
                ),
    {
        let now = now_millis();
        self.record_result(
            name,
            url,
            check_type,
            is_success,
            response_time_ms,
            message,
            interval_seconds,
            now,
        );
    }

    /// A copy of the summary of every known service, each once, in no
    /// promised order.
    pub fn get_all_services(&self) -> (r: Vec<ServiceStatus>)
        ensures
            store_wf(self@),
            lists_exactly(service_views(r@), self@),
            forall|i: int| 0 <= i < r.len() ==> (#[trigger] service_views(r@)[i]).wf(),
    {
        let ghost views = service_views(self.services@);
        proof {
            use_type_invariant(self);
        }
        let mut copy: Vec<ServiceStatus> = Vec::new();
        let mut i: usize = 0;
        while i < self.services.len()
            invariant
                i <= self.services.len(),
                views == service_views(self.services@),
                service_views(copy@) == views.take(i as int),
            decreases self.services.len() - i,
        {
            let ghost before = service_views(copy@);
            copy.push(self.services[i].clone());
            assert(service_views(copy@) =~= before.push(views[i as int]));
            assert(views.take(i + 1) =~= views.take(i as int).push(views[i as int]));
            i += 1;
        }
        proof {
            assert(views.take(i as int) =~= views);
            lemma_lists_exactly(views);
            self.lemma_wf();
        }
        copy
    }
}

} // verus!
