//! What the server answers from its state: the calendar feeds, a
//! schedule's lineage verdicts, and the lineage block of a state snapshot.

use vstd::prelude::*;
use crate::error::{IcalError, LineageError};
use crate::ical::feed::{
    deps_view, feed_name, feed_renderable, find_entry, lookup, render_calendar_feed, render_fits,
    FeedFilter,
};
use crate::lineage::check::{check_inputs, consuming, run_time, verdicts, Dependency, Satisfies};
use crate::lineage::store::InMemoryManifestStore;
use crate::model::{Contract, ContractRole, Run, RunStatus, Schedule};
use crate::server::state::{
    calendars_in, community_runs, contracts_in, same_calendar, sorted_schedules, State,
};
use crate::text::{push_str, str_eq};

verus! {

broadcast use vstd::string::group_string_axioms;

// ---------------------------------------------------------------------------
// Contracts of a schedule, producers of a schema
// ---------------------------------------------------------------------------

/// The contracts of schedule `sid`, in order.
pub open spec fn contracts_of(cs: Seq<Contract>, sid: Seq<char>) -> Seq<Contract>
    decreases cs.len(),
{
    if cs.len() == 0 {
        seq![]
    } else if cs.last().schedule_id@ == sid {
        contracts_of(cs.drop_last(), sid).push(cs.last())
    } else {
        contracts_of(cs.drop_last(), sid)
    }
}

/// The contracts of schedule `sid`, in order.
pub fn contracts_of_schedule(cs: &[Contract], sid: &str) -> (r: Vec<Contract>)
    ensures
        r@ == contracts_of(cs@, sid@),
{
    let mut r: Vec<Contract> = Vec::new();
    let mut i: usize = 0;
    while i < cs.len()
        invariant
            i <= cs@.len(),
            r@ == contracts_of(cs@.take(i as int), sid@),
        decreases cs@.len() - i,
    {
        assert(cs@.take(i + 1).drop_last() =~= cs@.take(i as int));
        if str_eq(cs[i].schedule_id.as_str(), sid) {
            r.push(cs[i].duplicate());
        }
        i = i + 1;
    }
    assert(cs@.take(cs@.len() as int) =~= cs@);
    r
}

/// Some contract consumes.
pub fn has_consumer(cs: &[Contract]) -> (b: bool)
    ensures
        b == (consuming(cs@).len() > 0),
{
    let mut i: usize = 0;
    let mut found = false;
    while i < cs.len()
        invariant
            i <= cs@.len(),
            found == (consuming(cs@.take(i as int)).len() > 0),
        decreases cs@.len() - i,
    {
        assert(cs@.take(i + 1).drop_last() =~= cs@.take(i as int));
        if cs[i].role == ContractRole::Consume {
            found = true;
        }
        i = i + 1;
    }
    assert(cs@.take(cs@.len() as int) =~= cs@);
    found
}

/// The schedule of the first producing contract of `schema`.
pub open spec fn producer_for(cs: Seq<Contract>, schema: Seq<char>) -> Option<String>
    decreases cs.len(),
{
    if cs.len() == 0 {
        None
    } else if cs[0].role == ContractRole::Produce && cs[0].schema_id@ == schema {
        Some(cs[0].schedule_id)
    } else {
        producer_for(cs.drop_first(), schema)
    }
}

fn find_producer(cs: &[Contract], schema: &str) -> (r: Option<String>)
    ensures
        r == producer_for(cs@, schema@),
{
    let mut i: usize = 0;
    assert(cs@.skip(0) =~= cs@);
    while i < cs.len()
        invariant
            i <= cs@.len(),
            producer_for(cs@, schema@) == producer_for(cs@.skip(i as int), schema@),
        decreases cs@.len() - i,
    {
        assert(cs@.skip(i as int)[0] == cs@[i as int]);
        if cs[i].role == ContractRole::Produce && str_eq(cs[i].schema_id.as_str(), schema) {
            return Some(cs[i].schedule_id.clone());
        }
        assert(cs@.skip(i as int).drop_first() =~= cs@.skip(i + 1));
        i = i + 1;
    }
    None
}

/// The verdicts with their producers named from `cs`.
pub open spec fn with_producers(ds: Seq<Dependency>, cs: Seq<Contract>) -> Seq<Dependency> {
    ds.map_values(
        |d: Dependency|
            Dependency {
                schema_id: d.schema_id,
                producer_schedule_id: producer_for(cs, d.schema_id@),
                satisfied: d.satisfied,
            },
    )
}

/// Each verdict with its producer filled in: the schedule whose contract is
/// the first to produce the verdict's schema, if any.
pub fn name_producers(ds: Vec<Dependency>, cs: &[Contract]) -> (r: Vec<Dependency>)
    ensures
        r@ == with_producers(ds@, cs@),
{
    let mut r: Vec<Dependency> = Vec::new();
    let mut i: usize = 0;
    while i < ds.len()
        invariant
            i <= ds@.len(),
            r@ == with_producers(ds@.take(i as int), cs@),
        decreases ds@.len() - i,
    {
        let d = &ds[i];
        let p = find_producer(cs, d.schema_id.as_str());
        r.push(Dependency { schema_id: d.schema_id.clone(), producer_schedule_id: p, satisfied: d.satisfied });
        assert(r@ =~= with_producers(ds@.take(i + 1), cs@));
        i = i + 1;
    }
    assert(ds@.take(ds@.len() as int) =~= ds@);
    r
}

// ---------------------------------------------------------------------------
// Feeds
// ---------------------------------------------------------------------------

/// The lineage a feed shows for one schedule: where it has a consuming
/// contract and a run, the verdicts at that run's time, producers named.
pub open spec fn feed_dep_of(
    s: Schedule,
    runs: Seq<(String, Run)>,
    cs: Seq<Contract>,
    store: InMemoryManifestStore,
) -> Option<(String, Seq<Dependency>)> {
    let mine = contracts_of(cs, s.schedule_id@);
    if consuming(mine).len() > 0 {
        match lookup(runs, s.schedule_id@) {
            Some(run) => Some((s.schedule_id, with_producers(verdicts(&store, run_time(run), mine), cs))),
            None => None,
        }
    } else {
        None
    }
}

/// The lineage a feed shows, keyed by schedule id.
pub open spec fn feed_deps(
    ss: Seq<Schedule>,
    runs: Seq<(String, Run)>,
    cs: Seq<Contract>,
    store: InMemoryManifestStore,
) -> Seq<(String, Seq<Dependency>)> {
    ss.filter_map(|s: Schedule| feed_dep_of(s, runs, cs, store))
}

fn lineage_map(
    schedules: &Vec<Schedule>,
    runs: &Vec<(String, Run)>,
    contracts: &Vec<Contract>,
    store: &InMemoryManifestStore,
) -> (r: Vec<(String, Vec<Dependency>)>)
    ensures
        deps_view(r@) == feed_deps(schedules@, runs@, contracts@, *store),
{
    let mut r: Vec<(String, Vec<Dependency>)> = Vec::new();
    let mut i: usize = 0;
    while i < schedules.len()
        invariant
            i <= schedules@.len(),
            deps_view(r@) == feed_deps(schedules@.take(i as int), runs@, contracts@, *store),
        decreases schedules@.len() - i,
    {
        let s = &schedules[i];
        assert(schedules@.take(i + 1).drop_last() =~= schedules@.take(i as int));
        let mine = contracts_of_schedule(contracts.as_slice(), s.schedule_id.as_str());
        if has_consumer(mine.as_slice()) {
            match find_entry(runs.as_slice(), s.schedule_id.as_str()) {
                Some(run) => {
                    match check_inputs(store, run, mine.as_slice()) {
                        Ok(deps) => {
                            let named = name_producers(deps, contracts.as_slice());
                            let ghost before = r@;
                            r.push((s.schedule_id.clone(), named));
                            assert(deps_view(r@) =~= deps_view(before).push((s.schedule_id, named@)));
                        },
                        Err(_) => {},
                    }
                },
                None => {},
            }
        }
        i = i + 1;
    }
    assert(schedules@.take(schedules@.len() as int) =~= schedules@);
    r
}

/// The inputs a community's feed is rendered from: its schedules by id,
/// their latest runs, and their lineage.
pub open spec fn feed_inputs_renderable(state: State, community: Seq<char>, filter: FeedFilter) -> bool {
    feed_renderable(
        sorted_schedules(state.schedule_list(), community),
        community_runs(state.schedule_list(), state.run_list(), community),
        filter,
    )
}

/// Whether every event of a community's feed can be placed in time.
pub fn feed_fits(state: &State, community: &str, filter: FeedFilter) -> (b: bool)
    ensures
        b == feed_inputs_renderable(*state, community@, filter),
{
    let schedules = state.schedules_for(community);
    let runs = state.runs_for(community);
    render_fits(schedules.as_slice(), runs.as_slice(), filter)
}

/// The ICS feed of a community: its schedules (by id) with their latest
/// runs overlaid and, for consuming schedules that have a run, their lineage
/// verdicts with producers named; or the runs-only feed.
pub fn feed_for(state: &State, community: &str, filter: FeedFilter) -> (r: Result<String, IcalError>)
    requires
        feed_inputs_renderable(*state, community@, filter),
    ensures
        ({
            let ss = sorted_schedules(state.schedule_list(), community@);
            let runs = community_runs(state.schedule_list(), state.run_list(), community@);
            let deps = feed_deps(ss, runs, contracts_in(state.contract_log(), community@), state.store());
            let name = feed_name(calendars_in(state.calendar_log(), community@), community@);
            match filter {
                FeedFilter::Schedule => match r {
                    Ok(text) => crate::ical::feed::no_fault_before(ss, ss.len() as int) && text@
                        == crate::ical::ics::ics_text(
                        crate::ical::feed::feed_props(name),
                        crate::ical::feed::schedule_events(ss, runs, deps),
                    ),
                    Err(e) => exists|i: int|
                        0 <= i < ss.len() && crate::ical::feed::no_fault_before(ss, i) && (
                        #[trigger] crate::ical::event::schedule_fault(ss[i])) is Some
                            && crate::ical::event::is_rrule_error(
                            e,
                            ss[i].rrule@,
                            crate::ical::event::schedule_fault(ss[i])->0,
                        ),
                },
                FeedFilter::Runs => r matches Ok(text) && text@ == crate::ical::ics::ics_text(
                    crate::ical::feed::feed_props(name),
                    crate::ical::feed::run_events(ss, runs),
                ),
            }
        }),
{
    let schedules = state.schedules_for(community);
    let runs = state.runs_for(community);
    let calendars = state.calendars_for(community);
    let contracts = state.contracts_for(community);
    let deps = lineage_map(&schedules, &runs, &contracts, state.manifest_store());
    proof {
        let cl = calendars_in(state.calendar_log(), community@);
        if calendars@.len() > 0 {
            assert(same_calendar(calendars@[0], cl[0]));
        }
        assert(feed_name(calendars@, community@) == feed_name(cl, community@));
    }
    render_calendar_feed(
        schedules.as_slice(),
        runs.as_slice(),
        deps.as_slice(),
        calendars.as_slice(),
        filter,
        community,
    )
}

/// The schedule-only feed of a community: its recurring plans (by id), with
/// no run state and no lineage overlaid.
pub fn plan_feed_for(state: &State, community: &str) -> (r: Result<String, IcalError>)
    requires
        feed_inputs_renderable(*state, community@, FeedFilter::Schedule),
    ensures
        ({
            let ss = sorted_schedules(state.schedule_list(), community@);
            let name = feed_name(calendars_in(state.calendar_log(), community@), community@);
            match r {
                Ok(text) => crate::ical::feed::no_fault_before(ss, ss.len() as int) && text@
                    == crate::ical::ics::ics_text(
                    crate::ical::feed::feed_props(name),
                    crate::ical::feed::schedule_events(ss, seq![], seq![]),
                ),
                Err(e) => exists|i: int|
                    0 <= i < ss.len() && crate::ical::feed::no_fault_before(ss, i) && (
                    #[trigger] crate::ical::event::schedule_fault(ss[i])) is Some
                        && crate::ical::event::is_rrule_error(
                        e,
                        ss[i].rrule@,
                        crate::ical::event::schedule_fault(ss[i])->0,
                    ),
            }
        }),
{
    let schedules = state.schedules_for(community);
    let calendars = state.calendars_for(community);
    let runs: Vec<(String, Run)> = Vec::new();
    let deps: Vec<(String, Vec<Dependency>)> = Vec::new();
    proof {
        let cl = calendars_in(state.calendar_log(), community@);
        if calendars@.len() > 0 {
            assert(same_calendar(calendars@[0], cl[0]));
        }
        assert(feed_name(calendars@, community@) == feed_name(cl, community@));
        assert(deps_view(deps@) =~= Seq::<(String, Seq<Dependency>)>::empty());
        assert(runs@ =~= Seq::<(String, Run)>::empty());
    }
    render_calendar_feed(
        schedules.as_slice(),
        runs.as_slice(),
        deps.as_slice(),
        calendars.as_slice(),
        FeedFilter::Schedule,
        community,
    )
}

/// The schedule-only feed carries no run state: each event is its
/// recurring schedule's own VEVENT (`STATUS:TENTATIVE`, the schedule's own
/// `SUMMARY`), with no lineage links.
pub proof fn plan_feed_has_no_run_state(ss: Seq<Schedule>)
    ensures
        crate::ical::feed::schedule_events(ss, seq![], seq![]).len() == crate::ical::feed::recurring(ss).len(),
        forall|i: int|
            0 <= i < crate::ical::feed::recurring(ss).len() ==> (#[trigger] crate::ical::feed::schedule_events(
                ss,
                seq![],
                seq![],
            )[i]) == (crate::ical::event::schedule_props(crate::ical::feed::recurring(ss)[i]), Seq::<
                (Seq<char>, Seq<char>, Seq<char>, Seq<char>),
            >::empty()),
{
    crate::ical::feed::schedule_feed_shape(ss, seq![], seq![]);
    assert forall|i: int| 0 <= i < crate::ical::feed::recurring(ss).len() implies (
    #[trigger] crate::ical::feed::schedule_events(ss, seq![], seq![])[i]) == (
    crate::ical::event::schedule_props(crate::ical::feed::recurring(ss)[i]), Seq::<
        (Seq<char>, Seq<char>, Seq<char>, Seq<char>),
    >::empty()) by {
        let sch = crate::ical::feed::recurring(ss)[i];
        assert(crate::ical::feed::schedule_event(sch, seq![], seq![]).1 =~= Seq::<
            (Seq<char>, Seq<char>, Seq<char>, Seq<char>),
        >::empty());
    }
}

// ---------------------------------------------------------------------------
// Lineage answers
// ---------------------------------------------------------------------------

/// What the lineage query answers for one schedule.
pub enum LineageAnswer {
    /// The schedule has no contract in the community.
    NoContracts,
    /// The schedule has no run to check the inputs at.
    NoRun,
    /// The verdicts of its consuming contracts, producers named.
    Verdicts(Vec<Dependency>),
    /// The manifest store failed.
    Failed(LineageError),
}

/// A schedule's lineage at its latest run: no answer without contracts or
/// without a run; otherwise the verdicts of its consuming contracts, each
/// with the community's producer of its schema named.
pub fn lineage_for(state: &State, community: &str, schedule_id: &str) -> (r: LineageAnswer)
    ensures
        ({
            let cs = contracts_in(state.contract_log(), community@);
            let mine = contracts_of(cs, schedule_id@);
            let runs = community_runs(state.schedule_list(), state.run_list(), community@);
            if mine.len() == 0 {
                r is NoContracts
            } else {
                match lookup(runs, schedule_id@) {
                    None => r is NoRun,
                    Some(run) => r matches LineageAnswer::Verdicts(ds) && ds@ == with_producers(
                        verdicts(&state.store(), run_time(run), mine),
                        cs,
                    ),
                }
            }
        }),
{
    let contracts = state.contracts_for(community);
    let mine = contracts_of_schedule(contracts.as_slice(), schedule_id);
    if mine.len() == 0 {
        return LineageAnswer::NoContracts;
    }
    let runs = state.runs_for(community);
    let run = match find_entry(runs.as_slice(), schedule_id) {
        Some(run) => run,
        None => {
            return LineageAnswer::NoRun;
        },
    };
    match check_inputs(state.manifest_store(), run, mine.as_slice()) {
        Ok(deps) => LineageAnswer::Verdicts(name_producers(deps, contracts.as_slice())),
        Err(e) => LineageAnswer::Failed(e),
    }
}

/// The name of a verdict's state: `ready`, `missing` or `version_mismatch`.
pub open spec fn verdict_state_spec(s: Satisfies) -> Seq<char> {
    match s {
        Satisfies::Ready { .. } => "ready"@,
        Satisfies::Missing => "missing"@,
        Satisfies::VersionMismatch { .. } => "version_mismatch"@,
    }
}

/// The name of a verdict's state.
pub fn verdict_state(s: &Satisfies) -> (r: &'static str)
    ensures
        r@ == verdict_state_spec(*s),
{
    match s {
        Satisfies::Ready { .. } => "ready",
        Satisfies::Missing => "missing",
        Satisfies::VersionMismatch { .. } => "version_mismatch",
    }
}

/// Keeping only consuming contracts twice is keeping them once.
proof fn lemma_consuming_idempotent(cs: Seq<Contract>)
    ensures
        consuming(consuming(cs)) == consuming(cs),
    decreases cs.len(),
{
    if cs.len() > 0 {
        lemma_consuming_idempotent(cs.drop_last());
        if cs.last().role == ContractRole::Consume {
            let c = consuming(cs.drop_last()).push(cs.last());
            assert(c.drop_last() =~= consuming(cs.drop_last()));
        }
    }
}

/// The consuming contracts of schedule `sid`, in order.
pub fn consumers_of(cs: &[Contract], sid: &str) -> (r: Vec<Contract>)
    ensures
        r@ == consuming(contracts_of(cs@, sid@)),
{
    let mut r: Vec<Contract> = Vec::new();
    let mut i: usize = 0;
    while i < cs.len()
        invariant
            i <= cs@.len(),
            r@ == consuming(contracts_of(cs@.take(i as int), sid@)),
        decreases cs@.len() - i,
    {
        let ghost before = contracts_of(cs@.take(i as int), sid@);
        assert(cs@.take(i + 1).drop_last() =~= cs@.take(i as int));
        if str_eq(cs[i].schedule_id.as_str(), sid) {
            let ghost after = before.push(cs@[i as int]);
            assert(after.drop_last() =~= before);
            if cs[i].role == ContractRole::Consume {
                r.push(cs[i].duplicate());
            }
        }
        i = i + 1;
    }
    assert(cs@.take(cs@.len() as int) =~= cs@);
    r
}

/// The lineage block of a state snapshot for one schedule: where it has
/// consuming contracts, their verdicts at its latest run's time, or at `now`
/// where it has no run.
pub open spec fn snapshot_entry(
    s: Schedule,
    runs: Seq<(String, Run)>,
    cs: Seq<Contract>,
    store: InMemoryManifestStore,
    now: i64,
) -> Option<(String, Seq<Dependency>)> {
    let mine = consuming(contracts_of(cs, s.schedule_id@));
    if mine.len() == 0 {
        None
    } else {
        let t = match lookup(runs, s.schedule_id@) {
            Some(run) => run_time(run),
            None => now,
        };
        Some((s.schedule_id, verdicts(&store, t, mine)))
    }
}

/// The lineage block of a community's state snapshot, keyed by schedule id.
pub open spec fn snapshot_lineage_spec(state: State, community: Seq<char>, now: i64) -> Seq<(String, Seq<Dependency>)> {
    let ss = sorted_schedules(state.schedule_list(), community);
    let runs = community_runs(state.schedule_list(), state.run_list(), community);
    let cs = contracts_in(state.contract_log(), community);
    ss.filter_map(|s: Schedule| snapshot_entry(s, runs, cs, state.store(), now))
}

/// The lineage verdicts of every consuming schedule of a community, checked
/// at its latest run, or at `now` (a pending view run) where it has none.
pub fn snapshot_lineage(state: &State, community: &str, now: i64) -> (r: Vec<(String, Vec<Dependency>)>)
    ensures
        deps_view(r@) == snapshot_lineage_spec(*state, community@, now),
{
    let schedules = state.schedules_for(community);
    let runs = state.runs_for(community);
    let contracts = state.contracts_for(community);
    let store = state.manifest_store();
    let ghost entry = |s: Schedule| snapshot_entry(s, runs@, contracts@, *store, now);
    let mut r: Vec<(String, Vec<Dependency>)> = Vec::new();
    let mut i: usize = 0;
    while i < schedules.len()
        invariant
            i <= schedules@.len(),
            entry == (|s: Schedule| snapshot_entry(s, runs@, contracts@, *store, now)),
            deps_view(r@) == schedules@.take(i as int).filter_map(entry),
        decreases schedules@.len() - i,
    {
        let s = &schedules[i];
        assert(schedules@.take(i + 1).drop_last() =~= schedules@.take(i as int));
        let mine = consumers_of(contracts.as_slice(), s.schedule_id.as_str());
        if mine.len() != 0 {
            let view_run;
            let run: &Run = match find_entry(runs.as_slice(), s.schedule_id.as_str()) {
                Some(run) => run,
                None => {
                    let mut id = "view-".to_owned();
                    push_str(&mut id, s.schedule_id.as_str());
                    view_run = Run {
                        run_id: id,
                        schedule_id: s.schedule_id.clone(),
                        scheduled_for: now,
                        started_at: Some(now),
                        finished_at: None,
                        status: RunStatus::Pending,
                        error: None,
                    };
                    &view_run
                },
            };
            proof {
                lemma_consuming_idempotent(contracts_of(contracts@, s.schedule_id@));
            }
            match check_inputs(store, run, mine.as_slice()) {
                Ok(deps) => {
                    let ghost before = r@;
                    r.push((s.schedule_id.clone(), deps));
                    assert(deps_view(r@) =~= deps_view(before).push(entry(*s)->0));
                },
                Err(_) => {},
            }
        }
        i = i + 1;
    }
    assert(schedules@.take(schedules@.len() as int) =~= schedules@);
    r
}

} // verus!
