//! Calendar feed rendering: an ordered list of VEVENTs under one calendar
//! name.

use vstd::prelude::*;
use crate::error::IcalError;
use crate::ical::event::{
    appended_description, is_rrule_error, lemma_event_keys, lemma_overlay_keys,
    overlay_props, overlay_sets_status, run_fits, schedule_fits, schedule_has_fault, status_spec,
    status_value, uid_spec, overlay_run_status, render_run_vevent,
    render_schedule_vevent, run_base_props, run_renderable, schedule_fault, schedule_props,
    schedule_renderable, is_webhook, schedule_is_webhook,
};
use crate::ical::ics::{
    calendar_append, calendar_events, calendar_name, calendar_new, calendar_plain, calendar_props,
    calendar_push, calendar_text, event_multi, event_props, ics_text,
};
use crate::ical::related::{
    deps_block, related_entry, render_dependency, satisfies_of, Dependency as RenderDependency,
    Satisfies,
};
use crate::lineage::check::Dependency;
use crate::model::{Calendar as CalendarMeta, Run, Schedule};

verus! {

/// Which slice of the calendar to render.
#[derive(Debug, Clone, Copy, PartialEq, Eq, Structural)]
pub enum FeedFilter {
    /// Recurring schedules, with the latest run state overlaid where runs
    /// are given (the default). Webhook-triggered schedules are left out.
    Schedule,
    /// One-off events per concrete run (no RRULE).
    Runs,
}

impl Default for FeedFilter {
    fn default() -> (f: Self)
        ensures
            f == FeedFilter::Schedule,
    {
        FeedFilter::Schedule
    }
}

/// The value stored under the first entry with key `k`, if any.
pub open spec fn lookup<V>(m: Seq<(String, V)>, k: Seq<char>) -> Option<V>
    decreases m.len(),
{
    if m.len() == 0 {
        None
    } else if m[0].0@ == k {
        Some(m[0].1)
    } else {
        lookup(m.drop_first(), k)
    }
}

/// The first entry of `m` with key `k` (what a map keyed by `k` holds).
pub fn find_entry<'a, V>(m: &'a [(String, V)], k: &str) -> (r: Option<&'a V>)
    ensures
        match r {
            Some(v) => lookup(m@, k@) == Some(*v),
            None => lookup(m@, k@) is None,
        },
{
    let mut i: usize = 0;
    assert(m@.skip(0) =~= m@);
    while i < m.len()
        invariant
            i <= m@.len(),
            lookup(m@, k@) == lookup(m@.skip(i as int), k@),
        decreases m@.len() - i,
    {
        if crate::text::str_eq(m[i].0.as_str(), k) {
            return Some(&m[i].1);
        }
        assert(m@.skip(i as int).drop_first() =~= m@.skip(i + 1));
        i = i + 1;
    }
    None
}

/// The rendered form of a lineage verdict that names its producer.
pub open spec fn render_dep_of(d: Dependency) -> Option<RenderDependency> {
    match d.producer_schedule_id {
        Some(pid) => Some(
            RenderDependency {
                producer_schedule_id: pid,
                schema_id: d.schema_id,
                satisfied: satisfies_of(d.satisfied),
            },
        ),
        None => None,
    }
}

/// The verdicts that can be rendered: those whose producer is known.
pub open spec fn render_deps(ds: Seq<Dependency>) -> Seq<RenderDependency> {
    ds.filter_map(|d: Dependency| render_dep_of(d))
}

fn render_deps_of(ds: &Vec<Dependency>) -> (r: Vec<RenderDependency>)
    ensures
        r@ == render_deps(ds@),
{
    let mut r: Vec<RenderDependency> = Vec::new();
    let mut i: usize = 0;
    assert(ds@.take(0).filter_map(|d: Dependency| render_dep_of(d)) =~= Seq::<RenderDependency>::empty());
    while i < ds.len()
        invariant
            i <= ds@.len(),
            r@ == ds@.take(i as int).filter_map(|d: Dependency| render_dep_of(d)),
        decreases ds@.len() - i,
    {
        let d = &ds[i];
        assert(ds@.take(i + 1).drop_last() =~= ds@.take(i as int));
        if let Some(pid) = &d.producer_schedule_id {
            r.push(
                RenderDependency {
                    producer_schedule_id: pid.clone(),
                    schema_id: d.schema_id.clone(),
                    satisfied: Satisfies::from_lineage(&d.satisfied),
                },
            );
        }
        i = i + 1;
    }
    assert(ds@.take(ds@.len() as int) =~= ds@);
    r
}

/// The verdict lists of an association list, by their views.
pub open spec fn deps_view(m: Seq<(String, Vec<Dependency>)>) -> Seq<(String, Seq<Dependency>)> {
    m.map_values(|p: (String, Vec<Dependency>)| (p.0, p.1@))
}

/// Looking up in the views is looking up and taking the view.
pub proof fn lemma_lookup_view(m: Seq<(String, Vec<Dependency>)>, k: Seq<char>)
    ensures
        lookup(deps_view(m), k) == match lookup(m, k) {
            Some(v) => Some(v@),
            None => None,
        },
    decreases m.len(),
{
    if m.len() > 0 {
        assert(deps_view(m).drop_first() =~= deps_view(m.drop_first()));
        lemma_lookup_view(m.drop_first(), k);
    }
}

/// An event by its two models: properties and multi-valued properties.
pub type EventModel = (Map<Seq<char>, Seq<char>>, Seq<(Seq<char>, Seq<char>, Seq<char>, Seq<char>)>);

/// A schedule's event in the schedule feed: its VEVENT, with its latest run
/// overlaid where there is one, and its rendered dependencies where there
/// are any.
pub open spec fn schedule_event(
    s: Schedule,
    runs: Seq<(String, Run)>,
    deps: Seq<(String, Seq<Dependency>)>,
) -> EventModel {
    let p0 = schedule_props(s);
    let p1 = match lookup(runs, s.schedule_id@) {
        Some(r) => overlay_props(p0, r),
        None => p0,
    };
    match lookup(deps, s.schedule_id@) {
        Some(ds) => {
            let rd = render_deps(ds);
            if rd.len() == 0 {
                (p1, seq![])
            } else {
                (
                    appended_description(p1, deps_block(rd)),
                    rd.map_values(|d: RenderDependency| related_entry(d)),
                )
            }
        },
        None => (p1, seq![]),
    }
}

/// A schedule's entry in the schedule feed: none for a webhook-triggered
/// schedule, whose work shows on the runs feed only.
pub open spec fn schedule_entry(
    s: Schedule,
    runs: Seq<(String, Run)>,
    deps: Seq<(String, Seq<Dependency>)>,
) -> Option<EventModel> {
    if is_webhook(s) {
        None
    } else {
        Some(schedule_event(s, runs, deps))
    }
}

/// The events of the schedule feed, one per recurring schedule, in order.
pub open spec fn schedule_events(
    ss: Seq<Schedule>,
    runs: Seq<(String, Run)>,
    deps: Seq<(String, Seq<Dependency>)>,
) -> Seq<EventModel> {
    ss.filter_map(|s: Schedule| schedule_entry(s, runs, deps))
}

/// A schedule's event in the runs feed: its latest run's one-off event, if
/// it has a run.
pub open spec fn run_event_of(s: Schedule, runs: Seq<(String, Run)>) -> Option<EventModel> {
    match lookup(runs, s.schedule_id@) {
        Some(r) => Some((overlay_props(run_base_props(r, s.summary@, is_webhook(s)), r), seq![])),
        None => None,
    }
}

/// The events of the runs feed: one per schedule that has a run, in order.
pub open spec fn run_events(ss: Seq<Schedule>, runs: Seq<(String, Run)>) -> Seq<EventModel> {
    ss.filter_map(|s: Schedule| run_event_of(s, runs))
}

/// The calendar's display name: the first calendar's name, else the
/// community's.
pub open spec fn feed_name(calendars: Seq<CalendarMeta>, community: Seq<char>) -> Seq<char> {
    if calendars.len() > 0 {
        calendars[0].name@
    } else {
        community
    }
}

/// The feed's top-level properties.
pub open spec fn feed_props(name: Seq<char>) -> Seq<(Seq<char>, Seq<char>)> {
    seq![
        ("VERSION"@, "2.0"@),
        ("PRODID"@, "ICALENDAR-RS"@),
        ("CALSCALE"@, "GREGORIAN"@),
        ("NAME"@, name),
        ("X-WR-CALNAME"@, name),
        ("X-WR-CALDESC"@, "Agent schedules and artifact lineage — rendered by Almanac."@),
        ("X-WR-TIMEZONE"@, "UTC"@),
    ]
}

/// No schedule before index `i` has an RRULE fault.
pub open spec fn no_fault_before(ss: Seq<Schedule>, i: int) -> bool {
    forall|j: int| 0 <= j < i ==> (#[trigger] schedule_fault(ss[j])) is None
}

/// Every event the feed would render can be placed in time by chrono.
pub open spec fn feed_renderable(
    ss: Seq<Schedule>,
    runs: Seq<(String, Run)>,
    filter: FeedFilter,
) -> bool {
    match filter {
        FeedFilter::Schedule => forall|i: int|
            0 <= i < ss.len() && no_fault_before(ss, i) && !is_webhook(ss[i]) ==> schedule_renderable(
                #[trigger] ss[i],
            ),
        FeedFilter::Runs => forall|i: int|
            0 <= i < ss.len() ==> match lookup(runs, (#[trigger] ss[i]).schedule_id@) {
                Some(r) => run_renderable(r),
                None => true,
            },
    }
}

/// The recurring (not webhook-triggered) schedules of `ss`, in order.
pub open spec fn recurring(ss: Seq<Schedule>) -> Seq<Schedule> {
    ss.filter(|s: Schedule| !is_webhook(s))
}

/// A schedule's event carries the schedule's `UID`; with a run it shows the
/// run's status, without one it stays `TENTATIVE`.
pub proof fn schedule_event_shape(
    s: Schedule,
    runs: Seq<(String, Run)>,
    deps: Seq<(String, Seq<Dependency>)>,
)
    ensures
        schedule_event(s, runs, deps).0["UID"@] == uid_spec(s.schedule_id@),
        schedule_event(s, runs, deps).0["STATUS"@] == match lookup(runs, s.schedule_id@) {
            Some(r) => status_value(status_spec(r.status)),
            None => "TENTATIVE"@,
        },
{
    lemma_overlay_keys();
    lemma_event_keys();
    let p0 = schedule_props(s);
    assert(p0["UID"@] == uid_spec(s.schedule_id@));
    assert(p0["STATUS"@] == "TENTATIVE"@);
    match lookup(runs, s.schedule_id@) {
        Some(r) => {
            overlay_sets_status(p0, r);
        },
        None => {},
    }
}

/// The schedule feed has exactly one event per recurring schedule, in
/// order, and none for a webhook-triggered schedule; each event carries its
/// schedule's `UID` and shows its latest run's status, or `TENTATIVE`.
pub proof fn schedule_feed_shape(
    ss: Seq<Schedule>,
    runs: Seq<(String, Run)>,
    deps: Seq<(String, Seq<Dependency>)>,
)
    ensures
        schedule_events(ss, runs, deps) == recurring(ss).map_values(
            |s: Schedule| schedule_event(s, runs, deps),
        ),
        forall|i: int|
            0 <= i < recurring(ss).len() ==> (#[trigger] schedule_events(ss, runs, deps)[i]).0["UID"@]
                == uid_spec(recurring(ss)[i].schedule_id@),
        forall|i: int|
            0 <= i < recurring(ss).len() ==> (#[trigger] schedule_events(ss, runs, deps)[i]).0["STATUS"@]
                == match lookup(runs, recurring(ss)[i].schedule_id@) {
                Some(r) => status_value(status_spec(r.status)),
                None => "TENTATIVE"@,
            },
    decreases ss.len(),
{
    if ss.len() > 0 {
        let rest = ss.drop_last();
        let x = ss.last();
        schedule_feed_shape(rest, runs, deps);
        let f = |s: Schedule| schedule_event(s, runs, deps);
        reveal(Seq::filter);
        assert(recurring(ss) == if !is_webhook(x) {
            recurring(rest).push(x)
        } else {
            recurring(rest)
        });
        if is_webhook(x) {
            assert(schedule_events(ss, runs, deps) == schedule_events(rest, runs, deps));
        } else {
            assert(schedule_events(ss, runs, deps) == schedule_events(rest, runs, deps) + seq![
                schedule_event(x, runs, deps),
            ]);
            assert(recurring(rest).push(x).map_values(f) =~= recurring(rest).map_values(f) + seq![f(x)]);
        }
        assert(schedule_events(ss, runs, deps) =~= recurring(ss).map_values(
            |s: Schedule| schedule_event(s, runs, deps),
        ));
    } else {
        reveal(Seq::filter);
        assert(schedule_events(ss, runs, deps) =~= recurring(ss).map_values(
            |s: Schedule| schedule_event(s, runs, deps),
        ));
    }
    assert forall|i: int| 0 <= i < recurring(ss).len() implies {
        let ev = #[trigger] schedule_events(ss, runs, deps)[i];
        &&& ev.0["UID"@] == uid_spec(recurring(ss)[i].schedule_id@)
        &&& ev.0["STATUS"@] == match lookup(runs, recurring(ss)[i].schedule_id@) {
            Some(r) => status_value(status_spec(r.status)),
            None => "TENTATIVE"@,
        }
    } by {
        schedule_event_shape(recurring(ss)[i], runs, deps);
    }
}

proof fn lemma_recurring_from(ss: Seq<Schedule>)
    ensures
        forall|i: int|
            0 <= i < recurring(ss).len() ==> !is_webhook(#[trigger] recurring(ss)[i]) && exists|j: int|
                0 <= j < ss.len() && ss[j] == recurring(ss)[i],
    decreases ss.len(),
{
    reveal(Seq::filter);
    if ss.len() > 0 {
        let rest = ss.drop_last();
        lemma_recurring_from(rest);
        assert forall|i: int| 0 <= i < recurring(ss).len() implies !is_webhook(#[trigger] recurring(ss)[i])
            && exists|j: int| 0 <= j < ss.len() && ss[j] == recurring(ss)[i] by {
            if i < recurring(rest).len() {
                assert(recurring(ss)[i] == recurring(rest)[i]);
                let j = choose|j: int| 0 <= j < rest.len() && rest[j] == recurring(rest)[i];
                assert(ss[j] == rest[j]);
            } else {
                assert(recurring(ss)[i] == ss.last());
                assert(ss[ss.len() - 1] == ss.last());
            }
        }
    }
}

/// Where schedule ids are distinct, no event of the schedule feed carries
/// the `UID` of a webhook-triggered schedule: its work shows on the runs
/// feed only.
pub proof fn schedule_feed_skips_webhooks(
    ss: Seq<Schedule>,
    runs: Seq<(String, Run)>,
    deps: Seq<(String, Seq<Dependency>)>,
    w: int,
)
    requires
        0 <= w < ss.len(),
        is_webhook(ss[w]),
        forall|j: int, k: int| 0 <= j < ss.len() && 0 <= k < ss.len() && j != k ==> (#[trigger] ss[j]).schedule_id@
            != (#[trigger] ss[k]).schedule_id@,
    ensures
        forall|i: int|
            0 <= i < schedule_events(ss, runs, deps).len() ==> (#[trigger] schedule_events(ss, runs, deps)[i]).0["UID"@]
                != uid_spec(ss[w].schedule_id@),
{
    schedule_feed_shape(ss, runs, deps);
    lemma_recurring_from(ss);
    assert forall|i: int| 0 <= i < schedule_events(ss, runs, deps).len() implies (
    #[trigger] schedule_events(ss, runs, deps)[i]).0["UID"@] != uid_spec(ss[w].schedule_id@) by {
        let r = recurring(ss)[i];
        let j = choose|j: int| 0 <= j < ss.len() && ss[j] == r;
        assert(j != w);
        let a = r.schedule_id@;
        let b = ss[w].schedule_id@;
        if uid_spec(a) == uid_spec(b) {
            assert(a =~= uid_spec(a).take(a.len() as int));
            assert(b =~= uid_spec(b).take(b.len() as int));
        }
    }
}

/// A run's event in the runs feed is in the `webhook` category exactly
/// when its schedule is webhook-triggered.
pub proof fn runs_feed_categories(s: Schedule, runs: Seq<(String, Run)>)
    ensures
        run_event_of(s, runs) matches Some(e) ==> e.0["CATEGORIES"@] == crate::ical::event::run_categories(
            is_webhook(s),
        ),
{
    reveal_strlit("CATEGORIES");
    reveal_strlit("SUMMARY");
    reveal_strlit("STATUS");
    reveal_strlit("DESCRIPTION");
    assert("CATEGORIES"@.len() == 10);
    assert("SUMMARY"@.len() == 7);
    assert("STATUS"@.len() == 6);
    assert("DESCRIPTION"@.len() == 11);
    match lookup(runs, s.schedule_id@) {
        Some(r) => {
            let p = run_base_props(r, s.summary@, is_webhook(s));
            assert(p["CATEGORIES"@] == crate::ical::event::run_categories(is_webhook(s)));
            overlay_sets_status(p, r);
        },
        None => {},
    }
}

/// The `UID` of a run's one-off event.
pub open spec fn run_uid(r: Run) -> Seq<char> {
    r.run_id@ + "@almanac.run"@
}

/// Some schedule in `ss` has a run whose event carries `uid`.
pub open spec fn is_run_uid(ss: Seq<Schedule>, runs: Seq<(String, Run)>, uid: Seq<char>) -> bool {
    exists|j: int|
        0 <= j < ss.len() && match lookup(runs, (#[trigger] ss[j]).schedule_id@) {
            Some(r) => run_uid(r) == uid,
            None => false,
        }
}

/// The runs feed only holds runs: at most one event per schedule, each the
/// one-off event of some schedule's run.
pub proof fn runs_feed_only_runs(ss: Seq<Schedule>, runs: Seq<(String, Run)>)
    ensures
        run_events(ss, runs).len() <= ss.len(),
        forall|i: int|
            0 <= i < run_events(ss, runs).len() ==> is_run_uid(
                ss,
                runs,
                (#[trigger] run_events(ss, runs)[i]).0["UID"@],
            ),
    decreases ss.len(),
{
    lemma_overlay_keys();
    lemma_event_keys();
    if ss.len() > 0 {
        let rest = ss.drop_last();
        runs_feed_only_runs(rest, runs);
        let evs = run_events(ss, runs);
        let prev = run_events(rest, runs);
        assert forall|i: int| 0 <= i < evs.len() implies is_run_uid(ss, runs, (#[trigger] evs[i]).0["UID"@]) by {
            if i < prev.len() {
                assert(evs[i] == prev[i]);
                let u = prev[i].0["UID"@];
                let j = choose|j: int|
                    0 <= j < rest.len() && match lookup(runs, (#[trigger] rest[j]).schedule_id@) {
                        Some(r) => run_uid(r) == u,
                        None => false,
                    };
                assert(rest[j] == ss[j]);
            } else {
                let s = ss.last();
                let r = lookup(runs, s.schedule_id@)->0;
                let p = run_base_props(r, s.summary@, is_webhook(s));
                assert(p["UID"@] == run_uid(r));
                overlay_sets_status(p, r);
                assert(ss[ss.len() - 1] == s);
            }
        }
    }
}

/// Whether every event the feed would render can be placed in time (see
/// [`feed_renderable`]).
pub fn render_fits(schedules: &[Schedule], runs: &[(String, Run)], filter: FeedFilter) -> (b: bool)
    ensures
        b == feed_renderable(schedules@, runs@, filter),
{
    let mut i: usize = 0;
    match filter {
        FeedFilter::Schedule => {
            let mut clean = true;
            while i < schedules.len()
                invariant
                    i <= schedules@.len(),
                    filter == FeedFilter::Schedule,
                    clean == no_fault_before(schedules@, i as int),
                    forall|j: int|
                        0 <= j < i && no_fault_before(schedules@, j) && !is_webhook(schedules@[j])
                            ==> schedule_renderable(#[trigger] schedules@[j]),
                decreases schedules@.len() - i,
            {
                if clean && !schedule_is_webhook(&schedules[i]) && !schedule_fits(&schedules[i]) {
                    return false;
                }
                if schedule_has_fault(&schedules[i]) {
                    clean = false;
                }
                proof {
                    if !clean {
                        assert(!no_fault_before(schedules@, i + 1)) by {
                            if no_fault_before(schedules@, i as int) {
                                assert(schedule_fault(schedules@[i as int]) is Some);
                            } else {
                                let j = choose|j: int| 0 <= j < i && !((#[trigger] schedule_fault(schedules@[j])) is None);
                                assert(schedule_fault(schedules@[j]) is Some);
                            }
                        }
                    }
                    assert forall|j: int| 0 <= j < i + 1 && no_fault_before(schedules@, j) && !is_webhook(schedules@[j]) implies schedule_renderable(
                        #[trigger] schedules@[j],
                    ) by {
                        if j == i {
                        }
                    }
                }
                i = i + 1;
            }
            true
        },
        FeedFilter::Runs => {
            while i < schedules.len()
                invariant
                    i <= schedules@.len(),
                    filter == FeedFilter::Runs,
                    forall|j: int|
                        0 <= j < i ==> match lookup(runs@, (#[trigger] schedules@[j]).schedule_id@) {
                            Some(r) => run_renderable(r),
                            None => true,
                        },
                decreases schedules@.len() - i,
            {
                match find_entry(runs, &schedules[i].schedule_id) {
                    Some(run) => {
                        if !run_fits(run) {
                            return false;
                        }
                    },
                    None => {},
                }
                i = i + 1;
            }
            true
        },
    }
}

/// Render a full ICS feed for a set of schedules, their latest runs
/// (`schedule_id` to run), their lineage verdicts (`schedule_id` to
/// verdicts) and the calendars in scope.
///
/// The schedule feed has one event per schedule, in order; it fails with
/// the first schedule whose RRULE is malformed. The runs feed has one
/// event per schedule that has a run.
pub fn render_calendar_feed(
    schedules: &[Schedule],
    runs: &[(String, Run)],
    deps: &[(String, Vec<Dependency>)],
    calendars: &[CalendarMeta],
    filter: FeedFilter,
    community_name: &str,
) -> (r: Result<String, IcalError>)
    requires
        feed_renderable(schedules@, runs@, filter),
    ensures
        match filter {
            FeedFilter::Schedule => match r {
                Ok(text) => no_fault_before(schedules@, schedules@.len() as int) && text@
                    == ics_text(
                    feed_props(feed_name(calendars@, community_name@)),
                    schedule_events(schedules@, runs@, deps_view(deps@)),
                ),
                Err(e) => exists|i: int|
                    0 <= i < schedules@.len() && no_fault_before(schedules@, i) && (
                    #[trigger] schedule_fault(schedules@[i])) is Some && is_rrule_error(
                        e,
                        schedules@[i].rrule@,
                        schedule_fault(schedules@[i])->0,
                    ),
            },
            FeedFilter::Runs => r matches Ok(text) && text@ == ics_text(
                feed_props(feed_name(calendars@, community_name@)),
                run_events(schedules@, runs@),
            ),
        },
{
    let name: &str = if calendars.len() > 0 {
        calendars[0].name.as_str()
    } else {
        community_name
    };
    let mut cal = calendar_new();
    calendar_name(&mut cal, name);
    calendar_append(
        &mut cal,
        "X-WR-CALDESC",
        "Agent schedules and artifact lineage — rendered by Almanac.",
    );
    calendar_append(&mut cal, "X-WR-TIMEZONE", "UTC");
    let ghost props = feed_props(feed_name(calendars@, community_name@));
    assert(calendar_props(cal) =~= props);
    match filter {
        FeedFilter::Schedule => {
            let mut i: usize = 0;
            while i < schedules.len()
                invariant
                    i <= schedules@.len(),
                    feed_renderable(schedules@, runs@, filter),
                    filter == FeedFilter::Schedule,
                    no_fault_before(schedules@, i as int),
                    calendar_props(cal) == props,
                    calendar_plain(cal),
                    calendar_events(cal) == schedule_events(schedules@.take(i as int), runs@, deps_view(deps@)),
                    crate::ical::ics::all_stamped(calendar_events(cal)),
                decreases schedules@.len() - i,
            {
                let s = &schedules[i];
                proof {
                    assert(schedules@.take(i + 1).drop_last() =~= schedules@.take(i as int));
                    assert(schedules@.take(i + 1).last() == *s);
                }
                if schedule_is_webhook(s) {
                    proof {
                        assert(schedule_events(schedules@.take(i + 1), runs@, deps_view(deps@)) =~= schedule_events(
                            schedules@.take(i as int),
                            runs@,
                            deps_view(deps@),
                        ));
                        assert forall|j: int| 0 <= j < i + 1 implies (#[trigger] schedule_fault(
                            schedules@[j],
                        )) is None by {
                            if j == i {
                            }
                        }
                    }
                    i = i + 1;
                    continue;
                }
                let mut event = match render_schedule_vevent(s) {
                    Ok(e) => e,
                    Err(e) => {
                        return Err(e);
                    },
                };
                let ghost p0 = event_props(event);
                match find_entry(runs, &s.schedule_id) {
                    Some(run) => overlay_run_status(&mut event, Some(run)),
                    None => {},
                }
                proof {
                    lemma_lookup_view(deps@, s.schedule_id@);
                }
                match find_entry(deps, &s.schedule_id) {
                    Some(ds) => {
                        let rd = render_deps_of(ds);
                        render_dependency(&mut event, &rd);
                    },
                    None => {},
                }
                assert(event_props(event) == schedule_event(*s, runs@, deps_view(deps@)).0);
                assert(event_multi(event) =~= schedule_event(*s, runs@, deps_view(deps@)).1);
                calendar_push(&mut cal, event);
                proof {
                    assert(schedule_events(schedules@.take(i + 1), runs@, deps_view(deps@)) =~= schedule_events(
                        schedules@.take(i as int),
                        runs@,
                        deps_view(deps@),
                    ) + seq![schedule_event(*s, runs@, deps_view(deps@))]);
                    assert forall|j: int| 0 <= j < i + 1 implies (#[trigger] schedule_fault(
                        schedules@[j],
                    )) is None by {
                        if j == i {
                        }
                    }
                }
                i = i + 1;
            }
            assert(schedules@.take(schedules@.len() as int) =~= schedules@);
            Ok(calendar_text(&cal))
        },
        FeedFilter::Runs => {
            let mut i: usize = 0;
            while i < schedules.len()
                invariant
                    i <= schedules@.len(),
                    feed_renderable(schedules@, runs@, filter),
                    filter == FeedFilter::Runs,
                    calendar_props(cal) == props,
                    calendar_plain(cal),
                    calendar_events(cal) == run_events(schedules@.take(i as int), runs@),
                    crate::ical::ics::all_stamped(calendar_events(cal)),
                decreases schedules@.len() - i,
            {
                let s = &schedules[i];
                let ghost t = schedules@.take(i + 1);
                assert(t.drop_last() =~= schedules@.take(i as int));
                assert(t.last() == *s);
                let ghost before = calendar_events(cal);
                match find_entry(runs, &s.schedule_id) {
                    Some(run) => {
                        let webhook = schedule_is_webhook(s);
                        let event = match render_run_vevent(run, &s.summary, webhook) {
                            Ok(e) => e,
                            Err(e) => {
                                return Err(e);
                            },
                        };
                        assert(event_multi(event) =~= Seq::<(Seq<char>, Seq<char>, Seq<char>, Seq<char>)>::empty());
                        calendar_push(&mut cal, event);
                        assert(calendar_events(cal) =~= before + seq![run_event_of(*s, runs@)->0]);
                    },
                    None => {},
                }
                i = i + 1;
            }
            assert(schedules@.take(schedules@.len() as int) =~= schedules@);
            Ok(calendar_text(&cal))
        },
    }
}

} // verus!
