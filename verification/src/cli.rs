//! What the command-line tool computes: contract declarations, lineage
//! reports, the lineage endpoint's URL and the demo feed.

use vstd::prelude::*;
use crate::config::{trim_end_char, trimmed_base, Config};
use crate::error::IcalError;
use crate::ical::feed::{
    deps_view, feed_name, feed_props, find_entry, lookup, no_fault_before, render_calendar_feed,
    schedule_events, FeedFilter,
};
use crate::ical::event::{is_rrule_error, schedule_fault};
use crate::ical::ics::{ics_parse, ics_text, parse_ics};
use crate::kinds::KIND_ALMANAC_CONTRACT;
use crate::lineage::check::{check_inputs, run_time, verdicts, Dependency};
use crate::mcp::{or_text, verdict_mark, verdict_mark_spec};
use crate::model::{Contract, ContractRole};
use crate::server::state::{calendars_in, community_runs, contracts_in, same_calendar, sorted_schedules, State};
use crate::server::views::{contracts_of, contracts_of_schedule, feed_inputs_renderable};
use crate::text::{dec, push_str, push_u64};

verus! {

broadcast use vstd::string::group_string_axioms;

/// The word a contract role is written as.
pub open spec fn role_word(role: ContractRole) -> Seq<char> {
    match role {
        ContractRole::Produce => "produce"@,
        ContractRole::Consume => "consume"@,
    }
}

/// The word a contract role is written as: `produce` or `consume`.
pub fn role_as_str(role: ContractRole) -> (w: &'static str)
    ensures
        w@ == role_word(role),
{
    match role {
        ContractRole::Produce => "produce",
        ContractRole::Consume => "consume",
    }
}

/// The contract `declare` writes: id `<schedule>-<role>-<schema>`.
pub fn declared_contract(
    schedule: String,
    role: ContractRole,
    schema: String,
    min_version: u32,
    any_version: bool,
    freshness: u64,
) -> (c: Contract)
    ensures
        c.contract_id@ == schedule@ + "-"@ + role_word(role) + "-"@ + schema@,
        c.schedule_id == schedule,
        c.role == role,
        c.schema_id == schema,
        c.min_version == min_version,
        c.any_version == any_version,
        c.freshness_window == freshness,
{
    let mut id = schedule.clone();
    push_str(&mut id, "-");
    push_str(&mut id, role_as_str(role));
    push_str(&mut id, "-");
    push_str(&mut id, schema.as_str());
    Contract {
        contract_id: id,
        schedule_id: schedule,
        role,
        schema_id: schema,
        min_version,
        any_version,
        freshness_window: freshness,
    }
}

/// A contract as an addressable event: its kind, empty content and tags.
pub struct ContractEvent {
    pub kind: u32,
    pub content: String,
    pub tags: Vec<(String, String)>,
}

/// The text `bool` displays as.
pub open spec fn bool_text(b: bool) -> Seq<char> {
    if b {
        "true"@
    } else {
        "false"@
    }
}

/// The tags of a contract's event, in order.
pub open spec fn contract_tags(c: Contract, community: Seq<char>) -> Seq<(Seq<char>, Seq<char>)> {
    seq![
        ("d"@, c.contract_id@),
        ("schedule"@, c.schedule_id@),
        ("community"@, community),
        ("contract_role"@, role_word(c.role)),
        ("schema_id"@, c.schema_id@),
        ("min_version"@, dec(c.min_version as nat)),
        ("any_version"@, bool_text(c.any_version)),
        ("freshness_window"@, dec(c.freshness_window as nat)),
    ]
}

fn tag(k: &str, v: String) -> (t: (String, String))
    ensures
        t.0@ == k@,
        t.1 == v,
{
    (k.to_owned(), v)
}

fn number(n: u64) -> (s: String)
    ensures
        s@ == dec(n as nat),
{
    let mut s = String::new();
    push_u64(&mut s, n);
    s
}

/// The addressable event that declares a contract in a community.
pub fn contract_to_event(contract: &Contract, community: &str) -> (e: ContractEvent)
    ensures
        e.kind == KIND_ALMANAC_CONTRACT,
        e.content@ == Seq::<char>::empty(),
        e.tags@.map_values(|t: (String, String)| (t.0@, t.1@)) == contract_tags(*contract, community@),
{
    let mut tags: Vec<(String, String)> = Vec::new();
    tags.push(tag("d", contract.contract_id.clone()));
    tags.push(tag("schedule", contract.schedule_id.clone()));
    tags.push(tag("community", community.to_owned()));
    tags.push(tag("contract_role", role_as_str(contract.role).to_owned()));
    tags.push(tag("schema_id", contract.schema_id.clone()));
    tags.push(tag("min_version", number(contract.min_version as u64)));
    tags.push(tag("any_version", (if contract.any_version { "true" } else { "false" }).to_owned()));
    tags.push(tag("freshness_window", number(contract.freshness_window)));
    proof {
        reveal_strlit("");
    }
    let e = ContractEvent { kind: KIND_ALMANAC_CONTRACT, content: String::new(), tags };
    assert(e.tags@.map_values(|t: (String, String)| (t.0@, t.1@)) =~= contract_tags(*contract, community@));
    e
}

/// The URL of a schedule's lineage on a server.
pub open spec fn lineage_url_spec(base: Seq<char>, community: Seq<char>, schedule_id: Seq<char>) -> Seq<char> {
    trim_end_char(base, '/') + "/v1/communities/"@ + community + "/lineage/"@ + schedule_id
}

/// The URL of a schedule's lineage on the server at `base`.
pub fn lineage_url(base: &str, community: &str, schedule_id: &str) -> (u: String)
    ensures
        u@ == lineage_url_spec(base@, community@, schedule_id@),
{
    let mut u = trimmed_base(base);
    push_str(&mut u, "/v1/communities/");
    push_str(&mut u, community);
    push_str(&mut u, "/lineage/");
    push_str(&mut u, schedule_id);
    u
}

/// The configuration with the server URL given on the command line, if
/// any, in place of the configured public URL.
pub fn config_from_cli(config: Config, url: Option<String>) -> (c: Config)
    ensures
        c.bind == config.bind,
        c.default_community == config.default_community,
        c.seed_demo == config.seed_demo,
        c.public_base_url == (match url {
            Some(u) => u,
            None => config.public_base_url,
        }),
{
    let mut c = config;
    if let Some(u) = url {
        c.public_base_url = u;
    }
    c
}

/// One line of a lineage report.
pub open spec fn report_line(d: Dependency) -> Seq<char> {
    "  "@ + verdict_mark_spec(d.satisfied) + "  "@ + d.schema_id@ + "  ← produced by `"@ + or_text(
        d.producer_schedule_id,
        "<unknown producer>"@,
    ) + "`"@
}

/// The lines the `check` command prints for a schedule's verdicts.
pub open spec fn report_spec(schedule_id: Seq<char>, community: Seq<char>, deps: Seq<Dependency>) -> Seq<Seq<char>> {
    if deps.len() == 0 {
        seq!["Schedule `"@ + schedule_id + "` has no consuming contracts."@]
    } else {
        seq!["Lineage for `"@ + schedule_id + "` ("@ + community + "):"@] + deps.map_values(
            |d: Dependency| report_line(d),
        )
    }
}

/// The lines the `check` command prints for a schedule's verdicts.
pub fn lineage_report(schedule_id: &str, community: &str, deps: &[Dependency]) -> (lines: Vec<String>)
    ensures
        lines@.map_values(|l: String| l@) == report_spec(schedule_id@, community@, deps@),
{
    let mut lines: Vec<String> = Vec::new();
    if deps.len() == 0 {
        let mut l = "Schedule `".to_owned();
        push_str(&mut l, schedule_id);
        push_str(&mut l, "` has no consuming contracts.");
        lines.push(l);
        assert(lines@.map_values(|l: String| l@) =~= report_spec(schedule_id@, community@, deps@));
        return lines;
    }
    let mut h = "Lineage for `".to_owned();
    push_str(&mut h, schedule_id);
    push_str(&mut h, "` (");
    push_str(&mut h, community);
    push_str(&mut h, "):");
    lines.push(h);
    let ghost head = lines@.map_values(|l: String| l@);
    let mut i: usize = 0;
    while i < deps.len()
        invariant
            i <= deps@.len(),
            head.len() == 1,
            lines@.map_values(|l: String| l@) == head + deps@.take(i as int).map_values(|d: Dependency| report_line(d)),
        decreases deps@.len() - i,
    {
        let d = &deps[i];
        let mut l = "  ".to_owned();
        let mark = verdict_mark(&d.satisfied);
        push_str(&mut l, mark.as_str());
        push_str(&mut l, "  ");
        push_str(&mut l, d.schema_id.as_str());
        push_str(&mut l, "  ← produced by `");
        match &d.producer_schedule_id {
            Some(p) => push_str(&mut l, p.as_str()),
            None => push_str(&mut l, "<unknown producer>"),
        }
        push_str(&mut l, "`");
        assert(l@ =~= report_line(*d));
        let ghost before = lines@;
        let ghost lv = l@;
        lines.push(l);
        assert(lines@.map_values(|l: String| l@) =~= before.map_values(|l: String| l@).push(lv));
        assert(deps@.take(i + 1).map_values(|d: Dependency| report_line(d)) =~= deps@.take(i as int).map_values(
            |d: Dependency| report_line(d),
        ).push(report_line(*d)));
        assert(lines@.map_values(|l: String| l@) =~= head + deps@.take(i + 1).map_values(|d: Dependency| report_line(d)));
        i = i + 1;
    }
    assert(deps@.take(deps@.len() as int) =~= deps@);
    lines
}

/// The lineage the demo feed shows for one schedule: where it has a run,
/// the verdicts of all its contracts at that run (producers not named).
pub open spec fn demo_dep_of(
    s: crate::model::Schedule,
    runs: Seq<(String, crate::model::Run)>,
    cs: Seq<Contract>,
    store: crate::lineage::store::InMemoryManifestStore,
) -> Option<(String, Seq<Dependency>)> {
    match lookup(runs, s.schedule_id@) {
        Some(run) => Some((s.schedule_id, verdicts(&store, run_time(run), contracts_of(cs, s.schedule_id@)))),
        None => None,
    }
}

/// The ICS feed the `demo` command prints for a community: like the
/// server's schedule feed, with the verdicts of every schedule that has a
/// run and producers left unnamed.
pub fn demo_feed(state: &State, community: &str) -> (r: Result<String, IcalError>)
    requires
        feed_inputs_renderable(*state, community@, FeedFilter::Schedule),
    ensures
        ({
            let ss = sorted_schedules(state.schedule_list(), community@);
            let runs = community_runs(state.schedule_list(), state.run_list(), community@);
            let cs = contracts_in(state.contract_log(), community@);
            let deps = ss.filter_map(|s: crate::model::Schedule| demo_dep_of(s, runs, cs, state.store()));
            let name = feed_name(calendars_in(state.calendar_log(), community@), community@);
            match r {
                Ok(text) => no_fault_before(ss, ss.len() as int) && text@ == ics_text(
                    feed_props(name),
                    schedule_events(ss, runs, deps),
                ),
                Err(e) => exists|i: int|
                    0 <= i < ss.len() && no_fault_before(ss, i) && (#[trigger] schedule_fault(ss[i])) is Some
                        && is_rrule_error(e, ss[i].rrule@, schedule_fault(ss[i])->0),
            }
        }),
{
    let schedules = state.schedules_for(community);
    let runs = state.runs_for(community);
    let contracts = state.contracts_for(community);
    let calendars = state.calendars_for(community);
    let store = state.manifest_store();
    let ghost entry = |s: crate::model::Schedule| demo_dep_of(s, runs@, contracts@, *store);
    let mut deps: Vec<(String, Vec<Dependency>)> = Vec::new();
    let mut i: usize = 0;
    while i < schedules.len()
        invariant
            i <= schedules@.len(),
            entry == (|s: crate::model::Schedule| demo_dep_of(s, runs@, contracts@, *store)),
            deps_view(deps@) == schedules@.take(i as int).filter_map(entry),
        decreases schedules@.len() - i,
    {
        let s = &schedules[i];
        assert(schedules@.take(i + 1).drop_last() =~= schedules@.take(i as int));
        let mine = contracts_of_schedule(contracts.as_slice(), s.schedule_id.as_str());
        match find_entry(runs.as_slice(), s.schedule_id.as_str()) {
            Some(run) => {
                match check_inputs(store, run, mine.as_slice()) {
                    Ok(ds) => {
                        let ghost before = deps@;
                        deps.push((s.schedule_id.clone(), ds));
                        assert(deps_view(deps@) =~= deps_view(before).push(entry(*s)->0));
                    },
                    Err(_) => {},
                }
            },
            None => {},
        }
        i = i + 1;
    }
    assert(schedules@.take(schedules@.len() as int) =~= schedules@);
    proof {
        let cl = calendars_in(state.calendar_log(), community@);
        if calendars@.len() > 0 {
            assert(same_calendar(calendars@[0], cl[0]));
        }
        assert(feed_name(calendars@, community@) == feed_name(cl, community@));
    }
    render_calendar_feed(
        schedules.as_slice(),
        runs.as_slice(),
        deps.as_slice(),
        calendars.as_slice(),
        FeedFilter::Schedule,
        community,
    )
}

/// The report of `almanac validate` for what the parser made of a file:
/// the component count, or the parser's error.
pub open spec fn validate_message(parsed: Result<nat, Seq<char>>) -> Result<Seq<char>, Seq<char>> {
    match parsed {
        Ok(n) => Ok("✅ valid iCalendar — "@ + dec(n) + " component(s)"@),
        Err(e) => Err("invalid iCalendar: "@ + e),
    }
}

/// The report for a parse outcome (see [`validate_message`]).
pub fn validate_outcome(parsed: Result<usize, String>) -> (r: Result<String, String>)
    ensures
        match (parsed, r) {
            (Ok(n), Ok(t)) => validate_message(Ok(n as nat)) == Ok::<Seq<char>, Seq<char>>(t@),
            (Err(e), Err(t)) => validate_message(Err(e@)) == Err::<Seq<char>, Seq<char>>(t@),
            _ => false,
        },
{
    match parsed {
        Ok(n) => {
            let mut t = "✅ valid iCalendar — ".to_owned();
            push_u64(&mut t, n as u64);
            push_str(&mut t, " component(s)");
            Ok(t)
        },
        Err(e) => {
            let mut t = "invalid iCalendar: ".to_owned();
            push_str(&mut t, e.as_str());
            Err(t)
        },
    }
}

/// Check that `text` is an iCalendar document: `Ok` with the report of
/// its component count, or `Err` with the parser's error.
pub fn validate_report(text: &str) -> (r: Result<String, String>)
    ensures
        match r {
            Ok(t) => validate_message(ics_parse(text@)) == Ok::<Seq<char>, Seq<char>>(t@),
            Err(t) => validate_message(ics_parse(text@)) == Err::<Seq<char>, Seq<char>>(t@),
        },
{
    let parsed = parse_ics(text);
    validate_outcome(parsed)
}

} // verus!
