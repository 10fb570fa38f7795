//! The tools an agent drives Almanac with: identity, planning, lineage and
//! execution over one shared [`State`], each answering with the text an
//! agent reads.
//!
//! Every tool that stamps a time has a form that takes the time (`*_at`)
//! and a form that reads the clock.

use vstd::prelude::*;
use crate::error::LineageError;
use crate::ical::feed::{find_entry, lookup};
use crate::ingest::run::{status_debug, status_text};
use crate::lineage::check::{check_inputs, run_time, verdicts, Dependency, Satisfies};
use crate::lineage::store::put_bucket;
use crate::model::{
    manifest_id_spec, Agent, Contract, ContractRole, Manifest, Run, RunStatus, Schedule, SkipReason,
};
use crate::server::state::{
    community_runs, contracts_in, sorted_schedules, upsert_agent_spec, upsert_run_spec,
    upsert_schedule_spec, State,
};
use crate::server::views::{contracts_of, contracts_of_schedule, snapshot_lineage, snapshot_lineage_spec};
use crate::text::{dec, idec, join_strings, join_with, push_i64, push_str, push_u64, str_eq};
use crate::trusted::utc_now;

verus! {

broadcast use vstd::string::group_string_axioms;

// ---------------------------------------------------------------------------
// Tool arguments
// ---------------------------------------------------------------------------

/// Arguments of `register_agent`.
pub struct RegisterAgentArgs {
    /// Stable id (slug) for the agent, e.g. "research-bot".
    pub agent_id: String,
    /// Human-readable name.
    pub name: Option<String>,
    /// Optional emoji or avatar URL.
    pub avatar: Option<String>,
    /// Agent kind: "cron", "webhook", "on-demand", "mcp-tool".
    pub kind: Option<String>,
    /// Optional description / role.
    pub description: Option<String>,
    /// Community to register in (defaults to the server's default).
    pub community: Option<String>,
}

/// Arguments of `create_schedule`.
pub struct CreateScheduleArgs {
    /// Unique schedule id (slug).
    pub schedule_id: String,
    /// Human-readable summary shown in the calendar.
    pub summary: String,
    /// RFC 5545 RRULE, e.g. "FREQ=DAILY;BYHOUR=9". Empty = webhook one-off.
    pub rrule: Option<String>,
    /// Agent that owns this schedule.
    pub owner_agent_id: Option<String>,
    /// Calendar group label (becomes a CATEGORIES entry).
    pub calendar_group: Option<String>,
    /// Suggested color (CSS).
    pub color: Option<String>,
    /// Description / markdown body.
    pub description: Option<String>,
    /// Channel id (for ACL).
    pub channel: Option<String>,
    /// DTSTART in unix seconds (defaults to now).
    pub dtstart: Option<i64>,
    /// Community (defaults to the server's default).
    pub community: Option<String>,
}

/// Arguments naming a community.
pub struct CommunityArgs {
    /// Community id (defaults to the server's default).
    pub community: Option<String>,
}

/// Arguments of `declare_contract`.
pub struct DeclareContractArgs {
    /// Schedule that produces or consumes.
    pub schedule: String,
    /// "produce" or "consume".
    pub role: String,
    /// Schema id of the artifact.
    pub schema: String,
    /// For consume: minimum producer version (>= 1). Default 1.
    pub min_version: Option<u32>,
    /// For consume: accept any version. Default false.
    pub any_version: Option<bool>,
    /// Freshness window in seconds (default 86400 = 24h).
    pub freshness: Option<u64>,
    pub community: Option<String>,
}

/// Arguments of `record_manifest`.
pub struct RecordManifestArgs {
    /// The run that produced the artifact.
    pub run_id: String,
    /// Schema id of the artifact.
    pub schema_id: String,
    /// Producer-declared version (>= 1).
    pub schema_version: Option<u32>,
    /// SHA-256 or other content hash.
    pub content_hash: Option<String>,
    /// Optional git commit sha.
    pub commit_sha: Option<String>,
    /// Where the artifact lives (URL / path).
    pub uri: Option<String>,
    /// Size in bytes.
    pub bytes: Option<u64>,
}

/// Arguments of `check_lineage`.
pub struct CheckLineageArgs {
    /// Schedule whose consuming contracts to check.
    pub schedule_id: String,
    pub community: Option<String>,
}

/// Arguments of `trigger_run`.
pub struct TriggerRunArgs {
    /// Schedule to run.
    pub schedule_id: String,
    /// Optional explicit run id (defaults to run-<timestamp>).
    pub run_id: Option<String>,
    /// Scheduled time in unix seconds (defaults to now).
    pub scheduled_for: Option<i64>,
    pub community: Option<String>,
}

/// Arguments of `update_run_status`.
pub struct UpdateRunArgs {
    /// Run id to advance.
    pub run_id: String,
    /// New status: "running", "succeeded", "failed", "skipped".
    pub status: String,
    /// Error text (for failed).
    pub error: Option<String>,
    /// Missing input schema (for skipped).
    pub missing_input: Option<String>,
}

/// One schedule as `get_calendar` shows it.
pub struct ScheduleView {
    pub schedule_id: String,
    pub summary: String,
    pub rrule: String,
    pub calendar_group: String,
    pub owner_agent_id: Option<String>,
    pub run_status: String,
}

/// The full calendar state of a community, as `get_calendar` returns it.
pub struct CalendarSnapshot {
    pub community: String,
    pub agents: Vec<Agent>,
    pub schedules: Vec<ScheduleView>,
    pub contracts: Vec<Contract>,
    /// Schedule id to the lineage verdicts of its consuming contracts.
    pub lineage: Vec<(String, Vec<Dependency>)>,
}

// ---------------------------------------------------------------------------
// Helpers
// ---------------------------------------------------------------------------

/// The given text, or `d` where none is given.
pub open spec fn or_text(o: Option<String>, d: Seq<char>) -> Seq<char> {
    match o {
        Some(v) => v@,
        None => d,
    }
}

fn or_string(o: Option<String>, d: &str) -> (r: String)
    ensures
        r@ == or_text(o, d@),
{
    match o {
        Some(v) => v,
        None => d.to_owned(),
    }
}

/// The community a tool call acts on: the one given, else the default.
pub fn community_of(default: &str, given: Option<&str>) -> (c: String)
    ensures
        c@ == (match given {
            Some(g) => g@,
            None => default@,
        }),
{
    match given {
        Some(g) => g.to_owned(),
        None => default.to_owned(),
    }
}

fn community_arg(default: &String, given: &Option<String>) -> (c: String)
    ensures
        c@ == or_text(*given, default@),
{
    match given {
        Some(g) => community_of(default.as_str(), Some(g.as_str())),
        None => community_of(default.as_str(), None),
    }
}


/// The mark a lineage verdict is shown with.
pub open spec fn verdict_mark_spec(s: Satisfies) -> Seq<char> {
    match s {
        Satisfies::Ready { version, .. } => "✅ ready (v"@ + dec(version as nat) + ")"@,
        Satisfies::Missing => "❌ missing"@,
        Satisfies::VersionMismatch { found, need } => "⚠️ version mismatch (found v"@ + dec(found as nat)
            + ", need v"@ + dec(need as nat) + "+)"@,
    }
}

/// The mark a lineage verdict is shown with: `✅ ready (v<n>)`, `❌ missing`
/// or `⚠️ version mismatch (found v<f>, need v<n>+)`.
pub fn verdict_mark(s: &Satisfies) -> (m: String)
    ensures
        m@ == verdict_mark_spec(*s),
{
    match s {
        Satisfies::Ready { version, .. } => {
            let mut m = "✅ ready (v".to_owned();
            push_u64(&mut m, *version as u64);
            push_str(&mut m, ")");
            m
        },
        Satisfies::Missing => "❌ missing".to_owned(),
        Satisfies::VersionMismatch { found, need } => {
            let mut m = "⚠️ version mismatch (found v".to_owned();
            push_u64(&mut m, *found as u64);
            push_str(&mut m, ", need v");
            push_u64(&mut m, *need as u64);
            push_str(&mut m, "+)");
            m
        },
    }
}

/// The status a schedule's latest run shows: its `Debug` name, or
/// `pending` where it has no run.
pub open spec fn run_status_spec(runs: Seq<(String, Run)>, sid: Seq<char>) -> Seq<char> {
    match lookup(runs, sid) {
        Some(r) => status_debug(r.status),
        None => "pending"@,
    }
}

fn run_status_of(runs: &Vec<(String, Run)>, sid: &str) -> (t: String)
    ensures
        t@ == run_status_spec(runs@, sid@),
{
    match find_entry(runs.as_slice(), sid) {
        Some(r) => status_text(&r.status),
        None => "pending".to_owned(),
    }
}

/// One line of `list_schedules`.
pub open spec fn schedule_line(s: Schedule, runs: Seq<(String, Run)>) -> Seq<char> {
    "- `"@ + s.schedule_id@ + "` ["@ + run_status_spec(runs, s.schedule_id@) + "] rrule=`"@ + s.rrule@
        + "` owner=`"@ + or_text(s.owner_agent_id, "(unowned)"@) + "` — "@ + s.summary@
}

/// The text of `list_schedules`.
pub open spec fn list_text(ss: Seq<Schedule>, runs: Seq<(String, Run)>, c: Seq<char>) -> Seq<char> {
    if ss.len() == 0 {
        "No schedules in community `"@ + c + "`."@
    } else {
        "Schedules in `"@ + c + "`:\n"@ + join_with(ss.map_values(|s: Schedule| schedule_line(s, runs)), "\n"@)
    }
}

/// One line of `check_lineage`.
pub open spec fn lineage_line(d: Dependency) -> Seq<char> {
    "- "@ + verdict_mark_spec(d.satisfied) + "  "@ + d.schema_id@
}

/// The runs every community the server knows holds: the default community,
/// then `demo` where that is another one.
pub open spec fn known_runs(state: State, default: Seq<char>) -> Seq<Run> {
    let own = community_runs(state.schedule_list(), state.run_list(), default).map_values(|p: (String, Run)| p.1);
    if default == "demo"@ {
        own
    } else {
        own + community_runs(state.schedule_list(), state.run_list(), "demo"@).map_values(|p: (String, Run)| p.1)
    }
}

/// The first run with id `id`.
pub open spec fn run_with_id(rs: Seq<Run>, id: Seq<char>) -> Option<Run>
    decreases rs.len(),
{
    if rs.len() == 0 {
        None
    } else if rs[0].run_id@ == id {
        Some(rs[0])
    } else {
        run_with_id(rs.drop_first(), id)
    }
}

/// The status a status word names, by its `Debug` name, if any.
pub open spec fn status_word(word: Seq<char>) -> Option<Seq<char>> {
    if word == "running"@ || word == "started"@ {
        Some("Running"@)
    } else if word == "succeeded"@ || word == "ok"@ || word == "success"@ {
        Some("Succeeded"@)
    } else if word == "failed"@ || word == "error"@ {
        Some("Failed"@)
    } else if word == "skipped"@ {
        Some("Skipped"@)
    } else {
        None
    }
}

/// `new` is `old` advanced by `update_run_status` at `at`.
pub open spec fn advanced(old: Run, new: Run, args: UpdateRunArgs, at: i64) -> bool {
    let started = match old.started_at {
        Some(t) => Some(t),
        None => Some(at),
    };
    &&& new.run_id == old.run_id
    &&& new.schedule_id == old.schedule_id
    &&& new.scheduled_for == old.scheduled_for
    &&& if args.status@ == "running"@ || args.status@ == "started"@ {
        new.status is Running && new.started_at == Some(at) && new.finished_at == old.finished_at
            && new.error == old.error
    } else if args.status@ == "succeeded"@ || args.status@ == "ok"@ || args.status@ == "success"@ {
        new.status is Succeeded && new.started_at == started && new.finished_at == Some(at)
            && new.error == old.error
    } else if args.status@ == "failed"@ || args.status@ == "error"@ {
        &&& new.status is Failed
        &&& new.started_at == started
        &&& new.finished_at == Some(at)
        &&& new.error matches Some(e) && e@ == or_text(args.error, "agent error"@)
    } else {
        &&& new.status matches RunStatus::Skipped(SkipReason::MissingInput(m)) && m@ == or_text(args.missing_input, seq![])
        &&& new.started_at == old.started_at
        &&& new.finished_at == Some(at)
        &&& new.error == old.error
    }
}

/// A schedule as `get_calendar` shows it.
pub open spec fn shows_schedule(v: ScheduleView, s: Schedule, runs: Seq<(String, Run)>) -> bool {
    &&& v.schedule_id == s.schedule_id
    &&& v.summary == s.summary
    &&& v.rrule == s.rrule
    &&& v.calendar_group == s.calendar_group
    &&& v.owner_agent_id == s.owner_agent_id
    &&& v.run_status@ == run_status_spec(runs, s.schedule_id@)
}

// ---------------------------------------------------------------------------
// The tool server
// ---------------------------------------------------------------------------

/// The tool server: the shared state and the community agents act on by
/// default.
pub struct AlmanacMcp {
    pub state: State,
    pub default_community: String,
}

/// The text `check_lineage` answers at `now`: the schedule's contracts'
/// verdicts at its latest run, or at `now` where it has none.
pub open spec fn check_lineage_text(m: AlmanacMcp, args: CheckLineageArgs, now: i64) -> Seq<char> {
    let c = or_text(args.community, m.default_community@);
    let mine = contracts_of(contracts_in(m.state.contract_log(), c), args.schedule_id@);
    let runs = community_runs(m.state.schedule_list(), m.state.run_list(), c);
    let t = match lookup(runs, args.schedule_id@) {
        Some(run) => run_time(run),
        None => now,
    };
    if mine.len() == 0 {
        "Schedule `"@ + args.schedule_id@ + "` has no contracts in community `"@ + c + "`."@
    } else {
        "Lineage for `"@ + args.schedule_id@ + "`:\n"@ + join_with(
            verdicts(&m.state.store(), t, mine).map_values(|d: Dependency| lineage_line(d)),
            "\n"@,
        )
    }
}

/// `runs` and `text` are what `update_run_status` leaves and answers at
/// `at`: the run with the given id among the known runs advanced and
/// recorded, or nothing changed for an unknown run or status word.
pub open spec fn status_updated(
    old: AlmanacMcp,
    runs: Seq<Run>,
    args: UpdateRunArgs,
    at: i64,
    text: Seq<char>,
) -> bool {
    match run_with_id(known_runs(old.state, old.default_community@), args.run_id@) {
        None => runs == old.state.run_list() && text == "Run `"@ + args.run_id@ + "` not found."@,
        Some(run) => match status_word(args.status@) {
            None => runs == old.state.run_list() && text == "Unknown status `"@ + args.status@ + "`."@,
            Some(word) => if !transition_allowed(run.status, word) {
                runs == old.state.run_list() && text == "Run `"@ + args.run_id@
                    + "`: illegal run state transition: "@ + status_debug(run.status) + " -> "@ + word
                    + "."@
            } else {
                (exists|new: Run|
                advanced(run, new, args, at) && runs == upsert_run_spec(old.state.run_list(), new))
                && text == "Run `"@ + args.run_id@ + "` → "@ + word + "."@
            },
        },
    }
}

/// The moves `update_run_status` makes: pending → running,
/// running → succeeded or failed, and an unfinished (pending or running)
/// run skipped. Any other move is refused and leaves the run as it was.
pub open spec fn transition_allowed(from: RunStatus, word: Seq<char>) -> bool {
    ||| from is Pending && word == "Running"@
    ||| from is Running && (word == "Succeeded"@ || word == "Failed"@)
    ||| (from is Pending || from is Running) && word == "Skipped"@
}

/// `update_run_status` starts only pending runs, finishes (succeeded or
/// failed) only running ones, skips only unfinished ones, and never moves
/// a succeeded, failed or skipped run.
pub proof fn run_status_moves(from: RunStatus, word: Seq<char>)
    ensures
        (from is Succeeded || from is Failed || from is Skipped) ==> !transition_allowed(from, word),
        from is Pending ==> (transition_allowed(from, "Running"@) && transition_allowed(from, "Skipped"@)
            && !transition_allowed(from, "Succeeded"@) && !transition_allowed(from, "Failed"@)),
        from is Running ==> (transition_allowed(from, "Succeeded"@) && transition_allowed(from, "Failed"@)
            && transition_allowed(from, "Skipped"@) && !transition_allowed(from, "Running"@)),
{
    reveal_strlit("Running");
    reveal_strlit("Succeeded");
    reveal_strlit("Failed");
    reveal_strlit("Skipped");
    assert("Running"@[0] != "Succeeded"@[0]);
    assert("Running"@[0] != "Failed"@[0]);
    assert("Running"@[0] != "Skipped"@[0]);
    assert("Succeeded"@.len() != "Skipped"@.len());
    assert("Skipped"@[0] != "Failed"@[0]);
}

fn allowed_move(from: &RunStatus, word: &str) -> (b: bool)
    ensures
        b == transition_allowed(*from, word@),
{
    match from {
        RunStatus::Pending => str_eq(word, "Running") || str_eq(word, "Skipped"),
        RunStatus::Running => str_eq(word, "Succeeded") || str_eq(word, "Failed") || str_eq(word, "Skipped"),
        _ => false,
    }
}

/// `snap` is the calendar `get_calendar` shows at `now`.
pub open spec fn shows_calendar(m: AlmanacMcp, args: CommunityArgs, now: i64, snap: CalendarSnapshot) -> bool {
    let c = or_text(args.community, m.default_community@);
    let ss = sorted_schedules(m.state.schedule_list(), c);
    let runs = community_runs(m.state.schedule_list(), m.state.run_list(), c);
    &&& snap.community@ == c
    &&& snap.agents@ == crate::server::state::agents_in(m.state.agent_list(), c)
    &&& snap.schedules@.len() == ss.len()
    &&& forall|i: int| 0 <= i < ss.len() ==> shows_schedule(#[trigger] snap.schedules@[i], ss[i], runs)
    &&& snap.contracts@ == contracts_in(m.state.contract_log(), c)
    &&& crate::ical::feed::deps_view(snap.lineage@) == snapshot_lineage_spec(m.state, c, now)
}

/// The agent `register_agent` records.
pub open spec fn registered_agent(a: Agent, args: RegisterAgentArgs, default: Seq<char>, now: i64) -> bool {
    &&& a.agent_id@ == args.agent_id@
    &&& a.name@ == or_text(args.name, args.agent_id@)
    &&& a.avatar == args.avatar
    &&& a.kind@ == or_text(args.kind, "mcp-tool"@)
    &&& a.community_id@ == or_text(args.community, default)
    &&& a.description == args.description
    &&& a.created_at == now
}

/// The schedule `create_schedule` records.
pub open spec fn created_schedule(s: Schedule, args: CreateScheduleArgs, default: Seq<char>, now: i64) -> bool {
    &&& s.schedule_id == args.schedule_id
    &&& s.community_id@ == or_text(args.community, default)
    &&& s.channel_id@ == or_text(args.channel, seq![])
    &&& s.summary == args.summary
    &&& s.description@ == or_text(args.description, seq![])
    &&& s.rrule@ == or_text(args.rrule, seq![])
    &&& s.dtstart == (match args.dtstart {
        Some(t) => t,
        None => now,
    })
    &&& s.calendar_group@ == or_text(args.calendar_group, "default"@)
    &&& s.color_category == args.color
    &&& s.owner_agent_id == args.owner_agent_id
    &&& s.created_at == now
    &&& s.updated_at == now
}

/// The role a `declare_contract` role word names.
pub open spec fn role_of(word: Seq<char>) -> Option<ContractRole> {
    if word == "produce"@ || word == "producer"@ {
        Some(ContractRole::Produce)
    } else if word == "consume"@ || word == "consumer"@ {
        Some(ContractRole::Consume)
    } else {
        None
    }
}

/// The role a role word names, if any.
pub fn parse_role(word: &str) -> (r: Option<ContractRole>)
    ensures
        r == role_of(word@),
{
    if str_eq(word, "produce") || str_eq(word, "producer") {
        Some(ContractRole::Produce)
    } else if str_eq(word, "consume") || str_eq(word, "consumer") {
        Some(ContractRole::Consume)
    } else {
        None
    }
}

/// The contract `declare_contract` records.
pub open spec fn declared_contract(c: Contract, args: DeclareContractArgs, role: ContractRole) -> bool {
    &&& c.contract_id@ == args.schedule@ + "-"@ + args.role@ + "-"@ + args.schema@
    &&& c.schedule_id == args.schedule
    &&& c.role == role
    &&& c.schema_id == args.schema
    &&& c.min_version == (match args.min_version {
        Some(v) => v,
        None => 1,
    })
    &&& c.any_version == (match args.any_version {
        Some(v) => v,
        None => false,
    })
    &&& c.freshness_window == (match args.freshness {
        Some(v) => v,
        None => Contract::DEFAULT_FRESHNESS_WINDOW,
    })
}

/// The manifest `record_manifest` records.
pub open spec fn recorded_manifest(m: Manifest, args: RecordManifestArgs, now: i64) -> bool {
    &&& m.manifest_id@ == manifest_id_spec(args.run_id@, args.schema_id@)
    &&& m.run_id == args.run_id
    &&& m.schema_id == args.schema_id
    &&& m.schema_version == (match args.schema_version {
        Some(v) => v,
        None => 1,
    })
    &&& m.content_hash@ == or_text(args.content_hash, "unspecified"@)
    &&& m.commit_sha == args.commit_sha
    &&& m.uri@ == or_text(args.uri, "buzz://run/"@ + args.run_id@)
    &&& m.bytes == args.bytes
    &&& m.materialized_at == now
}

/// The run `trigger_run` records: pending, with the given id or
/// `run-<now>`.
pub open spec fn triggered_run(r: Run, args: TriggerRunArgs, now: i64) -> bool {
    &&& r.run_id@ == or_text(args.run_id, "run-"@ + idec(now as int))
    &&& r.schedule_id == args.schedule_id
    &&& r.scheduled_for == (match args.scheduled_for {
        Some(t) => t,
        None => now,
    })
    &&& r.started_at is None
    &&& r.finished_at is None
    &&& r.status is Pending
    &&& r.error is None
}

impl AlmanacMcp {
    /// A tool server over `state`, acting on `default_community` by default.
    pub fn new(state: State, default_community: String) -> (m: Self)
        ensures
            m.state == state,
            m.default_community == default_community,
    {
        AlmanacMcp { state, default_community }
    }

    /// Register or update an agent identity, stamped `now`.
    pub fn register_agent_at(&mut self, args: RegisterAgentArgs, now: i64) -> (text: String)
        ensures
            final(self).state.calendar_log() == old(self).state.calendar_log(),
            final(self).state.default_community_spec() == old(self).state.default_community_spec(),
            exists|a: Agent|
                registered_agent(a, args, old(self).default_community@, now)
                    && final(self).state.agent_list() == upsert_agent_spec(old(self).state.agent_list(), a),
            final(self).state.schedule_list() == old(self).state.schedule_list(),
            final(self).state.run_list() == old(self).state.run_list(),
            final(self).state.contract_log() == old(self).state.contract_log(),
            final(self).state.store() == old(self).state.store(),
            final(self).default_community == old(self).default_community,
            text@ == "Registered agent `"@ + args.agent_id@ + "` ("@ + or_text(args.name, args.agent_id@)
                + "). Use this agent_id when creating schedules."@,
    {
        let ghost a0 = args;
        let community = community_arg(&self.default_community, &args.community);
        let agent_id = args.agent_id.clone();
        let name = match args.name {
            Some(n) => n,
            None => args.agent_id.clone(),
        };
        let agent = Agent {
            agent_id: args.agent_id,
            name,
            avatar: args.avatar,
            kind: or_string(args.kind, "mcp-tool"),
            community_id: community,
            description: args.description,
            created_at: now,
        };
        let mut text = "Registered agent `".to_owned();
        push_str(&mut text, agent_id.as_str());
        push_str(&mut text, "` (");
        push_str(&mut text, agent.name.as_str());
        push_str(&mut text, "). Use this agent_id when creating schedules.");
        let ghost ga = agent;
        self.state.upsert_agent(agent);
        assert(registered_agent(ga, a0, old(self).default_community@, now));
        text
    }

    /// Register or update an agent identity, stamped with the current time.
    pub fn register_agent(&mut self, args: RegisterAgentArgs) -> (text: String)
        ensures
            final(self).state.calendar_log() == old(self).state.calendar_log(),
            final(self).state.default_community_spec() == old(self).state.default_community_spec(),
            exists|a: Agent|
                registered_agent(a, args, old(self).default_community@, a.created_at)
                    && final(self).state.agent_list() == upsert_agent_spec(old(self).state.agent_list(), a),
            final(self).state.schedule_list() == old(self).state.schedule_list(),
            final(self).state.run_list() == old(self).state.run_list(),
            text@ == "Registered agent `"@ + args.agent_id@ + "` ("@ + or_text(args.name, args.agent_id@)
                + "). Use this agent_id when creating schedules."@,
    {
        let now = utc_now();
        self.register_agent_at(args, now)
    }

    /// Create or update a schedule, stamped `now`.
    pub fn create_schedule_at(&mut self, args: CreateScheduleArgs, now: i64) -> (text: String)
        ensures
            final(self).state.calendar_log() == old(self).state.calendar_log(),
            final(self).state.default_community_spec() == old(self).state.default_community_spec(),
            exists|s: Schedule|
                created_schedule(s, args, old(self).default_community@, now)
                    && final(self).state.schedule_list() == upsert_schedule_spec(old(self).state.schedule_list(), s),
            final(self).state.agent_list() == old(self).state.agent_list(),
            final(self).state.run_list() == old(self).state.run_list(),
            final(self).state.contract_log() == old(self).state.contract_log(),
            final(self).state.store() == old(self).state.store(),
            final(self).default_community == old(self).default_community,
            ({
                let c = or_text(args.community, old(self).default_community@);
                text@ == "Schedule `"@ + args.schedule_id@ + "` created in community `"@ + c
                    + "`. Subscribe: /calendar/"@ + c + ".ics"@
            }),
    {
        let ghost a0 = args;
        let community = community_arg(&self.default_community, &args.community);
        let id = args.schedule_id.clone();
        let sched = Schedule {
            schedule_id: args.schedule_id,
            community_id: community.clone(),
            channel_id: or_string(args.channel, ""),
            summary: args.summary,
            description: or_string(args.description, ""),
            rrule: or_string(args.rrule, ""),
            dtstart: match args.dtstart {
                Some(t) => t,
                None => now,
            },
            calendar_group: or_string(args.calendar_group, "default"),
            color_category: args.color,
            owner_agent_id: args.owner_agent_id,
            created_at: now,
            updated_at: now,
        };
        proof {
            reveal_strlit("");
            assert(""@ =~= Seq::<char>::empty());
        }
        let ghost gs = sched;
        self.state.upsert_schedule(sched);
        assert(created_schedule(gs, a0, old(self).default_community@, now));
        let mut text = "Schedule `".to_owned();
        push_str(&mut text, id.as_str());
        push_str(&mut text, "` created in community `");
        push_str(&mut text, community.as_str());
        push_str(&mut text, "`. Subscribe: /calendar/");
        push_str(&mut text, community.as_str());
        push_str(&mut text, ".ics");
        text
    }

    /// Create or update a schedule, stamped with the current time.
    pub fn create_schedule(&mut self, args: CreateScheduleArgs) -> (text: String)
        ensures
            final(self).state.calendar_log() == old(self).state.calendar_log(),
            final(self).state.default_community_spec() == old(self).state.default_community_spec(),
            exists|s: Schedule|
                created_schedule(s, args, old(self).default_community@, s.created_at)
                    && final(self).state.schedule_list() == upsert_schedule_spec(old(self).state.schedule_list(), s),
            final(self).state.run_list() == old(self).state.run_list(),
            ({
                let c = or_text(args.community, old(self).default_community@);
                text@ == "Schedule `"@ + args.schedule_id@ + "` created in community `"@ + c
                    + "`. Subscribe: /calendar/"@ + c + ".ics"@
            }),
    {
        let now = utc_now();
        self.create_schedule_at(args, now)
    }

    /// Declare a producer or consumer contract; an unknown role word records
    /// nothing.
    pub fn declare_contract(&mut self, args: DeclareContractArgs) -> (text: String)
        ensures
            final(self).state.calendar_log() == old(self).state.calendar_log(),
            final(self).state.default_community_spec() == old(self).state.default_community_spec(),
            match role_of(args.role@) {
                None => final(self).state.contract_log() == old(self).state.contract_log()
                    && text@ == "Unknown role `"@ + args.role@ + "`. Use `produce` or `consume`."@,
                Some(role) => {
                    let c = or_text(args.community, old(self).default_community@);
                    &&& final(self).state.contract_log().drop_last() == old(self).state.contract_log()
                    &&& final(self).state.contract_log().len() == old(self).state.contract_log().len() + 1
                    &&& final(self).state.contract_log().last().0@ == c
                    &&& declared_contract(final(self).state.contract_log().last().1, args, role)
                    &&& text@ == "Contract `"@ + args.schedule@ + "-"@ + args.role@ + "-"@ + args.schema@
                        + "` declared: schedule `"@ + args.schedule@ + "` "@ + args.role@ + "s schema `"@
                        + args.schema@ + "`."@
                },
            },
            final(self).state.schedule_list() == old(self).state.schedule_list(),
            final(self).state.run_list() == old(self).state.run_list(),
            final(self).state.agent_list() == old(self).state.agent_list(),
            final(self).state.store() == old(self).state.store(),
            final(self).default_community == old(self).default_community,
    {
        let community = community_arg(&self.default_community, &args.community);
        let role = match parse_role(args.role.as_str()) {
            Some(r) => r,
            None => {
                let mut text = "Unknown role `".to_owned();
                push_str(&mut text, args.role.as_str());
                push_str(&mut text, "`. Use `produce` or `consume`.");
                return text;
            },
        };
        let mut cid = args.schedule.clone();
        push_str(&mut cid, "-");
        push_str(&mut cid, args.role.as_str());
        push_str(&mut cid, "-");
        push_str(&mut cid, args.schema.as_str());
        let contract = Contract {
            contract_id: cid.clone(),
            schedule_id: args.schedule.clone(),
            role,
            schema_id: args.schema.clone(),
            min_version: match args.min_version {
                Some(v) => v,
                None => 1,
            },
            any_version: match args.any_version {
                Some(v) => v,
                None => false,
            },
            freshness_window: match args.freshness {
                Some(v) => v,
                None => Contract::DEFAULT_FRESHNESS_WINDOW,
            },
        };
        self.state.add_contract(community.as_str(), contract);
        let mut text = "Contract `".to_owned();
        push_str(&mut text, cid.as_str());
        push_str(&mut text, "` declared: schedule `");
        push_str(&mut text, args.schedule.as_str());
        push_str(&mut text, "` ");
        push_str(&mut text, args.role.as_str());
        push_str(&mut text, "s schema `");
        push_str(&mut text, args.schema.as_str());
        push_str(&mut text, "`.");
        text
    }

    /// Record that a run materialized an artifact, stamped `now`.
    pub fn record_manifest_at(&mut self, args: RecordManifestArgs, now: i64) -> (text: String)
        ensures
            final(self).state.calendar_log() == old(self).state.calendar_log(),
            final(self).state.default_community_spec() == old(self).state.default_community_spec(),
            exists|m: Manifest|
                recorded_manifest(m, args, now) && forall|k: Seq<char>| #[trigger] final(self).state.store().manifests_for(k) == (
                if k == m.schema_id@ {
                    put_bucket(old(self).state.store().manifests_for(k), m)
                } else {
                    old(self).state.store().manifests_for(k)
                }),
            final(self).state.schedule_list() == old(self).state.schedule_list(),
            final(self).state.run_list() == old(self).state.run_list(),
            final(self).state.contract_log() == old(self).state.contract_log(),
            final(self).state.agent_list() == old(self).state.agent_list(),
            final(self).default_community == old(self).default_community,
            text@ == "Manifest `"@ + manifest_id_spec(args.run_id@, args.schema_id@)
                + "` recorded. Consumers of schema `"@ + args.schema_id@ + "` will now see this input as ready."@,
    {
        let ghost a0 = args;
        let mid = Manifest::id_for(args.run_id.as_str(), args.schema_id.as_str());
        let schema = args.schema_id.clone();
        let uri = match args.uri {
            Some(u) => u,
            None => {
                let mut u = "buzz://run/".to_owned();
                push_str(&mut u, args.run_id.as_str());
                u
            },
        };
        let manifest = Manifest {
            manifest_id: mid.clone(),
            run_id: args.run_id,
            schema_id: args.schema_id,
            schema_version: match args.schema_version {
                Some(v) => v,
                None => 1,
            },
            content_hash: or_string(args.content_hash, "unspecified"),
            commit_sha: args.commit_sha,
            uri,
            bytes: args.bytes,
            materialized_at: now,
        };
        let ghost gm = manifest;
        self.state.put_manifest(manifest);
        assert(recorded_manifest(gm, a0, now));
        let mut text = "Manifest `".to_owned();
        push_str(&mut text, mid.as_str());
        push_str(&mut text, "` recorded. Consumers of schema `");
        push_str(&mut text, schema.as_str());
        push_str(&mut text, "` will now see this input as ready.");
        text
    }

    /// Record that a run materialized an artifact, stamped with the current
    /// time.
    pub fn record_manifest(&mut self, args: RecordManifestArgs) -> (text: String)
        ensures
            final(self).state.calendar_log() == old(self).state.calendar_log(),
            final(self).state.default_community_spec() == old(self).state.default_community_spec(),
            exists|m: Manifest|
                recorded_manifest(m, args, m.materialized_at) && forall|k: Seq<char>| #[trigger] final(self).state.store().manifests_for(k) == (
                if k == m.schema_id@ {
                    put_bucket(old(self).state.store().manifests_for(k), m)
                } else {
                    old(self).state.store().manifests_for(k)
                }),
            text@ == "Manifest `"@ + manifest_id_spec(args.run_id@, args.schema_id@)
                + "` recorded. Consumers of schema `"@ + args.schema_id@ + "` will now see this input as ready."@,
    {
        let now = utc_now();
        self.record_manifest_at(args, now)
    }

    /// Create a pending run, stamped `now`.
    pub fn trigger_run_at(&mut self, args: TriggerRunArgs, now: i64) -> (text: String)
        ensures
            final(self).state.calendar_log() == old(self).state.calendar_log(),
            final(self).state.default_community_spec() == old(self).state.default_community_spec(),
            exists|r: Run|
                triggered_run(r, args, now) && final(self).state.run_list() == upsert_run_spec(old(self).state.run_list(), r)
                    && text@ == "Run `"@ + r.run_id@ + "` triggered for schedule `"@ + args.schedule_id@ + "` in `"@
                    + or_text(args.community, old(self).default_community@) + "` (Pending)."@,
            final(self).state.schedule_list() == old(self).state.schedule_list(),
            final(self).state.contract_log() == old(self).state.contract_log(),
            final(self).state.agent_list() == old(self).state.agent_list(),
            final(self).state.store() == old(self).state.store(),
            final(self).default_community == old(self).default_community,
    {
        let ghost a0 = args;
        let community = community_arg(&self.default_community, &args.community);
        let run_id = match args.run_id {
            Some(id) => id,
            None => {
                let mut id = "run-".to_owned();
                push_i64(&mut id, now);
                id
            },
        };
        let sid = args.schedule_id.clone();
        let run = Run {
            run_id: run_id.clone(),
            schedule_id: args.schedule_id,
            scheduled_for: match args.scheduled_for {
                Some(t) => t,
                None => now,
            },
            started_at: None,
            finished_at: None,
            status: RunStatus::Pending,
            error: None,
        };
        let ghost gr = run;
        self.state.upsert_run(run);
        let mut text = "Run `".to_owned();
        push_str(&mut text, run_id.as_str());
        push_str(&mut text, "` triggered for schedule `");
        push_str(&mut text, sid.as_str());
        push_str(&mut text, "` in `");
        push_str(&mut text, community.as_str());
        push_str(&mut text, "` (Pending).");
        assert(triggered_run(gr, a0, now));
        text
    }

    /// Create a pending run, stamped with the current time.
    pub fn trigger_run(&mut self, args: TriggerRunArgs) -> (text: String)
        ensures
            final(self).state.calendar_log() == old(self).state.calendar_log(),
            final(self).state.default_community_spec() == old(self).state.default_community_spec(),
            exists|r: Run, now: i64|
                triggered_run(r, args, now) && final(self).state.run_list() == upsert_run_spec(old(self).state.run_list(), r)
                    && text@ == "Run `"@ + r.run_id@ + "` triggered for schedule `"@ + args.schedule_id@ + "` in `"@
                    + or_text(args.community, old(self).default_community@) + "` (Pending)."@,
    {
        let now = utc_now();
        self.trigger_run_at(args, now)
    }
    /// List the schedules of a community with their latest run status.
    pub fn list_schedules(&self, args: CommunityArgs) -> (text: String)
        ensures
            ({
                let c = or_text(args.community, self.default_community@);
                text@ == list_text(
                    sorted_schedules(self.state.schedule_list(), c),
                    community_runs(self.state.schedule_list(), self.state.run_list(), c),
                    c,
                )
            }),
    {
        let community = community_arg(&self.default_community, &args.community);
        let schedules = self.state.schedules_for(community.as_str());
        let runs = self.state.runs_for(community.as_str());
        let ghost line = |s: Schedule| schedule_line(s, runs@);
        let mut lines: Vec<String> = Vec::new();
        let mut i: usize = 0;
        while i < schedules.len()
            invariant
                i <= schedules@.len(),
                line == (|s: Schedule| schedule_line(s, runs@)),
                lines@.map_values(|p: String| p@) == schedules@.take(i as int).map_values(line),
            decreases schedules@.len() - i,
        {
            let s = &schedules[i];
            let status = run_status_of(&runs, s.schedule_id.as_str());
            let mut l = "- `".to_owned();
            push_str(&mut l, s.schedule_id.as_str());
            push_str(&mut l, "` [");
            push_str(&mut l, status.as_str());
            push_str(&mut l, "] rrule=`");
            push_str(&mut l, s.rrule.as_str());
            push_str(&mut l, "` owner=`");
            match &s.owner_agent_id {
                Some(o) => push_str(&mut l, o.as_str()),
                None => push_str(&mut l, "(unowned)"),
            }
            push_str(&mut l, "` — ");
            push_str(&mut l, s.summary.as_str());
            let ghost before = lines@;
            lines.push(l);
            proof {
                assert(lines@.map_values(|p: String| p@) =~= before.map_values(|p: String| p@).push(line(*s)));
                assert(schedules@.take(i + 1).map_values(line) =~= schedules@.take(i as int).map_values(line).push(line(*s)));
            }
            i = i + 1;
        }
        assert(schedules@.take(schedules@.len() as int) =~= schedules@);
        if lines.len() == 0 {
            let mut text = "No schedules in community `".to_owned();
            push_str(&mut text, community.as_str());
            push_str(&mut text, "`.");
            text
        } else {
            let mut text = "Schedules in `".to_owned();
            push_str(&mut text, community.as_str());
            push_str(&mut text, "`:\n");
            let body = join_strings(&lines, "\n");
            push_str(&mut text, body.as_str());
            text
        }
    }

    /// Check a schedule's input contracts at its latest run, or at `now`
    /// where it has none.
    pub fn check_lineage_at(&self, args: CheckLineageArgs, now: i64) -> (r: Result<String, LineageError>)
        ensures
            r matches Ok(text) && text@ == check_lineage_text(*self, args, now),
    {
        let community = community_arg(&self.default_community, &args.community);
        let contracts = self.state.contracts_for(community.as_str());
        let mine = contracts_of_schedule(contracts.as_slice(), args.schedule_id.as_str());
        if mine.len() == 0 {
            let mut text = "Schedule `".to_owned();
            push_str(&mut text, args.schedule_id.as_str());
            push_str(&mut text, "` has no contracts in community `");
            push_str(&mut text, community.as_str());
            push_str(&mut text, "`.");
            return Ok(text);
        }
        let runs = self.state.runs_for(community.as_str());
        let check_run;
        let run: &Run = match find_entry(runs.as_slice(), args.schedule_id.as_str()) {
            Some(r) => r,
            None => {
                let mut id = "check-".to_owned();
                push_str(&mut id, args.schedule_id.as_str());
                check_run = Run {
                    run_id: id,
                    schedule_id: args.schedule_id.clone(),
                    scheduled_for: now,
                    started_at: Some(now),
                    finished_at: None,
                    status: RunStatus::Pending,
                    error: None,
                };
                &check_run
            },
        };
        let deps = match check_inputs(self.state.manifest_store(), run, mine.as_slice()) {
            Ok(d) => d,
            Err(e) => {
                return Err(e);
            },
        };
        let ghost line = |d: Dependency| lineage_line(d);
        let mut lines: Vec<String> = Vec::new();
        let mut i: usize = 0;
        while i < deps.len()
            invariant
                i <= deps@.len(),
                line == (|d: Dependency| lineage_line(d)),
                lines@.map_values(|p: String| p@) == deps@.take(i as int).map_values(line),
            decreases deps@.len() - i,
        {
            let d = &deps[i];
            let mut l = "- ".to_owned();
            let mark = verdict_mark(&d.satisfied);
            push_str(&mut l, mark.as_str());
            push_str(&mut l, "  ");
            push_str(&mut l, d.schema_id.as_str());
            let ghost before = lines@;
            lines.push(l);
            proof {
                assert(lines@.map_values(|p: String| p@) =~= before.map_values(|p: String| p@).push(line(*d)));
                assert(deps@.take(i + 1).map_values(line) =~= deps@.take(i as int).map_values(line).push(line(*d)));
            }
            i = i + 1;
        }
        assert(deps@.take(deps@.len() as int) =~= deps@);
        let mut text = "Lineage for `".to_owned();
        push_str(&mut text, args.schedule_id.as_str());
        push_str(&mut text, "`:\n");
        let body = join_strings(&lines, "\n");
        push_str(&mut text, body.as_str());
        Ok(text)
    }

    /// Check a schedule's input contracts at its latest run, or at the
    /// current time where it has none.
    pub fn check_lineage(&self, args: CheckLineageArgs) -> (r: Result<String, LineageError>)
        ensures
            exists|t: i64| r matches Ok(text) && text@ == #[trigger] check_lineage_text(*self, args, t),
    {
        let now = utc_now();
        self.check_lineage_at(args, now)
    }

    /// Advance a run's status at `at`. The run is looked up by id among the
    /// latest runs of the default community, then of `demo`.
    pub fn update_run_status_at(&mut self, args: UpdateRunArgs, at: i64) -> (text: String)
        ensures
            final(self).state.calendar_log() == old(self).state.calendar_log(),
            final(self).state.default_community_spec() == old(self).state.default_community_spec(),
            status_updated(*old(self), final(self).state.run_list(), args, at, text@),
            final(self).state.schedule_list() == old(self).state.schedule_list(),
            final(self).state.contract_log() == old(self).state.contract_log(),
            final(self).state.agent_list() == old(self).state.agent_list(),
            final(self).state.store() == old(self).state.store(),
            final(self).default_community == old(self).default_community,
    {
        let ghost a0 = args;
        let found = match self.find_known_run(args.run_id.as_str()) {
            Some(r) => r,
            None => {
                let mut text = "Run `".to_owned();
                push_str(&mut text, args.run_id.as_str());
                push_str(&mut text, "` not found.");
                return text;
            },
        };
        let mut run = found;
        let w = args.status.as_str();
        let word: &str;
        let step: u8;
        if str_eq(w, "running") || str_eq(w, "started") {
            word = "Running";
            step = 0;
        } else if str_eq(w, "succeeded") || str_eq(w, "ok") || str_eq(w, "success") {
            word = "Succeeded";
            step = 1;
        } else if str_eq(w, "failed") || str_eq(w, "error") {
            word = "Failed";
            step = 2;
        } else if str_eq(w, "skipped") {
            word = "Skipped";
            step = 3;
        } else {
            let mut text = "Unknown status `".to_owned();
            push_str(&mut text, w);
            push_str(&mut text, "`.");
            return text;
        }
        proof {
            reveal_strlit("Running");
            reveal_strlit("Succeeded");
            reveal_strlit("Failed");
            reveal_strlit("Skipped");
        }
        if !allowed_move(&run.status, word) {
            let mut text = "Run `".to_owned();
            push_str(&mut text, args.run_id.as_str());
            push_str(&mut text, "`: illegal run state transition: ");
            let from = status_text(&run.status);
            push_str(&mut text, from.as_str());
            push_str(&mut text, " -> ");
            push_str(&mut text, word);
            push_str(&mut text, ".");
            return text;
        }
        if step == 0 {
            run.status = RunStatus::Running;
            run.started_at = Some(at);
        } else if step == 1 {
            run.status = RunStatus::Succeeded;
            if run.started_at.is_none() {
                run.started_at = Some(at);
            }
            run.finished_at = Some(at);
        } else if step == 2 {
            run.status = RunStatus::Failed;
            run.error = Some(or_string(args.error, "agent error"));
            if run.started_at.is_none() {
                run.started_at = Some(at);
            }
            run.finished_at = Some(at);
        } else {
            run.status = RunStatus::Skipped(SkipReason::MissingInput(or_string(args.missing_input, "")));
            run.finished_at = Some(at);
            proof {
                reveal_strlit("");
                assert(""@ =~= Seq::<char>::empty());
            }
        }
        let ghost new = run;
        self.state.upsert_run(run);
        assert(advanced(found, new, a0, at));
        let mut text = "Run `".to_owned();
        push_str(&mut text, args.run_id.as_str());
        push_str(&mut text, "` → ");
        push_str(&mut text, word);
        push_str(&mut text, ".");
        text
    }

    /// Advance a run's status at the current time.
    pub fn update_run_status(&mut self, args: UpdateRunArgs) -> (text: String)
        ensures
            final(self).state.calendar_log() == old(self).state.calendar_log(),
            final(self).state.default_community_spec() == old(self).state.default_community_spec(),
            exists|t: i64| #[trigger] status_updated(*old(self), final(self).state.run_list(), args, t, text@),
            final(self).state.schedule_list() == old(self).state.schedule_list(),
            final(self).state.contract_log() == old(self).state.contract_log(),
            final(self).state.agent_list() == old(self).state.agent_list(),
            final(self).state.store() == old(self).state.store(),
    {
        let now = utc_now();
        self.update_run_status_at(args, now)
    }

    fn find_known_run(&self, id: &str) -> (r: Option<Run>)
        ensures
            r == run_with_id(known_runs(self.state, self.default_community@), id@),
    {
        let own = self.state.runs_for(self.default_community.as_str());
        let mut all: Vec<Run> = Vec::new();
        let mut i: usize = 0;
        while i < own.len()
            invariant
                i <= own@.len(),
                all@ == own@.take(i as int).map_values(|p: (String, Run)| p.1),
            decreases own@.len() - i,
        {
            all.push(own[i].1.duplicate());
            assert(all@ =~= own@.take(i + 1).map_values(|p: (String, Run)| p.1));
            i = i + 1;
        }
        assert(own@.take(own@.len() as int) =~= own@);
        if !str_eq(self.default_community.as_str(), "demo") {
            let demo = self.state.runs_for("demo");
            let ghost base = all@;
            let mut j: usize = 0;
            while j < demo.len()
                invariant
                    j <= demo@.len(),
                    all@ == base + demo@.take(j as int).map_values(|p: (String, Run)| p.1),
                decreases demo@.len() - j,
            {
                all.push(demo[j].1.duplicate());
                assert(all@ =~= base + demo@.take(j + 1).map_values(|p: (String, Run)| p.1));
                j = j + 1;
            }
            assert(demo@.take(demo@.len() as int) =~= demo@);
        }
        let mut k: usize = 0;
        assert(all@.skip(0) =~= all@);
        while k < all.len()
            invariant
                k <= all@.len(),
                all@ == known_runs(self.state, self.default_community@),
                run_with_id(all@, id@) == run_with_id(all@.skip(k as int), id@),
            decreases all@.len() - k,
        {
            assert(all@.skip(k as int)[0] == all@[k as int]);
            if str_eq(all[k].run_id.as_str(), id) {
                return Some(all[k].duplicate());
            }
            assert(all@.skip(k as int).drop_first() =~= all@.skip(k + 1));
            k = k + 1;
        }
        None
    }

    /// The full calendar state of a community: agents, schedules with their
    /// run status, contracts, and the lineage of every consuming schedule
    /// (checked at `now` where it has no run).
    pub fn get_calendar_at(&self, args: CommunityArgs, now: i64) -> (snap: CalendarSnapshot)
        ensures
            shows_calendar(*self, args, now, snap),
    {
        let community = community_arg(&self.default_community, &args.community);
        let agents = self.state.agents_for(community.as_str());
        let schedules = self.state.schedules_for(community.as_str());
        let runs = self.state.runs_for(community.as_str());
        let contracts = self.state.contracts_for(community.as_str());
        let lineage = snapshot_lineage(&self.state, community.as_str(), now);
        let mut views: Vec<ScheduleView> = Vec::new();
        let mut i: usize = 0;
        while i < schedules.len()
            invariant
                i <= schedules@.len(),
                views@.len() == i,
                forall|j: int| 0 <= j < i ==> shows_schedule(#[trigger] views@[j], schedules@[j], runs@),
            decreases schedules@.len() - i,
        {
            let s = &schedules[i];
            let status = run_status_of(&runs, s.schedule_id.as_str());
            views.push(
                ScheduleView {
                    schedule_id: s.schedule_id.clone(),
                    summary: s.summary.clone(),
                    rrule: s.rrule.clone(),
                    calendar_group: s.calendar_group.clone(),
                    owner_agent_id: crate::model::copy_opt_string(&s.owner_agent_id),
                    run_status: status,
                },
            );
            i = i + 1;
        }
        CalendarSnapshot { community, agents, schedules: views, contracts, lineage }
    }

    /// The full calendar state of a community, checked at the current time.
    pub fn get_calendar(&self, args: CommunityArgs) -> (snap: CalendarSnapshot)
        ensures
            exists|t: i64| #[trigger] shows_calendar(*self, args, t, snap),
    {
        let now = utc_now();
        self.get_calendar_at(args, now)
    }
}

} // verus!
