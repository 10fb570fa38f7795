//! Demo dataset: a believable lineage scenario so the feed is non-empty out
//! of the box.
//!
//! - `daily-brief` produces `research-brief` every day at 09:00.
//! - `weekly-strategy` consumes `research-brief` every Monday at 10:00.
//! - `nightly-index` rebuilds the search index, and its last run failed.
//! - `pr-review` is webhook-triggered (no RRULE).
//!
//! Four agents work these schedules: `research-bot`, `strategist`,
//! `indexer` and `pr-bot`.
//!
//! The daily brief's latest run succeeded with a materialized manifest, so
//! the weekly strategy's lineage check shows ✅.

use vstd::prelude::*;
use crate::lineage::store::{put_bucket, InMemoryManifestStore};
use crate::model::{Agent, Contract, ContractRole, Manifest, Run, RunStatus, Schedule, SkipReason};
use crate::server::state::{upsert_agent_spec, upsert_run_spec, upsert_schedule_spec, State};

verus! {

/// The demo's reference time (unix seconds).
pub const NOW: i64 = 1_700_000_000;

/// A demo schedule of community `demo`, channel `demo-channel`, starting and
/// last updated at [`NOW`].
pub open spec fn demo_schedule(
    s: Schedule,
    id: Seq<char>,
    summary: Seq<char>,
    description: Seq<char>,
    rrule: Seq<char>,
    group: Seq<char>,
    color: Seq<char>,
) -> bool {
    &&& s.schedule_id@ == id
    &&& s.community_id@ == "demo"@
    &&& s.channel_id@ == "demo-channel"@
    &&& s.summary@ == summary
    &&& s.description@ == description
    &&& s.rrule@ == rrule
    &&& s.dtstart == NOW
    &&& s.calendar_group@ == group
    &&& s.color_category matches Some(c) && c@ == color
    &&& s.owner_agent_id is None
    &&& s.created_at == NOW
    &&& s.updated_at == NOW
}

pub open spec fn is_daily_brief(s: Schedule) -> bool {
    demo_schedule(
        s,
        "daily-brief"@,
        "Daily research brief"@,
        "Produces a research brief every morning at 09:00 UTC."@,
        "FREQ=DAILY;BYHOUR=9;BYMINUTE=0"@,
        "research"@,
        "#3b82f6"@,
    )
}

pub open spec fn is_weekly_strategy(s: Schedule) -> bool {
    demo_schedule(
        s,
        "weekly-strategy"@,
        "Weekly strategy draft"@,
        "Drafts strategy from the week's research briefs. Mondays at 10:00 UTC."@,
        "FREQ=WEEKLY;BYDAY=MO;BYHOUR=10;BYMINUTE=0"@,
        "strategy"@,
        "#10b981"@,
    )
}

pub open spec fn is_nightly_index(s: Schedule) -> bool {
    demo_schedule(
        s,
        "nightly-index"@,
        "Nightly vector index rebuild"@,
        "Rebuilds the search index. Currently failing."@,
        "FREQ=DAILY;BYHOUR=2;BYMINUTE=0"@,
        "infra"@,
        "#ef4444"@,
    )
}

pub open spec fn is_pr_review(s: Schedule) -> bool {
    demo_schedule(
        s,
        "pr-review"@,
        "On PR merge: review summary"@,
        "Webhook-triggered. Produces a review summary on every PR merge."@,
        seq![],
        "code"@,
        "#8b5cf6"@,
    )
}

fn schedule_of(
    id: &str,
    summary: &str,
    description: &str,
    rrule: &str,
    group: &str,
    color: &str,
) -> (s: Schedule)
    ensures
        demo_schedule(s, id@, summary@, description@, rrule@, group@, color@),
{
    Schedule {
        schedule_id: id.to_owned(),
        community_id: "demo".to_owned(),
        channel_id: "demo-channel".to_owned(),
        summary: summary.to_owned(),
        description: description.to_owned(),
        rrule: rrule.to_owned(),
        dtstart: NOW,
        calendar_group: group.to_owned(),
        color_category: Some(color.to_owned()),
        owner_agent_id: None,
        created_at: NOW,
        updated_at: NOW,
    }
}

fn daily_brief() -> (s: Schedule)
    ensures
        is_daily_brief(s),
{
    schedule_of(
        "daily-brief",
        "Daily research brief",
        "Produces a research brief every morning at 09:00 UTC.",
        "FREQ=DAILY;BYHOUR=9;BYMINUTE=0",
        "research",
        "#3b82f6",
    )
}

fn weekly_strategy() -> (s: Schedule)
    ensures
        is_weekly_strategy(s),
{
    schedule_of(
        "weekly-strategy",
        "Weekly strategy draft",
        "Drafts strategy from the week's research briefs. Mondays at 10:00 UTC.",
        "FREQ=WEEKLY;BYDAY=MO;BYHOUR=10;BYMINUTE=0",
        "strategy",
        "#10b981",
    )
}

fn nightly_index() -> (s: Schedule)
    ensures
        is_nightly_index(s),
{
    schedule_of(
        "nightly-index",
        "Nightly vector index rebuild",
        "Rebuilds the search index. Currently failing.",
        "FREQ=DAILY;BYHOUR=2;BYMINUTE=0",
        "infra",
        "#ef4444",
    )
}

fn webhook_pr_review() -> (s: Schedule)
    ensures
        is_pr_review(s),
{
    let s = schedule_of(
        "pr-review",
        "On PR merge: review summary",
        "Webhook-triggered. Produces a review summary on every PR merge.",
        "",
        "code",
        "#8b5cf6",
    );
    proof {
        reveal_strlit("");
        assert(""@.len() == 0);
        assert(s.rrule@ =~= Seq::<char>::empty());
    }
    s
}

/// A demo run of schedule `sid`.
pub open spec fn demo_run(
    r: Run,
    id: Seq<char>,
    sid: Seq<char>,
    scheduled_for: i64,
    started_at: Option<i64>,
    finished_at: Option<i64>,
) -> bool {
    &&& r.run_id@ == id
    &&& r.schedule_id@ == sid
    &&& r.scheduled_for == scheduled_for
    &&& r.started_at == started_at
    &&& r.finished_at == finished_at
}

/// The daily brief's run: succeeded an hour after [`NOW`].
pub open spec fn is_daily_run(r: Run) -> bool {
    demo_run(r, "run-daily-001"@, "daily-brief"@, (NOW + 3_600) as i64, Some((NOW + 3_610) as i64), Some((NOW + 3_900) as i64))
        && r.status is Succeeded && r.error is None
}

/// The nightly index's run: failed with an out-of-memory error.
pub open spec fn is_nightly_run(r: Run) -> bool {
    &&& demo_run(r, "run-index-001"@, "nightly-index"@, (NOW + 7_200) as i64, Some((NOW + 7_210) as i64), Some((NOW + 7_280) as i64))
    &&& r.status is Failed
    &&& r.error matches Some(e) && e@ == "index writer OOM (exit 137)"@
}

/// The weekly strategy's run: pending, a day after [`NOW`].
pub open spec fn is_weekly_run(r: Run) -> bool {
    demo_run(r, "run-weekly-001"@, "weekly-strategy"@, (NOW + 86_400) as i64, None, None) && r.status is Pending
        && r.error is None
}

/// The PR review's run: succeeded half an hour after [`NOW`].
pub open spec fn is_pr_run(r: Run) -> bool {
    demo_run(r, "run-pr-042"@, "pr-review"@, (NOW + 1_800) as i64, Some((NOW + 1_810) as i64), Some((NOW + 2_400) as i64))
        && r.status is Succeeded && r.error is None
}

fn daily_brief_run() -> (r: Run)
    ensures
        is_daily_run(r),
{
    Run {
        run_id: "run-daily-001".to_owned(),
        schedule_id: "daily-brief".to_owned(),
        scheduled_for: NOW + 3_600,
        started_at: Some(NOW + 3_610),
        finished_at: Some(NOW + 3_900),
        status: RunStatus::Succeeded,
        error: None,
    }
}

fn nightly_index_run() -> (r: Run)
    ensures
        is_nightly_run(r),
{
    Run {
        run_id: "run-index-001".to_owned(),
        schedule_id: "nightly-index".to_owned(),
        scheduled_for: NOW + 7_200,
        started_at: Some(NOW + 7_210),
        finished_at: Some(NOW + 7_280),
        status: RunStatus::Failed,
        error: Some("index writer OOM (exit 137)".to_owned()),
    }
}

fn weekly_strategy_run_pending() -> (r: Run)
    ensures
        is_weekly_run(r),
{
    Run {
        run_id: "run-weekly-001".to_owned(),
        schedule_id: "weekly-strategy".to_owned(),
        scheduled_for: NOW + 86_400,
        started_at: None,
        finished_at: None,
        status: RunStatus::Pending,
        error: None,
    }
}

fn webhook_pr_review_run() -> (r: Run)
    ensures
        is_pr_run(r),
{
    Run {
        run_id: "run-pr-042".to_owned(),
        schedule_id: "pr-review".to_owned(),
        scheduled_for: NOW + 1_800,
        started_at: Some(NOW + 1_810),
        finished_at: Some(NOW + 2_400),
        status: RunStatus::Succeeded,
        error: None,
    }
}

/// The research brief the daily brief materialized: version 3, at the end
/// of its run.
pub open spec fn is_research_manifest(m: Manifest) -> bool {
    &&& m.manifest_id@ == "run-daily-001:research-brief"@
    &&& m.run_id@ == "run-daily-001"@
    &&& m.schema_id@ == "research-brief"@
    &&& m.schema_version == 3
    &&& m.content_hash@ == "a1b2c3d4e5f6"@
    &&& m.commit_sha matches Some(c) && c@ == "deadbeefcafebabe1234567890abcdef12345678"@
    &&& m.uri@ == "https://github.com/demo/research/commit/deadbeefcafebabe1234567890abcdef12345678"@
    &&& m.bytes == Some(48_213u64)
    &&& m.materialized_at == NOW + 3_900
}

fn research_brief_manifest() -> (m: Manifest)
    ensures
        is_research_manifest(m),
{
    let id = Manifest::id_for("run-daily-001", "research-brief");
    proof {
        reveal_strlit("run-daily-001");
        reveal_strlit("research-brief");
        reveal_strlit("run-daily-001:research-brief");
        assert(id@ =~= "run-daily-001:research-brief"@);
    }
    Manifest {
        manifest_id: id,
        run_id: "run-daily-001".to_owned(),
        schema_id: "research-brief".to_owned(),
        schema_version: 3,
        content_hash: "a1b2c3d4e5f6".to_owned(),
        commit_sha: Some("deadbeefcafebabe1234567890abcdef12345678".to_owned()),
        uri: "https://github.com/demo/research/commit/deadbeefcafebabe1234567890abcdef12345678".to_owned(),
        bytes: Some(48_213),
        materialized_at: NOW + 3_900,
    }
}

/// The daily brief produces `research-brief`.
pub open spec fn is_daily_produces(c: Contract) -> bool {
    &&& c.contract_id@ == "daily-brief-produces"@
    &&& c.schedule_id@ == "daily-brief"@
    &&& c.role == ContractRole::Produce
    &&& c.schema_id@ == "research-brief"@
    &&& c.min_version == 1
    &&& !c.any_version
    &&& c.freshness_window == Contract::DEFAULT_FRESHNESS_WINDOW
}

/// The weekly strategy consumes `research-brief`, version 2 or later, at
/// most a week old.
pub open spec fn is_weekly_consumes(c: Contract) -> bool {
    &&& c.contract_id@ == "weekly-strategy-consumes"@
    &&& c.schedule_id@ == "weekly-strategy"@
    &&& c.role == ContractRole::Consume
    &&& c.schema_id@ == "research-brief"@
    &&& c.min_version == 2
    &&& !c.any_version
    &&& c.freshness_window == 604_800
}

fn contracts() -> (cs: Vec<Contract>)
    ensures
        cs@.len() == 2,
        is_daily_produces(cs@[0]),
        is_weekly_consumes(cs@[1]),
{
    let mut cs: Vec<Contract> = Vec::new();
    cs.push(
        Contract {
            contract_id: "daily-brief-produces".to_owned(),
            schedule_id: "daily-brief".to_owned(),
            role: ContractRole::Produce,
            schema_id: "research-brief".to_owned(),
            min_version: 1,
            any_version: false,
            freshness_window: Contract::DEFAULT_FRESHNESS_WINDOW,
        },
    );
    cs.push(
        Contract {
            contract_id: "weekly-strategy-consumes".to_owned(),
            schedule_id: "weekly-strategy".to_owned(),
            role: ContractRole::Consume,
            schema_id: "research-brief".to_owned(),
            min_version: 2,
            any_version: false,
            freshness_window: 604_800,
        },
    );
    cs
}

/// A demo agent of community `demo`, registered at [`NOW`], with no avatar
/// and no description.
pub open spec fn demo_agent(a: Agent, id: Seq<char>, name: Seq<char>, kind: Seq<char>) -> bool {
    &&& a.agent_id@ == id
    &&& a.name@ == name
    &&& a.avatar is None
    &&& a.kind@ == kind
    &&& a.community_id@ == "demo"@
    &&& a.description is None
    &&& a.created_at == NOW
}

fn make_agent(id: &str, name: &str, kind: &str) -> (a: Agent)
    ensures
        demo_agent(a, id@, name@, kind@),
{
    Agent {
        agent_id: id.to_owned(),
        name: name.to_owned(),
        avatar: None,
        kind: kind.to_owned(),
        community_id: "demo".to_owned(),
        description: None,
        created_at: NOW,
    }
}

/// Seed the demo community into `state`: its four agents, the four
/// schedules, their runs, the research-brief manifest and the
/// producer/consumer contracts.
pub fn seed_demo(state: &mut State)
    ensures
        exists|a: Schedule, b: Schedule, c: Schedule, d: Schedule|
            is_daily_brief(a) && is_weekly_strategy(b) && is_nightly_index(c) && is_pr_review(d)
                && final(state).schedule_list() == upsert_schedule_spec(
                upsert_schedule_spec(
                    upsert_schedule_spec(upsert_schedule_spec(old(state).schedule_list(), a), b),
                    c,
                ),
                d,
            ),
        exists|a: Run, b: Run, c: Run, d: Run|
            is_daily_run(a) && is_nightly_run(b) && is_weekly_run(c) && is_pr_run(d)
                && final(state).run_list() == upsert_run_spec(
                upsert_run_spec(upsert_run_spec(upsert_run_spec(old(state).run_list(), a), b), c),
                d,
            ),
        exists|m: Manifest|
            is_research_manifest(m) && forall|k: Seq<char>| #[trigger] final(state).store().manifests_for(k) == (
            if k == m.schema_id@ {
                put_bucket(old(state).store().manifests_for(k), m)
            } else {
                old(state).store().manifests_for(k)
            }),
        final(state).contract_log().len() == old(state).contract_log().len() + 2,
        final(state).contract_log().take(old(state).contract_log().len() as int) == old(state).contract_log(),
        final(state).contract_log()[old(state).contract_log().len() as int].0@ == "demo"@,
        final(state).contract_log()[old(state).contract_log().len() + 1int].0@ == "demo"@,
        is_daily_produces(final(state).contract_log()[old(state).contract_log().len() as int].1),
        is_weekly_consumes(final(state).contract_log()[old(state).contract_log().len() + 1int].1),
        final(state).calendar_log() == old(state).calendar_log(),
        exists|a: Agent, b: Agent, c: Agent, d: Agent|
            demo_agent(a, "research-bot"@, "Research Bot"@, "cron"@)
                && demo_agent(b, "strategist"@, "Strategist"@, "cron"@)
                && demo_agent(c, "indexer"@, "Indexer"@, "cron"@)
                && demo_agent(d, "pr-bot"@, "PR Bot"@, "webhook"@)
                && final(state).agent_list() == upsert_agent_spec(
                upsert_agent_spec(upsert_agent_spec(upsert_agent_spec(old(state).agent_list(), a), b), c),
                d,
            ),
{
    let aa = make_agent("research-bot", "Research Bot", "cron");
    let ab = make_agent("strategist", "Strategist", "cron");
    let ac = make_agent("indexer", "Indexer", "cron");
    let ad = make_agent("pr-bot", "PR Bot", "webhook");
    let ghost (gaa, gab, gac, gad) = (aa, ab, ac, ad);
    state.upsert_agent(aa);
    state.upsert_agent(ab);
    state.upsert_agent(ac);
    state.upsert_agent(ad);
    let ghost agents = state.agent_list();
    let a = daily_brief();
    let b = weekly_strategy();
    let c = nightly_index();
    let d = webhook_pr_review();
    let ghost (ga, gb, gc, gd) = (a, b, c, d);
    state.upsert_schedule(a);
    state.upsert_schedule(b);
    state.upsert_schedule(c);
    state.upsert_schedule(d);
    let ra = daily_brief_run();
    let rb = nightly_index_run();
    let rc = weekly_strategy_run_pending();
    let rd = webhook_pr_review_run();
    let ghost (gra, grb, grc, grd) = (ra, rb, rc, rd);
    state.upsert_run(ra);
    state.upsert_run(rb);
    state.upsert_run(rc);
    state.upsert_run(rd);
    let m = research_brief_manifest();
    let ghost gm = m;
    state.put_manifest(m);
    let ghost log0 = state.contract_log();
    let mut cs = contracts();
    let second = cs.pop().unwrap();
    let first = cs.pop().unwrap();
    state.add_contract("demo", first);
    state.add_contract("demo", second);
    proof {
        reveal_strlit("demo");
        let log = state.contract_log();
        assert(log.take(log0.len() as int) =~= log0);
        assert(state.agent_list() == agents);
    }
}

/// A fresh manifest store holding the demo's research brief.
pub fn seeded_manifest_store() -> (store: InMemoryManifestStore)
    ensures
        exists|m: Manifest|
            is_research_manifest(m) && forall|k: Seq<char>| #[trigger] store.manifests_for(k) == (if k == m.schema_id@ {
                put_bucket(Seq::<Manifest>::empty(), m)
            } else {
                Seq::<Manifest>::empty()
            }),
{
    let mut store = InMemoryManifestStore::new();
    let m = research_brief_manifest();
    let ghost gm = m;
    store.put(m);
    store
}

/// The skip reason the demo documents: the research brief is missing.
pub fn example_skip_reason() -> (r: SkipReason)
    ensures
        r matches SkipReason::MissingInput(s) && s@ == "research-brief"@,
{
    SkipReason::MissingInput("research-brief".to_owned())
}

} // verus!
