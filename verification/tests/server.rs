use almanac::ical::feed::FeedFilter;
use almanac::lineage::check::Satisfies;
use almanac::lineage::store::ManifestStore;
use almanac::model::{Agent, Calendar as CalendarMeta, Run, RunStatus, Schedule};
use almanac::server::dashboard::dashboard_html;
use almanac::server::seed::{example_skip_reason, seed_demo, seeded_manifest_store};
use almanac::server::state::State;
use almanac::server::views::{feed_fits, feed_for, lineage_for, snapshot_lineage, verdict_state, LineageAnswer};
use icalendar::Calendar;
use std::str::FromStr;

fn sched(id: &str, community: &str) -> Schedule {
    Schedule {
        schedule_id: id.into(),
        community_id: community.into(),
        channel_id: "c".into(),
        summary: id.into(),
        description: "d".into(),
        rrule: "FREQ=DAILY".into(),
        dtstart: 1,
        calendar_group: "g".into(),
        color_category: None,
        owner_agent_id: None,
        created_at: 1,
        updated_at: 1,
    }
}

fn unfold(s: &str) -> String {
    s.replace("\r\n ", "").replace("\r\n\t", "").replace("\n ", "").replace("\n\t", "")
}

fn seeded() -> State {
    let mut state = State::new();
    seed_demo(&mut state);
    state
}

fn feed(state: &State, community: &str, filter: FeedFilter) -> String {
    assert!(feed_fits(state, community, filter));
    feed_for(state, community, filter).unwrap()
}

#[test]
fn upsert_and_read_schedules() {
    let mut s = State::new();
    s.upsert_schedule(sched("a", "research"));
    s.upsert_schedule(sched("b", "research"));
    s.upsert_schedule(sched("c", "other"));
    let got = s.schedules_for("research");
    assert_eq!(got.len(), 2);
    assert!(got.iter().any(|x| x.schedule_id == "a"));
    assert!(got.iter().any(|x| x.schedule_id == "b"));
    assert_eq!(s.schedules_for("other").len(), 1);
    assert!(s.schedules_for("missing").is_empty());
}

#[test]
fn upsert_run_overwrites() {
    let mut s = State::new();
    s.upsert_schedule(sched("a", "research"));
    let mut r1 = Run {
        run_id: "r1".into(),
        schedule_id: "a".into(),
        scheduled_for: 1,
        started_at: None,
        finished_at: None,
        status: RunStatus::Pending,
        error: None,
    };
    s.upsert_run(r1.clone());
    r1.status = RunStatus::Succeeded;
    s.upsert_run(r1);
    let runs = s.runs_for("research");
    assert_eq!(runs.len(), 1);
    assert_eq!(runs[0].0, "a");
    assert_eq!(runs[0].1.status, RunStatus::Succeeded);
}

#[test]
fn schedules_come_sorted_and_upsert_replaces() {
    let mut s = State::new();
    s.upsert_schedule(sched("m", "c"));
    s.upsert_schedule(sched("b", "c"));
    s.upsert_schedule(sched("x", "c"));
    let mut again = sched("m", "c");
    again.summary = "updated".into();
    s.upsert_schedule(again);
    let ids: Vec<String> = s.schedules_for("c").into_iter().map(|x| x.schedule_id).collect();
    assert_eq!(ids, vec!["b", "m", "x"]);
    assert_eq!(s.schedules_for("c")[1].summary, "updated");
}

#[test]
fn runs_only_for_the_communitys_schedules() {
    let mut s = State::new();
    s.upsert_schedule(sched("a", "one"));
    s.upsert_schedule(sched("b", "two"));
    for id in ["a", "b", "ghost"] {
        s.upsert_run(Run {
            run_id: format!("run-{id}"),
            schedule_id: id.into(),
            scheduled_for: 1,
            started_at: None,
            finished_at: None,
            status: RunStatus::Pending,
            error: None,
        });
    }
    let runs = s.runs_for("one");
    assert_eq!(runs.len(), 1);
    assert_eq!(runs[0].1.run_id, "run-a");
}

#[test]
fn contracts_calendars_agents_are_scoped() {
    let mut s = State::with_default_community("research".into());
    assert_eq!(s.default_community(), "research");
    let c = almanac::cli::declared_contract(
        "a".into(),
        almanac::model::ContractRole::Consume,
        "brief".into(),
        1,
        false,
        60,
    );
    s.add_contract("research", c.clone());
    s.add_contract("other", c.clone());
    assert_eq!(s.contracts_for("research"), vec![c]);
    s.add_calendar(CalendarMeta {
        calendar_id: "k".into(),
        community_id: "research".into(),
        name: "Research".into(),
        description: "".into(),
        color: None,
        schedule_ids: vec![],
    });
    assert_eq!(s.calendars_for("research").len(), 1);
    assert!(s.calendars_for("other").is_empty());
    let agent = Agent {
        agent_id: "bot".into(),
        name: "Bot".into(),
        avatar: None,
        kind: "cron".into(),
        community_id: "research".into(),
        description: None,
        created_at: 1,
    };
    s.upsert_agent(agent.clone());
    let mut renamed = agent.clone();
    renamed.name = "Bot 2".into();
    s.upsert_agent(renamed.clone());
    assert_eq!(s.agents_for("research"), vec![renamed]);
}

#[test]
fn calendar_feed_returns_ics_with_events() {
    let state = seeded();
    let text = feed(&state, "demo", FeedFilter::Schedule);
    assert!(text.contains("BEGIN:VCALENDAR"));
    assert!(text.contains("UID:daily-brief@almanac"));
    assert!(text.contains("UID:weekly-strat"));
    let flat = text.replace("\n ", "").replace("\r\n ", "");
    assert!(flat.contains("SUMMARY:✅ Daily research brief"));
    assert!(flat.contains("STATUS:CONFIRMED"));
}

#[test]
fn http_runs_feed_only_includes_runs() {
    let state = seeded();
    let text = feed(&state, "demo", FeedFilter::Runs);
    assert!(text.contains("run-daily-001@almanac.run"));
}

#[test]
fn lineage_endpoint_returns_deps() {
    let state = seeded();
    match lineage_for(&state, "demo", "weekly-strategy") {
        LineageAnswer::Verdicts(deps) => {
            assert_eq!(deps.len(), 1);
            assert!(matches!(deps[0].satisfied, Satisfies::Ready { .. }));
            assert_eq!(deps[0].producer_schedule_id.as_deref(), Some("daily-brief"));
        }
        _ => panic!("expected verdicts"),
    }
    assert!(matches!(lineage_for(&state, "demo", "nightly-index"), LineageAnswer::NoContracts));
}

#[test]
fn lineage_needs_a_run() {
    let mut state = seeded();
    state.upsert_schedule(sched("lonely", "demo"));
    state.add_contract(
        "demo",
        almanac::cli::declared_contract(
            "lonely".into(),
            almanac::model::ContractRole::Consume,
            "brief".into(),
            1,
            false,
            60,
        ),
    );
    assert!(matches!(lineage_for(&state, "demo", "lonely"), LineageAnswer::NoRun));
}

#[test]
fn unknown_community_returns_empty_feed() {
    let state = seeded();
    let text = feed(&state, "ghost", FeedFilter::Schedule);
    assert!(text.contains("BEGIN:VCALENDAR"));
    assert!(!text.contains("BEGIN:VEVENT"));
}

#[test]
fn full_feed_is_valid_and_has_all_schedules() {
    let state = seeded();
    let text = feed(&state, "demo", FeedFilter::Schedule);
    let flat = unfold(&text);
    assert!(Calendar::from_str(&text).is_ok(), "feed must parse");
    assert!(flat.contains("UID:daily-brief@almanac"));
    assert!(flat.contains("UID:weekly-strategy@almanac"));
    assert!(flat.contains("UID:nightly-index@almanac"));
}

#[test]
fn succeeded_run_shows_confirmed_and_green_check() {
    let state = seeded();
    let flat = unfold(&feed(&state, "demo", FeedFilter::Schedule));
    assert!(flat.contains("STATUS:CONFIRMED"));
    assert!(flat.contains("SUMMARY:✅ Daily research brief"));
}

#[test]
fn failed_run_shows_cancelled_and_red_x() {
    let state = seeded();
    let flat = unfold(&feed(&state, "demo", FeedFilter::Schedule));
    assert!(flat.contains("STATUS:CANCELLED"));
    assert!(flat.contains("SUMMARY:❌ Nightly vector index rebuild"));
    assert!(flat.contains("Failed: index writer OOM"));
}

#[test]
fn weekly_strategy_renders_dependency_on_daily_brief() {
    let state = seeded();
    let flat = unfold(&feed(&state, "demo", FeedFilter::Schedule));
    assert!(flat.contains("RELATED-TO;RELTYPE=DEPENDS-ON:daily-brief@almanac"), "missing RELATED-TO edge");
    assert!(flat.contains("✅ research-brief (v3\\, materialized"), "missing ✅ lineage marker in DESCRIPTION");
}

#[test]
fn runs_feed_has_concrete_run_events() {
    let state = seeded();
    let text = feed(&state, "demo", FeedFilter::Runs);
    let flat = unfold(&text);
    assert!(Calendar::from_str(&text).is_ok());
    assert!(flat.contains("run-daily-001@almanac.run"));
    assert!(flat.contains("run-index-001@almanac.run"));
    assert!(flat.contains("run-pr-042@almanac.run"));
}

#[test]
fn unknown_community_yields_empty_valid_feed() {
    let state = seeded();
    let text = feed(&state, "ghost-town", FeedFilter::Schedule);
    assert!(Calendar::from_str(&text).is_ok());
    assert!(text.contains("BEGIN:VCALENDAR"));
    assert!(!text.contains("BEGIN:VEVENT"), "no events for unknown community");
}

#[test]
fn ingestion_then_feed_reflects_new_state() {
    let mut state = seeded();
    state.upsert_schedule(Schedule {
        schedule_id: "hourly-heartbeat".into(),
        community_id: "demo".into(),
        channel_id: "demo".into(),
        summary: "Hourly heartbeat".into(),
        description: "Health check.".into(),
        rrule: "FREQ=HOURLY".into(),
        dtstart: 1700000000,
        calendar_group: "infra".into(),
        color_category: None,
        owner_agent_id: None,
        created_at: 1700000000,
        updated_at: 1700000000,
    });
    state.upsert_run(Run {
        run_id: "run-heartbeat-1".into(),
        schedule_id: "hourly-heartbeat".into(),
        scheduled_for: 1700003600,
        started_at: Some(1700003610),
        finished_at: Some(1700003620),
        status: RunStatus::Succeeded,
        error: None,
    });
    let flat = unfold(&feed(&state, "demo", FeedFilter::Schedule));
    assert!(flat.contains("UID:hourly-heartbeat@almanac"));
    assert!(flat.contains("SUMMARY:✅ Hourly heartbeat"));
    assert!(flat.contains("STATUS:CONFIRMED"));
}

#[test]
fn state_snapshot_lineage_covers_consumers() {
    let state = seeded();
    let lineage = snapshot_lineage(&state, "demo", 1_700_000_000);
    assert_eq!(lineage.len(), 1);
    assert_eq!(lineage[0].0, "weekly-strategy");
    assert_eq!(verdict_state(&lineage[0].1[0].satisfied), "ready");
    assert_eq!(verdict_state(&Satisfies::Missing), "missing");
    assert_eq!(verdict_state(&Satisfies::VersionMismatch { found: 1, need: 2 }), "version_mismatch");
}

#[test]
fn seeded_store_holds_the_research_brief() {
    let store = seeded_manifest_store();
    let m = store.latest_for_schema("research-brief").unwrap().unwrap();
    assert_eq!(m.manifest_id, "run-daily-001:research-brief");
    assert_eq!(m.schema_version, 3);
    match example_skip_reason() {
        almanac::model::SkipReason::MissingInput(s) => assert_eq!(s, "research-brief"),
        other => panic!("unexpected {other:?}"),
    }
}

#[test]
fn dashboard_inlines_assets_and_escapes_community() {
    let page = dashboard_html(
        "<style>__STYLES__</style><script>__SCRIPT__</script><h1>__COMMUNITY__</h1>",
        "body{}",
        "start();",
        "a<b>&\"c\"",
    );
    assert_eq!(
        page,
        "<style>body{}</style><script>window.__ALMANAC_COMMUNITY__=\"a&lt;b&gt;&amp;\\\"c\\\"\";\nstart();</script><h1>a&lt;b&gt;&amp;\"c\"</h1>"
    );
}

#[test]
fn schedule_only_feed_has_no_run_state() {
    let state = seeded();
    let text = almanac::server::views::plan_feed_for(&state, "demo").unwrap();
    let flat = unfold(&text);
    assert!(Calendar::from_str(&text).is_ok());
    assert!(flat.contains("UID:daily-brief@almanac"));
    assert!(flat.contains("SUMMARY:Daily research brief\r\n"));
    assert!(!flat.contains("STATUS:CONFIRMED"));
    assert!(!flat.contains("STATUS:CANCELLED"));
    assert!(!flat.contains("RELATED-TO"));
    assert!(!flat.contains("UID:pr-review@almanac"));
}

#[test]
fn webhook_work_shows_on_the_runs_feed_only() {
    let state = seeded();
    let plans = unfold(&feed(&state, "demo", FeedFilter::Schedule));
    assert!(!plans.contains("UID:pr-review@almanac"));
    let runs = unfold(&feed(&state, "demo", FeedFilter::Runs));
    assert!(runs.contains("run-pr-042@almanac.run"));
    assert!(runs.contains("CATEGORIES:almanac\\,run\\,webhook"));
}

#[test]
fn an_older_schedule_write_does_not_replace_a_newer_one() {
    let mut s = State::new();
    let mut newer = sched("m", "c");
    newer.updated_at = 2_000;
    newer.summary = "newer".into();
    s.upsert_schedule(newer);
    let mut older = sched("m", "c");
    older.updated_at = 1_000;
    older.summary = "older".into();
    s.upsert_schedule(older);
    assert_eq!(s.schedules_for("c")[0].summary, "newer");
    let mut latest = sched("m", "c");
    latest.updated_at = 2_000;
    latest.summary = "tie goes to the new write".into();
    s.upsert_schedule(latest);
    assert_eq!(s.schedules_for("c")[0].summary, "tie goes to the new write");
}
