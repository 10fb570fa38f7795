use almanac::cli::{config_from_cli, contract_to_event, declared_contract, lineage_report, lineage_url, role_as_str};
use almanac::config::Config;
use almanac::kinds::KIND_ALMANAC_CONTRACT;
use almanac::lineage::check::{Dependency, Satisfies};
use almanac::mcp::{
    community_of, AlmanacMcp, CheckLineageArgs, CommunityArgs, CreateScheduleArgs,
    DeclareContractArgs, RecordManifestArgs, RegisterAgentArgs, TriggerRunArgs, UpdateRunArgs,
};
use almanac::model::{ContractRole, RunStatus};
use almanac::server::seed::seed_demo;
use almanac::server::state::State;

fn tools() -> AlmanacMcp {
    let mut state = State::new();
    seed_demo(&mut state);
    AlmanacMcp::new(state, "demo".into())
}

#[test]
fn check_lineage_returns_ready_for_seeded_demo() {
    let t = tools();
    let text = t
        .check_lineage(CheckLineageArgs { schedule_id: "weekly-strategy".into(), community: Some("demo".into()) })
        .unwrap();
    assert!(text.contains("weekly-strategy"), "resp: {text}");
    assert!(text.contains("✅"), "expected ready marker; got: {text}");
}

#[test]
fn check_lineage_at_a_fixed_time() {
    let t = tools();
    let text = t
        .check_lineage_at(CheckLineageArgs { schedule_id: "weekly-strategy".into(), community: None }, 0)
        .unwrap();
    assert_eq!(text, "Lineage for `weekly-strategy`:\n- ✅ ready (v3)  research-brief");
    let none = t
        .check_lineage_at(CheckLineageArgs { schedule_id: "nightly-index".into(), community: None }, 0)
        .unwrap();
    assert_eq!(none, "Schedule `nightly-index` has no contracts in community `demo`.");
}

fn schedule_args(id: &str, summary: &str) -> CreateScheduleArgs {
    CreateScheduleArgs {
        schedule_id: id.into(),
        summary: summary.into(),
        rrule: None,
        owner_agent_id: None,
        calendar_group: None,
        color: None,
        description: None,
        channel: None,
        dtstart: None,
        community: None,
    }
}

#[test]
fn create_schedule_then_list_shows_it() {
    let mut t = tools();
    let _ = t.create_schedule(schedule_args("my-test-sched", "My Test Schedule"));
    let text = t.list_schedules(CommunityArgs { community: Some("demo".into()) });
    assert!(text.contains("my-test-sched"), "list missing new sched: {text}");
}

#[test]
fn create_schedule_defaults_and_text() {
    let mut t = AlmanacMcp::new(State::new(), "demo".into());
    let text = t.create_schedule_at(schedule_args("s1", "First"), 42);
    assert_eq!(text, "Schedule `s1` created in community `demo`. Subscribe: /calendar/demo.ics");
    let s = &t.state.schedules_for("demo")[0];
    assert_eq!(s.dtstart, 42);
    assert_eq!(s.calendar_group, "default");
    assert_eq!(s.rrule, "");
    let list = t.list_schedules(CommunityArgs { community: None });
    assert_eq!(list, "Schedules in `demo`:\n- `s1` [pending] rrule=`` owner=`(unowned)` — First");
    let empty = t.list_schedules(CommunityArgs { community: Some("void".into()) });
    assert_eq!(empty, "No schedules in community `void`.");
}

#[test]
fn register_agent_text_and_record() {
    let mut t = AlmanacMcp::new(State::new(), "demo".into());
    let text = t.register_agent_at(
        RegisterAgentArgs {
            agent_id: "research-bot".into(),
            name: None,
            avatar: None,
            kind: None,
            description: None,
            community: None,
        },
        7,
    );
    assert_eq!(text, "Registered agent `research-bot` (research-bot). Use this agent_id when creating schedules.");
    let agents = t.state.agents_for("demo");
    assert_eq!(agents.len(), 1);
    assert_eq!(agents[0].kind, "mcp-tool");
    assert_eq!(agents[0].created_at, 7);
}

#[test]
fn declare_contract_roles() {
    let mut t = AlmanacMcp::new(State::new(), "demo".into());
    let args = |role: &str| DeclareContractArgs {
        schedule: "weekly".into(),
        role: role.into(),
        schema: "brief".into(),
        min_version: None,
        any_version: None,
        freshness: None,
        community: None,
    };
    let text = t.declare_contract(args("consumer"));
    assert_eq!(text, "Contract `weekly-consumer-brief` declared: schedule `weekly` consumers schema `brief`.");
    let cs = t.state.contracts_for("demo");
    assert_eq!(cs.len(), 1);
    assert_eq!(cs[0].role, ContractRole::Consume);
    assert_eq!(cs[0].freshness_window, 86_400);
    assert_eq!(cs[0].min_version, 1);
    let bad = t.declare_contract(args("eat"));
    assert_eq!(bad, "Unknown role `eat`. Use `produce` or `consume`.");
    assert_eq!(t.state.contracts_for("demo").len(), 1);
}

#[test]
fn record_manifest_then_lineage_is_ready() {
    let mut t = AlmanacMcp::new(State::new(), "demo".into());
    t.declare_contract(DeclareContractArgs {
        schedule: "weekly".into(),
        role: "consume".into(),
        schema: "brief".into(),
        min_version: None,
        any_version: None,
        freshness: None,
        community: None,
    });
    let text = t.record_manifest_at(
        RecordManifestArgs {
            run_id: "r1".into(),
            schema_id: "brief".into(),
            schema_version: None,
            content_hash: None,
            commit_sha: None,
            uri: None,
            bytes: None,
        },
        1_000,
    );
    assert_eq!(text, "Manifest `r1:brief` recorded. Consumers of schema `brief` will now see this input as ready.");
    let lineage = t.check_lineage_at(CheckLineageArgs { schedule_id: "weekly".into(), community: None }, 1_000).unwrap();
    assert_eq!(lineage, "Lineage for `weekly`:\n- ✅ ready (v1)  brief");
}

#[test]
fn trigger_then_update_run_status() {
    let mut t = AlmanacMcp::new(State::new(), "research".into());
    t.create_schedule_at(schedule_args("s1", "First"), 1);
    let text = t.trigger_run_at(
        TriggerRunArgs { schedule_id: "s1".into(), run_id: None, scheduled_for: None, community: None },
        500,
    );
    assert_eq!(text, "Run `run-500` triggered for schedule `s1` in `research` (Pending).");
    let upd = |status: &str| UpdateRunArgs {
        run_id: "run-500".into(),
        status: status.into(),
        error: None,
        missing_input: None,
    };
    assert_eq!(t.update_run_status_at(upd("running"), 510), "Run `run-500` → Running.");
    assert_eq!(t.update_run_status_at(upd("wat"), 511), "Unknown status `wat`.");
    assert_eq!(t.update_run_status_at(upd("error"), 520), "Run `run-500` → Failed.");
    let run = &t.state.runs_for("research")[0].1;
    assert_eq!(run.status, RunStatus::Failed);
    assert_eq!(run.started_at, Some(510));
    assert_eq!(run.finished_at, Some(520));
    assert_eq!(run.error.as_deref(), Some("agent error"));
    let missing = UpdateRunArgs { run_id: "nope".into(), status: "ok".into(), error: None, missing_input: None };
    assert_eq!(t.update_run_status_at(missing, 530), "Run `nope` not found.");
}

#[test]
fn get_calendar_snapshot_of_demo() {
    let t = tools();
    let snap = t.get_calendar_at(CommunityArgs { community: None }, 1_700_000_000);
    assert_eq!(snap.community, "demo");
    let ids: Vec<&str> = snap.schedules.iter().map(|s| s.schedule_id.as_str()).collect();
    assert_eq!(ids, vec!["daily-brief", "nightly-index", "pr-review", "weekly-strategy"]);
    assert_eq!(snap.schedules[0].run_status, "Succeeded");
    assert_eq!(snap.schedules[3].run_status, "Pending");
    assert_eq!(snap.contracts.len(), 2);
    assert_eq!(snap.lineage.len(), 1);
    assert_eq!(community_of("demo", None), "demo");
    assert_eq!(community_of("demo", Some("x")), "x");
}

#[test]
fn declare_builds_contract_event() {
    let c = declared_contract("weekly".into(), ContractRole::Produce, "brief".into(), 2, true, 60);
    assert_eq!(c.contract_id, "weekly-produce-brief");
    assert_eq!(role_as_str(ContractRole::Consume), "consume");
    let e = contract_to_event(&c, "demo");
    assert_eq!(e.kind, KIND_ALMANAC_CONTRACT);
    assert_eq!(e.content, "");
    let tags: Vec<(&str, &str)> = e.tags.iter().map(|(k, v)| (k.as_str(), v.as_str())).collect();
    assert_eq!(
        tags,
        vec![
            ("d", "weekly-produce-brief"),
            ("schedule", "weekly"),
            ("community", "demo"),
            ("contract_role", "produce"),
            ("schema_id", "brief"),
            ("min_version", "2"),
            ("any_version", "true"),
            ("freshness_window", "60"),
        ]
    );
}

#[test]
fn cli_report_and_urls() {
    assert_eq!(
        lineage_url("http://h:1//", "demo", "weekly"),
        "http://h:1/v1/communities/demo/lineage/weekly"
    );
    let c = config_from_cli(Config::default(), Some("http://x".into()));
    assert_eq!(c.public_base_url, "http://x");
    assert_eq!(config_from_cli(Config::default(), None).public_base_url, "http://localhost:8787");
    assert_eq!(lineage_report("s", "demo", &[]), vec!["Schedule `s` has no consuming contracts."]);
    let deps = vec![Dependency {
        schema_id: "brief".into(),
        producer_schedule_id: None,
        satisfied: Satisfies::VersionMismatch { found: 1, need: 3 },
    }];
    assert_eq!(
        lineage_report("s", "demo", &deps),
        vec![
            "Lineage for `s` (demo):".to_string(),
            "  ⚠️ version mismatch (found v1, need v3+)  brief  ← produced by `<unknown producer>`".to_string()
        ]
    );
}

#[test]
fn demo_feed_renders_seeded_state() {
    let mut state = State::new();
    seed_demo(&mut state);
    assert!(almanac::server::views::feed_fits(&state, "demo", almanac::ical::feed::FeedFilter::Schedule));
    let feed = almanac::cli::demo_feed(&state, "demo").unwrap();
    assert!(feed.contains("UID:weekly-strategy@almanac"));
    assert!(!feed.contains("RELATED-TO"));
}

#[test]
fn validate_report_counts_components() {
    let text = "BEGIN:VCALENDAR\r\nVERSION:2.0\r\nPRODID:x\r\nBEGIN:VEVENT\r\nUID:a\r\nDTSTAMP:20231114T221320Z\r\nEND:VEVENT\r\nEND:VCALENDAR\r\n";
    assert_eq!(almanac::cli::validate_report(text).unwrap(), "✅ valid iCalendar — 1 component(s)");
}

#[test]
fn validate_report_gives_the_parser_error() {
    let err = almanac::cli::validate_report("not a calendar").unwrap_err();
    assert!(err.starts_with("invalid iCalendar: "));
}

#[test]
fn validate_outcome_formats_both_cases() {
    assert_eq!(almanac::cli::validate_outcome(Ok(3)).unwrap(), "✅ valid iCalendar — 3 component(s)");
    assert_eq!(almanac::cli::validate_outcome(Err("bad".into())).unwrap_err(), "invalid iCalendar: bad");
}

#[test]
fn get_calendar_returns_json_with_agents() {
    let t = tools();
    let snap = t.get_calendar_at(CommunityArgs { community: Some("demo".into()) }, 1_700_000_000);
    assert!(snap.agents.len() >= 4, "demo seeds 4 agents");
    assert!(!snap.schedules.is_empty());
}

#[test]
fn update_run_status_refuses_moves_the_state_machine_forbids() {
    let mut t = AlmanacMcp::new(State::new(), "research".into());
    t.create_schedule_at(schedule_args("s1", "First"), 1);
    t.trigger_run_at(
        TriggerRunArgs { schedule_id: "s1".into(), run_id: Some("run-1".into()), scheduled_for: None, community: None },
        500,
    );
    let upd = |status: &str| UpdateRunArgs {
        run_id: "run-1".into(),
        status: status.into(),
        error: None,
        missing_input: None,
    };
    assert_eq!(
        t.update_run_status_at(upd("succeeded"), 505),
        "Run `run-1`: illegal run state transition: Pending -> Succeeded."
    );
    assert_eq!(t.update_run_status_at(upd("running"), 510), "Run `run-1` → Running.");
    assert_eq!(t.update_run_status_at(upd("succeeded"), 520), "Run `run-1` → Succeeded.");
    assert_eq!(
        t.update_run_status_at(upd("running"), 530),
        "Run `run-1`: illegal run state transition: Succeeded -> Running."
    );
    let run = &t.state.runs_for("research")[0].1;
    assert_eq!(run.status, RunStatus::Succeeded);
    assert_eq!(run.finished_at, Some(520));
}
