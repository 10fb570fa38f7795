use almanac::error::IngestError;
use almanac::ingest::manifest::{content_hash, manifest_from_agent_output};
use almanac::ingest::run::{
    run_from_fire_claim, signal_from_event, transition, RunSignal, KIND_WORKFLOW_FIRE,
};
use almanac::ingest::schedule::{cron_to_rrule, schedule_from_workflow_def, KIND_WORKFLOW_DEF};
use almanac::model::{Run, RunStatus, SkipReason};
use almanac::source::{SourceEvent, Tag};

fn ev(tags: Vec<Tag>) -> SourceEvent {
    SourceEvent { kind: 30620, content: String::new(), tags, created_at: 1_700_000_000 }
}

#[test]
fn first_tag_value_finds_d_tag() {
    let e = ev(vec![vec!["d".into(), "daily-brief".into()]]);
    assert_eq!(e.first_tag_value("d"), Some("daily-brief"));
    assert_eq!(e.first_tag_value("missing"), None);
}

#[test]
fn typed_value_form_a() {
    let e = ev(vec![vec!["schema_id".into(), "research-brief".into()]]);
    assert_eq!(e.first_typed_value("schema_id"), Some("research-brief"));
}

#[test]
fn typed_value_form_b_colon_prefixed() {
    let e = ev(vec![vec!["schema_id:research-brief".into()]]);
    assert_eq!(e.first_typed_value("schema_id"), Some("research-brief"));
}

#[test]
fn all_tag_values_returns_in_order() {
    let e = ev(vec![vec!["alt".into(), "first".into()], vec!["alt".into(), "second".into()]]);
    assert_eq!(e.all_tag_values("alt"), vec!["first", "second"]);
}

#[test]
fn empty_tag_handled() {
    let e = ev(vec![vec![]]);
    assert_eq!(e.first_tag_value("d"), None);
}

#[test]
fn first_tag_value_takes_the_first_match() {
    let e = ev(vec![vec!["d".into(), "one".into()], vec!["d".into(), "two".into()]]);
    assert_eq!(e.first_tag_value("d"), Some("one"));
    let bare = ev(vec![vec!["d".into()]]);
    assert_eq!(bare.first_tag_value("d"), None);
}

fn fire(tags: Vec<Tag>) -> SourceEvent {
    SourceEvent { kind: KIND_WORKFLOW_FIRE, content: String::new(), tags, created_at: 1_700_000_000 }
}

fn fresh_run() -> Run {
    run_from_fire_claim(&fire(vec![
        vec!["d".into(), "run-1".into()],
        vec!["schedule".into(), "daily-brief".into()],
        vec!["scheduled_for".into(), "1700003600".into()],
    ]))
    .unwrap()
}

#[test]
fn fire_claim_yields_pending_run() {
    let r = fresh_run();
    assert_eq!(r.run_id, "run-1");
    assert_eq!(r.schedule_id, "daily-brief");
    assert_eq!(r.scheduled_for, 1_700_003_600);
    assert_eq!(r.status, RunStatus::Pending);
    assert!(r.started_at.is_none());
}

#[test]
fn fire_claim_errors_name_the_missing_tag() {
    let mut wrong = fire(vec![]);
    wrong.kind = 1;
    assert!(matches!(run_from_fire_claim(&wrong), Err(IngestError::UnexpectedKind { kind: 1 })));
    let no_d = fire(vec![vec!["schedule".into(), "s".into()]]);
    assert!(matches!(run_from_fire_claim(&no_d), Err(IngestError::MissingTag { tag: "d" })));
    let bad_time = fire(vec![
        vec!["d".into(), "r".into()],
        vec!["schedule".into(), "s".into()],
        vec!["scheduled_for".into(), "soon".into()],
    ]);
    assert!(matches!(
        run_from_fire_claim(&bad_time),
        Err(IngestError::InvalidTag { tag: "scheduled_for", .. })
    ));
    let no_time = fire(vec![vec!["d".into(), "r".into()], vec!["schedule".into(), "s".into()]]);
    assert!(matches!(
        run_from_fire_claim(&no_time),
        Err(IngestError::MissingTag { tag: "scheduled_for" })
    ));
}

#[test]
fn legal_transitions() {
    let mut r = fresh_run();
    transition(&mut r, RunSignal::Started { at: 10 }).unwrap();
    assert_eq!(r.status, RunStatus::Running);
    assert_eq!(r.started_at, Some(10));
    transition(&mut r, RunSignal::Succeeded { at: 20 }).unwrap();
    assert_eq!(r.status, RunStatus::Succeeded);
    assert_eq!(r.finished_at, Some(20));
}

#[test]
fn pending_can_succeed_directly() {
    let mut r = fresh_run();
    transition(&mut r, RunSignal::Succeeded { at: 30 }).unwrap();
    assert_eq!(r.status, RunStatus::Succeeded);
    assert_eq!(r.started_at, Some(30));
}

#[test]
fn failed_captures_error() {
    let mut r = fresh_run();
    transition(&mut r, RunSignal::Started { at: 10 }).unwrap();
    transition(&mut r, RunSignal::Failed { at: 15, error: "exit 1".into() }).unwrap();
    assert_eq!(r.status, RunStatus::Failed);
    assert_eq!(r.error.as_deref(), Some("exit 1"));
}

#[test]
fn skipped_only_from_pending() {
    let mut r = fresh_run();
    transition(
        &mut r,
        RunSignal::Skipped { at: 5, reason: SkipReason::MissingInput("research-brief".into()) },
    )
    .unwrap();
    assert_eq!(r.status, RunStatus::Skipped(SkipReason::MissingInput("research-brief".into())));
}

#[test]
fn illegal_succeeded_to_running() {
    let mut r = fresh_run();
    transition(&mut r, RunSignal::Succeeded { at: 30 }).unwrap();
    let err = transition(&mut r, RunSignal::Started { at: 40 }).unwrap_err();
    assert!(matches!(err, IngestError::IllegalTransition { .. }));
}

#[test]
fn illegal_skipped_after_started() {
    let mut r = fresh_run();
    transition(&mut r, RunSignal::Started { at: 10 }).unwrap();
    let err = transition(
        &mut r,
        RunSignal::Skipped { at: 11, reason: SkipReason::MissingInput("x".into()) },
    )
    .unwrap_err();
    assert!(matches!(err, IngestError::IllegalTransition { .. }));
}

#[test]
fn refused_transition_leaves_run_unchanged_and_names_states() {
    let mut r = fresh_run();
    transition(&mut r, RunSignal::Succeeded { at: 30 }).unwrap();
    let before = r.clone();
    match transition(&mut r, RunSignal::Failed { at: 40, error: "late".into() }) {
        Err(IngestError::IllegalTransition { from, to }) => {
            assert_eq!(from, "Succeeded");
            assert_eq!(to, "Failed");
        }
        other => panic!("unexpected {other:?}"),
    }
    assert_eq!(r, before);
}

#[test]
fn signal_from_event_parses_all_variants() {
    let mk = |tags: Vec<Tag>| SourceEvent { kind: 0, content: String::new(), tags, created_at: 99 };
    let s = signal_from_event(&mk(vec![vec!["status".into(), "running".into()]]), 100).unwrap();
    assert_eq!(s, RunSignal::Started { at: 100 });
    let s = signal_from_event(&mk(vec![vec!["status".into(), "succeeded".into()]]), 100).unwrap();
    assert_eq!(s, RunSignal::Succeeded { at: 100 });
    let s = signal_from_event(
        &mk(vec![vec!["status".into(), "failed".into()], vec!["error".into(), "boom".into()]]),
        100,
    )
    .unwrap();
    assert_eq!(s, RunSignal::Failed { at: 100, error: "boom".into() });
    let s = signal_from_event(
        &mk(vec![
            vec!["status".into(), "skipped".into()],
            vec!["missing_input".into(), "research-brief".into()],
        ]),
        100,
    )
    .unwrap();
    assert_eq!(
        s,
        RunSignal::Skipped { at: 100, reason: SkipReason::MissingInput("research-brief".into()) }
    );
    let s = signal_from_event(
        &mk(vec![
            vec!["status".into(), "skipped".into()],
            vec!["version_mismatch".into(), "research-brief".into()],
        ]),
        100,
    )
    .unwrap();
    assert!(matches!(s, RunSignal::Skipped { reason: SkipReason::VersionMismatch(_), .. }));
}

#[test]
fn signal_from_event_unknown_status_is_none() {
    let e = SourceEvent {
        kind: 0,
        content: String::new(),
        tags: vec![vec!["status".into(), "wat".into()]],
        created_at: 99,
    };
    assert!(signal_from_event(&e, 100).is_none());
}

fn def(tags: Vec<Tag>) -> SourceEvent {
    SourceEvent {
        kind: KIND_WORKFLOW_DEF,
        content: "fallback description".into(),
        tags,
        created_at: 1_700_000_000,
    }
}

#[test]
fn parses_standard_daily_def() {
    let e = def(vec![
        vec!["d".into(), "daily-brief".into()],
        vec!["name".into(), "Daily research brief".into()],
        vec!["description".into(), "Produces a brief every morning.".into()],
        vec!["rrule".into(), "FREQ=DAILY;BYHOUR=9".into()],
        vec!["community".into(), "research".into()],
        vec!["channel".into(), "chan-1".into()],
        vec!["calendar_group".into(), "research".into()],
        vec!["color".into(), "#3b82f6".into()],
    ]);
    let s = schedule_from_workflow_def(&e).unwrap();
    assert_eq!(s.schedule_id, "daily-brief");
    assert_eq!(s.summary, "Daily research brief");
    assert_eq!(s.rrule, "FREQ=DAILY;BYHOUR=9");
    assert_eq!(s.community_id, "research");
    assert_eq!(s.channel_id, "chan-1");
    assert_eq!(s.calendar_group, "research");
    assert_eq!(s.color_category.as_deref(), Some("#3b82f6"));
}

#[test]
fn parses_weekly_cron_def() {
    let e = def(vec![
        vec!["d".into(), "weekly-strat".into()],
        vec!["name".into(), "Weekly strategy".into()],
        vec!["cron".into(), "0 9 * * 1".into()],
        vec!["community".into(), "research".into()],
    ]);
    let s = schedule_from_workflow_def(&e).unwrap();
    assert_eq!(s.rrule, "FREQ=WEEKLY;BYDAY=MO;BYHOUR=9;BYMINUTE=0");
}

#[test]
fn parses_webhook_def_with_no_recurrence() {
    let e = def(vec![
        vec!["d".into(), "on-merge".into()],
        vec!["name".into(), "On PR merge".into()],
        vec!["community".into(), "research".into()],
    ]);
    let s = schedule_from_workflow_def(&e).unwrap();
    assert_eq!(s.rrule, "", "webhook def has empty rrule");
}

#[test]
fn description_falls_back_to_content() {
    let e = def(vec![
        vec!["d".into(), "x".into()],
        vec!["name".into(), "X".into()],
        vec!["rrule".into(), "FREQ=DAILY".into()],
        vec!["community".into(), "c".into()],
    ]);
    let s = schedule_from_workflow_def(&e).unwrap();
    assert_eq!(s.description, "fallback description");
}

#[test]
fn rejects_wrong_kind() {
    let mut e = def(vec![]);
    e.kind = 99999;
    assert!(matches!(schedule_from_workflow_def(&e), Err(IngestError::UnexpectedKind { .. })));
}

#[test]
fn rejects_missing_d_tag() {
    let e = def(vec![vec!["name".into(), "X".into()], vec!["community".into(), "c".into()]]);
    assert!(matches!(schedule_from_workflow_def(&e), Err(IngestError::MissingTag { tag: "d" })));
}

#[test]
fn cron_to_rrule_monthly() {
    assert_eq!(cron_to_rrule("0 9 1 * *"), "FREQ=MONTHLY;BYMONTHDAY=1;BYHOUR=9;BYMINUTE=0");
}

#[test]
fn cron_to_rrule_multi_day_weekly() {
    assert_eq!(cron_to_rrule("30 8 * * 1,3,5"), "FREQ=WEEKLY;BYDAY=MO,WE,FR;BYHOUR=8;BYMINUTE=30");
}

#[test]
fn cron_to_rrule_daily_default() {
    assert_eq!(cron_to_rrule("15 9 * * *"), "FREQ=DAILY;BYHOUR=9;BYMINUTE=15");
}

#[test]
fn cron_to_rrule_garbage_falls_back() {
    assert_eq!(cron_to_rrule("not a cron"), "FREQ=DAILY");
}

fn out(content: &str) -> SourceEvent {
    SourceEvent { kind: 0, content: content.into(), tags: Vec::<Tag>::new(), created_at: 1_700_000_000 }
}

#[test]
fn github_commit_url_extracts_manifest() {
    let e = out("Done. See https://github.com/org/repo/commit/deadbeefcafebabe1234567890abcdef12345678");
    let ms = manifest_from_agent_output("run-1", &e, 100, None).unwrap();
    assert_eq!(ms.len(), 1);
    let m = &ms[0];
    assert_eq!(m.schema_id, "github-commit");
    assert_eq!(m.commit_sha.as_deref(), Some("deadbeefcafebabe1234567890abcdef12345678"));
    assert_eq!(m.manifest_id, "run-1:github-commit");
    assert_eq!(m.materialized_at, 100);
    assert!(m.uri.starts_with("https://github.com/org/repo/commit/"));
}

#[test]
fn blob_url_extracts_manifest_with_sha() {
    let e = out("Updated `src/lib.rs` at https://github.com/org/repo/blob/deadbeefcafebabe1234567890abcdef12345678/src/lib.rs");
    let ms = manifest_from_agent_output("run-1", &e, 100, None).unwrap();
    assert_eq!(ms.len(), 1);
    let m = &ms[0];
    assert_eq!(m.schema_id, "github-blob");
    assert_eq!(m.commit_sha.as_deref(), Some("deadbeefcafebabe1234567890abcdef12345678"));
}

#[test]
fn file_path_in_code_fence_extracts_manifest() {
    let e = out("Wrote `src/agents/brief.rs` and `./config.toml`.");
    let ms = manifest_from_agent_output("run-1", &e, 100, None).unwrap();
    let schemas: Vec<_> = ms.iter().map(|m| m.schema_id.as_str()).collect();
    assert_eq!(schemas, vec!["file"]);
    let m = &ms[0];
    assert_eq!(m.manifest_id, "run-1:file");
    assert_eq!(m.uri, "./config.toml");
}

#[test]
fn fallback_when_no_refs() {
    let e = out("All done, nothing to link.");
    let ms = manifest_from_agent_output("run-1", &e, 100, Some("buzz://thread/abc")).unwrap();
    assert_eq!(ms.len(), 1);
    let m = &ms[0];
    assert_eq!(m.schema_id, "agent-output");
    assert_eq!(m.uri, "buzz://thread/abc");
    assert_eq!(m.manifest_id, "run-1:agent-output");
    assert_eq!(m.schema_version, 1);
}

#[test]
fn fallback_default_uri_when_no_thread() {
    let e = out("plain text");
    let ms = manifest_from_agent_output("run-1", &e, 100, None).unwrap();
    assert_eq!(ms[0].uri, "buzz://run/run-1");
}

#[test]
fn content_hash_is_stable_hex() {
    let h1 = content_hash("hello");
    let h2 = content_hash("hello");
    let h3 = content_hash("world");
    assert_eq!(h1, h2);
    assert_ne!(h1, h3);
    assert_eq!(h1.len(), 64, "sha256 hex is 64 chars");
    assert!(h1.chars().all(|c| c.is_ascii_hexdigit()));
}

#[test]
fn content_hash_of_hello_is_sha256() {
    assert_eq!(
        content_hash("hello"),
        "2cf24dba5fb0a30e26e83b2ac5b9e29e1b161e5c1fa7425e73043362938b9824"
    );
}

#[test]
fn manifest_records_hash_and_byte_length() {
    let e = out("plain text");
    let ms = manifest_from_agent_output("run-1", &e, 100, None).unwrap();
    assert_eq!(ms[0].content_hash, content_hash("plain text"));
    assert_eq!(ms[0].bytes, Some(10));
}
