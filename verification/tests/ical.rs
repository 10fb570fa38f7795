use almanac::error::IcalError;
use almanac::ical::event::{
    overlay_run_status, render_run_vevent, render_schedule_vevent, status_emoji, status_to_ical,
    uid_for, EventStatus,
};
use almanac::ical::feed::{render_calendar_feed, render_fits, FeedFilter};
use almanac::ical::related::{render_dependency, Dependency, Satisfies};
use almanac::lineage::check::{Dependency as Verdict, Satisfies as VerdictState};
use almanac::model::{Calendar as CalendarMeta, Run, RunStatus, Schedule, SkipReason};
use icalendar::Calendar;
use std::str::FromStr;

fn sched() -> Schedule {
    Schedule {
        schedule_id: "daily-brief".into(),
        community_id: "research".into(),
        channel_id: "chan-1".into(),
        summary: "Daily research brief".into(),
        description: "Produces a brief every morning.".into(),
        rrule: "FREQ=DAILY;BYHOUR=9".into(),
        dtstart: 1_700_000_000,
        calendar_group: "research".into(),
        color_category: Some("#3b82f6".into()),
        owner_agent_id: None,
        created_at: 1_700_000_000,
        updated_at: 1_700_000_000,
    }
}

fn run(status: RunStatus) -> Run {
    Run {
        run_id: "run-1".into(),
        schedule_id: "daily-brief".into(),
        scheduled_for: 1_700_003_600,
        started_at: Some(1_700_003_610),
        finished_at: Some(1_700_003_900),
        status,
        error: None,
    }
}

fn render_to_string(event: icalendar::Event) -> String {
    let mut cal = Calendar::new();
    cal.push(event);
    cal.to_string()
}

fn unfold(s: &str) -> String {
    s.replace("\r\n ", "").replace("\r\n\t", "").replace("\n ", "").replace("\n\t", "")
}

#[test]
fn renders_schedule_with_rrule_and_categories() {
    let e = render_schedule_vevent(&sched()).unwrap();
    let s = render_to_string(e);
    let flat = unfold(&s);
    assert!(flat.contains("UID:daily-brief@almanac"));
    assert!(flat.contains("SUMMARY:Daily research brief"));
    assert!(flat.contains("RRULE:FREQ=DAILY;BYHOUR=9"));
    assert!(flat.contains("CATEGORIES:almanac\\,research"));
    assert!(flat.contains("STATUS:TENTATIVE"));
    assert!(Calendar::from_str(&s).is_ok(), "output must parse");
}

#[test]
fn schedule_event_times_are_utc_stamps() {
    let e = render_schedule_vevent(&sched()).unwrap();
    let flat = unfold(&render_to_string(e));
    assert!(flat.contains("DTSTART:20231114T221320Z"));
    assert!(flat.contains("DTEND:20231114T224320Z"));
    assert!(flat.contains("DTSTAMP:20231114T221320Z"));
}

#[test]
fn webhook_schedule_has_no_rrule() {
    let mut s = sched();
    s.rrule.clear();
    let e = render_schedule_vevent(&s).unwrap();
    let out = render_to_string(e);
    assert!(!out.contains("RRULE"));
}

#[test]
fn overlay_per_status_variant() {
    for st in [
        RunStatus::Pending,
        RunStatus::Running,
        RunStatus::Succeeded,
        RunStatus::Failed,
        RunStatus::Skipped(SkipReason::MissingInput("x".into())),
    ] {
        let mut e = render_schedule_vevent(&sched()).unwrap();
        overlay_run_status(&mut e, Some(&run(st.clone())));
        let out = render_to_string(e);
        let emoji = status_emoji(&st);
        assert!(out.contains(&format!("SUMMARY:{emoji}")), "missing emoji {emoji} for {st:?} in:\n{out}");
        let want_status = match &st {
            RunStatus::Pending | RunStatus::Running => "TENTATIVE",
            RunStatus::Succeeded => "CONFIRMED",
            RunStatus::Failed | RunStatus::Skipped(_) => "CANCELLED",
        };
        assert!(out.contains(&format!("STATUS:{want_status}")), "missing STATUS:{want_status} for {st:?}");
        assert!(Calendar::from_str(&out).is_ok(), "output must parse");
    }
}

#[test]
fn overlay_none_leaves_defaults() {
    let mut e = render_schedule_vevent(&sched()).unwrap();
    overlay_run_status(&mut e, None);
    let out = render_to_string(e);
    assert!(out.contains("SUMMARY:Daily research brief"));
    assert!(out.contains("STATUS:TENTATIVE"));
}

#[test]
fn overlay_twice_keeps_one_emoji() {
    let mut e = render_schedule_vevent(&sched()).unwrap();
    overlay_run_status(&mut e, Some(&run(RunStatus::Running)));
    overlay_run_status(&mut e, Some(&run(RunStatus::Succeeded)));
    let flat = unfold(&render_to_string(e));
    assert!(flat.contains("SUMMARY:✅ Daily research brief\r\n"));
    assert!(!flat.contains("⏳"));
    assert!(flat.contains("STATUS:CONFIRMED"));
}

#[test]
fn overlay_notes_describe_the_run() {
    let mut failed = run(RunStatus::Failed);
    failed.error = Some("exit 1".into());
    let mut e = render_schedule_vevent(&sched()).unwrap();
    overlay_run_status(&mut e, Some(&failed));
    let flat = unfold(&render_to_string(e));
    assert!(flat.contains("Failed: exit 1"));

    let mut skipped = run(RunStatus::Skipped(SkipReason::VersionMismatch("brief".into())));
    skipped.error = Some("old".into());
    let mut e = render_schedule_vevent(&sched()).unwrap();
    overlay_run_status(&mut e, Some(&skipped));
    let flat = unfold(&render_to_string(e));
    assert!(flat.contains("Skipped: version mismatch for `brief`. Note: old."));

    let mut e = render_schedule_vevent(&sched()).unwrap();
    overlay_run_status(&mut e, Some(&run(RunStatus::Succeeded)));
    let flat = unfold(&render_to_string(e));
    assert!(flat.contains("Succeeded at 2023-11-14T23:18:20+00:00."));
}

#[test]
fn status_mapping_and_emoji_legend() {
    assert_eq!(status_to_ical(&RunStatus::Pending), EventStatus::Tentative);
    assert_eq!(status_to_ical(&RunStatus::Running), EventStatus::Tentative);
    assert_eq!(status_to_ical(&RunStatus::Succeeded), EventStatus::Confirmed);
    assert_eq!(status_to_ical(&RunStatus::Failed), EventStatus::Cancelled);
    assert_eq!(EventStatus::Cancelled.as_str(), "CANCELLED");
    assert_eq!(status_emoji(&RunStatus::Pending), "🟡");
    assert_eq!(status_emoji(&RunStatus::Running), "⏳");
    assert_eq!(status_emoji(&RunStatus::Skipped(SkipReason::MissingInput("x".into()))), "⏸");
}

#[test]
fn uid_format() {
    assert_eq!(uid_for("daily-brief"), "daily-brief@almanac");
}

#[test]
fn invalid_rrule_rejected() {
    let mut s = sched();
    s.rrule = "GARBLY".into();
    assert!(render_schedule_vevent(&s).is_err());
    s.rrule = "FREQ=WAT".into();
    assert!(render_schedule_vevent(&s).is_err());
}

#[test]
fn rrule_errors_give_their_reason() {
    let mut s = sched();
    s.rrule = "GARBLY".into();
    match render_schedule_vevent(&s) {
        Err(IcalError::InvalidRrule { rrule, reason }) => {
            assert_eq!(rrule, "GARBLY");
            assert_eq!(reason, "must start with FREQ=");
        }
        _ => panic!("expected an RRULE error"),
    }
    s.rrule = "FREQ=WAT".into();
    match render_schedule_vevent(&s) {
        Err(IcalError::InvalidRrule { reason, .. }) => assert_eq!(reason, "unknown FREQ"),
        _ => panic!("expected an RRULE error"),
    }
    s.rrule = "  freq=weekly;byday=mo ".into();
    assert!(render_schedule_vevent(&s).is_ok());
}

#[test]
fn run_event_uses_run_uid() {
    let e = render_run_vevent(&run(RunStatus::Succeeded), "Daily research brief", false).unwrap();
    let flat = unfold(&render_to_string(e));
    assert!(flat.contains("UID:run-1@almanac.run"));
    assert!(flat.contains("CATEGORIES:almanac\\,run"));
    assert!(flat.contains("SUMMARY:✅ Daily research brief"));
    assert!(flat.contains("DTSTART:20231114T231330Z"));
}

fn weekly() -> Schedule {
    Schedule {
        schedule_id: "weekly-strat".into(),
        community_id: "research".into(),
        channel_id: "chan-2".into(),
        summary: "Weekly strategy".into(),
        description: "Reads the daily brief.".into(),
        rrule: "FREQ=WEEKLY;BYDAY=MO".into(),
        dtstart: 1_700_000_000,
        calendar_group: "research".into(),
        color_category: None,
        owner_agent_id: None,
        created_at: 1_700_000_000,
        updated_at: 1_700_000_000,
    }
}

fn dep(satisfied: Satisfies) -> Dependency {
    Dependency {
        producer_schedule_id: "daily-brief".into(),
        schema_id: "research-brief".into(),
        satisfied,
    }
}

#[test]
fn ready_renders_green_check() {
    let mut e = render_schedule_vevent(&weekly()).unwrap();
    render_dependency(&mut e, &[dep(Satisfies::Ready { materialized_at: 1_700_003_900, version: 3 })]);
    let out = render_to_string(e);
    let flat = unfold(&out);
    assert!(flat.contains("RELATED-TO;RELTYPE=DEPENDS-ON:daily-brief@almanac"));
    assert!(flat.contains("✅ research-brief (v3\\, materialized"));
    assert!(Calendar::from_str(&out).is_ok());
}

#[test]
fn missing_renders_red_x() {
    let mut e = render_schedule_vevent(&weekly()).unwrap();
    render_dependency(&mut e, &[dep(Satisfies::Missing)]);
    let flat = unfold(&render_to_string(e));
    assert!(flat.contains("❌ research-brief (no manifest"));
}

#[test]
fn version_mismatch_renders_warning() {
    let mut e = render_schedule_vevent(&weekly()).unwrap();
    render_dependency(&mut e, &[dep(Satisfies::VersionMismatch { found: 2, need: 7 })]);
    let flat = unfold(&render_to_string(e));
    assert!(flat.contains("⚠️ research-brief (v2 found\\, need v7+)"));
}

#[test]
fn no_deps_is_noop() {
    let mut e = render_schedule_vevent(&weekly()).unwrap();
    let before = render_to_string(e.clone());
    render_dependency(&mut e, &[]);
    let after = render_to_string(e);
    assert_eq!(before, after);
}

#[test]
fn unrepresentable_materialization_shows_raw_seconds() {
    let mut e = render_schedule_vevent(&weekly()).unwrap();
    render_dependency(
        &mut e,
        &[dep(Satisfies::Ready { materialized_at: i64::MAX, version: 1 }), dep(Satisfies::Missing)],
    );
    let flat = unfold(&render_to_string(e));
    assert!(flat.contains(&format!("materialized {})", i64::MAX)));
    assert_eq!(flat.matches("RELATED-TO;RELTYPE=DEPENDS-ON:daily-brief@almanac").count(), 2);
    assert!(flat.contains("Dependencies:\\n✅"));
}

fn feed_sched(id: &str) -> Schedule {
    Schedule {
        schedule_id: id.into(),
        community_id: "research".into(),
        channel_id: "c".into(),
        summary: format!("Summary {id}"),
        description: "desc".into(),
        rrule: "FREQ=DAILY;BYHOUR=9".into(),
        dtstart: 1_700_000_000,
        calendar_group: "research".into(),
        color_category: None,
        owner_agent_id: None,
        created_at: 1_700_000_000,
        updated_at: 1_700_000_000,
    }
}

#[test]
fn schedule_feed_has_two_events_and_calname() {
    let schedules = vec![feed_sched("a"), feed_sched("b")];
    let feed =
        render_calendar_feed(&schedules, &[], &[], &[], FeedFilter::Schedule, "research").unwrap();
    assert!(feed.contains("X-WR-CALNAME:research"));
    assert!(feed.contains("UID:a@almanac"));
    assert!(feed.contains("UID:b@almanac"));
    assert!(Calendar::from_str(&feed).is_ok());
}

#[test]
fn feed_runs_feed_only_includes_runs() {
    let schedules = vec![feed_sched("a"), feed_sched("b")];
    let runs = vec![(
        "a".to_string(),
        Run {
            run_id: "r1".into(),
            schedule_id: "a".into(),
            scheduled_for: 1_700_000_000,
            started_at: Some(1_700_000_010),
            finished_at: Some(1_700_000_020),
            status: RunStatus::Succeeded,
            error: None,
        },
    )];
    let feed = render_calendar_feed(&schedules, &runs, &[], &[], FeedFilter::Runs, "research").unwrap();
    assert!(feed.contains("r1@almanac.run"));
    assert!(!feed.contains("UID:b@almanac"));
}

#[test]
fn calendar_meta_provides_calname() {
    let schedules = vec![feed_sched("a")];
    let cal = CalendarMeta {
        calendar_id: "c1".into(),
        community_id: "research".into(),
        name: "Research Schedules".into(),
        description: "all".into(),
        color: None,
        schedule_ids: vec!["a".into()],
    };
    let feed =
        render_calendar_feed(&schedules, &[], &[], &[cal], FeedFilter::Schedule, "ignored").unwrap();
    assert!(feed.contains("X-WR-CALNAME:Research Schedules"));
}

#[test]
fn feed_fails_on_first_bad_rrule_and_keeps_order() {
    let mut bad = feed_sched("b");
    bad.rrule = "NOPE".into();
    let schedules = vec![feed_sched("z"), bad, feed_sched("a")];
    match render_calendar_feed(&schedules, &[], &[], &[], FeedFilter::Schedule, "c") {
        Err(IcalError::InvalidRrule { rrule, .. }) => assert_eq!(rrule, "NOPE"),
        _ => panic!("expected the bad RRULE to fail the feed"),
    }
    let ok = vec![feed_sched("z"), feed_sched("a")];
    let feed = render_calendar_feed(&ok, &[], &[], &[], FeedFilter::Schedule, "c").unwrap();
    assert!(feed.find("UID:z@almanac").unwrap() < feed.find("UID:a@almanac").unwrap());
    assert!(feed.contains("X-WR-TIMEZONE:UTC"));
    assert!(feed.contains("PRODID:ICALENDAR-RS"));
}

#[test]
fn feed_renders_verdicts_with_known_producers() {
    let schedules = vec![weekly()];
    let deps = vec![(
        "weekly-strat".to_string(),
        vec![
            Verdict {
                schema_id: "research-brief".into(),
                producer_schedule_id: Some("daily-brief".into()),
                satisfied: VerdictState::Missing,
            },
            Verdict {
                schema_id: "orphan".into(),
                producer_schedule_id: None,
                satisfied: VerdictState::Missing,
            },
        ],
    )];
    let feed =
        render_calendar_feed(&schedules, &[], &deps, &[], FeedFilter::Schedule, "research").unwrap();
    let flat = unfold(&feed);
    assert!(flat.contains("RELATED-TO;RELTYPE=DEPENDS-ON:daily-brief@almanac"));
    assert!(flat.contains("❌ research-brief"));
    assert!(!flat.contains("orphan"));
}

#[test]
fn render_fits_flags_the_last_half_hour_of_time() {
    let mut late = feed_sched("late");
    late.dtstart = 8_210_266_876_799 - 1_799;
    assert!(!render_fits(&[late.clone()], &[], FeedFilter::Schedule));
    late.dtstart = 8_210_266_876_799 - 1_800;
    assert!(render_fits(&[late.clone()], &[], FeedFilter::Schedule));
    let mut out_of_range = feed_sched("far");
    out_of_range.dtstart = i64::MAX;
    assert!(render_fits(&[out_of_range], &[], FeedFilter::Schedule));
}

#[test]
fn webhook_run_is_in_the_webhook_category() {
    let e = render_run_vevent(&run(RunStatus::Succeeded), "On PR merge", true).unwrap();
    let flat = unfold(&render_to_string(e));
    assert!(flat.contains("CATEGORIES:almanac\\,run\\,webhook"));
}

#[test]
fn overlay_keeps_the_names_own_emoji() {
    let mut s = sched();
    s.summary = "📰 Daily research brief".into();
    let mut e = render_schedule_vevent(&s).unwrap();
    overlay_run_status(&mut e, Some(&run(RunStatus::Succeeded)));
    let flat = unfold(&render_to_string(e.clone()));
    assert!(flat.contains("SUMMARY:✅ 📰 Daily research brief\r\n"));
    overlay_run_status(&mut e, Some(&run(RunStatus::Failed)));
    let flat = unfold(&render_to_string(e));
    assert!(flat.contains("SUMMARY:❌ 📰 Daily research brief\r\n"));
}

#[test]
fn schedule_feed_leaves_out_webhook_schedules() {
    let mut hook = sched();
    hook.schedule_id = "pr-review".into();
    hook.rrule = "".into();
    let feed = render_calendar_feed(&[sched(), hook], &[], &[], &[], FeedFilter::Schedule, "research").unwrap();
    assert!(feed.contains("UID:daily-brief@almanac"));
    assert!(!feed.contains("UID:pr-review@almanac"));
}

#[test]
fn overlay_trims_the_summary() {
    let mut s = sched();
    s.summary = "Daily ".into();
    let mut e = render_schedule_vevent(&s).unwrap();
    overlay_run_status(&mut e, Some(&run(RunStatus::Succeeded)));
    let flat = unfold(&render_to_string(e));
    assert!(flat.contains("SUMMARY:✅ Daily\r\n"));

    let mut s = sched();
    s.summary = "   Daily brief".into();
    let mut e = render_schedule_vevent(&s).unwrap();
    overlay_run_status(&mut e, Some(&run(RunStatus::Failed)));
    let flat = unfold(&render_to_string(e));
    assert!(flat.contains("SUMMARY:❌ Daily brief\r\n"));
}
