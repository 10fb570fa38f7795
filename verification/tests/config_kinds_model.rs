use almanac::config::{seed_flag, Config};
use almanac::kinds::{
    in_almanac_range, is_almanac_kind, is_manifest_kind, KIND_ALMANAC_CALENDAR,
    KIND_ALMANAC_CONTRACT, KIND_ALMANAC_MANIFEST, KIND_ALMANAC_RUN, KIND_ALMANAC_SCHEDULE,
};
use almanac::model::{Contract, Manifest};

#[test]
fn url_construction() {
    let c = Config {
        public_base_url: "http://example.com".into(),
        ..Default::default()
    };
    assert_eq!(c.calendar_url("research"), "http://example.com/calendar/research.ics");
    assert_eq!(c.runs_url("research"), "http://example.com/calendar/research/runs.ics");
    assert_eq!(
        c.schedule_url("research"),
        "http://example.com/calendar/research/schedule.ics"
    );
}

#[test]
fn url_construction_strips_trailing_slash() {
    let c = Config {
        public_base_url: "http://example.com/".into(),
        ..Default::default()
    };
    assert_eq!(c.calendar_url("x"), "http://example.com/calendar/x.ics");
}

#[test]
fn url_strips_every_trailing_slash() {
    let c = Config {
        public_base_url: "http://example.com///".into(),
        ..Default::default()
    };
    assert_eq!(c.runs_url("x"), "http://example.com/calendar/x/runs.ics");
}

#[test]
fn default_config_values() {
    let c = Config::default();
    assert_eq!(c.bind, "0.0.0.0:8787");
    assert_eq!(c.default_community, "demo");
    assert!(c.seed_demo);
    assert_eq!(c.public_base_url, "http://localhost:8787");
}

#[test]
fn env_values_override_defaults() {
    let c = Config::from_env_values(
        Some("127.0.0.1:9000".to_string()),
        Some("research".to_string()),
        Some("0".to_string()),
        Some("https://cal.example.org".to_string()),
    );
    assert_eq!(c.bind, "127.0.0.1:9000");
    assert_eq!(c.default_community, "research");
    assert!(!c.seed_demo);
    assert_eq!(c.public_base_url, "https://cal.example.org");
    let d = Config::from_env_values(None, None, None, None);
    assert_eq!(d.default_community, "demo");
    assert!(d.seed_demo);
}

#[test]
fn seed_flag_words() {
    for w in ["1", "true", "TRUE", "yes"] {
        assert!(seed_flag(w), "{w}");
    }
    for w in ["0", "false", "no", "Yes", ""] {
        assert!(!seed_flag(w), "{w}");
    }
}

#[test]
fn all_kinds_in_range_and_distinct() {
    let kinds = [
        KIND_ALMANAC_SCHEDULE,
        KIND_ALMANAC_RUN,
        KIND_ALMANAC_MANIFEST,
        KIND_ALMANAC_CONTRACT,
        KIND_ALMANAC_CALENDAR,
    ];
    assert_eq!(kinds.len(), 5, "exactly five almanac kinds");
    let mut sorted = kinds.to_vec();
    sorted.sort_unstable();
    sorted.dedup();
    assert_eq!(sorted.len(), 5, "no duplicate kind numbers");
    for k in kinds {
        assert!(is_almanac_kind(k));
        assert!(in_almanac_range(k));
    }
}

#[test]
fn boundaries() {
    assert!(!is_almanac_kind(48049));
    assert!(!is_almanac_kind(48055));
    assert!(in_almanac_range(48099));
    assert!(!in_almanac_range(48100));
    assert!(!in_almanac_range(48049));
}

#[test]
fn manifest_predicate() {
    assert!(is_manifest_kind(KIND_ALMANAC_MANIFEST));
    assert!(!is_manifest_kind(KIND_ALMANAC_RUN));
}

#[test]
fn manifest_id_for_format() {
    assert_eq!(Manifest::id_for("run-1", "research-brief"), "run-1:research-brief");
    let m = Manifest {
        manifest_id: Manifest::id_for("run-1", "research-brief"),
        run_id: "run-1".into(),
        schema_id: "research-brief".into(),
        schema_version: 3,
        content_hash: "abc123".into(),
        commit_sha: Some("deadbeef".into()),
        uri: "https://github.com/org/repo/commit/deadbeef".into(),
        bytes: Some(2048),
        materialized_at: 1_700_003_900,
    };
    assert_eq!(Manifest::id_for("run-1", "research-brief"), m.manifest_id);
}

#[test]
fn default_freshness_is_24h() {
    assert_eq!(Contract::DEFAULT_FRESHNESS_WINDOW, 86_400);
}
