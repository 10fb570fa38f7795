use almanac::lineage::check::{check_inputs, judge, Satisfies};
use almanac::lineage::graph::{derive_edges, Edge};
use almanac::lineage::store::{InMemoryManifestStore, ManifestStore};
use almanac::model::{Contract, ContractRole, Manifest, Run, RunStatus, SkipReason};

fn manifest(schema_id: &str, version: u32, at: i64) -> Manifest {
    Manifest {
        manifest_id: format!("run-{at}:{schema_id}"),
        run_id: format!("run-{at}"),
        schema_id: schema_id.into(),
        schema_version: version,
        content_hash: "h".into(),
        commit_sha: None,
        uri: "u".into(),
        bytes: None,
        materialized_at: at,
    }
}

fn consume_contract(schema: &str, min_version: u32, freshness: u64) -> Contract {
    Contract {
        contract_id: "c".into(),
        schedule_id: "consumer".into(),
        role: ContractRole::Consume,
        schema_id: schema.into(),
        min_version,
        any_version: false,
        freshness_window: freshness,
    }
}

fn run_at(now: i64) -> Run {
    Run {
        run_id: "r".into(),
        schedule_id: "consumer".into(),
        scheduled_for: now,
        started_at: Some(now),
        finished_at: None,
        status: RunStatus::Pending,
        error: None,
    }
}

#[test]
fn ready_when_fresh_and_version_ok() {
    let mut s = InMemoryManifestStore::new();
    s.put(manifest("brief", 3, 90));
    let c = consume_contract("brief", 2, 100);
    let deps = check_inputs(&s, &run_at(100), &[c]).unwrap();
    assert_eq!(deps.len(), 1);
    assert_eq!(deps[0].satisfied, Satisfies::Ready { manifest_at: 90, version: 3 });
}

#[test]
fn missing_when_no_manifest() {
    let s = InMemoryManifestStore::new();
    let c = consume_contract("brief", 1, 100);
    let deps = check_inputs(&s, &run_at(100), &[c]).unwrap();
    assert_eq!(deps[0].satisfied, Satisfies::Missing);
}

#[test]
fn missing_when_outside_freshness_window() {
    let mut s = InMemoryManifestStore::new();
    s.put(manifest("brief", 1, 10));
    let c = consume_contract("brief", 1, 100);
    let deps = check_inputs(&s, &run_at(200), &[c]).unwrap();
    assert_eq!(deps[0].satisfied, Satisfies::Missing);
}

#[test]
fn missing_when_future_dated() {
    let mut s = InMemoryManifestStore::new();
    s.put(manifest("brief", 1, 300));
    let c = consume_contract("brief", 1, 1000);
    let deps = check_inputs(&s, &run_at(100), &[c]).unwrap();
    assert_eq!(deps[0].satisfied, Satisfies::Missing);
}

#[test]
fn version_mismatch() {
    let mut s = InMemoryManifestStore::new();
    s.put(manifest("brief", 2, 90));
    let c = consume_contract("brief", 7, 100);
    let deps = check_inputs(&s, &run_at(100), &[c]).unwrap();
    assert_eq!(deps[0].satisfied, Satisfies::VersionMismatch { found: 2, need: 7 });
}

#[test]
fn any_version_skips_version_check() {
    let mut s = InMemoryManifestStore::new();
    s.put(manifest("brief", 1, 90));
    let mut c = consume_contract("brief", 99, 100);
    c.any_version = true;
    let deps = check_inputs(&s, &run_at(100), &[c]).unwrap();
    assert!(matches!(deps[0].satisfied, Satisfies::Ready { .. }));
}

#[test]
fn skips_producing_contracts() {
    let s = InMemoryManifestStore::new();
    let produce = Contract {
        contract_id: "p".into(),
        schedule_id: "p".into(),
        role: ContractRole::Produce,
        schema_id: "brief".into(),
        min_version: 1,
        any_version: false,
        freshness_window: 100,
    };
    let deps = check_inputs(&s, &run_at(100), &[produce]).unwrap();
    assert!(deps.is_empty(), "produce contracts are not checked");
}

#[test]
fn multiple_contracts_mixed() {
    let mut s = InMemoryManifestStore::new();
    s.put(manifest("ready-schema", 1, 90));
    s.put(manifest("stale-schema", 1, 1));
    let contracts = vec![
        consume_contract("ready-schema", 1, 100),
        consume_contract("stale-schema", 1, 10),
        consume_contract("absent-schema", 1, 100),
    ];
    let deps = check_inputs(&s, &run_at(100), &contracts).unwrap();
    assert_eq!(deps.len(), 3);
    let by_schema: std::collections::HashMap<String, Satisfies> =
        deps.into_iter().map(|d| (d.schema_id, d.satisfied)).collect();
    assert!(matches!(by_schema.get("ready-schema"), Some(Satisfies::Ready { .. })));
    assert_eq!(by_schema.get("stale-schema"), Some(&Satisfies::Missing));
    assert_eq!(by_schema.get("absent-schema"), Some(&Satisfies::Missing));
}

#[test]
fn run_uses_scheduled_for_when_not_started() {
    let st = RunStatus::Skipped(SkipReason::MissingInput("x".into()));
    assert!(matches!(st, RunStatus::Skipped(_)));
}

#[test]
fn unstarted_run_is_checked_at_its_scheduled_time() {
    let mut s = InMemoryManifestStore::new();
    s.put(manifest("brief", 1, 150));
    let mut r = run_at(100);
    r.started_at = None;
    r.scheduled_for = 200;
    let deps = check_inputs(&s, &r, &[consume_contract("brief", 1, 100)]).unwrap();
    assert_eq!(deps[0].satisfied, Satisfies::Ready { manifest_at: 150, version: 1 });
    assert_eq!(deps[0].producer_schedule_id, None);
}

#[test]
fn window_edges_are_inclusive() {
    let c = consume_contract("brief", 1, 100);
    assert!(matches!(judge(200, &c, Some(&manifest("brief", 1, 100))), Satisfies::Ready { .. }));
    assert!(matches!(judge(200, &c, Some(&manifest("brief", 1, 200))), Satisfies::Ready { .. }));
    assert_eq!(judge(200, &c, Some(&manifest("brief", 1, 99))), Satisfies::Missing);
    let huge = consume_contract("brief", 1, i64::MAX as u64);
    assert!(matches!(judge(0, &huge, Some(&manifest("brief", 1, -i64::MAX))), Satisfies::Ready { .. }));
    assert_eq!(judge(0, &huge, Some(&manifest("brief", 1, i64::MIN))), Satisfies::Missing);
}

fn contract(id: &str, sched: &str, role: ContractRole, schema: &str) -> Contract {
    Contract {
        contract_id: id.into(),
        schedule_id: sched.into(),
        role,
        schema_id: schema.into(),
        min_version: 1,
        any_version: false,
        freshness_window: 86_400,
    }
}

#[test]
fn one_producer_one_consumer_one_edge() {
    let contracts = vec![
        contract("p", "daily-brief", ContractRole::Produce, "research-brief"),
        contract("c", "weekly-strat", ContractRole::Consume, "research-brief"),
    ];
    let edges = derive_edges(&[], &contracts);
    assert_eq!(
        edges,
        vec![Edge {
            consumer: "weekly-strat".into(),
            producer: "daily-brief".into(),
            schema_id: "research-brief".into()
        }]
    );
}

#[test]
fn no_edge_when_no_producer() {
    let contracts = vec![contract("c", "weekly-strat", ContractRole::Consume, "x")];
    let edges = derive_edges(&[], &contracts);
    assert!(edges.is_empty());
}

#[test]
fn n_to_n_matching() {
    let contracts = vec![
        contract("p1", "prod1", ContractRole::Produce, "s"),
        contract("p2", "prod2", ContractRole::Produce, "s"),
        contract("c1", "cons1", ContractRole::Consume, "s"),
        contract("c2", "cons2", ContractRole::Consume, "s"),
    ];
    let edges = derive_edges(&[], &contracts);
    assert_eq!(edges.len(), 4);
}

#[test]
fn edges_come_sorted() {
    let contracts = vec![
        contract("c2", "zeta", ContractRole::Consume, "s"),
        contract("p", "prod", ContractRole::Produce, "s"),
        contract("c1", "alpha", ContractRole::Consume, "s"),
        contract("q", "prod", ContractRole::Produce, "a"),
        contract("c3", "mid", ContractRole::Consume, "a"),
    ];
    let edges = derive_edges(&[], &contracts);
    let keys: Vec<(String, String)> =
        edges.iter().map(|e| (e.schema_id.clone(), e.consumer.clone())).collect();
    assert_eq!(
        keys,
        vec![
            ("a".to_string(), "mid".to_string()),
            ("s".to_string(), "alpha".to_string()),
            ("s".to_string(), "zeta".to_string())
        ]
    );
}

fn mk(schema_id: &str, version: u32, at: i64) -> Manifest {
    Manifest {
        manifest_id: format!("run-{at}:{schema_id}"),
        run_id: format!("run-{at}"),
        schema_id: schema_id.into(),
        schema_version: version,
        content_hash: format!("hash-{at}"),
        commit_sha: None,
        uri: format!("uri-{at}"),
        bytes: None,
        materialized_at: at,
    }
}

#[test]
fn latest_returns_newest() {
    let mut s = InMemoryManifestStore::new();
    s.put(mk("brief", 1, 100));
    s.put(mk("brief", 2, 50));
    s.put(mk("brief", 3, 200));
    let latest = s.latest_for_schema("brief").unwrap().unwrap();
    assert_eq!(latest.materialized_at, 200);
}

#[test]
fn put_lww_replaces_same_id() {
    let mut s = InMemoryManifestStore::new();
    let mut m = mk("brief", 1, 100);
    s.put(m.clone());
    m.schema_version = 5;
    s.put(m.clone());
    let all = s.history_for_schema("brief", 10).unwrap();
    assert_eq!(all.len(), 1, "LWW replaced, not appended");
    assert_eq!(all[0].schema_version, 5);
}

#[test]
fn missing_schema_returns_none() {
    let s = InMemoryManifestStore::new();
    assert!(s.latest_for_schema("nope").unwrap().is_none());
    assert!(s.history_for_schema("nope", 10).unwrap().is_empty());
}

#[test]
fn history_is_newest_first_and_limited() {
    let mut s = InMemoryManifestStore::new();
    s.extend(vec![mk("brief", 1, 100), mk("brief", 2, 300), mk("brief", 3, 200), mk("other", 1, 999)]);
    let h = s.history_for_schema("brief", 2).unwrap();
    let times: Vec<i64> = h.iter().map(|m| m.materialized_at).collect();
    assert_eq!(times, vec![300, 200]);
    assert_eq!(s.history_for_schema("brief", 0).unwrap().len(), 0);
}

#[test]
fn a_window_longer_than_time_accepts_any_past_manifest() {
    let mut s = InMemoryManifestStore::new();
    s.put(manifest("brief", 1, -5_000_000_000));
    let c = consume_contract("brief", 1, u64::MAX);
    let deps = check_inputs(&s, &run_at(100), &[c]).unwrap();
    assert_eq!(deps[0].satisfied, Satisfies::Ready { manifest_at: -5_000_000_000, version: 1 });
}

#[test]
fn window_edge_is_inclusive() {
    let c = consume_contract("brief", 1, 100);
    let m = manifest("brief", 1, 100);
    assert_eq!(judge(200, &c, Some(&m)), Satisfies::Ready { manifest_at: 100, version: 1 });
    let old = manifest("brief", 1, 99);
    assert_eq!(judge(200, &c, Some(&old)), Satisfies::Missing);
}

#[test]
fn a_bucket_holds_one_manifest_per_id() {
    let mut s = InMemoryManifestStore::new();
    s.put(manifest("brief", 1, 10));
    s.put(manifest("brief", 2, 10));
    s.put(manifest("brief", 1, 20));
    let h = s.history_for_schema("brief", 10).unwrap();
    assert_eq!(h.len(), 2);
    assert_ne!(h[0].manifest_id, h[1].manifest_id);
}
