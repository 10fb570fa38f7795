//! The "is my input materialized?" query.
//!
//! For each consuming [`Contract`], the most recent manifest of its schema
//! is checked against:
//! 1. freshness: `now - freshness_window <= materialized_at <= now`, where
//!    `now` is the consumer run's `started_at`, else its `scheduled_for`;
//! 2. version: `schema_version >= min_version`, unless `any_version`.

use vstd::prelude::*;
use crate::error::LineageError;
use crate::lineage::store::ManifestStore;
use crate::model::{Contract, ContractRole, Manifest, Run};

verus! {

/// A lineage verdict for one dependency.
#[derive(Debug, Clone, PartialEq, Eq)]
pub struct Dependency {
    /// The schema the consumer needs.
    pub schema_id: String,
    /// The schedule that produces it (if known), for RELATED-TO emission.
    pub producer_schedule_id: Option<String>,
    /// Whether the input is satisfied.
    pub satisfied: Satisfies,
}

/// The three satisfaction states.
#[derive(Debug, Clone, Copy, PartialEq, Eq, Structural)]
pub enum Satisfies {
    /// A fresh, version-matching manifest exists.
    Ready { manifest_at: i64, version: u32 },
    /// No manifest within the freshness window.
    Missing,
    /// A manifest exists but its version is too old.
    VersionMismatch { found: u32, need: u32 },
}

/// The consumer's execution time: `started_at`, else `scheduled_for`.
pub open spec fn run_time(run: Run) -> i64 {
    match run.started_at {
        Some(t) => t,
        None => run.scheduled_for,
    }
}

/// The oldest acceptable `materialized_at`: `now - freshness_window`, in
/// exact integer arithmetic (a window longer than all of time accepts
/// every manifest up to `now`).
pub open spec fn window_start(now: i64, c: Contract) -> int {
    now - c.freshness_window
}

/// The verdict for one consuming contract, given the newest manifest of
/// its schema.
pub open spec fn verdict(now: i64, c: Contract, latest: Option<Manifest>) -> Satisfies {
    match latest {
        None => Satisfies::Missing,
        Some(m) => if m.materialized_at < window_start(now, c) || m.materialized_at > now {
            Satisfies::Missing
        } else if !c.any_version && m.schema_version < c.min_version {
            Satisfies::VersionMismatch { found: m.schema_version, need: c.min_version }
        } else {
            Satisfies::Ready { manifest_at: m.materialized_at, version: m.schema_version }
        },
    }
}

/// The consuming contracts, in order.
pub open spec fn consuming(cs: Seq<Contract>) -> Seq<Contract>
    decreases cs.len(),
{
    if cs.len() == 0 {
        seq![]
    } else if cs.last().role == ContractRole::Consume {
        consuming(cs.drop_last()).push(cs.last())
    } else {
        consuming(cs.drop_last())
    }
}

/// The verdicts `check_inputs` gives: one per consuming contract, in order,
/// with no producer named.
pub open spec fn verdicts<S: ManifestStore>(store: &S, now: i64, cs: Seq<Contract>) -> Seq<Dependency> {
    consuming(cs).map_values(
        |c: Contract|
            Dependency {
                schema_id: c.schema_id,
                producer_schedule_id: None,
                satisfied: verdict(now, c, store.latest_spec(c.schema_id@)),
            },
    )
}

/// The verdict for `contract` given the newest manifest of its schema
/// (see [`verdict`]).
pub fn judge(now: i64, contract: &Contract, latest: Option<&Manifest>) -> (s: Satisfies)
    ensures
        s == verdict(now, *contract, match latest { Some(m) => Some(*m), None => None }),
{
    let m = match latest {
        Some(m) => m,
        None => return Satisfies::Missing,
    };
    if m.materialized_at > now {
        return Satisfies::Missing;
    }
    let age: i128 = now as i128 - m.materialized_at as i128;
    if age > contract.freshness_window as i128 {
        return Satisfies::Missing;
    }
    if !contract.any_version && m.schema_version < contract.min_version {
        return Satisfies::VersionMismatch { found: m.schema_version, need: contract.min_version };
    }
    Satisfies::Ready { manifest_at: m.materialized_at, version: m.schema_version }
}

fn check_one<S: ManifestStore>(store: &S, now: i64, contract: &Contract) -> (r: Result<Satisfies, LineageError>)
    ensures
        r matches Ok(s) ==> s == verdict(now, *contract, store.latest_spec(contract.schema_id@)),
        r matches Err(e) ==> store.latest_error(contract.schema_id@) == Some(e),
        r is Ok ==> store.latest_error(contract.schema_id@) is None,
        store.reliable() ==> r is Ok,
{
    let latest = match store.latest_for_schema(contract.schema_id.as_str()) {
        Ok(l) => l,
        Err(e) => return Err(e),
    };
    match latest {
        Some(m) => Ok(judge(now, contract, Some(&m))),
        None => Ok(judge(now, contract, None)),
    }
}

/// The error of the first consuming contract whose store lookup fails, in
/// order: checking stops there.
pub open spec fn first_error<S: ManifestStore>(store: &S, cs: Seq<Contract>) -> Option<LineageError>
    decreases cs.len(),
{
    if cs.len() == 0 {
        None
    } else {
        let prev = first_error(store, cs.drop_last());
        if prev is Some {
            prev
        } else if cs.last().role == ContractRole::Consume {
            store.latest_error(cs.last().schema_id@)
        } else {
            None
        }
    }
}

/// Once a prefix has failed, every longer prefix fails with the same error.
proof fn lemma_first_error_sticks<S: ManifestStore>(store: &S, cs: Seq<Contract>, i: int, j: int)
    requires
        0 <= i <= j <= cs.len(),
        first_error(store, cs.take(i)) is Some,
    ensures
        first_error(store, cs.take(j)) == first_error(store, cs.take(i)),
    decreases j - i,
{
    if j > i {
        lemma_first_error_sticks(store, cs, i, j - 1);
        assert(cs.take(j).drop_last() =~= cs.take(j - 1));
    }
}

/// The lineage verdict for each consuming contract of `contracts`, in order.
/// Producing contracts are skipped; `producer_schedule_id` is left `None`.
/// Errors only come from the store: the first failing lookup's error is
/// returned and no later contract is checked.
pub fn check_inputs<S: ManifestStore>(store: &S, run: &Run, contracts: &[Contract]) -> (r: Result<Vec<Dependency>, LineageError>)
    ensures
        r matches Ok(deps) ==> deps@ == verdicts(store, run_time(*run), contracts@),
        r matches Ok(deps) ==> {
            let cs = consuming(contracts@);
            &&& deps@.len() == cs.len()
            &&& forall|k: int| 0 <= k < deps@.len() ==> {
                &&& (#[trigger] deps@[k]).schema_id@ == cs[k].schema_id@
                &&& deps@[k].producer_schedule_id is None
                &&& deps@[k].satisfied == verdict(run_time(*run), cs[k], store.latest_spec(cs[k].schema_id@))
            }
        },
        r matches Err(e) ==> first_error(store, contracts@) == Some(e),
        r is Ok <==> first_error(store, contracts@) is None,
        store.reliable() ==> r is Ok,
{
    let now = match run.started_at {
        Some(t) => t,
        None => run.scheduled_for,
    };
    let mut deps: Vec<Dependency> = Vec::new();
    let mut i: usize = 0;
    while i < contracts.len()
        invariant
            i <= contracts@.len(),
            now == run_time(*run),
            deps@ == verdicts(store, now, contracts@.take(i as int)),
            deps@.len() == consuming(contracts@.take(i as int)).len(),
            first_error(store, contracts@.take(i as int)) is None,
            forall|k: int| 0 <= k < deps@.len() ==> {
                let cs = consuming(contracts@.take(i as int));
                &&& (#[trigger] deps@[k]).schema_id@ == cs[k].schema_id@
                &&& deps@[k].producer_schedule_id is None
                &&& deps@[k].satisfied == verdict(now, cs[k], store.latest_spec(cs[k].schema_id@))
            },
        decreases contracts@.len() - i,
    {
        let c = &contracts[i];
        assert(contracts@.take(i + 1).drop_last() =~= contracts@.take(i as int));
        if c.role == ContractRole::Consume {
            let verdict = match check_one(store, now, c) {
                Ok(v) => v,
                Err(e) => {
                    proof {
                        lemma_first_error_sticks(store, contracts@, i + 1, contracts@.len() as int);
                        assert(contracts@.take(contracts@.len() as int) =~= contracts@);
                    }
                    return Err(e);
                },
            };
            deps.push(Dependency { schema_id: c.schema_id.clone(), producer_schedule_id: None, satisfied: verdict });
        }
        assert(deps@ =~= verdicts(store, now, contracts@.take(i + 1)));
        i = i + 1;
    }
    assert(contracts@.take(contracts@.len() as int) =~= contracts@);
    Ok(deps)
}

/// A ready verdict means a manifest that is fresh at `now` and, unless any
/// version is accepted, at least the required version; a missing manifest
/// or one outside the window is never ready.
pub proof fn verdict_laws(now: i64, c: Contract, latest: Option<Manifest>)
    ensures
        verdict(now, c, latest) matches Satisfies::Ready { manifest_at, version } ==> {
            &&& latest matches Some(m)
            &&& m.materialized_at == manifest_at && m.schema_version == version
            &&& window_start(now, c) <= manifest_at <= now
            &&& (c.any_version || version >= c.min_version)
        },
        verdict(now, c, latest) matches Satisfies::VersionMismatch { found, need } ==> {
            &&& !c.any_version
            &&& found < need
            &&& need == c.min_version
        },
        latest is None ==> verdict(now, c, latest) == Satisfies::Missing,
        latest matches Some(m) && (m.materialized_at > now || m.materialized_at < window_start(now, c))
            ==> verdict(now, c, latest) == Satisfies::Missing,
{
}

/// Inputs are checked at the time the consumer run started, or at its
/// scheduled time when it has not started.
pub proof fn check_time_is_start(run: Run)
    ensures
        run.started_at matches Some(t) ==> run_time(run) == t,
        run.started_at is None ==> run_time(run) == run.scheduled_for,
{
}

/// A manifest of the right version materialized at the very moment the
/// consumer run started is ready, whatever the run's scheduled time and
/// however short the window: freshness is judged at the start.
pub proof fn fresh_at_start(run: Run, c: Contract, m: Manifest, t: i64)
    requires
        run.started_at == Some(t),
        m.materialized_at == t,
        c.any_version || m.schema_version >= c.min_version,
    ensures
        verdict(run_time(run), c, Some(m)) == (Satisfies::Ready { manifest_at: t, version: m.schema_version }),
{
}

/// The freshness window, in the contract's own terms: the newest manifest
/// counts when it was materialized no earlier than `freshness_window`
/// seconds before `now` and no later than `now` (both ends included), and
/// then only its version can hold it back; outside the window it is
/// missing.
pub proof fn freshness_window_law(now: i64, c: Contract, m: Manifest)
    ensures
        now - c.freshness_window <= m.materialized_at <= now ==> verdict(now, c, Some(m)) == (
        if !c.any_version && m.schema_version < c.min_version {
            Satisfies::VersionMismatch { found: m.schema_version, need: c.min_version }
        } else {
            Satisfies::Ready { manifest_at: m.materialized_at, version: m.schema_version }
        }),
        (m.materialized_at < now - c.freshness_window || m.materialized_at > now) ==> verdict(
            now,
            c,
            Some(m),
        ) == Satisfies::Missing,
        verdict(now, c, None) == Satisfies::Missing,
{
}

/// The contracts checked are exactly the consuming ones, in order: every
/// checked contract consumes, and every consuming contract is checked.
pub proof fn consuming_law(cs: Seq<Contract>)
    ensures
        consuming(cs).len() <= cs.len(),
        forall|i: int| 0 <= i < consuming(cs).len() ==> (#[trigger] consuming(cs)[i]).role == ContractRole::Consume
            && cs.contains(consuming(cs)[i]),
        forall|j: int| 0 <= j < cs.len() && (#[trigger] cs[j]).role == ContractRole::Consume ==> consuming(cs).contains(cs[j]),
    decreases cs.len(),
{
    if cs.len() > 0 {
        let rest = cs.drop_last();
        consuming_law(rest);
        let c = consuming(cs);
        let p = consuming(rest);
        assert forall|i: int| 0 <= i < c.len() implies (#[trigger] c[i]).role == ContractRole::Consume && cs.contains(c[i]) by {
            if i < p.len() {
                assert(c[i] == p[i]);
                let k = choose|k: int| 0 <= k < rest.len() && rest[k] == p[i];
                assert(cs[k] == rest[k]);
            } else {
                assert(cs[cs.len() - 1] == cs.last());
            }
        }
        assert forall|j: int| 0 <= j < cs.len() && (#[trigger] cs[j]).role == ContractRole::Consume implies c.contains(cs[j]) by {
            if j < rest.len() {
                assert(rest[j] == cs[j]);
                assert(p.contains(rest[j]));
                let k = choose|k: int| 0 <= k < p.len() && p[k] == rest[j];
                assert(c[k] == p[k]);
            } else {
                assert(c[p.len() as int] == cs.last());
            }
        }
    }
}

} // verus!
