//! Core data model: agents, schedules, runs, manifests, contracts, calendars.

use vstd::prelude::*;

verus! {

/// An agent identity: the principal that owns schedules and produces manifests.
#[derive(Debug, Clone, PartialEq, Eq)]
pub struct Agent {
    /// Stable id (slug). Becomes the schedule's `owner_agent_id`.
    pub agent_id: String,
    /// Display name shown in the UI.
    pub name: String,
    /// Optional avatar URL / emoji.
    pub avatar: Option<String>,
    /// Free-form kind: `cron`, `webhook`, `on-demand`, `mcp-tool`, ...
    pub kind: String,
    /// Owning community.
    pub community_id: String,
    /// Optional description / role.
    pub description: Option<String>,
    /// Registration time (unix seconds).
    pub created_at: i64,
}

/// A recurring plan: a cron definition with calendar-render hints.
/// `schedule_id` is the `d` tag and the VEVENT `UID` prefix.
#[derive(Debug, Clone, PartialEq, Eq)]
pub struct Schedule {
    pub schedule_id: String,
    pub community_id: String,
    pub channel_id: String,
    pub summary: String,
    pub description: String,
    /// RFC 5545 RRULE; empty for webhook-triggered one-off schedules.
    pub rrule: String,
    pub dtstart: i64,
    pub calendar_group: String,
    pub color_category: Option<String>,
    pub owner_agent_id: Option<String>,
    pub created_at: i64,
    pub updated_at: i64,
}

/// One concrete execution of a schedule.
#[derive(Debug, Clone, PartialEq, Eq)]
pub struct Run {
    pub run_id: String,
    pub schedule_id: String,
    pub scheduled_for: i64,
    pub started_at: Option<i64>,
    pub finished_at: Option<i64>,
    pub status: RunStatus,
    pub error: Option<String>,
}

/// Run lifecycle. Maps to iCalendar `STATUS` and an emoji `SUMMARY` prefix.
#[derive(Debug, Clone, PartialEq, Eq)]
pub enum RunStatus {
    Pending,
    Running,
    Succeeded,
    Failed,
    Skipped(SkipReason),
}

/// Why a run was skipped instead of executed.
#[derive(Debug, Clone, PartialEq, Eq)]
pub enum SkipReason {
    /// No manifest for the named schema within the freshness window.
    MissingInput(String),
    /// A manifest exists but its `schema_version` is below the consumer's `min_version`.
    VersionMismatch(String),
}

/// An artifact's materialization record: the lineage primitive.
#[derive(Debug, Clone, PartialEq, Eq)]
pub struct Manifest {
    /// `<run_id>:<schema_id>`, see [`Manifest::id_for`].
    pub manifest_id: String,
    pub run_id: String,
    pub schema_id: String,
    pub schema_version: u32,
    pub content_hash: String,
    pub commit_sha: Option<String>,
    pub uri: String,
    pub bytes: Option<u64>,
    pub materialized_at: i64,
}

/// The canonical manifest id of a `(run, schema)` pair.
pub open spec fn manifest_id_spec(run_id: Seq<char>, schema_id: Seq<char>) -> Seq<char> {
    run_id + seq![':'] + schema_id
}

impl Manifest {
    /// Build the canonical manifest id for a `(run, schema)` pair: the `d`
    /// tag and the last-write-wins key.
    pub fn id_for(run_id: &str, schema_id: &str) -> (id: String)
        ensures
            id@ == manifest_id_spec(run_id@, schema_id@),
    {
        let mut s = run_id.to_owned();
        crate::text::push_str(&mut s, ":");
        proof { reveal_strlit(":"); }
        crate::text::push_str(&mut s, schema_id);
        s
    }
}

/// A producer/consumer contract on a schema.
#[derive(Debug, Clone, PartialEq, Eq)]
pub struct Contract {
    pub contract_id: String,
    pub schedule_id: String,
    pub role: ContractRole,
    pub schema_id: String,
    /// For `Consume`: minimum acceptable producer version (>= 1).
    pub min_version: u32,
    /// For `Consume`: skip the version check entirely.
    pub any_version: bool,
    /// Freshness window in seconds.
    pub freshness_window: u64,
}

impl Contract {
    /// The default freshness window (24 hours).
    pub const DEFAULT_FRESHNESS_WINDOW: u64 = 86_400;
}

/// Which side of a contract a schedule is on.
#[derive(Debug, Clone, Copy, PartialEq, Eq, Structural)]
pub enum ContractRole {
    Produce,
    Consume,
}

/// Calendar grouping/metadata.
#[derive(Debug, Clone, PartialEq, Eq)]
pub struct Calendar {
    pub calendar_id: String,
    pub community_id: String,
    /// Display name (becomes `X-WR-CALNAME`).
    pub name: String,
    pub description: String,
    pub color: Option<String>,
    pub schedule_ids: Vec<String>,
}

pub fn copy_opt_string(o: &Option<String>) -> (r: Option<String>)
    ensures
        r == *o,
{
    match o {
        Some(s) => Some(s.clone()),
        None => None,
    }
}

impl SkipReason {
    pub fn duplicate(&self) -> (r: SkipReason)
        ensures
            r == *self,
    {
        match self {
            SkipReason::MissingInput(s) => SkipReason::MissingInput(s.clone()),
            SkipReason::VersionMismatch(s) => SkipReason::VersionMismatch(s.clone()),
        }
    }
}

impl RunStatus {
    pub fn duplicate(&self) -> (r: RunStatus)
        ensures
            r == *self,
    {
        match self {
            RunStatus::Pending => RunStatus::Pending,
            RunStatus::Running => RunStatus::Running,
            RunStatus::Succeeded => RunStatus::Succeeded,
            RunStatus::Failed => RunStatus::Failed,
            RunStatus::Skipped(r) => RunStatus::Skipped(r.duplicate()),
        }
    }
}

impl Run {
    pub fn duplicate(&self) -> (r: Run)
        ensures
            r == *self,
    {
        Run {
            run_id: self.run_id.clone(),
            schedule_id: self.schedule_id.clone(),
            scheduled_for: self.scheduled_for,
            started_at: self.started_at,
            finished_at: self.finished_at,
            status: self.status.duplicate(),
            error: copy_opt_string(&self.error),
        }
    }
}

impl Schedule {
    pub fn duplicate(&self) -> (r: Schedule)
        ensures
            r == *self,
    {
        Schedule {
            schedule_id: self.schedule_id.clone(),
            community_id: self.community_id.clone(),
            channel_id: self.channel_id.clone(),
            summary: self.summary.clone(),
            description: self.description.clone(),
            rrule: self.rrule.clone(),
            dtstart: self.dtstart,
            calendar_group: self.calendar_group.clone(),
            color_category: copy_opt_string(&self.color_category),
            owner_agent_id: copy_opt_string(&self.owner_agent_id),
            created_at: self.created_at,
            updated_at: self.updated_at,
        }
    }
}

impl Manifest {
    pub fn duplicate(&self) -> (r: Manifest)
        ensures
            r == *self,
    {
        Manifest {
            manifest_id: self.manifest_id.clone(),
            run_id: self.run_id.clone(),
            schema_id: self.schema_id.clone(),
            schema_version: self.schema_version,
            content_hash: self.content_hash.clone(),
            commit_sha: copy_opt_string(&self.commit_sha),
            uri: self.uri.clone(),
            bytes: self.bytes,
            materialized_at: self.materialized_at,
        }
    }
}

impl Contract {
    pub fn duplicate(&self) -> (r: Contract)
        ensures
            r == *self,
    {
        Contract {
            contract_id: self.contract_id.clone(),
            schedule_id: self.schedule_id.clone(),
            role: self.role,
            schema_id: self.schema_id.clone(),
            min_version: self.min_version,
            any_version: self.any_version,
            freshness_window: self.freshness_window,
        }
    }
}

impl Agent {
    pub fn duplicate(&self) -> (r: Agent)
        ensures
            r == *self,
    {
        Agent {
            agent_id: self.agent_id.clone(),
            name: self.name.clone(),
            avatar: copy_opt_string(&self.avatar),
            kind: self.kind.clone(),
            community_id: self.community_id.clone(),
            description: copy_opt_string(&self.description),
            created_at: self.created_at,
        }
    }
}

pub fn copy_strings(v: &Vec<String>) -> (r: Vec<String>)
    ensures
        r@ == v@,
{
    let mut r: Vec<String> = Vec::new();
    let mut i: usize = 0;
    while i < v.len()
        invariant
            i <= v@.len(),
            r@ == v@.take(i as int),
        decreases v@.len() - i,
    {
        r.push(v[i].clone());
        assert(r@ =~= v@.take(i + 1));
        i = i + 1;
    }
    assert(v@.take(v@.len() as int) =~= v@);
    r
}

impl Calendar {
    pub fn duplicate(&self) -> (r: Calendar)
        ensures
            r.calendar_id == self.calendar_id,
            r.community_id == self.community_id,
            r.name == self.name,
            r.description == self.description,
            r.color == self.color,
            r.schedule_ids@ == self.schedule_ids@,
    {
        Calendar {
            calendar_id: self.calendar_id.clone(),
            community_id: self.community_id.clone(),
            name: self.name.clone(),
            description: self.description.clone(),
            color: copy_opt_string(&self.color),
            schedule_ids: copy_strings(&self.schedule_ids),
        }
    }
}

} // verus!
