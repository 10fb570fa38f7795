//! Lineage rendering: `RELATED-TO;RELTYPE=DEPENDS-ON` (RFC 9253) and a
//! "Dependencies:" block in the description.
//!
//! The renderer is pure: it consumes verdicts computed by
//! [`crate::lineage::check_inputs`] and emits the matching properties.

use vstd::prelude::*;
use crate::ical::event::{append_to_description, appended_description, uid_spec};
use crate::ical::ics::{event_append_multi, event_multi, event_plain, event_props};
use crate::text::{dec, idec, join_strings, join_with, push_i64, push_str, push_u64};
use crate::trusted::{rfc3339, utc_from_timestamp_ok, utc_representable, utc_rfc3339};

verus! {

broadcast use vstd::string::group_string_axioms;

/// A dependency as rendered on a consumer's event.
#[derive(Debug, Clone, PartialEq, Eq)]
pub struct Dependency {
    /// The schedule producing the consumed artifact (the `RELATED-TO` target).
    pub producer_schedule_id: String,
    /// The schema being consumed.
    pub schema_id: String,
    /// Whether it is satisfied.
    pub satisfied: Satisfies,
}

/// Satisfaction state as rendered.
#[derive(Debug, Clone, Copy, PartialEq, Eq, Structural)]
pub enum Satisfies {
    /// A fresh, version-matching manifest exists.
    Ready { materialized_at: i64, version: u32 },
    /// No manifest within the freshness window.
    Missing,
    /// A manifest exists but its version is too old.
    VersionMismatch { found: u32, need: u32 },
}

/// The rendered form of a lineage verdict.
pub open spec fn satisfies_of(s: crate::lineage::check::Satisfies) -> Satisfies {
    match s {
        crate::lineage::check::Satisfies::Ready { manifest_at, version } => Satisfies::Ready {
            materialized_at: manifest_at,
            version,
        },
        crate::lineage::check::Satisfies::Missing => Satisfies::Missing,
        crate::lineage::check::Satisfies::VersionMismatch { found, need } => {
            Satisfies::VersionMismatch { found, need }
        },
    }
}

/// Rendering a lineage verdict keeps its fields: a version mismatch keeps
/// the version found and the version needed, in that order; a ready verdict
/// keeps its manifest's time and version; a missing one stays missing.
pub proof fn satisfies_keeps_fields(found: u32, need: u32, at: i64, version: u32)
    ensures
        satisfies_of(crate::lineage::check::Satisfies::VersionMismatch { found, need })
            == (Satisfies::VersionMismatch { found: found, need: need }),
        satisfies_of(crate::lineage::check::Satisfies::Ready { manifest_at: at, version })
            == (Satisfies::Ready { materialized_at: at, version: version }),
        satisfies_of(crate::lineage::check::Satisfies::Missing) == Satisfies::Missing,
{
}

impl Satisfies {
    /// The rendered form of a lineage verdict.
    pub fn from_lineage(s: &crate::lineage::check::Satisfies) -> (r: Satisfies)
        ensures
            r == satisfies_of(*s),
    {
        match s {
            crate::lineage::check::Satisfies::Ready { manifest_at, version } => Satisfies::Ready {
                materialized_at: *manifest_at,
                version: *version,
            },
            crate::lineage::check::Satisfies::Missing => Satisfies::Missing,
            crate::lineage::check::Satisfies::VersionMismatch { found, need } => {
                Satisfies::VersionMismatch { found: *found, need: *need }
            },
        }
    }
}

/// The time shown for a materialization: RFC 3339 where chrono can hold the
/// instant, the raw seconds otherwise.
pub open spec fn materialized_text(ts: i64) -> Seq<char> {
    if utc_representable(ts as int) {
        rfc3339(ts)
    } else {
        idec(ts as int)
    }
}

/// The description line of one dependency:
/// `✅ <schema> (v<version>, materialized <time>)`,
/// `❌ <schema> (no manifest in freshness window)` or
/// `⚠️ <schema> (v<found> found, need v<need>+)`.
pub open spec fn dep_line(d: Dependency) -> Seq<char> {
    match d.satisfied {
        Satisfies::Ready { materialized_at, version } => "✅ "@ + d.schema_id@ + " (v"@ + dec(
            version as nat,
        ) + ", materialized "@ + materialized_text(materialized_at) + ")"@,
        Satisfies::Missing => "❌ "@ + d.schema_id@ + " (no manifest in freshness window)"@,
        Satisfies::VersionMismatch { found, need } => "⚠️ "@ + d.schema_id@ + " (v"@ + dec(
            found as nat,
        ) + " found, need v"@ + dec(need as nat) + "+)"@,
    }
}

/// The `RELATED-TO` property a dependency adds.
pub open spec fn related_entry(d: Dependency) -> (Seq<char>, Seq<char>, Seq<char>, Seq<char>) {
    ("RELATED-TO"@, uid_spec(d.producer_schedule_id@), "RELTYPE"@, "DEPENDS-ON"@)
}

/// The block appended to the description for these dependencies.
pub open spec fn deps_block(deps: Seq<Dependency>) -> Seq<char> {
    "\n\nDependencies:\n"@ + join_with(deps.map_values(|d: Dependency| dep_line(d)), "\n"@)
}

fn render_line(d: &Dependency) -> (line: String)
    ensures
        line@ == dep_line(*d),
{
    match d.satisfied {
        Satisfies::Ready { materialized_at, version } => {
            let mut l = "✅ ".to_owned();
            push_str(&mut l, &d.schema_id);
            push_str(&mut l, " (v");
            push_u64(&mut l, version as u64);
            push_str(&mut l, ", materialized ");
            if utc_from_timestamp_ok(materialized_at) {
                let t = utc_rfc3339(materialized_at);
                push_str(&mut l, &t);
            } else {
                push_i64(&mut l, materialized_at);
            }
            push_str(&mut l, ")");
            l
        },
        Satisfies::Missing => {
            let mut l = "❌ ".to_owned();
            push_str(&mut l, &d.schema_id);
            push_str(&mut l, " (no manifest in freshness window)");
            l
        },
        Satisfies::VersionMismatch { found, need } => {
            let mut l = "⚠️ ".to_owned();
            push_str(&mut l, &d.schema_id);
            push_str(&mut l, " (v");
            push_u64(&mut l, found as u64);
            push_str(&mut l, " found, need v");
            push_u64(&mut l, need as u64);
            push_str(&mut l, "+)");
            l
        },
    }
}

/// Render dependencies onto a VEVENT: one
/// `RELATED-TO;RELTYPE=DEPENDS-ON:<producer>@almanac` per dependency, and a
/// "Dependencies:" block appended to `DESCRIPTION`. No dependencies leave
/// the event as it was.
pub fn render_dependency(event: &mut icalendar::Event, deps: &[Dependency])
    ensures
        deps@.len() == 0 ==> *final(event) == *old(event),
        deps@.len() > 0 ==> event_props(*final(event)) == appended_description(
            event_props(*old(event)),
            deps_block(deps@),
        ),
        deps@.len() > 0 ==> event_multi(*final(event)) == event_multi(*old(event))
            + deps@.map_values(|d: Dependency| related_entry(d)),
        event_plain(*old(event)) ==> event_plain(*final(event)),
{
    if deps.len() != 0 {
        render_nonempty(event, deps);
    }
}

fn render_nonempty(event: &mut icalendar::Event, deps: &[Dependency])
    ensures
        event_props(*final(event)) == appended_description(
            event_props(*old(event)),
            deps_block(deps@),
        ),
        event_multi(*final(event)) == event_multi(*old(event)) + deps@.map_values(
            |d: Dependency| related_entry(d),
        ),
        event_plain(*old(event)) ==> event_plain(*final(event)),
{
    let ghost props0 = event_props(*event);
    let ghost multi0 = event_multi(*event);
    let ghost plain0 = event_plain(*event);
    let mut lines: Vec<String> = Vec::new();
    let mut i: usize = 0;
    while i < deps.len()
        invariant
            i <= deps@.len(),
            event_props(*event) == props0,
            event_multi(*event) == multi0 + deps@.take(i as int).map_values(
                |d: Dependency| related_entry(d),
            ),
            plain0 ==> event_plain(*event),
            lines@.map_values(|p: String| p@) == deps@.take(i as int).map_values(
                |d: Dependency| dep_line(d),
            ),
        decreases deps@.len() - i,
    {
        let d = &deps[i];
        let mut target = d.producer_schedule_id.clone();
        push_str(&mut target, "@almanac");
        event_append_multi(event, "RELATED-TO", &target, "RELTYPE", "DEPENDS-ON");
        let line = render_line(d);
        let ghost prev = lines@;
        lines.push(line);
        proof {
            assert(lines@.map_values(|p: String| p@) =~= prev.map_values(|p: String| p@).push(
                line@,
            ));
            assert(deps@.take(i + 1) =~= deps@.take(i as int).push(deps@[i as int]));
            assert(lines@.map_values(|p: String| p@) =~= deps@.take(i + 1).map_values(
                |d: Dependency| dep_line(d),
            ));
            assert(multi0 + deps@.take(i + 1).map_values(|d: Dependency| related_entry(d)) =~= (
            multi0 + deps@.take(i as int).map_values(|d: Dependency| related_entry(d))).push(
                related_entry(deps@[i as int]),
            ));
        }
        i = i + 1;
    }
    assert(deps@.take(deps@.len() as int) =~= deps@);
    let joined = join_strings(&lines, "\n");
    let mut block = "\n\nDependencies:\n".to_owned();
    push_str(&mut block, &joined);
    append_to_description(event, &block);
}

/// The line a lineage verdict is rendered as, from the verdict itself: a
/// version mismatch reads `⚠️ <schema> (v<found> found, need v<need>+)`, a
/// missing input `❌ <schema> (no manifest in freshness window)`, and a
/// ready one `✅ <schema> (v<version>, materialized <time>)`.
pub proof fn verdict_line(schema: String, producer: String, v: crate::lineage::check::Satisfies)
    ensures
        ({
            let d = Dependency { producer_schedule_id: producer, schema_id: schema, satisfied: satisfies_of(v) };
            match v {
                crate::lineage::check::Satisfies::VersionMismatch { found, need } => dep_line(d) == "⚠️ "@
                    + schema@ + " (v"@ + dec(found as nat) + " found, need v"@ + dec(need as nat) + "+)"@,
                crate::lineage::check::Satisfies::Missing => dep_line(d) == "❌ "@ + schema@
                    + " (no manifest in freshness window)"@,
                crate::lineage::check::Satisfies::Ready { manifest_at, version } => dep_line(d) == "✅ "@
                    + schema@ + " (v"@ + dec(version as nat) + ", materialized "@ + materialized_text(
                    manifest_at,
                ) + ")"@,
            }
        }),
{
}

} // verus!
