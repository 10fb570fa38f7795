//! Almanac: scheduled agent work rendered as iCalendar feeds, with
//! artifact-lineage verdicts (✅ ready / ❌ missing / ⚠️ version mismatch).
//!
//! - [`model`]: schedules, runs, manifests, contracts, calendars, agents.
//! - [`source`], [`ingest`]: source events into schedules, runs, manifests.
//! - [`lineage`]: the manifest store, the input check, producer/consumer edges.
//! - [`ical`]: VEVENTs, run overlays, `RELATED-TO` lineage, whole feeds.
//! - [`server`]: the state store and what the server answers from it.
//! - [`mcp`], [`cli`]: the agent tools and the command line's computations.
//! - [`config`], [`kinds`], [`error`], [`text`]: configuration, event kinds,
//!   errors and character-level text operations.
//! - [`trusted`], [`ical::ics`]: the calls into `chrono`, `sha2`, std's
//!   `Debug` and `icalendar`, with the contracts they are believed to meet.

pub mod cli;
pub mod config;
pub mod error;
pub mod ical;
pub mod ingest;
pub mod kinds;
pub mod lineage;
pub mod mcp;
pub mod model;
pub mod server;
pub mod source;
pub mod text;
pub mod trusted;
