//! Error types of the ingestion, rendering and lineage layers.

use vstd::prelude::*;

verus! {

/// Errors raised by the ingestion layer (event -> struct translation).
#[derive(Debug)]
pub enum IngestError {
    /// A required tag was missing from the source event.
    MissingTag { tag: &'static str },
    /// A tag was present but could not be parsed into the expected type.
    InvalidTag { tag: &'static str, reason: String },
    /// The event kind is not one the ingestor handles.
    UnexpectedKind { kind: u32 },
    /// A run state transition was illegal (e.g. Succeeded -> Running).
    IllegalTransition { from: String, to: String },
}

/// Errors raised by the ICS rendering layer.
#[derive(Debug)]
pub enum IcalError {
    /// A schedule's RRULE could not be parsed.
    InvalidRrule { rrule: String, reason: String },
    /// The underlying calendar builder rejected a value.
    Build(String),
}

/// Errors raised by the lineage engine.
#[derive(Debug)]
pub enum LineageError {
    /// The manifest store returned an error.
    Store(String),
}

} // verus!
