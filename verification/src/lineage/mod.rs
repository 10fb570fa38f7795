//! Lineage engine: the manifest store, the "is my input materialized?"
//! check, and the consumer -> producer edges.

pub mod check;
pub mod graph;
pub mod store;
