//! The server's logic: the state store, the feeds and lineage answers it
//! serves, and the demo data it can be seeded with.

pub mod state;
pub mod views;
pub mod seed;
pub mod dashboard;
