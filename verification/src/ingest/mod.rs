//! Ingestion: translate source events into Almanac structs.

pub mod manifest;
pub mod run;
pub mod schedule;
