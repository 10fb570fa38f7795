//! iCalendar rendering: schedules and runs as VEVENTs, lineage as
//! `RELATED-TO`, and whole feeds.

pub mod ics;
pub mod event;
pub mod related;
pub mod feed;
