//! Almanac Nostr event kinds (48050-48054), parameterized-replaceable by
//! `d`-tag convention (latest `created_at` wins).

use vstd::prelude::*;

verus! {

/// A cron definition as seen by Almanac. `d` tag = schedule id.
pub const KIND_ALMANAC_SCHEDULE: u32 = 48050;

/// One concrete execution of a schedule. `d` tag = run id.
pub const KIND_ALMANAC_RUN: u32 = 48051;

/// An artifact's materialization record, the lineage primitive.
/// `d` tag = `<run_id>:<schema_id>`.
pub const KIND_ALMANAC_MANIFEST: u32 = 48052;

/// A producer/consumer contract. `d` tag = contract id.
pub const KIND_ALMANAC_CONTRACT: u32 = 48053;

/// Calendar grouping/metadata. `d` tag = calendar id.
pub const KIND_ALMANAC_CALENDAR: u32 = 48054;

/// Lower bound of the Almanac kind range (inclusive).
pub const ALMANAC_KIND_MIN: u32 = 48050;

/// Upper bound of the Almanac kind range (inclusive).
pub const ALMANAC_KIND_MAX: u32 = 48054;

/// Upper bound (inclusive) of the broader, forward-compatible Almanac range.
pub const ALMANAC_RANGE_MAX: u32 = 48099;

/// `true` iff `kind` is one of the five Almanac-managed kinds.
pub fn is_almanac_kind(kind: u32) -> (r: bool)
    ensures
        r == (kind == KIND_ALMANAC_SCHEDULE || kind == KIND_ALMANAC_RUN || kind
            == KIND_ALMANAC_MANIFEST || kind == KIND_ALMANAC_CONTRACT || kind
            == KIND_ALMANAC_CALENDAR),
{
    kind == KIND_ALMANAC_SCHEDULE || kind == KIND_ALMANAC_RUN || kind == KIND_ALMANAC_MANIFEST
        || kind == KIND_ALMANAC_CONTRACT || kind == KIND_ALMANAC_CALENDAR
}

/// `true` iff `kind` lies in the broader Almanac range 48050-48099.
pub fn in_almanac_range(kind: u32) -> (r: bool)
    ensures
        r == (ALMANAC_KIND_MIN <= kind && kind <= ALMANAC_RANGE_MAX),
{
    kind >= ALMANAC_KIND_MIN && kind <= ALMANAC_RANGE_MAX
}

/// `true` iff `kind` is the lineage primitive (a manifest).
pub fn is_manifest_kind(kind: u32) -> (r: bool)
    ensures
        r == (kind == KIND_ALMANAC_MANIFEST),
{
    kind == KIND_ALMANAC_MANIFEST
}

/// The five Almanac kinds are distinct, ascending, exactly fill
/// `ALMANAC_KIND_MIN..=ALMANAC_KIND_MAX`, and lie inside the broader range.
pub proof fn kinds_are_distinct_and_in_range(kind: u32)
    ensures
        KIND_ALMANAC_SCHEDULE < KIND_ALMANAC_RUN,
        KIND_ALMANAC_RUN < KIND_ALMANAC_MANIFEST,
        KIND_ALMANAC_MANIFEST < KIND_ALMANAC_CONTRACT,
        KIND_ALMANAC_CONTRACT < KIND_ALMANAC_CALENDAR,
        (kind == KIND_ALMANAC_SCHEDULE || kind == KIND_ALMANAC_RUN || kind
            == KIND_ALMANAC_MANIFEST || kind == KIND_ALMANAC_CONTRACT || kind
            == KIND_ALMANAC_CALENDAR) <==> (ALMANAC_KIND_MIN <= kind <= ALMANAC_KIND_MAX),
        ALMANAC_KIND_MIN <= kind <= ALMANAC_KIND_MAX ==> kind <= ALMANAC_RANGE_MAX,
{
}

} // verus!
