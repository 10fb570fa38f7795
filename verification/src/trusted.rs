//! The calls this library makes into code it does not verify (std's `Debug`
//! rendering of strings, `chrono`, `sha2`, `icalendar`), each with the
//! contract it is believed to meet.

use vstd::prelude::*;
use sha2::Digest;

verus! {

/// What `<str as Debug>::fmt` writes for a string: the text in double
/// quotes, with quotes, backslashes, control and non-printable characters
/// escaped.
pub uninterp spec fn str_debug(s: Seq<char>) -> Seq<char>;

/// `format!("{:?}", s)` on a `&str`. Claims only that the result is the
/// `Debug` rendering of `s`, a function of `s` alone.
#[verifier::external_body]
pub fn debug_str(s: &str) -> (r: String)
    ensures
        r@ == str_debug(s@),
{
    format!("{:?}", s)
}

/// The SHA-256 digest of `data`.
pub uninterp spec fn sha256(data: Seq<u8>) -> Seq<u8>;

/// `sha2::Sha256::digest`. Claims that the result is the SHA-256 digest of
/// `data` (a function of `data` alone) and, as SHA-256 is defined, 32 bytes long.
#[verifier::external_body]
pub fn sha256_digest(data: &[u8]) -> (d: Vec<u8>)
    ensures
        d@ == sha256(data@),
        d@.len() == 32,
{
    sha2::Sha256::digest(data).to_vec()
}

/// The earliest unix second `chrono` can hold as a `DateTime<Utc>`
/// (-262143-01-01T00:00:00Z).
pub const UTC_MIN_SECS: i64 = -8_334_601_315_200;

/// The latest unix second `chrono` can hold as a `DateTime<Utc>`
/// (+262142-12-31T23:59:59Z).
pub const UTC_MAX_SECS: i64 = 8_210_266_876_799;

/// The unix seconds that `chrono` can turn into a `DateTime<Utc>`.
pub open spec fn utc_representable(ts: int) -> bool {
    UTC_MIN_SECS <= ts <= UTC_MAX_SECS
}

/// `chrono::DateTime::<Utc>::from_timestamp(ts, 0).is_some()`. Claims that
/// the call succeeds exactly for the seconds between the earliest and the
/// latest date chrono represents (years -262143 to 262142).
#[verifier::external_body]
pub fn utc_from_timestamp_ok(ts: i64) -> (b: bool)
    ensures
        b == utc_representable(ts as int),
{
    chrono::DateTime::<chrono::Utc>::from_timestamp(ts, 0).is_some()
}

/// `chrono::Utc::now().timestamp()`: the current unix time in seconds.
/// Nothing is claimed of it: it is whatever the clock reads.
#[verifier::external_body]
pub fn utc_now() -> (t: i64) {
    chrono::Utc::now().timestamp()
}

/// The RFC 3339 text `chrono` writes for the UTC instant `ts` seconds after
/// the epoch (such as `2023-11-14T22:13:20+00:00`).
pub uninterp spec fn rfc3339(ts: i64) -> Seq<char>;

/// `DateTime::<Utc>::from_timestamp(ts, 0)` followed by `to_rfc3339`.
/// Claims only that the text is a function of `ts`.
#[verifier::external_body]
pub fn utc_rfc3339(ts: i64) -> (r: String)
    requires
        utc_representable(ts as int),
    ensures
        r@ == rfc3339(ts),
{
    chrono::DateTime::<chrono::Utc>::from_timestamp(ts, 0).unwrap_or_default().to_rfc3339()
}

} // verus!
