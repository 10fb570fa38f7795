//! VEVENT rendering: a recurring schedule, a run's status overlaid on it, and
//! one-off events for concrete runs.
//!
//! | Concept        | iCalendar field                              |
//! |----------------|----------------------------------------------|
//! | Schedule       | `VEVENT` + `RRULE`                           |
//! | Schedule name  | `SUMMARY` (emoji-prefixed when a run overlays) |
//! | Description    | `DESCRIPTION`                                |
//! | Group          | `CATEGORIES` (`almanac,<group>`)             |
//! | Run state      | `STATUS`                                     |
//! | Run reason     | `DESCRIPTION` append                         |

use vstd::prelude::*;
use crate::error::IcalError;
use crate::ical::ics::{
    event_ends, event_get, event_multi, event_new, event_plain, event_props, event_set,
    event_starts, event_timestamp, utc_stamp,
};
use crate::model::{Run, RunStatus, Schedule, SkipReason};
use crate::text::{
    chars_of, copy_range, lemma_trim_start_no_lead, lemma_trim_start_of_trim, push_str, string_of,
    trim, trim_chars, trim_start, trim_start_chars,
};
use crate::trusted::{rfc3339, utc_from_timestamp_ok, utc_representable, utc_rfc3339};

verus! {

broadcast use vstd::string::group_string_axioms;

/// The canonical UID of a schedule's VEVENT: `<schedule_id>@almanac`.
pub open spec fn uid_spec(schedule_id: Seq<char>) -> Seq<char> {
    schedule_id + "@almanac"@
}

/// Canonical UID format: `<schedule_id>@almanac`.
pub fn uid_for(schedule_id: &str) -> (uid: String)
    ensures
        uid@ == uid_spec(schedule_id@),
{
    let mut s = schedule_id.to_owned();
    push_str(&mut s, "@almanac");
    s
}

/// An iCalendar `STATUS` value for a VEVENT (RFC 5545).
#[derive(Debug, Clone, Copy, PartialEq, Eq, Structural)]
pub enum EventStatus {
    Tentative,
    Confirmed,
    Cancelled,
}

/// The text of a `STATUS` value.
pub open spec fn status_value(s: EventStatus) -> Seq<char> {
    match s {
        EventStatus::Tentative => "TENTATIVE"@,
        EventStatus::Confirmed => "CONFIRMED"@,
        EventStatus::Cancelled => "CANCELLED"@,
    }
}

impl EventStatus {
    /// The text of this `STATUS` value.
    pub fn as_str(&self) -> (r: &'static str)
        ensures
            r@ == status_value(*self),
    {
        match self {
            EventStatus::Tentative => "TENTATIVE",
            EventStatus::Confirmed => "CONFIRMED",
            EventStatus::Cancelled => "CANCELLED",
        }
    }
}

/// `Pending`/`Running` are tentative, `Succeeded` is confirmed,
/// `Failed`/`Skipped` are cancelled.
pub open spec fn status_spec(status: RunStatus) -> EventStatus {
    match status {
        RunStatus::Pending | RunStatus::Running => EventStatus::Tentative,
        RunStatus::Succeeded => EventStatus::Confirmed,
        RunStatus::Failed | RunStatus::Skipped(_) => EventStatus::Cancelled,
    }
}

/// Map a [`RunStatus`] to an iCalendar `STATUS` value.
pub fn status_to_ical(status: &RunStatus) -> (s: EventStatus)
    ensures
        s == status_spec(*status),
{
    match status {
        RunStatus::Pending | RunStatus::Running => EventStatus::Tentative,
        RunStatus::Succeeded => EventStatus::Confirmed,
        RunStatus::Failed | RunStatus::Skipped(_) => EventStatus::Cancelled,
    }
}

/// The emoji legend: 🟡 pending, ⏳ running, ✅ succeeded, ❌ failed,
/// ⏸ skipped.
pub open spec fn emoji_spec(status: RunStatus) -> Seq<char> {
    match status {
        RunStatus::Pending => "🟡"@,
        RunStatus::Running => "⏳"@,
        RunStatus::Succeeded => "✅"@,
        RunStatus::Failed => "❌"@,
        RunStatus::Skipped(_) => "⏸"@,
    }
}

/// The emoji prefix for a [`RunStatus`].
pub fn status_emoji(status: &RunStatus) -> (e: &'static str)
    ensures
        e@ == emoji_spec(*status),
{
    match status {
        RunStatus::Pending => "🟡",
        RunStatus::Running => "⏳",
        RunStatus::Succeeded => "✅",
        RunStatus::Failed => "❌",
        RunStatus::Skipped(_) => "⏸",
    }
}

/// The instant an event shows for `ts`: `ts` itself where chrono can hold
/// it, the epoch otherwise.
pub open spec fn instant(ts: i64) -> i64 {
    if utc_representable(ts as int) {
        ts
    } else {
        0
    }
}

pub(crate) fn instant_of(ts: i64) -> (r: i64)
    ensures
        r == instant(ts),
        utc_representable(r as int),
{
    if utc_from_timestamp_ok(ts) {
        ts
    } else {
        0
    }
}

/// Half an hour, the length every rendered event is given.
pub const EVENT_SECS: i64 = 1800;

/// The value of property `key`, or the empty text where there is none.
pub open spec fn prop_or_empty(p: Map<Seq<char>, Seq<char>>, key: Seq<char>) -> Seq<char> {
    if p.dom().contains(key) {
        p[key]
    } else {
        seq![]
    }
}

// ---------------------------------------------------------------------------
// RRULE check
// ---------------------------------------------------------------------------

/// The code point `to_ascii_uppercase` gives `c`.
pub open spec fn upper_code(c: char) -> u32 {
    if 97 <= (c as u32) <= 122 {
        ((c as u32) - 32) as u32
    } else {
        c as u32
    }
}

/// `s.to_ascii_uppercase().starts_with(p)`, for a pattern `p`.
pub open spec fn upper_starts_with(s: Seq<char>, p: Seq<char>) -> bool {
    p.len() <= s.len() && forall|k: int| 0 <= k < p.len() ==> upper_code(#[trigger] s[k]) == p[k] as u32
}

fn upper_starts_with_chars(s: &[char], p: &str) -> (r: bool)
    ensures
        r == upper_starts_with(s@, p@),
{
    let pc = chars_of(p);
    if pc.len() > s.len() {
        return false;
    }
    let mut k: usize = 0;
    while k < pc.len()
        invariant
            pc@ == p@,
            pc@.len() <= s@.len(),
            k <= pc@.len(),
            forall|j: int| 0 <= j < k ==> upper_code(#[trigger] s@[j]) == pc@[j] as u32,
        decreases pc@.len() - k,
    {
        let c = s[k] as u32;
        let u: u32 = if 97 <= c && c <= 122 {
            c - 32
        } else {
            c
        };
        if u != pc[k] as u32 {
            return false;
        }
        k = k + 1;
    }
    true
}

/// Why an RRULE is rejected, if it is: it must start with `FREQ=` and name a
/// known frequency (compared after trimming and ASCII upper-casing).
pub open spec fn rrule_fault(rrule: Seq<char>) -> Option<Seq<char>> {
    let t = trim(rrule);
    if !upper_starts_with(t, "FREQ="@) {
        Some("must start with FREQ="@)
    } else if !(upper_starts_with(t, "FREQ=DAILY"@) || upper_starts_with(t, "FREQ=WEEKLY"@)
        || upper_starts_with(t, "FREQ=MONTHLY"@) || upper_starts_with(t, "FREQ=YEARLY"@)
        || upper_starts_with(t, "FREQ=HOURLY"@) || upper_starts_with(t, "FREQ=MINUTELY"@)) {
        Some("unknown FREQ"@)
    } else {
        None
    }
}

/// `err` is the invalid-RRULE error for `rrule` with `reason`.
pub open spec fn is_rrule_error(err: IcalError, rrule: Seq<char>, reason: Seq<char>) -> bool {
    err matches IcalError::InvalidRrule { rrule: r, reason: why } && r@ == rrule && why@ == reason
}

/// Lightweight RRULE sanity check; real clients do the rest.
fn validate_rrule(rrule: &str) -> (r: Result<(), IcalError>)
    ensures
        match r {
            Ok(()) => rrule_fault(rrule@) is None,
            Err(e) => rrule_fault(rrule@) is Some && is_rrule_error(
                e,
                rrule@,
                rrule_fault(rrule@)->0,
            ),
        },
{
    let t = trim_chars(&chars_of(rrule));
    if !upper_starts_with_chars(&t, "FREQ=") {
        return Err(
            IcalError::InvalidRrule {
                rrule: rrule.to_owned(),
                reason: "must start with FREQ=".to_owned(),
            },
        );
    }
    let known = upper_starts_with_chars(&t, "FREQ=DAILY") || upper_starts_with_chars(
        &t,
        "FREQ=WEEKLY",
    ) || upper_starts_with_chars(&t, "FREQ=MONTHLY") || upper_starts_with_chars(
        &t,
        "FREQ=YEARLY",
    ) || upper_starts_with_chars(&t, "FREQ=HOURLY") || upper_starts_with_chars(
        &t,
        "FREQ=MINUTELY",
    );
    if !known {
        return Err(
            IcalError::InvalidRrule { rrule: rrule.to_owned(), reason: "unknown FREQ".to_owned() },
        );
    }
    Ok(())
}

// ---------------------------------------------------------------------------
// Schedule VEVENT
// ---------------------------------------------------------------------------

/// A webhook-triggered schedule: one with no RRULE. Its work shows on the
/// runs feed only.
pub open spec fn is_webhook(s: Schedule) -> bool {
    trim(s.rrule@).len() == 0
}

/// Whether the schedule is webhook-triggered (see [`is_webhook`]).
pub fn schedule_is_webhook(schedule: &Schedule) -> (b: bool)
    ensures
        b == is_webhook(*schedule),
{
    trim_chars(&chars_of(&schedule.rrule)).len() == 0
}

/// The RRULE fault of a schedule: none when it has no RRULE (a one-off
/// webhook schedule).
pub open spec fn schedule_fault(s: Schedule) -> Option<Seq<char>> {
    if trim(s.rrule@).len() == 0 {
        None
    } else {
        rrule_fault(s.rrule@)
    }
}

/// The properties of a schedule's VEVENT: `UID`, `SUMMARY`, `DESCRIPTION`,
/// `DTSTART`, `STATUS:TENTATIVE`, `DTSTAMP` (last update), `CATEGORIES`
/// (`almanac,<group>`), `RRULE` where there is one, and `DTEND` half an hour
/// after `DTSTART`.
pub open spec fn schedule_props(s: Schedule) -> Map<Seq<char>, Seq<char>> {
    let start = instant(s.dtstart);
    let base = Map::<Seq<char>, Seq<char>>::empty().insert("UID"@, uid_spec(s.schedule_id@)).insert(
        "SUMMARY"@,
        s.summary@,
    ).insert("DESCRIPTION"@, s.description@).insert("DTSTART"@, utc_stamp(start)).insert(
        "STATUS"@,
        "TENTATIVE"@,
    ).insert("DTSTAMP"@, utc_stamp(instant(s.updated_at))).insert(
        "CATEGORIES"@,
        "almanac,"@ + s.calendar_group@,
    );
    let with_rule = if trim(s.rrule@).len() == 0 {
        base
    } else {
        base.insert("RRULE"@, s.rrule@)
    };
    with_rule.insert("DTEND"@, utc_stamp((start + EVENT_SECS) as i64))
}

/// The instants a schedule's event shows can be held by chrono: the only
/// schedules left out start within half an hour of chrono's last second,
/// where adding the event's length overflows.
pub open spec fn schedule_renderable(s: Schedule) -> bool {
    utc_representable(instant(s.dtstart) + EVENT_SECS)
}

/// Whether the schedule's RRULE fails the sanity check.
pub fn schedule_has_fault(schedule: &Schedule) -> (b: bool)
    ensures
        b == (schedule_fault(*schedule) is Some),
{
    let rule = trim_chars(&chars_of(&schedule.rrule));
    if rule.len() == 0 {
        false
    } else {
        validate_rrule(&schedule.rrule).is_err()
    }
}

/// Whether the schedule's event can be placed in time by chrono.
pub fn schedule_fits(schedule: &Schedule) -> (b: bool)
    ensures
        b == schedule_renderable(*schedule),
{
    instant_of(schedule.dtstart) <= crate::trusted::UTC_MAX_SECS - EVENT_SECS
}

/// Render a [`Schedule`] into a recurring `VEVENT`. An RRULE that does not
/// pass the sanity check is an error; an empty one gives a one-off event.
pub fn render_schedule_vevent(schedule: &Schedule) -> (r: Result<icalendar::Event, IcalError>)
    requires
        schedule_renderable(*schedule),
    ensures
        match r {
            Ok(e) => schedule_fault(*schedule) is None && event_props(e) == schedule_props(
                *schedule,
            ) && event_multi(e).len() == 0 && event_plain(e),
            Err(err) => schedule_fault(*schedule) is Some && is_rrule_error(
                err,
                schedule.rrule@,
                schedule_fault(*schedule)->0,
            ),
        },
{
    let uid = uid_for(&schedule.schedule_id);
    let start = instant_of(schedule.dtstart);
    let mut event = event_new();
    event_set(&mut event, "UID", &uid);
    event_set(&mut event, "SUMMARY", &schedule.summary);
    event_set(&mut event, "DESCRIPTION", &schedule.description);
    event_starts(&mut event, start);
    event_set(&mut event, "STATUS", EventStatus::Tentative.as_str());
    let stamp = instant_of(schedule.updated_at);
    event_timestamp(&mut event, stamp);
    let mut categories = "almanac,".to_owned();
    push_str(&mut categories, &schedule.calendar_group);
    event_set(&mut event, "CATEGORIES", &categories);
    let rule = trim_chars(&chars_of(&schedule.rrule));
    if rule.len() != 0 {
        validate_rrule(&schedule.rrule)?;
        event_set(&mut event, "RRULE", &schedule.rrule);
    }
    event_ends(&mut event, start + EVENT_SECS);
    Ok(event)
}

// ---------------------------------------------------------------------------
// Run overlay
// ---------------------------------------------------------------------------

/// One of the five status emoji of the legend.
pub open spec fn is_status_char(c: char) -> bool {
    c == '🟡' || c == '⏳' || c == '✅' || c == '❌' || c == '⏸'
}

/// A summary without the status emoji an earlier overlay put in front of
/// it, trimmed: a leading legend emoji followed by a space is removed, as
/// is a leading space, with the whitespace after it; otherwise the text is
/// trimmed at both ends. Any other leading text, an emoji of the name
/// itself included, is kept.
pub open spec fn strip_emoji(s: Seq<char>) -> Seq<char> {
    if s.len() > 0 && s[0] == ' ' {
        trim_start(s.skip(1))
    } else if s.len() >= 2 && is_status_char(s[0]) && s[1] == ' ' {
        trim_start(s.skip(2))
    } else {
        trim(s)
    }
}

fn is_status_emoji(c: char) -> (b: bool)
    ensures
        b == is_status_char(c),
{
    c == '🟡' || c == '⏳' || c == '✅' || c == '❌' || c == '⏸'
}

fn strip_leading_emoji(s: &[char]) -> (r: Vec<char>)
    ensures
        r@ == strip_emoji(s@),
{
    if s.len() > 0 && s[0] == ' ' {
        let rest = copy_range(s, 1, s.len());
        assert(rest@ =~= s@.skip(1));
        trim_start_chars(&rest)
    } else if s.len() >= 2 && is_status_emoji(s[0]) && s[1] == ' ' {
        let rest = copy_range(s, 2, s.len());
        assert(rest@ =~= s@.skip(2));
        trim_start_chars(&rest)
    } else {
        trim_chars(s)
    }
}

/// The note a run adds to its event's description.
pub open spec fn run_note_spec(run: Run) -> Seq<char> {
    let base = match run.status {
        RunStatus::Pending => "Pending: scheduled, has not started."@,
        RunStatus::Running => "Running: currently executing."@,
        RunStatus::Succeeded => "Succeeded at "@ + (match run.finished_at {
            Some(t) => rfc3339(instant(t)),
            None => "unknown"@,
        }) + "."@,
        RunStatus::Failed => "Failed: "@ + (match run.error {
            Some(e) => e@,
            None => "agent error"@,
        }),
        RunStatus::Skipped(SkipReason::MissingInput(s)) => "Skipped: missing input `"@ + s@
            + "` within freshness window."@,
        RunStatus::Skipped(SkipReason::VersionMismatch(s)) => "Skipped: version mismatch for `"@
            + s@ + "`."@,
    };
    match run.error {
        Some(e) => if run.status is Failed {
            base
        } else {
            base + " Note: "@ + e@ + "."@
        },
        None => base,
    }
}

fn run_note(run: &Run) -> (note: String)
    ensures
        note@ == run_note_spec(*run),
{
    let mut note = match &run.status {
        RunStatus::Pending => "Pending: scheduled, has not started.".to_owned(),
        RunStatus::Running => "Running: currently executing.".to_owned(),
        RunStatus::Succeeded => {
            let mut n = "Succeeded at ".to_owned();
            match run.finished_at {
                Some(t) => {
                    let at = utc_rfc3339(instant_of(t));
                    push_str(&mut n, &at);
                },
                None => push_str(&mut n, "unknown"),
            }
            push_str(&mut n, ".");
            n
        },
        RunStatus::Failed => {
            let mut n = "Failed: ".to_owned();
            match &run.error {
                Some(e) => push_str(&mut n, e),
                None => push_str(&mut n, "agent error"),
            }
            n
        },
        RunStatus::Skipped(SkipReason::MissingInput(s)) => {
            let mut n = "Skipped: missing input `".to_owned();
            push_str(&mut n, s);
            push_str(&mut n, "` within freshness window.");
            n
        },
        RunStatus::Skipped(SkipReason::VersionMismatch(s)) => {
            let mut n = "Skipped: version mismatch for `".to_owned();
            push_str(&mut n, s);
            push_str(&mut n, "`.");
            n
        },
    };
    if let Some(err) = &run.error {
        let failed = match run.status {
            RunStatus::Failed => true,
            _ => false,
        };
        if !failed {
            push_str(&mut note, " Note: ");
            push_str(&mut note, err);
            push_str(&mut note, ".");
        }
    }
    note
}

/// The event's properties with `extra` appended to its `DESCRIPTION`
/// (created where there is none).
pub open spec fn appended_description(p: Map<Seq<char>, Seq<char>>, extra: Seq<char>) -> Map<
    Seq<char>,
    Seq<char>,
> {
    p.insert("DESCRIPTION"@, prop_or_empty(p, "DESCRIPTION"@) + extra)
}

/// Append `extra` to the event's `DESCRIPTION` (creating it if absent).
pub(crate) fn append_to_description(event: &mut icalendar::Event, extra: &str)
    ensures
        event_props(*final(event)) == appended_description(event_props(*old(event)), extra@),
        event_multi(*final(event)) == event_multi(*old(event)),
        event_plain(*old(event)) ==> event_plain(*final(event)),
{
    let mut combined = match event_get(event, "DESCRIPTION") {
        Some(v) => v,
        None => String::new(),
    };
    push_str(&mut combined, extra);
    event_set(event, "DESCRIPTION", &combined);
}

/// The properties after a run is overlaid: `SUMMARY` prefixed with the
/// status emoji and a space (an earlier status emoji removed, the name's
/// own emoji kept), `STATUS` set per
/// [`status_spec`], and the run's note appended to `DESCRIPTION`.
pub open spec fn overlay_props(p: Map<Seq<char>, Seq<char>>, run: Run) -> Map<Seq<char>, Seq<char>> {
    let summary = emoji_spec(run.status) + seq![' '] + strip_emoji(prop_or_empty(p, "SUMMARY"@));
    let with_status = p.insert("SUMMARY"@, summary).insert(
        "STATUS"@,
        status_value(status_spec(run.status)),
    );
    appended_description(with_status, run_note_spec(run))
}

/// Overlay a [`Run`]'s state onto a rendered VEVENT; with no run the event
/// keeps the schedule's defaults.
pub fn overlay_run_status(event: &mut icalendar::Event, run: Option<&Run>)
    ensures
        match run {
            None => *final(event) == *old(event),
            Some(r) => event_props(*final(event)) == overlay_props(event_props(*old(event)), *r),
        },
        event_multi(*final(event)) == event_multi(*old(event)),
        event_plain(*old(event)) ==> event_plain(*final(event)),
{
    if let Some(run) = run {
        overlay_some(event, run);
    }
}

fn overlay_some(event: &mut icalendar::Event, run: &Run)
    ensures
        event_props(*final(event)) == overlay_props(event_props(*old(event)), *run),
        event_multi(*final(event)) == event_multi(*old(event)),
        event_plain(*old(event)) ==> event_plain(*final(event)),
{
    let status = status_to_ical(&run.status);
    let emoji = status_emoji(&run.status);
    let current = match event_get(event, "SUMMARY") {
        Some(v) => v,
        None => String::new(),
    };
    let bare = strip_leading_emoji(&chars_of(&current));
    let mut summary = emoji.to_owned();
    push_str(&mut summary, " ");
    let bare_text = string_of(&bare);
    push_str(&mut summary, &bare_text);
    proof {
        reveal_strlit(" ");
        assert(summary@ =~= emoji_spec(run.status) + seq![' '] + strip_emoji(
            prop_or_empty(event_props(*old(event)), "SUMMARY"@),
        ));
    }
    event_set(event, "SUMMARY", &summary);
    event_set(event, "STATUS", status.as_str());
    let note = run_note(run);
    append_to_description(event, &note);
}

/// The keys an overlay touches, and `UID`, are four different keys.
pub proof fn lemma_overlay_keys()
    ensures
        "UID"@ != "SUMMARY"@,
        "UID"@ != "STATUS"@,
        "UID"@ != "DESCRIPTION"@,
        "SUMMARY"@ != "STATUS"@,
        "SUMMARY"@ != "DESCRIPTION"@,
        "STATUS"@ != "DESCRIPTION"@,
{
    reveal_strlit("UID");
    reveal_strlit("SUMMARY");
    reveal_strlit("STATUS");
    reveal_strlit("DESCRIPTION");
    assert("UID"@.len() == 3);
    assert("SUMMARY"@.len() == 7);
    assert("STATUS"@.len() == 6);
    assert("DESCRIPTION"@.len() == 11);
}

/// `UID` and `STATUS` differ from every other key an event is given.
pub proof fn lemma_event_keys()
    ensures
        "UID"@ != "DTSTART"@,
        "UID"@ != "DTEND"@,
        "UID"@ != "DTSTAMP"@,
        "UID"@ != "CATEGORIES"@,
        "UID"@ != "RRULE"@,
        "STATUS"@ != "DTSTAMP"@,
        "STATUS"@ != "CATEGORIES"@,
        "STATUS"@ != "RRULE"@,
        "STATUS"@ != "DTEND"@,
{
    reveal_strlit("UID");
    reveal_strlit("STATUS");
    reveal_strlit("DTSTART");
    reveal_strlit("DTEND");
    reveal_strlit("DTSTAMP");
    reveal_strlit("CATEGORIES");
    reveal_strlit("RRULE");
    assert("UID"@.len() == 3);
    assert("STATUS"@.len() == 6);
    assert("DTSTART"@.len() == 7);
    assert("DTEND"@.len() == 5);
    assert("DTSTAMP"@.len() == 7);
    assert("CATEGORIES"@.len() == 10);
    assert("RRULE"@.len() == 5);
}

/// Each status emoji is one character of the legend.
proof fn lemma_emoji_shape(status: RunStatus)
    ensures
        emoji_spec(status).len() == 1,
        is_status_char(emoji_spec(status)[0]),
{
    reveal_strlit("🟡");
    reveal_strlit("⏳");
    reveal_strlit("✅");
    reveal_strlit("❌");
    reveal_strlit("⏸");
}

/// Stripping the emoji from an overlaid summary gives back the summary it
/// was put before, without leading whitespace.
proof fn lemma_strip_overlaid(status: RunStatus, bare: Seq<char>)
    ensures
        strip_emoji(emoji_spec(status) + seq![' '] + bare) == trim_start(bare),
{
    lemma_emoji_shape(status);
    let s = emoji_spec(status) + seq![' '] + bare;
    assert(s[0] == emoji_spec(status)[0]);
    assert(s[1] == ' ');
    assert(s.skip(2) =~= bare);
}

/// Overlaying runs one after another keeps a single emoji: the summary
/// after two overlays is the one a single overlay of the second run gives.
pub proof fn overlay_replaces_emoji(p: Map<Seq<char>, Seq<char>>, first: Run, second: Run)
    ensures
        overlay_props(overlay_props(p, first), second)["SUMMARY"@] == overlay_props(
            p,
            second,
        )["SUMMARY"@],
        overlay_props(overlay_props(p, first), second)["STATUS"@] == overlay_props(
            p,
            second,
        )["STATUS"@],
{
    lemma_overlay_keys();
    let bare = strip_emoji(prop_or_empty(p, "SUMMARY"@));
    let once = overlay_props(p, first);
    assert(prop_or_empty(once, "SUMMARY"@) == emoji_spec(first.status) + seq![' '] + bare);
    lemma_strip_overlaid(first.status, bare);
    let x = prop_or_empty(p, "SUMMARY"@);
    if x.len() > 0 && x[0] == ' ' {
        lemma_trim_start_no_lead(x.skip(1));
    } else if x.len() >= 2 && is_status_char(x[0]) && x[1] == ' ' {
        lemma_trim_start_no_lead(x.skip(2));
    } else {
        lemma_trim_start_of_trim(x);
    }
}

/// An overlay sets `STATUS` from the run's status and starts `SUMMARY` with
/// the run's emoji; every other property but `DESCRIPTION` is unchanged.
pub proof fn overlay_sets_status(p: Map<Seq<char>, Seq<char>>, run: Run)
    ensures
        overlay_props(p, run)["STATUS"@] == status_value(status_spec(run.status)),
        overlay_props(p, run)["SUMMARY"@].take(emoji_spec(run.status).len() as int) == emoji_spec(
            run.status,
        ),
        overlay_props(p, run).dom() == p.dom().insert("SUMMARY"@).insert("STATUS"@).insert(
            "DESCRIPTION"@,
        ),
        forall|k: Seq<char>|
            k != "SUMMARY"@ && k != "STATUS"@ && k != "DESCRIPTION"@ && p.dom().contains(k)
                ==> #[trigger] overlay_props(p, run)[k] == p[k],
{
    lemma_overlay_keys();
    let e = emoji_spec(run.status);
    let summary = e + seq![' '] + strip_emoji(prop_or_empty(p, "SUMMARY"@));
    assert(summary.take(e.len() as int) =~= e);
}

// ---------------------------------------------------------------------------
// Run VEVENT
// ---------------------------------------------------------------------------

/// The instant a run's event starts at: when it started, else when it was
/// scheduled for.
pub open spec fn run_time(run: Run) -> i64 {
    match run.started_at {
        Some(t) => t,
        None => run.scheduled_for,
    }
}

/// The categories of a run's one-off event: `almanac,run`, and `webhook`
/// as well where its schedule is webhook-triggered.
pub open spec fn run_categories(webhook: bool) -> Seq<char> {
    if webhook {
        "almanac,run,webhook"@
    } else {
        "almanac,run"@
    }
}

/// The properties of a run's one-off event before its status is overlaid.
pub open spec fn run_base_props(run: Run, summary: Seq<char>, webhook: bool) -> Map<Seq<char>, Seq<char>> {
    let start = instant(run_time(run));
    let stamp = instant(
        match run.finished_at {
            Some(t) => t,
            None => run_time(run),
        },
    );
    Map::<Seq<char>, Seq<char>>::empty().insert("UID"@, run.run_id@ + "@almanac.run"@).insert(
        "SUMMARY"@,
        summary,
    ).insert("DTSTART"@, utc_stamp(start)).insert(
        "DTEND"@,
        utc_stamp((start + EVENT_SECS) as i64),
    ).insert("DTSTAMP"@, utc_stamp(stamp)).insert("CATEGORIES"@, run_categories(webhook))
}

/// The instants a run's event shows can be held by chrono.
pub open spec fn run_renderable(run: Run) -> bool {
    utc_representable(instant(run_time(run)) + EVENT_SECS)
}

/// Whether the run's event can be placed in time by chrono.
pub fn run_fits(run: &Run) -> (b: bool)
    ensures
        b == run_renderable(*run),
{
    let ts = match run.started_at {
        Some(t) => t,
        None => run.scheduled_for,
    };
    instant_of(ts) <= crate::trusted::UTC_MAX_SECS - EVENT_SECS
}

/// Render a one-off VEVENT for a concrete [`Run`] (used on the runs feed):
/// `UID` `<run_id>@almanac.run`, starting at the run's effective time, with
/// the run's status overlaid. The run of a webhook-triggered schedule is
/// also in the `webhook` category.
pub fn render_run_vevent(run: &Run, schedule_summary: &str, webhook: bool) -> (r: Result<
    icalendar::Event,
    IcalError,
>)
    requires
        run_renderable(*run),
    ensures
        r matches Ok(e) && event_props(e) == overlay_props(
            run_base_props(*run, schedule_summary@, webhook),
            *run,
        ) && event_multi(e).len() == 0 && event_plain(e),
{
    let mut uid = run.run_id.clone();
    push_str(&mut uid, "@almanac.run");
    let ts = match run.started_at {
        Some(t) => t,
        None => run.scheduled_for,
    };
    let start = instant_of(ts);
    let mut event = event_new();
    event_set(&mut event, "UID", &uid);
    event_set(&mut event, "SUMMARY", schedule_summary);
    event_starts(&mut event, start);
    event_ends(&mut event, start + EVENT_SECS);
    let stamp = instant_of(
        match run.finished_at {
            Some(t) => t,
            None => ts,
        },
    );
    event_timestamp(&mut event, stamp);
    if webhook {
        event_set(&mut event, "CATEGORIES", "almanac,run,webhook");
    } else {
        event_set(&mut event, "CATEGORIES", "almanac,run");
    }
    overlay_run_status(&mut event, Some(run));
    Ok(event)
}

proof fn lemma_prop_keys()
    ensures
        "UID"@ != "SUMMARY"@, "UID"@ != "DTSTART"@, "UID"@ != "DTEND"@, "UID"@ != "DTSTAMP"@,
        "UID"@ != "CATEGORIES"@, "UID"@ != "DESCRIPTION"@, "UID"@ != "STATUS"@, "UID"@ != "RRULE"@,
        "SUMMARY"@ != "DTSTART"@, "SUMMARY"@ != "DTEND"@, "SUMMARY"@ != "DTSTAMP"@,
        "SUMMARY"@ != "CATEGORIES"@, "SUMMARY"@ != "DESCRIPTION"@, "SUMMARY"@ != "STATUS"@,
        "SUMMARY"@ != "RRULE"@, "DTSTART"@ != "DTEND"@, "DTSTART"@ != "DTSTAMP"@,
        "DTSTART"@ != "CATEGORIES"@, "DTSTART"@ != "DESCRIPTION"@, "DTSTART"@ != "STATUS"@,
        "DTSTART"@ != "RRULE"@, "DTEND"@ != "DTSTAMP"@, "DTEND"@ != "CATEGORIES"@,
        "DTEND"@ != "DESCRIPTION"@, "DTEND"@ != "STATUS"@, "DTEND"@ != "RRULE"@,
        "DTSTAMP"@ != "CATEGORIES"@, "DTSTAMP"@ != "DESCRIPTION"@, "DTSTAMP"@ != "STATUS"@,
        "DTSTAMP"@ != "RRULE"@, "CATEGORIES"@ != "DESCRIPTION"@, "CATEGORIES"@ != "STATUS"@,
        "CATEGORIES"@ != "RRULE"@, "DESCRIPTION"@ != "STATUS"@, "DESCRIPTION"@ != "RRULE"@,
        "STATUS"@ != "RRULE"@,
{
    reveal_strlit("UID");
    reveal_strlit("SUMMARY");
    reveal_strlit("DTSTART");
    reveal_strlit("DTEND");
    reveal_strlit("DTSTAMP");
    reveal_strlit("CATEGORIES");
    reveal_strlit("DESCRIPTION");
    reveal_strlit("STATUS");
    reveal_strlit("RRULE");
    assert("UID"@.len() == 3);
    assert("SUMMARY"@.len() == 7);
    assert("DTSTART"@.len() == 7);
    assert("DTEND"@.len() == 5);
    assert("DTSTAMP"@.len() == 7);
    assert("CATEGORIES"@.len() == 10);
    assert("DESCRIPTION"@.len() == 11);
    assert("STATUS"@.len() == 6);
    assert("RRULE"@.len() == 5);
    assert("DTSTART"@[5] != "DTSTAMP"@[5]);
    assert("SUMMARY"@[0] != "DTSTART"@[0]);
    assert("SUMMARY"@[0] != "DTSTAMP"@[0]);
    assert("DTEND"@[0] != "RRULE"@[0]);
}

/// A schedule's event: its `UID` is `<id>@almanac`, its `SUMMARY` and
/// `DESCRIPTION` the schedule's own, it starts at the schedule's start and
/// ends half an hour later, is stamped with the last update, is
/// `TENTATIVE`, is in the categories `almanac,<group>`, and carries the
/// schedule's RRULE exactly when it has one.
pub proof fn schedule_event_fields(s: Schedule)
    ensures
        schedule_props(s)["UID"@] == s.schedule_id@ + "@almanac"@,
        schedule_props(s)["SUMMARY"@] == s.summary@,
        schedule_props(s)["DESCRIPTION"@] == s.description@,
        schedule_props(s)["DTSTART"@] == utc_stamp(instant(s.dtstart)),
        schedule_props(s)["DTEND"@] == utc_stamp((instant(s.dtstart) + 1800) as i64),
        schedule_props(s)["DTSTAMP"@] == utc_stamp(instant(s.updated_at)),
        schedule_props(s)["STATUS"@] == "TENTATIVE"@,
        schedule_props(s)["CATEGORIES"@] == "almanac,"@ + s.calendar_group@,
        trim(s.rrule@).len() > 0 ==> schedule_props(s)["RRULE"@] == s.rrule@,
        schedule_props(s).dom().contains("RRULE"@) <==> trim(s.rrule@).len() > 0,
{
    lemma_prop_keys();
}

/// A run's event before its status is overlaid: `UID` `<run_id>@almanac.run`,
/// the schedule's summary, starting when the run started (when it was
/// scheduled, if it has not started) and ending half an hour later, stamped
/// when it finished (else at its start), in `almanac,run` and, for a
/// webhook-triggered schedule, also `webhook`.
pub proof fn run_event_fields(run: Run, summary: Seq<char>, webhook: bool)
    ensures
        run_base_props(run, summary, webhook)["UID"@] == run.run_id@ + "@almanac.run"@,
        run_base_props(run, summary, webhook)["SUMMARY"@] == summary,
        run.started_at matches Some(t) ==> run_base_props(run, summary, webhook)["DTSTART"@] == utc_stamp(instant(t)),
        run.started_at is None ==> run_base_props(run, summary, webhook)["DTSTART"@] == utc_stamp(
            instant(run.scheduled_for),
        ),
        run_base_props(run, summary, webhook)["DTEND"@] == utc_stamp(
            (instant(
                match run.started_at {
                    Some(t) => t,
                    None => run.scheduled_for,
                },
            ) + 1800) as i64,
        ),
        run.finished_at matches Some(f) ==> run_base_props(run, summary, webhook)["DTSTAMP"@] == utc_stamp(instant(f)),
        run.finished_at is None ==> run_base_props(run, summary, webhook)["DTSTAMP"@]
            == run_base_props(run, summary, webhook)["DTSTART"@],
        run_base_props(run, summary, webhook)["CATEGORIES"@] == if webhook {
            "almanac,run,webhook"@
        } else {
            "almanac,run"@
        },
{
    lemma_prop_keys();
}

/// The legend an overlay follows: `SUMMARY` becomes the run's emoji (🟡
/// pending, ⏳ running, ✅ succeeded, ❌ failed, ⏸ skipped), a space and the
/// summary without an earlier status emoji; `STATUS` becomes `TENTATIVE`
/// for a pending or running run, `CONFIRMED` for a succeeded one and
/// `CANCELLED` for a failed or skipped one.
pub proof fn overlay_legend(p: Map<Seq<char>, Seq<char>>, run: Run)
    ensures
        overlay_props(p, run)["SUMMARY"@] == seq![
            match run.status {
                RunStatus::Pending => '🟡',
                RunStatus::Running => '⏳',
                RunStatus::Succeeded => '✅',
                RunStatus::Failed => '❌',
                RunStatus::Skipped(_) => '⏸',
            },
            ' ',
        ] + strip_emoji(prop_or_empty(p, "SUMMARY"@)),
        overlay_props(p, run)["STATUS"@] == match run.status {
            RunStatus::Pending | RunStatus::Running => "TENTATIVE"@,
            RunStatus::Succeeded => "CONFIRMED"@,
            RunStatus::Failed | RunStatus::Skipped(_) => "CANCELLED"@,
        },
{
    lemma_overlay_keys();
    reveal_strlit("🟡");
    reveal_strlit("⏳");
    reveal_strlit("✅");
    reveal_strlit("❌");
    reveal_strlit("⏸");
    let e = emoji_spec(run.status);
    let bare = strip_emoji(prop_or_empty(p, "SUMMARY"@));
    assert(e + seq![' '] + bare =~= seq![e[0], ' '] + bare);
}

} // verus!
