//! The `icalendar` calls this library makes, each with the contract it is
//! believed to meet.
//!
//! An [`Event`] is modelled by what it holds: its single-valued properties
//! (a map from key to value, as the crate keeps them in a `BTreeMap`) and the
//! multi-valued properties appended to it, in order, each with its one
//! parameter. A [`Calendar`] is modelled by its top-level properties, in
//! order, and the events pushed into it, in order. The text a calendar
//! serialises to is named, not spelled out: escaping and line folding are the
//! crate's.

use vstd::prelude::*;
use icalendar::Calendar as IcsCalendar;
use icalendar::{Component, EventLike, Property};

verus! {

#[verifier::external_type_specification]
#[verifier::external_body]
pub struct ExIcalEvent(icalendar::Event);

#[verifier::external_type_specification]
#[verifier::external_body]
pub struct ExIcalCalendar(IcsCalendar);

#[verifier::external_type_specification]
#[verifier::external_body]
pub struct ExIcalCalendarComponent(icalendar::CalendarComponent);

/// The single-valued properties of an event: key to value.
pub uninterp spec fn event_props(e: icalendar::Event) -> Map<Seq<char>, Seq<char>>;

/// The event's multi-valued `RELATED-TO` properties, in the order they were
/// appended (the crate keeps the properties of one key in a list), each as
/// `(key, value, parameter key, parameter value)`.
pub uninterp spec fn event_multi(e: icalendar::Event) -> Seq<(Seq<char>, Seq<char>, Seq<char>, Seq<char>)>;

/// The event holds nothing beyond what the two names above describe: no
/// parameter on a single-valued property, no multi-valued property under a
/// key other than `RELATED-TO`, one parameter on each multi-valued
/// property, and no sub-component.
pub uninterp spec fn event_plain(e: icalendar::Event) -> bool;

/// The top-level properties of a calendar, in order, as `(key, value)`.
pub uninterp spec fn calendar_props(c: IcsCalendar) -> Seq<(Seq<char>, Seq<char>)>;

/// The events pushed into a calendar, in order, each by its two models.
pub uninterp spec fn calendar_events(c: IcsCalendar) -> Seq<
    (Map<Seq<char>, Seq<char>>, Seq<(Seq<char>, Seq<char>, Seq<char>, Seq<char>)>),
>;

/// The calendar holds nothing beyond what the two names above describe: no
/// parameter on a top-level property, and only plain events as components.
pub uninterp spec fn calendar_plain(c: IcsCalendar) -> bool;

/// The RFC 5545 text of a calendar with these top-level properties and these
/// events (each event's properties in key order, then its multi-valued
/// properties), with the crate's escaping and line folding.
pub uninterp spec fn ics_text(
    props: Seq<(Seq<char>, Seq<char>)>,
    events: Seq<(Map<Seq<char>, Seq<char>>, Seq<(Seq<char>, Seq<char>, Seq<char>, Seq<char>)>)>,
) -> Seq<char>;

/// The UTC date-time text (`YYYYMMDDTHHMMSSZ`) the crate writes for the
/// instant `ts` seconds after the epoch, as in `DTSTART`, `DTEND` and
/// `DTSTAMP`.
pub uninterp spec fn utc_stamp(ts: i64) -> Seq<char>;

/// Every event carries a `UID` and a `DTSTAMP`, so the crate adds neither a
/// random `UID` nor the current time when it writes the calendar.
pub open spec fn all_stamped(
    events: Seq<(Map<Seq<char>, Seq<char>>, Seq<(Seq<char>, Seq<char>, Seq<char>, Seq<char>)>)>,
) -> bool {
    forall|i: int|
        0 <= i < events.len() ==> (#[trigger] events[i]).0.dom().contains("UID"@)
            && events[i].0.dom().contains("DTSTAMP"@)
}

/// `Event::new()`: an event with no property.
#[verifier::external_body]
pub fn event_new() -> (e: icalendar::Event)
    ensures
        event_props(e).dom() == Set::<Seq<char>>::empty(),
        event_multi(e).len() == 0,
        event_plain(e),
{
    icalendar::Event::new()
}

/// `Component::add_property`: sets the single-valued property `key` to
/// `value` (a `BTreeMap` insert, replacing any earlier value and its
/// parameters).
#[verifier::external_body]
pub fn event_set(e: &mut icalendar::Event, key: &str, value: &str)
    ensures
        event_props(*final(e)) == event_props(*old(e)).insert(key@, value@),
        event_multi(*final(e)) == event_multi(*old(e)),
        event_plain(*old(e)) ==> event_plain(*final(e)),
{
    e.add_property(key, value);
}

/// `Component::property_value`: the value of the single-valued property
/// `key`, if the event has one.
#[verifier::external_body]
pub fn event_get(e: &icalendar::Event, key: &str) -> (r: Option<String>)
    ensures
        match r {
            Some(v) => event_props(*e).dom().contains(key@) && v@ == event_props(*e)[key@],
            None => !event_props(*e).dom().contains(key@),
        },
{
    e.property_value(key).map(str::to_owned)
}

/// `EventLike::starts` with the UTC instant `ts`: sets `DTSTART`.
#[verifier::external_body]
pub fn event_starts(e: &mut icalendar::Event, ts: i64)
    requires
        crate::trusted::utc_representable(ts as int),
    ensures
        event_props(*final(e)) == event_props(*old(e)).insert("DTSTART"@, utc_stamp(ts)),
        event_multi(*final(e)) == event_multi(*old(e)),
        event_plain(*old(e)) ==> event_plain(*final(e)),
{
    e.starts(chrono::DateTime::<chrono::Utc>::from_timestamp(ts, 0).unwrap_or_default());
}

/// `EventLike::ends` with the UTC instant `ts`: sets `DTEND`.
#[verifier::external_body]
pub fn event_ends(e: &mut icalendar::Event, ts: i64)
    requires
        crate::trusted::utc_representable(ts as int),
    ensures
        event_props(*final(e)) == event_props(*old(e)).insert("DTEND"@, utc_stamp(ts)),
        event_multi(*final(e)) == event_multi(*old(e)),
        event_plain(*old(e)) ==> event_plain(*final(e)),
{
    e.ends(chrono::DateTime::<chrono::Utc>::from_timestamp(ts, 0).unwrap_or_default());
}

/// `Component::timestamp` with the UTC instant `ts`: sets `DTSTAMP`.
#[verifier::external_body]
pub fn event_timestamp(e: &mut icalendar::Event, ts: i64)
    requires
        crate::trusted::utc_representable(ts as int),
    ensures
        event_props(*final(e)) == event_props(*old(e)).insert("DTSTAMP"@, utc_stamp(ts)),
        event_multi(*final(e)) == event_multi(*old(e)),
        event_plain(*old(e)) ==> event_plain(*final(e)),
{
    e.timestamp(chrono::DateTime::<chrono::Utc>::from_timestamp(ts, 0).unwrap_or_default());
}

/// `Component::append_multi_property` with `Property::new(key, value)`
/// carrying the one parameter `param_key=param_value`, for the key
/// `RELATED-TO`. The crate appends it to the list it keeps for that key,
/// after the ones appended before.
#[verifier::external_body]
pub fn event_append_multi(
    e: &mut icalendar::Event,
    key: &str,
    value: &str,
    param_key: &str,
    param_value: &str,
)
    requires
        key@ == "RELATED-TO"@,
    ensures
        event_props(*final(e)) == event_props(*old(e)),
        event_multi(*final(e)) == event_multi(*old(e)).push(
            (key@, value@, param_key@, param_value@),
        ),
        event_plain(*final(e)) == event_plain(*old(e)),
{
    e.append_multi_property(Property::new(key, value).append_parameter((param_key, param_value)).done());
}

/// What the crate's parser makes of an iCalendar text: the number of
/// components of the calendar it reads, or its error message.
pub uninterp spec fn ics_parse(text: Seq<char>) -> Result<nat, Seq<char>>;

/// `<Calendar as FromStr>::from_str` (unfold, then read the calendar), with
/// the parsed calendar's components counted. Claims only that the outcome
/// is a function of the text.
#[verifier::external_body]
pub(crate) fn parse_ics(text: &str) -> (r: Result<usize, String>)
    ensures
        match r {
            Ok(n) => ics_parse(text@) == Ok::<nat, Seq<char>>(n as nat),
            Err(e) => ics_parse(text@) == Err::<nat, Seq<char>>(e@),
        },
{
    text.parse::<IcsCalendar>().map(|c| c.components.len())
}

/// `Calendar::new()`: the crate's three default properties and no event.
#[verifier::external_body]
pub fn calendar_new() -> (c: IcsCalendar)
    ensures
        calendar_props(c) == seq![
            ("VERSION"@, "2.0"@),
            ("PRODID"@, "ICALENDAR-RS"@),
            ("CALSCALE"@, "GREGORIAN"@),
        ],
        calendar_events(c).len() == 0,
        calendar_plain(c),
{
    IcsCalendar::new()
}

/// `Calendar::name`: appends `NAME` and `X-WR-CALNAME`, both set to `name`.
#[verifier::external_body]
pub fn calendar_name(c: &mut IcsCalendar, name: &str)
    ensures
        calendar_props(*final(c)) == calendar_props(*old(c)).push(("NAME"@, name@)).push(
            ("X-WR-CALNAME"@, name@),
        ),
        calendar_events(*final(c)) == calendar_events(*old(c)),
        calendar_plain(*final(c)) == calendar_plain(*old(c)),
{
    c.name(name);
}

/// `Calendar::append_property` with `Property::new(key, value)`.
#[verifier::external_body]
pub fn calendar_append(c: &mut IcsCalendar, key: &str, value: &str)
    ensures
        calendar_props(*final(c)) == calendar_props(*old(c)).push((key@, value@)),
        calendar_events(*final(c)) == calendar_events(*old(c)),
        calendar_plain(*final(c)) == calendar_plain(*old(c)),
{
    c.append_property(Property::new(key, value));
}

/// `Calendar::push` of an event.
#[verifier::external_body]
pub fn calendar_push(c: &mut IcsCalendar, e: icalendar::Event)
    ensures
        calendar_props(*final(c)) == calendar_props(*old(c)),
        calendar_events(*final(c)) == calendar_events(*old(c)).push((event_props(e), event_multi(e))),
        calendar_plain(*final(c)) == (calendar_plain(*old(c)) && event_plain(e)),
{
    c.push(e);
}

/// `Calendar`'s `Display`: the RFC 5545 text. Where the calendar is plain
/// and every event has a `UID` and a `DTSTAMP`, the text is a function of
/// the models; otherwise the crate fills in a random `UID` or the current
/// time, and nothing is claimed of the text.
#[verifier::external_body]
pub fn calendar_text(c: &IcsCalendar) -> (s: String)
    ensures
        calendar_plain(*c) && all_stamped(calendar_events(*c)) ==> s@ == ics_text(
            calendar_props(*c),
            calendar_events(*c),
        ),
{
    c.to_string()
}

} // verus!
