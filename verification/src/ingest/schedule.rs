//! Schedule ingestion: a workflow definition event (kind 30620) -> [`Schedule`].
//!
//! Tags read: `d` (id), `name` or `summary`, `description` (falls back to
//! the content), `rrule` (preferred) or `cron`, `community`, `channel`,
//! `calendar_group`, `color`, `agent`, `dtstart` (falls back to `created_at`).
//! With neither `rrule` nor `cron` the schedule is webhook-triggered (empty
//! RRULE).

use vstd::prelude::*;
use crate::error::IngestError;
use crate::model::Schedule;
use crate::source::{SourceEvent, first_tag_value_spec};
use crate::ical::event::{rrule_fault, upper_starts_with};
use crate::text::{is_ws, split_scan, trim_end, trim_start, lemma_trim_keeps_prefix, starts_with, chars_eq, chars_of, dec, parse_i64, parse_i64_spec, join_strings, join_with, parse_u32, parse_u32_spec, push_str, push_u64, split_char, split_on, split_whitespace, str_eq, string_of, trim, trim_chars, ws_tokens};

verus! {

/// The workflow-definition kind emitted by the workflow engine.
pub const KIND_WORKFLOW_DEF: u32 = 30620;

/// A numeric cron field, or `default` when it does not parse as `u32`.
pub open spec fn cron_number(s: Seq<char>, default: u32) -> u32 {
    match parse_u32_spec(s) {
        Some(v) => v,
        None => default,
    }
}

/// The RRULE day code of a cron day-of-week entry (0 and 7 are Sunday).
pub open spec fn weekday_code(d: Seq<char>) -> Option<Seq<char>> {
    if d == "0"@ || d == "7"@ {
        Some("SU"@)
    } else if d == "1"@ {
        Some("MO"@)
    } else if d == "2"@ {
        Some("TU"@)
    } else if d == "3"@ {
        Some("WE"@)
    } else if d == "4"@ {
        Some("TH"@)
    } else if d == "5"@ {
        Some("FR"@)
    } else if d == "6"@ {
        Some("SA"@)
    } else {
        None
    }
}

/// The day codes of the recognized comma-separated day-of-week entries, in order.
pub open spec fn day_codes(entries: Seq<Seq<char>>) -> Seq<Seq<char>>
    decreases entries.len(),
{
    if entries.len() == 0 {
        seq![]
    } else {
        let prev = day_codes(entries.drop_last());
        match weekday_code(trim(entries.last())) {
            Some(c) => prev.push(c),
            None => prev,
        }
    }
}

pub open spec fn by_hour_minute(hour: u32, minute: u32) -> Seq<char> {
    ";BYHOUR="@ + dec(hour as nat) + ";BYMINUTE="@ + dec(minute as nat)
}

/// Best-effort 5-field cron -> RFC 5545 RRULE translation:
/// - fewer than five fields -> `FREQ=DAILY`;
/// - a specific day of month with any day of week -> `FREQ=MONTHLY;BYMONTHDAY=..`;
/// - recognized days of week -> `FREQ=WEEKLY;BYDAY=..`;
/// - otherwise a daily rule at the parsed hour and minute.
/// Unparsable minute/hour read as 0, an unparsable day of month as 1.
pub open spec fn cron_to_rrule_spec(cron: Seq<char>) -> Seq<char> {
    let parts = ws_tokens(cron);
    if parts.len() < 5 {
        "FREQ=DAILY"@
    } else {
        let minute = cron_number(parts[0], 0);
        let hour = cron_number(parts[1], 0);
        let dom = parts[2];
        let dow = parts[4];
        let codes = day_codes(split_on(dow, ','));
        if dom != "*"@ && dow == "*"@ {
            "FREQ=MONTHLY;BYMONTHDAY="@ + dec(cron_number(dom, 1) as nat) + by_hour_minute(hour, minute)
        } else if dow != "*"@ && join_with(codes, ","@).len() > 0 {
            "FREQ=WEEKLY;BYDAY="@ + join_with(codes, ","@) + by_hour_minute(hour, minute)
        } else {
            "FREQ=DAILY"@ + by_hour_minute(hour, minute)
        }
    }
}

/// A cron day-of-week job on one day runs weekly on that day, by the cron
/// convention: `0` and `7` are Sunday, `1` Monday, `2` Tuesday, `3`
/// Wednesday, `4` Thursday, `5` Friday, `6` Saturday; the hour and minute
/// are the cron's second and first fields.
pub proof fn cron_weekly_day(cron: Seq<char>, c: char)
    requires
        ws_tokens(cron).len() >= 5,
        ws_tokens(cron)[4] == seq![c],
        '0' <= c <= '7',
    ensures
        cron_to_rrule_spec(cron) == "FREQ=WEEKLY;BYDAY="@ + (if c == '0' || c == '7' {
            seq!['S', 'U']
        } else if c == '1' {
            seq!['M', 'O']
        } else if c == '2' {
            seq!['T', 'U']
        } else if c == '3' {
            seq!['W', 'E']
        } else if c == '4' {
            seq!['T', 'H']
        } else if c == '5' {
            seq!['F', 'R']
        } else {
            seq!['S', 'A']
        }) + ";BYHOUR="@ + dec(cron_number(ws_tokens(cron)[1], 0) as nat) + ";BYMINUTE="@ + dec(
            cron_number(ws_tokens(cron)[0], 0) as nat,
        ),
{
    let d = seq![c];
    reveal_strlit("0");
    reveal_strlit("1");
    reveal_strlit("2");
    reveal_strlit("3");
    reveal_strlit("4");
    reveal_strlit("5");
    reveal_strlit("6");
    reveal_strlit("7");
    reveal_strlit("*");
    reveal_strlit("SU");
    reveal_strlit("MO");
    reveal_strlit("TU");
    reveal_strlit("WE");
    reveal_strlit("TH");
    reveal_strlit("FR");
    reveal_strlit("SA");
    assert(d.drop_last() =~= Seq::<char>::empty());
    assert(split_scan(d.drop_last(), ',') == (Seq::<Seq<char>>::empty(), Seq::<char>::empty()));
    assert(Seq::<char>::empty().push(c) =~= d);
    assert(split_scan(d, ',') == (Seq::<Seq<char>>::empty(), d));
    assert(split_on(d, ',') =~= seq![d]);
    assert(trim_start(d) == d);
    assert(trim_end(d) == d) by {
        assert(!is_ws(d.last()));
    }
    assert(trim(d) == d);
    if c == '0' {
        assert(d =~= "0"@);
    } else if c == '1' {
        assert(d =~= "1"@);
    } else if c == '2' {
        assert(d =~= "2"@);
    } else if c == '3' {
        assert(d =~= "3"@);
    } else if c == '4' {
        assert(d =~= "4"@);
    } else if c == '5' {
        assert(d =~= "5"@);
    } else if c == '6' {
        assert(d =~= "6"@);
    } else {
        assert(d =~= "7"@);
    }
    assert(weekday_code(d) is Some);
    let code = weekday_code(d)->0;
    assert(seq![d].drop_last() =~= Seq::<Seq<char>>::empty());
    assert(seq![d].last() == d);
    assert(day_codes(seq![d].drop_last()) =~= Seq::<Seq<char>>::empty());
    assert(weekday_code(trim(seq![d].last())) == Some(code));
    assert(day_codes(seq![d]) =~= seq![code]);
    assert(join_with(seq![code], ","@) == code);
    assert(d != "*"@);
}

/// A cron job on every day of the week (`*` in the fifth field) and every
/// day of the month runs daily at the cron's hour and minute; one on a
/// given day of the month (and any day of the week) runs monthly on that
/// day; fewer than five fields give a plain daily rule.
pub proof fn cron_daily_and_monthly(cron: Seq<char>)
    ensures
        ws_tokens(cron).len() < 5 ==> cron_to_rrule_spec(cron) == "FREQ=DAILY"@,
        ws_tokens(cron).len() >= 5 && ws_tokens(cron)[2] == "*"@ && ws_tokens(cron)[4] == "*"@
            ==> cron_to_rrule_spec(cron) == "FREQ=DAILY"@ + ";BYHOUR="@ + dec(
            cron_number(ws_tokens(cron)[1], 0) as nat,
        ) + ";BYMINUTE="@ + dec(cron_number(ws_tokens(cron)[0], 0) as nat),
        ws_tokens(cron).len() >= 5 && ws_tokens(cron)[2] != "*"@ && ws_tokens(cron)[4] == "*"@
            ==> cron_to_rrule_spec(cron) == "FREQ=MONTHLY;BYMONTHDAY="@ + dec(
            cron_number(ws_tokens(cron)[2], 1) as nat,
        ) + ";BYHOUR="@ + dec(cron_number(ws_tokens(cron)[1], 0) as nat) + ";BYMINUTE="@ + dec(
            cron_number(ws_tokens(cron)[0], 0) as nat,
        ),
{
    reveal_strlit("*");
    let t = ws_tokens(cron);
    if t.len() >= 5 && t[4] == "*"@ {
        assert(t[4] =~= seq!['*']);
        assert(split_on(t[4], ',') =~= seq![t[4]]) by {
            let d = t[4];
            assert(d.drop_last() =~= Seq::<char>::empty());
            assert(split_scan(d.drop_last(), ',') == (Seq::<Seq<char>>::empty(), Seq::<char>::empty()));
            assert(Seq::<char>::empty().push('*') =~= d);
        }
    }
}

/// A text beginning with `lit` whose first character and the last of `p`
/// (a prefix of `lit`) are not whitespace passes the RRULE check's
/// frequency test for `p` after trimming.
proof fn lemma_rule_starts(lit: Seq<char>, tail: Seq<char>, p: Seq<char>)
    requires
        p.len() > 0,
        starts_with(lit, p),
        !crate::text::is_ws(lit[0]),
        !crate::text::is_ws(lit[p.len() - 1]),
        forall|k: int| 0 <= k < p.len() ==> !(97 <= (#[trigger] p[k] as u32) <= 122),
    ensures
        upper_starts_with(trim(lit + tail), p),
{
    let s = lit + tail;
    assert(s.take(p.len() as int) =~= lit.take(p.len() as int));
    assert(s[0] == lit[0]);
    assert(s[p.len() - 1] == lit[p.len() - 1]);
    lemma_trim_keeps_prefix(s, p);
    let t = trim(s);
    assert forall|k: int| 0 <= k < p.len() implies crate::ical::event::upper_code(#[trigger] t[k]) == p[k] as u32 by {
        assert(t.take(p.len() as int)[k] == t[k]);
    }
}

/// Every RRULE `cron_to_rrule` writes is a daily, weekly or monthly rule
/// that passes the RRULE check (so a schedule carrying it renders), and a
/// cron text of fewer than five fields gives `FREQ=DAILY`.
pub proof fn cron_rrule_is_valid(cron: Seq<char>)
    ensures
        ({
            let r = trim(cron_to_rrule_spec(cron));
            upper_starts_with(r, "FREQ=DAILY"@) || upper_starts_with(r, "FREQ=WEEKLY"@)
                || upper_starts_with(r, "FREQ=MONTHLY"@)
        }),
        rrule_fault(cron_to_rrule_spec(cron)) is None,
        trim(cron_to_rrule_spec(cron)).len() > 0,
        ws_tokens(cron).len() < 5 ==> cron_to_rrule_spec(cron) == "FREQ=DAILY"@,
{
    reveal_strlit("FREQ=DAILY");
    reveal_strlit("FREQ=WEEKLY");
    reveal_strlit("FREQ=MONTHLY");
    reveal_strlit("FREQ=");
    reveal_strlit("FREQ=MONTHLY;BYMONTHDAY=");
    reveal_strlit("FREQ=WEEKLY;BYDAY=");
    let r = cron_to_rrule_spec(cron);
    let parts = ws_tokens(cron);
    let daily = "FREQ=DAILY"@;
    assert(daily.take(daily.len() as int) =~= daily);
    if parts.len() < 5 {
        assert(r =~= daily + Seq::<char>::empty());
        lemma_rule_starts(daily, Seq::<char>::empty(), daily);
    } else {
        let minute = cron_number(parts[0], 0);
        let hour = cron_number(parts[1], 0);
        let dom = parts[2];
        let dow = parts[4];
        let codes = day_codes(split_on(dow, ','));
        if dom != "*"@ && dow == "*"@ {
            let lit = "FREQ=MONTHLY;BYMONTHDAY="@;
            let tail = dec(cron_number(dom, 1) as nat) + by_hour_minute(hour, minute);
            assert(r =~= lit + tail);
            assert(lit.take(12) =~= "FREQ=MONTHLY"@);
            lemma_rule_starts(lit, tail, "FREQ=MONTHLY"@);
        } else if dow != "*"@ && join_with(codes, ","@).len() > 0 {
            let lit = "FREQ=WEEKLY;BYDAY="@;
            let tail = join_with(codes, ","@) + by_hour_minute(hour, minute);
            assert(r =~= lit + tail);
            assert(lit.take(11) =~= "FREQ=WEEKLY"@);
            lemma_rule_starts(lit, tail, "FREQ=WEEKLY"@);
        } else {
            let tail = by_hour_minute(hour, minute);
            assert(r =~= daily + tail);
            lemma_rule_starts(daily, tail, daily);
        }
    }
    let t = trim(r);
    assert(upper_starts_with(t, "FREQ="@)) by {
        assert forall|k: int| 0 <= k < 5 implies crate::ical::event::upper_code(#[trigger] t[k]) == "FREQ="@[k] as u32 by {
            assert("FREQ="@[k] == daily[k]);
        }
    }
}

fn weekday_code_of(d: &[char]) -> (r: Option<String>)
    ensures
        r matches Some(c) ==> weekday_code(d@) == Some(c@),
        r is None ==> weekday_code(d@) is None,
{
    let s = string_of(d);
    let t = s.as_str();
    if str_eq(t, "0") || str_eq(t, "7") {
        Some("SU".to_owned())
    } else if str_eq(t, "1") {
        Some("MO".to_owned())
    } else if str_eq(t, "2") {
        Some("TU".to_owned())
    } else if str_eq(t, "3") {
        Some("WE".to_owned())
    } else if str_eq(t, "4") {
        Some("TH".to_owned())
    } else if str_eq(t, "5") {
        Some("FR".to_owned())
    } else if str_eq(t, "6") {
        Some("SA".to_owned())
    } else {
        None
    }
}

fn push_by_hour_minute(s: &mut String, hour: u32, minute: u32)
    ensures
        final(s)@ == old(s)@ + by_hour_minute(hour, minute),
{
    push_str(s, ";BYHOUR=");
    push_u64(s, hour as u64);
    push_str(s, ";BYMINUTE=");
    push_u64(s, minute as u64);
    assert(final(s)@ =~= old(s)@ + by_hour_minute(hour, minute));
}

fn cron_number_of(s: &[char], default: u32) -> (v: u32)
    ensures
        v == cron_number(s@, default),
{
    match parse_u32(s) {
        Some(v) => v,
        None => default,
    }
}

/// Best-effort 5-field cron -> RFC 5545 RRULE translation (see
/// [`cron_to_rrule_spec`]).
pub fn cron_to_rrule(cron: &str) -> (r: String)
    ensures
        r@ == cron_to_rrule_spec(cron@),
{
    let cv = chars_of(cron);
    let parts = split_whitespace(cv.as_slice());
    if parts.len() < 5 {
        return "FREQ=DAILY".to_owned();
    }
    let minute = cron_number_of(parts[0].as_slice(), 0);
    let hour = cron_number_of(parts[1].as_slice(), 0);
    let star: Vec<char> = chars_of("*");
    let dom_star = chars_eq(parts[2].as_slice(), star.as_slice());
    let dow_star = chars_eq(parts[4].as_slice(), star.as_slice());
    if !dom_star && dow_star {
        let day = cron_number_of(parts[2].as_slice(), 1);
        let mut r = "FREQ=MONTHLY;BYMONTHDAY=".to_owned();
        push_u64(&mut r, day as u64);
        push_by_hour_minute(&mut r, hour, minute);
        return r;
    }
    if !dow_star {
        let entries = split_char(parts[4].as_slice(), ',');
        let ghost es = split_on(parts[4]@, ',');
        let mut codes: Vec<String> = Vec::new();
        let mut i: usize = 0;
        while i < entries.len()
            invariant
                i <= entries@.len(),
                entries@.len() == es.len(),
                forall|k: int| 0 <= k < entries@.len() ==> #[trigger] entries@[k]@ == es[k],
                codes@.map_values(|p: String| p@) == day_codes(es.take(i as int)),
            decreases entries@.len() - i,
        {
            assert(es.take(i + 1).drop_last() =~= es.take(i as int));
            assert(es.take(i + 1).last() == entries@[i as int]@);
            let t = trim_chars(entries[i].as_slice());
            match weekday_code_of(t.as_slice()) {
                Some(c) => {
                    codes.push(c);
                },
                None => {},
            }
            assert(codes@.map_values(|p: String| p@) =~= day_codes(es.take(i + 1)));
            i = i + 1;
        }
        assert(es.take(entries@.len() as int) =~= es);
        let byday = join_strings(&codes, ",");
        if byday.as_str().unicode_len() > 0 {
            let mut r = "FREQ=WEEKLY;BYDAY=".to_owned();
            push_str(&mut r, byday.as_str());
            push_by_hour_minute(&mut r, hour, minute);
            return r;
        }
    }
    let mut r = "FREQ=DAILY".to_owned();
    push_by_hour_minute(&mut r, hour, minute);
    r
}

/// The RRULE a definition carries: its `rrule` tag, else its `cron` tag
/// translated, else empty (webhook-triggered).
pub open spec fn resolve_rrule_spec(tags: Seq<Seq<Seq<char>>>) -> Seq<char> {
    match first_tag_value_spec(tags, "rrule"@) {
        Some(r) => r,
        None => match first_tag_value_spec(tags, "cron"@) {
            Some(c) => cron_to_rrule_spec(c),
            None => Seq::<char>::empty(),
        },
    }
}

/// `v` if present, else `d`.
pub open spec fn or_default(v: Option<Seq<char>>, d: Seq<char>) -> Seq<char> {
    match v {
        Some(x) => x,
        None => d,
    }
}

/// The schedule a well-formed definition event describes.
pub open spec fn schedule_matches_def(s: Schedule, event: SourceEvent) -> bool {
    let tags = event.tag_seqs();
    let name = match first_tag_value_spec(tags, "name"@) {
        Some(n) => Some(n),
        None => first_tag_value_spec(tags, "summary"@),
    };
    &&& Some(s.schedule_id@) == first_tag_value_spec(tags, "d"@)
    &&& Some(s.summary@) == name
    &&& s.description@ == or_default(first_tag_value_spec(tags, "description"@), event.content@)
    &&& s.rrule@ == resolve_rrule_spec(tags)
    &&& s.dtstart == (match first_tag_value_spec(tags, "dtstart"@) {
        Some(v) => match parse_i64_spec(v) {
            Some(n) => n,
            None => event.created_at,
        },
        None => event.created_at,
    })
    &&& Some(s.community_id@) == first_tag_value_spec(tags, "community"@)
    &&& s.channel_id@ == or_default(first_tag_value_spec(tags, "channel"@), Seq::<char>::empty())
    &&& s.calendar_group@ == or_default(first_tag_value_spec(tags, "calendar_group"@), "default"@)
    &&& (match s.color_category {
        Some(c) => first_tag_value_spec(tags, "color"@) == Some(c@),
        None => first_tag_value_spec(tags, "color"@) is None,
    })
    &&& (match s.owner_agent_id {
        Some(a) => first_tag_value_spec(tags, "agent"@) == Some(a@),
        None => first_tag_value_spec(tags, "agent"@) is None,
    })
    &&& s.created_at == event.created_at
    &&& s.updated_at == event.created_at
}

fn tag_or(event: &SourceEvent, name: &str, default: &str) -> (r: String)
    ensures
        r@ == or_default(first_tag_value_spec(event.tag_seqs(), name@), default@),
{
    match event.first_tag_value(name) {
        Some(v) => v.to_owned(),
        None => default.to_owned(),
    }
}

fn tag_opt(event: &SourceEvent, name: &str) -> (r: Option<String>)
    ensures
        match r {
            Some(c) => first_tag_value_spec(event.tag_seqs(), name@) == Some(c@),
            None => first_tag_value_spec(event.tag_seqs(), name@) is None,
        },
{
    match event.first_tag_value(name) {
        Some(v) => Some(v.to_owned()),
        None => None,
    }
}

fn resolve_rrule(event: &SourceEvent) -> (r: String)
    ensures
        r@ == resolve_rrule_spec(event.tag_seqs()),
{
    if let Some(rrule) = event.first_tag_value("rrule") {
        return rrule.to_owned();
    }
    if let Some(cron) = event.first_tag_value("cron") {
        return cron_to_rrule(cron);
    }
    String::new()
}

/// Translate a workflow-definition event into a [`Schedule`].
///
/// Errors: `UnexpectedKind` for another kind; `MissingTag` for a missing
/// `d`, name (`name`/`summary`) or `community` tag, checked in that order.
pub fn schedule_from_workflow_def(event: &SourceEvent) -> (r: Result<Schedule, IngestError>)
    ensures
        event.kind != KIND_WORKFLOW_DEF ==> (r matches Err(IngestError::UnexpectedKind { kind })
            && kind == event.kind),
        event.kind == KIND_WORKFLOW_DEF ==> {
            let tags = event.tag_seqs();
            if first_tag_value_spec(tags, "d"@) is None {
                (r matches Err(IngestError::MissingTag { tag }) && tag@ == "d"@)
            } else if first_tag_value_spec(tags, "name"@) is None && first_tag_value_spec(
                tags,
                "summary"@,
            ) is None {
                (r matches Err(IngestError::MissingTag { tag }) && tag@ == "name"@)
            } else if first_tag_value_spec(tags, "community"@) is None {
                (r matches Err(IngestError::MissingTag { tag }) && tag@ == "community"@)
            } else {
                (r matches Ok(s) && schedule_matches_def(s, *event))
            }
        },
{
    if event.kind != KIND_WORKFLOW_DEF {
        return Err(IngestError::UnexpectedKind { kind: event.kind });
    }
    let schedule_id = match event.first_tag_value("d") {
        Some(v) => v.to_owned(),
        None => return Err(IngestError::MissingTag { tag: "d" }),
    };
    let summary = match event.first_tag_value("name") {
        Some(v) => v.to_owned(),
        None => match event.first_tag_value("summary") {
            Some(v) => v.to_owned(),
            None => return Err(IngestError::MissingTag { tag: "name" }),
        },
    };
    let description = match event.first_tag_value("description") {
        Some(v) => v.to_owned(),
        None => event.content.clone(),
    };
    let rrule = resolve_rrule(event);
    let dtstart = match event.first_tag_value("dtstart") {
        Some(v) => match parse_i64(chars_of(v).as_slice()) {
            Some(n) => n,
            None => event.created_at,
        },
        None => event.created_at,
    };
    let community_id = match event.first_tag_value("community") {
        Some(v) => v.to_owned(),
        None => return Err(IngestError::MissingTag { tag: "community" }),
    };
    let channel_id = tag_or(event, "channel", "");
    let calendar_group = tag_or(event, "calendar_group", "default");
    let color_category = tag_opt(event, "color");
    let owner_agent_id = tag_opt(event, "agent");
    proof {
        reveal_strlit("");
    }
    let s = Schedule {
            schedule_id,
            community_id,
            channel_id,
            summary,
            description,
            rrule,
            dtstart,
            calendar_group,
            color_category,
            owner_agent_id,
            created_at: event.created_at,
            updated_at: event.created_at,
        };
    let ghost tags = event.tag_seqs();
    assert(Some(s.schedule_id@) == first_tag_value_spec(tags, "d"@));
    assert(s.description@ == or_default(first_tag_value_spec(tags, "description"@), event.content@));
    assert(s.rrule@ == resolve_rrule_spec(tags));
    assert(Some(s.community_id@) == first_tag_value_spec(tags, "community"@));
    assert(s.channel_id@ == or_default(first_tag_value_spec(tags, "channel"@), Seq::<char>::empty()));
    assert(schedule_matches_def(s, *event));
    Ok(s)
}

} // verus!
