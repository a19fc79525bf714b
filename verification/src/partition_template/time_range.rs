//! The datetime range that a time-format key part stands for.
//!
//! A key part rendered through a strftime format such as `%Y-%m` names every
//! instant of that month. The range runs from the parsed instant, with the
//! fields the format leaves out set to their first value, to one step of the
//! finest date field of the format later.

use vstd::prelude::*;

verus! {

/// An instant in UTC: whole seconds since the Unix epoch and the nanoseconds
/// into that second.
#[derive(Debug, Clone, Copy, PartialEq, Eq, Hash)]
pub struct Timestamp {
    /// Seconds since 1970-01-01T00:00:00Z; negative before it.
    pub secs: i64,
    /// Nanoseconds into the second.
    pub nanos: u32,
}

/// The fields of a parsed date and time that the range inference reads.
#[derive(Debug, Clone, Copy, PartialEq, Eq, Hash)]
pub struct ParsedFields {
    /// Year.
    pub year: Option<i32>,
    /// Month, 1 to 12.
    pub month: Option<u32>,
    /// Day of the month, 1 to 31.
    pub day: Option<u32>,
    /// Hour divided by 12: 0 for AM, 1 for PM.
    pub hour_div_12: Option<u32>,
    /// Hour modulo 12.
    pub hour_mod_12: Option<u32>,
    /// Minute.
    pub minute: Option<u32>,
    /// Second.
    pub second: Option<u32>,
    /// Nanosecond.
    pub nanosecond: Option<u32>,
}

/// One item of a strftime format, as far as the range inference tells items
/// apart.
#[derive(Debug, Clone, Copy, PartialEq, Eq, Hash)]
pub enum TimeItem {
    /// Literal text.
    Literal,
    /// Whitespace.
    Space,
    /// The full year, `%Y`.
    Year,
    /// The month number, `%m`.
    Month,
    /// The day of the month, `%d`.
    Day,
    /// Any other numeric field.
    OtherNumeric,
    /// A field that is not numeric, such as a month name or a time zone.
    Fixed,
    /// A directive that the format language does not know.
    Error,
}

/// The items that a strftime format consists of.
pub uninterp spec fn strftime_items(format: Seq<char>) -> Seq<TimeItem>;

/// The fields that parsing `value` under a strftime format sets, or `None`
/// where `value` does not match the format.
pub uninterp spec fn strftime_parse(value: Seq<char>, format: Seq<char>) -> Option<ParsedFields>;

/// The UTC instant that a set of parsed fields determines, or `None` where
/// they determine none.
pub uninterp spec fn resolve_utc(fields: ParsedFields) -> Option<Timestamp>;

/// The instant a number of calendar months after `from`, or `None` where the
/// calendar ends before it.
pub uninterp spec fn utc_plus_months(from: Timestamp, months: u32) -> Option<Timestamp>;

/// The instant a number of calendar days after `from`, or `None` where the
/// calendar ends before it.
pub uninterp spec fn utc_plus_days(from: Timestamp, days: u64) -> Option<Timestamp>;

/// True when `a` is strictly earlier than `b`.
pub open spec fn spec_earlier(a: Timestamp, b: Timestamp) -> bool {
    a.secs < b.secs || (a.secs == b.secs && a.nanos < b.nanos)
}

/// The parsed fields with the fields that may be left out filled in, or
/// `None` where a finer field is given without the coarser one above it.
///
/// The year must be given. A missing month becomes 1, but only where the day
/// is missing too; a missing day becomes 1, but only where the hour is
/// missing too; a missing hour becomes 0, but only where the minute is
/// missing too; a missing minute becomes 0, but only where second and
/// nanosecond are missing too.
pub open spec fn spec_implicit_defaults(parsed: ParsedFields) -> Option<ParsedFields> {
    if parsed.year is None {
        None
    } else if parsed.month is None && parsed.day is Some {
        None
    } else if parsed.day is None && (parsed.hour_div_12 is Some || parsed.hour_mod_12 is Some) {
        None
    } else if (parsed.hour_div_12 is None || parsed.hour_mod_12 is None) && (parsed.hour_div_12
        is Some || parsed.hour_mod_12 is Some || parsed.minute is Some) {
        None
    } else if parsed.minute is None && (parsed.second is Some || parsed.nanosecond is Some) {
        None
    } else {
        Some(
            ParsedFields {
                year: parsed.year,
                month: if parsed.month is None {
                    Some(1u32)
                } else {
                    parsed.month
                },
                day: if parsed.day is None {
                    Some(1u32)
                } else {
                    parsed.day
                },
                hour_div_12: if parsed.hour_div_12 is None {
                    Some(0u32)
                } else {
                    parsed.hour_div_12
                },
                hour_mod_12: if parsed.hour_mod_12 is None {
                    Some(0u32)
                } else {
                    parsed.hour_mod_12
                },
                minute: if parsed.minute is None {
                    Some(0u32)
                } else {
                    parsed.minute
                },
                second: parsed.second,
                nanosecond: parsed.nanosecond,
            },
        )
    }
}

/// The end that one format item proposes for a range that begins at `begin`:
/// a year later for `%Y`, a month later for `%m`, a day later for `%d`.
pub open spec fn spec_item_end(begin: Timestamp, item: TimeItem) -> Option<Timestamp> {
    match item {
        TimeItem::Year => utc_plus_months(begin, 12),
        TimeItem::Month => utc_plus_months(begin, 1),
        TimeItem::Day => utc_plus_days(begin, 1),
        _ => None,
    }
}

/// True for the items that neither propose an end nor rule the format out.
pub open spec fn spec_item_is_text(item: TimeItem) -> bool {
    item is Literal || item is Space
}

/// The earlier of the end found so far and a newly proposed one.
pub open spec fn spec_nearer_end(found: Option<Timestamp>, proposed: Timestamp) -> Timestamp {
    match found {
        Some(end) => if spec_earlier(end, proposed) {
            end
        } else {
            proposed
        },
        None => proposed,
    }
}

/// The end of the range after the items from index `from` on have been
/// looked at, `found` being the end that the items before them gave.
///
/// Text proposes nothing. A year, month or day field proposes its step, and
/// the earliest proposal wins. Any other item, or a step that leaves the
/// calendar, leaves the range without an end.
pub open spec fn spec_range_end_from(
    begin: Timestamp,
    items: Seq<TimeItem>,
    from: int,
    found: Option<Timestamp>,
) -> Option<Timestamp>
    decreases items.len() - from,
{
    if from < 0 || from >= items.len() {
        found
    } else if spec_item_is_text(items[from]) {
        spec_range_end_from(begin, items, from + 1, found)
    } else {
        match spec_item_end(begin, items[from]) {
            Some(proposed) => spec_range_end_from(
                begin,
                items,
                from + 1,
                Some(spec_nearer_end(found, proposed)),
            ),
            None => None,
        }
    }
}

/// The exclusive end of the range that begins at `begin`, for a format made
/// of `items`; `None` where the format has no year, month or day field, or
/// holds an item other than these and text.
pub open spec fn spec_range_end(begin: Timestamp, items: Seq<TimeItem>) -> Option<Timestamp> {
    spec_range_end_from(begin, items, 0, None)
}

/// The range that a key part `value` stands for under a strftime `format`:
/// its inclusive begin and exclusive end.
pub open spec fn spec_time_range(value: Seq<char>, format: Seq<char>) -> Option<
    (Timestamp, Timestamp),
> {
    match strftime_parse(value, format) {
        Some(parsed) => match spec_implicit_defaults(parsed) {
            Some(filled) => match resolve_utc(filled) {
                Some(begin) => match spec_range_end(begin, strftime_items(format)) {
                    Some(end) => Some((begin, end)),
                    None => None,
                },
                None => None,
            },
            None => None,
        },
        None => None,
    }
}

/// Walks `chrono::format::StrftimeItems::new(format)` and tells each item's
/// kind.
///
/// Trusted: the result lists, in order, the kind of every item that chrono
/// splits the format into.
#[verifier::external_body]
fn format_items(format: &str) -> (items: Vec<TimeItem>)
    ensures
        items@ == strftime_items(format@),
{
    chrono::format::StrftimeItems::new(format).map(|item| match item {
        chrono::format::Item::Literal(_) | chrono::format::Item::OwnedLiteral(_) => TimeItem::Literal,
        chrono::format::Item::Space(_) | chrono::format::Item::OwnedSpace(_) => TimeItem::Space,
        chrono::format::Item::Numeric(chrono::format::Numeric::Year, _) => TimeItem::Year,
        chrono::format::Item::Numeric(chrono::format::Numeric::Month, _) => TimeItem::Month,
        chrono::format::Item::Numeric(chrono::format::Numeric::Day, _) => TimeItem::Day,
        chrono::format::Item::Numeric(_, _) => TimeItem::OtherNumeric,
        chrono::format::Item::Fixed(_) => TimeItem::Fixed,
        chrono::format::Item::Error => TimeItem::Error,
    }).collect()
}

/// Calls `chrono::format::parse` with the items of `format` and hands out
/// the fields it set.
///
/// Trusted: the result is `None` where chrono rejects `value`, else the
/// year, month, day, hour, minute, second and nanosecond fields of the
/// `Parsed` that it filled.
#[verifier::external_body]
fn parse_fields(value: &str, format: &str) -> (parsed: Option<ParsedFields>)
    ensures
        parsed == strftime_parse(value@, format@),
{
    let mut p = chrono::format::Parsed::new();
    chrono::format::parse(&mut p, value, chrono::format::StrftimeItems::new(format)).ok()?;
    Some(ParsedFields {
        year: p.year,
        month: p.month,
        day: p.day,
        hour_div_12: p.hour_div_12,
        hour_mod_12: p.hour_mod_12,
        minute: p.minute,
        second: p.second,
        nanosecond: p.nanosecond,
    })
}

/// Calls `chrono::format::Parsed::to_datetime_with_timezone` for UTC on a
/// `Parsed` that holds exactly these fields.
///
/// Trusted: the result is the instant chrono resolves the fields to, `None`
/// where it reports that they are too few, out of range or inconsistent.
#[verifier::external_body]
fn resolve(fields: &ParsedFields) -> (instant: Option<Timestamp>)
    ensures
        instant == resolve_utc(*fields),
{
    let mut p = chrono::format::Parsed::new();
    p.year = fields.year;
    p.month = fields.month;
    p.day = fields.day;
    p.hour_div_12 = fields.hour_div_12;
    p.hour_mod_12 = fields.hour_mod_12;
    p.minute = fields.minute;
    p.second = fields.second;
    p.nanosecond = fields.nanosecond;
    let resolved = p.to_datetime_with_timezone(&chrono::Utc).ok()?;
    Some(Timestamp { secs: resolved.timestamp(), nanos: resolved.timestamp_subsec_nanos() })
}

/// Calls `chrono::DateTime::checked_add_months`.
///
/// Trusted: the result is the instant that chrono's calendar arithmetic
/// gives, `None` where `from` or the sum is outside chrono's range.
#[verifier::external_body]
fn plus_months(from: Timestamp, months: u32) -> (sum: Option<Timestamp>)
    ensures
        sum == utc_plus_months(from, months),
{
    let start = chrono::DateTime::from_timestamp(from.secs, from.nanos)?;
    let end = start.checked_add_months(chrono::Months::new(months))?;
    Some(Timestamp { secs: end.timestamp(), nanos: end.timestamp_subsec_nanos() })
}

/// Calls `chrono::DateTime::checked_add_days`.
///
/// Trusted: the result is the instant that chrono's calendar arithmetic
/// gives, `None` where `from` or the sum is outside chrono's range.
#[verifier::external_body]
fn plus_days(from: Timestamp, days: u64) -> (sum: Option<Timestamp>)
    ensures
        sum == utc_plus_days(from, days),
{
    let start = chrono::DateTime::from_timestamp(from.secs, from.nanos)?;
    let end = start.checked_add_days(chrono::Days::new(days))?;
    Some(Timestamp { secs: end.timestamp(), nanos: end.timestamp_subsec_nanos() })
}

/// Tells whether `a` is strictly earlier than `b`.
pub fn earlier(a: Timestamp, b: Timestamp) -> (before: bool)
    ensures
        before == spec_earlier(a, b),
{
    a.secs < b.secs || (a.secs == b.secs && a.nanos < b.nanos)
}

/// Fills in the fields that a format may leave out.
///
/// Returns `None` where the year is missing or where a finer field is given
/// without the coarser one above it, as in `%Y-%d`.
pub fn parsed_implicit_defaults(parsed: ParsedFields) -> (filled: Option<ParsedFields>)
    ensures
        filled == spec_implicit_defaults(parsed),
{
    let mut parsed = parsed;
    if parsed.year.is_none() {
        return None;
    }
    if parsed.month.is_none() {
        if parsed.day.is_some() {
            return None;
        }
        parsed.month = Some(1);
    }
    if parsed.day.is_none() {
        if parsed.hour_div_12.is_some() || parsed.hour_mod_12.is_some() {
            return None;
        }
        parsed.day = Some(1);
    }
    if parsed.hour_div_12.is_none() || parsed.hour_mod_12.is_none() {
        if parsed.hour_div_12.is_some() {
            return None;
        }
        if parsed.hour_mod_12.is_some() {
            return None;
        }
        if parsed.minute.is_some() {
            return None;
        }
        parsed.hour_div_12 = Some(0);
        parsed.hour_mod_12 = Some(0);
    }
    if parsed.minute.is_none() {
        if parsed.second.is_some() {
            return None;
        }
        if parsed.nanosecond.is_some() {
            return None;
        }
        parsed.minute = Some(0);
    }
    Some(parsed)
}

/// The earlier of the end found so far and a newly proposed one.
pub fn nearer_end(found: Option<Timestamp>, proposed: Timestamp) -> (end: Timestamp)
    ensures
        end == spec_nearer_end(found, proposed),
{
    match found {
        Some(end) => if earlier(end, proposed) {
            end
        } else {
            proposed
        },
        None => proposed,
    }
}

/// The end that one format item proposes for a range beginning at `begin`.
pub fn item_end(begin: Timestamp, item: TimeItem) -> (end: Option<Timestamp>)
    ensures
        end == spec_item_end(begin, item),
{
    match item {
        TimeItem::Year => plus_months(begin, 12),
        TimeItem::Month => plus_months(begin, 1),
        TimeItem::Day => plus_days(begin, 1),
        _ => None,
    }
}

/// Infers the exclusive end of the range that begins at `begin` from the
/// items of the format the key part was rendered through.
pub fn range_end(begin: Timestamp, items: &Vec<TimeItem>) -> (end: Option<Timestamp>)
    ensures
        end == spec_range_end(begin, items@),
{
    let mut found: Option<Timestamp> = None;
    let mut i: usize = 0;
    while i < items.len()
        invariant
            i <= items@.len(),
            spec_range_end(begin, items@) == spec_range_end_from(begin, items@, i as int, found),
        decreases items@.len() - i,
    {
        let item = items[i];
        let is_text = match item {
            TimeItem::Literal => true,
            TimeItem::Space => true,
            _ => false,
        };
        if !is_text {
            match item_end(begin, item) {
                Some(proposed) => {
                    found = Some(nearer_end(found, proposed));
                },
                None => {
                    return None;
                },
            }
        }
        i = i + 1;
    }
    found
}

/// Infers the datetime range of a key part rendered through a strftime
/// format: `(begin, end)` with `end` exclusive.
///
/// Returns `None` where the part does not parse under the format, where its
/// fields do not name an instant, or where the format holds anything but
/// text and year, month and day fields.
pub fn time_range(value: &str, format: &str) -> (range: Option<(Timestamp, Timestamp)>)
    ensures
        range == spec_time_range(value@, format@),
{
    let parsed = match parse_fields(value, format) {
        Some(parsed) => parsed,
        None => {
            return None;
        },
    };
    let filled = match parsed_implicit_defaults(parsed) {
        Some(filled) => filled,
        None => {
            return None;
        },
    };
    let begin = match resolve(&filled) {
        Some(begin) => begin,
        None => {
            return None;
        },
    };
    let items = format_items(format);
    match range_end(begin, &items) {
        Some(end) => Some((begin, end)),
        None => None,
    }
}

} // verus!
