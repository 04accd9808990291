//! The UTC instant a post is scheduled for: the repo's default posting time
//! in its time zone, today if that is still ahead, otherwise tomorrow.
//! Time-zone rules and calendar arithmetic come from `chrono` and
//! `chrono-tz`.
use vstd::prelude::*;
use chrono::Datelike;
use chrono::Offset;
use chrono::TimeZone;
use crate::json::opt_string_view;
use crate::providers::common::{chrono_accepts, UtcTime};
use crate::text::digit_char;
use crate::text::{join2, join3, to_owned_string};

verus! {

broadcast use vstd::string::group_string_axioms;

/// The default time of day at which posts are scheduled.
#[derive(Clone, Debug)]
pub struct DefaultPostTime {
    pub hour: u8,
    pub minute: u8,
    pub timezone: String,
}

/// Whether `chrono_tz` knows the IANA zone named `name` (its `FromStr`).
pub uninterp spec fn tz_known(name: Seq<char>) -> bool;

/// Parses `name` as a `chrono_tz::Tz`; the table of zone names is left to
/// the name `tz_known`.
#[verifier::external_body]
fn timezone_known(name: &str) -> (r: bool)
    ensures
        r == tz_known(name@),
{
    name.parse::<chrono_tz::Tz>().is_ok()
}

/// The calendar date `(year, month, day)` in zone `name` at the instant
/// `secs` seconds after the epoch, or `None` when the zone is unknown, the
/// instant is outside chrono's range, or the local time there would be.
pub uninterp spec fn tz_local_date(name: Seq<char>, secs: i64) -> Option<(i32, u32, u32)>;

/// Calls `DateTime::from_timestamp`, the zone's `offset_from_utc_datetime`
/// and `NaiveDateTime::checked_add_offset`, which gives `None` where the
/// local time leaves chrono's range.
#[verifier::external_body]
fn local_date(name: &str, secs: i64) -> (r: Option<(i32, u32, u32)>)
    ensures
        r == tz_local_date(name@, secs),
{
    let tz: chrono_tz::Tz = match name.parse() {
        Ok(t) => t,
        Err(_) => return None,
    };
    let utc = chrono::DateTime::from_timestamp(secs, 0)?.naive_utc();
    let offset = tz.offset_from_utc_datetime(&utc).fix();
    let d = utc.checked_add_offset(offset)?.date();
    Some((d.year(), d.month(), d.day()))
}

/// The UTC instant (seconds after the epoch) of the local time
/// `hour:minute:00` on the given date in zone `name`, or `None` when that
/// local time is ambiguous, does not exist, or the zone is unknown.
pub uninterp spec fn tz_local_to_utc(name: Seq<char>, y: i32, m: u32, d: u32, hour: u32, minute: u32) -> Option<i64>;

/// Calls `TimeZone::with_ymd_and_hms` and `single` on the zone.
#[verifier::external_body]
fn local_to_utc(name: &str, y: i32, m: u32, d: u32, hour: u32, minute: u32) -> (r: Option<i64>)
    ensures
        r == tz_local_to_utc(name@, y, m, d, hour, minute),
{
    let tz: chrono_tz::Tz = match name.parse() {
        Ok(t) => t,
        Err(_) => return None,
    };
    match tz.with_ymd_and_hms(y, m, d, hour, minute, 0).single() {
        Some(dt) => Some(dt.timestamp()),
        None => None,
    }
}

/// The day after the given date, or `None` when the date is invalid or the
/// next day is beyond chrono's range (after 262142-12-31).
pub open spec fn next_date(y: i32, m: u32, d: u32) -> Option<(i32, u32, u32)> {
    if !valid_date(y, m, d) || (y == 262142 && m == 12 && d == 31) {
        None
    } else if d < days_in_month(y as int, m as int) {
        Some((y, m, (d + 1) as u32))
    } else if m < 12 {
        Some((y, (m + 1) as u32, 1u32))
    } else {
        Some(((y + 1) as i32, 1u32, 1u32))
    }
}

/// Calls `NaiveDate::from_ymd_opt` and `checked_add_signed` with one day,
/// which gives the next calendar day unless that is past `NaiveDate::MAX`.
#[verifier::external_body]
fn following_date(y: i32, m: u32, d: u32) -> (r: Option<(i32, u32, u32)>)
    ensures
        r == next_date(y, m, d),
{
    match chrono::NaiveDate::from_ymd_opt(y, m, d) {
        Some(date) => match date.checked_add_signed(chrono::TimeDelta::days(1)) {
            Some(n) => Some((n.year(), n.month(), n.day())),
            None => None,
        },
        None => None,
    }
}

/// Whether `y` is a leap year of the proleptic Gregorian calendar.
pub open spec fn leap_year(y: int) -> bool {
    y % 4 == 0 && (y % 100 != 0 || y % 400 == 0)
}

/// The number of days in month `m` (1 to 12) of year `y`.
pub open spec fn days_in_month(y: int, m: int) -> int {
    if m == 2 {
        if leap_year(y) { 29 } else { 28 }
    } else if m == 4 || m == 6 || m == 9 || m == 11 {
        30
    } else {
        31
    }
}

/// Whether `(y, m, d)` is a date `NaiveDate::from_ymd_opt` accepts: a real
/// calendar day in a year from -262143 to 262142.
pub open spec fn valid_date(y: i32, m: u32, d: u32) -> bool {
    &&& -262143 <= y <= 262142
    &&& 1 <= m <= 12
    &&& 1 <= d <= days_in_month(y as int, m as int)
}

/// The last `width` decimal digits of `n`, with leading zeros.
pub open spec fn padded_digits(n: nat, width: nat) -> Seq<char>
    decreases width,
{
    if width == 0 {
        Seq::empty()
    } else {
        padded_digits(n / 10, (width - 1) as nat).push(digit_char(n % 10))
    }
}

/// How `NaiveDate` displays the date, or `None` for an invalid date.
pub uninterp spec fn date_display(y: i32, m: u32, d: u32) -> Option<Seq<char>>;

/// Calls `NaiveDate::from_ymd_opt` and its `Display`, which writes a year
/// from 0 to 9999 as four digits, then `-`, the month and the day as two
/// digits each; other years are written with a sign, which is left to the
/// name above.
#[verifier::external_body]
fn date_text(y: i32, m: u32, d: u32) -> (r: Option<String>)
    ensures
        opt_string_view(r) == date_display(y, m, d),
        r is Some <==> valid_date(y, m, d),
        r is Some && 0 <= y <= 9999 ==> r->0@ == padded_digits(y as nat, 4) + "-"@
            + padded_digits(m as nat, 2) + "-"@ + padded_digits(d as nat, 2),
{
    match chrono::NaiveDate::from_ymd_opt(y, m, d) {
        Some(date) => Some(date.to_string()),
        None => None,
    }
}

/// The RFC 3339 text of the UTC instant `secs` seconds and `nanos`
/// nanoseconds after the epoch, as `DateTime::<Utc>::to_rfc3339` writes it,
/// or `None` when chrono cannot represent the instant.
pub uninterp spec fn utc_rfc3339(secs: i64, nanos: u32) -> Option<Seq<char>>;

/// Calls `DateTime::from_timestamp` and `to_rfc3339`.
#[verifier::external_body]
fn rfc3339_text(secs: i64, nanos: u32) -> (r: Option<String>)
    ensures
        opt_string_view(r) == utc_rfc3339(secs, nanos),
        r is Some <==> chrono_accepts(UtcTime { secs, nanos }),
{
    match chrono::DateTime::from_timestamp(secs, nanos) {
        Some(dt) => Some(dt.to_rfc3339()),
        None => None,
    }
}

/// Whether `text` is the RFC 3339 text of some instant chrono can
/// represent.
pub open spec fn is_timestamp_text(text: Seq<char>) -> bool {
    exists|t: UtcTime| chrono_accepts(t) && #[trigger] utc_rfc3339(t.secs, t.nanos) == Some(text)
}

/// Calls `chrono::Utc::now` and `to_rfc3339`: the current time as RFC 3339
/// text. Which instant it is depends on the clock; only that it is the text
/// of some instant chrono can represent is promised.
#[verifier::external_body]
pub(crate) fn now_rfc3339() -> (r: String)
    ensures
        is_timestamp_text(r@),
{
    chrono::Utc::now().to_rfc3339()
}

/// The RFC 3339 text of an instant chrono can represent, as
/// `DateTime::<Utc>::to_rfc3339` writes it.
pub(crate) fn instant_text(t: UtcTime) -> (r: String)
    requires
        chrono_accepts(t),
    ensures
        utc_rfc3339(t.secs, t.nanos) == Some(r@),
{
    rfc3339_text(t.secs, t.nanos).unwrap()
}

pub open spec fn unknown_timezone_message(tz: Seq<char>) -> Seq<char> {
    "Unknown timezone: '"@ + tz + "'"@
}

pub open spec fn invalid_local_time_message(date: Option<Seq<char>>) -> Seq<char> {
    "Ambiguous or invalid local time on "@ + match date {
        Some(t) => t,
        None => Seq::empty(),
    }
}

pub open spec fn out_of_range_message() -> Seq<char> {
    "Schedule time out of range"@
}

/// The zone a repo's posts are scheduled in: the one named, or UTC when the
/// name is empty.
pub open spec fn effective_zone(tz: Seq<char>) -> Seq<char> {
    if tz.len() == 0 {
        "UTC"@
    } else {
        tz
    }
}

/// The instant of the default posting time on `date` in zone `zone`.
pub open spec fn on_date_spec(zone: Seq<char>, date: (i32, u32, u32), hour: u8, minute: u8) -> Result<
    i64,
    Seq<char>,
> {
    match tz_local_to_utc(zone, date.0, date.1, date.2, hour as u32, minute as u32) {
        Some(t) => Ok(t),
        None => Err(invalid_local_time_message(date_display(date.0, date.1, date.2))),
    }
}

pub open spec fn rfc3339_result(secs: i64) -> Result<Seq<char>, Seq<char>> {
    match utc_rfc3339(secs, 0) {
        Some(t) => Ok(t),
        None => Err(out_of_range_message()),
    }
}

/// The schedule instant for the default posting time `hour:minute` in zone
/// `tz`, seen at `now`: today's occurrence when it is still ahead of `now`,
/// otherwise tomorrow's.
pub open spec fn schedule_utc_spec(hour: u8, minute: u8, tz: Seq<char>, now: UtcTime) -> Result<Seq<char>, Seq<char>> {
    let zone = effective_zone(tz);
    if !tz_known(zone) {
        Err(unknown_timezone_message(tz))
    } else {
        match tz_local_date(zone, now.secs) {
            None => Err(out_of_range_message()),
            Some(today) => match on_date_spec(zone, today, hour, minute) {
                Err(e) => Err(e),
                Ok(t) => if is_ahead(t, now) {
                    rfc3339_result(t)
                } else {
                    match next_date(today.0, today.1, today.2) {
                        None => Err(out_of_range_message()),
                        Some(tomorrow) => match on_date_spec(zone, tomorrow, hour, minute) {
                            Err(e) => Err(e),
                            Ok(t2) => rfc3339_result(t2),
                        },
                    }
                },
            },
        }
    }
}

/// Whether the whole-second instant `target` lies after `now`.
pub open spec fn is_ahead(target: i64, now: UtcTime) -> bool {
    target > now.secs
}

/// Whether the default posting time computed for today, `target` (whole
/// seconds), is still ahead of `now`; when it is not, tomorrow's is used.
pub fn schedule_today(target: i64, now: &UtcTime) -> (r: bool)
    ensures
        r == is_ahead(target, *now),
{
    target > now.secs
}

fn schedule_on_date(zone: &str, date: (i32, u32, u32), dpt: &DefaultPostTime) -> (r: Result<i64, String>)
    ensures
        match (r, on_date_spec(zone@, date, dpt.hour, dpt.minute)) {
            (Ok(a), Ok(b)) => a == b,
            (Err(a), Err(b)) => a@ == b,
            _ => false,
        },
{
    match local_to_utc(zone, date.0, date.1, date.2, dpt.hour as u32, dpt.minute as u32) {
        Some(t) => Ok(t),
        None => {
            let shown = date_text(date.0, date.1, date.2);
            match shown {
                Some(t) => Err(join2("Ambiguous or invalid local time on ", t.as_str())),
                None => Err(to_owned_string("Ambiguous or invalid local time on ")),
            }
        },
    }
}

fn rfc3339_or_error(secs: i64) -> (r: Result<String, String>)
    ensures
        match (r, rfc3339_result(secs)) {
            (Ok(a), Ok(b)) => a@ == b,
            (Err(a), Err(b)) => a@ == b,
            _ => false,
        },
{
    match rfc3339_text(secs, 0) {
        Some(t) => Ok(t),
        None => Err(to_owned_string("Schedule time out of range")),
    }
}

/// Computes the UTC RFC 3339 schedule string for the default post time in
/// `timezone` (UTC when empty), as seen at `now`. If the time has already
/// passed today in that zone, the next day's occurrence is returned.
pub fn compute_schedule_utc(dpt: &DefaultPostTime, timezone: &str, now: UtcTime) -> (r: Result<String, String>)
    ensures
        match (r, schedule_utc_spec(dpt.hour, dpt.minute, timezone@, now)) {
            (Ok(a), Ok(b)) => a@ == b,
            (Err(a), Err(b)) => a@ == b,
            _ => false,
        },
{
    let zone: &str = if timezone.is_empty() {
        "UTC"
    } else {
        timezone
    };
    proof {
        reveal_strlit("UTC");
    }
    if !timezone_known(zone) {
        return Err(join3("Unknown timezone: '", timezone, "'"));
    }
    let today = match local_date(zone, now.secs) {
        Some(d) => d,
        None => return Err(to_owned_string("Schedule time out of range")),
    };
    let target = match schedule_on_date(zone, today, dpt) {
        Ok(t) => t,
        Err(e) => return Err(e),
    };
    if schedule_today(target, &now) {
        return rfc3339_or_error(target);
    }
    let tomorrow = match following_date(today.0, today.1, today.2) {
        Some(d) => d,
        None => return Err(to_owned_string("Schedule time out of range")),
    };
    match schedule_on_date(zone, tomorrow, dpt) {
        Ok(t) => rfc3339_or_error(t),
        Err(e) => Err(e),
    }
}

} // verus!
