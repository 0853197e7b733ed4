//! The date of a file whose name carries none: the local calendar day of its
//! creation, or of its last change where the creation time is not known.
//!
//! How far the local time is ahead of UTC is known to the machine alone. The
//! caller asks for it and hands it in.

use crate::calendar::{
    day_number, is_calendar_date, lemma_day_number_determines_date, names_a_day, view_of,
    CalendarDate, Ymd,
};
use chrono::Datelike;
use vstd::prelude::*;

verus! {

/// Nanoseconds in a second.
pub const NANOS_PER_SEC: u32 = 1_000_000_000;

/// Seconds in a day.
pub const SECS_PER_DAY: i64 = 86_400;

/// The first second, counted from 1970, whose day in UTC a date can carry:
/// the start of the first day of [`crate::calendar::MIN_YEAR`].
pub const MIN_UTC_SECS: i64 = -8_334_601_228_800;

/// The last second, counted from 1970, whose day in UTC a date can carry:
/// the end of the last day of [`crate::calendar::MAX_YEAR`].
pub const MAX_UTC_SECS: i64 = 8_210_266_876_799;

/// A moment: whole seconds since 1970-01-01 00:00:00 UTC, which may be
/// negative, and the nanoseconds that follow them.
#[derive(Clone, Copy, Debug, PartialEq, Eq, Structural)]
pub struct Timestamp {
    pub secs: i64,
    pub nanos: u32,
}

impl Timestamp {
    /// Nanoseconds from 1970-01-01 00:00:00 UTC to this moment.
    pub open spec fn total_nanos(self) -> int {
        self.secs * NANOS_PER_SEC + self.nanos
    }

    /// The moment `secs` seconds and `nanos` nanoseconds after the start of
    /// 1970, where the seconds can be counted and the nanoseconds are less
    /// than a second.
    pub fn after_epoch(secs: u64, nanos: u32) -> (moment: Option<Timestamp>)
        ensures
            moment is Some <==> secs <= i64::MAX && nanos < NANOS_PER_SEC,
            moment matches Some(t) ==> t.nanos < NANOS_PER_SEC && t.total_nanos() == secs
                * NANOS_PER_SEC + nanos,
    {
        if secs <= i64::MAX as u64 && nanos < NANOS_PER_SEC {
            Some(Timestamp { secs: secs as i64, nanos })
        } else {
            None
        }
    }

    /// The moment `secs` seconds and `nanos` nanoseconds before the start of
    /// 1970, where the seconds can be counted and the nanoseconds are less
    /// than a second.
    pub fn before_epoch(secs: u64, nanos: u32) -> (moment: Option<Timestamp>)
        ensures
            moment is Some <==> secs < i64::MAX && nanos < NANOS_PER_SEC,
            moment matches Some(t) ==> t.nanos < NANOS_PER_SEC && t.total_nanos() == -(secs
                * NANOS_PER_SEC + nanos),
    {
        if secs >= i64::MAX as u64 || nanos >= NANOS_PER_SEC {
            None
        } else if nanos == 0 {
            Some(Timestamp { secs: -(secs as i64), nanos: 0 })
        } else {
            Some(Timestamp { secs: -(secs as i64) - 1, nanos: NANOS_PER_SEC - nanos })
        }
    }
}

/// The moment to date a file by: its creation, or where that is not known,
/// its last change.
pub open spec fn preferred(created: Option<Timestamp>, modified: Option<Timestamp>) -> Option<
    Timestamp,
> {
    match created {
        Some(moment) => Some(moment),
        None => modified,
    }
}

/// The moment to date a file by.
pub fn preferred_timestamp(created: Option<Timestamp>, modified: Option<Timestamp>) -> (moment:
    Option<Timestamp>)
    ensures
        moment == preferred(created, modified),
{
    match created {
        Some(moment) => Some(moment),
        None => modified,
    }
}

/// Whether `date` is the day in UTC that the second `secs`, counted from
/// 1970, lies in: the day that exists and whose number is the number of
/// whole days up to that second.
pub open spec fn is_day_of(date: Ymd, secs: int) -> bool {
    names_a_day(date) && day_number(date) == secs / (SECS_PER_DAY as int)
}

/// Asks chrono for the day in UTC of a second counted from 1970:
/// `chrono::DateTime::from_timestamp`, then `DateTime::date_naive` and the
/// year, month and day of that date.
///
/// Trusted: chrono gives a day exactly for the seconds between
/// [`MIN_UTC_SECS`] and [`MAX_UTC_SECS`], and it is the day of the calendar
/// that the second lies in.
#[verifier::external_body]
fn day_in_utc(secs: i64) -> (day: Option<(i32, u32, u32)>)
    ensures
        day is Some <==> MIN_UTC_SECS <= secs <= MAX_UTC_SECS,
        day matches Some((year, month, day_of_month)) ==> is_day_of(
            Ymd { year: year as int, month: month as int, day: day_of_month as int },
            secs as int,
        ),
{
    match chrono::DateTime::from_timestamp(secs, 0) {
        Some(moment) => {
            let date = moment.date_naive();
            Some((date.year(), date.month(), date.day()))
        },
        None => None,
    }
}

/// The date with the given year, month and day, where a triple is given and
/// names a day that exists.
pub open spec fn date_of_parts(parts: Option<(i32, u32, u32)>) -> Option<Ymd> {
    match parts {
        Some((year, month, day)) => if is_calendar_date(year as int, month as int, day as int) {
            Some(Ymd { year: year as int, month: month as int, day: day as int })
        } else {
            None
        },
        None => None,
    }
}

/// The date with the given year, month and day.
pub fn date_from_parts(parts: Option<(i32, u32, u32)>) -> (date: Option<CalendarDate>)
    ensures
        view_of(date) == date_of_parts(parts),
{
    match parts {
        Some((year, month, day)) => CalendarDate::new(year, month, day),
        None => None,
    }
}

/// The calendar day of the second `secs`, counted from 1970, where the local
/// time is `offset` seconds ahead of UTC: the day in UTC of the second that
/// lies `offset` seconds later. There is one exactly when that second is one
/// whose day a date can carry.
pub fn date_at_offset(secs: i64, offset: i32) -> (date: Option<CalendarDate>)
    ensures
        date is Some <==> MIN_UTC_SECS <= secs + offset <= MAX_UTC_SECS,
        date matches Some(d) ==> is_day_of(d@, secs + offset),
{
    match secs.checked_add(offset as i64) {
        Some(local) => date_from_parts(day_in_utc(local)),
        None => None,
    }
}

/// The date of a file by its times, where the local time is `offset` seconds
/// ahead of UTC: the local calendar day of its creation, or of its last
/// change where the creation time is not known.
///
/// There is no date when neither time is known, and none for a moment whose
/// local day lies outside the years that a date can carry.
pub fn get_date_from_filesystem(
    created: Option<Timestamp>,
    modified: Option<Timestamp>,
    offset: i32,
) -> (date: Option<CalendarDate>)
    ensures
        date is Some <==> (preferred(created, modified) matches Some(moment) && MIN_UTC_SECS
            <= moment.secs + offset <= MAX_UTC_SECS),
        date matches Some(d) ==> is_day_of(d@, preferred(created, modified)->0.secs + offset),
{
    match preferred_timestamp(created, modified) {
        Some(moment) => date_at_offset(moment.secs, offset),
        None => None,
    }
}

/// The seconds whose day a date can carry are those of the years that a
/// date can carry: the first one starts the first day of the first year, the
/// last one ends the last day of the last year.
pub proof fn lemma_seconds_of_the_calendar()
    ensures
        MIN_UTC_SECS == SECS_PER_DAY * day_number(
            Ymd { year: crate::calendar::MIN_YEAR as int, month: 1, day: 1 },
        ),
        MAX_UTC_SECS + 1 == SECS_PER_DAY * (day_number(
            Ymd { year: crate::calendar::MAX_YEAR as int, month: 12, day: 31 },
        ) + 1),
{
}

/// A second has one day only: two dates that are the day of the same second
/// are the same date.
pub proof fn lemma_day_of_second_is_one(one: Ymd, other: Ymd, secs: int)
    requires
        is_day_of(one, secs),
        is_day_of(other, secs),
    ensures
        one == other,
{
    lemma_day_number_determines_date(one, other);
}

/// The date to sort a file by, given what its name carries and what its times
/// give: the date of the name, and the other only where the name carries none.
pub open spec fn name_then_times(from_name: Option<Ymd>, from_times: Option<Ymd>) -> Option<Ymd> {
    match from_name {
        Some(date) => Some(date),
        None => from_times,
    }
}

/// The date to sort a file by.
pub fn date_for_file(from_name: Option<CalendarDate>, from_times: Option<CalendarDate>) -> (date:
    Option<CalendarDate>)
    ensures
        view_of(date) == name_then_times(view_of(from_name), view_of(from_times)),
        from_name is Some ==> date == from_name,
        from_name is None ==> date == from_times,
{
    match from_name {
        Some(date) => Some(date),
        None => from_times,
    }
}

} // verus!
