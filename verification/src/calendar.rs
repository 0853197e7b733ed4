//! Calendar dates of the proleptic Gregorian calendar.

use vstd::prelude::*;

verus! {

/// Earliest year a [`CalendarDate`] can carry.
pub const MIN_YEAR: i32 = -262143;

/// Latest year a [`CalendarDate`] can carry.
pub const MAX_YEAR: i32 = 262142;

/// A year, a month and a day as mathematical integers.
pub struct Ymd {
    pub year: int,
    pub month: int,
    pub day: int,
}

/// Leap years: every fourth year, except centuries not divisible by 400.
pub open spec fn is_leap_year(year: int) -> bool {
    year % 4 == 0 && (year % 100 != 0 || year % 400 == 0)
}

/// Number of days of `month` in `year`, for `month` in `1..=12`.
pub open spec fn days_in_month(year: int, month: int) -> int {
    if month == 2 {
        if is_leap_year(year) {
            29
        } else {
            28
        }
    } else if month == 4 || month == 6 || month == 9 || month == 11 {
        30
    } else {
        31
    }
}

/// Whether the triple names a day that exists, in a year that can be carried.
pub open spec fn is_calendar_date(year: int, month: int, day: int) -> bool {
    &&& MIN_YEAR <= year <= MAX_YEAR
    &&& 1 <= month <= 12
    &&& 1 <= day <= days_in_month(year, month)
}

/// Whether the triple names a day that exists.
pub open spec fn names_a_day(date: Ymd) -> bool {
    is_calendar_date(date.year, date.month, date.day)
}

/// How many of the years before `year` are leap years, counted from year 1;
/// for the years before that, as much less as there are leap years between.
pub open spec fn leap_years_before(year: int) -> int {
    (year - 1) / 4 - (year - 1) / 100 + (year - 1) / 400
}

/// The days from the start of 1970 to the start of `year`; negative for the
/// years before 1970.
pub open spec fn days_before_year(year: int) -> int {
    365 * (year - 1970) + leap_years_before(year) - leap_years_before(1970)
}

/// The days from the start of `year` to the start of its month `month`.
pub open spec fn days_before_month(year: int, month: int) -> int {
    let in_common_year: int = if month <= 1 {
        0
    } else if month == 2 {
        31
    } else if month == 3 {
        59
    } else if month == 4 {
        90
    } else if month == 5 {
        120
    } else if month == 6 {
        151
    } else if month == 7 {
        181
    } else if month == 8 {
        212
    } else if month == 9 {
        243
    } else if month == 10 {
        273
    } else if month == 11 {
        304
    } else {
        334
    };
    if month > 2 && is_leap_year(year) {
        in_common_year + 1
    } else {
        in_common_year
    }
}

/// The number of a day, counted from 1970-01-01, which is day 0. The days
/// before it have negative numbers.
pub open spec fn day_number(date: Ymd) -> int {
    days_before_year(date.year) + days_before_month(date.year, date.month) + date.day - 1
}

/// Whether `earlier` comes before `later` in the calendar.
pub open spec fn is_before(earlier: Ymd, later: Ymd) -> bool {
    ||| earlier.year < later.year
    ||| earlier.year == later.year && earlier.month < later.month
    ||| earlier.year == later.year && earlier.month == later.month && earlier.day < later.day
}

/// A year has 365 days, and a leap year one more.
pub proof fn lemma_year_length(year: int)
    ensures
        days_before_year(year + 1) == days_before_year(year) + if is_leap_year(year) {
            366int
        } else {
            365int
        },
{
}

/// The months of a year follow each other, and the last ends with the year.
pub proof fn lemma_month_length(year: int, month: int)
    requires
        1 <= month <= 12,
    ensures
        month < 12 ==> days_before_month(year, month + 1) == days_before_month(year, month)
            + days_in_month(year, month),
        month == 12 ==> days_before_year(year + 1) == days_before_year(year) + days_before_month(
            year,
            month,
        ) + days_in_month(year, month),
{
    lemma_year_length(year);
}

/// A later year starts later, by 365 days or more for each year between.
pub proof fn lemma_years_in_order(earlier: int, later: int)
    requires
        earlier <= later,
    ensures
        days_before_year(later) >= days_before_year(earlier) + 365 * (later - earlier),
    decreases later - earlier,
{
    if earlier < later {
        lemma_years_in_order(earlier, later - 1);
        lemma_year_length(later - 1);
    }
}

/// The days are numbered in the order of the calendar.
pub proof fn lemma_day_numbers_in_order(earlier: Ymd, later: Ymd)
    requires
        names_a_day(earlier),
        names_a_day(later),
        is_before(earlier, later),
    ensures
        day_number(earlier) < day_number(later),
{
    if earlier.year < later.year {
        lemma_year_length(earlier.year);
        lemma_years_in_order(earlier.year + 1, later.year);
    }
}

/// No two days have the same number: a day is known by its number.
pub proof fn lemma_day_number_determines_date(one: Ymd, other: Ymd)
    requires
        names_a_day(one),
        names_a_day(other),
        day_number(one) == day_number(other),
    ensures
        one == other,
{
    if is_before(one, other) {
        lemma_day_numbers_in_order(one, other);
    } else if is_before(other, one) {
        lemma_day_numbers_in_order(other, one);
    }
}

/// Asks `chrono::NaiveDate::from_ymd_opt` whether the date exists.
///
/// Trusted: chrono answers `Some` exactly for the triples that
/// [`is_calendar_date`] accepts, that is a month in `1..=12`, a day that the
/// month has in that year, and a year between [`MIN_YEAR`] and [`MAX_YEAR`].
#[verifier::external_body]
fn naive_date_exists(year: i32, month: u32, day: u32) -> (exists: bool)
    ensures
        exists == is_calendar_date(year as int, month as int, day as int),
{
    chrono::NaiveDate::from_ymd_opt(year, month, day).is_some()
}

/// The year, month and day of a date that may be absent.
pub open spec fn view_of(date: Option<CalendarDate>) -> Option<Ymd> {
    match date {
        Some(d) => Some(d@),
        None => None,
    }
}

/// A day of the calendar. Every value is a date that exists.
#[derive(Clone, Copy, Debug, PartialEq, Eq, Structural)]
pub struct CalendarDate {
    year: i32,
    month: u32,
    day: u32,
}

impl View for CalendarDate {
    type V = Ymd;

    closed spec fn view(&self) -> Ymd {
        Ymd { year: self.year as int, month: self.month as int, day: self.day as int }
    }
}

impl CalendarDate {
    #[verifier::type_invariant]
    closed spec fn exists_in_calendar(self) -> bool {
        is_calendar_date(self.year as int, self.month as int, self.day as int)
    }

    /// The date with the given year, month and day, if there is such a day.
    pub fn new(year: i32, month: u32, day: u32) -> (date: Option<CalendarDate>)
        ensures
            date is Some <==> is_calendar_date(year as int, month as int, day as int),
            date matches Some(d) ==> d@ == (Ymd {
                year: year as int,
                month: month as int,
                day: day as int,
            }),
    {
        if naive_date_exists(year, month, day) {
            Some(CalendarDate { year, month, day })
        } else {
            None
        }
    }

    /// The year, with the assurance that the date exists.
    pub fn year(&self) -> (year: i32)
        ensures
            year == self@.year,
            is_calendar_date(self@.year, self@.month, self@.day),
    {
        proof {
            use_type_invariant(self);
        }
        self.year
    }

    /// The month, from 1 for January to 12 for December.
    pub fn month(&self) -> (month: u32)
        ensures
            month == self@.month,
            1 <= month <= 12,
    {
        proof {
            use_type_invariant(self);
        }
        self.month
    }

    /// The day of the month, from 1.
    pub fn day(&self) -> (day: u32)
        ensures
            day == self@.day,
            1 <= day <= 31,
    {
        proof {
            use_type_invariant(self);
        }
        self.day
    }

    /// Two dates with the same year, month and day are the same value.
    pub proof fn lemma_view_determines(self, other: CalendarDate)
        requires
            self@ == other@,
        ensures
            self == other,
    {
    }
}

} // verus!
