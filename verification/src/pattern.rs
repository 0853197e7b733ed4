//! Dates written into file names.
//!
//! A name is searched with two patterns, in a fixed order. A pattern finds its
//! leftmost occurrence in the name, and that occurrence alone decides: when it
//! names a day that does not exist, the pattern gives nothing and the next
//! pattern is tried.

use crate::calendar::{is_calendar_date, names_a_day, view_of, CalendarDate, Ymd};
use vstd::prelude::*;

verus! {

/// The two ways a date can be written into a name, in the order they are tried.
#[derive(Clone, Copy, Debug, PartialEq, Eq, Structural)]
pub enum DatePattern {
    /// `YYYY-MM-DD`, where each `-` may also be `_` or `.`.
    Separated,
    /// `YYYYMMDD`.
    Compact,
}

/// An ASCII decimal digit.
pub open spec fn is_digit(c: char) -> bool {
    '0' <= c <= '9'
}

/// One of the characters that may stand between year, month and day.
pub open spec fn is_separator(c: char) -> bool {
    c == '-' || c == '_' || c == '.'
}

/// The value of the digit `c`.
pub open spec fn digit_value(c: char) -> int {
    c as int - '0' as int
}

/// The number that the two digits of `name` at `at` write.
pub open spec fn two_digit_number(name: Seq<char>, at: int) -> int {
    10 * digit_value(name[at]) + digit_value(name[at + 1])
}

/// The number that the four digits of `name` at `at` write.
pub open spec fn four_digit_number(name: Seq<char>, at: int) -> int {
    100 * two_digit_number(name, at) + two_digit_number(name, at + 2)
}

/// `name` continues at `at` with `19` or `20` and two more digits.
pub open spec fn year_at(name: Seq<char>, at: int) -> bool {
    &&& (name[at] == '1' && name[at + 1] == '9') || (name[at] == '2' && name[at + 1] == '0')
    &&& is_digit(name[at + 2])
    &&& is_digit(name[at + 3])
}

/// `name` continues at `at` with two digits.
pub open spec fn two_digits_at(name: Seq<char>, at: int) -> bool {
    is_digit(name[at]) && is_digit(name[at + 1])
}

impl DatePattern {
    /// Number of characters that an occurrence takes.
    pub open spec fn width(self) -> int {
        match self {
            DatePattern::Separated => 10,
            DatePattern::Compact => 8,
        }
    }

    /// Where the month's digits start, counted from the start of an occurrence.
    pub open spec fn month_offset(self) -> int {
        match self {
            DatePattern::Separated => 5,
            DatePattern::Compact => 4,
        }
    }

    /// Where the day's digits start, counted from the start of an occurrence.
    pub open spec fn day_offset(self) -> int {
        match self {
            DatePattern::Separated => 8,
            DatePattern::Compact => 6,
        }
    }

    /// Whether an occurrence of the pattern starts at `at`.
    pub open spec fn matches_at(self, name: Seq<char>, at: int) -> bool {
        &&& 0 <= at
        &&& at + self.width() <= name.len()
        &&& year_at(name, at)
        &&& two_digits_at(name, at + self.month_offset())
        &&& two_digits_at(name, at + self.day_offset())
        &&& self == DatePattern::Separated ==> is_separator(name[at + 4]) && is_separator(
            name[at + 7],
        )
    }

    /// The start of the first occurrence at or after `from`.
    pub open spec fn first_match_from(self, name: Seq<char>, from: int) -> Option<int>
        decreases name.len() - from,
    {
        if from < 0 || from + self.width() > name.len() {
            None
        } else if self.matches_at(name, from) {
            Some(from)
        } else {
            self.first_match_from(name, from + 1)
        }
    }

    /// The start of the leftmost occurrence.
    pub open spec fn first_match(self, name: Seq<char>) -> Option<int> {
        self.first_match_from(name, 0)
    }

    /// The year, month and day that the occurrence at `at` writes.
    pub open spec fn captured(self, name: Seq<char>, at: int) -> Ymd {
        Ymd {
            year: four_digit_number(name, at),
            month: two_digit_number(name, at + self.month_offset()),
            day: two_digit_number(name, at + self.day_offset()),
        }
    }

    /// What the pattern gives for `name`: the date of its leftmost occurrence,
    /// if there is an occurrence and it names a day that exists.
    pub open spec fn date_found(self, name: Seq<char>) -> Option<Ymd> {
        match self.first_match(name) {
            Some(at) => {
                let date = self.captured(name, at);
                if is_calendar_date(date.year, date.month, date.day) {
                    Some(date)
                } else {
                    None
                }
            },
            None => None,
        }
    }

    /// Whether an occurrence of the pattern starts at `at`.
    pub fn is_match_at(self, name: &[char], at: usize) -> (found: bool)
        ensures
            found == self.matches_at(name@, at as int),
    {
        let width: usize = match self {
            DatePattern::Separated => 10,
            DatePattern::Compact => 8,
        };
        if name.len() < width || at > name.len() - width {
            return false;
        }
        let century = (name[at] == '1' && name[at + 1] == '9') || (name[at] == '2' && name[at + 1]
            == '0');
        if !century || !is_ascii_digit(name[at + 2]) || !is_ascii_digit(name[at + 3]) {
            return false;
        }
        match self {
            DatePattern::Separated => {
                is_separator_char(name[at + 4]) && is_ascii_digit(name[at + 5]) && is_ascii_digit(
                    name[at + 6],
                ) && is_separator_char(name[at + 7]) && is_ascii_digit(name[at + 8])
                    && is_ascii_digit(name[at + 9])
            },
            DatePattern::Compact => {
                is_ascii_digit(name[at + 4]) && is_ascii_digit(name[at + 5]) && is_ascii_digit(
                    name[at + 6],
                ) && is_ascii_digit(name[at + 7])
            },
        }
    }

    /// The start of the leftmost occurrence of the pattern in `name`.
    pub fn find_first(self, name: &[char]) -> (found: Option<usize>)
        ensures
            found is Some <==> self.first_match(name@) is Some,
            found matches Some(at) ==> self.first_match(name@) == Some(at as int)
                && self.matches_at(name@, at as int),
    {
        let width: usize = match self {
            DatePattern::Separated => 10,
            DatePattern::Compact => 8,
        };
        if name.len() < width {
            return None;
        }
        let last: usize = name.len() - width;
        let mut at: usize = 0;
        while at <= last
            invariant
                width == self.width(),
                last + width == name.len(),
                at <= last + 1,
                self.first_match(name@) == self.first_match_from(name@, at as int),
            decreases last + 1 - at,
        {
            if self.is_match_at(name, at) {
                return Some(at);
            }
            at = at + 1;
        }
        None
    }

    /// The date that the pattern gives for `name`.
    pub fn date_in(self, name: &[char]) -> (date: Option<CalendarDate>)
        ensures
            view_of(date) == self.date_found(name@),
    {
        match self.find_first(name) {
            Some(at) => {
                assert(at + self.width() <= name.len());
                let (month_at, day_at): (usize, usize) = match self {
                    DatePattern::Separated => (at + 5, at + 8),
                    DatePattern::Compact => (at + 4, at + 6),
                };
                let century: u32 = read_two_digits(name, at);
                let year: u32 = 100 * century + read_two_digits(name, at + 2);
                let month: u32 = read_two_digits(name, month_at);
                let day: u32 = read_two_digits(name, day_at);
                CalendarDate::new(year as i32, month, day)
            },
            None => None,
        }
    }

    /// What [`DatePattern::first_match_from`] gives is an occurrence, and no
    /// occurrence starts between `from` and it; it gives nothing only when no
    /// occurrence starts at or after `from`.
    pub proof fn lemma_first_match_is_leftmost(self, name: Seq<char>, from: int)
        requires
            0 <= from,
        ensures
            match self.first_match_from(name, from) {
                Some(at) => from <= at && self.matches_at(name, at) && forall|j: int|
                    from <= j < at ==> !self.matches_at(name, j),
                None => forall|j: int| from <= j ==> !self.matches_at(name, j),
            },
        decreases name.len() - from,
    {
        if from + self.width() <= name.len() && !self.matches_at(name, from) {
            self.lemma_first_match_is_leftmost(name, from + 1);
        }
    }

    /// The leftmost occurrence is what [`DatePattern::first_match`] gives.
    pub proof fn lemma_leftmost_is_first_match(self, name: Seq<char>, at: int)
        requires
            self.matches_at(name, at),
            forall|j: int| 0 <= j < at ==> !self.matches_at(name, j),
        ensures
            self.first_match(name) == Some(at),
    {
        self.lemma_first_match_is_leftmost(name, 0);
    }
}

fn is_ascii_digit(c: char) -> (digit: bool)
    ensures
        digit == is_digit(c),
{
    '0' <= c && c <= '9'
}

fn is_separator_char(c: char) -> (separator: bool)
    ensures
        separator == is_separator(c),
{
    c == '-' || c == '_' || c == '.'
}

/// Reads the number that the two digits of `name` at `at` write.
fn read_two_digits(name: &[char], at: usize) -> (number: u32)
    requires
        at + 2 <= name.len(),
        two_digits_at(name@, at as int),
    ensures
        number == two_digit_number(name@, at as int),
        number <= 99,
{
    let tens: u32 = name[at] as u32 - '0' as u32;
    let ones: u32 = name[at + 1] as u32 - '0' as u32;
    10 * tens + ones
}

/// The date that a file name carries: what the separated pattern gives, and
/// where it gives nothing, what the compact pattern gives.
pub open spec fn extracted_date(name: Seq<char>) -> Option<Ymd> {
    match DatePattern::Separated.date_found(name) {
        Some(date) => Some(date),
        None => DatePattern::Compact.date_found(name),
    }
}

/// A day that exists, written in the separated form, is the date of the name,
/// provided that no occurrence of that form starts further left.
pub proof fn lemma_separated_date_is_extracted(name: Seq<char>, at: int)
    requires
        DatePattern::Separated.matches_at(name, at),
        forall|j: int| 0 <= j < at ==> !DatePattern::Separated.matches_at(name, j),
        names_a_day(DatePattern::Separated.captured(name, at)),
    ensures
        extracted_date(name) == Some(DatePattern::Separated.captured(name, at)),
{
    DatePattern::Separated.lemma_leftmost_is_first_match(name, at);
}

/// A day that exists, written in the compact form, is the date of the name,
/// provided that the separated form gives nothing and that no occurrence of
/// the compact form starts further left.
pub proof fn lemma_compact_date_is_extracted(name: Seq<char>, at: int)
    requires
        DatePattern::Separated.date_found(name) is None,
        DatePattern::Compact.matches_at(name, at),
        forall|j: int| 0 <= j < at ==> !DatePattern::Compact.matches_at(name, j),
        names_a_day(DatePattern::Compact.captured(name, at)),
    ensures
        extracted_date(name) == Some(DatePattern::Compact.captured(name, at)),
{
    DatePattern::Compact.lemma_leftmost_is_first_match(name, at);
}

/// What stands around a written date does not change it: with any characters
/// after it, and any characters but digits before it, the name carries the
/// date that `written` carries alone. For the compact form the separated form
/// must give nothing for the whole name, since it is tried first.
pub proof fn lemma_surroundings_keep_the_date(
    pattern: DatePattern,
    before: Seq<char>,
    written: Seq<char>,
    after: Seq<char>,
)
    requires
        pattern.matches_at(written, 0),
        names_a_day(pattern.captured(written, 0)),
        forall|k: int| 0 <= k < before.len() ==> !is_digit(#[trigger] before[k]),
        pattern == DatePattern::Compact ==> DatePattern::Separated.date_found(
            before + written + after,
        ) is None,
    ensures
        extracted_date(before + written + after) == Some(pattern.captured(written, 0)),
{
    let name = before + written + after;
    let at = before.len() as int;
    assert forall|k: int| 0 <= k < pattern.width() implies name[at + k] == written[k] by {}
    assert(pattern.matches_at(name, at));
    assert(pattern.captured(name, at) == pattern.captured(written, 0));
    assert forall|j: int| 0 <= j < at implies !pattern.matches_at(name, j) by {
        assert(name[j] == before[j]);
    }
    pattern.lemma_leftmost_is_first_match(name, at);
}

/// Where the leftmost occurrence of the separated form names a day that does
/// not exist, the name carries what the compact form gives, whatever
/// separated dates stand further right.
pub proof fn lemma_invalid_separated_falls_through(name: Seq<char>, at: int)
    requires
        DatePattern::Separated.matches_at(name, at),
        forall|j: int| 0 <= j < at ==> !DatePattern::Separated.matches_at(name, j),
        !names_a_day(DatePattern::Separated.captured(name, at)),
    ensures
        extracted_date(name) == DatePattern::Compact.date_found(name),
{
    DatePattern::Separated.lemma_leftmost_is_first_match(name, at);
}

/// A name in which neither form occurs carries no date.
pub proof fn lemma_no_occurrence_no_date(name: Seq<char>)
    requires
        forall|at: int| !DatePattern::Separated.matches_at(name, at),
        forall|at: int| !DatePattern::Compact.matches_at(name, at),
    ensures
        extracted_date(name) is None,
{
    DatePattern::Separated.lemma_first_match_is_leftmost(name, 0);
    DatePattern::Compact.lemma_first_match_is_leftmost(name, 0);
}

/// A name without a digit carries no date.
pub proof fn lemma_no_digit_no_date(name: Seq<char>)
    requires
        forall|k: int| 0 <= k < name.len() ==> !is_digit(#[trigger] name[k]),
    ensures
        extracted_date(name) is None,
{
    assert forall|at: int| !DatePattern::Separated.matches_at(name, at) by {
        if 0 <= at && at + 10 <= name.len() {
            assert(!is_digit(name[at]));
        }
    }
    assert forall|at: int| !DatePattern::Compact.matches_at(name, at) by {
        if 0 <= at && at + 8 <= name.len() {
            assert(!is_digit(name[at]));
        }
    }
    lemma_no_occurrence_no_date(name);
}

/// The date that the characters of a file name carry.
pub fn date_in_name(name: &[char]) -> (date: Option<CalendarDate>)
    ensures
        view_of(date) == extracted_date(name@),
{
    match DatePattern::Separated.date_in(name) {
        Some(date) => Some(date),
        None => DatePattern::Compact.date_in(name),
    }
}

/// The characters of `text`, in order.
pub fn chars_of(text: &str) -> (chars: Vec<char>)
    ensures
        chars@ == text@,
{
    let mut chars: Vec<char> = Vec::new();
    for c in it: text.chars()
        invariant
            it.seq() == text@,
            chars@ == it.seq().take(it.index()),
    {
        chars.push(c);
    }
    chars
}

/// The date that a file name carries, if it carries one.
///
/// Only the name is looked at, never the directories above it.
pub fn get_date_from_filename(file_name: &str) -> (date: Option<CalendarDate>)
    ensures
        view_of(date) == extracted_date(file_name@),
{
    let chars = chars_of(file_name);
    date_in_name(chars.as_slice())
}

} // verus!
