//! The directory that a file belongs in.

use crate::calendar::{view_of, CalendarDate, Ymd};
use crate::labels::MonthNames;
use crate::paths::{join_path, joined, lemma_joined_extends, starts_with};
use vstd::prelude::*;
use vstd::string::*;

verus! {

/// The character that writes the digit `digit`.
pub open spec fn digit_char(digit: int) -> char {
    if digit == 0 {
        '0'
    } else if digit == 1 {
        '1'
    } else if digit == 2 {
        '2'
    } else if digit == 3 {
        '3'
    } else if digit == 4 {
        '4'
    } else if digit == 5 {
        '5'
    } else if digit == 6 {
        '6'
    } else if digit == 7 {
        '7'
    } else if digit == 8 {
        '8'
    } else {
        '9'
    }
}

/// The decimal digits of `number`, without leading zeros.
pub open spec fn decimal_digits(number: nat) -> Seq<char>
    decreases number,
{
    if number < 10 {
        seq![digit_char(number as int)]
    } else {
        decimal_digits(number / 10).push(digit_char((number % 10) as int))
    }
}

/// `number` in decimal, with a `-` in front when it is negative.
pub open spec fn decimal(number: int) -> Seq<char> {
    if number < 0 {
        seq!['-'] + decimal_digits((-number) as nat)
    } else {
        decimal_digits(number as nat)
    }
}

/// `number` in decimal, with a `0` in front when it has one digit only.
pub open spec fn two_digits(number: nat) -> Seq<char> {
    if number < 10 {
        seq!['0'] + decimal_digits(number)
    } else {
        decimal_digits(number)
    }
}

/// The name of a month's folder: the month's number in two digits, then
/// ` - `, then the month's name.
pub open spec fn month_folder(month: nat, name: Seq<char>) -> Seq<char> {
    two_digits(month) + seq![' ', '-', ' '] + name
}

/// The directory for the files of one day: below `root` the year, below it
/// the month's folder, below it the day in two digits.
pub open spec fn dated_dir(root: Seq<char>, date: Ymd, month_name: Seq<char>) -> Seq<char> {
    joined(
        joined(joined(root, decimal(date.year)), month_folder(date.month as nat, month_name)),
        two_digits(date.day as nat),
    )
}

/// The directory for a file: that of its day, or the one for files without a
/// date.
pub open spec fn destination_dir(
    date: Option<Ymd>,
    dest_root: Seq<char>,
    no_date_root: Seq<char>,
    names: MonthNames,
) -> Seq<char> {
    match date {
        Some(d) => dated_dir(dest_root, d, names.name_of(d.month)),
        None => no_date_root,
    }
}

/// A number written in decimal starts with a digit or with `-`.
pub proof fn lemma_decimal_starts(number: int)
    ensures
        decimal(number).len() > 0,
        decimal(number)[0] != '/',
{
    if number >= 0 {
        lemma_decimal_digits_start(number as nat);
    }
}

proof fn lemma_decimal_digits_start(number: nat)
    ensures
        decimal_digits(number).len() > 0,
        decimal_digits(number)[0] != '/',
    decreases number,
{
    if number >= 10 {
        lemma_decimal_digits_start(number / 10);
    }
}

/// The directory of a day lies below the root it was made for.
pub proof fn lemma_dated_dir_below_root(root: Seq<char>, date: Ymd, month_name: Seq<char>)
    ensures
        starts_with(dated_dir(root, date, month_name), root),
{
    let year = decimal(date.year);
    let month = month_folder(date.month as nat, month_name);
    let day = two_digits(date.day as nat);
    let in_year = joined(root, year);
    let in_month = joined(in_year, month);
    lemma_decimal_starts(date.year);
    lemma_decimal_digits_start(date.month as nat);
    lemma_decimal_digits_start(date.day as nat);
    lemma_joined_extends(root, year);
    lemma_joined_extends(in_year, month);
    lemma_joined_extends(in_month, day);
    assert(in_month.subrange(0, in_year.len() as int).subrange(0, root.len() as int)
        =~= in_month.subrange(0, root.len() as int));
    assert(joined(in_month, day).subrange(0, in_month.len() as int).subrange(
        0,
        root.len() as int,
    ) =~= joined(in_month, day).subrange(0, root.len() as int));
}

fn digit_text(digit: u32) -> (text: &'static str)
    requires
        digit <= 9,
    ensures
        text@ == seq![digit_char(digit as int)],
{
    proof {
        reveal_strlit("0");
        reveal_strlit("1");
        reveal_strlit("2");
        reveal_strlit("3");
        reveal_strlit("4");
        reveal_strlit("5");
        reveal_strlit("6");
        reveal_strlit("7");
        reveal_strlit("8");
        reveal_strlit("9");
    }
    let text = match digit {
        0 => "0",
        1 => "1",
        2 => "2",
        3 => "3",
        4 => "4",
        5 => "5",
        6 => "6",
        7 => "7",
        8 => "8",
        _ => "9",
    };
    assert(text@ =~= seq![digit_char(digit as int)]);
    text
}

fn push_decimal_digits(text: &mut String, number: u32)
    ensures
        final(text)@ == old(text)@ + decimal_digits(number as nat),
    decreases number,
{
    if number >= 10 {
        push_decimal_digits(text, number / 10);
    }
    text.append(digit_text(number % 10));
    assert(final(text)@ =~= old(text)@ + decimal_digits(number as nat));
}

/// `number` written in decimal.
pub fn decimal_text(number: i32) -> (text: String)
    ensures
        text@ == decimal(number as int),
{
    let mut text: String = String::new();
    let magnitude: u32 = if number < 0 {
        proof {
            reveal_strlit("-");
        }
        text.append("-");
        (-(number as i64)) as u32
    } else {
        number as u32
    };
    push_decimal_digits(&mut text, magnitude);
    assert(text@ =~= decimal(number as int));
    text
}

/// `number` written in decimal, with at least two digits.
pub fn two_digit_text(number: u32) -> (text: String)
    ensures
        text@ == two_digits(number as nat),
{
    let mut text: String = String::new();
    if number < 10 {
        text.append(digit_text(0));
    }
    push_decimal_digits(&mut text, number);
    assert(text@ =~= two_digits(number as nat));
    text
}

/// The directory that a file with the given date belongs in.
///
/// No directory is made here: the result is a path and nothing else.
pub fn resolve_destination(
    date: Option<CalendarDate>,
    dest_root: &str,
    no_date_root: &str,
    names: &MonthNames,
) -> (dir: String)
    ensures
        dir@ == destination_dir(view_of(date), dest_root@, no_date_root@, *names),
{
    match date {
        Some(d) => {
            let year = decimal_text(d.year());
            let mut month = two_digit_text(d.month());
            proof {
                reveal_strlit(" - ");
            }
            month.append(" - ");
            month.append(names.lookup(d.month()));
            assert(month@ =~= month_folder(d@.month as nat, names.name_of(d@.month)));
            let day = two_digit_text(d.day());
            let in_year = join_path(dest_root, year.as_str());
            let in_month = join_path(in_year.as_str(), month.as_str());
            join_path(in_month.as_str(), day.as_str())
        },
        None => no_date_root.to_owned(),
    }
}

} // verus!
