//! Names of the months, by which the month folders are labelled.

use vstd::prelude::*;

verus! {

/// The Russian name of a month, in the genitive, as it follows a day number;
/// for a number that is no month, a label that says so.
pub open spec fn month_name_ru(month: int) -> Seq<char> {
    if month == 1 {
        "января"@
    } else if month == 2 {
        "февраля"@
    } else if month == 3 {
        "марта"@
    } else if month == 4 {
        "апреля"@
    } else if month == 5 {
        "мая"@
    } else if month == 6 {
        "июня"@
    } else if month == 7 {
        "июля"@
    } else if month == 8 {
        "августа"@
    } else if month == 9 {
        "сентября"@
    } else if month == 10 {
        "октября"@
    } else if month == 11 {
        "ноября"@
    } else if month == 12 {
        "декабря"@
    } else {
        "неизвестный месяц"@
    }
}

/// The English name of a month; for a number that is no month, a label that
/// says so.
pub open spec fn month_name_en(month: int) -> Seq<char> {
    if month == 1 {
        "January"@
    } else if month == 2 {
        "February"@
    } else if month == 3 {
        "March"@
    } else if month == 4 {
        "April"@
    } else if month == 5 {
        "May"@
    } else if month == 6 {
        "June"@
    } else if month == 7 {
        "July"@
    } else if month == 8 {
        "August"@
    } else if month == 9 {
        "September"@
    } else if month == 10 {
        "October"@
    } else if month == 11 {
        "November"@
    } else if month == 12 {
        "December"@
    } else {
        "unknown month"@
    }
}

/// The Russian name of the month with the given number.
pub fn get_month_name_ru(month: u32) -> (name: &'static str)
    ensures
        name@ == month_name_ru(month as int),
{
    match month {
        1 => "января",
        2 => "февраля",
        3 => "марта",
        4 => "апреля",
        5 => "мая",
        6 => "июня",
        7 => "июля",
        8 => "августа",
        9 => "сентября",
        10 => "октября",
        11 => "ноября",
        12 => "декабря",
        _ => "неизвестный месяц",
    }
}

/// The English name of the month with the given number.
pub fn get_month_name_en(month: u32) -> (name: &'static str)
    ensures
        name@ == month_name_en(month as int),
{
    match month {
        1 => "January",
        2 => "February",
        3 => "March",
        4 => "April",
        5 => "May",
        6 => "June",
        7 => "July",
        8 => "August",
        9 => "September",
        10 => "October",
        11 => "November",
        12 => "December",
        _ => "unknown month",
    }
}

/// A table of month names: one for each of the twelve months, and a label
/// for a number that is no month.
pub struct MonthNames {
    names: Vec<String>,
    placeholder: String,
}

impl MonthNames {
    #[verifier::type_invariant]
    closed spec fn has_twelve_names(self) -> bool {
        self.names.len() == 12
    }

    /// The label that the table gives for `month`.
    pub closed spec fn name_of(self, month: int) -> Seq<char> {
        if 1 <= month <= 12 {
            self.names[month - 1]@
        } else {
            self.placeholder@
        }
    }

    /// A table with the given names, January first. There is a table exactly
    /// when twelve names are given.
    pub fn new(names: Vec<String>, placeholder: String) -> (table: Option<MonthNames>)
        ensures
            table is Some <==> names.len() == 12,
            table matches Some(t) ==> forall|month: int|
                #[trigger] t.name_of(month) == if 1 <= month <= 12 {
                    names[month - 1]@
                } else {
                    placeholder@
                },
    {
        if names.len() == 12 {
            Some(MonthNames { names, placeholder })
        } else {
            None
        }
    }

    /// The Russian names.
    pub fn russian() -> (table: MonthNames)
        ensures
            forall|month: int| #[trigger] table.name_of(month) == month_name_ru(month),
    {
        let mut names: Vec<String> = Vec::new();
        let mut month: u32 = 1;
        while month <= 12
            invariant
                1 <= month <= 13,
                names.len() == month - 1,
                forall|m: int| 1 <= m < month ==> (#[trigger] names[m - 1])@ == month_name_ru(m),
            decreases 13 - month,
        {
            names.push(get_month_name_ru(month).to_owned());
            month = month + 1;
        }
        MonthNames { names, placeholder: get_month_name_ru(0).to_owned() }
    }

    /// The English names.
    pub fn english() -> (table: MonthNames)
        ensures
            forall|month: int| #[trigger] table.name_of(month) == month_name_en(month),
    {
        let mut names: Vec<String> = Vec::new();
        let mut month: u32 = 1;
        while month <= 12
            invariant
                1 <= month <= 13,
                names.len() == month - 1,
                forall|m: int| 1 <= m < month ==> (#[trigger] names[m - 1])@ == month_name_en(m),
            decreases 13 - month,
        {
            names.push(get_month_name_en(month).to_owned());
            month = month + 1;
        }
        MonthNames { names, placeholder: get_month_name_en(0).to_owned() }
    }

    /// The label for `month`: its name, or the placeholder when the number
    /// is no month.
    pub fn lookup(&self, month: u32) -> (name: &str)
        ensures
            name@ == self.name_of(month as int),
    {
        proof {
            use_type_invariant(self);
        }
        if 1 <= month && month <= 12 {
            self.names[(month - 1) as usize].as_str()
        } else {
            self.placeholder.as_str()
        }
    }
}

} // verus!
