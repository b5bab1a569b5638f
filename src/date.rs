//! Calendar dates as day numbers, parsed and written by the `chrono` crate.
use vstd::prelude::*;
use chrono::{Datelike, NaiveDate};
use crate::text::{i64_value, parse_i64};

verus! {

/// The day number of the earliest date `chrono::NaiveDate` holds (-262143-01-01),
/// counting 0001-01-01 as day 1.
pub const FIRST_DAY: i32 = -95746129;

/// The day number of the latest date `chrono::NaiveDate` holds (262142-12-31).
pub const LAST_DAY: i32 = 95745399;

/// The day number of 1899-12-31, the day before the first day of spreadsheet serial dates.
pub const EXCEL_EPOCH_DAY: i32 = 693595;

/// The first spreadsheet serial number after the fictitious 1900-02-29.
pub const EXCEL_LEAP_BUG_SERIAL: i64 = 60;

/// What `NaiveDate::parse_from_str` finds in a text under a format, as a day number.
pub uninterp spec fn parsed_day(text: Seq<char>, format: Seq<char>) -> Option<int>;

/// What the `Display` of `NaiveDate` writes for the date of a day number.
pub uninterp spec fn date_text(day: int) -> Seq<char>;

/// A day number that names a date.
pub open spec fn is_day(day: int) -> bool {
    FIRST_DAY <= day <= LAST_DAY
}

/// A date of the proleptic Gregorian calendar, as its day number.
#[derive(Clone, Copy, Debug, PartialEq, Eq)]
pub struct CalendarDate {
    day: i32,
}

impl CalendarDate {
    #[verifier::type_invariant]
    spec fn names_a_date(self) -> bool {
        is_day(self.day as int)
    }

    pub closed spec fn view(&self) -> int {
        self.day as int
    }

    /// The date of a day number, if it names one.
    pub fn from_day_number(day: i64) -> (r: Option<CalendarDate>)
        ensures
            r is Some <==> is_day(day as int),
            r matches Some(d) ==> d@ == day,
    {
        if FIRST_DAY as i64 <= day && day <= LAST_DAY as i64 {
            Some(CalendarDate { day: day as i32 })
        } else {
            None
        }
    }

    /// The day number, counting 0001-01-01 as day 1.
    pub fn day_number(&self) -> (r: i32)
        ensures
            r == self@,
            is_day(r as int),
    {
        proof {
            use_type_invariant(self);
        }
        self.day
    }

    /// The date written as `chrono` writes it, `%Y-%m-%d`.
    pub fn to_string(&self) -> (r: String)
        ensures
            r@ == date_text(self@),
    {
        day_text(self.day_number())
    }
}

/// Relies on `NaiveDate::parse_from_str`; a date it gives lies within its range.
#[verifier::external_body]
fn parse_day(text: &str, format: &str) -> (r: Option<i32>)
    ensures
        r matches Some(d) ==> parsed_day(text@, format@) == Some(d as int) && is_day(d as int),
        r is None ==> parsed_day(text@, format@) is None,
{
    NaiveDate::parse_from_str(text, format).ok().map(|d| d.num_days_from_ce())
}

/// Relies on `NaiveDate::from_num_days_from_ce_opt`, which accepts every day in
/// range, and on the `Display` of `NaiveDate`.
#[verifier::external_body]
fn day_text(day: i32) -> (r: String)
    requires
        is_day(day as int),
    ensures
        r@ == date_text(day as int),
{
    NaiveDate::from_num_days_from_ce_opt(day).map(|d| d.to_string()).unwrap_or_default()
}

/// The date a text denotes under a format.
pub fn parse_date_with_format(text: &str, format: &str) -> (r: Option<CalendarDate>)
    ensures
        r is Some <==> parsed_day(text@, format@) is Some,
        r matches Some(d) ==> parsed_day(text@, format@) == Some(d@),
{
    match parse_day(text, format) {
        Some(day) => CalendarDate::from_day_number(day as i64),
        None => None,
    }
}

/// The first of the formats, in order, under which the text denotes a date.
pub open spec fn first_parsed_day(text: Seq<char>, formats: Seq<Seq<char>>) -> Option<int>
    decreases formats.len(),
{
    if formats.len() == 0 {
        None
    } else {
        match parsed_day(text, formats[0]) {
            Some(d) => Some(d),
            None => first_parsed_day(text, formats.drop_first()),
        }
    }
}

/// Tries each format in order; the first one under which the text is a date wins.
pub fn parse_date_with_formats(text: &str, formats: &Vec<String>) -> (r: Option<CalendarDate>)
    ensures
        r is Some <==> first_parsed_day(text@, formats@.map_values(|f: String| f@)) is Some,
        r matches Some(d) ==> first_parsed_day(text@, formats@.map_values(|f: String| f@)) == Some(d@),
{
    let ghost all = formats@.map_values(|f: String| f@);
    let mut i: usize = 0;
    assert(all.subrange(0, all.len() as int) =~= all);
    while i < formats.len()
        invariant
            i <= formats@.len(),
            all == formats@.map_values(|f: String| f@),
            first_parsed_day(text@, all) == first_parsed_day(text@, all.subrange(i as int, all.len() as int)),
        decreases formats@.len() - i,
    {
        let ghost rest = all.subrange(i as int, all.len() as int);
        assert(rest[0] == formats@[i as int]@);
        assert(rest.drop_first() =~= all.subrange(i + 1, all.len() as int));
        let found = parse_date_with_format(text, formats[i].as_str());
        if found.is_some() {
            return found;
        }
        i += 1;
    }
    assert(all.subrange(i as int, all.len() as int) =~= Seq::<Seq<char>>::empty());
    None
}

/// The day number a spreadsheet serial date stands for. Serial 1 is 1900-01-01;
/// from serial 60 on, one day is taken off, because the spreadsheet format
/// counts a 1900-02-29 that never was.
pub open spec fn excel_serial_day(serial: int) -> int {
    if serial >= EXCEL_LEAP_BUG_SERIAL {
        EXCEL_EPOCH_DAY + serial - 1
    } else {
        EXCEL_EPOCH_DAY + serial
    }
}

/// The date of a serial number, when the serial names one.
pub open spec fn excel_date_of(text: Seq<char>) -> Option<int> {
    match i64_value(text) {
        Some(serial) => if is_day(excel_serial_day(serial)) {
            Some(excel_serial_day(serial))
        } else {
            None
        },
        None => None,
    }
}

/// Reads a spreadsheet serial date: an integer that counts days from 1899-12-31.
pub fn parse_excel_ordinal_date(text: &str) -> (r: Option<CalendarDate>)
    ensures
        r is Some <==> excel_date_of(text@) is Some,
        r matches Some(d) ==> excel_date_of(text@) == Some(d@),
{
    match parse_i64(text) {
        Some(serial) => {
            // A serial this far out names no day; leaving it out also keeps the sum below in range.
            if serial <= i64::MIN + 1 || serial >= i64::MAX - EXCEL_EPOCH_DAY as i64 {
                return None;
            }
            let day = if serial >= EXCEL_LEAP_BUG_SERIAL {
                EXCEL_EPOCH_DAY as i64 + serial - 1
            } else {
                EXCEL_EPOCH_DAY as i64 + serial
            };
            CalendarDate::from_day_number(day)
        },
        None => None,
    }
}

} // verus!
