use chrono::Datelike;
use vstd::prelude::*;

verus! {

/// Whether `year` is a leap year of the proleptic Gregorian calendar.
pub open spec fn is_leap_year(year: int) -> bool {
    year % 4 == 0 && (year % 100 != 0 || year % 400 == 0)
}

/// How many days the month has (months are numbered from 1).
pub open spec fn days_in_month(year: int, month: int) -> int {
    if month == 2 {
        if is_leap_year(year) { 29 } else { 28 }
    } else if month == 4 || month == 6 || month == 9 || month == 11 {
        30
    } else {
        31
    }
}

/// The earliest year a date can have.
pub open spec fn min_year() -> int {
    -262143
}

/// The latest year a date can have.
pub open spec fn max_year() -> int {
    262142
}

/// Whether year, month and day name a day of the calendar within the
/// supported range of years.
pub open spec fn calendar_date_exists(year: int, month: int, day: int) -> bool {
    &&& min_year() <= year <= max_year()
    &&& 1 <= month <= 12
    &&& 1 <= day <= days_in_month(year, month)
}

/// The decimal digit for `n` (`0 <= n < 10`).
pub open spec fn digit_char(n: int) -> char {
    (n + 48) as char
}

/// The decimal representation of `n`, without leading zeros.
pub open spec fn decimal(n: nat) -> Seq<char>
    decreases n,
{
    if n < 10 {
        seq![digit_char(n as int)]
    } else {
        decimal(n / 10).push(digit_char((n % 10) as int))
    }
}

/// The decimal representation of `n`, padded with zeros on the left to at
/// least `width` characters.
pub open spec fn zero_padded(n: nat, width: nat) -> Seq<char> {
    let d = decimal(n);
    if d.len() < width {
        Seq::new((width - d.len()) as nat, |_i: int| '0') + d
    } else {
        d
    }
}

/// A year as ISO 8601 writes it: four digits from 0 to 9999, and an
/// explicit sign before at least four digits otherwise.
pub open spec fn year_text(year: int) -> Seq<char> {
    if 0 <= year <= 9999 {
        zero_padded(year as nat, 4)
    } else if year < 0 {
        seq!['-'] + zero_padded((-year) as nat, 4)
    } else {
        seq!['+'] + zero_padded(year as nat, 4)
    }
}

/// A date as `%Y-%m-%d` writes it, such as `2015-09-05`.
pub open spec fn iso_date_text(year: int, month: int, day: int) -> Seq<char> {
    year_text(year) + seq!['-'] + zero_padded(month as nat, 2) + seq!['-'] + zero_padded(
        day as nat,
        2,
    )
}

/// What `chrono::NaiveDate::parse_from_str` gives for a text and a format:
/// the year, month and day of the parsed date, or `None` where it fails.
pub uninterp spec fn parsed_date(text: Seq<char>, format: Seq<char>) -> Option<(int, int, int)>;

/// A day of the (proleptic Gregorian) calendar.
#[derive(Clone, Copy, Debug)]
pub struct Date {
    year: i32,
    month: u32,
    day: u32,
}

impl View for Date {
    /// Year, month (from 1) and day (from 1).
    type V = (int, int, int);

    closed spec fn view(&self) -> (int, int, int) {
        (self.year as int, self.month as int, self.day as int)
    }
}

/// Calls `chrono::NaiveDate::from_ymd_opt` and writes the date it gives with
/// chrono's `Display`. The contract claims that `from_ymd_opt` gives a date
/// exactly on the days of the proleptic Gregorian calendar whose year lies in
/// chrono's range (`NaiveDate::MIN` is in year -262143, `NaiveDate::MAX` in
/// year 262142), and that `Display` writes the `%Y-%m-%d` text that chrono
/// documents, with the explicit sign it writes for years outside 0 to 9999.
#[verifier::external_body]
fn chrono_date_text(year: i32, month: u32, day: u32) -> (r: Option<String>)
    ensures
        r is Some <==> calendar_date_exists(year as int, month as int, day as int),
        r matches Some(s) ==> s@ == iso_date_text(year as int, month as int, day as int),
{
    match chrono::NaiveDate::from_ymd_opt(year, month, day) {
        Some(d) => Some(d.to_string()),
        None => None,
    }
}

/// Calls `chrono::NaiveDate::parse_from_str` and reads year, month and day
/// off the parsed date. The contract claims that the result is `parsed_date`
/// of the arguments, and that a parsed date is a day of the calendar (every
/// `NaiveDate` is).
#[verifier::external_body]
fn chrono_parse_date(text: &str, format: &str) -> (r: Option<(i32, u32, u32)>)
    ensures
        r is Some <==> parsed_date(text@, format@) is Some,
        r matches Some(ymd) ==> {
            &&& parsed_date(text@, format@) == Some((ymd.0 as int, ymd.1 as int, ymd.2 as int))
            &&& calendar_date_exists(ymd.0 as int, ymd.1 as int, ymd.2 as int)
        },
{
    match chrono::NaiveDate::parse_from_str(text, format) {
        Ok(d) => Some((d.year(), d.month(), d.day())),
        Err(_) => None,
    }
}

impl Date {
    #[verifier::type_invariant]
    spec fn in_calendar(self) -> bool {
        calendar_date_exists(self.year as int, self.month as int, self.day as int)
    }

    /// The text of the date, `%Y-%m-%d`.
    pub open spec fn text_spec(self) -> Seq<char> {
        iso_date_text(self@.0, self@.1, self@.2)
    }

    /// The date with the given year, month and day, where that day exists.
    pub fn from_ymd(year: i32, month: u32, day: u32) -> (r: Option<Date>)
        ensures
            r is Some <==> calendar_date_exists(year as int, month as int, day as int),
            r matches Some(d) ==> d@ == (year as int, month as int, day as int),
    {
        match chrono_date_text(year, month, day) {
            Some(_) => Some(Date { year, month, day }),
            None => None,
        }
    }

    /// Parses a date from `text` by a chrono format string such as
    /// `%d/%m/%Y`.
    pub fn parse(text: &str, format: &str) -> (r: Option<Date>)
        ensures
            r is Some <==> parsed_date(text@, format@) is Some,
            r matches Some(d) ==> parsed_date(text@, format@) == Some(d@),
    {
        match chrono_parse_date(text, format) {
            Some((year, month, day)) => Some(Date { year, month, day }),
            None => None,
        }
    }

    pub fn year(&self) -> (y: i32)
        ensures
            y as int == self@.0,
    {
        self.year
    }

    pub fn month(&self) -> (m: u32)
        ensures
            m as int == self@.1,
    {
        self.month
    }

    pub fn day(&self) -> (d: u32)
        ensures
            d as int == self@.2,
    {
        self.day
    }

    /// The date as `%Y-%m-%d` text, such as `2023-12-01`.
    pub fn text(&self) -> (s: String)
        ensures
            s@ == self.text_spec(),
    {
        proof {
            use_type_invariant(self);
        }
        match chrono_date_text(self.year, self.month, self.day) {
            Some(s) => s,
            None => String::new(),
        }
    }

    /// Whether two dates are the same day.
    pub fn same_day(&self, other: &Date) -> (b: bool)
        ensures
            b == (self@ == other@),
    {
        self.year == other.year && self.month == other.month && self.day == other.day
    }
}

}
