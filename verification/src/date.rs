//! Calendar dates, as year, month and day.
//!
//! A `Date` holds what `chrono::NaiveDate` is made of; `chrono` decides which
//! dates exist, orders them and prints them.
use crate::decimal::pow10;
use crate::text::{
    all_digits, decimal_digits, lemma_decimal_digits, lemma_decimal_digits_fit, lemma_zero_pad,
    zero_pad,
};
use chrono::NaiveDate;
use vstd::prelude::*;

verus! {

/// Earliest year that `chrono::NaiveDate` can hold.
pub const MIN_YEAR: i32 = -262143;

/// Latest year that `chrono::NaiveDate` can hold.
pub const MAX_YEAR: i32 = 262142;

/// Leap years of the proleptic Gregorian calendar.
pub open spec fn is_leap_year(year: int) -> bool {
    (year % 4 == 0 && year % 100 != 0) || year % 400 == 0
}

/// Number of days in a month (1 to 12) of a year.
pub open spec fn days_in_month(year: int, month: int) -> int {
    if month == 2 {
        if is_leap_year(year) {
            29
        } else {
            28
        }
    } else if month == 4 || month == 6 || month == 9 || month == 11 {
        30
    } else {
        31
    }
}

/// The year, month and day name a date that `chrono::NaiveDate` can hold.
pub open spec fn valid_ymd(year: int, month: int, day: int) -> bool {
    &&& MIN_YEAR <= year <= MAX_YEAR
    &&& 1 <= month <= 12
    &&& 1 <= day <= days_in_month(year, month)
}

/// Chronological order of two dates, given as (year, month, day).
pub open spec fn ymd_before(a: (int, int, int), b: (int, int, int)) -> bool {
    ||| a.0 < b.0
    ||| (a.0 == b.0 && a.1 < b.1)
    ||| (a.0 == b.0 && a.1 == b.1 && a.2 < b.2)
}

/// The year as `chrono` prints it for `%Y`: four digits at least, with a sign
/// outside 0 to 9999.
pub open spec fn year_text(year: int) -> Seq<char> {
    if 0 <= year <= 9999 {
        zero_pad(decimal_digits(year as nat), 4)
    } else if year < 0 {
        seq!['-'] + zero_pad(decimal_digits((-year) as nat), 4)
    } else {
        seq!['+'] + zero_pad(decimal_digits(year as nat), 4)
    }
}

/// A date as `chrono` prints it for `%Y%m%d`.
pub open spec fn compact_text(year: int, month: int, day: int) -> Seq<char> {
    year_text(year) + zero_pad(decimal_digits(month as nat), 2) + zero_pad(
        decimal_digits(day as nat),
        2,
    )
}

/// A date as `chrono` prints it with `Display` (and serializes it): ISO 8601,
/// `YYYY-MM-DD`, with a sign on years outside 0 to 9999.
pub open spec fn iso_text(year: int, month: int, day: int) -> Seq<char> {
    year_text(year) + seq!['-'] + zero_pad(decimal_digits(month as nat), 2) + seq!['-']
        + zero_pad(decimal_digits(day as nat), 2)
}

/// Asks `chrono::NaiveDate::from_ymd_opt` whether the date exists.
/// Trusted: it exists exactly when `valid_ymd` holds (the Gregorian calendar,
/// within the years that `NaiveDate` holds).
#[verifier::external_body]
fn chrono_date_exists(year: i32, month: u32, day: u32) -> (r: bool)
    ensures
        r == valid_ymd(year as int, month as int, day as int),
{
    NaiveDate::from_ymd_opt(year, month, day).is_some()
}

/// Compares two dates with `<` on `chrono::NaiveDate`, which is chronological.
#[verifier::external_body]
fn chrono_date_before(y1: i32, m1: u32, d1: u32, y2: i32, m2: u32, d2: u32) -> (r: bool)
    requires
        valid_ymd(y1 as int, m1 as int, d1 as int),
        valid_ymd(y2 as int, m2 as int, d2 as int),
    ensures
        r == ymd_before((y1 as int, m1 as int, d1 as int), (y2 as int, m2 as int, d2 as int)),
{
    NaiveDate::from_ymd_opt(y1, m1, d1).unwrap() < NaiveDate::from_ymd_opt(y2, m2, d2).unwrap()
}

/// Prints a date with `chrono`'s `format("%Y%m%d")`.
/// Trusted: the text is `compact_text`, as chrono's documentation of `%Y`,
/// `%m` and `%d` describes it.
#[verifier::external_body]
fn chrono_compact(year: i32, month: u32, day: u32) -> (r: String)
    requires
        valid_ymd(year as int, month as int, day as int),
    ensures
        r@ == compact_text(year as int, month as int, day as int),
{
    NaiveDate::from_ymd_opt(year, month, day).unwrap().format("%Y%m%d").to_string()
}

/// Prints a date with `chrono::NaiveDate`'s `Display`.
/// Trusted: the text is `iso_text`, as chrono's `Debug`, which `Display`
/// calls, writes it (four-digit year, or the year with its sign outside 0 to
/// 9999; two-digit month and day).
#[verifier::external_body]
fn chrono_iso(year: i32, month: u32, day: u32) -> (r: String)
    requires
        valid_ymd(year as int, month as int, day as int),
    ensures
        r@ == iso_text(year as int, month as int, day as int),
{
    NaiveDate::from_ymd_opt(year, month, day).unwrap().to_string()
}

/// A calendar date that exists.
#[derive(Clone, Copy, Debug)]
pub struct Date {
    year: i32,
    month: u32,
    day: u32,
}

impl View for Date {
    type V = (int, int, int);

    closed spec fn view(&self) -> (int, int, int) {
        (self.year as int, self.month as int, self.day as int)
    }
}

impl Date {
    #[verifier::type_invariant]
    spec fn well_formed(self) -> bool {
        valid_ymd(self@.0, self@.1, self@.2)
    }

    /// The date, or `None` where it does not exist.
    pub fn from_ymd_opt(year: i32, month: u32, day: u32) -> (r: Option<Date>)
        ensures
            r is Some <==> valid_ymd(year as int, month as int, day as int),
            r matches Some(d) ==> d@ == (year as int, month as int, day as int),
    {
        if chrono_date_exists(year, month, day) {
            Some(Date { year, month, day })
        } else {
            None
        }
    }

    pub fn year(&self) -> (r: i32)
        ensures
            r == self@.0,
    {
        self.year
    }

    pub fn month(&self) -> (r: u32)
        ensures
            r == self@.1,
    {
        self.month
    }

    pub fn day(&self) -> (r: u32)
        ensures
            r == self@.2,
    {
        self.day
    }

    /// `self` comes before `other` in the calendar.
    pub fn is_before(&self, other: &Date) -> (r: bool)
        ensures
            r == ymd_before(self@, other@),
    {
        proof {
            use_type_invariant(self);
            use_type_invariant(other);
        }
        chrono_date_before(self.year, self.month, self.day, other.year, other.month, other.day)
    }

    /// The date as `YYYYMMDD` (`format("%Y%m%d")`).
    pub fn compact(&self) -> (r: String)
        ensures
            r@ == compact_text(self@.0, self@.1, self@.2),
    {
        proof {
            use_type_invariant(self);
        }
        chrono_compact(self.year, self.month, self.day)
    }

    /// The date as `YYYY-MM-DD`, as `chrono` prints it.
    pub fn iso(&self) -> (r: String)
        ensures
            r@ == iso_text(self@.0, self@.1, self@.2),
    {
        proof {
            use_type_invariant(self);
        }
        chrono_iso(self.year, self.month, self.day)
    }
}

/// A date of the years 0 to 9999 prints as eight digits, `YYYYMMDD`.
pub proof fn lemma_compact_is_eight_digits(year: int, month: int, day: int)
    requires
        valid_ymd(year, month, day),
        0 <= year <= 9999,
    ensures
        compact_text(year, month, day).len() == 8,
        all_digits(compact_text(year, month, day)),
{
    assert(pow10(2) == 100) by {
        reveal_with_fuel(pow10, 3);
    }
    assert(pow10(4) == 10000) by {
        reveal_with_fuel(pow10, 5);
    }
    let y = decimal_digits(year as nat);
    let m = decimal_digits(month as nat);
    let d = decimal_digits(day as nat);
    lemma_decimal_digits(year as nat);
    lemma_decimal_digits(month as nat);
    lemma_decimal_digits(day as nat);
    lemma_decimal_digits_fit(year as nat, 4);
    lemma_decimal_digits_fit(month as nat, 2);
    lemma_decimal_digits_fit(day as nat, 2);
    lemma_zero_pad(y, 4);
    lemma_zero_pad(m, 2);
    lemma_zero_pad(d, 2);
    let a = zero_pad(y, 4);
    let b = zero_pad(m, 2);
    let c = zero_pad(d, 2);
    let t = compact_text(year, month, day);
    assert(t == a + b + c);
    assert forall|i: int| 0 <= i < t.len() implies '0' <= #[trigger] t[i] && t[i] <= '9' by {
        if i < 4 {
            assert(t[i] == a[i]);
        } else if i < 6 {
            assert(t[i] == b[i - 4]);
        } else {
            assert(t[i] == c[i - 6]);
        }
    }
}

} // verus!
