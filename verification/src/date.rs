//! Calendar dates.
//!
//! Every journal entry carries a date. The store keeps it as a plain
//! year/month/day triple restricted to the proleptic Gregorian calendar, and
//! persists it as a single integer key `year * 10_000 + month * 100 + day`,
//! which orders chronologically and decodes back to the same date.

use vstd::prelude::*;

verus! {

/// Largest year the store accepts; keeps the integer encoding in four
/// decimal digits for the year part.
pub const MAX_YEAR: u16 = 9999;

/// A calendar date: year, month and day of month.
#[derive(Clone, Copy, Debug, PartialEq, Eq, Structural)]
pub struct Date {
    pub year: u16,
    pub month: u8,
    pub day: u8,
}

/// Whether `year` is a leap year in the Gregorian calendar.
pub open spec fn spec_is_leap_year(year: u16) -> bool {
    (year % 4 == 0 && year % 100 != 0) || year % 400 == 0
}

/// Number of days in `month` of `year`; 0 when `month` is not a month.
pub open spec fn spec_days_in_month(year: u16, month: u8) -> u8 {
    if month == 1 || month == 3 || month == 5 || month == 7 || month == 8 || month == 10
        || month == 12 {
        31
    } else if month == 4 || month == 6 || month == 9 || month == 11 {
        30
    } else if month == 2 {
        if spec_is_leap_year(year) {
            29
        } else {
            28
        }
    } else {
        0
    }
}

impl Date {
    /// A date is valid when the year is in range and the day exists in the
    /// month's calendar.
    pub open spec fn valid(self) -> bool {
        &&& 1 <= self.year <= MAX_YEAR
        &&& 1 <= self.month <= 12
        &&& 1 <= self.day <= spec_days_in_month(self.year, self.month)
    }

    /// The integer key under which the date is persisted.
    pub open spec fn spec_key(self) -> u32 {
        (self.year * 10000 + self.month * 100 + self.day) as u32
    }

    /// Builds a date after checking calendar validity.
    pub fn new(year: u16, month: u8, day: u8) -> (r: Option<Date>)
        ensures
            r matches Some(d) ==> d == (Date { year, month, day }) && d.valid(),
            r is None <==> !(Date { year, month, day }).valid(),
    {
        let candidate = Date { year, month, day };
        if 1 <= year && year <= MAX_YEAR && 1 <= month && month <= 12 && 1 <= day && day
            <= days_in_month(year, month) {
            Some(candidate)
        } else {
            None
        }
    }

    /// Encodes the date as its integer key.
    pub fn key(self) -> (r: u32)
        requires
            self.valid(),
        ensures
            r == self.spec_key(),
    {
        self.year as u32 * 10000 + self.month as u32 * 100 + self.day as u32
    }

    /// Decodes an integer key back to the date it encodes; `None` for a key
    /// that no valid date produces.
    pub fn from_key(key: u32) -> (r: Option<Date>)
        ensures
            r matches Some(d) ==> d.valid() && d.spec_key() == key,
            r is None ==> forall|d: Date| d.valid() ==> d.spec_key() != key,
    {
        let year_part: u32 = key / 10000;
        let month_part: u32 = (key / 100) % 100;
        let day_part: u32 = key % 100;
        if year_part > MAX_YEAR as u32 {
            proof {
                assert forall|d: Date| d.valid() implies d.spec_key() != key by {
                    lemma_key_parts(d);
                }
            }
            None
        } else {
            let r = Date::new(year_part as u16, month_part as u8, day_part as u8);
            proof {
                if r is None {
                    assert forall|d: Date| d.valid() implies d.spec_key() != key by {
                        lemma_key_parts(d);
                    }
                } else {
                    let d = r->Some_0;
                    lemma_key_parts(d);
                }
            }
            r
        }
    }
}

/// Number of days in `month` of `year`.
pub fn days_in_month(year: u16, month: u8) -> (r: u8)
    ensures
        r == spec_days_in_month(year, month),
{
    if month == 1 || month == 3 || month == 5 || month == 7 || month == 8 || month == 10 || month
        == 12 {
        31
    } else if month == 4 || month == 6 || month == 9 || month == 11 {
        30
    } else if month == 2 {
        if is_leap_year(year) {
            29
        } else {
            28
        }
    } else {
        0
    }
}

/// Whether `year` is a leap year.
pub fn is_leap_year(year: u16) -> (r: bool)
    ensures
        r == spec_is_leap_year(year),
{
    (year % 4 == 0 && year % 100 != 0) || year % 400 == 0
}

/// A valid date's key splits back into its fields by decimal division.
proof fn lemma_key_parts(d: Date)
    requires
        d.valid(),
    ensures
        d.spec_key() / 10000 == d.year,
        (d.spec_key() / 100) % 100 == d.month,
        d.spec_key() % 100 == d.day,
{
    let k = d.spec_key() as int;
    let y = d.year as int;
    let m = d.month as int;
    let dd = d.day as int;
    assert(k == y * 10000 + m * 100 + dd);
    assert(k / 10000 == y && (k / 100) % 100 == m && k % 100 == dd) by (nonlinear_arith)
        requires
            k == y * 10000 + m * 100 + dd,
            1 <= y <= 9999,
            1 <= m <= 12,
            1 <= dd <= 31,
    ;
}

/// The integer encoding round-trips: decoding a valid date's key yields the
/// same date.
pub proof fn lemma_key_round_trip(d: Date)
    requires
        d.valid(),
    ensures
        forall|other: Date| other.valid() && other.spec_key() == d.spec_key() ==> other == d,
{
    assert forall|other: Date| other.valid() && other.spec_key() == d.spec_key() implies other
        == d by {
        lemma_key_parts(d);
        lemma_key_parts(other);
    }
}

} // verus!
