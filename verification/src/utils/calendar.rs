//! Julian dates of the Gregorian calendar, in whole half-days: a Julian date at 0h
//! always ends in a half.

use vstd::prelude::*;

verus! {

/// Whether `year` has a 29 February.
pub open spec fn is_leap(year: int) -> bool {
    year % 4 == 0 && (year % 100 != 0 || year % 400 == 0)
}

/// Days in a month of `year`.
pub open spec fn days_in_month(year: int, month: int) -> int {
    if month == 2 {
        if is_leap(year) {
            29
        } else {
            28
        }
    } else if month == 4 || month == 6 || month == 9 || month == 11 {
        30
    } else {
        31
    }
}

/// Days of the months of `year` before `month`.
pub open spec fn days_before_month(year: int, month: int) -> int
    decreases month,
{
    if month <= 1 {
        0
    } else {
        days_before_month(year, month - 1) + days_in_month(year, month - 1)
    }
}

/// Days from 1 January of year 0 to 1 January of `year`: 365 for each year, and one for
/// each leap year among them.
pub open spec fn days_before_year(year: int) -> int {
    365 * year + (year + 3) / 4 - (year + 99) / 100 + (year + 399) / 400
}

/// Twice the Julian date at 0h of a day. 1 January of year 0 begins at 1721059.5.
pub open spec fn half_days(year: int, month: int, day: int) -> int {
    2 * (days_before_year(year) + days_before_month(year, month) + day - 1) + 3_442_119
}

/// The year that the date counts in when January and February close the year before.
pub open spec fn shifted_year(year: int, month: int) -> int {
    if month <= 2 {
        year - 1
    } else {
        year
    }
}

/// The month number when January and February close the year before.
pub open spec fn shifted_month(month: int) -> int {
    if month <= 2 {
        month + 12
    } else {
        month
    }
}

/// Whole parts of a Julian date, all but the day: the date is
/// `year_days + month_days + day + correction - 1524.5`.
#[derive(Debug, Clone, Copy, PartialEq, Eq, Structural)]
pub struct DateTerms {
    /// Days of the years: 365.25 for each, rounded down.
    pub year_days: i128,
    /// Days of the months: 30.6001 for each, rounded down.
    pub month_days: i128,
    /// Days that the Gregorian calendar leaves out.
    pub correction: i128,
}

/// Twice the Julian date at 0h of `day`, by its terms.
pub open spec fn half_days_of(terms: DateTerms, day: int) -> int {
    2 * (terms.year_days + terms.month_days + day + terms.correction) - 3_049
}

/// What the terms are for a year and a month number.
pub open spec fn are_terms(terms: DateTerms, year: int, month: int) -> bool {
    let y = shifted_year(year, month);
    let m = shifted_month(month);
    &&& terms.year_days == 1461 * (y + 4716) / 4
    &&& terms.month_days == 306_001 * (m + 1) / 10_000
    &&& terms.correction == 2 - y / 100 + y / 100 / 4
}

/// The months before `month`, written out.
proof fn lemma_days_before_month(year: int, month: int)
    requires
        1 <= month <= 12,
    ensures
        month == 1 ==> days_before_month(year, month) == 0,
        month == 2 ==> days_before_month(year, month) == 31,
        month > 2 ==> days_before_month(year, month) == 306_001 * (month + 1) / 10_000 - 63
            + if is_leap(year) {
            1int
        } else {
            0
        },
{
    reveal_with_fuel(days_before_month, 13);
}

/// The terms of a date add up to its place in the calendar.
pub proof fn law_terms_count_calendar_days(terms: DateTerms, year: int, month: int, day: int)
    requires
        are_terms(terms, year, month),
        1 <= month <= 12,
    ensures
        half_days_of(terms, day) == half_days(year, month, day),
{
    lemma_days_before_month(year, month);
    let y = shifted_year(year, month);
    assert(y / 100 / 4 == y / 400);
    if month > 2 {
        lemma_leap_count(year);
    }
}

proof fn lemma_leap_count(y: int)
    ensures
        (y + 3) / 4 + (if y % 4 == 0 {
            1int
        } else {
            0
        }) == y / 4 + 1,
        (y + 99) / 100 + (if y % 100 == 0 {
            1int
        } else {
            0
        }) == y / 100 + 1,
        (y + 399) / 400 + (if y % 400 == 0 {
            1int
        } else {
            0
        }) == y / 400 + 1,
{
}

/// The day after the last day of a month is the first of the next, a Julian date
/// later by one, across months and years; and within a month the days follow each
/// other.
pub proof fn law_days_follow_each_other(year: int, month: int, day: int)
    requires
        1 <= month <= 12,
    ensures
        half_days(year, month, day + 1) == half_days(year, month, day) + 2,
        month < 12 ==> half_days(year, month + 1, 1) == half_days(
            year,
            month,
            days_in_month(year, month),
        ) + 2,
        month == 12 ==> half_days(year + 1, 1, 1) == half_days(year, 12, 31) + 2,
{
    lemma_year_length(year);
    if month == 12 {
        lemma_days_before_month(year, 12);
        reveal_with_fuel(days_before_month, 2);
    } else {
        assert(days_before_month(year, month + 1) == days_before_month(year, month)
            + days_in_month(year, month));
    }
}

proof fn lemma_year_length(year: int)
    ensures
        days_before_year(year + 1) == days_before_year(year) + 365 + if is_leap(year) {
            1int
        } else {
            0
        },
{
    lemma_leap_count(year);
    assert((year + 1 + 3) / 4 == year / 4 + 1);
    assert((year + 1 + 99) / 100 == year / 100 + 1);
    assert((year + 1 + 399) / 400 == year / 400 + 1);
    assert(year % 400 == 0 ==> year % 100 == 0);
    assert(year % 100 == 0 ==> year % 4 == 0);
}

/// `a / b`, rounded down.
fn floor_div(a: i128, b: u128) -> (r: i128)
    requires
        0 < b <= 10_000,
        -0x1000_0000_0000_0000_0000_0000_0000 < a < 0x1000_0000_0000_0000_0000_0000_0000,
    ensures
        r == a as int / b as int,
        -0x1000_0000_0000_0000_0000_0000_0000 < r < 0x1000_0000_0000_0000_0000_0000_0000,
{
    if a >= 0 {
        proof {
            vstd::arithmetic::div_mod::lemma_div_is_ordered_by_denominator(a as int, 1, b as int);
        }
        (a as u128 / b) as i128
    } else {
        let m: u128 = (-(a + 1)) as u128;
        proof {
            let k = m as int / b as int;
            vstd::arithmetic::div_mod::lemma_div_is_ordered_by_denominator(m as int, 1, b as int);
            vstd::arithmetic::div_mod::lemma_fundamental_div_mod(m as int, b as int);
            assert(b * (-k - 1) == -(b * k) - b) by (nonlinear_arith);
            vstd::arithmetic::div_mod::lemma_fundamental_div_mod_converse(
                a as int,
                b as int,
                -k - 1,
                b - 1 - m as int % b as int,
            );
        }
        -((m / b) as i128) - 1
    }
}

/// A date is counted from a year 4716 years earlier, which must still be a 64-bit number,
/// as must the month that follows.
pub open spec fn is_countable(year: int, month: int) -> bool {
    &&& i64::MIN <= shifted_year(year, month)
    &&& shifted_year(year, month) + 4716 <= i64::MAX
    &&& shifted_month(month) + 1 <= i64::MAX
}

/// Whether a date can be counted.
pub fn countable(year: i64, month: i64) -> (r: bool)
    ensures
        r == is_countable(year as int, month as int),
{
    let y: i128 = if month <= 2 {
        year as i128 - 1
    } else {
        year as i128
    };
    y >= i64::MIN as i128 && y + 4716 <= i64::MAX as i128 && month < i64::MAX
}

/// The terms of a Julian date.
pub fn date_terms(year: i64, month: i64) -> (r: DateTerms)
    requires
        is_countable(year as int, month as int),
    ensures
        are_terms(r, year as int, month as int),
{
    let y: i128 = if month <= 2 {
        year as i128 - 1
    } else {
        year as i128
    };
    let m: i128 = if month <= 2 {
        month as i128 + 12
    } else {
        month as i128
    };
    let a: i128 = floor_div(y, 100);
    DateTerms {
        year_days: floor_div(1461 * (y + 4716), 4),
        month_days: floor_div(306_001 * (m + 1), 10_000),
        correction: 2 - a + floor_div(a, 4),
    }
}

/// Twice the Julian date at 0h for a Gregorian calendar date. Nothing for a month
/// outside 1 to 12 or a day outside 1 to 31.
pub fn julian_date(year: i64, month: i64, day: i64) -> (r: Option<i128>)
    requires
        1 <= month <= 12 && 1 <= day <= 31 ==> is_countable(year as int, month as int),
    ensures
        match r {
            Some(h) => 1 <= month <= 12 && 1 <= day <= 31 && h == half_days(
                year as int,
                month as int,
                day as int,
            ),
            None => !(1 <= month <= 12 && 1 <= day <= 31),
        },
{
    if month < 1 || month > 12 || day < 1 || day > 31 {
        return None;
    }
    let terms = date_terms(year, month);
    proof {
        law_terms_count_calendar_days(terms, year as int, month as int, day as int);
    }
    Some(2 * (terms.year_days + terms.month_days + day as i128 + terms.correction) - 3_049)
}

/// Days are counted so that the first day of 2000 begins at Julian date 2451544.5.
pub proof fn law_days_are_counted_from_their_epoch()
    ensures
        half_days(2000, 1, 1) == 2 * 2_451_544 + 1,
{
    reveal_with_fuel(days_before_month, 2);
}

/// A year has 366 days where it is a leap year, and 365 where it is not; every fourth year is
/// one, but for three of four full centuries.
pub proof fn law_leap_years_have_a_day_more(year: int)
    ensures
        half_days(year + 1, 1, 1) - half_days(year, 1, 1) == if is_leap(year) {
            2 * 366int
        } else {
            2 * 365int
        },
        year % 4 != 0 ==> !is_leap(year),
        year % 4 == 0 && year % 100 != 0 ==> is_leap(year),
        year % 100 == 0 && year % 400 != 0 ==> !is_leap(year),
        year % 400 == 0 ==> is_leap(year),
{
    lemma_year_length(year);
    reveal_with_fuel(days_before_month, 2);
    assert(year % 400 == 0 ==> year % 4 == 0);
}

/// The calendar repeats after four hundred years, which have 146097 days.
pub proof fn law_the_calendar_repeats(year: int, month: int, day: int)
    requires
        1 <= month <= 12,
    ensures
        half_days(year + 400, month, day) == half_days(year, month, day) + 2 * 146_097,
{
    lemma_same_months(year, month);
    assert((year + 400 + 3) / 4 == (year + 3) / 4 + 100);
    assert((year + 400 + 99) / 100 == (year + 99) / 100 + 4);
    assert((year + 400 + 399) / 400 == (year + 399) / 400 + 1);
}

proof fn lemma_same_months(year: int, month: int)
    requires
        1 <= month <= 12,
    ensures
        days_before_month(year + 400, month) == days_before_month(year, month),
    decreases month,
{
    if month > 1 {
        lemma_same_months(year, month - 1);
        assert(is_leap(year + 400) == is_leap(year)) by {
            assert((year + 400) % 4 == year % 4);
            assert((year + 400) % 100 == year % 100);
            assert((year + 400) % 400 == year % 400);
        }
    }
}

} // verus!
