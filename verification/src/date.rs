//! Calendar dates in ISO `YYYY-MM-DD` form: validation against the real
//! calendar (month lengths, leap years) and a total order for sorting.

use vstd::prelude::*;

verus! {

/// A decimal digit.
pub open spec fn is_digit(c: char) -> bool {
    '0' <= c && c <= '9'
}

/// The numeric value of a decimal digit.
pub open spec fn digit_val(c: char) -> int {
    c as u32 - '0' as u32
}

/// A leap year of the proleptic Gregorian calendar.
pub open spec fn is_leap_year(y: int) -> bool {
    y % 4 == 0 && (y % 100 != 0 || y % 400 == 0)
}

/// The number of days of month `m` in year `y`.
pub open spec fn days_in_month(y: int, m: int) -> int {
    if m == 2 {
        if is_leap_year(y) {
            29
        } else {
            28
        }
    } else if m == 4 || m == 6 || m == 9 || m == 11 {
        30
    } else {
        31
    }
}

/// The year of a ten-character date, by digit positions.
pub open spec fn spec_year(s: Seq<char>) -> int {
    digit_val(s[0]) * 1000 + digit_val(s[1]) * 100 + digit_val(s[2]) * 10 + digit_val(s[3])
}

/// The month of a ten-character date, by digit positions.
pub open spec fn spec_month(s: Seq<char>) -> int {
    digit_val(s[5]) * 10 + digit_val(s[6])
}

/// The day of a ten-character date, by digit positions.
pub open spec fn spec_day(s: Seq<char>) -> int {
    digit_val(s[8]) * 10 + digit_val(s[9])
}

/// A well-formed `YYYY-MM-DD` date naming a real calendar day.
pub open spec fn is_valid_date(s: Seq<char>) -> bool {
    &&& s.len() == 10
    &&& is_digit(s[0]) && is_digit(s[1]) && is_digit(s[2]) && is_digit(s[3])
    &&& s[4] == '-'
    &&& is_digit(s[5]) && is_digit(s[6])
    &&& s[7] == '-'
    &&& is_digit(s[8]) && is_digit(s[9])
    &&& 1 <= spec_month(s) <= 12
    &&& 1 <= spec_day(s) <= days_in_month(spec_year(s), spec_month(s))
}

/// A single number that orders valid dates chronologically.
pub open spec fn spec_date_value(s: Seq<char>) -> int {
    spec_year(s) * 10000 + spec_month(s) * 100 + spec_day(s)
}

/// Executable test for [`is_digit`].
fn digit(c: char) -> (r: bool)
    ensures
        r == is_digit(c),
{
    '0' <= c && c <= '9'
}

/// The numeric value of a digit character.
fn digit_value(c: char) -> (r: u32)
    requires
        is_digit(c),
    ensures
        r == digit_val(c),
{
    (c as u32) - ('0' as u32)
}

/// Checks that `date` is a well-formed `YYYY-MM-DD` calendar date.
pub fn validate_date(date: &str) -> (r: bool)
    ensures
        r == is_valid_date(date@),
{
    let s = crate::text::chars_of(date);
    if s.len() != 10 {
        return false;
    }
    let mut k: usize = 0;
    while k < 10
        invariant
            k <= 10,
            s@.len() == 10,
            s@ == date@,
            forall|j: int|
                0 <= j < k ==> if j == 4 || j == 7 {
                    s@[j] == '-'
                } else {
                    is_digit(#[trigger] s@[j])
                },
        decreases 10 - k,
    {
        let c = s[k];
        if k == 4 || k == 7 {
            if c != '-' {
                return false;
            }
        } else {
            if !digit(c) {
                return false;
            }
        }
        k = k + 1;
    }
    let y = digit_value(s[0]) * 1000 + digit_value(s[1]) * 100 + digit_value(s[2]) * 10
        + digit_value(s[3]);
    let m = digit_value(s[5]) * 10 + digit_value(s[6]);
    let d = digit_value(s[8]) * 10 + digit_value(s[9]);
    if m < 1 || m > 12 {
        return false;
    }
    let md: u32 = if m == 2 {
        if (y % 4 == 0) && (y % 100 != 0 || y % 400 == 0) {
            29
        } else {
            28
        }
    } else if m == 4 || m == 6 || m == 9 || m == 11 {
        30
    } else {
        31
    };
    1 <= d && d <= md
}

/// The order key of a valid date; larger means later.
pub fn date_value(date: &str) -> (n: u32)
    requires
        is_valid_date(date@),
    ensures
        n == spec_date_value(date@),
{
    let s = crate::text::chars_of(date);
    let y = digit_value(s[0]) * 1000 + digit_value(s[1]) * 100 + digit_value(s[2]) * 10
        + digit_value(s[3]);
    let m = digit_value(s[5]) * 10 + digit_value(s[6]);
    let d = digit_value(s[8]) * 10 + digit_value(s[9]);
    y * 10000 + m * 100 + d
}

} // verus!
