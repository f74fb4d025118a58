//! Proleptic Gregorian calendar arithmetic on plain integers: day numbers
//! relative to the Unix epoch, and parsing of the market document's
//! `YYYY-MM-DDTHH:MM` timestamp literals into UTC epoch seconds.
//!
//! The supported year range is 1583..=9999: the Gregorian calendar proper,
//! which keeps every intermediate of the day-number formula nonnegative.

use vstd::prelude::*;
use crate::text::{is_digit, digit_val};

verus! {

pub const SECS_PER_DAY: i64 = 86400;

pub const MIN_YEAR: i64 = 1583;

pub const MAX_YEAR: i64 = 9999;

pub open spec fn spec_is_leap(y: int) -> bool {
    (y % 4 == 0 && y % 100 != 0) || y % 400 == 0
}

pub open spec fn spec_days_in_month(y: int, m: int) -> int {
    if m == 2 {
        if spec_is_leap(y) {
            29
        } else {
            28
        }
    } else if m == 4 || m == 6 || m == 9 || m == 11 {
        30
    } else {
        31
    }
}

pub open spec fn spec_valid_date(y: int, m: int, d: int) -> bool {
    MIN_YEAR as int <= y <= MAX_YEAR as int && 1 <= m <= 12 && 1 <= d <= spec_days_in_month(y, m)
}

/// Days since 1970-01-01 of a Gregorian calendar date, by era decomposition.
pub open spec fn spec_days_from_civil(y: int, m: int, d: int) -> int {
    let yy = if m <= 2 {
        y - 1
    } else {
        y
    };
    let era = yy / 400;
    let yoe = yy - era * 400;
    let mp = (m + 9) % 12;
    let doy = (153 * mp + 2) / 5 + d - 1;
    let doe = yoe * 365 + yoe / 4 - yoe / 100 + doy;
    era * 146097 + doe - 719468
}

pub fn is_leap(y: i64) -> (r: bool)
    requires
        0 <= y,
    ensures
        r == spec_is_leap(y as int),
{
    (y % 4 == 0 && y % 100 != 0) || y % 400 == 0
}

pub fn days_in_month(y: i64, m: i64) -> (r: i64)
    requires
        0 <= y,
    ensures
        r == spec_days_in_month(y as int, m as int),
{
    if m == 2 {
        if is_leap(y) {
            29
        } else {
            28
        }
    } else if m == 4 || m == 6 || m == 9 || m == 11 {
        30
    } else {
        31
    }
}

pub fn valid_date(y: i64, m: i64, d: i64) -> (r: bool)
    ensures
        r == spec_valid_date(y as int, m as int, d as int),
{
    MIN_YEAR <= y && y <= MAX_YEAR && 1 <= m && m <= 12 && 1 <= d && d <= days_in_month(y, m)
}

/// Days since 1970-01-01 of a valid Gregorian date.
pub fn days_from_civil(y: i64, m: i64, d: i64) -> (r: i64)
    requires
        spec_valid_date(y as int, m as int, d as int),
    ensures
        r == spec_days_from_civil(y as int, m as int, d as int),
        -300_000 <= r <= 3_000_000,
{
    let yy: i64 = if m <= 2 {
        y - 1
    } else {
        y
    };
    let era: i64 = yy / 400;
    proof {
        vstd::arithmetic::div_mod::lemma_div_is_ordered(1582, yy as int, 400);
        vstd::arithmetic::div_mod::lemma_div_is_ordered(yy as int, 9999, 400);
        vstd::arithmetic::div_mod::lemma_fundamental_div_mod(yy as int, 400);
        vstd::arithmetic::div_mod::lemma_mod_division_less_than_divisor(yy as int, 400);
    }
    let yoe: i64 = yy - era * 400;
    let mp: i64 = (m + 9) % 12;
    let doy: i64 = (153 * mp + 2) / 5 + d - 1;
    proof {
        vstd::arithmetic::div_mod::lemma_div_is_ordered(yoe as int, 399, 4);
        vstd::arithmetic::div_mod::lemma_div_pos_is_pos(yoe as int, 4);
        vstd::arithmetic::div_mod::lemma_div_is_ordered(yoe as int, 399, 100);
        vstd::arithmetic::div_mod::lemma_div_pos_is_pos(yoe as int, 100);
    }
    let doe: i64 = yoe * 365 + yoe / 4 - yoe / 100 + doy;
    era * 146097 + doe - 719468
}

/// A `YYYY-MM-DDTHH:MM` literal (any trailing timezone designator is
/// ignored; the value is read as UTC) as epoch seconds; `None` when the
/// shape is wrong or the date or time is out of range.
pub open spec fn spec_parse_timestamp(s: Seq<char>) -> Option<int> {
    if s.len() >= 16 && is_digit(s[0]) && is_digit(s[1]) && is_digit(s[2]) && is_digit(s[3])
        && s[4] == '-' && is_digit(s[5]) && is_digit(s[6]) && s[7] == '-' && is_digit(s[8])
        && is_digit(s[9]) && s[10] == 'T' && is_digit(s[11]) && is_digit(s[12]) && s[13] == ':'
        && is_digit(s[14]) && is_digit(s[15]) {
        let y = digit_val(s[0]) * 1000 + digit_val(s[1]) * 100 + digit_val(s[2]) * 10
            + digit_val(s[3]);
        let mo = digit_val(s[5]) * 10 + digit_val(s[6]);
        let d = digit_val(s[8]) * 10 + digit_val(s[9]);
        let h = digit_val(s[11]) * 10 + digit_val(s[12]);
        let mi = digit_val(s[14]) * 10 + digit_val(s[15]);
        if spec_valid_date(y, mo, d) && h <= 23 && mi <= 59 {
            Some(spec_days_from_civil(y, mo, d) * (SECS_PER_DAY as int) + h * 3600 + mi * 60)
        } else {
            None
        }
    } else {
        None
    }
}

fn digit_at(s: &str, i: usize) -> (r: Option<i64>)
    requires
        i < s@.len(),
    ensures
        r matches Some(v) ==> is_digit(s@[i as int]) && v == digit_val(s@[i as int]),
        r is None ==> !is_digit(s@[i as int]),
{
    let c = s.get_char(i);
    let u: u32 = c as u32;
    if 48 <= u && u <= 57 {
        Some((u - 48) as i64)
    } else {
        None
    }
}

/// Parses a timestamp literal, as [`spec_parse_timestamp`] states.
pub fn parse_timestamp(s: &str) -> (r: Option<i64>)
    ensures
        r matches Some(t) ==> Some(t as int) == spec_parse_timestamp(s@),
        r is None ==> spec_parse_timestamp(s@) is None,
        r matches Some(t) ==> -30_000_000_000 <= t <= 260_000_000_000,
{
    let n = s.unicode_len();
    if n < 16 {
        return None;
    }
    let c4 = s.get_char(4);
    let c7 = s.get_char(7);
    let c10 = s.get_char(10);
    let c13 = s.get_char(13);
    if c4 != '-' || c7 != '-' || c10 != 'T' || c13 != ':' {
        return None;
    }
    let d0 = digit_at(s, 0);
    let d1 = digit_at(s, 1);
    let d2 = digit_at(s, 2);
    let d3 = digit_at(s, 3);
    let d5 = digit_at(s, 5);
    let d6 = digit_at(s, 6);
    let d8 = digit_at(s, 8);
    let d9 = digit_at(s, 9);
    let d11 = digit_at(s, 11);
    let d12 = digit_at(s, 12);
    let d14 = digit_at(s, 14);
    let d15 = digit_at(s, 15);
    match (d0, d1, d2, d3, d5, d6, d8, d9, d11, d12, d14, d15) {
        (
            Some(a0),
            Some(a1),
            Some(a2),
            Some(a3),
            Some(b0),
            Some(b1),
            Some(e0),
            Some(e1),
            Some(h0),
            Some(h1),
            Some(m0),
            Some(m1),
        ) => {
            let y: i64 = a0 * 1000 + a1 * 100 + a2 * 10 + a3;
            let mo: i64 = b0 * 10 + b1;
            let d: i64 = e0 * 10 + e1;
            let h: i64 = h0 * 10 + h1;
            let mi: i64 = m0 * 10 + m1;
            if valid_date(y, mo, d) && h <= 23 && mi <= 59 {
                let days = days_from_civil(y, mo, d);
                Some(days * SECS_PER_DAY + h * 3600 + mi * 60)
            } else {
                None
            }
        },
        _ => None,
    }
}

/// One division step: the quotient grows by one exactly at multiples.
proof fn lemma_div_step(y: int, k: int)
    requires
        k > 0,
    ensures
        y / k - (y - 1) / k == if y % k == 0 {
            1int
        } else {
            0int
        },
{
    vstd::arithmetic::div_mod::lemma_fundamental_div_mod(y, k);
    let q = y / k;
    let r = y % k;
    if r == 0 {
        assert(y - 1 == k * (q - 1) + (k - 1)) by (nonlinear_arith)
            requires
                y == k * q + r && r == 0,
        ;
        crate::mathutil::lemma_div_unique(y - 1, k, q - 1, k - 1);
    } else {
        crate::mathutil::lemma_div_unique(y - 1, k, q, r - 1);
    }
}

/// The era decomposition of the day-number formula collapses to plain
/// quotients of the (possibly adjusted) year.
proof fn lemma_year_days(yy: int)
    requires
        0 <= yy,
    ensures
        (yy / 400) * 146097 + (yy - (yy / 400) * 400) * 365 + (yy - (yy / 400) * 400) / 4 - (yy
            - (yy / 400) * 400) / 100 == 365 * yy + yy / 4 - yy / 100 + yy / 400,
{
    let era = yy / 400;
    let yoe = yy - era * 400;
    vstd::arithmetic::div_mod::lemma_fundamental_div_mod(yy, 400);
    vstd::arithmetic::div_mod::lemma_mod_division_less_than_divisor(yy, 400);
    assert(yoe == yy % 400) by (nonlinear_arith)
        requires
            yy == 400 * (yy / 400) + yy % 400 && era == yy / 400 && yoe == yy - era * 400,
    ;
    vstd::arithmetic::div_mod::lemma_hoist_over_denominator(yoe, 100 * era, 4nat);
    assert(yoe + 100 * era * 4 == yy) by (nonlinear_arith)
        requires
            yoe == yy - era * 400,
    ;
    vstd::arithmetic::div_mod::lemma_hoist_over_denominator(yoe, 4 * era, 100nat);
    assert(yoe + 4 * era * 100 == yy) by (nonlinear_arith)
        requires
            yoe == yy - era * 400,
    ;
    assert(era * 146097 + yoe * 365 + (yoe / 4 + 100 * era) - (yoe / 100 + 4 * era) == 365 * yy
        + (yoe / 4 + 100 * era) - (yoe / 100 + 4 * era) + era - 365 * yy + era * 146097 + yoe
        * 365 - era + 365 * yy - 365 * yy) by (nonlinear_arith)
        requires
            yoe == yy - era * 400,
    ;
}

/// Crossing from February into March adds exactly the length of February.
proof fn lemma_dfc_feb_mar(y: int)
    requires
        MIN_YEAR as int <= y <= MAX_YEAR as int,
    ensures
        spec_days_from_civil(y, 3, 1) == spec_days_from_civil(y, 2, 1) + spec_days_in_month(y, 2),
{
    lemma_year_days(y);
    lemma_year_days(y - 1);
    lemma_div_step(y, 4);
    lemma_div_step(y, 100);
    lemma_div_step(y, 400);
    if y % 400 == 0 {
        vstd::arithmetic::div_mod::lemma_fundamental_div_mod(y, 400);
        assert(y == 100 * (4 * (y / 400))) by (nonlinear_arith)
            requires
                y == 400 * (y / 400) + y % 400 && y % 400 == 0,
        ;
        vstd::arithmetic::div_mod::lemma_mod_multiples_basic(4 * (y / 400), 100);
        assert((4 * (y / 400)) * 100 == 100 * (4 * (y / 400))) by (nonlinear_arith);
    }
    if y % 100 == 0 {
        vstd::arithmetic::div_mod::lemma_fundamental_div_mod(y, 100);
        assert(y == 4 * (25 * (y / 100))) by (nonlinear_arith)
            requires
                y == 100 * (y / 100) + y % 100 && y % 100 == 0,
        ;
        vstd::arithmetic::div_mod::lemma_mod_multiples_basic(25 * (y / 100), 4);
        assert((25 * (y / 100)) * 4 == 4 * (25 * (y / 100))) by (nonlinear_arith);
    }
}

/// Stepping one month forward from the first of a month advances the day
/// number by that month's length; past December it enters January.
proof fn lemma_dfc_next_month(y: int, m: int)
    requires
        MIN_YEAR as int <= y <= MAX_YEAR as int,
        1 <= m <= 12,
    ensures
        m < 12 ==> spec_days_from_civil(y, m + 1, 1) == spec_days_from_civil(y, m, 1)
            + spec_days_in_month(y, m),
        m == 12 ==> spec_days_from_civil(y + 1, 1, 1) == spec_days_from_civil(y, m, 1)
            + spec_days_in_month(y, m),
{
    if m == 2 {
        lemma_dfc_feb_mar(y);
    }
}

/// The inverse direction of the day-number formula, from a day number at
/// most one day away from a known valid date: the unique valid civil date
/// with that day number.
pub fn civil_from_day_near(z: i64, hint_y: i64, hint_m: i64, hint_d: i64) -> (r: (i64, i64, i64))
    requires
        spec_valid_date(hint_y as int, hint_m as int, hint_d as int),
        MIN_YEAR as int + 1 <= hint_y <= MAX_YEAR as int - 1,
        spec_days_from_civil(hint_y as int, hint_m as int, hint_d as int) - 1 <= z as int
            <= spec_days_from_civil(hint_y as int, hint_m as int, hint_d as int) + 1,
    ensures
        spec_valid_date(r.0 as int, r.1 as int, r.2 as int),
        spec_days_from_civil(r.0 as int, r.1 as int, r.2 as int) == z as int,
{
    let base = days_from_civil(hint_y, hint_m, hint_d);
    if z == base {
        (hint_y, hint_m, hint_d)
    } else if z == base - 1 {
        if hint_d > 1 {
            (hint_y, hint_m, hint_d - 1)
        } else if hint_m > 1 {
            let pd = days_in_month(hint_y, hint_m - 1);
            proof {
                lemma_dfc_next_month(hint_y as int, hint_m as int - 1);
            }
            (hint_y, hint_m - 1, pd)
        } else {
            proof {
                lemma_dfc_next_month(hint_y as int - 1, 12);
            }
            (hint_y - 1, 12, 31)
        }
    } else {
        let dim = days_in_month(hint_y, hint_m);
        if hint_d < dim {
            (hint_y, hint_m, hint_d + 1)
        } else if hint_m < 12 {
            proof {
                lemma_dfc_next_month(hint_y as int, hint_m as int);
            }
            (hint_y, hint_m + 1, 1)
        } else {
            proof {
                lemma_dfc_next_month(hint_y as int, 12);
            }
            (hint_y + 1, 1, 1)
        }
    }
}

} // verus!
