//! Gregorian calendar arithmetic: the mathematical model of dates and the
//! small executable helpers that the normalizer is built from.
use vstd::arithmetic::div_mod::{
    lemma_fundamental_div_mod, lemma_fundamental_div_mod_converse, lemma_mod_bound,
};
use vstd::prelude::*;

verus! {

/// Gregorian leap-year rule.
pub open spec fn is_leap(y: int) -> bool {
    y % 4 == 0 && (y % 100 != 0 || y % 400 == 0)
}

/// Number of days in year `y`.
pub open spec fn days_in_year(y: int) -> int {
    if is_leap(y) {
        366
    } else {
        365
    }
}

/// Number of days in month `m` (1..=12) of year `y`.
pub open spec fn days_in_month(y: int, m: int) -> int {
    if m == 2 {
        if is_leap(y) {
            29
        } else {
            28
        }
    } else if m == 4 || m == 6 || m == 9 || m == 11 {
        30
    } else {
        31
    }
}

/// Whether (y, m, d) names a day of the Gregorian calendar.
pub open spec fn valid_date(y: int, m: int, d: int) -> bool {
    1 <= m <= 12 && 1 <= d <= days_in_month(y, m)
}

/// Leap days in the years before `y`, counted from year 0 (negative for
/// negative `y`): the number of leap years in `[0, y)`.
pub open spec fn leap_days_before(y: int) -> int {
    (y + 3) / 4 - (y + 99) / 100 + (y + 399) / 400
}

/// Days from 1970-01-01 to January 1 of year `y`.
pub open spec fn days_before_year(y: int) -> int {
    365 * y + leap_days_before(y) - 719528
}

/// Days in the months of year `y` that precede month `m` (1..=12).
pub open spec fn days_before_month(y: int, m: int) -> int {
    let common = if m == 1 {
        0int
    } else if m == 2 {
        31
    } else if m == 3 {
        59
    } else if m == 4 {
        90
    } else if m == 5 {
        120
    } else if m == 6 {
        151
    } else if m == 7 {
        181
    } else if m == 8 {
        212
    } else if m == 9 {
        243
    } else if m == 10 {
        273
    } else if m == 11 {
        304
    } else {
        334
    };
    common + if m > 2 && is_leap(y) {
        1int
    } else {
        0
    }
}

/// Signed number of days from 1970-01-01 to the date (y, m, d).
#[verifier::opaque]
pub open spec fn day_number(y: int, m: int, d: int) -> int {
    days_before_year(y) + days_before_month(y, m) + d - 1
}

/// The year whose February follows month `m` of year `y`.
pub open spec fn feb_year(y: int, m: int) -> int {
    if m > 2 {
        y + 1
    } else {
        y
    }
}

/// Day number of the first day of the earliest representable year.
pub open spec fn min_day() -> int {
    day_number(i64::MIN as int, 1, 1)
}

/// Day number of the last day of the latest representable year.
pub open spec fn max_day() -> int {
    day_number(i64::MAX as int, 12, 31)
}

pub proof fn lemma_div(x: int, d: int)
    requires
        d > 0,
    ensures
        x == d * (x / d) + x % d,
        0 <= x % d < d,
{
    lemma_fundamental_div_mod(x, d);
    lemma_mod_bound(x, d);
}

/// One more year adds that year's days.
pub proof fn lemma_year_step(y: int)
    ensures
        days_before_year(y + 1) == days_before_year(y) + days_in_year(y),
{
    lemma_div_carry(y + 3, 1, 4);
    lemma_div_carry(y + 99, 1, 100);
    lemma_div_carry(y + 399, 1, 400);
    lemma_div_shift(y - 1, 1, 4);
    lemma_div_shift(y - 1, 1, 100);
    lemma_div_shift(y - 1, 1, 400);
    lemma_mod_pred(y, 4);
    lemma_mod_pred(y, 100);
    lemma_mod_pred(y, 400);
}

/// The definition of `day_number`, for proofs that need it unfolded.
pub proof fn lemma_day_number_formula(y: int, m: int, d: int)
    ensures
        day_number(y, m, d) == days_before_year(y) + days_before_month(y, m) + d - 1,
{
    reveal(day_number);
}

/// Day numbers around the epoch.
pub proof fn lemma_epoch()
    ensures
        day_number(1970, 1, 1) == 0,
        day_number(1970, 2, 1) == 31,
        day_number(1971, 1, 1) == 365,
{
    reveal(day_number);
}

/// Adding whole multiples of the divisor shifts the quotient and keeps the
/// remainder.
pub proof fn lemma_div_shift(x: int, k: int, d: int)
    requires
        d > 0,
    ensures
        (x + k * d) / d == x / d + k,
        (x + k * d) % d == x % d,
{
    lemma_div(x, d);
    assert(x + k * d == (x / d + k) * d + x % d) by (nonlinear_arith)
        requires
            x == d * (x / d) + x % d,
    ;
    lemma_fundamental_div_mod_converse(x + k * d, d, x / d + k, x % d);
}

/// Adding `k` (at most the divisor) carries into the quotient exactly when
/// the remainder passes the divisor.
pub proof fn lemma_div_carry(t: int, k: int, d: int)
    requires
        d > 0,
        0 <= k <= d,
    ensures
        (t + k) / d == t / d + if t % d + k >= d {
            1int
        } else {
            0
        },
        (t + k) % d == if t % d + k >= d {
            t % d + k - d
        } else {
            t % d + k
        },
{
    lemma_div(t, d);
    assert((t / d + 1) * d == d * (t / d) + d) by (nonlinear_arith);
    assert((t / d) * d == d * (t / d)) by (nonlinear_arith);
    if t % d + k >= d {
        lemma_fundamental_div_mod_converse(t + k, d, t / d + 1, t % d + k - d);
    } else {
        lemma_fundamental_div_mod_converse(t + k, d, t / d, t % d + k);
    }
}

/// The remainder of `s - 1` from that of `s`.
proof fn lemma_mod_pred(s: int, d: int)
    requires
        d > 0,
    ensures
        (s - 1) % d == if s % d == 0 {
            d - 1
        } else {
            s % d - 1
        },
{
    lemma_div_carry(s - 1, 1, d);
}

/// Leap days over 100 years starting at `s`: one more when the span holds a
/// multiple of 400.
proof fn lemma_leap_days_100(s: int)
    ensures
        leap_days_before(s + 100) == leap_days_before(s) + 24 + if s % 400 == 0 || s % 400
            > 300 {
            1int
        } else {
            0
        },
{
    lemma_div_shift(s + 3, 25, 4);
    lemma_div_shift(s + 99, 1, 100);
    lemma_div_carry(s + 399, 100, 400);
    lemma_div_shift(s - 1, 1, 400);
    lemma_mod_pred(s, 400);
}

/// Leap days over 4 years starting at `s`: none when the span holds a century
/// year that is not a multiple of 400.
proof fn lemma_leap_days_4(s: int)
    ensures
        leap_days_before(s + 4) == leap_days_before(s) + if s % 400 == 0 || s % 400 > 300 || (
        s % 400 - 1) % 100 < 96 {
            1int
        } else {
            0
        },
{
    lemma_div_shift(s + 3, 1, 4);
    lemma_div_carry(s + 99, 4, 100);
    lemma_div_shift(s - 1, 1, 100);
    lemma_mod_pred(s, 100);
    lemma_div_carry(s + 399, 4, 400);
    lemma_div_shift(s - 1, 1, 400);
    lemma_mod_pred(s, 400);
    lemma_div(s, 400);
    lemma_div(s, 100);
    lemma_div(s % 400 - 1, 100);
}

/// The leap-year rule repeats every 400 years.
pub proof fn lemma_leap_cycle(y: int, q: int)
    ensures
        is_leap(y + 400 * q) == is_leap(y),
{
    lemma_div_shift(y, 100 * q, 4);
    lemma_div_shift(y, 4 * q, 100);
    lemma_div_shift(y, q, 400);
}

/// Leap days over whole 400-year cycles: 97 per cycle.
pub proof fn lemma_leap_days_cycles(s: int, q: int)
    ensures
        leap_days_before(s + 400 * q) == leap_days_before(s) + 97 * q,
{
    lemma_div_shift(s + 3, 100 * q, 4);
    lemma_div_shift(s + 99, 4 * q, 100);
    lemma_div_shift(s + 399, q, 400);
}

/// Days between the same month of two years: 365 per year plus the leap
/// days of the Februaries in between.
proof fn lemma_anchor_span(y: int, m: int, k: int)
    requires
        1 <= m <= 12,
    ensures
        day_number(y + k, m, 1) - day_number(y, m, 1) == 365 * k + leap_days_before(
            feb_year(y, m) + k,
        ) - leap_days_before(feb_year(y, m)),
{
    reveal(day_number);
    lemma_year_step(y);
    lemma_year_step(y + k);
}

/// Whole 400-year cycles add 146097 days.
pub proof fn lemma_anchor_cycles(y: int, m: int, q: int)
    requires
        1 <= m <= 12,
    ensures
        day_number(y + 400 * q, m, 1) == day_number(y, m, 1) + 146097 * q,
{
    let s = feb_year(y, m);
    lemma_anchor_span(y, m, 400 * q);
    lemma_div_shift(s + 3, 100 * q, 4);
    lemma_div_shift(s + 99, 4 * q, 100);
    lemma_div_shift(s + 399, q, 400);
}

/// One year from month `m` of year `y` to the same month of the next year.
pub proof fn lemma_anchor_year(y: int, m: int)
    requires
        1 <= m <= 12,
    ensures
        day_number(y + 1, m, 1) == day_number(y, m, 1) + days_in_year(feb_year(y, m)),
{
    lemma_anchor_span(y, m, 1);
    lemma_year_step(feb_year(y, m));
}

/// A century from month `m` of year `y`.
pub proof fn lemma_anchor_century(y: int, m: int)
    requires
        1 <= m <= 12,
    ensures
        day_number(y + 100, m, 1) == day_number(y, m, 1) + 36524 + if feb_year(y, m) % 400 == 0
            || feb_year(y, m) % 400 > 300 {
            1int
        } else {
            0
        },
{
    lemma_anchor_span(y, m, 100);
    lemma_leap_days_100(feb_year(y, m));
}

/// Four years from month `m` of year `y`.
pub proof fn lemma_anchor_4years(y: int, m: int)
    requires
        1 <= m <= 12,
    ensures
        day_number(y + 4, m, 1) == day_number(y, m, 1) + 1460 + if feb_year(y, m) % 400 == 0
            || feb_year(y, m) % 400 > 300 || (feb_year(y, m) % 400 - 1) % 100 < 96 {
            1int
        } else {
            0
        },
{
    lemma_anchor_span(y, m, 4);
    lemma_leap_days_4(feb_year(y, m));
}

/// The first day of the next month follows the last day of this one.
pub proof fn lemma_month_step(y: int, m: int)
    requires
        1 <= m <= 12,
    ensures
        m < 12 ==> day_number(y, m + 1, 1) == day_number(y, m, 1) + days_in_month(y, m),
        m == 12 ==> day_number(y + 1, 1, 1) == day_number(y, m, 1) + 31,
{
    reveal(day_number);
    lemma_year_step(y);
}

/// A date lies `d - 1` days after the first of its month.
pub proof fn lemma_day_offset(y: int, m: int, d: int)
    ensures
        day_number(y, m, d) == day_number(y, m, 1) + d - 1,
{
    reveal(day_number);
}

/// Days before year `400 * era + yoe`, counted the way the era-based ordinal
/// counts them: from March 1 of the era's first year.
pub proof fn lemma_era_split(era: int, yoe: int)
    requires
        0 <= yoe < 400,
    ensures
        days_before_year(400 * era + yoe) + (if is_leap(yoe) {
            1int
        } else {
            0
        }) == 146097 * era + 365 * yoe + yoe / 4 - yoe / 100 + 1 - 719528,
        is_leap(400 * era + yoe) == is_leap(yoe),
{
    lemma_div_shift(yoe + 3, 100 * era, 4);
    lemma_div_shift(yoe + 99, 4 * era, 100);
    lemma_div_shift(yoe + 399, era, 400);
    lemma_leap_cycle(yoe, era);
    lemma_div_carry(yoe, 3, 4);
    lemma_div_carry(yoe, 99, 100);
    lemma_div_carry(yoe, 399, 400);
    lemma_div(yoe, 400);
}

/// Later years start later: at least 365 days per year.
pub proof fn lemma_year_mono(a: int, b: int)
    requires
        a <= b,
    ensures
        days_before_year(a) + 365 * (b - a) <= days_before_year(b),
    decreases b - a,
{
    if a < b {
        lemma_year_mono(a, b - 1);
        lemma_year_step(b - 1);
    }
}

/// A valid date falls inside its year.
pub proof fn lemma_date_in_year(y: int, m: int, d: int)
    requires
        valid_date(y, m, d),
    ensures
        days_before_year(y) <= day_number(y, m, d) < days_before_year(y + 1),
{
    reveal(day_number);
    lemma_year_step(y);
}

/// Distinct valid dates have distinct day numbers.
pub proof fn lemma_date_unique(y1: int, m1: int, d1: int, y2: int, m2: int, d2: int)
    requires
        valid_date(y1, m1, d1),
        valid_date(y2, m2, d2),
        day_number(y1, m1, d1) == day_number(y2, m2, d2),
    ensures
        y1 == y2,
        m1 == m2,
        d1 == d2,
{
    reveal(day_number);
    lemma_date_in_year(y1, m1, d1);
    lemma_date_in_year(y2, m2, d2);
    if y1 < y2 {
        lemma_year_mono(y1 + 1, y2);
    } else if y2 < y1 {
        lemma_year_mono(y2 + 1, y1);
    }
}

/// Every valid date of a representable year has a day number in range.
pub proof fn lemma_day_in_range(y: int, m: int, d: int)
    requires
        valid_date(y, m, d),
        i64::MIN <= y <= i64::MAX,
    ensures
        min_day() <= day_number(y, m, d) <= max_day(),
{
    reveal(day_number);
    lemma_date_in_year(y, m, d);
    lemma_year_step(y);
    lemma_year_step(i64::MAX as int);
    lemma_year_mono(i64::MIN as int, y);
    lemma_year_mono(y + 1, i64::MAX + 1);
}

/// Day `d` (up to 31) counted from the first of a month whose day number
/// lies in the representable range belongs to a representable year.
pub proof fn lemma_month_year_in_range(y: int, m: int, d: int)
    requires
        1 <= m <= 12,
        1 <= d <= 31,
        min_day() <= day_number(y, m, 1) + d - 1 <= max_day(),
    ensures
        i64::MIN <= y <= i64::MAX,
{
    reveal(day_number);
    lemma_year_step(y);
    lemma_year_step(i64::MAX as int);
    if y > i64::MAX {
        lemma_year_mono(i64::MAX + 1, y);
    }
    if y < i64::MIN {
        lemma_year_mono(y + 1, i64::MIN as int);
    }
}

/// Dates whose day numbers lie between those of the first and the last
/// representable day have a representable year.
pub proof fn lemma_year_in_range(y: int, m: int, d: int)
    requires
        valid_date(y, m, d),
        min_day() <= day_number(y, m, d) <= max_day(),
    ensures
        i64::MIN <= y <= i64::MAX,
{
    reveal(day_number);
    lemma_date_in_year(y, m, d);
    lemma_year_step(i64::MAX as int);
    if y > i64::MAX {
        lemma_year_mono(i64::MAX + 1, y);
    }
    if y < i64::MIN {
        lemma_year_mono(y + 1, i64::MIN as int);
    }
}

/// A number is a multiple of `d` exactly when its negation is.
proof fn lemma_neg_multiple(x: int, d: int)
    requires
        d > 0,
    ensures
        (x % d == 0) == ((-x) % d == 0),
{
    lemma_div(x, d);
    lemma_div(-x, d);
    if x % d == 0 {
        assert(-x == -(x / d) * d + 0) by (nonlinear_arith)
            requires
                x == d * (x / d),
        ;
        lemma_fundamental_div_mod_converse(-x, d, -(x / d), 0);
    }
    if (-x) % d == 0 {
        assert(x == -((-x) / d) * d + 0) by (nonlinear_arith)
            requires
                -x == d * ((-x) / d),
        ;
        lemma_fundamental_div_mod_converse(x, d, -((-x) / d), 0);
    }
}

/// Leap-year test.
pub fn is_leap_year(y: i64) -> (r: bool)
    ensures
        r == is_leap(y as int),
{
    proof {
        lemma_neg_multiple(y as int, 4);
        lemma_neg_multiple(y as int, 100);
        lemma_neg_multiple(y as int, 400);
    }
    y % 4 == 0 && (y % 100 != 0 || y % 400 == 0)
}

/// Position in the 400-year cycle of the year whose February follows month
/// `m` of year `y`.
pub(crate) fn year_index(y: i64, m: i8) -> (r: usize)
    requires
        y < i64::MAX,
    ensures
        r == feb_year(y as int, m as int) % 400,
        r < 400,
{
    let yi = (y + if m > 2 {
        1
    } else {
        0
    }) % 400;
    if yi < 0 {
        (yi + 400) as usize
    } else {
        yi as usize
    }
}

/// Days in the 100 years that start at cycle position `yi`.
pub(crate) fn days_per_century(yi: usize) -> (r: i64)
    requires
        yi < 400,
    ensures
        r == 36524 + if yi == 0 || yi > 300 {
            1int
        } else {
            0
        },
{
    36524 + if yi == 0 || yi > 300 {
        1
    } else {
        0
    }
}

/// Days in the 4 years that start at cycle position `yi`.
pub(crate) fn days_per_4years(yi: usize) -> (r: i64)
    requires
        yi < 400,
    ensures
        r == 1460 + if yi == 0 || yi > 300 || (yi - 1) % 100 < 96 {
            1int
        } else {
            0
        },
{
    1460 + if yi == 0 || yi > 300 || (yi - 1) % 100 < 96 {
        1
    } else {
        0
    }
}

/// Days from month `m` of year `y` to the same month of the next year.
pub(crate) fn days_per_year(y: i64, m: i8) -> (r: i64)
    requires
        y < i64::MAX,
    ensures
        r == days_in_year(feb_year(y as int, m as int)),
{
    let leap = is_leap_year(
        y + if m > 2 {
            1
        } else {
            0
        },
    );
    if leap {
        366
    } else {
        365
    }
}

/// Days in month `m` of year `y`.
pub(crate) fn days_per_month(y: i64, m: i8) -> (r: i64)
    requires
        1 <= m <= 12,
    ensures
        r == days_in_month(y as int, m as int),
{
    let non_leap_days: i64 = match m {
        2 => 28,
        4 | 6 | 9 | 11 => 30,
        _ => 31,
    };
    non_leap_days + if m == 2 && is_leap_year(y) {
        1
    } else {
        0
    }
}

} // verus!
