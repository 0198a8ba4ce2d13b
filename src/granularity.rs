//! The six alignments. Each one steps the field it is aligned to, measures
//! differences in its unit, and pins the finer fields to their minimum.
use crate::calendar::{
    day_number, days_before_year, lemma_anchor_cycles, lemma_day_offset, lemma_div_shift,
    lemma_era_split, lemma_leap_cycle, lemma_month_year_in_range, lemma_year_step, max_day, min_day,
    valid_date,
};
use crate::fields::{
    lemma_raw_day_in_month, second_in_range, DayType, DiffType, Fields, MonthType, YearType,
};
use vstd::prelude::*;

verus! {

/// Second alignment.
pub struct Second;

/// Minute alignment.
pub struct Minute;

/// Hour alignment.
pub struct Hour;

/// Day alignment.
pub struct Day;

/// Month alignment.
pub struct Month;

/// Year alignment.
pub struct Year;

/// The day number of the first of the month `mi` months after January of
/// year 0.
pub open spec fn month_start(mi: int) -> int {
    day_number(mi / 12, mi % 12 + 1, 1)
}

impl Second {
    /// Adds `n` seconds.
    pub fn step(f: Fields, n: DiffType) -> (r: Fields)
        requires
            f.wf(),
            second_in_range(f.second_index() + n),
        ensures
            r.wf(),
            r.second_index() == f.second_index() + n,
    {
        proof {
            lemma_raw_day_in_month(f.y as int, f.m as int, f.d as int);
            lemma_day_offset(f.y as int, f.m as int, f.d as int);
        }
        Fields::n_sec(
            f.y,
            f.m as DiffType,
            f.d as DiffType,
            f.hh as DiffType,
            f.mm as DiffType + n / 60,
            f.ss as DiffType + n % 60,
        )
    }

    /// Difference in seconds.
    pub fn difference(f1: Fields, f2: Fields) -> (r: DiffType)
        requires
            f1.wf(),
            f2.wf(),
            i64::MIN <= f1.second_index() - f2.second_index() <= i64::MAX,
        ensures
            r == f1.second_index() - f2.second_index(),
    {
        scale_add(Minute::difference(f1, f2), 60, (f1.ss - f2.ss) as DiffType)
    }

    /// Second alignment keeps every field.
    pub fn align(f: Fields) -> (r: Fields)
        ensures
            r == f,
    {
        f
    }
}

impl Minute {
    /// Adds `n` minutes, keeping the second.
    pub fn step(f: Fields, n: DiffType) -> (r: Fields)
        requires
            f.wf(),
            min_day() * 1440 <= f.minute_index() + n < (max_day() + 1) * 1440,
        ensures
            r.wf(),
            r.minute_index() == f.minute_index() + n,
            r.ss == f.ss,
    {
        proof {
            lemma_raw_day_in_month(f.y as int, f.m as int, f.d as int);
            lemma_day_offset(f.y as int, f.m as int, f.d as int);
        }
        Fields::n_min(
            f.y,
            f.m as DiffType,
            f.d as DiffType,
            f.hh as DiffType + n / 60,
            0,
            f.mm as DiffType + n % 60,
            f.ss,
        )
    }

    /// Difference in minutes.
    pub fn difference(f1: Fields, f2: Fields) -> (r: DiffType)
        requires
            f1.wf(),
            f2.wf(),
            i64::MIN <= f1.minute_index() - f2.minute_index() <= i64::MAX,
        ensures
            r == f1.minute_index() - f2.minute_index(),
    {
        scale_add(Hour::difference(f1, f2), 60, (f1.mm - f2.mm) as DiffType)
    }

    /// Pins the second to 0.
    pub fn align(f: Fields) -> (r: Fields)
        ensures
            r == (Fields { ss: 0, ..f }),
    {
        Fields { y: f.y, m: f.m, d: f.d, hh: f.hh, mm: f.mm, ss: 0 }
    }
}

impl Hour {
    /// Adds `n` hours, keeping minute and second.
    pub fn step(f: Fields, n: DiffType) -> (r: Fields)
        requires
            f.wf(),
            min_day() * 24 <= f.hour_index() + n < (max_day() + 1) * 24,
        ensures
            r.wf(),
            r.hour_index() == f.hour_index() + n,
            r.mm == f.mm,
            r.ss == f.ss,
    {
        let dq = n / 24;
        let hr = n % 24;
        proof {
            lemma_raw_day_in_month(f.y as int, f.m as int, f.d + dq);
            lemma_day_offset(f.y as int, f.m as int, f.d as int);
        }
        Fields::n_hour(
            f.y,
            f.m as DiffType,
            f.d as DiffType + dq,
            0,
            f.hh as DiffType + hr,
            f.mm,
            f.ss,
        )
    }

    /// Difference in hours.
    pub fn difference(f1: Fields, f2: Fields) -> (r: DiffType)
        requires
            f1.wf(),
            f2.wf(),
            i64::MIN <= f1.hour_index() - f2.hour_index() <= i64::MAX,
        ensures
            r == f1.hour_index() - f2.hour_index(),
    {
        scale_add(Day::difference(f1, f2), 24, (f1.hh - f2.hh) as DiffType)
    }

    /// Pins minute and second to 0.
    pub fn align(f: Fields) -> (r: Fields)
        ensures
            r == (Fields { mm: 0, ss: 0, ..f }),
    {
        Fields { y: f.y, m: f.m, d: f.d, hh: f.hh, mm: 0, ss: 0 }
    }
}

impl Day {
    /// Adds `n` days, keeping the time of day.
    pub fn step(f: Fields, n: DiffType) -> (r: Fields)
        requires
            f.wf(),
            min_day() <= f.day_index() + n <= max_day(),
        ensures
            r.wf(),
            r.day_index() == f.day_index() + n,
            r.hh == f.hh,
            r.mm == f.mm,
            r.ss == f.ss,
    {
        proof {
            lemma_day_offset(f.y as int, f.m as int, f.d as int);
        }
        Fields::n_day(f.y, f.m, f.d as DiffType, n, f.hh, f.mm, f.ss)
    }

    /// Difference in days.
    pub fn difference(f1: Fields, f2: Fields) -> (r: DiffType)
        requires
            f1.wf(),
            f2.wf(),
            i64::MIN <= f1.day_index() - f2.day_index() <= i64::MAX,
        ensures
            r == f1.day_index() - f2.day_index(),
    {
        day_difference(f1.y, f1.m, f1.d, f2.y, f2.m, f2.d)
    }

    /// Pins the time of day to midnight.
    pub fn align(f: Fields) -> (r: Fields)
        ensures
            r == (Fields { hh: 0, mm: 0, ss: 0, ..f }),
    {
        Fields { y: f.y, m: f.m, d: f.d, hh: 0, mm: 0, ss: 0 }
    }
}

impl Month {
    /// Adds `n` months, keeping the day offset and the time of day: the day
    /// `f.d - 1` days after the first of the month `n` months later.
    pub fn step(f: Fields, n: DiffType) -> (r: Fields)
        requires
            f.wf(),
            min_day() <= month_start(f.month_index() + n) + f.d - 1 <= max_day(),
        ensures
            r.wf(),
            r.day_index() == month_start(f.month_index() + n) + f.d - 1,
            r.hh == f.hh,
            r.mm == f.mm,
            r.ss == f.ss,
            f.d == 1 ==> r.month_index() == f.month_index() + n && r.d == 1,
    {
        let ghost mi = f.month_index() + n;
        let yq = n / 12;
        let mr = n % 12;
        proof {
            lemma_div_shift(f.m - 1 + mr, f.y + yq, 12);
            lemma_month_year_in_range(mi / 12, mi % 12 + 1, f.d as int);
            crate::calendar::lemma_div(f.m - 1 + mr, 12);
        }
        let r = Fields::n_mon(
            f.y + yq,
            f.m as DiffType + mr,
            f.d as DiffType,
            0,
            f.hh,
            f.mm,
            f.ss,
        );
        proof {
            if f.d == 1 {
                lemma_day_offset(r.y as int, r.m as int, r.d as int);
                crate::calendar::lemma_date_unique(
                    r.y as int,
                    r.m as int,
                    r.d as int,
                    mi / 12,
                    mi % 12 + 1,
                    1,
                );
                crate::calendar::lemma_div(mi, 12);
            }
        }
        r
    }

    /// Difference in months.
    pub fn difference(f1: Fields, f2: Fields) -> (r: DiffType)
        requires
            f1.wf(),
            f2.wf(),
            i64::MIN <= f1.month_index() - f2.month_index() <= i64::MAX,
        ensures
            r == f1.month_index() - f2.month_index(),
    {
        scale_add(Year::difference(f1, f2), 12, (f1.m - f2.m) as DiffType)
    }

    /// Pins the day to 1 and the time of day to midnight.
    pub fn align(f: Fields) -> (r: Fields)
        ensures
            r == (Fields { d: 1, hh: 0, mm: 0, ss: 0, ..f }),
    {
        Fields { y: f.y, m: f.m, d: 1, hh: 0, mm: 0, ss: 0 }
    }
}

impl Year {
    /// Adds `n` years; no other field changes.
    pub fn step(f: Fields, n: DiffType) -> (r: Fields)
        requires
            i64::MIN <= f.y + n <= i64::MAX,
        ensures
            r == (Fields { y: (f.y + n) as YearType, ..f }),
    {
        let mut f = f;
        f.y = f.y + n;
        f
    }

    /// Difference in years.
    pub fn difference(f1: Fields, f2: Fields) -> (r: DiffType)
        requires
            i64::MIN <= f1.y - f2.y <= i64::MAX,
        ensures
            r == f1.y - f2.y,
    {
        f1.y - f2.y
    }

    /// Pins month and day to 1 and the time of day to midnight.
    pub fn align(f: Fields) -> (r: Fields)
        ensures
            r == (Fields { m: 1, d: 1, hh: 0, mm: 0, ss: 0, ..f }),
    {
        Fields { y: f.y, m: 1, d: 1, hh: 0, mm: 0, ss: 0 }
    }
}

/// Returns `v * f + a`, reassociated so that no intermediate value leaves the
/// range of the result.
fn scale_add(v: DiffType, f: DiffType, a: DiffType) -> (r: DiffType)
    requires
        0 < f <= 60,
        -f < a < f,
        i64::MIN <= v * f + a <= i64::MAX,
    ensures
        r == v * f + a,
{
    proof {
        assert((v + 1) * f == v * f + f && (v - 1) * f == v * f - f) by (nonlinear_arith);
        assert(v < 0 ==> v * f <= -f) by (nonlinear_arith)
            requires
                0 < f,
        ;
        assert(v >= 0 ==> v * f >= 0) by (nonlinear_arith)
            requires
                0 < f,
        ;
    }
    if v < 0 {
        ((v + 1) * f + a) - f
    } else {
        ((v - 1) * f + a) + f
    }
}

/// Days from 1970-01-01 to a date whose year lies within one 400-year cycle
/// of year 0.
fn ymd_ord(y: YearType, m: MonthType, d: DayType) -> (r: DiffType)
    requires
        valid_date(y as int, m as int, d as int),
        -400 < y < 400,
    ensures
        r == day_number(y as int, m as int, d as int),
{
    let eyear = if m <= 2 {
        y - 1
    } else {
        y
    };
    let era = (if eyear >= 0 {
        eyear
    } else {
        eyear - 399
    }) / 400;
    let yoe = eyear - era * 400;
    let mp = (m + if m > 2 {
        -3
    } else {
        9
    }) as DiffType;
    let doy = (153 * mp + 2) / 5 + d as DiffType - 1;
    let doe = yoe * 365 + yoe / 4 - yoe / 100 + doy as DiffType;
    proof {
        reveal(day_number);
        assert(era == eyear / 400);
        assert(0 <= yoe < 400);
        lemma_era_split(era as int, yoe as int);
        lemma_year_step(eyear as int);
    }
    era * 146097 + doe - 719468
}

/// Difference in days between two dates, exact whenever the result fits,
/// even where a day number itself would not: the years are split into whole
/// 400-year cycles and a remainder.
fn day_difference(
    y1: YearType,
    m1: MonthType,
    d1: DayType,
    y2: YearType,
    m2: MonthType,
    d2: DayType,
) -> (r: DiffType)
    requires
        valid_date(y1 as int, m1 as int, d1 as int),
        valid_date(y2 as int, m2 as int, d2 as int),
        i64::MIN <= day_number(y1 as int, m1 as int, d1 as int) - day_number(
            y2 as int,
            m2 as int,
            d2 as int,
        ) <= i64::MAX,
    ensures
        r == day_number(y1 as int, m1 as int, d1 as int) - day_number(
            y2 as int,
            m2 as int,
            d2 as int,
        ),
{
    let a_c4_off = y1 % 400;
    let b_c4_off = y2 % 400;
    let ghost k1: int = (y1 - a_c4_off) / 400;
    let ghost k2: int = (y2 - b_c4_off) / 400;
    proof {
        assert(y1 - a_c4_off == 400 * k1);
        assert(y2 - b_c4_off == 400 * k2);
        lemma_leap_cycle(a_c4_off as int, k1);
        lemma_leap_cycle(b_c4_off as int, k2);
        lemma_anchor_cycles(a_c4_off as int, m1 as int, k1);
        lemma_anchor_cycles(b_c4_off as int, m2 as int, k2);
        lemma_day_offset(a_c4_off as int, m1 as int, d1 as int);
        lemma_day_offset(b_c4_off as int, m2 as int, d2 as int);
        lemma_day_offset(y1 as int, m1 as int, d1 as int);
        lemma_day_offset(y2 as int, m2 as int, d2 as int);
        lemma_cycle_offset_bounds(a_c4_off as int, m1 as int, d1 as int);
        lemma_cycle_offset_bounds(b_c4_off as int, m2 as int, d2 as int);
    }
    let mut c4_diff = (y1 - a_c4_off) - (y2 - b_c4_off);
    let mut delta = ymd_ord(a_c4_off, m1, d1) - ymd_ord(b_c4_off, m2, d2);
    if c4_diff > 0 && delta < 0 {
        delta = delta + 2 * 146097;
        c4_diff = c4_diff - 2 * 400;
    } else if c4_diff < 0 && delta > 0 {
        delta = delta - 2 * 146097;
        c4_diff = c4_diff + 2 * 400;
    }
    (c4_diff / 400 * 146097) + delta
}

/// Day numbers of dates within one cycle of year 0 stay within 800 years.
proof fn lemma_cycle_offset_bounds(y: int, m: int, d: int)
    requires
        valid_date(y, m, d),
        -400 < y < 400,
    ensures
        days_before_year(-399) <= day_number(y, m, d) < days_before_year(400),
        days_before_year(400) - days_before_year(-399) == 291828,
{
    crate::calendar::lemma_date_in_year(y, m, d);
    crate::calendar::lemma_year_mono(-399, y);
    crate::calendar::lemma_year_mono(y + 1, 400);
}

} // verus!
