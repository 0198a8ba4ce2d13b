//! Weekdays: the weekday of a date and the search for the next or previous
//! date that falls on a given weekday.
use crate::calendar::{
    day_number, days_before_month, is_leap, leap_days_before, lemma_day_number_formula, lemma_div, lemma_div_shift, lemma_leap_days_cycles, lemma_year_step, valid_date,
};
use crate::civil::{CivilDay, CivilSecond};
use crate::fields::{day_in_range, DiffType, YearType};
use vstd::prelude::*;

verus! {

/// A day of the week.
#[derive(Clone, Copy, PartialEq, Eq, Structural, Debug, Hash)]
pub enum Weekday {
    /// Monday.
    Mon,
    /// Tuesday.
    Tue,
    /// Wednesday.
    Wed,
    /// Thursday.
    Thu,
    /// Friday.
    Fri,
    /// Saturday.
    Sat,
    /// Sunday.
    Sun,
}

/// The weekday of day number `day` (1970-01-01 was a Thursday).
pub open spec fn weekday_of_day(day: int) -> Weekday {
    Weekday::from_index((day + 3) % 7)
}

/// Days from a day on weekday `from` forward to the next day on weekday
/// `to`: 1 to 7, and 7 when they are the same.
pub open spec fn days_forward(from: Weekday, to: Weekday) -> int {
    (to.index() - from.index() + 6) % 7 + 1
}

impl Weekday {
    /// Position in the week, Monday first.
    pub open spec fn index(self) -> int {
        match self {
            Weekday::Mon => 0,
            Weekday::Tue => 1,
            Weekday::Wed => 2,
            Weekday::Thu => 3,
            Weekday::Fri => 4,
            Weekday::Sat => 5,
            Weekday::Sun => 6,
        }
    }

    /// The weekday at position `i` (0..=6), Monday first.
    pub open spec fn from_index(i: int) -> Weekday {
        if i == 0 {
            Weekday::Mon
        } else if i == 1 {
            Weekday::Tue
        } else if i == 2 {
            Weekday::Wed
        } else if i == 3 {
            Weekday::Thu
        } else if i == 4 {
            Weekday::Fri
        } else if i == 5 {
            Weekday::Sat
        } else {
            Weekday::Sun
        }
    }

    /// The weekday of the date of `cs`, from a closed-form congruence over
    /// the year's position in its 400-year cycle.
    pub(crate) fn from_second(cs: CivilSecond) -> (r: Weekday)
        ensures
            r == weekday_of_day(cs@.day_index()),
    {
        proof {
            use_type_invariant(&cs);
        }
        let y = cs.year();
        let m = cs.month();
        let d = cs.day();
        let mut wd: YearType = 2400 + (y % 400) - if m < 3 {
            1
        } else {
            0
        };
        let ghost wd0 = wd;
        wd = wd + wd / 4 - wd / 100 + wd / 400;
        wd = wd + (weekday_offset(m) + d) as YearType;
        proof {
            lemma_weekday_congruence(y as int, m as int, d as int, wd0 as int);
            lemma_div(wd as int, 7);
            lemma_div_shift(wd % 7 + 6, wd / 7, 7);
        }
        let index = (wd % 7 + 6) as usize;
        week_forward(index)
    }

    /// Whether two weekdays are the same.
    pub fn equals(&self, other: Weekday) -> (r: bool)
        ensures
            r == (*self == other),
    {
        *self == other
    }
}

/// The congruence behind `Weekday::from_second`: the year is taken from
/// its position in the 400-year cycle, shifted to end in February.
proof fn lemma_weekday_congruence(y: int, m: int, d: int, wd0: int)
    requires
        valid_date(y, m, d),
        wd0 > 0,
        (wd0 - (y - if m < 3 {
            1int
        } else {
            0
        })) % 400 == 0,
    ensures
        (wd0 + wd0 / 4 - wd0 / 100 + wd0 / 400 + weekday_offset_spec(m) + d + 6) % 7 == (
        day_number(y, m, d) + 3) % 7,
{
    let y0 = y - if m < 3 {
        1int
    } else {
        0
    };
    let j = (wd0 - y0) / 400;
    lemma_div(wd0 - y0, 400);
    lemma_div_shift(wd0, 1, 4);
    lemma_div_shift(wd0, 1, 100);
    lemma_div_shift(wd0, 1, 400);
    lemma_leap_days_cycles(y0 + 1, j);
    let w1 = wd0 + wd0 / 4 - wd0 / 100 + wd0 / 400;
    assert(w1 == y0 + leap_days_before(y0 + 1) + 497 * j - 1);
    lemma_year_step(y);
    assert(leap_days_before(y0 + 1) == leap_days_before(y) + if m >= 3 && is_leap(y) {
        1int
    } else {
        0
    });
    lemma_day_number_formula(y, m, d);
    assert(days_before_month(y, m) == cum_days(m) + if m > 2 && is_leap(y) {
        1int
    } else {
        0
    });
    let dn = day_number(y, m, d);
    assert(7 * month_shift(m) == weekday_offset_spec(m) - cum_days(m) - (if m < 3 {
        1int
    } else {
        0
    }) + 719531);
    let t = 71 * j - 52 * y + month_shift(m);
    assert(w1 + weekday_offset_spec(m) + d + 3 - dn == 7 * t);
    lemma_div_shift(dn + 3, t, 7);
}

/// The month's constant term in the weekday congruence, divided by 7.
spec fn month_shift(m: int) -> int {
    if m == 1 {
        102790
    } else if m == 2 {
        102786
    } else if m == 3 {
        102782
    } else if m == 4 {
        102778
    } else if m == 5 {
        102773
    } else if m == 6 {
        102769
    } else if m == 7 {
        102765
    } else if m == 8 {
        102760
    } else if m == 9 {
        102756
    } else if m == 10 {
        102752
    } else if m == 11 {
        102747
    } else {
        102743
    }
}

/// Days in the months of a common year that precede month `m`.
spec fn cum_days(m: int) -> int {
    if m == 1 {
        0
    } else if m == 2 {
        31
    } else if m == 3 {
        59
    } else if m == 4 {
        90
    } else if m == 5 {
        120
    } else if m == 6 {
        151
    } else if m == 7 {
        181
    } else if m == 8 {
        212
    } else if m == 9 {
        243
    } else if m == 10 {
        273
    } else if m == 11 {
        304
    } else {
        334
    }
}

spec fn weekday_offset_spec(m: int) -> int {
    if m == 1 {
        0
    } else if m == 2 {
        3
    } else if m == 3 {
        2
    } else if m == 4 {
        5
    } else if m == 5 {
        0
    } else if m == 6 {
        3
    } else if m == 7 {
        5
    } else if m == 8 {
        1
    } else if m == 9 {
        4
    } else if m == 10 {
        6
    } else if m == 11 {
        2
    } else {
        4
    }
}

/// Weekday offset of month `m` in the congruence.
fn weekday_offset(m: i32) -> (r: i32)
    requires
        1 <= m <= 12,
    ensures
        r == weekday_offset_spec(m as int),
{
    match m {
        1 => 0,
        2 => 3,
        3 => 2,
        4 => 5,
        5 => 0,
        6 => 3,
        7 => 5,
        8 => 1,
        9 => 4,
        10 => 6,
        11 => 2,
        _ => 4,
    }
}

/// The weekday at position `i` of two weeks listed forward from Monday.
fn week_forward(i: usize) -> (r: Weekday)
    requires
        i < 14,
    ensures
        r == Weekday::from_index(i as int % 7),
{
    match i {
        0 | 7 => Weekday::Mon,
        1 | 8 => Weekday::Tue,
        2 | 9 => Weekday::Wed,
        3 | 10 => Weekday::Thu,
        4 | 11 => Weekday::Fri,
        5 | 12 => Weekday::Sat,
        _ => Weekday::Sun,
    }
}

/// The weekday at position `i` of two weeks listed backward from Sunday.
fn week_backward(i: usize) -> (r: Weekday)
    requires
        i < 14,
    ensures
        r == Weekday::from_index(6 - i as int % 7),
{
    match i {
        0 | 7 => Weekday::Sun,
        1 | 8 => Weekday::Sat,
        2 | 9 => Weekday::Fri,
        3 | 10 => Weekday::Thu,
        4 | 11 => Weekday::Wed,
        5 | 12 => Weekday::Tue,
        _ => Weekday::Mon,
    }
}

/// The weekday at position `k` is `wd` exactly when `k` is its index.
proof fn lemma_from_index(k: int, wd: Weekday)
    requires
        0 <= k < 7,
    ensures
        (Weekday::from_index(k) == wd) == (k == wd.index()),
{
}

/// The date strictly after `cd` that falls on weekday `wd`: find `cd`'s
/// weekday in two weeks listed forward, then scan on to `wd`.
pub(crate) fn next_weekday(cd: CivilDay, wd: Weekday) -> (r: CivilDay)
    requires
        day_in_range(cd@.day_index() + days_forward(weekday_of_day(cd@.day_index()), wd)),
    ensures
        r@.day_index() == cd@.day_index() + days_forward(weekday_of_day(cd@.day_index()), wd),
{
    let base = cd.weekday();
    let mut i: usize = 0;
    loop
        invariant
            i <= base.index(),
            base == weekday_of_day(cd@.day_index()),
            day_in_range(cd@.day_index() + days_forward(base, wd)),
        decreases 7 - i,
    {
        proof {
            lemma_from_index(i as int, base);
        }
        if base.equals(week_forward(i)) {
            let mut j: usize = i + 1;
            loop
                invariant
                    i + 1 <= j <= i + days_forward(base, wd),
                    i == base.index(),
                    base == weekday_of_day(cd@.day_index()),
                    day_in_range(cd@.day_index() + days_forward(base, wd)),
                decreases i + 7 - j,
            {
                proof {
                    lemma_div(j as int, 7);
                    lemma_from_index(j as int % 7, wd);
                }
                if wd.equals(week_forward(j)) {
                    return cd.add_diff((j - i) as DiffType);
                }
                j = j + 1;
            }
        }
        i = i + 1;
    }
}

/// The date strictly before `cd` that falls on weekday `wd`: find `cd`'s
/// weekday in two weeks listed backward, then scan on to `wd`.
pub(crate) fn prev_weekday(cd: CivilDay, wd: Weekday) -> (r: CivilDay)
    requires
        day_in_range(cd@.day_index() - days_forward(wd, weekday_of_day(cd@.day_index()))),
    ensures
        r@.day_index() == cd@.day_index() - days_forward(wd, weekday_of_day(cd@.day_index())),
{
    let base = cd.weekday();
    let mut i: usize = 0;
    loop
        invariant
            i <= 6 - base.index(),
            base == weekday_of_day(cd@.day_index()),
            day_in_range(cd@.day_index() - days_forward(wd, base)),
        decreases 7 - i,
    {
        proof {
            lemma_from_index(6 - i as int, base);
        }
        if base.equals(week_backward(i)) {
            let mut j: usize = i + 1;
            loop
                invariant
                    i + 1 <= j <= i + days_forward(wd, base),
                    i == 6 - base.index(),
                    base == weekday_of_day(cd@.day_index()),
                    day_in_range(cd@.day_index() - days_forward(wd, base)),
                decreases i + 7 - j,
            {
                proof {
                    lemma_div(j as int, 7);
                    lemma_from_index(6 - j as int % 7, wd);
                }
                if wd.equals(week_backward(j)) {
                    return cd.sub_diff((j - i) as DiffType);
                }
                j = j + 1;
            }
        }
        i = i + 1;
    }
}

} // verus!
