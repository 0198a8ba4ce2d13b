//! The canonical six-field record and the normalizer that builds it from
//! unconstrained integers, carrying seconds into minutes, hours, days,
//! months and years without avoidable intermediate overflow.
use crate::calendar::{
    day_number, days_in_month, days_per_4years, days_per_century, days_per_month, days_per_year,
    feb_year, lemma_anchor_4years, lemma_anchor_century, lemma_anchor_cycles, lemma_anchor_year,
    lemma_day_offset, lemma_div_carry, lemma_div_shift, lemma_leap_cycle, lemma_month_step, lemma_day_in_range, lemma_date_unique, lemma_year_in_range,
    max_day, min_day, valid_date, year_index,
};
use vstd::arithmetic::div_mod::lemma_fundamental_div_mod_converse;
use vstd::prelude::*;

verus! {

/// Years span at least the range of 64-bit time values.
pub type YearType = i64;

/// Signed amounts that are not normalized: constructor arguments and the
/// operands and results of addition, subtraction and difference.
pub type DiffType = i64;

/// Normalized month, 1..=12.
pub type MonthType = i8;

/// Normalized day, 1..=31.
pub type DayType = i8;

/// Normalized hour, 0..=23.
pub type HourType = i8;

/// Normalized minute, 0..=59.
pub type MinuteType = i8;

/// Normalized second, 0..=59.
pub type SecondType = i8;

/// Largest year carry that the day cascade accepts beside its year.
const MAX_YEAR_CARRY: i64 = 1_000_000_000_000_000_000;

/// Days in a 400-year Gregorian cycle.
const DAYS_PER_CYCLE: i64 = 146097;

/// Normalized civil-time fields: Y-M-D HH:MM:SS.
#[derive(Debug, Clone, Copy, PartialEq, Eq, Structural, PartialOrd, Ord, Hash)]
pub struct Fields {
    pub y: YearType,
    pub m: MonthType,
    pub d: DayType,
    pub hh: HourType,
    pub mm: MinuteType,
    pub ss: SecondType,
}

/// Day number of (y, m, d) where month and day may lie outside their
/// ranges: months carry into years, days count on from the first of the month.
pub open spec fn raw_day(y: int, m: int, d: int) -> int {
    day_number(y + (m - 1) / 12, (m - 1) % 12 + 1, 1) + d - 1
}

/// Seconds since 1970-01-01T00:00:00 of a day number and a time of day whose
/// parts may lie outside their ranges.
pub open spec fn seconds_of(day: int, hh: int, mm: int, ss: int) -> int {
    day * 86400 + hh * 3600 + mm * 60 + ss
}

/// Whether a second count falls within the representable years.
pub open spec fn second_in_range(s: int) -> bool {
    min_day() * 86400 <= s < (max_day() + 1) * 86400
}

/// With a month in range, `raw_day` counts days from the first of that month.
pub proof fn lemma_raw_day_in_month(y: int, m: int, d: int)
    requires
        1 <= m <= 12,
    ensures
        raw_day(y, m, d) == day_number(y, m, 1) + d - 1,
{
    lemma_fundamental_div_mod_converse(m - 1, 12, 0, m - 1);
}

/// Whether a minute count falls within the representable years.
pub open spec fn minute_in_range(i: int) -> bool {
    min_day() * 1440 <= i < (max_day() + 1) * 1440
}

/// Whether an hour count falls within the representable years.
pub open spec fn hour_in_range(i: int) -> bool {
    min_day() * 24 <= i < (max_day() + 1) * 24
}

/// Whether a day number falls within the representable years.
pub open spec fn day_in_range(i: int) -> bool {
    min_day() <= i <= max_day()
}

/// Whether a month count falls within the representable years.
pub open spec fn month_in_range(i: int) -> bool {
    i64::MIN * 12 <= i <= i64::MAX * 12 + 11
}

/// Whether a year is representable.
pub open spec fn year_in_range(i: int) -> bool {
    i64::MIN <= i <= i64::MAX
}

/// Valid fields lie within the representable range.
pub proof fn lemma_wf_in_range(f: Fields)
    requires
        f.wf(),
    ensures
        day_in_range(f.day_index()),
        hour_in_range(f.hour_index()),
        minute_in_range(f.minute_index()),
        second_in_range(f.second_index()),
        month_in_range(f.month_index()),
{
    lemma_day_in_range(f.y as int, f.m as int, f.d as int);
}

/// Valid fields are determined by their second count.
pub proof fn lemma_second_index_unique(f: Fields, g: Fields)
    requires
        f.wf(),
        g.wf(),
        f.second_index() == g.second_index(),
    ensures
        f == g,
{
    assert(f.day_index() == g.day_index() && f.hh == g.hh && f.mm == g.mm && f.ss == g.ss);
    lemma_date_unique(f.y as int, f.m as int, f.d as int, g.y as int, g.m as int, g.d as int);
}

/// Valid fields on the first of a month at midnight are determined by their
/// month count.
pub proof fn lemma_month_index_unique(f: Fields, g: Fields)
    requires
        f.wf(),
        g.wf(),
        f.d == 1 && f.hh == 0 && f.mm == 0 && f.ss == 0,
        g.d == 1 && g.hh == 0 && g.mm == 0 && g.ss == 0,
        f.month_index() == g.month_index(),
    ensures
        f == g,
{
}

/// Whether six integers already form valid fields.
pub open spec fn canonical(y: int, m: int, d: int, hh: int, mm: int, ss: int) -> bool {
    valid_date(y, m, d) && 0 <= hh < 24 && 0 <= mm < 60 && 0 <= ss < 60
}

/// Fields whose second count is that of canonical inputs are those inputs.
proof fn lemma_canonical_fields(r: Fields, y: i64, m: i64, d: i64, hh: i64, mm: i64, ss: i64)
    requires
        r.wf(),
        canonical(y as int, m as int, d as int, hh as int, mm as int, ss as int),
        r.second_index() == seconds_of(raw_day(y as int, m as int, d as int), hh as int, mm as int, ss as int),
    ensures
        r == (Fields { y, m: m as MonthType, d: d as DayType, hh: hh as HourType, mm: mm as MinuteType, ss: ss as SecondType }),
{
    let c = Fields { y, m: m as MonthType, d: d as DayType, hh: hh as HourType, mm: mm as MinuteType, ss: ss as SecondType };
    lemma_raw_day_in_month(y as int, m as int, d as int);
    lemma_day_offset(y as int, m as int, d as int);
    lemma_second_index_unique(r, c);
}

impl Fields {
    /// The fields form a valid Gregorian date and time of day.
    pub open spec fn wf(self) -> bool {
        &&& valid_date(self.y as int, self.m as int, self.d as int)
        &&& 0 <= self.hh < 24
        &&& 0 <= self.mm < 60
        &&& 0 <= self.ss < 60
    }

    /// Days since 1970-01-01.
    pub open spec fn day_index(self) -> int {
        day_number(self.y as int, self.m as int, self.d as int)
    }

    /// Hours since 1970-01-01T00.
    pub open spec fn hour_index(self) -> int {
        self.day_index() * 24 + self.hh
    }

    /// Minutes since 1970-01-01T00:00.
    pub open spec fn minute_index(self) -> int {
        self.hour_index() * 60 + self.mm
    }

    /// Seconds since 1970-01-01T00:00:00.
    pub open spec fn second_index(self) -> int {
        self.minute_index() * 60 + self.ss
    }

    /// Months since January of year 0.
    pub open spec fn month_index(self) -> int {
        self.y * 12 + self.m - 1
    }

    /// The day cascade: the date `d - 1 + cd + ch` days after the first of
    /// month `m` of year `y + yc`. Each day amount is first reduced modulo the
    /// 400-year cycle, then whole centuries, 4-year spans, years and months
    /// are consumed.
    #[verifier::rlimit(100)]
    fn n_day_from(
        y: YearType,
        yc: i64,
        m: MonthType,
        d: DiffType,
        cd: DiffType,
        ch: DiffType,
        hh: HourType,
        mm: MinuteType,
        ss: SecondType,
    ) -> (r: Fields)
        requires
            1 <= m <= 12,
            0 <= hh < 24,
            0 <= mm < 60,
            0 <= ss < 60,
            -MAX_YEAR_CARRY <= yc <= MAX_YEAR_CARRY,
            min_day() <= day_number(y + yc, m as int, 1) + d - 1 + cd + ch <= max_day(),
        ensures
            r.wf(),
            r.day_index() == day_number(y + yc, m as int, 1) + d - 1 + cd + ch,
            r.hh == hh,
            r.mm == mm,
            r.ss == ss,
    {
        let ghost target = day_number(y + yc, m as int, 1) + d - 1 + cd + ch;
        let oey = y % 400;
        let ghost base: int = y - oey;
        let ghost k: int = base / 400;
        assert(base == 400 * k);
        let mut m = m;
        let mut ey: i64 = oey + yc;

        let q = cd / DAYS_PER_CYCLE;
        proof {
            lemma_anchor_cycles(base + ey, m as int, q as int);
        }
        ey = ey + q * 400;
        let mut cd = cd % DAYS_PER_CYCLE;
        if cd < 0 {
            proof {
                lemma_anchor_cycles(base + ey, m as int, -1);
            }
            ey = ey - 400;
            cd = cd + DAYS_PER_CYCLE;
        }
        let q = ch / DAYS_PER_CYCLE;
        proof {
            lemma_anchor_cycles(base + ey, m as int, q as int);
        }
        ey = ey + q * 400;
        let mut ch = ch % DAYS_PER_CYCLE;
        if ch < 0 {
            proof {
                lemma_anchor_cycles(base + ey, m as int, -1);
            }
            ey = ey - 400;
            ch = ch + DAYS_PER_CYCLE;
        }
        cd = cd + ch;
        if cd >= DAYS_PER_CYCLE {
            proof {
                lemma_anchor_cycles(base + ey, m as int, 1);
            }
            ey = ey + 400;
            cd = cd - DAYS_PER_CYCLE;
        }
        let q = d / DAYS_PER_CYCLE;
        proof {
            lemma_anchor_cycles(base + ey, m as int, q as int);
        }
        ey = ey + q * 400;
        let mut d = d % DAYS_PER_CYCLE + cd;
        assert(target == day_number(base + ey, m as int, 1) + d - 1);
        if d > 0 {
            if d > DAYS_PER_CYCLE {
                proof {
                    lemma_anchor_cycles(base + ey, m as int, 1);
                }
                ey = ey + 400;
                d = d - DAYS_PER_CYCLE;
            }
        } else {
            if d > -365 {
                // Stepping back into the previous year is common enough to
                // skip the century and 4-year chunks.
                ey = ey - 1;
                proof {
                    lemma_anchor_year(base + ey, m as int);
                    lemma_leap_cycle(feb_year(ey as int, m as int), k);
                }
                d = d + days_per_year(ey, m);
            } else {
                proof {
                    lemma_anchor_cycles(base + ey, m as int, -1);
                }
                ey = ey - 400;
                d = d + DAYS_PER_CYCLE;
            }
        }
        assert(1 <= d <= DAYS_PER_CYCLE);
        assert(target == day_number(base + ey, m as int, 1) + d - 1);
        Self::n_day_consume(y, oey, ey, m, d, hh, mm, ss)
    }

    /// The second half of the day cascade: `d` is in 1..=146097 and the date
    /// is `d - 1` days after the first of month `m` of year `y - oey + ey`,
    /// where `y - oey` is a multiple of 400.
    #[verifier::rlimit(100)]
    fn n_day_consume(
        y: YearType,
        oey: i64,
        ey: i64,
        m: MonthType,
        d: DiffType,
        hh: HourType,
        mm: MinuteType,
        ss: SecondType,
    ) -> (r: Fields)
        requires
            1 <= m <= 12,
            0 <= hh < 24,
            0 <= mm < 60,
            0 <= ss < 60,
            1 <= d <= DAYS_PER_CYCLE,
            -400 < oey < 400,
            (y - oey) % 400 == 0,
            -1_100_000_000_000_000_000 <= ey <= 1_100_000_000_000_000_000,
            min_day() <= day_number(y - oey + ey, m as int, 1) + d - 1 <= max_day(),
        ensures
            r.wf(),
            r.day_index() == day_number(y - oey + ey, m as int, 1) + d - 1,
            r.hh == hh,
            r.mm == mm,
            r.ss == ss,
    {
        let ghost base: int = y - oey;
        let ghost target = day_number(base + ey, m as int, 1) + d - 1;
        let ghost k: int = base / 400;
        assert(base == 400 * k);
        let mut m = m;
        let mut ey = ey;
        let mut d = d;
        let ghost ey1 = ey;
        if d > 365 {
            let mut yi = year_index(ey, m);
            proof {
                lemma_div_shift(feb_year(ey as int, m as int), k, 400);
            }
            loop
                invariant
                    1 <= m <= 12,
                    1 <= d <= DAYS_PER_CYCLE,
                    ey1 <= ey <= ey1 + (DAYS_PER_CYCLE - d),
                    -1_100_000_000_000_000_000 <= ey1 <= 1_100_000_000_000_000_000,
                    yi == feb_year(base + ey, m as int) % 400,
                    base == 400 * k,
                    target == day_number(base + ey, m as int, 1) + d - 1,
                ensures
                    1 <= d <= DAYS_PER_CYCLE,
                    ey1 <= ey <= ey1 + (DAYS_PER_CYCLE - d),
                    yi == feb_year(base + ey, m as int) % 400,
                    target == day_number(base + ey, m as int, 1) + d - 1,
                decreases d,
            {
                let n = days_per_century(yi);
                if d <= n {
                    break;
                }
                proof {
                    lemma_anchor_century(base + ey, m as int);
                    lemma_div_carry(feb_year(base + ey, m as int), 100, 400);
                }
                d = d - n;
                ey = ey + 100;
                yi = yi + 100;
                if yi >= 400 {
                    yi = yi - 400;
                }
            }
            loop
                invariant
                    1 <= m <= 12,
                    1 <= d <= DAYS_PER_CYCLE,
                    ey1 <= ey <= ey1 + (DAYS_PER_CYCLE - d),
                    -1_100_000_000_000_000_000 <= ey1 <= 1_100_000_000_000_000_000,
                    yi == feb_year(base + ey, m as int) % 400,
                    base == 400 * k,
                    target == day_number(base + ey, m as int, 1) + d - 1,
                ensures
                    1 <= d <= DAYS_PER_CYCLE,
                    ey1 <= ey <= ey1 + (DAYS_PER_CYCLE - d),
                    target == day_number(base + ey, m as int, 1) + d - 1,
                decreases d,
            {
                let n = days_per_4years(yi);
                if d <= n {
                    break;
                }
                proof {
                    lemma_anchor_4years(base + ey, m as int);
                    lemma_div_carry(feb_year(base + ey, m as int), 4, 400);
                }
                d = d - n;
                ey = ey + 4;
                yi = yi + 4;
                if yi >= 400 {
                    yi = yi - 400;
                }
            }
            loop
                invariant
                    1 <= m <= 12,
                    1 <= d <= DAYS_PER_CYCLE,
                    ey1 <= ey <= ey1 + (DAYS_PER_CYCLE - d),
                    -1_100_000_000_000_000_000 <= ey1 <= 1_100_000_000_000_000_000,
                    base == 400 * k,
                    target == day_number(base + ey, m as int, 1) + d - 1,
                ensures
                    1 <= d <= DAYS_PER_CYCLE,
                    ey1 <= ey <= ey1 + (DAYS_PER_CYCLE - d),
                    target == day_number(base + ey, m as int, 1) + d - 1,
                decreases d,
            {
                let n = days_per_year(ey, m);
                proof {
                    lemma_anchor_year(base + ey, m as int);
                    lemma_leap_cycle(feb_year(ey as int, m as int), k);
                }
                if d <= n {
                    break;
                }
                d = d - n;
                ey = ey + 1;
            }
        }
        loop
            invariant
                1 <= m <= 12,
                1 <= d <= DAYS_PER_CYCLE,
                ey1 <= ey <= ey1 + (DAYS_PER_CYCLE - d),
                -1_100_000_000_000_000_000 <= ey1 <= 1_100_000_000_000_000_000,
                base == 400 * k,
                target == day_number(base + ey, m as int, 1) + d - 1,
            ensures
                1 <= m <= 12,
                1 <= d <= days_in_month(base + ey, m as int),
                ey1 <= ey <= ey1 + DAYS_PER_CYCLE,
                target == day_number(base + ey, m as int, 1) + d - 1,
            decreases d,
        {
            let n = days_per_month(ey, m);
            proof {
                lemma_month_step(base + ey, m as int);
                lemma_leap_cycle(ey as int, k);
            }
            if d <= n {
                break;
            }
            d = d - n;
            m = m + 1;
            if m > 12 {
                ey = ey + 1;
                m = 1;
            }
        }
        proof {
            lemma_day_offset(base + ey, m as int, d as int);
            lemma_year_in_range(base + ey, m as int, d as int);
        }
        Fields { y: y + (ey - oey), m, d: d as DayType, hh, mm, ss }
    }

    /// Normalizes the date `d - 1 + cd` days after the first of month `m`
    /// (already in 1..=12) of year `y`, keeping the time of day.
    pub fn n_day(
        y: YearType,
        m: MonthType,
        d: DiffType,
        cd: DiffType,
        hh: HourType,
        mm: MinuteType,
        ss: SecondType,
    ) -> (r: Fields)
        requires
            1 <= m <= 12,
            0 <= hh < 24,
            0 <= mm < 60,
            0 <= ss < 60,
            min_day() <= day_number(y as int, m as int, 1) + d - 1 + cd <= max_day(),
        ensures
            r.wf(),
            r.day_index() == day_number(y as int, m as int, 1) + d - 1 + cd,
            r.hh == hh,
            r.mm == mm,
            r.ss == ss,
    {
        Self::n_day_from(y, 0, m, d, cd, 0, hh, mm, ss)
    }

    /// Normalizes month `m` (any value, carried into the year) and the day
    /// `d - 1 + cd + ch` days after its first.
    fn n_mon_carry(
        y: YearType,
        m: DiffType,
        d: DiffType,
        cd: DiffType,
        ch: DiffType,
        hh: HourType,
        mm: MinuteType,
        ss: SecondType,
    ) -> (r: Fields)
        requires
            0 <= hh < 24,
            0 <= mm < 60,
            0 <= ss < 60,
            min_day() <= raw_day(y as int, m as int, d as int) + cd + ch <= max_day(),
        ensures
            r.wf(),
            r.day_index() == raw_day(y as int, m as int, d as int) + cd + ch,
            r.hh == hh,
            r.mm == mm,
            r.ss == ss,
    {
        let mut yc: i64 = 0;
        let mut mon = m;
        if mon != 12 {
            yc = mon / 12;
            mon = mon % 12;
            if mon <= 0 {
                yc = yc - 1;
                mon = mon + 12;
            }
        }
        proof {
            lemma_fundamental_div_mod_converse(m - 1, 12, yc as int, mon - 1);
        }
        Self::n_day_from(y, yc, mon as MonthType, d, cd, ch, hh, mm, ss)
    }

    /// Normalizes month `m` (any value, carried into the year) and the day
    /// `d - 1 + cd` days after its first, keeping the time of day.
    pub fn n_mon(
        y: YearType,
        m: DiffType,
        d: DiffType,
        cd: DiffType,
        hh: HourType,
        mm: MinuteType,
        ss: SecondType,
    ) -> (r: Fields)
        requires
            0 <= hh < 24,
            0 <= mm < 60,
            0 <= ss < 60,
            min_day() <= raw_day(y as int, m as int, d as int) + cd <= max_day(),
        ensures
            r.wf(),
            r.day_index() == raw_day(y as int, m as int, d as int) + cd,
            r.hh == hh,
            r.mm == mm,
            r.ss == ss,
    {
        Self::n_mon_carry(y, m, d, cd, 0, hh, mm, ss)
    }

    /// Normalizes hour `hh` (any value, carried into the days) on the day
    /// `d - 1 + cd` days after the first of month `m` of year `y`.
    pub fn n_hour(
        y: YearType,
        m: DiffType,
        d: DiffType,
        cd: DiffType,
        hh: DiffType,
        mm: MinuteType,
        ss: SecondType,
    ) -> (r: Fields)
        requires
            0 <= mm < 60,
            0 <= ss < 60,
            min_day() * 24 <= (raw_day(y as int, m as int, d as int) + cd) * 24 + hh < (max_day()
                + 1) * 24,
        ensures
            r.wf(),
            r.hour_index() == (raw_day(y as int, m as int, d as int) + cd) * 24 + hh,
            r.mm == mm,
            r.ss == ss,
    {
        let mut ch = hh / 24;
        let mut hh = hh % 24;
        if hh < 0 {
            ch = ch - 1;
            hh = hh + 24;
        }
        Self::n_mon_carry(y, m, d, cd, ch, hh as HourType, mm, ss)
    }

    /// Normalizes minute `mm` (any value) in hour `hh + ch` on day `d` of
    /// month `m` of year `y`, carrying into hours and days.
    pub fn n_min(
        y: YearType,
        m: DiffType,
        d: DiffType,
        hh: DiffType,
        ch: DiffType,
        mm: DiffType,
        ss: SecondType,
    ) -> (r: Fields)
        requires
            0 <= ss < 60,
            min_day() * 1440 <= raw_day(y as int, m as int, d as int) * 1440 + (hh + ch) * 60 + mm
                < (max_day() + 1) * 1440,
        ensures
            r.wf(),
            r.minute_index() == raw_day(y as int, m as int, d as int) * 1440 + (hh + ch) * 60 + mm,
            r.ss == ss,
    {
        let mut mc = mm / 60;
        let mut mm = mm % 60;
        if mm < 0 {
            mc = mc - 1;
            mm = mm + 60;
        }
        Self::n_hour(
            y,
            m,
            d,
            hh / 24 + ch / 24 + mc / 24,
            hh % 24 + ch % 24 + mc % 24,
            mm as MinuteType,
            ss,
        )
    }

    /// Normalizes year, month, day, hour, minute and second, each of any
    /// value, into canonical fields for the same instant.
    pub fn n_sec(y: YearType, m: DiffType, d: DiffType, hh: DiffType, mm: DiffType, ss: DiffType) -> (r:
        Fields)
        requires
            second_in_range(seconds_of(raw_day(y as int, m as int, d as int), hh as int, mm as int, ss as int)),
        ensures
            r.wf(),
            r.second_index() == seconds_of(raw_day(y as int, m as int, d as int), hh as int, mm as int, ss as int),
            canonical(y as int, m as int, d as int, hh as int, mm as int, ss as int) ==> r == (Fields {
                y,
                m: m as MonthType,
                d: d as DayType,
                hh: hh as HourType,
                mm: mm as MinuteType,
                ss: ss as SecondType,
            }),
    {
        // Fields that are already normalized skip the cascade.
        if 0 <= ss && ss < 60 {
            let nss = ss as SecondType;
            if 0 <= mm && mm < 60 {
                let nmm = mm as MinuteType;
                if 0 <= hh && hh < 24 {
                    let nhh = hh as HourType;
                    if 1 <= d && d <= 28 && 1 <= m && m <= 12 {
                        proof {
                            lemma_fundamental_div_mod_converse(m - 1, 12, 0, m - 1);
                            lemma_day_offset(y as int, m as int, d as int);
                        }
                        return Fields { y, m: m as MonthType, d: d as DayType, hh: nhh, mm: nmm, ss: nss };
                    }
                    let r = Self::n_mon(y, m, d, 0, nhh, nmm, nss);
                    proof {
                        if canonical(y as int, m as int, d as int, hh as int, mm as int, ss as int) {
                            lemma_canonical_fields(r, y, m, d, hh, mm, ss);
                        }
                    }
                    return r;
                }
                return Self::n_hour(y, m, d, hh / 24, hh % 24, nmm, nss);
            }
            return Self::n_min(y, m, d, hh, mm / 60, mm % 60, nss);
        }
        let mut cm = ss / 60;
        let mut ss = ss % 60;
        if ss < 0 {
            cm = cm - 1;
            ss = ss + 60;
        }
        Self::n_min(y, m, d, hh, mm / 60 + cm / 60, mm % 60 + cm % 60, ss as SecondType)
    }
}

} // verus!
