//! The six civil-time types. Each wraps canonical fields aligned to its
//! unit; construction always normalizes, and arithmetic steps the unit the
//! type is aligned to.
use crate::calendar::{
    day_number, lemma_date_in_year, lemma_day_in_range, lemma_day_offset, lemma_div,
    lemma_div_shift, lemma_epoch, lemma_month_step, lemma_year_mono, lemma_year_step,
};
use crate::fields::{
    day_in_range, hour_in_range, lemma_month_index_unique, lemma_raw_day_in_month,
    lemma_second_index_unique, lemma_wf_in_range, minute_in_range, month_in_range, raw_day,
    second_in_range, seconds_of, year_in_range, DiffType, Fields, YearType,
};
use crate::granularity::{month_start, Day, Hour, Minute, Month, Second, Year};
use crate::weekday::{days_forward, next_weekday, prev_weekday, weekday_of_day, Weekday};
use vstd::arithmetic::div_mod::lemma_fundamental_div_mod_converse;
use vstd::prelude::*;

verus! {

/// Access to the canonical fields shared by the six civil-time types.
pub trait CivilTime: View<V = Fields> + Sized {
    /// The canonical fields.
    fn fields(&self) -> (r: Fields)
        ensures
            r == self@,
    ;
}

/// Construction of a civil-time type from year, month, day, hour, minute and
/// second, each of any value.
pub trait BuildCivilTime: Sized {
    /// Whether the period this value stands for (one unit of its alignment)
    /// contains second `s`, counted from 1970-01-01T00:00:00.
    spec fn spans_second(&self, s: int) -> bool;

    /// Builds the value whose period contains the normalized instant.
    fn build_from_ymd_hms(
        y: YearType,
        m: DiffType,
        d: DiffType,
        hh: DiffType,
        mm: DiffType,
        ss: DiffType,
    ) -> (r: Self)
        requires
            second_in_range(seconds_of(raw_day(y as int, m as int, d as int), hh as int, mm as int, ss as int)),
        ensures
            r.spans_second(seconds_of(raw_day(y as int, m as int, d as int), hh as int, mm as int, ss as int)),
    ;
}

/// The first day of month `mi` lies before that of any later month.
pub proof fn lemma_month_start_mono(a: int, b: int)
    requires
        a < b,
    ensures
        month_start(a) < month_start(b),
{
    lemma_div(a, 12);
    lemma_div(b, 12);
    let (ya, ma) = (a / 12, a % 12 + 1);
    let (yb, mb) = (b / 12, b % 12 + 1);
    lemma_date_in_year(ya, ma, 1);
    lemma_date_in_year(yb, mb, 1);
    if ya < yb {
        lemma_year_mono(ya + 1, yb);
    } else {
        reveal(day_number);
    }
}

/// The first day of a representable month has a representable day number.
pub proof fn lemma_month_start_in_range(mi: int)
    requires
        month_in_range(mi),
    ensures
        day_in_range(month_start(mi)),
{
    lemma_div(mi, 12);
    lemma_day_in_range(mi / 12, mi % 12 + 1, 1);
}

/// Valid fields lie within the month they name, and within their year.
pub proof fn lemma_fields_in_month(f: Fields)
    requires
        f.wf(),
    ensures
        month_start(f.month_index()) <= f.day_index() < month_start(f.month_index() + 1),
        day_number(f.y as int, 1, 1) <= f.day_index() < day_number(f.y + 1, 1, 1),
        month_start(f.month_index()) == day_number(f.y as int, f.m as int, 1),
{
    lemma_div_shift(f.m - 1, f.y as int, 12);
    lemma_div_shift(f.m as int, f.y as int, 12);
    lemma_month_step(f.y as int, f.m as int);
    lemma_day_offset(f.y as int, f.m as int, f.d as int);
    lemma_date_in_year(f.y as int, f.m as int, f.d as int);
    reveal(day_number);
}

/// Exactly one month contains a given day.
pub proof fn lemma_month_containing(a: int, b: int, x: int)
    requires
        month_start(a) <= x < month_start(a + 1),
        month_start(b) <= x < month_start(b + 1),
    ensures
        a == b,
{
    if a < b {
        if a + 1 < b {
            lemma_month_start_mono(a + 1, b);
        }
    } else if b < a {
        if b + 1 < a {
            lemma_month_start_mono(b + 1, a);
        }
    }
}

/// Exactly one year contains a given day.
pub proof fn lemma_year_containing(a: int, b: int, x: int)
    requires
        day_number(a, 1, 1) <= x < day_number(a + 1, 1, 1),
        day_number(b, 1, 1) <= x < day_number(b + 1, 1, 1),
    ensures
        a == b,
{
    reveal(day_number);
    if a < b {
        lemma_year_mono(a + 1, b);
    } else if b < a {
        lemma_year_mono(b + 1, a);
    }
}

/// Day of the year of valid fields.
fn get_yearday(cs: CivilSecond) -> (r: i32)
    ensures
        r == cs@.day_index() - day_number(cs@.y as int, 1, 1) + 1,
{
    proof {
        use_type_invariant(&cs);
    }
    let m = cs.month();
    let month_offset: i32 = match m {
        1 => 0,
        2 => 31,
        3 => 59,
        4 => 90,
        5 => 120,
        6 => 151,
        7 => 181,
        8 => 212,
        9 => 243,
        10 => 273,
        11 => 304,
        _ => 334,
    };
    let feb29 = if m > 2 && crate::calendar::is_leap_year(cs.year()) {
        1
    } else {
        0
    };
    proof {
        reveal(day_number);
    }
    month_offset + feb29 + cs.day()
}

/// Civil time aligned to the second: every finer field sits at its minimum.
#[derive(Clone, Copy, Debug, Eq, Ord, Hash)]
pub struct CivilSecond(Fields);

impl View for CivilSecond {
    type V = Fields;

    closed spec fn view(&self) -> Fields {
        self.0
    }
}

/// Fields aligned to the second.
pub open spec fn align_second(f: Fields) -> Fields {
    f
}

impl CivilTime for CivilSecond {
    fn fields(&self) -> (r: Fields) {
        self.0
    }
}

impl BuildCivilTime for CivilSecond {
    open spec fn spans_second(&self, s: int) -> bool {
        self@.second_index() == s
    }

    fn build_from_ymd_hms(
        y: YearType,
        m: DiffType,
        d: DiffType,
        hh: DiffType,
        mm: DiffType,
        ss: DiffType,
    ) -> (r: Self) {
        Self::from_ymd_hms(y, m, d, hh, mm, ss)
    }
}

impl CivilSecond {
    /// Valid fields aligned to the second.
    #[verifier::type_invariant]
    pub open spec fn wf(self) -> bool {
        let f = self@;
        f.wf() && true
    }

    /// Values are determined by their fields.
    pub proof fn lemma_view_injective(a: Self, b: Self)
        requires
            a@ == b@,
        ensures
            a == b,
    {
    }

    /// Valid values are determined by their count of units.
    pub proof fn lemma_unique(a: Self, b: Self)
        requires
            a.wf(),
            b.wf(),
            a@.second_index() == b@.second_index(),
        ensures
            a == b,
    {
        lemma_second_index_unique(a@, b@);
    }

    /// Builds a value from canonical fields, aligning them.
    pub(crate) fn from_fields(fields: Fields) -> (r: Self)
        requires
            fields.wf(),
        ensures
            r@ == align_second(fields),
    {
        CivilSecond(Second::align(fields))
    }

    /// Normalizes the six fields and aligns the result.
    pub(crate) fn from_ymd_hms(
        y: YearType,
        m: DiffType,
        d: DiffType,
        hh: DiffType,
        mm: DiffType,
        ss: DiffType,
    ) -> (r: Self)
        requires
            second_in_range(seconds_of(raw_day(y as int, m as int, d as int), hh as int, mm as int, ss as int)),
        ensures
            r.spans_second(seconds_of(raw_day(y as int, m as int, d as int), hh as int, mm as int, ss as int)),
    {
        let fields = Fields::n_sec(y, m, d, hh, mm, ss);
        proof {
            let s = seconds_of(raw_day(y as int, m as int, d as int), hh as int, mm as int, ss as int);
            lemma_fields_in_month(fields);
            lemma_fundamental_div_mod_converse(s, 86400, fields.day_index(), fields.hh * 3600 + fields.mm * 60 + fields.ss);
        }
        Self::from_fields(fields)
    }

    /// Constructs the value from year `y` through hour `hh`, minute `mm` and second `ss`, each of any
    /// value; out-of-range fields carry into coarser ones.
    pub fn new(y: YearType, m: DiffType, d: DiffType, hh: DiffType, mm: DiffType, ss: DiffType) -> (r: Self)
        requires
            second_in_range(seconds_of(raw_day(y as int, m as int, d as int), hh as int, mm as int, ss as int)),
        ensures
            r@.second_index() == seconds_of(raw_day(y as int, m as int, d as int), hh as int, mm as int, ss as int),
    {
        proof {
        }
        let r = Self::from_ymd_hms(y, m, d, hh, mm, ss);
        proof {
            use_type_invariant(&r);
            lemma_fields_in_month(r@);
        }
        r
    }

    /// The year.
    pub fn year(&self) -> (r: YearType)
        ensures
            r == self@.y,
    {
        self.0.y
    }

    /// The month, 1..=12.
    pub fn month(&self) -> (r: i32)
        ensures
            r == self@.m,
    {
        self.0.m as i32
    }

    /// The day of the month, 1..=31.
    pub fn day(&self) -> (r: i32)
        ensures
            r == self@.d,
    {
        self.0.d as i32
    }

    /// The hour, 0..=23.
    pub fn hour(&self) -> (r: i32)
        ensures
            r == self@.hh,
    {
        self.0.hh as i32
    }

    /// The minute, 0..=59.
    pub fn minute(&self) -> (r: i32)
        ensures
            r == self@.mm,
    {
        self.0.mm as i32
    }

    /// The second, 0..=59.
    pub fn second(&self) -> (r: i32)
        ensures
            r == self@.ss,
    {
        self.0.ss as i32
    }

    /// The weekday of the date.
    pub fn weekday(&self) -> (r: Weekday)
        ensures
            r == weekday_of_day(self@.day_index()),
    {
        proof {
            use_type_invariant(self);
        }
        Weekday::from_second(CivilSecond::from_fields(self.0))
    }

    /// The day of the year, 1..=366.
    pub fn yearday(&self) -> (r: i32)
        ensures
            r == self@.day_index() - day_number(self@.y as int, 1, 1) + 1,
    {
        proof {
            use_type_invariant(self);
        }
        get_yearday(CivilSecond::from_fields(self.0))
    }

    /// Adds `n` seconds.
    pub fn add_diff(self, n: DiffType) -> (r: Self)
        requires
            second_in_range(self@.second_index() + n),
        ensures
            r@.second_index() == self@.second_index() + n,
    {
        proof {
            use_type_invariant(&self);
        }
        let fields = Second::step(self.0, n);
        Self::from_fields(fields)
    }

    /// Subtracts `n` seconds; the most negative `n` is taken in two steps,
    /// since it cannot be negated.
    pub fn sub_diff(self, n: DiffType) -> (r: Self)
        requires
            second_in_range(self@.second_index() - n),
        ensures
            r@.second_index() == self@.second_index() - n,
    {
        proof {
            use_type_invariant(&self);
            lemma_wf_in_range(self@);
        }
        let fields = if n != DiffType::MIN {
            Second::step(self.0, -n)
        } else {
            Second::step(Second::step(self.0, -(n + 1)), 1)
        };
        Self::from_fields(fields)
    }

    /// Difference in seconds.
    pub fn difference(self, other: Self) -> (r: DiffType)
        requires
            i64::MIN <= self@.second_index() - other@.second_index() <= i64::MAX,
        ensures
            r == self@.second_index() - other@.second_index(),
    {
        proof {
            use_type_invariant(&self);
            use_type_invariant(&other);
        }
        Second::difference(self.0, other.0)
    }

    /// The earliest representable value.
    pub fn min_value() -> (r: Self)
        ensures
            r@ == (Fields { y: YearType::MIN, m: 1, d: 1, hh: 0, mm: 0, ss: 0 }),
    {
        CivilSecond(Fields { y: YearType::MIN, m: 1, d: 1, hh: 0, mm: 0, ss: 0 })
    }

    /// The latest representable value.
    pub fn max_value() -> (r: Self)
        ensures
            r@ == (Fields { y: YearType::MAX, m: 12, d: 31, hh: 23, mm: 59, ss: 59 }),
    {
        CivilSecond(Fields { y: YearType::MAX, m: 12, d: 31, hh: 23, mm: 59, ss: 59 })
    }

    /// The day strictly after this one's date that falls on weekday `wd`.
    pub fn next_weekday(self, wd: Weekday) -> (r: CivilDay)
        requires
            day_in_range(self@.day_index() + days_forward(weekday_of_day(self@.day_index()), wd)),
        ensures
            r@.day_index() == self@.day_index() + days_forward(weekday_of_day(self@.day_index()), wd),
    {
        proof {
            use_type_invariant(&self);
        }
        let cd = CivilDay::from_fields(self.0);
        next_weekday(cd, wd)
    }

    /// The day strictly before this one's date that falls on weekday `wd`.
    pub fn prev_weekday(self, wd: Weekday) -> (r: CivilDay)
        requires
            day_in_range(self@.day_index() - days_forward(wd, weekday_of_day(self@.day_index()))),
        ensures
            r@.day_index() == self@.day_index() - days_forward(wd, weekday_of_day(self@.day_index())),
    {
        proof {
            use_type_invariant(&self);
        }
        let cd = CivilDay::from_fields(self.0);
        prev_weekday(cd, wd)
    }
}

impl core::ops::Add<DiffType> for CivilSecond {
    type Output = CivilSecond;

    fn add(self, n: DiffType) -> (r: CivilSecond) {
        let r = self.add_diff(n);
        proof {
            use_type_invariant(&r);
            let c = choose|c: CivilSecond| c.wf() && c@.second_index() == self@.second_index() + n;
            Self::lemma_unique(r, c);
        }
        r
    }
}

impl vstd::std_specs::ops::AddSpecImpl<DiffType> for CivilSecond {
    open spec fn obeys_add_spec() -> bool {
        true
    }

    open spec fn add_req(self, n: DiffType) -> bool {
        second_in_range(self@.second_index() + n)
    }

    open spec fn add_spec(self, n: DiffType) -> CivilSecond {
        choose|r: CivilSecond| r.wf() && r@.second_index() == self@.second_index() + n
    }
}

impl core::ops::Sub<DiffType> for CivilSecond {
    type Output = CivilSecond;

    fn sub(self, n: DiffType) -> (r: CivilSecond) {
        let r = self.sub_diff(n);
        proof {
            use_type_invariant(&r);
            let c = choose|c: CivilSecond| c.wf() && c@.second_index() == self@.second_index() - n;
            Self::lemma_unique(r, c);
        }
        r
    }
}

impl vstd::std_specs::ops::SubSpecImpl<DiffType> for CivilSecond {
    open spec fn obeys_sub_spec() -> bool {
        true
    }

    open spec fn sub_req(self, n: DiffType) -> bool {
        second_in_range(self@.second_index() - n)
    }

    open spec fn sub_spec(self, n: DiffType) -> CivilSecond {
        choose|r: CivilSecond| r.wf() && r@.second_index() == self@.second_index() - n
    }
}

impl core::ops::Sub<CivilSecond> for CivilSecond {
    type Output = DiffType;

    fn sub(self, other: CivilSecond) -> (r: DiffType) {
        self.difference(other)
    }
}

impl vstd::std_specs::ops::SubSpecImpl<CivilSecond> for CivilSecond {
    open spec fn obeys_sub_spec() -> bool {
        true
    }

    open spec fn sub_req(self, other: CivilSecond) -> bool {
        i64::MIN <= self@.second_index() - other@.second_index() <= i64::MAX
    }

    open spec fn sub_spec(self, other: CivilSecond) -> DiffType {
        (self@.second_index() - other@.second_index()) as DiffType
    }
}

impl Default for CivilSecond {
    /// 1970-01-01T00:00:00, aligned.
    fn default() -> (r: Self)
        ensures
            r@ == (Fields { y: 1970, m: 1, d: 1, hh: 0, mm: 0, ss: 0 }),
    {
        proof {
            lemma_epoch();
            lemma_raw_day_in_month(1970, 1, 1);
            lemma_day_in_range(1970, 1, 1);
        }
        let r = Builder::new().build_second();
        proof {
            use_type_invariant(&r);
            lemma_fields_in_month(r@);
            let e = Fields { y: 1970, m: 1, d: 1, hh: 0, mm: 0, ss: 0 };
            lemma_fields_in_month(e);
            lemma_second_index_unique(r@, e);
        }
        r
    }
}

/// Civil time aligned to the minute: every finer field sits at its minimum.
#[derive(Clone, Copy, Debug, Eq, Ord, Hash)]
pub struct CivilMinute(Fields);

impl View for CivilMinute {
    type V = Fields;

    closed spec fn view(&self) -> Fields {
        self.0
    }
}

/// Fields aligned to the minute.
pub open spec fn align_minute(f: Fields) -> Fields {
    Fields { ss: 0, ..f }
}

impl CivilTime for CivilMinute {
    fn fields(&self) -> (r: Fields) {
        self.0
    }
}

impl BuildCivilTime for CivilMinute {
    open spec fn spans_second(&self, s: int) -> bool {
        self@.minute_index() == s / 60
    }

    fn build_from_ymd_hms(
        y: YearType,
        m: DiffType,
        d: DiffType,
        hh: DiffType,
        mm: DiffType,
        ss: DiffType,
    ) -> (r: Self) {
        Self::from_ymd_hms(y, m, d, hh, mm, ss)
    }
}

impl CivilMinute {
    /// Valid fields aligned to the minute.
    #[verifier::type_invariant]
    pub open spec fn wf(self) -> bool {
        let f = self@;
        f.wf() && f.ss == 0
    }

    /// Values are determined by their fields.
    pub proof fn lemma_view_injective(a: Self, b: Self)
        requires
            a@ == b@,
        ensures
            a == b,
    {
    }

    /// Valid values are determined by their count of units.
    pub proof fn lemma_unique(a: Self, b: Self)
        requires
            a.wf(),
            b.wf(),
            a@.minute_index() == b@.minute_index(),
        ensures
            a == b,
    {
        lemma_second_index_unique(a@, b@);
    }

    /// Builds a value from canonical fields, aligning them.
    pub(crate) fn from_fields(fields: Fields) -> (r: Self)
        requires
            fields.wf(),
        ensures
            r@ == align_minute(fields),
    {
        CivilMinute(Minute::align(fields))
    }

    /// Normalizes the six fields and aligns the result.
    pub(crate) fn from_ymd_hms(
        y: YearType,
        m: DiffType,
        d: DiffType,
        hh: DiffType,
        mm: DiffType,
        ss: DiffType,
    ) -> (r: Self)
        requires
            second_in_range(seconds_of(raw_day(y as int, m as int, d as int), hh as int, mm as int, ss as int)),
        ensures
            r.spans_second(seconds_of(raw_day(y as int, m as int, d as int), hh as int, mm as int, ss as int)),
    {
        let fields = Fields::n_sec(y, m, d, hh, mm, ss);
        proof {
            let s = seconds_of(raw_day(y as int, m as int, d as int), hh as int, mm as int, ss as int);
            lemma_fields_in_month(fields);
            lemma_fundamental_div_mod_converse(s, 86400, fields.day_index(), fields.hh * 3600 + fields.mm * 60 + fields.ss);
            lemma_fundamental_div_mod_converse(s, 60, fields.minute_index(), fields.ss as int);
        }
        Self::from_fields(fields)
    }

    /// Constructs the value from year `y` through hour `hh` and minute `mm`, each of any
    /// value; out-of-range fields carry into coarser ones.
    pub fn new(y: YearType, m: DiffType, d: DiffType, hh: DiffType, mm: DiffType) -> (r: Self)
        requires
            minute_in_range(raw_day(y as int, m as int, d as int) * 1440 + hh * 60 + mm),
        ensures
            r@.minute_index() == raw_day(y as int, m as int, d as int) * 1440 + hh * 60 + mm,
    {
        proof {
            assert(seconds_of(raw_day(y as int, m as int, d as int), hh as int, mm as int, 0) == 0 + (raw_day(y as int, m as int, d as int) * 1440 + hh * 60 + mm) * 60);
            lemma_div_shift(0, raw_day(y as int, m as int, d as int) * 1440 + hh * 60 + mm, 60);
        }
        let r = Self::from_ymd_hms(y, m, d, hh, mm, 0);
        proof {
            use_type_invariant(&r);
            lemma_fields_in_month(r@);
        }
        r
    }

    /// The year.
    pub fn year(&self) -> (r: YearType)
        ensures
            r == self@.y,
    {
        self.0.y
    }

    /// The month, 1..=12.
    pub fn month(&self) -> (r: i32)
        ensures
            r == self@.m,
    {
        self.0.m as i32
    }

    /// The day of the month, 1..=31.
    pub fn day(&self) -> (r: i32)
        ensures
            r == self@.d,
    {
        self.0.d as i32
    }

    /// The hour, 0..=23.
    pub fn hour(&self) -> (r: i32)
        ensures
            r == self@.hh,
    {
        self.0.hh as i32
    }

    /// The minute, 0..=59.
    pub fn minute(&self) -> (r: i32)
        ensures
            r == self@.mm,
    {
        self.0.mm as i32
    }

    /// The second, 0..=59.
    pub fn second(&self) -> (r: i32)
        ensures
            r == self@.ss,
    {
        self.0.ss as i32
    }

    /// The weekday of the date.
    pub fn weekday(&self) -> (r: Weekday)
        ensures
            r == weekday_of_day(self@.day_index()),
    {
        proof {
            use_type_invariant(self);
        }
        Weekday::from_second(CivilSecond::from_fields(self.0))
    }

    /// The day of the year, 1..=366.
    pub fn yearday(&self) -> (r: i32)
        ensures
            r == self@.day_index() - day_number(self@.y as int, 1, 1) + 1,
    {
        proof {
            use_type_invariant(self);
        }
        get_yearday(CivilSecond::from_fields(self.0))
    }

    /// Adds `n` minutes.
    pub fn add_diff(self, n: DiffType) -> (r: Self)
        requires
            minute_in_range(self@.minute_index() + n),
        ensures
            r@.minute_index() == self@.minute_index() + n,
    {
        proof {
            use_type_invariant(&self);
        }
        let fields = Minute::step(self.0, n);
        Self::from_fields(fields)
    }

    /// Subtracts `n` minutes; the most negative `n` is taken in two steps,
    /// since it cannot be negated.
    pub fn sub_diff(self, n: DiffType) -> (r: Self)
        requires
            minute_in_range(self@.minute_index() - n),
        ensures
            r@.minute_index() == self@.minute_index() - n,
    {
        proof {
            use_type_invariant(&self);
            lemma_wf_in_range(self@);
        }
        let fields = if n != DiffType::MIN {
            Minute::step(self.0, -n)
        } else {
            Minute::step(Minute::step(self.0, -(n + 1)), 1)
        };
        Self::from_fields(fields)
    }

    /// Difference in minutes.
    pub fn difference(self, other: Self) -> (r: DiffType)
        requires
            i64::MIN <= self@.minute_index() - other@.minute_index() <= i64::MAX,
        ensures
            r == self@.minute_index() - other@.minute_index(),
    {
        proof {
            use_type_invariant(&self);
            use_type_invariant(&other);
        }
        Minute::difference(self.0, other.0)
    }

    /// The earliest representable value.
    pub fn min_value() -> (r: Self)
        ensures
            r@ == (Fields { y: YearType::MIN, m: 1, d: 1, hh: 0, mm: 0, ss: 0 }),
    {
        CivilMinute(Fields { y: YearType::MIN, m: 1, d: 1, hh: 0, mm: 0, ss: 0 })
    }

    /// The latest representable value.
    pub fn max_value() -> (r: Self)
        ensures
            r@ == (Fields { y: YearType::MAX, m: 12, d: 31, hh: 23, mm: 59, ss: 0 }),
    {
        CivilMinute(Fields { y: YearType::MAX, m: 12, d: 31, hh: 23, mm: 59, ss: 0 })
    }

    /// The day strictly after this one's date that falls on weekday `wd`.
    pub fn next_weekday(self, wd: Weekday) -> (r: CivilDay)
        requires
            day_in_range(self@.day_index() + days_forward(weekday_of_day(self@.day_index()), wd)),
        ensures
            r@.day_index() == self@.day_index() + days_forward(weekday_of_day(self@.day_index()), wd),
    {
        proof {
            use_type_invariant(&self);
        }
        let cd = CivilDay::from_fields(self.0);
        next_weekday(cd, wd)
    }

    /// The day strictly before this one's date that falls on weekday `wd`.
    pub fn prev_weekday(self, wd: Weekday) -> (r: CivilDay)
        requires
            day_in_range(self@.day_index() - days_forward(wd, weekday_of_day(self@.day_index()))),
        ensures
            r@.day_index() == self@.day_index() - days_forward(wd, weekday_of_day(self@.day_index())),
    {
        proof {
            use_type_invariant(&self);
        }
        let cd = CivilDay::from_fields(self.0);
        prev_weekday(cd, wd)
    }
}

impl core::ops::Add<DiffType> for CivilMinute {
    type Output = CivilMinute;

    fn add(self, n: DiffType) -> (r: CivilMinute) {
        let r = self.add_diff(n);
        proof {
            use_type_invariant(&r);
            let c = choose|c: CivilMinute| c.wf() && c@.minute_index() == self@.minute_index() + n;
            Self::lemma_unique(r, c);
        }
        r
    }
}

impl vstd::std_specs::ops::AddSpecImpl<DiffType> for CivilMinute {
    open spec fn obeys_add_spec() -> bool {
        true
    }

    open spec fn add_req(self, n: DiffType) -> bool {
        minute_in_range(self@.minute_index() + n)
    }

    open spec fn add_spec(self, n: DiffType) -> CivilMinute {
        choose|r: CivilMinute| r.wf() && r@.minute_index() == self@.minute_index() + n
    }
}

impl core::ops::Sub<DiffType> for CivilMinute {
    type Output = CivilMinute;

    fn sub(self, n: DiffType) -> (r: CivilMinute) {
        let r = self.sub_diff(n);
        proof {
            use_type_invariant(&r);
            let c = choose|c: CivilMinute| c.wf() && c@.minute_index() == self@.minute_index() - n;
            Self::lemma_unique(r, c);
        }
        r
    }
}

impl vstd::std_specs::ops::SubSpecImpl<DiffType> for CivilMinute {
    open spec fn obeys_sub_spec() -> bool {
        true
    }

    open spec fn sub_req(self, n: DiffType) -> bool {
        minute_in_range(self@.minute_index() - n)
    }

    open spec fn sub_spec(self, n: DiffType) -> CivilMinute {
        choose|r: CivilMinute| r.wf() && r@.minute_index() == self@.minute_index() - n
    }
}

impl core::ops::Sub<CivilMinute> for CivilMinute {
    type Output = DiffType;

    fn sub(self, other: CivilMinute) -> (r: DiffType) {
        self.difference(other)
    }
}

impl vstd::std_specs::ops::SubSpecImpl<CivilMinute> for CivilMinute {
    open spec fn obeys_sub_spec() -> bool {
        true
    }

    open spec fn sub_req(self, other: CivilMinute) -> bool {
        i64::MIN <= self@.minute_index() - other@.minute_index() <= i64::MAX
    }

    open spec fn sub_spec(self, other: CivilMinute) -> DiffType {
        (self@.minute_index() - other@.minute_index()) as DiffType
    }
}

impl Default for CivilMinute {
    /// 1970-01-01T00:00:00, aligned.
    fn default() -> (r: Self)
        ensures
            r@ == (Fields { y: 1970, m: 1, d: 1, hh: 0, mm: 0, ss: 0 }),
    {
        proof {
            lemma_epoch();
            lemma_raw_day_in_month(1970, 1, 1);
            lemma_day_in_range(1970, 1, 1);
        }
        let r = Builder::new().build_minute();
        proof {
            use_type_invariant(&r);
            lemma_fields_in_month(r@);
            let e = Fields { y: 1970, m: 1, d: 1, hh: 0, mm: 0, ss: 0 };
            lemma_fields_in_month(e);
            lemma_second_index_unique(r@, e);
        }
        r
    }
}

/// Civil time aligned to the hour: every finer field sits at its minimum.
#[derive(Clone, Copy, Debug, Eq, Ord, Hash)]
pub struct CivilHour(Fields);

impl View for CivilHour {
    type V = Fields;

    closed spec fn view(&self) -> Fields {
        self.0
    }
}

/// Fields aligned to the hour.
pub open spec fn align_hour(f: Fields) -> Fields {
    Fields { mm: 0, ss: 0, ..f }
}

impl CivilTime for CivilHour {
    fn fields(&self) -> (r: Fields) {
        self.0
    }
}

impl BuildCivilTime for CivilHour {
    open spec fn spans_second(&self, s: int) -> bool {
        self@.hour_index() == s / 3600
    }

    fn build_from_ymd_hms(
        y: YearType,
        m: DiffType,
        d: DiffType,
        hh: DiffType,
        mm: DiffType,
        ss: DiffType,
    ) -> (r: Self) {
        Self::from_ymd_hms(y, m, d, hh, mm, ss)
    }
}

impl CivilHour {
    /// Valid fields aligned to the hour.
    #[verifier::type_invariant]
    pub open spec fn wf(self) -> bool {
        let f = self@;
        f.wf() && f.mm == 0 && f.ss == 0
    }

    /// Values are determined by their fields.
    pub proof fn lemma_view_injective(a: Self, b: Self)
        requires
            a@ == b@,
        ensures
            a == b,
    {
    }

    /// Valid values are determined by their count of units.
    pub proof fn lemma_unique(a: Self, b: Self)
        requires
            a.wf(),
            b.wf(),
            a@.hour_index() == b@.hour_index(),
        ensures
            a == b,
    {
        lemma_second_index_unique(a@, b@);
    }

    /// Builds a value from canonical fields, aligning them.
    pub(crate) fn from_fields(fields: Fields) -> (r: Self)
        requires
            fields.wf(),
        ensures
            r@ == align_hour(fields),
    {
        CivilHour(Hour::align(fields))
    }

    /// Normalizes the six fields and aligns the result.
    pub(crate) fn from_ymd_hms(
        y: YearType,
        m: DiffType,
        d: DiffType,
        hh: DiffType,
        mm: DiffType,
        ss: DiffType,
    ) -> (r: Self)
        requires
            second_in_range(seconds_of(raw_day(y as int, m as int, d as int), hh as int, mm as int, ss as int)),
        ensures
            r.spans_second(seconds_of(raw_day(y as int, m as int, d as int), hh as int, mm as int, ss as int)),
    {
        let fields = Fields::n_sec(y, m, d, hh, mm, ss);
        proof {
            let s = seconds_of(raw_day(y as int, m as int, d as int), hh as int, mm as int, ss as int);
            lemma_fields_in_month(fields);
            lemma_fundamental_div_mod_converse(s, 86400, fields.day_index(), fields.hh * 3600 + fields.mm * 60 + fields.ss);
            lemma_fundamental_div_mod_converse(s, 3600, fields.hour_index(), fields.mm * 60 + fields.ss);
        }
        Self::from_fields(fields)
    }

    /// Constructs the value from year `y` through hour `hh`, each of any
    /// value; out-of-range fields carry into coarser ones.
    pub fn new(y: YearType, m: DiffType, d: DiffType, hh: DiffType) -> (r: Self)
        requires
            hour_in_range(raw_day(y as int, m as int, d as int) * 24 + hh),
        ensures
            r@.hour_index() == raw_day(y as int, m as int, d as int) * 24 + hh,
    {
        proof {
            assert(seconds_of(raw_day(y as int, m as int, d as int), hh as int, 0, 0) == 0 + (raw_day(y as int, m as int, d as int) * 24 + hh) * 3600);
            lemma_div_shift(0, raw_day(y as int, m as int, d as int) * 24 + hh, 3600);
        }
        let r = Self::from_ymd_hms(y, m, d, hh, 0, 0);
        proof {
            use_type_invariant(&r);
            lemma_fields_in_month(r@);
        }
        r
    }

    /// The year.
    pub fn year(&self) -> (r: YearType)
        ensures
            r == self@.y,
    {
        self.0.y
    }

    /// The month, 1..=12.
    pub fn month(&self) -> (r: i32)
        ensures
            r == self@.m,
    {
        self.0.m as i32
    }

    /// The day of the month, 1..=31.
    pub fn day(&self) -> (r: i32)
        ensures
            r == self@.d,
    {
        self.0.d as i32
    }

    /// The hour, 0..=23.
    pub fn hour(&self) -> (r: i32)
        ensures
            r == self@.hh,
    {
        self.0.hh as i32
    }

    /// The minute, 0..=59.
    pub fn minute(&self) -> (r: i32)
        ensures
            r == self@.mm,
    {
        self.0.mm as i32
    }

    /// The second, 0..=59.
    pub fn second(&self) -> (r: i32)
        ensures
            r == self@.ss,
    {
        self.0.ss as i32
    }

    /// The weekday of the date.
    pub fn weekday(&self) -> (r: Weekday)
        ensures
            r == weekday_of_day(self@.day_index()),
    {
        proof {
            use_type_invariant(self);
        }
        Weekday::from_second(CivilSecond::from_fields(self.0))
    }

    /// The day of the year, 1..=366.
    pub fn yearday(&self) -> (r: i32)
        ensures
            r == self@.day_index() - day_number(self@.y as int, 1, 1) + 1,
    {
        proof {
            use_type_invariant(self);
        }
        get_yearday(CivilSecond::from_fields(self.0))
    }

    /// Adds `n` hours.
    pub fn add_diff(self, n: DiffType) -> (r: Self)
        requires
            hour_in_range(self@.hour_index() + n),
        ensures
            r@.hour_index() == self@.hour_index() + n,
    {
        proof {
            use_type_invariant(&self);
        }
        let fields = Hour::step(self.0, n);
        Self::from_fields(fields)
    }

    /// Subtracts `n` hours; the most negative `n` is taken in two steps,
    /// since it cannot be negated.
    pub fn sub_diff(self, n: DiffType) -> (r: Self)
        requires
            hour_in_range(self@.hour_index() - n),
        ensures
            r@.hour_index() == self@.hour_index() - n,
    {
        proof {
            use_type_invariant(&self);
            lemma_wf_in_range(self@);
        }
        let fields = if n != DiffType::MIN {
            Hour::step(self.0, -n)
        } else {
            Hour::step(Hour::step(self.0, -(n + 1)), 1)
        };
        Self::from_fields(fields)
    }

    /// Difference in hours.
    pub fn difference(self, other: Self) -> (r: DiffType)
        requires
            i64::MIN <= self@.hour_index() - other@.hour_index() <= i64::MAX,
        ensures
            r == self@.hour_index() - other@.hour_index(),
    {
        proof {
            use_type_invariant(&self);
            use_type_invariant(&other);
        }
        Hour::difference(self.0, other.0)
    }

    /// The earliest representable value.
    pub fn min_value() -> (r: Self)
        ensures
            r@ == (Fields { y: YearType::MIN, m: 1, d: 1, hh: 0, mm: 0, ss: 0 }),
    {
        CivilHour(Fields { y: YearType::MIN, m: 1, d: 1, hh: 0, mm: 0, ss: 0 })
    }

    /// The latest representable value.
    pub fn max_value() -> (r: Self)
        ensures
            r@ == (Fields { y: YearType::MAX, m: 12, d: 31, hh: 23, mm: 0, ss: 0 }),
    {
        CivilHour(Fields { y: YearType::MAX, m: 12, d: 31, hh: 23, mm: 0, ss: 0 })
    }

    /// The day strictly after this one's date that falls on weekday `wd`.
    pub fn next_weekday(self, wd: Weekday) -> (r: CivilDay)
        requires
            day_in_range(self@.day_index() + days_forward(weekday_of_day(self@.day_index()), wd)),
        ensures
            r@.day_index() == self@.day_index() + days_forward(weekday_of_day(self@.day_index()), wd),
    {
        proof {
            use_type_invariant(&self);
        }
        let cd = CivilDay::from_fields(self.0);
        next_weekday(cd, wd)
    }

    /// The day strictly before this one's date that falls on weekday `wd`.
    pub fn prev_weekday(self, wd: Weekday) -> (r: CivilDay)
        requires
            day_in_range(self@.day_index() - days_forward(wd, weekday_of_day(self@.day_index()))),
        ensures
            r@.day_index() == self@.day_index() - days_forward(wd, weekday_of_day(self@.day_index())),
    {
        proof {
            use_type_invariant(&self);
        }
        let cd = CivilDay::from_fields(self.0);
        prev_weekday(cd, wd)
    }
}

impl core::ops::Add<DiffType> for CivilHour {
    type Output = CivilHour;

    fn add(self, n: DiffType) -> (r: CivilHour) {
        let r = self.add_diff(n);
        proof {
            use_type_invariant(&r);
            let c = choose|c: CivilHour| c.wf() && c@.hour_index() == self@.hour_index() + n;
            Self::lemma_unique(r, c);
        }
        r
    }
}

impl vstd::std_specs::ops::AddSpecImpl<DiffType> for CivilHour {
    open spec fn obeys_add_spec() -> bool {
        true
    }

    open spec fn add_req(self, n: DiffType) -> bool {
        hour_in_range(self@.hour_index() + n)
    }

    open spec fn add_spec(self, n: DiffType) -> CivilHour {
        choose|r: CivilHour| r.wf() && r@.hour_index() == self@.hour_index() + n
    }
}

impl core::ops::Sub<DiffType> for CivilHour {
    type Output = CivilHour;

    fn sub(self, n: DiffType) -> (r: CivilHour) {
        let r = self.sub_diff(n);
        proof {
            use_type_invariant(&r);
            let c = choose|c: CivilHour| c.wf() && c@.hour_index() == self@.hour_index() - n;
            Self::lemma_unique(r, c);
        }
        r
    }
}

impl vstd::std_specs::ops::SubSpecImpl<DiffType> for CivilHour {
    open spec fn obeys_sub_spec() -> bool {
        true
    }

    open spec fn sub_req(self, n: DiffType) -> bool {
        hour_in_range(self@.hour_index() - n)
    }

    open spec fn sub_spec(self, n: DiffType) -> CivilHour {
        choose|r: CivilHour| r.wf() && r@.hour_index() == self@.hour_index() - n
    }
}

impl core::ops::Sub<CivilHour> for CivilHour {
    type Output = DiffType;

    fn sub(self, other: CivilHour) -> (r: DiffType) {
        self.difference(other)
    }
}

impl vstd::std_specs::ops::SubSpecImpl<CivilHour> for CivilHour {
    open spec fn obeys_sub_spec() -> bool {
        true
    }

    open spec fn sub_req(self, other: CivilHour) -> bool {
        i64::MIN <= self@.hour_index() - other@.hour_index() <= i64::MAX
    }

    open spec fn sub_spec(self, other: CivilHour) -> DiffType {
        (self@.hour_index() - other@.hour_index()) as DiffType
    }
}

impl Default for CivilHour {
    /// 1970-01-01T00:00:00, aligned.
    fn default() -> (r: Self)
        ensures
            r@ == (Fields { y: 1970, m: 1, d: 1, hh: 0, mm: 0, ss: 0 }),
    {
        proof {
            lemma_epoch();
            lemma_raw_day_in_month(1970, 1, 1);
            lemma_day_in_range(1970, 1, 1);
        }
        let r = Builder::new().build_hour();
        proof {
            use_type_invariant(&r);
            lemma_fields_in_month(r@);
            let e = Fields { y: 1970, m: 1, d: 1, hh: 0, mm: 0, ss: 0 };
            lemma_fields_in_month(e);
            lemma_second_index_unique(r@, e);
        }
        r
    }
}

/// Civil time aligned to the day: every finer field sits at its minimum.
#[derive(Clone, Copy, Debug, Eq, Ord, Hash)]
pub struct CivilDay(Fields);

impl View for CivilDay {
    type V = Fields;

    closed spec fn view(&self) -> Fields {
        self.0
    }
}

/// Fields aligned to the day.
pub open spec fn align_day(f: Fields) -> Fields {
    Fields { hh: 0, mm: 0, ss: 0, ..f }
}

impl CivilTime for CivilDay {
    fn fields(&self) -> (r: Fields) {
        self.0
    }
}

impl BuildCivilTime for CivilDay {
    open spec fn spans_second(&self, s: int) -> bool {
        self@.day_index() == s / 86400
    }

    fn build_from_ymd_hms(
        y: YearType,
        m: DiffType,
        d: DiffType,
        hh: DiffType,
        mm: DiffType,
        ss: DiffType,
    ) -> (r: Self) {
        Self::from_ymd_hms(y, m, d, hh, mm, ss)
    }
}

impl CivilDay {
    /// Valid fields aligned to the day.
    #[verifier::type_invariant]
    pub open spec fn wf(self) -> bool {
        let f = self@;
        f.wf() && f.hh == 0 && f.mm == 0 && f.ss == 0
    }

    /// Values are determined by their fields.
    pub proof fn lemma_view_injective(a: Self, b: Self)
        requires
            a@ == b@,
        ensures
            a == b,
    {
    }

    /// Valid values are determined by their count of units.
    pub proof fn lemma_unique(a: Self, b: Self)
        requires
            a.wf(),
            b.wf(),
            a@.day_index() == b@.day_index(),
        ensures
            a == b,
    {
        lemma_second_index_unique(a@, b@);
    }

    /// Builds a value from canonical fields, aligning them.
    pub(crate) fn from_fields(fields: Fields) -> (r: Self)
        requires
            fields.wf(),
        ensures
            r@ == align_day(fields),
    {
        CivilDay(Day::align(fields))
    }

    /// Normalizes the six fields and aligns the result.
    pub(crate) fn from_ymd_hms(
        y: YearType,
        m: DiffType,
        d: DiffType,
        hh: DiffType,
        mm: DiffType,
        ss: DiffType,
    ) -> (r: Self)
        requires
            second_in_range(seconds_of(raw_day(y as int, m as int, d as int), hh as int, mm as int, ss as int)),
        ensures
            r.spans_second(seconds_of(raw_day(y as int, m as int, d as int), hh as int, mm as int, ss as int)),
    {
        let fields = Fields::n_sec(y, m, d, hh, mm, ss);
        proof {
            let s = seconds_of(raw_day(y as int, m as int, d as int), hh as int, mm as int, ss as int);
            lemma_fields_in_month(fields);
            lemma_fundamental_div_mod_converse(s, 86400, fields.day_index(), fields.hh * 3600 + fields.mm * 60 + fields.ss);
        }
        Self::from_fields(fields)
    }

    /// Constructs the value from year `y` through day `d`, each of any
    /// value; out-of-range fields carry into coarser ones.
    pub fn new(y: YearType, m: DiffType, d: DiffType) -> (r: Self)
        requires
            day_in_range(raw_day(y as int, m as int, d as int)),
        ensures
            r@.day_index() == raw_day(y as int, m as int, d as int),
    {
        proof {
            lemma_div_shift(0, raw_day(y as int, m as int, d as int), 86400);
        }
        let r = Self::from_ymd_hms(y, m, d, 0, 0, 0);
        proof {
            use_type_invariant(&r);
            lemma_fields_in_month(r@);
        }
        r
    }

    /// The year.
    pub fn year(&self) -> (r: YearType)
        ensures
            r == self@.y,
    {
        self.0.y
    }

    /// The month, 1..=12.
    pub fn month(&self) -> (r: i32)
        ensures
            r == self@.m,
    {
        self.0.m as i32
    }

    /// The day of the month, 1..=31.
    pub fn day(&self) -> (r: i32)
        ensures
            r == self@.d,
    {
        self.0.d as i32
    }

    /// The hour, 0..=23.
    pub fn hour(&self) -> (r: i32)
        ensures
            r == self@.hh,
    {
        self.0.hh as i32
    }

    /// The minute, 0..=59.
    pub fn minute(&self) -> (r: i32)
        ensures
            r == self@.mm,
    {
        self.0.mm as i32
    }

    /// The second, 0..=59.
    pub fn second(&self) -> (r: i32)
        ensures
            r == self@.ss,
    {
        self.0.ss as i32
    }

    /// The weekday of the date.
    pub fn weekday(&self) -> (r: Weekday)
        ensures
            r == weekday_of_day(self@.day_index()),
    {
        proof {
            use_type_invariant(self);
        }
        Weekday::from_second(CivilSecond::from_fields(self.0))
    }

    /// The day of the year, 1..=366.
    pub fn yearday(&self) -> (r: i32)
        ensures
            r == self@.day_index() - day_number(self@.y as int, 1, 1) + 1,
    {
        proof {
            use_type_invariant(self);
        }
        get_yearday(CivilSecond::from_fields(self.0))
    }

    /// Adds `n` days.
    pub fn add_diff(self, n: DiffType) -> (r: Self)
        requires
            day_in_range(self@.day_index() + n),
        ensures
            r@.day_index() == self@.day_index() + n,
    {
        proof {
            use_type_invariant(&self);
        }
        let fields = Day::step(self.0, n);
        Self::from_fields(fields)
    }

    /// Subtracts `n` days; the most negative `n` is taken in two steps,
    /// since it cannot be negated.
    pub fn sub_diff(self, n: DiffType) -> (r: Self)
        requires
            day_in_range(self@.day_index() - n),
        ensures
            r@.day_index() == self@.day_index() - n,
    {
        proof {
            use_type_invariant(&self);
            lemma_wf_in_range(self@);
        }
        let fields = if n != DiffType::MIN {
            Day::step(self.0, -n)
        } else {
            Day::step(Day::step(self.0, -(n + 1)), 1)
        };
        Self::from_fields(fields)
    }

    /// Difference in days.
    pub fn difference(self, other: Self) -> (r: DiffType)
        requires
            i64::MIN <= self@.day_index() - other@.day_index() <= i64::MAX,
        ensures
            r == self@.day_index() - other@.day_index(),
    {
        proof {
            use_type_invariant(&self);
            use_type_invariant(&other);
        }
        Day::difference(self.0, other.0)
    }

    /// The earliest representable value.
    pub fn min_value() -> (r: Self)
        ensures
            r@ == (Fields { y: YearType::MIN, m: 1, d: 1, hh: 0, mm: 0, ss: 0 }),
    {
        CivilDay(Fields { y: YearType::MIN, m: 1, d: 1, hh: 0, mm: 0, ss: 0 })
    }

    /// The latest representable value.
    pub fn max_value() -> (r: Self)
        ensures
            r@ == (Fields { y: YearType::MAX, m: 12, d: 31, hh: 0, mm: 0, ss: 0 }),
    {
        CivilDay(Fields { y: YearType::MAX, m: 12, d: 31, hh: 0, mm: 0, ss: 0 })
    }

    /// The day strictly after this one's date that falls on weekday `wd`.
    pub fn next_weekday(self, wd: Weekday) -> (r: CivilDay)
        requires
            day_in_range(self@.day_index() + days_forward(weekday_of_day(self@.day_index()), wd)),
        ensures
            r@.day_index() == self@.day_index() + days_forward(weekday_of_day(self@.day_index()), wd),
    {
        proof {
            use_type_invariant(&self);
        }
        let cd = CivilDay::from_fields(self.0);
        next_weekday(cd, wd)
    }

    /// The day strictly before this one's date that falls on weekday `wd`.
    pub fn prev_weekday(self, wd: Weekday) -> (r: CivilDay)
        requires
            day_in_range(self@.day_index() - days_forward(wd, weekday_of_day(self@.day_index()))),
        ensures
            r@.day_index() == self@.day_index() - days_forward(wd, weekday_of_day(self@.day_index())),
    {
        proof {
            use_type_invariant(&self);
        }
        let cd = CivilDay::from_fields(self.0);
        prev_weekday(cd, wd)
    }
}

impl core::ops::Add<DiffType> for CivilDay {
    type Output = CivilDay;

    fn add(self, n: DiffType) -> (r: CivilDay) {
        let r = self.add_diff(n);
        proof {
            use_type_invariant(&r);
            let c = choose|c: CivilDay| c.wf() && c@.day_index() == self@.day_index() + n;
            Self::lemma_unique(r, c);
        }
        r
    }
}

impl vstd::std_specs::ops::AddSpecImpl<DiffType> for CivilDay {
    open spec fn obeys_add_spec() -> bool {
        true
    }

    open spec fn add_req(self, n: DiffType) -> bool {
        day_in_range(self@.day_index() + n)
    }

    open spec fn add_spec(self, n: DiffType) -> CivilDay {
        choose|r: CivilDay| r.wf() && r@.day_index() == self@.day_index() + n
    }
}

impl core::ops::Sub<DiffType> for CivilDay {
    type Output = CivilDay;

    fn sub(self, n: DiffType) -> (r: CivilDay) {
        let r = self.sub_diff(n);
        proof {
            use_type_invariant(&r);
            let c = choose|c: CivilDay| c.wf() && c@.day_index() == self@.day_index() - n;
            Self::lemma_unique(r, c);
        }
        r
    }
}

impl vstd::std_specs::ops::SubSpecImpl<DiffType> for CivilDay {
    open spec fn obeys_sub_spec() -> bool {
        true
    }

    open spec fn sub_req(self, n: DiffType) -> bool {
        day_in_range(self@.day_index() - n)
    }

    open spec fn sub_spec(self, n: DiffType) -> CivilDay {
        choose|r: CivilDay| r.wf() && r@.day_index() == self@.day_index() - n
    }
}

impl core::ops::Sub<CivilDay> for CivilDay {
    type Output = DiffType;

    fn sub(self, other: CivilDay) -> (r: DiffType) {
        self.difference(other)
    }
}

impl vstd::std_specs::ops::SubSpecImpl<CivilDay> for CivilDay {
    open spec fn obeys_sub_spec() -> bool {
        true
    }

    open spec fn sub_req(self, other: CivilDay) -> bool {
        i64::MIN <= self@.day_index() - other@.day_index() <= i64::MAX
    }

    open spec fn sub_spec(self, other: CivilDay) -> DiffType {
        (self@.day_index() - other@.day_index()) as DiffType
    }
}

impl Default for CivilDay {
    /// 1970-01-01T00:00:00, aligned.
    fn default() -> (r: Self)
        ensures
            r@ == (Fields { y: 1970, m: 1, d: 1, hh: 0, mm: 0, ss: 0 }),
    {
        proof {
            lemma_epoch();
            lemma_raw_day_in_month(1970, 1, 1);
            lemma_day_in_range(1970, 1, 1);
        }
        let r = Builder::new().build_day();
        proof {
            use_type_invariant(&r);
            lemma_fields_in_month(r@);
            let e = Fields { y: 1970, m: 1, d: 1, hh: 0, mm: 0, ss: 0 };
            lemma_fields_in_month(e);
            lemma_second_index_unique(r@, e);
        }
        r
    }
}

/// Civil time aligned to the month: every finer field sits at its minimum.
#[derive(Clone, Copy, Debug, Eq, Ord, Hash)]
pub struct CivilMonth(Fields);

impl View for CivilMonth {
    type V = Fields;

    closed spec fn view(&self) -> Fields {
        self.0
    }
}

/// Fields aligned to the month.
pub open spec fn align_month(f: Fields) -> Fields {
    Fields { d: 1, hh: 0, mm: 0, ss: 0, ..f }
}

impl CivilTime for CivilMonth {
    fn fields(&self) -> (r: Fields) {
        self.0
    }
}

impl BuildCivilTime for CivilMonth {
    open spec fn spans_second(&self, s: int) -> bool {
        month_start(self@.month_index()) <= s / 86400 < month_start(self@.month_index() + 1)
    }

    fn build_from_ymd_hms(
        y: YearType,
        m: DiffType,
        d: DiffType,
        hh: DiffType,
        mm: DiffType,
        ss: DiffType,
    ) -> (r: Self) {
        Self::from_ymd_hms(y, m, d, hh, mm, ss)
    }
}

impl CivilMonth {
    /// Valid fields aligned to the month.
    #[verifier::type_invariant]
    pub open spec fn wf(self) -> bool {
        let f = self@;
        f.wf() && f.d == 1 && f.hh == 0 && f.mm == 0 && f.ss == 0
    }

    /// Values are determined by their fields.
    pub proof fn lemma_view_injective(a: Self, b: Self)
        requires
            a@ == b@,
        ensures
            a == b,
    {
    }

    /// Valid values are determined by their count of units.
    pub proof fn lemma_unique(a: Self, b: Self)
        requires
            a.wf(),
            b.wf(),
            a@.month_index() == b@.month_index(),
        ensures
            a == b,
    {
        lemma_month_index_unique(a@, b@);
    }

    /// Builds a value from canonical fields, aligning them.
    pub(crate) fn from_fields(fields: Fields) -> (r: Self)
        requires
            fields.wf(),
        ensures
            r@ == align_month(fields),
    {
        CivilMonth(Month::align(fields))
    }

    /// Normalizes the six fields and aligns the result.
    pub(crate) fn from_ymd_hms(
        y: YearType,
        m: DiffType,
        d: DiffType,
        hh: DiffType,
        mm: DiffType,
        ss: DiffType,
    ) -> (r: Self)
        requires
            second_in_range(seconds_of(raw_day(y as int, m as int, d as int), hh as int, mm as int, ss as int)),
        ensures
            r.spans_second(seconds_of(raw_day(y as int, m as int, d as int), hh as int, mm as int, ss as int)),
    {
        let fields = Fields::n_sec(y, m, d, hh, mm, ss);
        proof {
            let s = seconds_of(raw_day(y as int, m as int, d as int), hh as int, mm as int, ss as int);
            lemma_fields_in_month(fields);
            lemma_fundamental_div_mod_converse(s, 86400, fields.day_index(), fields.hh * 3600 + fields.mm * 60 + fields.ss);
        }
        Self::from_fields(fields)
    }

    /// Constructs the value from year `y` through month `m`, each of any
    /// value; out-of-range fields carry into coarser ones.
    pub fn new(y: YearType, m: DiffType) -> (r: Self)
        requires
            month_in_range(y * 12 + m - 1),
        ensures
            r@.month_index() == y * 12 + m - 1,
    {
        proof {
            lemma_div_shift(m - 1, y as int, 12);
            lemma_month_start_in_range(y * 12 + m - 1);
            lemma_month_start_mono(y * 12 + m - 1, y * 12 + m);
            lemma_div_shift(0, raw_day(y as int, m as int, 1), 86400);
        }
        let r = Self::from_ymd_hms(y, m, 1, 0, 0, 0);
        proof {
            use_type_invariant(&r);
            lemma_fields_in_month(r@);
            lemma_month_containing(r@.month_index(), y * 12 + m - 1, raw_day(y as int, m as int, 1));
        }
        r
    }

    /// The year.
    pub fn year(&self) -> (r: YearType)
        ensures
            r == self@.y,
    {
        self.0.y
    }

    /// The month, 1..=12.
    pub fn month(&self) -> (r: i32)
        ensures
            r == self@.m,
    {
        self.0.m as i32
    }

    /// The day of the month, 1..=31.
    pub fn day(&self) -> (r: i32)
        ensures
            r == self@.d,
    {
        self.0.d as i32
    }

    /// The hour, 0..=23.
    pub fn hour(&self) -> (r: i32)
        ensures
            r == self@.hh,
    {
        self.0.hh as i32
    }

    /// The minute, 0..=59.
    pub fn minute(&self) -> (r: i32)
        ensures
            r == self@.mm,
    {
        self.0.mm as i32
    }

    /// The second, 0..=59.
    pub fn second(&self) -> (r: i32)
        ensures
            r == self@.ss,
    {
        self.0.ss as i32
    }

    /// The weekday of the date.
    pub fn weekday(&self) -> (r: Weekday)
        ensures
            r == weekday_of_day(self@.day_index()),
    {
        proof {
            use_type_invariant(self);
        }
        Weekday::from_second(CivilSecond::from_fields(self.0))
    }

    /// The day of the year, 1..=366.
    pub fn yearday(&self) -> (r: i32)
        ensures
            r == self@.day_index() - day_number(self@.y as int, 1, 1) + 1,
    {
        proof {
            use_type_invariant(self);
        }
        get_yearday(CivilSecond::from_fields(self.0))
    }

    /// Adds `n` months.
    pub fn add_diff(self, n: DiffType) -> (r: Self)
        requires
            month_in_range(self@.month_index() + n),
        ensures
            r@.month_index() == self@.month_index() + n,
    {
        proof {
            use_type_invariant(&self);
            lemma_month_start_in_range(self@.month_index() + n);
        }
        let fields = Month::step(self.0, n);
        Self::from_fields(fields)
    }

    /// Subtracts `n` months; the most negative `n` is taken in two steps,
    /// since it cannot be negated.
    pub fn sub_diff(self, n: DiffType) -> (r: Self)
        requires
            month_in_range(self@.month_index() - n),
        ensures
            r@.month_index() == self@.month_index() - n,
    {
        proof {
            use_type_invariant(&self);
            lemma_wf_in_range(self@);
            lemma_month_start_in_range(self@.month_index() - n);
            if n == DiffType::MIN {
                lemma_month_start_in_range(self@.month_index() + i64::MAX);
            }
        }
        let fields = if n != DiffType::MIN {
            Month::step(self.0, -n)
        } else {
            Month::step(Month::step(self.0, -(n + 1)), 1)
        };
        Self::from_fields(fields)
    }

    /// Difference in months.
    pub fn difference(self, other: Self) -> (r: DiffType)
        requires
            i64::MIN <= self@.month_index() - other@.month_index() <= i64::MAX,
        ensures
            r == self@.month_index() - other@.month_index(),
    {
        proof {
            use_type_invariant(&self);
            use_type_invariant(&other);
        }
        Month::difference(self.0, other.0)
    }

    /// The earliest representable value.
    pub fn min_value() -> (r: Self)
        ensures
            r@ == (Fields { y: YearType::MIN, m: 1, d: 1, hh: 0, mm: 0, ss: 0 }),
    {
        CivilMonth(Fields { y: YearType::MIN, m: 1, d: 1, hh: 0, mm: 0, ss: 0 })
    }

    /// The latest representable value.
    pub fn max_value() -> (r: Self)
        ensures
            r@ == (Fields { y: YearType::MAX, m: 12, d: 1, hh: 0, mm: 0, ss: 0 }),
    {
        CivilMonth(Fields { y: YearType::MAX, m: 12, d: 1, hh: 0, mm: 0, ss: 0 })
    }
}

impl core::ops::Add<DiffType> for CivilMonth {
    type Output = CivilMonth;

    fn add(self, n: DiffType) -> (r: CivilMonth) {
        let r = self.add_diff(n);
        proof {
            use_type_invariant(&r);
            let c = choose|c: CivilMonth| c.wf() && c@.month_index() == self@.month_index() + n;
            Self::lemma_unique(r, c);
        }
        r
    }
}

impl vstd::std_specs::ops::AddSpecImpl<DiffType> for CivilMonth {
    open spec fn obeys_add_spec() -> bool {
        true
    }

    open spec fn add_req(self, n: DiffType) -> bool {
        month_in_range(self@.month_index() + n)
    }

    open spec fn add_spec(self, n: DiffType) -> CivilMonth {
        choose|r: CivilMonth| r.wf() && r@.month_index() == self@.month_index() + n
    }
}

impl core::ops::Sub<DiffType> for CivilMonth {
    type Output = CivilMonth;

    fn sub(self, n: DiffType) -> (r: CivilMonth) {
        let r = self.sub_diff(n);
        proof {
            use_type_invariant(&r);
            let c = choose|c: CivilMonth| c.wf() && c@.month_index() == self@.month_index() - n;
            Self::lemma_unique(r, c);
        }
        r
    }
}

impl vstd::std_specs::ops::SubSpecImpl<DiffType> for CivilMonth {
    open spec fn obeys_sub_spec() -> bool {
        true
    }

    open spec fn sub_req(self, n: DiffType) -> bool {
        month_in_range(self@.month_index() - n)
    }

    open spec fn sub_spec(self, n: DiffType) -> CivilMonth {
        choose|r: CivilMonth| r.wf() && r@.month_index() == self@.month_index() - n
    }
}

impl core::ops::Sub<CivilMonth> for CivilMonth {
    type Output = DiffType;

    fn sub(self, other: CivilMonth) -> (r: DiffType) {
        self.difference(other)
    }
}

impl vstd::std_specs::ops::SubSpecImpl<CivilMonth> for CivilMonth {
    open spec fn obeys_sub_spec() -> bool {
        true
    }

    open spec fn sub_req(self, other: CivilMonth) -> bool {
        i64::MIN <= self@.month_index() - other@.month_index() <= i64::MAX
    }

    open spec fn sub_spec(self, other: CivilMonth) -> DiffType {
        (self@.month_index() - other@.month_index()) as DiffType
    }
}

impl Default for CivilMonth {
    /// 1970-01-01T00:00:00, aligned.
    fn default() -> (r: Self)
        ensures
            r@ == (Fields { y: 1970, m: 1, d: 1, hh: 0, mm: 0, ss: 0 }),
    {
        proof {
            lemma_epoch();
            lemma_raw_day_in_month(1970, 1, 1);
            lemma_day_in_range(1970, 1, 1);
        }
        let r = Builder::new().build_month();
        proof {
            use_type_invariant(&r);
            lemma_fields_in_month(r@);
            lemma_month_containing(r@.month_index(), 1970int * 12, 0);
            let e = Fields { y: 1970, m: 1, d: 1, hh: 0, mm: 0, ss: 0 };
            lemma_fields_in_month(e);
            lemma_month_index_unique(r@, e);
        }
        r
    }
}

/// Civil time aligned to the year: every finer field sits at its minimum.
#[derive(Clone, Copy, Debug, Eq, Ord, Hash)]
pub struct CivilYear(Fields);

impl View for CivilYear {
    type V = Fields;

    closed spec fn view(&self) -> Fields {
        self.0
    }
}

/// Fields aligned to the year.
pub open spec fn align_year(f: Fields) -> Fields {
    Fields { m: 1, d: 1, hh: 0, mm: 0, ss: 0, ..f }
}

impl CivilTime for CivilYear {
    fn fields(&self) -> (r: Fields) {
        self.0
    }
}

impl BuildCivilTime for CivilYear {
    open spec fn spans_second(&self, s: int) -> bool {
        day_number(self@.y as int, 1, 1) <= s / 86400 < day_number(self@.y + 1, 1, 1)
    }

    fn build_from_ymd_hms(
        y: YearType,
        m: DiffType,
        d: DiffType,
        hh: DiffType,
        mm: DiffType,
        ss: DiffType,
    ) -> (r: Self) {
        Self::from_ymd_hms(y, m, d, hh, mm, ss)
    }
}

impl CivilYear {
    /// Valid fields aligned to the year.
    #[verifier::type_invariant]
    pub open spec fn wf(self) -> bool {
        let f = self@;
        f.wf() && f.m == 1 && f.d == 1 && f.hh == 0 && f.mm == 0 && f.ss == 0
    }

    /// Values are determined by their fields.
    pub proof fn lemma_view_injective(a: Self, b: Self)
        requires
            a@ == b@,
        ensures
            a == b,
    {
    }

    /// Valid values are determined by their count of units.
    pub proof fn lemma_unique(a: Self, b: Self)
        requires
            a.wf(),
            b.wf(),
            a@.y == b@.y,
        ensures
            a == b,
    {
    }

    /// Builds a value from canonical fields, aligning them.
    pub(crate) fn from_fields(fields: Fields) -> (r: Self)
        requires
            fields.wf(),
        ensures
            r@ == align_year(fields),
    {
        CivilYear(Year::align(fields))
    }

    /// Normalizes the six fields and aligns the result.
    pub(crate) fn from_ymd_hms(
        y: YearType,
        m: DiffType,
        d: DiffType,
        hh: DiffType,
        mm: DiffType,
        ss: DiffType,
    ) -> (r: Self)
        requires
            second_in_range(seconds_of(raw_day(y as int, m as int, d as int), hh as int, mm as int, ss as int)),
        ensures
            r.spans_second(seconds_of(raw_day(y as int, m as int, d as int), hh as int, mm as int, ss as int)),
    {
        let fields = Fields::n_sec(y, m, d, hh, mm, ss);
        proof {
            let s = seconds_of(raw_day(y as int, m as int, d as int), hh as int, mm as int, ss as int);
            lemma_fields_in_month(fields);
            lemma_fundamental_div_mod_converse(s, 86400, fields.day_index(), fields.hh * 3600 + fields.mm * 60 + fields.ss);
        }
        Self::from_fields(fields)
    }

    /// Constructs the value from year `y` through year `y`, each of any
    /// value; out-of-range fields carry into coarser ones.
    pub fn new(y: YearType) -> (r: Self)
        requires
            year_in_range(y as int),
        ensures
            r@.y == y as int,
    {
        proof {
            lemma_raw_day_in_month(y as int, 1, 1);
            lemma_day_in_range(y as int, 1, 1);
            lemma_div_shift(0, raw_day(y as int, 1, 1), 86400);
            lemma_year_step(y as int);
            reveal(day_number);
        }
        let r = Self::from_ymd_hms(y, 1, 1, 0, 0, 0);
        proof {
            use_type_invariant(&r);
            lemma_fields_in_month(r@);
            lemma_year_containing(r@.y as int, y as int, raw_day(y as int, 1, 1));
        }
        r
    }

    /// The year.
    pub fn year(&self) -> (r: YearType)
        ensures
            r == self@.y,
    {
        self.0.y
    }

    /// The month, 1..=12.
    pub fn month(&self) -> (r: i32)
        ensures
            r == self@.m,
    {
        self.0.m as i32
    }

    /// The day of the month, 1..=31.
    pub fn day(&self) -> (r: i32)
        ensures
            r == self@.d,
    {
        self.0.d as i32
    }

    /// The hour, 0..=23.
    pub fn hour(&self) -> (r: i32)
        ensures
            r == self@.hh,
    {
        self.0.hh as i32
    }

    /// The minute, 0..=59.
    pub fn minute(&self) -> (r: i32)
        ensures
            r == self@.mm,
    {
        self.0.mm as i32
    }

    /// The second, 0..=59.
    pub fn second(&self) -> (r: i32)
        ensures
            r == self@.ss,
    {
        self.0.ss as i32
    }

    /// The weekday of the date.
    pub fn weekday(&self) -> (r: Weekday)
        ensures
            r == weekday_of_day(self@.day_index()),
    {
        proof {
            use_type_invariant(self);
        }
        Weekday::from_second(CivilSecond::from_fields(self.0))
    }

    /// The day of the year, 1..=366.
    pub fn yearday(&self) -> (r: i32)
        ensures
            r == self@.day_index() - day_number(self@.y as int, 1, 1) + 1,
    {
        proof {
            use_type_invariant(self);
        }
        get_yearday(CivilSecond::from_fields(self.0))
    }

    /// Adds `n` years.
    pub fn add_diff(self, n: DiffType) -> (r: Self)
        requires
            year_in_range(self@.y + n),
        ensures
            r@.y == self@.y + n,
    {
        proof {
            use_type_invariant(&self);
        }
        let fields = Year::step(self.0, n);
        Self::from_fields(fields)
    }

    /// Subtracts `n` years; the most negative `n` is taken in two steps,
    /// since it cannot be negated.
    pub fn sub_diff(self, n: DiffType) -> (r: Self)
        requires
            year_in_range(self@.y - n),
        ensures
            r@.y == self@.y - n,
    {
        proof {
            use_type_invariant(&self);
            lemma_wf_in_range(self@);
        }
        let fields = if n != DiffType::MIN {
            Year::step(self.0, -n)
        } else {
            Year::step(Year::step(self.0, -(n + 1)), 1)
        };
        Self::from_fields(fields)
    }

    /// Difference in years.
    pub fn difference(self, other: Self) -> (r: DiffType)
        requires
            i64::MIN <= self@.y - other@.y <= i64::MAX,
        ensures
            r == self@.y - other@.y,
    {
        proof {
            use_type_invariant(&self);
            use_type_invariant(&other);
        }
        Year::difference(self.0, other.0)
    }

    /// The earliest representable value.
    pub fn min_value() -> (r: Self)
        ensures
            r@ == (Fields { y: YearType::MIN, m: 1, d: 1, hh: 0, mm: 0, ss: 0 }),
    {
        CivilYear(Fields { y: YearType::MIN, m: 1, d: 1, hh: 0, mm: 0, ss: 0 })
    }

    /// The latest representable value.
    pub fn max_value() -> (r: Self)
        ensures
            r@ == (Fields { y: YearType::MAX, m: 1, d: 1, hh: 0, mm: 0, ss: 0 }),
    {
        CivilYear(Fields { y: YearType::MAX, m: 1, d: 1, hh: 0, mm: 0, ss: 0 })
    }
}

impl core::ops::Add<DiffType> for CivilYear {
    type Output = CivilYear;

    fn add(self, n: DiffType) -> (r: CivilYear) {
        let r = self.add_diff(n);
        proof {
            use_type_invariant(&r);
            let c = choose|c: CivilYear| c.wf() && c@.y == self@.y + n;
            Self::lemma_unique(r, c);
        }
        r
    }
}

impl vstd::std_specs::ops::AddSpecImpl<DiffType> for CivilYear {
    open spec fn obeys_add_spec() -> bool {
        true
    }

    open spec fn add_req(self, n: DiffType) -> bool {
        year_in_range(self@.y + n)
    }

    open spec fn add_spec(self, n: DiffType) -> CivilYear {
        choose|r: CivilYear| r.wf() && r@.y == self@.y + n
    }
}

impl core::ops::Sub<DiffType> for CivilYear {
    type Output = CivilYear;

    fn sub(self, n: DiffType) -> (r: CivilYear) {
        let r = self.sub_diff(n);
        proof {
            use_type_invariant(&r);
            let c = choose|c: CivilYear| c.wf() && c@.y == self@.y - n;
            Self::lemma_unique(r, c);
        }
        r
    }
}

impl vstd::std_specs::ops::SubSpecImpl<DiffType> for CivilYear {
    open spec fn obeys_sub_spec() -> bool {
        true
    }

    open spec fn sub_req(self, n: DiffType) -> bool {
        year_in_range(self@.y - n)
    }

    open spec fn sub_spec(self, n: DiffType) -> CivilYear {
        choose|r: CivilYear| r.wf() && r@.y == self@.y - n
    }
}

impl core::ops::Sub<CivilYear> for CivilYear {
    type Output = DiffType;

    fn sub(self, other: CivilYear) -> (r: DiffType) {
        self.difference(other)
    }
}

impl vstd::std_specs::ops::SubSpecImpl<CivilYear> for CivilYear {
    open spec fn obeys_sub_spec() -> bool {
        true
    }

    open spec fn sub_req(self, other: CivilYear) -> bool {
        i64::MIN <= self@.y - other@.y <= i64::MAX
    }

    open spec fn sub_spec(self, other: CivilYear) -> DiffType {
        (self@.y - other@.y) as DiffType
    }
}

impl Default for CivilYear {
    /// 1970-01-01T00:00:00, aligned.
    fn default() -> (r: Self)
        ensures
            r@ == (Fields { y: 1970, m: 1, d: 1, hh: 0, mm: 0, ss: 0 }),
    {
        proof {
            lemma_epoch();
            lemma_raw_day_in_month(1970, 1, 1);
            lemma_day_in_range(1970, 1, 1);
        }
        let r = Builder::new().build_year();
        proof {
            use_type_invariant(&r);
            lemma_fields_in_month(r@);
            lemma_year_containing(r@.y as int, 1970, 0);
            let e = Fields { y: 1970, m: 1, d: 1, hh: 0, mm: 0, ss: 0 };
            lemma_fields_in_month(e);
        }
        r
    }
}

/// Field-by-field construction of any civil-time type. Unset fields take
/// their minimum, and the year defaults to 1970.
#[derive(Clone, Copy, Debug)]
pub struct Builder {
    y: YearType,
    m: DiffType,
    d: DiffType,
    hh: DiffType,
    mm: DiffType,
    ss: DiffType,
}

impl View for Builder {
    type V = (int, int, int, int, int, int);

    closed spec fn view(&self) -> (int, int, int, int, int, int) {
        (self.y as int, self.m as int, self.d as int, self.hh as int, self.mm as int, self.ss as int)
    }
}

/// The instant that a builder's fields name, in seconds from the epoch.
pub open spec fn builder_second(b: (int, int, int, int, int, int)) -> int {
    seconds_of(raw_day(b.0, b.1, b.2), b.3, b.4, b.5)
}

impl Builder {
    /// A builder for 1970-01-01T00:00:00.
    pub fn new() -> (r: Self)
        ensures
            r@ == (1970int, 1int, 1int, 0int, 0int, 0int),
    {
        Self { y: 1970, m: 1, d: 1, hh: 0, mm: 0, ss: 0 }
    }

    /// Sets the year.
    pub fn year(self, y: YearType) -> (r: Self)
        ensures
            r@ == (y as int, self@.1, self@.2, self@.3, self@.4, self@.5),
    {
        let mut b = self;
        b.y = y;
        b
    }

    /// Sets the month.
    pub fn month(self, m: DiffType) -> (r: Self)
        ensures
            r@ == (self@.0, m as int, self@.2, self@.3, self@.4, self@.5),
    {
        let mut b = self;
        b.m = m;
        b
    }

    /// Sets the day.
    pub fn day(self, d: DiffType) -> (r: Self)
        ensures
            r@ == (self@.0, self@.1, d as int, self@.3, self@.4, self@.5),
    {
        let mut b = self;
        b.d = d;
        b
    }

    /// Sets the hour.
    pub fn hour(self, hour: DiffType) -> (r: Self)
        ensures
            r@ == (self@.0, self@.1, self@.2, hour as int, self@.4, self@.5),
    {
        let mut b = self;
        b.hh = hour;
        b
    }

    /// Sets the minute.
    pub fn minute(self, minute: DiffType) -> (r: Self)
        ensures
            r@ == (self@.0, self@.1, self@.2, self@.3, minute as int, self@.5),
    {
        let mut b = self;
        b.mm = minute;
        b
    }

    /// Sets the second.
    pub fn second(self, second: DiffType) -> (r: Self)
        ensures
            r@ == (self@.0, self@.1, self@.2, self@.3, self@.4, second as int),
    {
        let mut b = self;
        b.ss = second;
        b
    }

    /// Builds a civil time of the type asked for.
    pub fn build<T: BuildCivilTime>(self) -> (r: T)
        requires
            second_in_range(builder_second(self@)),
        ensures
            r.spans_second(builder_second(self@)),
    {
        T::build_from_ymd_hms(self.y, self.m, self.d, self.hh, self.mm, self.ss)
    }

    /// Builds a [`CivilSecond`].
    pub fn build_second(self) -> (r: CivilSecond)
        requires
            second_in_range(builder_second(self@)),
        ensures
            r.spans_second(builder_second(self@)),
    {
        CivilSecond::from_ymd_hms(self.y, self.m, self.d, self.hh, self.mm, self.ss)
    }

    /// Builds a [`CivilMinute`].
    pub fn build_minute(self) -> (r: CivilMinute)
        requires
            second_in_range(builder_second(self@)),
        ensures
            r.spans_second(builder_second(self@)),
    {
        CivilMinute::from_ymd_hms(self.y, self.m, self.d, self.hh, self.mm, self.ss)
    }

    /// Builds a [`CivilHour`].
    pub fn build_hour(self) -> (r: CivilHour)
        requires
            second_in_range(builder_second(self@)),
        ensures
            r.spans_second(builder_second(self@)),
    {
        CivilHour::from_ymd_hms(self.y, self.m, self.d, self.hh, self.mm, self.ss)
    }

    /// Builds a [`CivilDay`].
    pub fn build_day(self) -> (r: CivilDay)
        requires
            second_in_range(builder_second(self@)),
        ensures
            r.spans_second(builder_second(self@)),
    {
        CivilDay::from_ymd_hms(self.y, self.m, self.d, self.hh, self.mm, self.ss)
    }

    /// Builds a [`CivilMonth`].
    pub fn build_month(self) -> (r: CivilMonth)
        requires
            second_in_range(builder_second(self@)),
        ensures
            r.spans_second(builder_second(self@)),
    {
        CivilMonth::from_ymd_hms(self.y, self.m, self.d, self.hh, self.mm, self.ss)
    }

    /// Builds a [`CivilYear`].
    pub fn build_year(self) -> (r: CivilYear)
        requires
            second_in_range(builder_second(self@)),
        ensures
            r.spans_second(builder_second(self@)),
    {
        CivilYear::from_ymd_hms(self.y, self.m, self.d, self.hh, self.mm, self.ss)
    }
}

impl Default for Builder {
    /// A builder for 1970-01-01T00:00:00.
    fn default() -> (r: Self)
        ensures
            r@ == (1970int, 1int, 1int, 0int, 0int, 0int),
    {
        Self::new()
    }
}

} // verus!
