//! Laws that relate the operations of the library to one another.
use crate::calendar::{
    day_number, is_leap, lemma_day_offset, lemma_div, lemma_month_step, valid_date,
};
use crate::civil::{
    align_day, align_hour, align_minute, align_month, align_year, lemma_fields_in_month,
    lemma_month_start_mono, CivilDay, CivilHour, CivilMinute, CivilMonth, CivilSecond, CivilYear,
};
use crate::compare::fields_cmp;
use core::cmp::Ordering;
use crate::fields::{
    lemma_month_index_unique, lemma_raw_day_in_month, lemma_second_index_unique, raw_day,
    DiffType, Fields,
};
use crate::weekday::{days_forward, weekday_of_day, Weekday};
use vstd::prelude::*;
use vstd::std_specs::ops::SubSpec;

verus! {

/// Realigning valid fields to the minute gives the value that
/// `CivilMinute::new` builds from their year, month, day, hour and minute.
pub proof fn law_realign_minute_is_new(f: Fields, c: CivilMinute)
    requires
        f.wf(),
        c.wf(),
        c@.minute_index() == raw_day(f.y as int, f.m as int, f.d as int) * 1440 + f.hh * 60 + f.mm,
    ensures
        c@ == align_minute(f),
{
    lemma_raw_day_in_month(f.y as int, f.m as int, f.d as int);
    lemma_day_offset(f.y as int, f.m as int, f.d as int);
    lemma_second_index_unique(c@, align_minute(f));
}

/// Realigning valid fields to the hour gives the value that `CivilHour::new`
/// builds from their year, month, day and hour.
pub proof fn law_realign_hour_is_new(f: Fields, c: CivilHour)
    requires
        f.wf(),
        c.wf(),
        c@.hour_index() == raw_day(f.y as int, f.m as int, f.d as int) * 24 + f.hh,
    ensures
        c@ == align_hour(f),
{
    lemma_raw_day_in_month(f.y as int, f.m as int, f.d as int);
    lemma_day_offset(f.y as int, f.m as int, f.d as int);
    lemma_second_index_unique(c@, align_hour(f));
}

/// Realigning valid fields to the day gives the value that `CivilDay::new`
/// builds from their year, month and day.
pub proof fn law_realign_day_is_new(f: Fields, c: CivilDay)
    requires
        f.wf(),
        c.wf(),
        c@.day_index() == raw_day(f.y as int, f.m as int, f.d as int),
    ensures
        c@ == align_day(f),
{
    lemma_raw_day_in_month(f.y as int, f.m as int, f.d as int);
    lemma_day_offset(f.y as int, f.m as int, f.d as int);
    lemma_second_index_unique(c@, align_day(f));
}

/// Realigning valid fields to the month gives the value that
/// `CivilMonth::new` builds from their year and month.
pub proof fn law_realign_month_is_new(f: Fields, c: CivilMonth)
    requires
        f.wf(),
        c.wf(),
        c@.month_index() == f.y * 12 + f.m - 1,
    ensures
        c@ == align_month(f),
{
    lemma_month_index_unique(c@, align_month(f));
}

/// Realigning valid fields to the year gives the value that `CivilYear::new`
/// builds from their year.
pub proof fn law_realign_year_is_new(f: Fields, c: CivilYear)
    requires
        f.wf(),
        c.wf(),
        c@.y == f.y,
    ensures
        c@ == align_year(f),
{
}

/// The difference of two second-aligned values is the negation of the
/// difference taken the other way.
pub proof fn law_second_difference_antisymmetric(a: CivilSecond, b: CivilSecond)
    requires
        i64::MIN <= a@.second_index() - b@.second_index() <= i64::MAX,
        i64::MIN <= b@.second_index() - a@.second_index() <= i64::MAX,
    ensures
        a.sub_spec(b) == -b.sub_spec(a),
{
}

/// Adding `n` seconds and then taking the difference from the start gives `n`
/// back.
pub proof fn law_second_add_then_difference(a: CivilSecond, n: DiffType, b: CivilSecond)
    requires
        b.wf(),
        b@.second_index() == a@.second_index() + n,
    ensures
        b.sub_spec(a) == n,
{
}

/// Subtracting `n` seconds and adding them back returns the start, for every
/// `n`, the most negative included.
pub proof fn law_second_sub_then_add(a: CivilSecond, n: DiffType, b: CivilSecond, c: CivilSecond)
    requires
        a.wf(),
        b.wf(),
        c.wf(),
        b@.second_index() == a@.second_index() - n,
        c@.second_index() == b@.second_index() + n,
    ensures
        c == a,
{
    CivilSecond::lemma_unique(c, a);
}

/// The difference of two minute-aligned values is the negation of the
/// difference taken the other way.
pub proof fn law_minute_difference_antisymmetric(a: CivilMinute, b: CivilMinute)
    requires
        i64::MIN <= a@.minute_index() - b@.minute_index() <= i64::MAX,
        i64::MIN <= b@.minute_index() - a@.minute_index() <= i64::MAX,
    ensures
        a.sub_spec(b) == -b.sub_spec(a),
{
}

/// Adding `n` minutes and then taking the difference from the start gives `n`
/// back.
pub proof fn law_minute_add_then_difference(a: CivilMinute, n: DiffType, b: CivilMinute)
    requires
        b.wf(),
        b@.minute_index() == a@.minute_index() + n,
    ensures
        b.sub_spec(a) == n,
{
}

/// Subtracting `n` minutes and adding them back returns the start, for every
/// `n`, the most negative included.
pub proof fn law_minute_sub_then_add(a: CivilMinute, n: DiffType, b: CivilMinute, c: CivilMinute)
    requires
        a.wf(),
        b.wf(),
        c.wf(),
        b@.minute_index() == a@.minute_index() - n,
        c@.minute_index() == b@.minute_index() + n,
    ensures
        c == a,
{
    CivilMinute::lemma_unique(c, a);
}

/// The difference of two hour-aligned values is the negation of the
/// difference taken the other way.
pub proof fn law_hour_difference_antisymmetric(a: CivilHour, b: CivilHour)
    requires
        i64::MIN <= a@.hour_index() - b@.hour_index() <= i64::MAX,
        i64::MIN <= b@.hour_index() - a@.hour_index() <= i64::MAX,
    ensures
        a.sub_spec(b) == -b.sub_spec(a),
{
}

/// Adding `n` hours and then taking the difference from the start gives `n`
/// back.
pub proof fn law_hour_add_then_difference(a: CivilHour, n: DiffType, b: CivilHour)
    requires
        b.wf(),
        b@.hour_index() == a@.hour_index() + n,
    ensures
        b.sub_spec(a) == n,
{
}

/// Subtracting `n` hours and adding them back returns the start, for every
/// `n`, the most negative included.
pub proof fn law_hour_sub_then_add(a: CivilHour, n: DiffType, b: CivilHour, c: CivilHour)
    requires
        a.wf(),
        b.wf(),
        c.wf(),
        b@.hour_index() == a@.hour_index() - n,
        c@.hour_index() == b@.hour_index() + n,
    ensures
        c == a,
{
    CivilHour::lemma_unique(c, a);
}

/// The difference of two day-aligned values is the negation of the
/// difference taken the other way.
pub proof fn law_day_difference_antisymmetric(a: CivilDay, b: CivilDay)
    requires
        i64::MIN <= a@.day_index() - b@.day_index() <= i64::MAX,
        i64::MIN <= b@.day_index() - a@.day_index() <= i64::MAX,
    ensures
        a.sub_spec(b) == -b.sub_spec(a),
{
}

/// Adding `n` days and then taking the difference from the start gives `n`
/// back.
pub proof fn law_day_add_then_difference(a: CivilDay, n: DiffType, b: CivilDay)
    requires
        b.wf(),
        b@.day_index() == a@.day_index() + n,
    ensures
        b.sub_spec(a) == n,
{
}

/// Subtracting `n` days and adding them back returns the start, for every
/// `n`, the most negative included.
pub proof fn law_day_sub_then_add(a: CivilDay, n: DiffType, b: CivilDay, c: CivilDay)
    requires
        a.wf(),
        b.wf(),
        c.wf(),
        b@.day_index() == a@.day_index() - n,
        c@.day_index() == b@.day_index() + n,
    ensures
        c == a,
{
    CivilDay::lemma_unique(c, a);
}

/// The difference of two month-aligned values is the negation of the
/// difference taken the other way.
pub proof fn law_month_difference_antisymmetric(a: CivilMonth, b: CivilMonth)
    requires
        i64::MIN <= a@.month_index() - b@.month_index() <= i64::MAX,
        i64::MIN <= b@.month_index() - a@.month_index() <= i64::MAX,
    ensures
        a.sub_spec(b) == -b.sub_spec(a),
{
}

/// Adding `n` months and then taking the difference from the start gives `n`
/// back.
pub proof fn law_month_add_then_difference(a: CivilMonth, n: DiffType, b: CivilMonth)
    requires
        b.wf(),
        b@.month_index() == a@.month_index() + n,
    ensures
        b.sub_spec(a) == n,
{
}

/// Subtracting `n` months and adding them back returns the start, for every
/// `n`, the most negative included.
pub proof fn law_month_sub_then_add(a: CivilMonth, n: DiffType, b: CivilMonth, c: CivilMonth)
    requires
        a.wf(),
        b.wf(),
        c.wf(),
        b@.month_index() == a@.month_index() - n,
        c@.month_index() == b@.month_index() + n,
    ensures
        c == a,
{
    CivilMonth::lemma_unique(c, a);
}

/// The difference of two year-aligned values is the negation of the
/// difference taken the other way.
pub proof fn law_year_difference_antisymmetric(a: CivilYear, b: CivilYear)
    requires
        i64::MIN <= a@.y - b@.y <= i64::MAX,
        i64::MIN <= b@.y - a@.y <= i64::MAX,
    ensures
        a.sub_spec(b) == -b.sub_spec(a),
{
}

/// Adding `n` years and then taking the difference from the start gives `n`
/// back.
pub proof fn law_year_add_then_difference(a: CivilYear, n: DiffType, b: CivilYear)
    requires
        b.wf(),
        b@.y == a@.y + n,
    ensures
        b.sub_spec(a) == n,
{
}

/// Subtracting `n` years and adding them back returns the start, for every
/// `n`, the most negative included.
pub proof fn law_year_sub_then_add(a: CivilYear, n: DiffType, b: CivilYear, c: CivilYear)
    requires
        a.wf(),
        b.wf(),
        c.wf(),
        b@.y == a@.y - n,
        c@.y == b@.y + n,
    ensures
        c == a,
{
    CivilYear::lemma_unique(c, a);
}

/// Searching forward from any day reaches the weekday asked for after 1 to 7
/// days, and after exactly 7 when the day already falls on it; searching
/// backward likewise.
pub proof fn law_weekday_search(day: int, wd: Weekday)
    ensures
        1 <= days_forward(weekday_of_day(day), wd) <= 7,
        1 <= days_forward(wd, weekday_of_day(day)) <= 7,
        weekday_of_day(day + days_forward(weekday_of_day(day), wd)) == wd,
        weekday_of_day(day - days_forward(wd, weekday_of_day(day))) == wd,
        wd == weekday_of_day(day) ==> days_forward(weekday_of_day(day), wd) == 7,
{
    lemma_div(day + 3, 7);
    let k = days_forward(weekday_of_day(day), wd);
    let b = days_forward(wd, weekday_of_day(day));
    lemma_div(day + 3 + k, 7);
    lemma_div(day + 3 - b, 7);
    lemma_div(wd.index() - weekday_of_day(day).index() + 6, 7);
    lemma_div(weekday_of_day(day).index() - wd.index() + 6, 7);
}

/// `next_weekday` lands 1 to 7 days later, on the weekday asked for, and 7
/// days later when the day already falls on it.
pub proof fn law_next_weekday(d: CivilDay, wd: Weekday, r: CivilDay)
    requires
        r@.day_index() == d@.day_index() + days_forward(weekday_of_day(d@.day_index()), wd),
    ensures
        1 <= r.sub_spec(d) <= 7,
        weekday_of_day(r@.day_index()) == wd,
        wd == weekday_of_day(d@.day_index()) ==> r.sub_spec(d) == 7,
{
    law_weekday_search(d@.day_index(), wd);
}

/// `prev_weekday` lands 1 to 7 days earlier, on the weekday asked for, and 7
/// days earlier when the day already falls on it.
pub proof fn law_prev_weekday(d: CivilDay, wd: Weekday, r: CivilDay)
    requires
        r@.day_index() == d@.day_index() - days_forward(wd, weekday_of_day(d@.day_index())),
    ensures
        1 <= d.sub_spec(r) <= 7,
        weekday_of_day(r@.day_index()) == wd,
        wd == weekday_of_day(d@.day_index()) ==> d.sub_spec(r) == 7,
{
    law_weekday_search(d@.day_index(), wd);
}

/// Comparing valid fields field by field, year first, orders them by the
/// instant they name: earlier instants compare less, and only equal fields
/// compare equal.
pub proof fn law_order_is_chronological(a: Fields, b: Fields)
    requires
        a.wf(),
        b.wf(),
    ensures
        (fields_cmp(a, b) == Ordering::Less) == (a.second_index() < b.second_index()),
        (fields_cmp(a, b) == Ordering::Equal) == (a == b),
        (fields_cmp(a, b) == Ordering::Greater) == (a.second_index() > b.second_index()),
{
    lemma_earlier_fields(a, b);
    lemma_earlier_fields(b, a);
}

/// Fields that compare less name an earlier instant.
proof fn lemma_earlier_fields(a: Fields, b: Fields)
    requires
        a.wf(),
        b.wf(),
    ensures
        fields_cmp(a, b) == Ordering::Less ==> a.second_index() < b.second_index(),
        fields_cmp(a, b) == Ordering::Equal ==> a == b,
{
    lemma_fields_in_month(a);
    lemma_fields_in_month(b);
    if a.month_index() < b.month_index() {
        if a.month_index() + 1 < b.month_index() {
            lemma_month_start_mono(a.month_index() + 1, b.month_index());
        }
        assert(a.day_index() < b.day_index());
    } else if a.month_index() == b.month_index() {
        assert(a.y == b.y && a.m == b.m);
        lemma_day_offset(a.y as int, a.m as int, a.d as int);
        lemma_day_offset(b.y as int, b.m as int, b.d as int);
    }
}

/// The day after February 28 is February 29 in leap years and March 1
/// otherwise.
pub proof fn law_day_after_february_28(y: int)
    ensures
        is_leap(y) ==> valid_date(y, 2, 29) && day_number(y, 2, 29) == day_number(y, 2, 28) + 1,
        !is_leap(y) ==> day_number(y, 3, 1) == day_number(y, 2, 28) + 1,
{
    lemma_day_offset(y, 2, 28);
    lemma_day_offset(y, 2, 29);
    lemma_month_step(y, 2);
}

} // verus!
