use civil_time::{
    CivilDay, CivilHour, CivilMinute, CivilMonth, CivilSecond, CivilYear, Fields, Weekday,
};

fn ymd(d: CivilDay) -> (i64, i32, i32) {
    (d.year(), d.month(), d.day())
}

fn fields(y: i64, m: i8, d: i8, hh: i8, mm: i8, ss: i8) -> Fields {
    Fields { y, m, d, hh, mm, ss }
}

#[test]
fn canonical_fields_normalize_to_themselves() {
    assert_eq!(fields(2015, 2, 3, 4, 5, 6), Fields::n_sec(2015, 2, 3, 4, 5, 6));
    assert_eq!(fields(2016, 2, 29, 23, 59, 59), Fields::n_sec(2016, 2, 29, 23, 59, 59));
    assert_eq!(fields(-1, 12, 31, 0, 0, 0), Fields::n_sec(-1, 12, 31, 0, 0, 0));
    let s = CivilSecond::new(2000, 12, 31, 23, 59, 59);
    assert_eq!(
        (2000, 12, 31, 23, 59, 59),
        (s.year(), s.month(), s.day(), s.hour(), s.minute(), s.second())
    );
}

#[test]
fn normalizers_carry_each_field() {
    // 2016 is a leap year: 366 days after its first day is 2017-01-01.
    assert_eq!(fields(2017, 1, 1, 4, 5, 6), Fields::n_day(2016, 1, 1, 366, 4, 5, 6));
    assert_eq!(fields(2016, 12, 31, 0, 0, 0), Fields::n_day(2016, 1, 1, 365, 0, 0, 0));
    assert_eq!(fields(2015, 12, 31, 0, 0, 0), Fields::n_day(2016, 1, 0, 0, 0, 0, 0));
    assert_eq!(fields(2017, 2, 1, 0, 0, 0), Fields::n_mon(2016, 14, 1, 0, 0, 0, 0));
    assert_eq!(fields(2015, 12, 1, 0, 0, 0), Fields::n_mon(2016, 0, 1, 0, 0, 0, 0));
    assert_eq!(fields(2016, 1, 2, 1, 0, 0), Fields::n_hour(2016, 1, 1, 0, 25, 0, 0));
    assert_eq!(fields(2015, 12, 31, 23, 0, 0), Fields::n_hour(2016, 1, 1, 0, -1, 0, 0));
    assert_eq!(fields(2016, 1, 1, 2, 1, 0), Fields::n_min(2016, 1, 1, 0, 1, 61, 0));
    assert_eq!(fields(2016, 1, 1, 0, 59, 0), Fields::n_min(2016, 1, 1, 1, 0, -1, 0));
}

#[test]
fn out_of_range_day_rolls_into_next_month() {
    assert_eq!((2016, 11, 1), ymd(CivilDay::new(2016, 10, 32)));
    assert_eq!((2016, 2, 29), ymd(CivilDay::new(2016, 3, 0)));
    assert_eq!((2015, 2, 28), ymd(CivilDay::new(2015, 3, 0)));
}

#[test]
fn second_overflow_carries_into_minutes() {
    let s = CivilSecond::new(2016, 1, 28, 17, 14, 121);
    assert_eq!((17, 16, 1), (s.hour(), s.minute(), s.second()));
}

#[test]
fn difference_of_days_a_year_apart() {
    assert_eq!(365, CivilDay::new(2016, 1, 28) - CivilDay::new(2015, 1, 28));
    assert_eq!(366, CivilDay::new(2017, 1, 28) - CivilDay::new(2016, 1, 28));
}

#[test]
fn yearday_of_first_and_last_days() {
    assert_eq!(1, CivilYear::new(2015).yearday());
    assert_eq!(365, CivilDay::new(2015, 12, 31).yearday());
    assert_eq!(366, CivilDay::new(2016, 12, 31).yearday());
    assert_eq!(60, CivilDay::new(2016, 2, 29).yearday());
    assert_eq!(60, CivilDay::new(2015, 3, 1).yearday());
}

#[test]
fn day_after_february_28() {
    for (y, m, d) in [(1900, 3, 1), (2000, 2, 29), (2004, 2, 29), (2100, 3, 1)] {
        let next = CivilDay::new(y, 2, 28) + 1;
        assert_eq!((y, m, d), ymd(next));
    }
}

#[test]
fn difference_is_antisymmetric() {
    let (a, b) = (CivilSecond::new(2015, 1, 2, 3, 4, 5), CivilSecond::new(1999, 7, 8, 9, 10, 11));
    assert_eq!(a - b, -(b - a));
    let (a, b) = (CivilMinute::new(2015, 1, 2, 3, 4), CivilMinute::new(1999, 7, 8, 9, 10));
    assert_eq!(a - b, -(b - a));
    let (a, b) = (CivilHour::new(2015, 1, 2, 3), CivilHour::new(1999, 7, 8, 9));
    assert_eq!(a - b, -(b - a));
    let (a, b) = (CivilDay::new(2015, 1, 2), CivilDay::new(1999, 7, 8));
    assert_eq!(a - b, -(b - a));
    assert_eq!(5657, a - b);
    let (a, b) = (CivilMonth::new(2015, 1), CivilMonth::new(1999, 7));
    assert_eq!(a - b, -(b - a));
    assert_eq!(186, a - b);
    let (a, b) = (CivilYear::new(2015), CivilYear::new(1999));
    assert_eq!(a - b, -(b - a));
    assert_eq!(16, a - b);
}

#[test]
fn adding_then_subtracting_is_inverse() {
    let n = 1_000_003;
    let s = CivilSecond::new(2015, 1, 2, 3, 4, 5);
    assert_eq!(n, (s + n) - s);
    assert_eq!(s, (s - n) + n);
    assert_eq!(s, (s - i64::MIN) + i64::MIN);
    let m = CivilMinute::new(2015, 1, 2, 3, 4);
    assert_eq!(n, (m + n) - m);
    assert_eq!(m, (m - n) + n);
    assert_eq!(m, (m - i64::MIN) + i64::MIN);
    let h = CivilHour::new(2015, 1, 2, 3);
    assert_eq!(n, (h + n) - h);
    assert_eq!(h, (h - n) + n);
    assert_eq!(h, (h - i64::MIN) + i64::MIN);
    let d = CivilDay::new(2015, 1, 2);
    assert_eq!(n, (d + n) - d);
    assert_eq!(d, (d - n) + n);
    assert_eq!(d, (d - i64::MIN) + i64::MIN);
    let mo = CivilMonth::new(2015, 1);
    assert_eq!(n, (mo + n) - mo);
    assert_eq!(mo, (mo - n) + n);
    assert_eq!(mo, (mo - i64::MIN) + i64::MIN);
    let y = CivilYear::new(-1);
    assert_eq!(n, (y + n) - y);
    assert_eq!(y, (y - n) + n);
    assert_eq!(i64::MAX, (y - i64::MIN).year());
    assert_eq!(y, (y - i64::MIN) + i64::MIN);
}

#[test]
fn subtracting_the_most_negative_amount() {
    let y = CivilYear::new(-1);
    assert_eq!(i64::MAX, y.sub_diff(i64::MIN).year());
    let d = CivilDay::new(1970, 1, 1);
    assert_eq!(d.add_diff(i64::MAX).add_diff(1), d.sub_diff(i64::MIN));
}

#[test]
fn representable_extremes() {
    let lo = CivilSecond::min_value();
    assert_eq!((i64::MIN, 1, 1, 0, 0, 0), (lo.year(), lo.month(), lo.day(), lo.hour(), lo.minute(), lo.second()));
    let hi = CivilSecond::max_value();
    assert_eq!(
        (i64::MAX, 12, 31, 23, 59, 59),
        (hi.year(), hi.month(), hi.day(), hi.hour(), hi.minute(), hi.second())
    );
    assert_eq!(hi, CivilSecond::new(i64::MAX, 12, 31, 23, 59, 59));
    assert_eq!(CivilDay::max_value(), CivilDay::new(i64::MAX, 12, 31));
    assert_eq!(CivilMonth::max_value(), CivilMonth::new(i64::MAX, 12));
    assert_eq!(CivilYear::min_value(), CivilYear::new(i64::MIN));
    assert_eq!(1, CivilDay::max_value() - (CivilDay::max_value() - 1));
    assert_eq!(CivilDay::min_value(), CivilDay::from(CivilSecond::min_value()));
}

#[test]
fn year_carry_near_the_top_of_the_range() {
    // Month 13 of the last year would overflow the year on its own; the
    // negative day brings the date back in range.
    let d = CivilDay::new(i64::MAX, 13, -9);
    assert_eq!((i64::MAX, 12, 22), ymd(d));
    let d = CivilDay::new(i64::MIN, 0, 32);
    assert_eq!((i64::MIN, 1, 1), ymd(d));
}

#[test]
fn weekday_scenarios() {
    let a = CivilDay::new(2015, 8, 13);
    assert_eq!(Weekday::Thu, a.weekday());
    assert_eq!((2015, 8, 20), ymd(a.next_weekday(Weekday::Thu)));
    assert_eq!((2015, 8, 6), ymd(a.prev_weekday(Weekday::Thu)));
    assert_eq!(7, a.next_weekday(a.weekday()) - a);
}

#[test]
fn month_arithmetic_from_month_start() {
    let jan = CivilMonth::new(2015, 1);
    assert_eq!((2016, 1), ((jan + 12).year(), (jan + 12).month()));
    assert_eq!((2014, 12), ((jan - 1).year(), (jan - 1).month()));
    let last_day_of_feb = CivilDay::from(jan + 2) - 1;
    assert_eq!((2015, 2, 28), ymd(last_day_of_feb));
}
