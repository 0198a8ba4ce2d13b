use civil_time::{
    Builder, CivilDay, CivilHour, CivilMinute, CivilMonth, CivilSecond, CivilYear, DiffType,
    Weekday,
};

trait Show {
    fn show(&self) -> String;
}

impl Show for CivilSecond {
    fn show(&self) -> String {
        format!(
            "{}-{:0>2}-{:0>2}T{:0>2}:{:0>2}:{:0>2}",
            self.year(),
            self.month(),
            self.day(),
            self.hour(),
            self.minute(),
            self.second()
        )
    }
}

impl Show for CivilMinute {
    fn show(&self) -> String {
        format!(
            "{}-{:0>2}-{:0>2}T{:0>2}:{:0>2}",
            self.year(),
            self.month(),
            self.day(),
            self.hour(),
            self.minute()
        )
    }
}

impl Show for CivilHour {
    fn show(&self) -> String {
        format!("{}-{:0>2}-{:0>2}T{:0>2}", self.year(), self.month(), self.day(), self.hour())
    }
}

impl Show for CivilDay {
    fn show(&self) -> String {
        format!("{}-{:0>2}-{:0>2}", self.year(), self.month(), self.day())
    }
}

impl Show for CivilMonth {
    fn show(&self) -> String {
        format!("{}-{:0>2}", self.year(), self.month())
    }
}

impl Show for CivilYear {
    fn show(&self) -> String {
        format!("{}", self.year())
    }
}

impl Show for Weekday {
    fn show(&self) -> String {
        format!("{:?}", self)
    }
}

fn expect_eq<T: Show>(expect: &str, given: T) {
    assert_eq!(expect, given.show());
}

#[test]
fn test_normal() {
    let css = CivilSecond::new(2016, 1, 28, 17, 14, 12);
    assert_eq!(12, css.second());
    let cmm = CivilMinute::new(2016, 1, 28, 17, 14);
    assert_eq!(14, cmm.minute());
    let chh = CivilHour::new(2016, 1, 28, 17);
    assert_eq!(17, chh.hour());
    let cd = CivilDay::new(2016, 1, 28);
    assert_eq!(28, cd.day());
    let cm = CivilMonth::new(2016, 1);
    assert_eq!(1, cm.month());
    let cy = CivilYear::new(2016);
    assert_eq!(2016, cy.year());
}

fn check_fields(c: CivilSecond, y: i64, m: i32, d: i32, hh: i32, mm: i32, ss: i32) {
    assert_eq!(y, c.year());
    assert_eq!(m, c.month());
    assert_eq!(d, c.day());
    assert_eq!(hh, c.hour());
    assert_eq!(mm, c.minute());
    assert_eq!(ss, c.second());
}

#[test]
fn test_normalized() {
    let css = CivilSecond::new(2016, 1, 28, 17, 14, 12);
    check_fields(css, 2016, 1, 28, 17, 14, 12);
}

#[test]
fn test_second_overflow() {
    let css = CivilSecond::new(2016, 1, 28, 17, 14, 121);
    check_fields(css, 2016, 1, 28, 17, 16, 1);
}

#[test]
fn test_second_underflow() {
    let css = CivilSecond::new(2016, 1, 28, 17, 14, -121);
    check_fields(css, 2016, 1, 28, 17, 11, 59);
}

#[test]
fn test_minute_overflow() {
    let css = CivilSecond::new(2016, 1, 28, 17, 121, 12);
    check_fields(css, 2016, 1, 28, 19, 1, 12);
}

#[test]
fn test_minute_underflow() {
    let css = CivilSecond::new(2016, 1, 28, 17, -121, 12);
    check_fields(css, 2016, 1, 28, 14, 59, 12);
}

#[test]
fn test_hour_overflow() {
    let css = CivilSecond::new(2016, 1, 28, 49, 14, 12);
    check_fields(css, 2016, 1, 30, 1, 14, 12);
}

#[test]
fn test_hour_underflow() {
    let css = CivilSecond::new(2016, 1, 28, -49, 14, 12);
    check_fields(css, 2016, 1, 25, 23, 14, 12);
}

#[test]
fn test_month_overflow() {
    let css = CivilSecond::new(2016, 25, 28, 17, 14, 12);
    check_fields(css, 2018, 1, 28, 17, 14, 12);
}

#[test]
fn test_month_underflow() {
    let css = CivilSecond::new(2016, -25, 28, 17, 14, 12);
    check_fields(css, 2013, 11, 28, 17, 14, 12);
}

#[test]
fn test_c4_overflow() {
    let css = CivilSecond::new(2016, 1, 292195, 17, 14, 12);
    check_fields(css, 2816, 1, 1, 17, 14, 12);
}

#[test]
fn test_c4_underflow() {
    let css = CivilSecond::new(2016, 1, -292195, 17, 14, 12);
    check_fields(css, 1215, 12, 30, 17, 14, 12);
}

#[test]
fn test_mixed_normalization() {
    let css = CivilSecond::new(2016, -42, 122, 99, -147, 4949);
    check_fields(css, 2012, 10, 4, 1, 55, 29);
}

#[test]
fn test_addition() {
    let cs1 = CivilSecond::new(2016, 1, 28, 17, 14, 12);
    let cs2 = cs1.add_diff(50);
    check_fields(cs2, 2016, 1, 28, 17, 15, 2);
}

#[test]
fn test_subtraction() {
    let cs1 = CivilSecond::new(2016, 1, 28, 17, 14, 12);
    let cs2 = cs1.sub_diff(50);
    check_fields(cs2, 2016, 1, 28, 17, 13, 22);
}

#[test]
fn test_difference() {
    let cd1 = CivilDay::new(2016, 1, 28);
    let cd2 = CivilDay::new(2015, 1, 28);
    let diff: DiffType = cd1.difference(cd2);
    assert_eq!(365, diff);
}

#[test]
fn test_new_with_huge_year() {
    let h = CivilHour::new(-9223372036854775807, 1, 1, -1);
    assert_eq!(-9223372036854775807 - 1, h.year());
    assert_eq!(12, h.month());
    assert_eq!(31, h.day());
    assert_eq!(23, h.hour());
}

#[test]
fn test_difference_with_huge_year() {
    {
        let d1 = CivilDay::new(9223372036854775807, 1, 1);
        let d2 = CivilDay::new(9223372036854775807, 12, 31);
        assert_eq!(364, d2.difference(d1));
    }
    {
        let d1 = CivilDay::new(-9223372036854775807 - 1, 1, 1);
        let d2 = CivilDay::new(-9223372036854775807 - 1, 12, 31);
        assert_eq!(365, d2.difference(d1));
    }
    {
        // Check the limits of the return value at the end of the year range.
        let d1 = CivilDay::new(9223372036854775807, 1, 1);
        let d2 = CivilDay::new(9198119301927009252, 6, 6);
        assert_eq!(9223372036854775807, d1.difference(d2));
        assert_eq!(-9223372036854775807 - 1, (d2.sub_diff(1)).difference(d1));
    }
    {
        // Check the limits of the return value at the start of the year range.
        let d1 = CivilDay::new(-9223372036854775807 - 1, 1, 1);
        let d2 = CivilDay::new(-9198119301927009254, 7, 28);
        assert_eq!(9223372036854775807, d2.difference(d1));
        assert_eq!(-9223372036854775807 - 1, d1.difference(d2.add_diff(1)));
    }
    {
        // Check the limits of the return value from either side of year 0.
        let d1 = CivilDay::new(-12626367463883278, 9, 3);
        let d2 = CivilDay::new(12626367463883277, 3, 28);
        assert_eq!(9223372036854775807, d2.difference(d1));
        assert_eq!(-9223372036854775807 - 1, d1.difference(d2.add_diff(1)));
    }
}

#[test]
fn test_difference_no_intermediate_overflow() {
    {
        // The difference up to the minute field would be below the minimum
        // DiffType, but the 52 extra seconds brings us back to the minimum.
        let s1 = CivilSecond::new(-292277022657, 1, 27, 8, 29 - 1, 52);
        let s2 = CivilSecond::new(1970, 1, 1, 0, 0 - 1, 0);
        assert_eq!(-9223372036854775807 - 1, s1.difference(s2));
    }
    {
        // The difference up to the minute field would be above the maximum
        // DiffType, but the -53 extra seconds brings us back to the maximum.
        let s1 = CivilSecond::new(292277026596, 12, 4, 15, 30, 7 - 7);
        let s2 = CivilSecond::new(1970, 1, 1, 0, 0, 0 - 7);
        assert_eq!(9223372036854775807, s1.difference(s2));
    }
}

#[test]
fn test_weekday() {
    let cd = CivilDay::new(2016, 1, 28);
    let wd: Weekday = cd.weekday();
    assert!(wd.equals(Weekday::Thu));
}

#[test]
fn test_next_weekday() {
    let cd = CivilDay::new(2016, 1, 28);
    let next = cd.next_weekday(Weekday::Thu);
    assert_eq!(2016, next.year());
    assert_eq!(2, next.month());
    assert_eq!(4, next.day());
}

#[test]
fn test_prev_weekday() {
    let cd = CivilDay::new(2016, 1, 28);
    let prev = cd.prev_weekday(Weekday::Thu);
    assert_eq!(2016, prev.year());
    assert_eq!(1, prev.month());
    assert_eq!(21, prev.day());
}

#[test]
fn test_yearday() {
    let cd = CivilDay::new(2016, 1, 28);
    let yd: i32 = cd.yearday();
    assert_eq!(28, yd);
}

#[test]
fn test_default() {
    let ss = CivilSecond::default();
    expect_eq("1970-01-01T00:00:00", ss);

    let mm = CivilMinute::default();
    expect_eq("1970-01-01T00:00", mm);

    let hh = CivilHour::default();
    expect_eq("1970-01-01T00", hh);

    let d = CivilDay::default();
    expect_eq("1970-01-01", d);

    let m = CivilMonth::default();
    expect_eq("1970-01", m);

    let y = CivilYear::default();
    expect_eq("1970", y);
}

#[test]
fn test_builder_build_second() {
    expect_eq(
        "2015-01-02T03:04:05",
        Builder::new().year(2015).month(1).day(2).hour(3).minute(4).second(5).build_second(),
    );
    expect_eq(
        "2015-01-02T03:04:00",
        Builder::new().year(2015).month(1).day(2).hour(3).minute(4).build_second(),
    );
    expect_eq(
        "2015-01-02T03:00:00",
        Builder::new().year(2015).month(1).day(2).hour(3).build_second(),
    );
    expect_eq("2015-01-02T00:00:00", Builder::new().year(2015).month(1).day(2).build_second());
    expect_eq("2015-01-01T00:00:00", Builder::new().year(2015).month(1).build_second());
    expect_eq("2015-01-01T00:00:00", Builder::new().year(2015).build_second());
}

#[test]
fn test_builder_build_minute() {
    expect_eq(
        "2015-01-02T03:04",
        Builder::new().year(2015).month(1).day(2).hour(3).minute(4).second(5).build_minute(),
    );
    expect_eq(
        "2015-01-02T03:04",
        Builder::new().year(2015).month(1).day(2).hour(3).minute(4).build_minute(),
    );
    expect_eq("2015-01-02T03:00", Builder::new().year(2015).month(1).day(2).hour(3).build_minute());
    expect_eq("2015-01-02T00:00", Builder::new().year(2015).month(1).day(2).build_minute());
    expect_eq("2015-01-01T00:00", Builder::new().year(2015).month(1).build_minute());
    expect_eq("2015-01-01T00:00", Builder::new().year(2015).build_minute());
}

#[test]
fn test_builder_build_hour() {
    expect_eq(
        "2015-01-02T03",
        Builder::new().year(2015).month(1).day(2).hour(3).minute(4).second(5).build_hour(),
    );
    expect_eq(
        "2015-01-02T03",
        Builder::new().year(2015).month(1).day(2).hour(3).minute(4).build_hour(),
    );
    expect_eq("2015-01-02T03", Builder::new().year(2015).month(1).day(2).hour(3).build_hour());
    expect_eq("2015-01-02T00", Builder::new().year(2015).month(1).day(2).build_hour());
    expect_eq("2015-01-01T00", Builder::new().year(2015).month(1).build_hour());
    expect_eq("2015-01-01T00", Builder::new().year(2015).build_hour());
}

#[test]
fn test_builder_build_day() {
    expect_eq(
        "2015-01-02",
        Builder::new().year(2015).month(1).day(2).hour(3).minute(4).second(5).build_day(),
    );
    expect_eq(
        "2015-01-02",
        Builder::new().year(2015).month(1).day(2).hour(3).minute(4).build_day(),
    );
    expect_eq("2015-01-02", Builder::new().year(2015).month(1).day(2).hour(3).build_day());
    expect_eq("2015-01-02", Builder::new().year(2015).month(1).day(2).build_day());
    expect_eq("2015-01-01", Builder::new().year(2015).month(1).build_day());
    expect_eq("2015-01-01", Builder::new().year(2015).build_day());
}

#[test]
fn test_builder_build_month() {
    expect_eq(
        "2015-01",
        Builder::new().year(2015).month(1).day(2).hour(3).minute(4).second(5).build_month(),
    );
    expect_eq("2015-01", Builder::new().year(2015).month(1).day(2).hour(3).minute(4).build_month());
    expect_eq("2015-01", Builder::new().year(2015).month(1).day(2).hour(3).build_month());
    expect_eq("2015-01", Builder::new().year(2015).month(1).day(2).build_month());
    expect_eq("2015-01", Builder::new().year(2015).month(1).build_month());
    expect_eq("2015-01", Builder::new().year(2015).build_month());
}

#[test]
fn test_builder_build_year() {
    expect_eq(
        "2015",
        Builder::new().year(2015).month(1).day(2).hour(3).minute(4).second(5).build_year(),
    );
    expect_eq("2015", Builder::new().year(2015).month(1).day(2).hour(3).minute(4).build_year());
    expect_eq("2015", Builder::new().year(2015).month(1).day(2).hour(3).build_year());
    expect_eq("2015", Builder::new().year(2015).month(1).day(2).build_year());
    expect_eq("2015", Builder::new().year(2015).month(1).build_year());
    expect_eq("2015", Builder::new().year(2015).build_year());
}

#[test]
fn test_builder_build_by_hint() {
    let builder = Builder::new().year(2015).month(1).day(2).hour(3).minute(4).second(5);

    let ss: CivilSecond = builder.build();
    expect_eq("2015-01-02T03:04:05", ss);

    let mm: CivilMinute = builder.build();
    expect_eq("2015-01-02T03:04", mm);

    let hh: CivilHour = builder.build();
    expect_eq("2015-01-02T03", hh);

    let d: CivilDay = builder.build();
    expect_eq("2015-01-02", d);

    let m: CivilMonth = builder.build();
    expect_eq("2015-01", m);

    let y: CivilYear = builder.build();
    expect_eq("2015", y);
}

#[test]
fn test_new_limits() {
    let max = i64::from(i32::MAX);
    expect_eq("2038-01-19T03:14:07", CivilSecond::new(1970, 1, 1, 0, 0, max));
    expect_eq("6121-02-11T05:21:07", CivilSecond::new(1970, 1, 1, 0, max, max));
    expect_eq("251104-11-20T12:21:07", CivilSecond::new(1970, 1, 1, max, max, max));
    expect_eq("6130715-05-30T12:21:07", CivilSecond::new(1970, 1, max, max, max, max));
    expect_eq("185087685-11-26T12:21:07", CivilSecond::new(1970, max, max, max, max, max));

    let min = i64::from(i32::MIN);
    expect_eq("1901-12-13T20:45:52", CivilSecond::new(1970, 1, 1, 0, 0, min));
    expect_eq("-2182-11-20T18:37:52", CivilSecond::new(1970, 1, 1, 0, min, min));
    expect_eq("-247165-02-11T10:37:52", CivilSecond::new(1970, 1, 1, min, min, min));
    expect_eq("-6126776-08-01T10:37:52", CivilSecond::new(1970, 1, min, min, min, min));
    expect_eq("-185083747-10-31T10:37:52", CivilSecond::new(1970, min, min, min, min, min));
}

#[test]
fn test_arithmetic() {
    let mut second = CivilSecond::new(2015, 1, 2, 3, 4, 5);
    second = second + 1;
    expect_eq("2015-01-02T03:04:06", second);
    expect_eq("2015-01-02T03:04:07", second + 1);
    expect_eq("2015-01-02T03:04:05", second - 1);
    second = second - 1;
    expect_eq("2015-01-02T03:04:05", second);

    let mut minute = CivilMinute::new(2015, 1, 2, 3, 4);
    minute = minute + 1;
    expect_eq("2015-01-02T03:05", minute);
    expect_eq("2015-01-02T03:06", minute + 1);
    expect_eq("2015-01-02T03:04", minute - 1);
    minute = minute - 1;
    expect_eq("2015-01-02T03:04", minute);

    let mut hour = CivilHour::new(2015, 1, 2, 3);
    hour = hour + 1;
    expect_eq("2015-01-02T04", hour);
    expect_eq("2015-01-02T05", hour + 1);
    expect_eq("2015-01-02T03", hour - 1);
    hour = hour - 1;
    expect_eq("2015-01-02T03", hour);

    let mut day = CivilDay::new(2015, 1, 2);
    day = day + 1;
    expect_eq("2015-01-03", day);
    expect_eq("2015-01-04", day + 1);
    expect_eq("2015-01-02", day - 1);
    day = day - 1;
    expect_eq("2015-01-02", day);

    let mut month = CivilMonth::new(2015, 1);
    month = month + 1;
    expect_eq("2015-02", month);
    expect_eq("2015-03", month + 1);
    expect_eq("2015-01", month - 1);
    month = month - 1;
    expect_eq("2015-01", month);

    let mut year = CivilYear::new(2015);
    year = year + 1;
    expect_eq("2016", year);
    expect_eq("2017", year + 1);
    expect_eq("2015", year - 1);
    year = year - 1;
    expect_eq("2015", year);
}

#[test]
fn test_arithmetic_limits() {
    let (max, min) = (i64::from(i32::MAX), i64::from(i32::MIN));

    let mut second = CivilSecond::new(1970, 1, 1, 0, 0, 0);
    second = second + max;
    expect_eq("2038-01-19T03:14:07", second);
    second = second - max;
    expect_eq("1970-01-01T00:00:00", second);
    second = second + min;
    expect_eq("1901-12-13T20:45:52", second);
    second = second - min;
    expect_eq("1970-01-01T00:00:00", second);

    let mut minute = CivilMinute::new(1970, 1, 1, 0, 0);
    minute = minute + max;
    expect_eq("6053-01-23T02:07", minute);
    minute = minute - max;
    expect_eq("1970-01-01T00:00", minute);
    minute = minute + min;
    expect_eq("-2114-12-08T21:52", minute);
    minute = minute - min;
    expect_eq("1970-01-01T00:00", minute);

    let mut hour = CivilHour::new(1970, 1, 1, 0);
    hour = hour + max;
    expect_eq("246953-10-09T07", hour);
    hour = hour - max;
    expect_eq("1970-01-01T00", hour);
    hour = hour + min;
    expect_eq("-243014-03-24T16", hour);
    hour = hour - min;
    expect_eq("1970-01-01T00", hour);

    let mut day = CivilDay::new(1970, 1, 1);
    day = day + max;
    expect_eq("5881580-07-11", day);
    day = day - max;
    expect_eq("1970-01-01", day);
    day = day + min;
    expect_eq("-5877641-06-23", day);
    day = day - min;
    expect_eq("1970-01-01", day);

    let mut month = CivilMonth::new(1970, 1);
    month = month + max;
    expect_eq("178958940-08", month);
    month = month - max;
    expect_eq("1970-01", month);
    month = month + min;
    expect_eq("-178955001-05", month);
    month = month - min;
    expect_eq("1970-01", month);

    let mut year = CivilYear::new(0);
    year = year + max;
    expect_eq("2147483647", year);
    year = year - max;
    expect_eq("0", year);
    year = year + min;
    expect_eq("-2147483648", year);
    year = year - min;
    expect_eq("0", year);
}

#[test]
fn test_arithmetic_difference() {
    let second = CivilSecond::new(2015, 1, 2, 3, 4, 5);
    assert_eq!(0, second - second);
    assert_eq!(10, (second + 10) - second);
    assert_eq!(-10, (second - 10) - second);

    let minute = CivilMinute::new(2015, 1, 2, 3, 4);
    assert_eq!(0, minute - minute);
    assert_eq!(10, (minute + 10) - minute);
    assert_eq!(-10, (minute - 10) - minute);

    let hour = CivilHour::new(2015, 1, 2, 3);
    assert_eq!(0, hour - hour);
    assert_eq!(10, (hour + 10) - hour);
    assert_eq!(-10, (hour - 10) - hour);

    let day = CivilDay::new(2015, 1, 2);
    assert_eq!(0, day - day);
    assert_eq!(10, (day + 10) - day);
    assert_eq!(-10, (day - 10) - day);

    let month = CivilMonth::new(2015, 1);
    assert_eq!(0, month - month);
    assert_eq!(10, (month + 10) - month);
    assert_eq!(-10, (month - 10) - month);

    let year = CivilYear::new(2015);
    assert_eq!(0, year - year);
    assert_eq!(10, (year + 10) - year);
    assert_eq!(-10, (year - 10) - year);
}

#[test]
fn test_difference_limits() {
    let (max, min) = (i64::MAX, i64::MIN);

    // Check day arithmetic at the end of the year range.
    let max_day = CivilDay::new(max, 12, 31);
    assert_eq!(1, max_day - (max_day - 1));
    assert_eq!(-1, (max_day - 1) - max_day);

    // Check day arithmetic at the start of the year range.
    let min_day = CivilDay::new(min, 1, 1);
    assert_eq!(1, (min_day + 1) - min_day);
    assert_eq!(-1, min_day - (min_day + 1));

    let (d1, d2) = (CivilDay::new(1970, 1, 1), CivilDay::new(5881580, 7, 11));
    assert_eq!(i64::from(i32::MAX), d2 - d1);
    assert_eq!(i64::from(i32::MIN), d1 - (d2 + 1));
}

#[test]
fn test_properties() {
    let ss = CivilSecond::new(2015, 2, 3, 4, 5, 6);
    assert_eq!(2015, ss.year());
    assert_eq!(2, ss.month());
    assert_eq!(3, ss.day());
    assert_eq!(4, ss.hour());
    assert_eq!(5, ss.minute());
    assert_eq!(6, ss.second());
    assert_eq!(Weekday::Tue, ss.weekday());
    assert_eq!(34, ss.yearday());

    let mm = Builder::new().year(2015).month(2).day(3).hour(4).minute(5).second(6).build_minute();
    assert_eq!(2015, mm.year());
    assert_eq!(2, mm.month());
    assert_eq!(3, mm.day());
    assert_eq!(4, mm.hour());
    assert_eq!(5, mm.minute());
    assert_eq!(0, mm.second());
    assert_eq!(Weekday::Tue, mm.weekday());
    assert_eq!(34, mm.yearday());

    let hh = Builder::new().year(2015).month(2).day(3).hour(4).minute(5).second(6).build_hour();
    assert_eq!(2015, hh.year());
    assert_eq!(2, hh.month());
    assert_eq!(3, hh.day());
    assert_eq!(4, hh.hour());
    assert_eq!(0, hh.minute());
    assert_eq!(0, hh.second());
    assert_eq!(Weekday::Tue, hh.weekday());
    assert_eq!(34, hh.yearday());

    let d = Builder::new().year(2015).month(2).day(3).hour(4).minute(5).second(6).build_day();
    assert_eq!(2015, d.year());
    assert_eq!(2, d.month());
    assert_eq!(3, d.day());
    assert_eq!(0, d.hour());
    assert_eq!(0, d.minute());
    assert_eq!(0, d.second());
    assert_eq!(Weekday::Tue, d.weekday());
    assert_eq!(34, d.yearday());

    let m = Builder::new().year(2015).month(2).day(3).hour(4).minute(5).second(6).build_month();
    assert_eq!(2015, m.year());
    assert_eq!(2, m.month());
    assert_eq!(1, m.day());
    assert_eq!(0, m.hour());
    assert_eq!(0, m.minute());
    assert_eq!(0, m.second());
    assert_eq!(Weekday::Sun, m.weekday());
    assert_eq!(32, m.yearday());

    let y = Builder::new().year(2015).month(2).day(3).hour(4).minute(5).second(6).build_year();
    assert_eq!(2015, y.year());
    assert_eq!(1, y.month());
    assert_eq!(1, y.day());
    assert_eq!(0, y.hour());
    assert_eq!(0, y.minute());
    assert_eq!(0, y.second());
    assert_eq!(Weekday::Thu, y.weekday());
    assert_eq!(1, y.yearday());
}

#[test]
fn lib_test_debug_format() {
    // Years are not padded.
    expect_eq("2016", CivilYear::new(2016));
    expect_eq("123", CivilYear::new(123));
    expect_eq("0", CivilYear::new(0));
    expect_eq("-1", CivilYear::new(-1));

    // Finer fields are padded to 2 digits.
    expect_eq("2016-02", CivilMonth::new(2016, 2));
    expect_eq("2016-02-03", CivilDay::new(2016, 2, 3));
    expect_eq("2016-02-03T04", CivilHour::new(2016, 2, 3, 4));
    expect_eq("2016-02-03T04:05", CivilMinute::new(2016, 2, 3, 4, 5));
    expect_eq("2016-02-03T04:05:06", CivilSecond::new(2016, 2, 3, 4, 5, 6));
}

#[test]
fn test_normalize_with_huge_year() {
    let c = CivilMonth::new(9223372036854775807, 1);
    expect_eq("9223372036854775807-01", c);
    // Causes normalization
    let c = c - 1;
    expect_eq("9223372036854775806-12", c);

    let c = CivilMonth::new(-9223372036854775807 - 1, 1);
    expect_eq("-9223372036854775808-01", c);
    // Causes normalization
    let c = c + 12;
    expect_eq("-9223372036854775807-01", c);
}

#[test]
fn test_leap_years() {
    // (year, days, month and day after Feb 28)
    let leap_year_table = [
        (1900, 365, 3, 1),
        (1999, 365, 3, 1),
        (2000, 366, 2, 29), // leap year
        (2001, 365, 3, 1),
        (2002, 365, 3, 1),
        (2003, 365, 3, 1),
        (2004, 366, 2, 29), // leap year
        (2005, 365, 3, 1),
        (2006, 365, 3, 1),
        (2007, 365, 3, 1),
        (2008, 366, 2, 29), // leap year
        (2009, 365, 3, 1),
        (2100, 365, 3, 1),
    ];

    for e in leap_year_table {
        // Tests incrementing through the leap day.
        let feb28 = CivilDay::new(e.0, 2, 28);
        let next_day = feb28 + 1;
        assert_eq!(e.2, next_day.month());
        assert_eq!(e.3, next_day.day());

        // Tests difference in days of leap years.
        let year = CivilYear::from(feb28);
        let next_year = year + 1;
        assert_eq!(e.1, CivilDay::from(next_year) - CivilDay::from(year));
    }
}
