use civil_time::{CivilDay, CivilHour, CivilMinute, CivilMonth, CivilSecond, CivilYear};

#[test]
fn test_conversion() {
    let cy = CivilYear::new(2016);
    assert_eq!(2016, cy.year());
    let cm = CivilMonth::from_year(cy);
    assert_eq!(1, cm.month());
    let cd = CivilDay::from_month(cm);
    assert_eq!(1, cd.day());
    let chh = CivilHour::from_day(cd);
    assert_eq!(0, chh.hour());
    let cmm = CivilMinute::from_hour(chh);
    assert_eq!(0, cmm.minute());
    let css = CivilSecond::from_minute(cmm);
    assert_eq!(0, css.minute());
}

// Sources: 2016-03-28T17:14:12 as a second, and the same instant at each
// coarser alignment.
fn src_second() -> CivilSecond {
    CivilSecond::new(2016, 3, 28, 17, 14, 12)
}

fn src_minute() -> CivilMinute {
    CivilMinute::new(2016, 3, 28, 17, 14)
}

fn src_hour() -> CivilHour {
    CivilHour::new(2016, 3, 28, 17)
}

fn src_day() -> CivilDay {
    CivilDay::new(2016, 3, 28)
}

fn src_month() -> CivilMonth {
    CivilMonth::new(2016, 3)
}

fn src_year() -> CivilYear {
    CivilYear::new(2016)
}

#[test]
fn test_second_conversion() {
    assert_eq!(14, CivilSecond::from_minute(src_minute()).minute());
    assert_eq!(17, CivilSecond::from_hour(src_hour()).hour());
    assert_eq!(28, CivilSecond::from_day(src_day()).day());
    assert_eq!(3, CivilSecond::from_month(src_month()).month());
    assert_eq!(2016, CivilSecond::from_year(src_year()).year());
}

#[test]
fn test_minute_conversion() {
    assert_eq!(0, CivilMinute::from_second(src_second()).second());
    assert_eq!(17, CivilMinute::from_hour(src_hour()).hour());
    assert_eq!(28, CivilMinute::from_day(src_day()).day());
    assert_eq!(3, CivilMinute::from_month(src_month()).month());
    assert_eq!(2016, CivilMinute::from_year(src_year()).year());
}

#[test]
fn test_hour_conversion() {
    assert_eq!(0, CivilHour::from_second(src_second()).second());
    assert_eq!(0, CivilHour::from_minute(src_minute()).minute());
    assert_eq!(28, CivilHour::from_day(src_day()).day());
    assert_eq!(3, CivilHour::from_month(src_month()).month());
    assert_eq!(2016, CivilHour::from_year(src_year()).year());
}

#[test]
fn test_day_conversion() {
    assert_eq!(0, CivilDay::from_second(src_second()).second());
    assert_eq!(0, CivilDay::from_minute(src_minute()).minute());
    assert_eq!(0, CivilDay::from_hour(src_hour()).hour());
    assert_eq!(3, CivilDay::from_month(src_month()).month());
    assert_eq!(2016, CivilDay::from_year(src_year()).year());
}

#[test]
fn test_month_conversion() {
    assert_eq!(0, CivilMonth::from_second(src_second()).second());
    assert_eq!(0, CivilMonth::from_minute(src_minute()).minute());
    assert_eq!(0, CivilMonth::from_hour(src_hour()).hour());
    assert_eq!(1, CivilMonth::from_day(src_day()).day());
    assert_eq!(2016, CivilMonth::from_year(src_year()).year());
}

#[test]
fn test_year_conversion() {
    assert_eq!(0, CivilYear::from_second(src_second()).second());
    assert_eq!(0, CivilYear::from_minute(src_minute()).minute());
    assert_eq!(0, CivilYear::from_hour(src_hour()).hour());
    assert_eq!(1, CivilYear::from_day(src_day()).day());
    assert_eq!(1, CivilYear::from_month(src_month()).month());
}

#[test]
fn realign_equals_direct_construction() {
    let s = CivilSecond::new(2015, 11, 22, 12, 34, 56);
    assert_eq!(CivilMinute::from(s), CivilMinute::new(2015, 11, 22, 12, 34));
    assert_eq!(CivilHour::from(s), CivilHour::new(2015, 11, 22, 12));
    assert_eq!(CivilDay::from(s), CivilDay::new(2015, 11, 22));
    assert_eq!(CivilMonth::from(s), CivilMonth::new(2015, 11));
    assert_eq!(CivilYear::from(s), CivilYear::new(2015));
    // Realigning back to the second does not restore the dropped fields.
    let back = CivilSecond::from(CivilDay::from(s));
    assert_eq!(0, back.hour());
    assert!(back < s);
}
