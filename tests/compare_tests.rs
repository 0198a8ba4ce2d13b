use civil_time::{CivilDay, CivilHour, CivilMinute, CivilMonth, CivilSecond, CivilYear};
use std::fmt::Debug;

fn check_val<T>(
    val: T,
    second: CivilSecond,
    minute: CivilMinute,
    hour: CivilHour,
    day: CivilDay,
    month: CivilMonth,
    year: CivilYear,
) where
    T: Debug
        + PartialOrd<CivilSecond>
        + PartialOrd<CivilMinute>
        + PartialOrd<CivilHour>
        + PartialOrd<CivilDay>
        + PartialOrd<CivilMonth>
        + PartialOrd<CivilYear>,
{
    assert_eq!(val, second);
    assert_eq!(val, minute);
    assert_eq!(val, hour);
    assert_eq!(val, day);
    assert_eq!(val, month);
    assert_eq!(val, year);

    assert!(val <= second);
    assert!(val <= minute);
    assert!(val <= hour);
    assert!(val <= day);
    assert!(val <= month);
    assert!(val <= year);
}

#[test]
fn test_relational_ignore_aligment() {
    // Test that the alignment unit is ignored in comparision.
    let year = CivilYear::new(2014);
    let month = CivilMonth::from(year);
    let day = CivilDay::from(month);
    let hour = CivilHour::from(day);
    let minute = CivilMinute::from(hour);
    let second = CivilSecond::from(minute);

    check_val(second, second, minute, hour, day, month, year);
    check_val(minute, second, minute, hour, day, month, year);
    check_val(hour, second, minute, hour, day, month, year);
    check_val(day, second, minute, hour, day, month, year);
    check_val(month, second, minute, hour, day, month, year);
    check_val(year, second, minute, hour, day, month, year);
}

fn check_relational<A, B>(older: A, younger: B)
where
    A: Debug + Copy + PartialOrd<A> + PartialOrd<B>,
    B: Debug + Copy + PartialOrd<B> + PartialOrd<A>,
{
    assert!(!(older < older));
    assert!(!(older > older));
    assert!(older >= older);
    assert!(older <= older);
    assert!(!(younger < younger));
    assert!(!(younger > younger));
    assert!(younger >= younger);
    assert!(younger <= younger);
    assert_eq!(older, older);
    assert_ne!(older, younger);
    assert!(older < younger);
    assert!(older <= younger);
    assert!(younger > older);
    assert!(younger >= older);
}

#[test]
fn test_relational_of_fields() {
    // Year
    check_relational(
        CivilSecond::new(2014, 1, 1, 0, 0, 0),
        CivilSecond::new(2015, 1, 1, 0, 0, 0),
    );
    // Month
    check_relational(
        CivilSecond::new(2014, 1, 1, 0, 0, 0),
        CivilSecond::new(2014, 2, 1, 0, 0, 0),
    );
    // Day
    check_relational(
        CivilSecond::new(2014, 1, 1, 0, 0, 0),
        CivilSecond::new(2014, 1, 2, 0, 0, 0),
    );
    // Hour
    check_relational(
        CivilSecond::new(2014, 1, 1, 0, 0, 0),
        CivilSecond::new(2014, 1, 1, 1, 0, 0),
    );
    // Minute
    check_relational(
        CivilSecond::new(2014, 1, 1, 1, 0, 0),
        CivilSecond::new(2014, 1, 1, 1, 1, 0),
    );
    // Second
    check_relational(
        CivilSecond::new(2014, 1, 1, 1, 1, 0),
        CivilSecond::new(2014, 1, 1, 1, 1, 1),
    );
}

#[test]
fn test_relational_cross_types() {
    // Tests the relational operators of two different civil-time types.
    check_relational(CivilDay::new(2014, 1, 1), CivilMinute::new(2014, 1, 1, 1, 1));
    check_relational(CivilDay::new(2014, 1, 1), CivilMonth::new(2014, 2));
}

#[test]
fn comparison_orders_by_all_fields() {
    let feb_3 = CivilDay::new(2015, 2, 3);
    let mar_4 = CivilDay::new(2015, 3, 4);
    assert!(feb_3 < mar_4);
    assert_eq!(CivilYear::from(feb_3), CivilYear::from(mar_4));

    let feb_3_noon = CivilSecond::new(2015, 2, 3, 12, 0, 0);
    assert!(feb_3 < feb_3_noon);
    assert_eq!(feb_3, CivilDay::from(feb_3_noon));
    assert_eq!(std::cmp::min(mar_4, feb_3), feb_3);
}
