use civil_time::{CivilDay, CivilHour, CivilMinute, CivilSecond, Weekday};

fn show_day(d: CivilDay) -> String {
    format!("{}-{:0>2}-{:0>2}", d.year(), d.month(), d.day())
}

#[test]
fn weekday_test_debug_format() {
    assert_eq!("Mon", format!("{:?}", Weekday::Mon));
    assert_eq!("Tue", format!("{:?}", Weekday::Tue));
    assert_eq!("Wed", format!("{:?}", Weekday::Wed));
    assert_eq!("Thu", format!("{:?}", Weekday::Thu));
    assert_eq!("Fri", format!("{:?}", Weekday::Fri));
    assert_eq!("Sat", format!("{:?}", Weekday::Sat));
    assert_eq!("Sun", format!("{:?}", Weekday::Sun));
}

#[test]
fn test_next_prev_weekday() {
    // Jan 1, 1970 was a Thursday.
    let thursday = CivilDay::new(1970, 1, 1);
    assert_eq!(Weekday::Thu, thursday.weekday());

    // Thursday -> Thursday
    let d = thursday.next_weekday(Weekday::Thu);
    assert_eq!(7, d - thursday);
    assert_eq!(d - 14, thursday.prev_weekday(Weekday::Thu));

    // Thursday -> Friday
    let d = thursday.next_weekday(Weekday::Fri);
    assert_eq!(1, d - thursday);
    assert_eq!(d - 7, thursday.prev_weekday(Weekday::Fri));

    // Thursday -> Saturday
    let d = thursday.next_weekday(Weekday::Sat);
    assert_eq!(2, d - thursday);
    assert_eq!(d - 7, thursday.prev_weekday(Weekday::Sat));

    // Thursday -> Sunday
    let d = thursday.next_weekday(Weekday::Sun);
    assert_eq!(3, d - thursday);
    assert_eq!(d - 7, thursday.prev_weekday(Weekday::Sun));

    // Thursday -> Monday
    let d = thursday.next_weekday(Weekday::Mon);
    assert_eq!(4, d - thursday);
    assert_eq!(d - 7, thursday.prev_weekday(Weekday::Mon));

    // Thursday -> Tuesday
    let d = thursday.next_weekday(Weekday::Tue);
    assert_eq!(5, d - thursday);
    assert_eq!(d - 7, thursday.prev_weekday(Weekday::Tue));

    // Thursday -> Wednesday
    let d = thursday.next_weekday(Weekday::Wed);
    assert_eq!(6, d - thursday);
    assert_eq!(d - 7, thursday.prev_weekday(Weekday::Wed));
}

#[test]
fn test_first_thursday_in_month() {
    let nov1 = CivilDay::new(2014, 11, 1);
    let thursday = (nov1 - 1).next_weekday(Weekday::Thu);
    assert_eq!("2014-11-06", show_day(thursday));

    // Bonus: Date of Thanksgiving in the United States
    // Rule: Fourth Thursday of November
    let thanksgiving = thursday + 7 * 3;
    assert_eq!("2014-11-27", show_day(thanksgiving));
}

#[test]
fn weekday_scenario_august_2015() {
    let a = CivilDay::new(2015, 8, 13);
    assert_eq!(Weekday::Thu, a.weekday());
    assert_eq!("2015-08-20", show_day(a.next_weekday(Weekday::Thu)));
    assert_eq!("2015-08-06", show_day(a.prev_weekday(Weekday::Thu)));
    assert_eq!("2015-08-13", show_day((a - 1).next_weekday(Weekday::Thu)));
    assert_eq!("2015-08-13", show_day((a + 1).prev_weekday(Weekday::Thu)));
}

#[test]
fn weekday_search_stays_within_a_week() {
    let days = [
        CivilDay::new(2015, 8, 13),
        CivilDay::new(2000, 2, 29),
        CivilDay::new(-400, 1, 1),
        CivilDay::new(1600, 12, 31),
    ];
    let all = [
        Weekday::Mon,
        Weekday::Tue,
        Weekday::Wed,
        Weekday::Thu,
        Weekday::Fri,
        Weekday::Sat,
        Weekday::Sun,
    ];
    for d in days {
        for wd in all {
            let next = d.next_weekday(wd);
            let prev = d.prev_weekday(wd);
            assert!(1 <= next - d && next - d <= 7);
            assert!(1 <= d - prev && d - prev <= 7);
            assert_eq!(wd, next.weekday());
            assert_eq!(wd, prev.weekday());
        }
        assert_eq!(7, d.next_weekday(d.weekday()) - d);
        assert_eq!(7, d - d.prev_weekday(d.weekday()));
    }
}

#[test]
fn weekday_navigation_from_finer_alignments() {
    let s = CivilSecond::new(2015, 8, 13, 23, 59, 59);
    assert_eq!("2015-08-20", show_day(s.next_weekday(Weekday::Thu)));
    let m = CivilMinute::new(2015, 8, 13, 23, 59);
    assert_eq!("2015-08-14", show_day(m.next_weekday(Weekday::Fri)));
    let h = CivilHour::new(2015, 8, 13, 23);
    assert_eq!("2015-08-12", show_day(h.prev_weekday(Weekday::Wed)));
}

#[test]
fn weekday_far_from_the_epoch() {
    // The Gregorian calendar repeats every 400 years.
    assert_eq!(Weekday::Thu, CivilDay::new(1970 + 400 * 1000, 1, 1).weekday());
    assert_eq!(Weekday::Thu, CivilDay::new(1970 - 400 * 1000, 1, 1).weekday());
    // 1 January 2001 was a Monday.
    assert_eq!(Weekday::Mon, CivilDay::new(2001, 1, 1).weekday());
    assert_eq!(Weekday::Sat, CivilDay::new(2000, 1, 1).weekday());
}
