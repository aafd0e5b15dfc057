use change_report::calendar::{Instant, SECONDS_PER_DAY};

#[test]
fn an_instant_keeps_its_seconds() {
    let instant = Instant::from_seconds(1_609_459_200).unwrap();
    assert_eq!(instant.seconds(), 1_609_459_200);
    assert_eq!(Instant::from_seconds(0).unwrap().seconds(), 0);
    assert_eq!(Instant::from_seconds(-1).unwrap().seconds(), -1);
}

#[test]
fn instants_beyond_the_calendar_are_refused() {
    assert!(Instant::from_seconds(i64::MAX).is_none());
    assert!(Instant::from_seconds(i64::MIN).is_none());
    assert!(Instant::from_seconds(9_000_000_000_000_000).is_none());
    assert!(Instant::from_seconds(253_402_300_799).is_some());
}

#[test]
fn days_are_counted_from_the_epoch() {
    assert_eq!(SECONDS_PER_DAY, 86_400);
    let day = |secs: i64| Instant::from_seconds(secs).unwrap().day();
    assert_eq!(day(0), 0);
    assert_eq!(day(1), 0);
    assert_eq!(day(86_399), 0);
    assert_eq!(day(86_400), 1);
    assert_eq!(day(-1), -1);
    assert_eq!(day(-86_400), -1);
    assert_eq!(day(-86_401), -2);
    assert_eq!(day(1_609_459_200), 18_628);
    assert_eq!(day(1_609_459_199), 18_627);
}

#[test]
fn the_day_number_is_the_floor_of_the_quotient() {
    for secs in [-200_000i64, -172_801, -172_800, -86_401, -86_400, -1, 0, 86_399, 86_400, 200_000]
    {
        let instant = Instant::from_seconds(secs).unwrap();
        assert_eq!(instant.day(), secs.div_euclid(86_400));
        assert_eq!(instant.date().number(), secs.div_euclid(86_400));
    }
}

#[test]
fn headings_name_day_month_and_year() {
    let heading = |secs: i64| Instant::from_seconds(secs).unwrap().heading();
    assert_eq!(heading(1_609_459_200), " 1 January 2021");
    assert_eq!(heading(1_609_545_599), " 1 January 2021");
    assert_eq!(heading(1_431_648_000), "15 May 2015");
    assert_eq!(heading(-1), "31 December 1969");
    assert_eq!(heading(0), " 1 January 1970");
}

#[test]
fn cells_give_the_date_in_digits() {
    let cell = |secs: i64| Instant::from_seconds(secs).unwrap().cell();
    assert_eq!(cell(1_609_459_200), "2021-01-01");
    assert_eq!(cell(1_431_648_000), "2015-05-15");
    assert_eq!(cell(1_234_567_890), "2009-02-13");
    assert_eq!(cell(-1), "1969-12-31");
}

#[test]
fn a_date_is_written_as_its_instant() {
    let instant = Instant::from_seconds(1_609_500_000).unwrap();
    let date = instant.date();
    assert_eq!(date.number(), 18_628);
    assert_eq!(date.heading(), " 1 January 2021");
    assert_eq!(date.heading(), instant.heading());
}
