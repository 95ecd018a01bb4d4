use budget_balancer::calendar::{iso_string_of_day, CalendarDay};

#[test]
fn days_are_numbered_from_the_first_of_january_of_year_one() {
    assert_eq!(CalendarDay::from_ymd(1, 1, 1).unwrap().days_from_ce(), 1);
    assert_eq!(CalendarDay::from_ymd(1970, 1, 1).unwrap().days_from_ce(), 719_163);
    assert_eq!(CalendarDay::from_ymd(2025, 1, 1).unwrap().days_from_ce(), 739_252);
    assert_eq!(CalendarDay::from_ymd(9999, 12, 31).unwrap().days_from_ce(), 3_652_059);
}

#[test]
fn days_that_do_not_exist_or_are_out_of_range_are_none() {
    assert!(CalendarDay::from_ymd(2025, 2, 29).is_none());
    assert!(CalendarDay::from_ymd(2024, 2, 29).is_some());
    assert!(CalendarDay::from_ymd(2025, 13, 1).is_none());
    assert!(CalendarDay::from_ymd(2025, 0, 1).is_none());
    assert!(CalendarDay::from_ymd(2025, 4, 31).is_none());
    assert!(CalendarDay::from_ymd(0, 12, 31).is_none());
    assert!(CalendarDay::from_ymd(10_000, 1, 1).is_none());
    assert!(CalendarDay::from_days_from_ce(0).is_none());
    assert!(CalendarDay::from_days_from_ce(1).is_some());
    assert!(CalendarDay::from_days_from_ce(3_652_059).is_some());
    assert!(CalendarDay::from_days_from_ce(3_652_060).is_none());
    assert!(CalendarDay::from_days_from_ce(i32::MIN).is_none());
    assert!(CalendarDay::from_days_from_ce(i32::MAX).is_none());
}

#[test]
fn days_are_written_as_year_month_day() {
    let day = CalendarDay::from_ymd(2025, 6, 18).unwrap();
    assert_eq!(day.to_iso_string(), "2025-06-18");
    assert_eq!(day.iso_string_after(0), "2025-06-18");
    assert_eq!(day.iso_string_after(30), "2025-07-18");
    assert_eq!(day.iso_string_after(365), "2026-06-18");
    assert_eq!(day.iso_string_before(30), "2025-05-19");
    assert_eq!(day.iso_string_before(18), "2025-05-31");
    assert_eq!(day.month_start_string(), "2025-06-01");
    assert_eq!(CalendarDay::from_ymd(42, 3, 7).unwrap().to_iso_string(), "0042-03-07");
    assert_eq!(CalendarDay::from_ymd(42, 3, 7).unwrap().month_start_string(), "0042-03-01");
}

#[test]
fn days_near_the_ends_of_the_range_are_written() {
    let first = CalendarDay::from_days_from_ce(1).unwrap();
    assert_eq!(first.to_iso_string(), "0001-01-01");
    assert_eq!(first.iso_string_before(1), "0000-12-31");
    assert_eq!(first.iso_string_before(u16::MAX), "-0179-07-29");
    let last = CalendarDay::from_days_from_ce(3_652_059).unwrap();
    assert_eq!(last.to_iso_string(), "9999-12-31");
    assert_eq!(last.iso_string_after(1), "+10000-01-01");
    assert_eq!(last.iso_string_after(u16::MAX), "+10179-06-05");
}

#[test]
fn days_have_a_year_a_month_a_day_and_a_weekday() {
    let day = CalendarDay::from_ymd(2025, 6, 18).unwrap();
    assert_eq!(day.year(), 2025);
    assert_eq!(day.month(), 6);
    assert_eq!(day.day(), 18);
    // a Wednesday
    assert_eq!(day.weekday_from_monday(), 2);
    assert_eq!(CalendarDay::from_ymd(2025, 6, 16).unwrap().weekday_from_monday(), 0);
    assert_eq!(CalendarDay::from_ymd(2025, 6, 22).unwrap().weekday_from_monday(), 6);
    let first = CalendarDay::from_days_from_ce(1).unwrap();
    assert_eq!((first.year(), first.month(), first.day(), first.weekday_from_monday()), (1, 1, 1, 0));
    let last = CalendarDay::from_days_from_ce(3_652_059).unwrap();
    assert_eq!((last.year(), last.month(), last.day()), (9999, 12, 31));
}

#[test]
fn days_are_read_from_text() {
    assert_eq!(CalendarDay::parse("2025-06-18", "%Y-%m-%d").unwrap().days_from_ce(), 739_420);
    assert_eq!(CalendarDay::parse("06/18/2025", "%m/%d/%Y").unwrap().days_from_ce(), 739_420);
    assert!(CalendarDay::parse("2025-06-18", "%m/%d/%Y").is_none());
    assert!(CalendarDay::parse("2025-02-30", "%Y-%m-%d").is_none());
    assert!(CalendarDay::parse("", "%Y-%m-%d").is_none());
    assert!(CalendarDay::parse("2025-06-18", "%Q").is_none());
    // a day that is read but lies outside the range
    assert!(CalendarDay::parse("0000-06-18", "%Y-%m-%d").is_none());
}

#[test]
fn day_numbers_are_written_where_the_calendar_reaches() {
    assert_eq!(iso_string_of_day(739_420).unwrap(), "2025-06-18");
    assert_eq!(iso_string_of_day(0).unwrap(), "0000-12-31");
    assert_eq!(iso_string_of_day(-1).unwrap(), "0000-12-30");
    assert!(iso_string_of_day(100_000_000).is_none());
    assert!(iso_string_of_day(-100_000_000).is_none());
    assert!(iso_string_of_day(i32::MAX).is_none());
    assert!(iso_string_of_day(i32::MIN).is_none());
}
