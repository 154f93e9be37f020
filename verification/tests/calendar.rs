//! Dates and day numbers.

use unifi_ups_monitor::calendar::{
    civil_from_days, date_of_clock, date_of_unix_time, days_from_civil, parse_calendar_date, today,
    CalendarDate,
};

fn date(year: i32, month: u32, day: u32) -> CalendarDate {
    CalendarDate { year, month, day }
}

#[test]
fn day_numbers_of_known_days() {
    assert_eq!(days_from_civil(date(1970, 1, 1)), 0);
    assert_eq!(days_from_civil(date(1969, 12, 31)), -1);
    assert_eq!(days_from_civil(date(2000, 2, 29)), 11_016);
    assert_eq!(days_from_civil(date(2024, 2, 29)), 19_782);
    assert_eq!(days_from_civil(date(0, 3, 1)), -719_468);
    assert_eq!(civil_from_days(0), date(1970, 1, 1));
    assert_eq!(civil_from_days(-1), date(1969, 12, 31));
    assert_eq!(civil_from_days(19_782), date(2024, 2, 29));
    assert_eq!(civil_from_days(-719_468), date(0, 3, 1));
    assert_eq!(civil_from_days(-719_529), date(-1, 12, 31));
}

fn is_leap(year: i32) -> bool {
    year % 4 == 0 && (year % 100 != 0 || year % 400 == 0)
}

fn month_length(year: i32, month: u32) -> u32 {
    match month {
        2 if is_leap(year) => 29,
        2 => 28,
        4 | 6 | 9 | 11 => 30,
        _ => 31,
    }
}

#[test]
fn every_day_follows_the_day_before() {
    let mut days = days_from_civil(date(-401, 1, 1));
    let mut last = date(-402, 12, 31);
    for year in -401..2_402 {
        for month in 1..13 {
            for day in 1..month_length(year, month) + 1 {
                let current = date(year, month, day);
                assert_eq!(days_from_civil(current), days);
                assert_eq!(civil_from_days(days), current);
                assert!(last < current);
                last = current;
                days += 1;
            }
        }
    }
}

#[test]
fn a_year_out_of_range_is_cut() {
    let far = days_from_civil(date(i32::MAX, 12, 31));
    assert_eq!(civil_from_days(far), date(i32::MAX, 12, 31));
    assert_eq!(civil_from_days(far + 1), date(i32::MIN, 1, 1));
    let early = days_from_civil(date(i32::MIN, 1, 1));
    assert_eq!(civil_from_days(early), date(i32::MIN, 1, 1));
    assert_eq!(civil_from_days(early - 1), date(i32::MAX, 12, 31));
    // The ends of the range of day numbers.
    civil_from_days(i64::MIN);
    civil_from_days(i64::MAX - 719_468);
}

#[test]
fn day_numbers_of_fields_out_of_range() {
    assert_eq!(
        days_from_civil(date(2023, 2, 29)),
        days_from_civil(date(2023, 3, 1))
    );
    assert_eq!(
        days_from_civil(date(2023, 1, 0)),
        days_from_civil(date(2022, 12, 31))
    );
    assert_eq!(days_from_civil(date(1970, 1, u32::MAX)), 4_294_967_294);
    days_from_civil(date(i32::MAX, u32::MAX, u32::MAX));
    days_from_civil(date(i32::MIN, 0, 0));
}

#[test]
fn dates_are_shown_with_four_two_and_two_digits() {
    assert_eq!(date(2024, 2, 9).to_string(), "2024-02-09");
    assert_eq!(date(7, 12, 31).to_string(), "0007-12-31");
    assert_eq!(date(12_345, 1, 1).to_string(), "12345-01-01");
    assert_eq!(date(-5, 1, 1).to_string(), "-005-01-01");
    assert_eq!(date(-12_345, 1, 123).to_string(), "-12345-01-123");
    for year in [i32::MIN, -10_000, -999, -1, 0, 1, 999, i32::MAX] {
        assert_eq!(
            date(year, 3, 4).to_string(),
            format!("{:04}-{:02}-{:02}", year, 3, 4)
        );
    }
}

#[test]
fn dates_are_read_back() {
    for day in [
        date(0, 1, 1),
        date(4, 2, 29),
        date(1970, 1, 1),
        date(2026, 9, 6),
        date(12_345, 12, 31),
        date(i32::MAX, 12, 31),
    ] {
        assert_eq!(parse_calendar_date(&day.to_string()), Ok(day));
    }
    // A minus sign looks like a dash between fields.
    assert!(parse_calendar_date(&date(-1, 1, 1).to_string()).is_err());
}

#[test]
fn dates_need_no_leading_zeros() {
    assert_eq!(parse_calendar_date("2024-2-9"), Ok(date(2024, 2, 9)));
    assert_eq!(parse_calendar_date("+2024-+2-+9"), Ok(date(2024, 2, 9)));
}

#[test]
fn faults_of_dates_are_reported() {
    let plain = |value: &str| {
        Err::<CalendarDate, String>(format!("invalid battery installation date '{value}'"))
    };
    for value in [
        "2024",
        "2024-02",
        "2024-02-29-1",
        "2024-02-29-",
        "2023-02-29",
        "1900-02-29",
        "2024-13-01",
        "2024-00-01",
        "2024-01-00",
        "2024-04-31",
        "2024-4294967295-4294967295",
        "2147483647-4294967295-4294967295",
    ] {
        assert_eq!(parse_calendar_date(value), plain(value));
    }
    for (value, error) in [
        ("", "cannot parse integer from empty string"),
        ("-1-1-1", "cannot parse integer from empty string"),
        ("2024--1", "cannot parse integer from empty string"),
        ("2024-1-", "cannot parse integer from empty string"),
        ("x-1-1", "invalid digit found in string"),
        ("2024-x", "invalid digit found in string"),
        ("2024-01-1x", "invalid digit found in string"),
        ("2024-01- 1", "invalid digit found in string"),
        ("2147483648-01-01", "number too large to fit in target type"),
        ("2024-4294967296-01", "number too large to fit in target type"),
    ] {
        assert_eq!(
            parse_calendar_date(value),
            Err(format!("invalid battery installation date '{value}': {error}"))
        );
    }
}

#[test]
fn unix_times_fall_on_utc_days() {
    assert_eq!(date_of_unix_time(0), date(1970, 1, 1));
    assert_eq!(date_of_unix_time(86_399), date(1970, 1, 1));
    assert_eq!(date_of_unix_time(86_400), date(1970, 1, 2));
    assert_eq!(date_of_unix_time(1_700_000_000), date(2023, 11, 14));
    date_of_unix_time(u64::MAX);
}

#[test]
fn a_clock_before_1970_counts_as_its_first_moment() {
    assert_eq!(date_of_clock(None), date(1970, 1, 1));
    assert_eq!(date_of_clock(Some((86_399, 999_999_999))), date(1970, 1, 1));
    assert_eq!(date_of_clock(Some((1_700_000_000, 5))), date(2023, 11, 14));
}

#[test]
fn today_is_the_day_of_the_clock() {
    let seconds = || {
        std::time::SystemTime::now()
            .duration_since(std::time::UNIX_EPOCH)
            .unwrap()
            .as_secs()
    };
    let before = seconds();
    let day = today();
    let after = seconds();
    assert!(date_of_unix_time(before) <= day);
    assert!(day <= date_of_unix_time(after));
    assert!(day > date(2024, 1, 1));
}
