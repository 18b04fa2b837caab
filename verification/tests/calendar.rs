use lines::calendar::{date_from_days, days_in_month, days_in_year, is_leap_year, Date};

fn date(year: u64, month: u64, day: u64) -> Date {
    Date { year, month, day }
}

#[test]
fn leap_years_follow_the_gregorian_rule() {
    assert!(is_leap_year(2000));
    assert!(is_leap_year(2024));
    assert!(is_leap_year(1972));
    assert!(!is_leap_year(1900));
    assert!(!is_leap_year(2100));
    assert!(!is_leap_year(2023));
    assert!(is_leap_year(0));
}

#[test]
fn years_have_365_or_366_days() {
    assert_eq!(days_in_year(2024), 366);
    assert_eq!(days_in_year(2023), 365);
    assert_eq!(days_in_year(1900), 365);
    assert_eq!(days_in_year(2000), 366);
}

#[test]
fn february_has_29_days_in_leap_years_only() {
    assert_eq!(days_in_month(2000, 2), 29);
    assert_eq!(days_in_month(2024, 2), 29);
    assert_eq!(days_in_month(1900, 2), 28);
    assert_eq!(days_in_month(2100, 2), 28);
}

#[test]
fn months_have_their_usual_lengths() {
    let lengths = [31, 28, 31, 30, 31, 30, 31, 31, 30, 31, 30, 31];
    let mut month = 1;
    while month <= 12 {
        assert_eq!(days_in_month(2023, month), lengths[(month - 1) as usize]);
        month += 1;
    }
}

#[test]
fn a_month_number_out_of_range_has_no_days() {
    assert_eq!(days_in_month(2024, 0), 0);
    assert_eq!(days_in_month(2024, 13), 0);
    assert_eq!(days_in_month(2024, u64::MAX), 0);
}

#[test]
fn day_zero_is_the_first_of_january_1970() {
    assert_eq!(date_from_days(0), date(1970, 1, 1));
    assert_eq!(date_from_days(1), date(1970, 1, 2));
}

#[test]
fn the_year_turns_after_its_last_day() {
    assert_eq!(date_from_days(364), date(1970, 12, 31));
    assert_eq!(date_from_days(365), date(1971, 1, 1));
    assert_eq!(date_from_days(1095), date(1972, 12, 31));
    assert_eq!(date_from_days(10956), date(1999, 12, 31));
    assert_eq!(date_from_days(20088), date(2024, 12, 31));
    assert_eq!(date_from_days(20089), date(2025, 1, 1));
}

#[test]
fn leap_days_are_found() {
    assert_eq!(date_from_days(789), date(1972, 2, 29));
    assert_eq!(date_from_days(11016), date(2000, 2, 29));
    assert_eq!(date_from_days(11017), date(2000, 3, 1));
    assert_eq!(date_from_days(19782), date(2024, 2, 29));
    assert_eq!(date_from_days(19783), date(2024, 3, 1));
}

#[test]
fn a_century_year_that_is_no_leap_year_has_no_leap_day() {
    assert_eq!(date_from_days(47540), date(2100, 2, 28));
    assert_eq!(date_from_days(47541), date(2100, 3, 1));
}

#[test]
fn the_day_of_the_month_stays_within_the_month() {
    let mut day = 0;
    while day < 3000 {
        let found = date_from_days(day);
        assert!(found.is_valid());
        assert!(1 <= found.day && found.day <= 31);
        assert!(1 <= found.month && found.month <= 12);
        day += 1;
    }
}

#[test]
fn dates_that_do_not_exist_are_not_valid() {
    assert!(date(2024, 2, 29).is_valid());
    assert!(!date(2023, 2, 29).is_valid());
    assert!(!date(2024, 4, 31).is_valid());
    assert!(!date(2024, 0, 1).is_valid());
    assert!(!date(2024, 13, 1).is_valid());
    assert!(!date(2024, 1, 0).is_valid());
}
