use lines::calendar::Date;
use lines::timestamp::{
    get_timestamp, parse_timestamp, timestamp_from_clock, timestamp_from_secs, timestamp_of_date,
    ClockError,
};

fn date(year: u64, month: u64, day: u64) -> Date {
    Date { year, month, day }
}

#[test]
fn the_epoch_is_stamped_as_the_first_day_of_1970() {
    assert_eq!(timestamp_from_secs(0), "1970_01_01");
}

#[test]
fn the_stamp_changes_at_midnight_only() {
    assert_eq!(timestamp_from_secs(86_399), "1970_01_01");
    assert_eq!(timestamp_from_secs(86_400), "1970_01_02");
    assert_eq!(timestamp_from_secs(1_709_164_800), "2024_02_29");
    assert_eq!(timestamp_from_secs(1_709_251_199), "2024_02_29");
    assert_eq!(timestamp_from_secs(1_709_251_200), "2024_03_01");
}

#[test]
fn stamps_of_known_days() {
    assert_eq!(timestamp_from_secs(951_782_400), "2000_02_29");
    assert_eq!(timestamp_from_secs(946_598_400), "1999_12_31");
    assert_eq!(timestamp_from_secs(4_107_456_000), "2100_02_28");
    assert_eq!(timestamp_from_secs(4_107_542_400), "2100_03_01");
    assert_eq!(timestamp_from_secs(253_402_214_400), "9999_12_31");
}

#[test]
fn a_year_of_five_digits_is_written_in_full() {
    assert_eq!(timestamp_from_secs(253_402_300_800), "10000_01_01");
}

#[test]
fn fields_are_padded_with_zeros() {
    assert_eq!(timestamp_of_date(&date(7, 3, 9)), "0007_03_09");
    assert_eq!(timestamp_of_date(&date(0, 1, 1)), "0000_01_01");
    assert_eq!(timestamp_of_date(&date(123_456, 11, 30)), "123456_11_30");
    assert_eq!(
        timestamp_of_date(&date(u64::MAX, 12, 31)),
        "18446744073709551615_12_31"
    );
}

#[test]
fn a_clock_before_the_epoch_gives_no_stamp() {
    assert_eq!(timestamp_from_clock(None), Err(ClockError::BeforeEpoch));
}

#[test]
fn a_clock_reading_gives_the_stamp_of_its_day() {
    assert_eq!(
        timestamp_from_clock(Some(1_709_164_800)),
        Ok(String::from("2024_02_29"))
    );
}

#[test]
fn the_system_clock_gives_a_stamp_that_reads_back() {
    let stamp = get_timestamp().unwrap();
    let read = parse_timestamp(&stamp).unwrap();
    assert!(read.is_valid());
    assert!(read.year >= 2024);
    assert_eq!(timestamp_of_date(&read), stamp);
}

#[test]
fn stamps_read_back_as_the_date_they_were_written_for() {
    let dates = [
        date(1970, 1, 1),
        date(1900, 2, 28),
        date(2000, 2, 29),
        date(2024, 2, 29),
        date(2100, 2, 28),
        date(9999, 12, 31),
        date(10_000, 1, 1),
        date(0, 1, 1),
        date(999, 10, 10),
        date(u64::MAX, 12, 31),
    ];
    for wanted in dates {
        assert!(wanted.is_valid());
        assert_eq!(parse_timestamp(&timestamp_of_date(&wanted)), Some(wanted));
    }
}

#[test]
fn every_day_of_a_leap_year_reads_back() {
    let mut secs = 1_704_067_200;
    let mut count = 0;
    while count < 366 {
        let stamp = timestamp_from_secs(secs);
        let read = parse_timestamp(&stamp).unwrap();
        assert_eq!(read.year, 2024);
        assert_eq!(timestamp_of_date(&read), stamp);
        secs += 86_400;
        count += 1;
    }
    assert_eq!(timestamp_from_secs(secs), "2025_01_01");
}

#[test]
fn a_stamp_is_parsed_into_its_fields() {
    assert_eq!(parse_timestamp("2024_02_29"), Some(date(2024, 2, 29)));
    assert_eq!(parse_timestamp("10000_01_01"), Some(date(10_000, 1, 1)));
    assert_eq!(parse_timestamp("0000_01_01"), Some(date(0, 1, 1)));
}

#[test]
fn dates_that_do_not_exist_are_not_parsed() {
    assert_eq!(parse_timestamp("2023_02_29"), None);
    assert_eq!(parse_timestamp("1900_02_29"), None);
    assert_eq!(parse_timestamp("2024_13_01"), None);
    assert_eq!(parse_timestamp("2024_00_10"), None);
    assert_eq!(parse_timestamp("2024_04_31"), None);
    assert_eq!(parse_timestamp("2024_04_00"), None);
}

#[test]
fn texts_of_another_shape_are_not_parsed() {
    assert_eq!(parse_timestamp(""), None);
    assert_eq!(parse_timestamp("024_01_01"), None);
    assert_eq!(parse_timestamp("02024_01_01"), None);
    assert_eq!(parse_timestamp("2024-02-29"), None);
    assert_eq!(parse_timestamp("2024_2_29"), None);
    assert_eq!(parse_timestamp("2024_02_2x"), None);
    assert_eq!(parse_timestamp("20x4_02_29"), None);
    assert_eq!(parse_timestamp("2024_02_29 "), None);
    assert_eq!(parse_timestamp("2024_02_2\u{e9}"), None);
    assert_eq!(parse_timestamp("\u{661}\u{662}\u{663}\u{664}_02_29"), None);
    assert_eq!(parse_timestamp("__________"), None);
}

#[test]
fn a_year_too_large_for_the_machine_is_not_parsed() {
    assert_eq!(
        parse_timestamp("18446744073709551615_01_01"),
        Some(date(u64::MAX, 1, 1))
    );
    assert_eq!(parse_timestamp("18446744073709551616_01_01"), None);
    assert_eq!(parse_timestamp("99999999999999999999999_01_01"), None);
}
