use bench_hashes::calendar::civil_date_from_unix_days;
use bench_hashes::calendar::format_utc_timestamp;
use bench_hashes::clock::timestamp_from_seconds;
use bench_hashes::clock::utc_timestamp;
use bench_hashes::clock::TimestampError;

#[test]
fn unix_epoch_is_first_of_january_1970() {
    assert_eq!(civil_date_from_unix_days(0), (1970, 1, 1));
}

#[test]
fn leap_day_of_2000() {
    assert_eq!(civil_date_from_unix_days(11016), (2000, 2, 29));
}

#[test]
fn day_before_the_epoch() {
    assert_eq!(civil_date_from_unix_days(-1), (1969, 12, 31));
}

#[test]
fn start_of_2024() {
    assert_eq!(civil_date_from_unix_days(19723), (2024, 1, 1));
}

#[test]
fn start_of_the_shifted_era() {
    assert_eq!(civil_date_from_unix_days(-719_468), (0, 3, 1));
}

#[test]
fn last_day_of_9999() {
    assert_eq!(civil_date_from_unix_days(2_932_896), (9999, 12, 31));
}

#[test]
fn distinct_days_give_distinct_dates() {
    let mut previous = civil_date_from_unix_days(-800);
    for day in -799..800 {
        let date = civil_date_from_unix_days(day);
        assert_ne!(date, previous);
        assert!(date > previous);
        previous = date;
    }
}

#[test]
fn timestamp_of_the_epoch() {
    assert_eq!(format_utc_timestamp(0), "1970-01-01 00:00:00 UTC");
}

#[test]
fn timestamp_of_a_leap_day() {
    assert_eq!(format_utc_timestamp(951_782_400), "2000-02-29 00:00:00 UTC");
}

#[test]
fn timestamp_with_every_field_set() {
    assert_eq!(format_utc_timestamp(1_700_000_000), "2023-11-14 22:13:20 UTC");
}

#[test]
fn last_second_of_the_first_day() {
    assert_eq!(format_utc_timestamp(86_399), "1970-01-01 23:59:59 UTC");
}

#[test]
fn start_of_2100() {
    assert_eq!(format_utc_timestamp(4_102_444_800), "2100-01-01 00:00:00 UTC");
}

#[test]
fn current_timestamp_has_the_report_shape() {
    let text = utc_timestamp().expect("the system clock reads after 1970");
    let bytes = text.as_bytes();
    assert_eq!(bytes.len(), 23);
    assert!(text.ends_with(" UTC"));
    for (index, byte) in bytes.iter().enumerate().take(19) {
        match index {
            4 | 7 => assert_eq!(*byte, b'-'),
            10 => assert_eq!(*byte, b' '),
            13 | 16 => assert_eq!(*byte, b':'),
            _ => assert!(byte.is_ascii_digit()),
        }
    }
    assert!(text.as_str() >= "2024-01-01 00:00:00 UTC");
}

#[test]
fn timestamp_from_whole_seconds() {
    assert_eq!(timestamp_from_seconds(0), Ok("1970-01-01 00:00:00 UTC".to_string()));
    assert_eq!(timestamp_from_seconds(1_700_000_000), Ok("2023-11-14 22:13:20 UTC".to_string()));
    assert!(timestamp_from_seconds(i64::MAX as u64).is_ok());
    assert_eq!(timestamp_from_seconds(i64::MAX as u64 + 1), Err(TimestampError::OutOfRange));
    assert_eq!(timestamp_from_seconds(u64::MAX), Err(TimestampError::OutOfRange));
}
