use lib::date_time::{SqlDate, SqlDateTime, SqlTime, SqlTimestamp};

fn date(year: i32, month: u8, day: u8) -> SqlDate {
    SqlDate::from_ymd_unchecked(year, month, day)
}

fn time(hour: u8, minute: u8, second: u8, nanosecond: u32) -> SqlTime {
    SqlTime::from_hms_nano_unchecked(hour, minute, second, nanosecond)
}

#[test]
fn from_ymd_unchecked_keeps_components() {
    let d = date(2024, 13, 40);
    assert_eq!((d.year, d.month, d.day), (2024, 13, 40));
}

#[test]
fn days_since_unix_epoch_known_dates() {
    assert_eq!(date(1970, 1, 1).days_since_unix_epoch(), 0);
    assert_eq!(date(1969, 12, 31).days_since_unix_epoch(), -1);
    assert_eq!(date(2000, 1, 1).days_since_unix_epoch(), 10_957);
    assert_eq!(date(2000, 3, 1).days_since_unix_epoch(), 11_017);
    assert_eq!(date(2024, 2, 29).days_since_unix_epoch(), 19_782);
    assert_eq!(date(2024, 3, 1).days_since_unix_epoch(), 19_783);
    assert_eq!(date(1, 1, 1).days_since_unix_epoch(), -719_162);
    assert_eq!(date(0, 3, 1).days_since_unix_epoch(), -719_468);
    assert_eq!(date(1900, 3, 1).days_since_unix_epoch(), -25_508);
    assert_eq!(date(2100, 2, 28).days_since_unix_epoch(), 47_540);
    assert_eq!(date(9999, 12, 31).days_since_unix_epoch(), 2_932_896);
}

#[test]
fn days_since_unix_epoch_extreme_years() {
    assert_eq!(date(i32::MAX, 12, 31).days_since_unix_epoch(), 784_351_576_776);
    assert_eq!(date(i32::MIN, 1, 1).days_since_unix_epoch(), -784_353_015_833);
}

#[test]
fn days_since_unix_epoch_continues_past_the_month() {
    assert_eq!(
        date(2023, 13, 1).days_since_unix_epoch(),
        date(2024, 1, 1).days_since_unix_epoch()
    );
    assert_eq!(
        date(2023, 1, 32).days_since_unix_epoch(),
        date(2023, 2, 1).days_since_unix_epoch()
    );
}

#[test]
fn from_days_since_unix_epoch_known_days() {
    assert_eq!(SqlDate::from_days_since_unix_epoch(0), Some(date(1970, 1, 1)));
    assert_eq!(SqlDate::from_days_since_unix_epoch(-1), Some(date(1969, 12, 31)));
    assert_eq!(SqlDate::from_days_since_unix_epoch(19_782), Some(date(2024, 2, 29)));
    assert_eq!(SqlDate::from_days_since_unix_epoch(-719_162), Some(date(1, 1, 1)));
    assert_eq!(SqlDate::from_days_since_unix_epoch(-719_468), Some(date(0, 3, 1)));
}

#[test]
fn from_days_since_unix_epoch_out_of_range() {
    assert_eq!(SqlDate::from_days_since_unix_epoch(i64::MAX), None);
    assert_eq!(SqlDate::from_days_since_unix_epoch(i64::MIN), None);
    assert_eq!(
        SqlDate::from_days_since_unix_epoch(784_351_576_776),
        Some(date(i32::MAX, 12, 31))
    );
    assert_eq!(SqlDate::from_days_since_unix_epoch(784_351_576_777), None);
    assert_eq!(
        SqlDate::from_days_since_unix_epoch(-784_353_015_833),
        Some(date(i32::MIN, 1, 1))
    );
    assert_eq!(SqlDate::from_days_since_unix_epoch(-784_353_015_834), None);
}

#[test]
fn date_round_trip_over_many_days() {
    let mut n: i64 = -1_000_000;
    while n <= 1_000_000 {
        let d = SqlDate::from_days_since_unix_epoch(n).unwrap();
        assert!((1..=12).contains(&d.month));
        assert!(d.day >= 1 && d.day <= 31);
        assert_eq!(d.days_since_unix_epoch(), n);
        n += 7;
    }
}

#[test]
fn next_day_adds_one() {
    let pairs = [
        (date(2024, 2, 28), date(2024, 2, 29)),
        (date(2024, 2, 29), date(2024, 3, 1)),
        (date(2023, 2, 28), date(2023, 3, 1)),
        (date(1900, 2, 28), date(1900, 3, 1)),
        (date(2000, 2, 28), date(2000, 2, 29)),
        (date(2023, 12, 31), date(2024, 1, 1)),
        (date(2023, 4, 30), date(2023, 5, 1)),
    ];
    for (a, b) in pairs {
        assert_eq!(a.days_since_unix_epoch() + 1, b.days_since_unix_epoch());
    }
}

#[test]
fn nanoseconds_since_midnight_values() {
    assert_eq!(time(0, 0, 0, 0).nanoseconds_since_midnight(), 0);
    assert_eq!(time(1, 2, 3, 4).nanoseconds_since_midnight(), 3_723_000_000_004);
    assert_eq!(
        time(23, 59, 59, 999_999_999).nanoseconds_since_midnight(),
        SqlTime::NANOS_PER_DAY - 1
    );
    assert_eq!(
        time(255, 255, 255, u32::MAX).nanoseconds_since_midnight(),
        933_555_000_000_000 + u32::MAX as u64
    );
}

#[test]
fn microseconds_since_midnight_truncates() {
    assert_eq!(time(1, 2, 3, 4_999).microseconds_since_midnight(), 3_723_000_004);
    assert_eq!(
        time(23, 59, 59, 999_999_999).microseconds_since_midnight(),
        SqlTime::MICROS_PER_DAY - 1
    );
}

#[test]
fn from_nanoseconds_since_midnight_values() {
    assert_eq!(
        SqlTime::from_nanoseconds_since_midnight(3_723_000_000_004),
        Some(time(1, 2, 3, 4))
    );
    assert_eq!(SqlTime::from_nanoseconds_since_midnight(0), Some(time(0, 0, 0, 0)));
    assert_eq!(
        SqlTime::from_nanoseconds_since_midnight(SqlTime::NANOS_PER_DAY - 1),
        Some(time(23, 59, 59, 999_999_999))
    );
    assert_eq!(SqlTime::from_nanoseconds_since_midnight(SqlTime::NANOS_PER_DAY), None);
    assert_eq!(SqlTime::from_nanoseconds_since_midnight(u64::MAX), None);
}

#[test]
fn from_microseconds_since_midnight_values() {
    assert_eq!(
        SqlTime::from_microseconds_since_midnight(3_723_000_004),
        Some(time(1, 2, 3, 4_000))
    );
    assert_eq!(
        SqlTime::from_microseconds_since_midnight(SqlTime::MICROS_PER_DAY - 1),
        Some(time(23, 59, 59, 999_999_000))
    );
    assert_eq!(SqlTime::from_microseconds_since_midnight(SqlTime::MICROS_PER_DAY), None);
    assert_eq!(SqlTime::from_microseconds_since_midnight(u64::MAX), None);
}

#[test]
fn time_round_trips() {
    let t = time(13, 45, 6, 789_012_345);
    assert_eq!(
        SqlTime::from_nanoseconds_since_midnight(t.nanoseconds_since_midnight()),
        Some(t)
    );
    assert_eq!(
        SqlTime::from_microseconds_since_midnight(t.microseconds_since_midnight()),
        Some(time(13, 45, 6, 789_012_000))
    );
}

#[test]
fn date_time_new_keeps_components() {
    let dt = SqlDateTime::new(date(2024, 2, 29), time(1, 2, 3, 4));
    assert_eq!(dt.date, date(2024, 2, 29));
    assert_eq!(dt.time, time(1, 2, 3, 4));
}

#[test]
fn microseconds_since_unix_epoch_values() {
    let dt = SqlDateTime::new(date(2000, 1, 1), time(0, 0, 0, 0));
    assert_eq!(dt.microseconds_since_unix_epoch(), 946_684_800_000_000);
    let dt = SqlDateTime::new(date(2024, 2, 29), time(1, 2, 3, 4_999));
    assert_eq!(dt.microseconds_since_unix_epoch(), 1_709_168_523_000_004);
    let dt = SqlDateTime::new(date(1969, 12, 31), time(23, 59, 59, 999_999_999));
    assert_eq!(dt.microseconds_since_unix_epoch(), -1);
}

#[test]
fn from_microseconds_since_unix_epoch_values() {
    assert_eq!(
        SqlDateTime::from_microseconds_since_unix_epoch(-1),
        Some(SqlDateTime::new(date(1969, 12, 31), time(23, 59, 59, 999_999_000)))
    );
    assert_eq!(
        SqlDateTime::from_microseconds_since_unix_epoch(1_709_168_523_000_004),
        Some(SqlDateTime::new(date(2024, 2, 29), time(1, 2, 3, 4_000)))
    );
    assert_eq!(SqlDateTime::from_microseconds_since_unix_epoch(i128::MAX), None);
    assert_eq!(SqlDateTime::from_microseconds_since_unix_epoch(i128::MIN), None);
}

#[test]
fn date_time_round_trip() {
    let dt = SqlDateTime::new(date(1812, 6, 18), time(7, 8, 9, 123_456_789));
    assert_eq!(
        SqlDateTime::from_microseconds_since_unix_epoch(dt.microseconds_since_unix_epoch()),
        Some(SqlDateTime::new(date(1812, 6, 18), time(7, 8, 9, 123_456_000)))
    );
}

#[test]
fn timestamp_nanoseconds() {
    assert_eq!(SqlTimestamp::from_unix_nanoseconds(-7).unix_nanoseconds(), -7);
    assert_eq!(SqlTimestamp::from_unix_microseconds(-1).unix_nanoseconds(), -1_000);
    assert_eq!(
        SqlTimestamp::from_unix_microseconds(i64::MAX).unix_nanoseconds(),
        i64::MAX as i128 * 1_000
    );
}

#[test]
fn timestamp_microseconds_truncate_toward_zero() {
    assert_eq!(SqlTimestamp::from_unix_nanoseconds(-1_500).unix_microseconds_truncated(), Some(-1));
    assert_eq!(SqlTimestamp::from_unix_nanoseconds(1_999).unix_microseconds_truncated(), Some(1));
    assert_eq!(SqlTimestamp::from_unix_nanoseconds(-999).unix_microseconds_truncated(), Some(0));
    assert_eq!(SqlTimestamp::from_unix_nanoseconds(i128::MAX).unix_microseconds_truncated(), None);
    assert_eq!(
        SqlTimestamp::from_unix_microseconds(i64::MIN).unix_microseconds_truncated(),
        Some(i64::MIN)
    );
}
