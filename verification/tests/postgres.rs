use lib::adapter::{DatabaseSqlTypes, Sql};
use lib::date_time::{SqlDate, SqlDateTime, SqlTime, SqlTimestamp};
use lib::postgres::{
    PgArgument, PgBinary, PgTypeInfo, PgValueRef, Postgres, BPCHAR_OID, DATE_OID, NAME_OID,
    TEXT_OID, TIMESTAMPTZ_OID, TIMESTAMP_OID, TIME_OID, UNKNOWN_OID, VARCHAR_OID,
};
use lib::value::{SqlError, SqlType, SqlValue};

fn date(year: i32, month: u8, day: u8) -> SqlDate {
    SqlDate::from_ymd_unchecked(year, month, day)
}

fn time(hour: u8, minute: u8, second: u8, nanosecond: u32) -> SqlTime {
    SqlTime::from_hms_nano_unchecked(hour, minute, second, nanosecond)
}

fn oid(oid: u32) -> PgTypeInfo {
    PgTypeInfo { oid }
}

fn int4(n: i32) -> PgArgument {
    PgArgument::Binary(PgBinary::Int4(n))
}

fn int8(n: i64) -> PgArgument {
    PgArgument::Binary(PgBinary::Int8(n))
}

#[test]
fn sql_type_info_maps_each_type() {
    assert_eq!(Postgres::sql_type_info(SqlType::Text), oid(25));
    assert_eq!(Postgres::sql_type_info(SqlType::Date), oid(1082));
    assert_eq!(Postgres::sql_type_info(SqlType::Time), oid(1083));
    assert_eq!(Postgres::sql_type_info(SqlType::Timestamp), oid(1114));
    assert_eq!(Postgres::sql_type_info(SqlType::TimestampTz), oid(1184));
}

#[test]
fn sql_type_compatible_text_types() {
    for o in [TEXT_OID, NAME_OID, BPCHAR_OID, VARCHAR_OID, UNKNOWN_OID] {
        assert!(Postgres::sql_type_compatible(SqlType::Text, &oid(o)));
    }
    assert!(!Postgres::sql_type_compatible(SqlType::Text, &oid(DATE_OID)));
}

#[test]
fn sql_type_compatible_temporal_types() {
    assert!(Postgres::sql_type_compatible(SqlType::Date, &oid(DATE_OID)));
    assert!(!Postgres::sql_type_compatible(SqlType::Date, &oid(TIME_OID)));
    assert!(Postgres::sql_type_compatible(SqlType::Time, &oid(TIME_OID)));
    assert!(Postgres::sql_type_compatible(SqlType::Timestamp, &oid(TIMESTAMP_OID)));
    assert!(!Postgres::sql_type_compatible(SqlType::Timestamp, &oid(TIMESTAMPTZ_OID)));
    assert!(Postgres::sql_type_compatible(SqlType::TimestampTz, &oid(TIMESTAMPTZ_OID)));
    assert!(!Postgres::type_info_is_null(&oid(DATE_OID)));
}

#[test]
fn encode_values() {
    assert_eq!(Postgres::encode_sql_value(SqlValue::Null), Ok(PgArgument::Null));
    assert_eq!(
        Postgres::encode_sql_value(SqlValue::Text("t".to_string())),
        Ok(PgArgument::Binary(PgBinary::Text("t".to_string())))
    );
    assert_eq!(Postgres::encode_sql_value(SqlValue::Date(date(2000, 1, 1))), Ok(int4(0)));
    assert_eq!(Postgres::encode_sql_value(SqlValue::Date(date(1970, 1, 1))), Ok(int4(-10_957)));
    assert_eq!(
        Postgres::encode_sql_value(SqlValue::Time(time(1, 2, 3, 4_999))),
        Ok(int8(3_723_000_004))
    );
    assert_eq!(
        Postgres::encode_sql_value(SqlValue::Timestamp(SqlDateTime::new(
            date(2000, 1, 1),
            time(0, 0, 1, 0)
        ))),
        Ok(int8(1_000_000))
    );
    assert_eq!(
        Postgres::encode_sql_value(SqlValue::TimestampTz(SqlTimestamp::from_unix_nanoseconds(
            946_684_800_000_001_999
        ))),
        Ok(int8(1))
    );
}

#[test]
fn encode_out_of_range() {
    assert_eq!(
        Postgres::encode_sql_value(SqlValue::Date(date(i32::MAX, 1, 1))),
        Err(SqlError::IntegerOutOfRange)
    );
    assert_eq!(
        Postgres::encode_sql_value(SqlValue::Timestamp(SqlDateTime::new(
            date(i32::MIN, 1, 1),
            time(0, 0, 0, 0)
        ))),
        Err(SqlError::IntegerOutOfRange)
    );
    assert_eq!(
        Postgres::encode_sql_value(SqlValue::TimestampTz(SqlTimestamp::from_unix_nanoseconds(
            i128::MAX
        ))),
        Err(SqlError::TimestampTzOutOfRange)
    );
    assert_eq!(
        Postgres::encode_sql_value(SqlValue::TimestampTz(SqlTimestamp::from_unix_microseconds(
            i64::MIN
        ))),
        Err(SqlError::IntegerOutOfRange)
    );
}

#[test]
fn decode_values() {
    assert_eq!(
        Postgres::decode_sql_value(SqlType::Date, PgValueRef::Binary(PgBinary::Int4(0))),
        Ok(SqlValue::Date(date(2000, 1, 1)))
    );
    assert_eq!(
        Postgres::decode_sql_value(SqlType::Date, PgValueRef::Binary(PgBinary::Int4(-1))),
        Ok(SqlValue::Date(date(1999, 12, 31)))
    );
    assert_eq!(
        Postgres::decode_sql_value(SqlType::Time, PgValueRef::Binary(PgBinary::Int8(3_723_000_004))),
        Ok(SqlValue::Time(time(1, 2, 3, 4_000)))
    );
    assert_eq!(
        Postgres::decode_sql_value(SqlType::Timestamp, PgValueRef::Binary(PgBinary::Int8(-1))),
        Ok(SqlValue::Timestamp(SqlDateTime::new(date(1999, 12, 31), time(23, 59, 59, 999_999_000))))
    );
    assert_eq!(
        Postgres::decode_sql_value(SqlType::TimestampTz, PgValueRef::Binary(PgBinary::Int8(0))),
        Ok(SqlValue::TimestampTz(SqlTimestamp::from_unix_microseconds(946_684_800_000_000)))
    );
    assert_eq!(
        Postgres::decode_sql_value(
            SqlType::Text,
            PgValueRef::Binary(PgBinary::Text("bin".to_string()))
        ),
        Ok(SqlValue::Text("bin".to_string()))
    );
}

#[test]
fn decode_text_format_is_text() {
    assert_eq!(
        Postgres::decode_sql_value(SqlType::Date, PgValueRef::Text("2024-01-01".to_string())),
        Ok(SqlValue::Text("2024-01-01".to_string()))
    );
}

#[test]
fn decode_errors() {
    assert_eq!(
        Postgres::decode_sql_value(SqlType::Date, PgValueRef::Null),
        Err(SqlError::UnexpectedNull)
    );
    assert_eq!(
        Postgres::decode_sql_value(SqlType::Time, PgValueRef::Binary(PgBinary::Int8(-1))),
        Err(SqlError::TimeOutOfRange)
    );
    assert_eq!(
        Postgres::decode_sql_value(
            SqlType::Time,
            PgValueRef::Binary(PgBinary::Int8(86_400_000_000))
        ),
        Err(SqlError::TimeOutOfRange)
    );
    assert_eq!(
        Postgres::decode_sql_value(SqlType::TimestampTz, PgValueRef::Binary(PgBinary::Int8(i64::MAX))),
        Err(SqlError::IntegerOutOfRange)
    );
    assert_eq!(
        Postgres::decode_sql_value(SqlType::Date, PgValueRef::Binary(PgBinary::Int8(0))),
        Err(SqlError::MismatchedBinaryValue)
    );
    assert_eq!(
        Postgres::decode_sql_value(SqlType::Text, PgValueRef::Binary(PgBinary::Int4(0))),
        Err(SqlError::MismatchedBinaryValue)
    );
}

#[test]
fn date_extremes_decode() {
    assert_eq!(
        Postgres::decode_sql_value(SqlType::Date, PgValueRef::Binary(PgBinary::Int4(i32::MAX))),
        Ok(SqlValue::Date(SqlDate::from_days_since_unix_epoch(i32::MAX as i64 + 10_957).unwrap()))
    );
}

#[test]
fn round_trip_through_postgres() {
    let values = [
        SqlValue::Text("round".to_string()),
        SqlValue::Date(date(1600, 2, 29)),
        SqlValue::Time(time(23, 59, 59, 999_999_999)),
        SqlValue::Timestamp(SqlDateTime::new(date(2024, 2, 29), time(12, 0, 0, 1_500))),
        SqlValue::TimestampTz(SqlTimestamp::from_unix_nanoseconds(-1_234_567)),
    ];
    let expected = [
        SqlValue::Text("round".to_string()),
        SqlValue::Date(date(1600, 2, 29)),
        SqlValue::Time(time(23, 59, 59, 999_999_000)),
        SqlValue::Timestamp(SqlDateTime::new(date(2024, 2, 29), time(12, 0, 0, 1_000))),
        SqlValue::TimestampTz(SqlTimestamp::from_unix_nanoseconds(-1_234_000)),
    ];
    let types = [SqlType::Text, SqlType::Date, SqlType::Time, SqlType::Timestamp, SqlType::TimestampTz];
    for ((value, want), ty) in values.into_iter().zip(expected).zip(types) {
        let binary = match Postgres::encode_sql_value(value) {
            Ok(PgArgument::Binary(binary)) => binary,
            other => panic!("unexpected encoding {:?}", other),
        };
        assert_eq!(Postgres::decode_sql_value(ty, PgValueRef::Binary(binary)), Ok(want));
    }
}

#[test]
fn adapter_type_info_and_compatibility() {
    assert_eq!(Sql::<String>::type_info::<Postgres>(), oid(TEXT_OID));
    assert!(Sql::<String>::compatible::<Postgres>(&oid(VARCHAR_OID)));
    assert!(!Sql::<String>::compatible::<Postgres>(&oid(DATE_OID)));
    assert_eq!(Sql("x".to_string()).produces::<Postgres>(), Some(oid(TEXT_OID)));
    assert!(Sql("x".to_string()).size_hint() > 0);
}

#[test]
fn adapter_encode() {
    assert_eq!(
        Sql("x".to_string()).encode_by_ref::<Postgres>(),
        Ok(PgArgument::Binary(PgBinary::Text("x".to_string())))
    );
    assert_eq!(Sql(None::<String>).encode_by_ref::<Postgres>(), Ok(PgArgument::Null));
}

#[test]
fn adapter_decode() {
    assert_eq!(
        Sql::<String>::decode::<Postgres>(PgValueRef::Binary(PgBinary::Text("y".to_string()))),
        Ok(Sql("y".to_string()))
    );
    assert_eq!(Sql::<Option<String>>::decode::<Postgres>(PgValueRef::Null), Ok(Sql(None)));
    assert_eq!(
        Sql::<String>::decode::<Postgres>(PgValueRef::Null),
        Err(SqlError::UnexpectedValue { expected: "text", actual: "null" })
    );
    assert_eq!(
        Sql::<String>::decode::<Postgres>(PgValueRef::Binary(PgBinary::Int8(1))),
        Err(SqlError::MismatchedBinaryValue)
    );
}

#[test]
fn decoded_values_encode_back() {
    let cases = [
        (SqlType::Date, PgBinary::Int4(12_345)),
        (SqlType::Date, PgBinary::Int4(i32::MIN)),
        (SqlType::Time, PgBinary::Int8(86_399_999_999)),
        (SqlType::Timestamp, PgBinary::Int8(-123_456_789_012_345)),
        (SqlType::Timestamp, PgBinary::Int8(i64::MIN)),
        (SqlType::TimestampTz, PgBinary::Int8(987_654_321)),
        (SqlType::Text, PgBinary::Text("same".to_string())),
    ];
    for (ty, binary) in cases {
        let value = Postgres::decode_sql_value(ty, PgValueRef::Binary(binary.clone())).unwrap();
        assert_eq!(Postgres::encode_sql_value(value), Ok(PgArgument::Binary(binary)));
    }
}
