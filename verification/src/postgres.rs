//! The PostgreSQL side of the semantic SQL bridge: which PostgreSQL types the
//! semantic types map to, and how semantic values are written as and read from
//! PostgreSQL's binary representations (days since 2000-01-01 for `DATE`,
//! microseconds for `TIME`, `TIMESTAMP` and `TIMESTAMPTZ`).
use vstd::prelude::*;

use crate::adapter::DatabaseSqlTypes;
use crate::date_time::{
    date_from_day_number, date_time_from_micros, div_toward_zero, micros_per_day,
    time_from_micros, SqlDate, SqlDateTime, SqlTime, SqlTimestamp,
};
use crate::value::{SqlError, SqlType, SqlValue};

verus! {

/// The days from 1970-01-01 to PostgreSQL's epoch 2000-01-01.
const POSTGRES_EPOCH_DAYS_FROM_UNIX_EPOCH: i64 = 10_957;

/// The microseconds from 1970-01-01T00:00:00 to PostgreSQL's epoch 2000-01-01T00:00:00.
const POSTGRES_EPOCH_MICROS_FROM_UNIX_EPOCH: i128 = 946_684_800_000_000;

/// The object identifier of PostgreSQL's `TEXT` type.
pub const TEXT_OID: u32 = 25;
/// The object identifier of PostgreSQL's `NAME` type.
pub const NAME_OID: u32 = 19;
/// The object identifier of PostgreSQL's `BPCHAR` (blank-padded `CHAR(n)`) type.
pub const BPCHAR_OID: u32 = 1042;
/// The object identifier of PostgreSQL's `VARCHAR` type.
pub const VARCHAR_OID: u32 = 1043;
/// The object identifier of PostgreSQL's `UNKNOWN` type of untyped literals.
pub const UNKNOWN_OID: u32 = 705;
/// The object identifier of PostgreSQL's `DATE` type.
pub const DATE_OID: u32 = 1082;
/// The object identifier of PostgreSQL's `TIME` type.
pub const TIME_OID: u32 = 1083;
/// The object identifier of PostgreSQL's `TIMESTAMP` type.
pub const TIMESTAMP_OID: u32 = 1114;
/// The object identifier of PostgreSQL's `TIMESTAMPTZ` type.
pub const TIMESTAMPTZ_OID: u32 = 1184;

/// The PostgreSQL database, as a driver for semantic SQL values.
pub struct Postgres;

/// A PostgreSQL type, identified by its object identifier.
#[derive(Clone, Copy, Debug, PartialEq, Eq, Hash, Structural)]
pub struct PgTypeInfo {
    /// The type's object identifier.
    pub oid: u32,
}

/// A value in PostgreSQL's binary format.
#[derive(Clone, Debug, PartialEq, Eq)]
pub enum PgBinary {
    /// Text, as its UTF-8 bytes.
    Text(String),
    /// A 4-byte integer.
    Int4(i32),
    /// An 8-byte integer.
    Int8(i64),
}

/// What encoding a semantic value hands to PostgreSQL's argument buffer.
#[derive(Clone, Debug, PartialEq, Eq)]
pub enum PgArgument {
    /// SQL `NULL`: nothing is written.
    Null,
    /// A value written in binary format.
    Binary(PgBinary),
}

/// A value received from PostgreSQL.
#[derive(Clone, Debug, PartialEq, Eq)]
pub enum PgValueRef {
    /// SQL `NULL`.
    Null,
    /// A value in text format.
    Text(String),
    /// A value in binary format.
    Binary(PgBinary),
}

/// The PostgreSQL type of each semantic SQL type.
pub open spec fn pg_type_of(sql_type: SqlType) -> PgTypeInfo {
    match sql_type {
        SqlType::Text => PgTypeInfo { oid: TEXT_OID },
        SqlType::Date => PgTypeInfo { oid: DATE_OID },
        SqlType::Time => PgTypeInfo { oid: TIME_OID },
        SqlType::Timestamp => PgTypeInfo { oid: TIMESTAMP_OID },
        SqlType::TimestampTz => PgTypeInfo { oid: TIMESTAMPTZ_OID },
    }
}

/// The PostgreSQL types that text can be read from.
pub open spec fn is_text_type(type_info: PgTypeInfo) -> bool {
    type_info.oid == TEXT_OID || type_info.oid == NAME_OID || type_info.oid == BPCHAR_OID
        || type_info.oid == VARCHAR_OID || type_info.oid == UNKNOWN_OID
}

/// Whether a PostgreSQL type can be read as a semantic SQL type: any textual
/// type for text, and exactly the matching type for the others.
pub open spec fn pg_compatible(sql_type: SqlType, type_info: PgTypeInfo) -> bool {
    match sql_type {
        SqlType::Text => is_text_type(type_info),
        _ => type_info == pg_type_of(sql_type),
    }
}

/// The result of encoding a semantic value for PostgreSQL.
pub open spec fn pg_encoding(value: SqlValue) -> Result<PgArgument, SqlError> {
    match value {
        SqlValue::Null => Ok(PgArgument::Null),
        SqlValue::Text(text) => Ok(PgArgument::Binary(PgBinary::Text(text))),
        SqlValue::Date(date) => {
            let days = date.day_count() - 10_957;
            if i32::MIN <= days <= i32::MAX {
                Ok(PgArgument::Binary(PgBinary::Int4(days as i32)))
            } else {
                Err(SqlError::IntegerOutOfRange)
            }
        },
        SqlValue::Time(time) => Ok(PgArgument::Binary(PgBinary::Int8((time.nanos() / 1000) as i64))),
        SqlValue::Timestamp(date_time) => {
            let micros = date_time.micros() - 946_684_800_000_000;
            if i64::MIN <= micros <= i64::MAX {
                Ok(PgArgument::Binary(PgBinary::Int8(micros as i64)))
            } else {
                Err(SqlError::IntegerOutOfRange)
            }
        },
        SqlValue::TimestampTz(timestamp) => {
            let unix_micros = div_toward_zero(timestamp.nanos(), 1000);
            let micros = unix_micros - 946_684_800_000_000;
            if !(i64::MIN <= unix_micros <= i64::MAX) {
                Err(SqlError::TimestampTzOutOfRange)
            } else if i64::MIN <= micros <= i64::MAX {
                Ok(PgArgument::Binary(PgBinary::Int8(micros as i64)))
            } else {
                Err(SqlError::IntegerOutOfRange)
            }
        },
    }
}

/// The result of reading a value received from PostgreSQL as a semantic SQL type.
pub open spec fn pg_decoding(sql_type: SqlType, value: PgValueRef) -> Result<SqlValue, SqlError> {
    match value {
        PgValueRef::Null => Err(SqlError::UnexpectedNull),
        PgValueRef::Text(text) => Ok(SqlValue::Text(text)),
        PgValueRef::Binary(binary) => match (sql_type, binary) {
            (SqlType::Text, PgBinary::Text(text)) => Ok(SqlValue::Text(text)),
            (SqlType::Date, PgBinary::Int4(days)) => match date_from_day_number(days + 10_957) {
                Some(date) => Ok(SqlValue::Date(date)),
                None => Err(SqlError::DateOutOfRange),
            },
            (SqlType::Time, PgBinary::Int8(micros)) => if micros < 0 {
                Err(SqlError::TimeOutOfRange)
            } else {
                match time_from_micros(micros as int) {
                    Some(time) => Ok(SqlValue::Time(time)),
                    None => Err(SqlError::TimeOutOfRange),
                }
            },
            (SqlType::Timestamp, PgBinary::Int8(micros)) => match date_time_from_micros(
                micros + 946_684_800_000_000,
            ) {
                Some(date_time) => Ok(SqlValue::Timestamp(date_time)),
                None => Err(SqlError::TimestampOutOfRange),
            },
            (SqlType::TimestampTz, PgBinary::Int8(micros)) => {
                let unix_micros = micros + 946_684_800_000_000;
                if i64::MIN <= unix_micros <= i64::MAX {
                    Ok(
                        SqlValue::TimestampTz(
                            SqlTimestamp::with_nanos((unix_micros * 1000) as i128),
                        ),
                    )
                } else {
                    Err(SqlError::IntegerOutOfRange)
                }
            },
            _ => Err(SqlError::MismatchedBinaryValue),
        },
    }
}

impl PgTypeInfo {
    /// Returns whether `other` is the same PostgreSQL type.
    pub fn type_compatible(&self, other: &PgTypeInfo) -> (compatible: bool)
        ensures
            compatible == (*self == *other),
    {
        self.oid == other.oid
    }
}

/// Reads a 4-byte binary integer.
fn decode_int4(binary: PgBinary) -> (decoded: Result<i32, SqlError>)
    ensures
        decoded == match binary {
            PgBinary::Int4(n) => Ok(n),
            _ => Err(SqlError::MismatchedBinaryValue),
        },
{
    match binary {
        PgBinary::Int4(n) => Ok(n),
        _ => Err(SqlError::MismatchedBinaryValue),
    }
}

/// Reads an 8-byte binary integer.
fn decode_int8(binary: PgBinary) -> (decoded: Result<i64, SqlError>)
    ensures
        decoded == match binary {
            PgBinary::Int8(n) => Ok(n),
            _ => Err(SqlError::MismatchedBinaryValue),
        },
{
    match binary {
        PgBinary::Int8(n) => Ok(n),
        _ => Err(SqlError::MismatchedBinaryValue),
    }
}

/// Narrows an integer to `i32`, failing outside its range.
fn narrow_i32(n: i64) -> (narrowed: Result<i32, SqlError>)
    ensures
        narrowed == if i32::MIN <= n <= i32::MAX {
            Ok::<i32, SqlError>(n as i32)
        } else {
            Err(SqlError::IntegerOutOfRange)
        },
{
    match i32::try_from(n) {
        Ok(narrowed) => Ok(narrowed),
        Err(_) => Err(SqlError::IntegerOutOfRange),
    }
}

/// Narrows an integer to `i64`, failing outside its range.
fn narrow_i64(n: i128) -> (narrowed: Result<i64, SqlError>)
    ensures
        narrowed == if i64::MIN <= n <= i64::MAX {
            Ok::<i64, SqlError>(n as i64)
        } else {
            Err(SqlError::IntegerOutOfRange)
        },
{
    match i64::try_from(n) {
        Ok(narrowed) => Ok(narrowed),
        Err(_) => Err(SqlError::IntegerOutOfRange),
    }
}

impl DatabaseSqlTypes for Postgres {
    type TypeInfo = PgTypeInfo;
    type Argument = PgArgument;
    type ValueRef = PgValueRef;

    open spec fn type_info_of(sql_type: SqlType) -> PgTypeInfo {
        pg_type_of(sql_type)
    }

    open spec fn type_info_null(type_info: PgTypeInfo) -> bool {
        false
    }

    open spec fn compatible_with(sql_type: SqlType, type_info: PgTypeInfo) -> bool {
        pg_compatible(sql_type, type_info)
    }

    open spec fn value_null(value: PgValueRef) -> bool {
        value is Null
    }

    open spec fn encodes_value(value: SqlValue, encoded: Result<PgArgument, SqlError>) -> bool {
        encoded == pg_encoding(value)
    }

    open spec fn decodes_value(
        sql_type: SqlType,
        value: PgValueRef,
        decoded: Result<SqlValue, SqlError>,
    ) -> bool {
        decoded == pg_decoding(sql_type, value)
    }

    fn sql_type_info(sql_type: SqlType) -> (type_info: PgTypeInfo) {
        match sql_type {
            SqlType::Text => PgTypeInfo { oid: TEXT_OID },
            SqlType::Date => PgTypeInfo { oid: DATE_OID },
            SqlType::Time => PgTypeInfo { oid: TIME_OID },
            SqlType::Timestamp => PgTypeInfo { oid: TIMESTAMP_OID },
            SqlType::TimestampTz => PgTypeInfo { oid: TIMESTAMPTZ_OID },
        }
    }

    fn type_info_is_null(type_info: &PgTypeInfo) -> (is_null: bool) {
        false
    }

    fn sql_type_compatible(sql_type: SqlType, type_info: &PgTypeInfo) -> (compatible: bool) {
        match sql_type {
            SqlType::Text => type_info.oid == TEXT_OID || type_info.oid == NAME_OID || type_info.oid
                == BPCHAR_OID || type_info.oid == VARCHAR_OID || type_info.oid == UNKNOWN_OID,
            SqlType::Date => (PgTypeInfo { oid: DATE_OID }).type_compatible(type_info),
            SqlType::Time => (PgTypeInfo { oid: TIME_OID }).type_compatible(type_info),
            SqlType::Timestamp => (PgTypeInfo { oid: TIMESTAMP_OID }).type_compatible(type_info),
            SqlType::TimestampTz => (PgTypeInfo { oid: TIMESTAMPTZ_OID }).type_compatible(
                type_info,
            ),
        }
    }

    fn value_is_null(value: &PgValueRef) -> (is_null: bool) {
        match value {
            PgValueRef::Null => true,
            _ => false,
        }
    }

    fn encode_sql_value(value: SqlValue) -> (encoded: Result<PgArgument, SqlError>) {
        match value {
            SqlValue::Null => Ok(PgArgument::Null),
            SqlValue::Text(text) => Ok(PgArgument::Binary(PgBinary::Text(text))),
            SqlValue::Date(date) => {
                proof {
                    crate::calendar::lemma_day_number_bound(
                        date.year as int,
                        date.month as int,
                        date.day as int,
                    );
                }
                let days = date.days_since_unix_epoch() - POSTGRES_EPOCH_DAYS_FROM_UNIX_EPOCH;
                let days = narrow_i32(days)?;
                Ok(PgArgument::Binary(PgBinary::Int4(days)))
            },
            SqlValue::Time(time) => {
                let micros = time.microseconds_since_midnight();
                assert(micros <= 1_000_000_000_000);
                let micros = micros as i64;
                Ok(PgArgument::Binary(PgBinary::Int8(micros)))
            },
            SqlValue::Timestamp(date_time) => {
                let micros = date_time.microseconds_since_unix_epoch()
                    - POSTGRES_EPOCH_MICROS_FROM_UNIX_EPOCH;
                let micros = narrow_i64(micros)?;
                Ok(PgArgument::Binary(PgBinary::Int8(micros)))
            },
            SqlValue::TimestampTz(timestamp) => {
                let unix_micros = match timestamp.unix_microseconds_truncated() {
                    Some(unix_micros) => unix_micros,
                    None => {
                        return Err(SqlError::TimestampTzOutOfRange);
                    },
                };
                let micros = i128::from(unix_micros) - POSTGRES_EPOCH_MICROS_FROM_UNIX_EPOCH;
                let micros = narrow_i64(micros)?;
                Ok(PgArgument::Binary(PgBinary::Int8(micros)))
            },
        }
    }

    fn decode_sql_value(sql_type: SqlType, value: PgValueRef) -> (decoded: Result<
        SqlValue,
        SqlError,
    >) {
        let binary = match value {
            PgValueRef::Null => {
                return Err(SqlError::UnexpectedNull);
            },
            PgValueRef::Text(text) => {
                return Ok(SqlValue::Text(text));
            },
            PgValueRef::Binary(binary) => binary,
        };

        match sql_type {
            SqlType::Text => match binary {
                PgBinary::Text(text) => Ok(SqlValue::Text(text)),
                _ => Err(SqlError::MismatchedBinaryValue),
            },
            SqlType::Date => {
                let days = decode_int4(binary)?;
                let days = i64::from(days) + POSTGRES_EPOCH_DAYS_FROM_UNIX_EPOCH;
                match SqlDate::from_days_since_unix_epoch(days) {
                    Some(date) => Ok(SqlValue::Date(date)),
                    None => Err(SqlError::DateOutOfRange),
                }
            },
            SqlType::Time => {
                let micros = decode_int8(binary)?;
                let micros = match u64::try_from(micros) {
                    Ok(micros) => micros,
                    Err(_) => {
                        return Err(SqlError::TimeOutOfRange);
                    },
                };
                match SqlTime::from_microseconds_since_midnight(micros) {
                    Some(time) => Ok(SqlValue::Time(time)),
                    None => Err(SqlError::TimeOutOfRange),
                }
            },
            SqlType::Timestamp => {
                let micros = decode_int8(binary)?;
                let micros = i128::from(micros) + POSTGRES_EPOCH_MICROS_FROM_UNIX_EPOCH;
                match SqlDateTime::from_microseconds_since_unix_epoch(micros) {
                    Some(date_time) => Ok(SqlValue::Timestamp(date_time)),
                    None => Err(SqlError::TimestampOutOfRange),
                }
            },
            SqlType::TimestampTz => {
                let micros = decode_int8(binary)?;
                let micros = i128::from(micros) + POSTGRES_EPOCH_MICROS_FROM_UNIX_EPOCH;
                let micros = narrow_i64(micros)?;
                Ok(SqlValue::TimestampTz(SqlTimestamp::from_unix_microseconds(micros)))
            },
        }
    }
}

/// Every semantic SQL type can be read from the PostgreSQL type it is written as.
pub proof fn law_pg_type_compatible(sql_type: SqlType)
    ensures
        pg_compatible(sql_type, pg_type_of(sql_type)),
{
}

/// What is written is read back: a non-null value with real dates and times
/// that encodes without error comes back from its binary encoding, read as its
/// own type, at microsecond precision.
pub proof fn law_pg_round_trip(value: SqlValue)
    requires
        !(value is Null),
        value.is_valid(),
        pg_encoding(value) is Ok,
    ensures
        pg_encoding(value) matches Ok(PgArgument::Binary(binary)) && pg_decoding(
            value.sql_type().unwrap(),
            PgValueRef::Binary(binary),
        ) == Ok::<SqlValue, SqlError>(value.truncated_to_micros()),
{
    match value {
        SqlValue::Date(date) => {
            crate::date_time::law_date_round_trip(date);
        },
        SqlValue::Time(time) => {
            crate::date_time::law_time_micros_round_trip(time);
            crate::date_time::law_time_round_trip(time);
        },
        SqlValue::Timestamp(date_time) => {
            crate::date_time::law_date_time_round_trip(date_time);
        },
        SqlValue::TimestampTz(timestamp) => {
        },
        _ => {
        },
    }
}

/// What is read is written back unchanged: a binary value that decodes without
/// error as some semantic type encodes to the same binary value.
pub proof fn law_pg_decode_encode(sql_type: SqlType, binary: PgBinary)
    requires
        pg_decoding(sql_type, PgValueRef::Binary(binary)) is Ok,
    ensures
        pg_encoding(pg_decoding(sql_type, PgValueRef::Binary(binary)).unwrap()) == Ok::<
            PgArgument,
            SqlError,
        >(PgArgument::Binary(binary)),
{
    match (sql_type, binary) {
        (SqlType::Date, PgBinary::Int4(days)) => {
            crate::date_time::law_date_from_day_number_sound(days + 10_957);
        },
        (SqlType::Time, PgBinary::Int8(micros)) => {
            crate::date_time::law_time_from_nanos_sound(micros * 1000);
        },
        (SqlType::Timestamp, PgBinary::Int8(micros)) => {
            crate::date_time::law_date_time_from_micros_sound(micros + 946_684_800_000_000);
        },
        (SqlType::TimestampTz, PgBinary::Int8(micros)) => {
            let unix_micros = micros + 946_684_800_000_000;
            SqlTimestamp::lemma_with_nanos((unix_micros * 1000) as i128);
            crate::date_time::law_timestamp_micros_round_trip(unix_micros as i64);
        },
        _ => {
        },
    }
}

/// The five semantic types map to PostgreSQL's `TEXT` (OID 25), `DATE` (1082),
/// `TIME` (1083), `TIMESTAMP` (1114) and `TIMESTAMPTZ` (1184).
pub proof fn law_pg_type_info()
    ensures
        Postgres::type_info_of(SqlType::Text) == (PgTypeInfo { oid: 25 }),
        Postgres::type_info_of(SqlType::Date) == (PgTypeInfo { oid: 1082 }),
        Postgres::type_info_of(SqlType::Time) == (PgTypeInfo { oid: 1083 }),
        Postgres::type_info_of(SqlType::Timestamp) == (PgTypeInfo { oid: 1114 }),
        Postgres::type_info_of(SqlType::TimestampTz) == (PgTypeInfo { oid: 1184 }),
{
}

/// No PostgreSQL type stands for the type of `NULL`, so the adapter's
/// compatibility is the driver's alone.
pub proof fn law_pg_type_info_never_null(type_info: PgTypeInfo)
    ensures
        !Postgres::type_info_null(type_info),
{
}

/// Text can be read from `TEXT`, `NAME`, `BPCHAR`, `VARCHAR` and `UNKNOWN`
/// columns; every other semantic type only from the one PostgreSQL type it is
/// written as (a `TIMESTAMP` column is no instant, a `TEXT` column no date).
pub proof fn law_pg_compatible(sql_type: SqlType, type_info: PgTypeInfo)
    ensures
        sql_type == SqlType::Text ==> (Postgres::compatible_with(sql_type, type_info) <==> (
        type_info.oid == 25 || type_info.oid == 19 || type_info.oid == 1042 || type_info.oid
            == 1043 || type_info.oid == 705)),
        sql_type != SqlType::Text ==> (Postgres::compatible_with(sql_type, type_info) <==> type_info
            == Postgres::type_info_of(sql_type)),
        Postgres::compatible_with(SqlType::Date, type_info) <==> type_info.oid == 1082,
        Postgres::compatible_with(SqlType::Time, type_info) <==> type_info.oid == 1083,
        Postgres::compatible_with(SqlType::Timestamp, type_info) <==> type_info.oid == 1114,
        Postgres::compatible_with(SqlType::TimestampTz, type_info) <==> type_info.oid == 1184,
{
}

/// A received value counts as `NULL` exactly when it is SQL `NULL`; an empty
/// string is a value.
pub proof fn law_pg_value_null(value: PgValueRef)
    ensures
        Postgres::value_null(value) <==> value is Null,
{
}

/// `NULL` is written as nothing, and text as the same text.
pub proof fn law_pg_encode_null_and_text(
    text: String,
    encoded: Result<PgArgument, SqlError>,
)
    ensures
        Postgres::encodes_value(SqlValue::Null, encoded) <==> encoded == Ok::<PgArgument, SqlError>(
            PgArgument::Null,
        ),
        Postgres::encodes_value(SqlValue::Text(text), encoded) <==> encoded == Ok::<
            PgArgument,
            SqlError,
        >(PgArgument::Binary(PgBinary::Text(text))),
{
}

/// Reading `NULL` as a value is an error; a value in text format is read as the
/// text it carries, whatever type is asked for; binary text read as text is that
/// text; a binary value of the wrong width is an error.
pub proof fn law_pg_decode_null_text_and_shape(
    sql_type: SqlType,
    text: String,
    binary: PgBinary,
    decoded: Result<SqlValue, SqlError>,
)
    ensures
        Postgres::decodes_value(sql_type, PgValueRef::Null, decoded) <==> decoded == Err::<
            SqlValue,
            SqlError,
        >(SqlError::UnexpectedNull),
        Postgres::decodes_value(sql_type, PgValueRef::Text(text), decoded) <==> decoded == Ok::<
            SqlValue,
            SqlError,
        >(SqlValue::Text(text)),
        Postgres::decodes_value(SqlType::Text, PgValueRef::Binary(PgBinary::Text(text)), decoded)
            <==> decoded == Ok::<SqlValue, SqlError>(SqlValue::Text(text)),
        ({
            ||| sql_type == SqlType::Text && !(binary is Text)
            ||| sql_type == SqlType::Date && !(binary is Int4)
            ||| sql_type != SqlType::Text && sql_type != SqlType::Date && !(binary is Int8)
        }) ==> (Postgres::decodes_value(sql_type, PgValueRef::Binary(binary), decoded) <==> decoded
            == Err::<SqlValue, SqlError>(SqlError::MismatchedBinaryValue)),
{
}

/// A date is written as its days since PostgreSQL's epoch 2000-01-01, when that
/// count fits four bytes.
pub proof fn law_pg_encode_date(date: SqlDate, encoded: Result<PgArgument, SqlError>)
    requires
        Postgres::encodes_value(SqlValue::Date(date), encoded),
    ensures
        ({
            let days = date.day_count() - crate::calendar::day_number(2000, 1, 1);
            &&& i32::MIN <= days <= i32::MAX ==> (encoded matches Ok(
                PgArgument::Binary(PgBinary::Int4(k)),
            ) && k == days)
            &&& !(i32::MIN <= days <= i32::MAX) ==> encoded == Err::<PgArgument, SqlError>(
                SqlError::IntegerOutOfRange,
            )
        }),
{
}

/// Any four-byte day count is read as the real date that many days after
/// 2000-01-01.
pub proof fn law_pg_decode_date(days: i32, decoded: Result<SqlValue, SqlError>)
    requires
        Postgres::decodes_value(SqlType::Date, PgValueRef::Binary(PgBinary::Int4(days)), decoded),
    ensures
        decoded matches Ok(SqlValue::Date(date)) && date.is_valid() && date.day_count() == days
            + crate::calendar::day_number(2000, 1, 1),
{
    crate::date_time::law_date_from_day_number_sound(days + 10_957);
}

/// A time of day is written as its whole microseconds since midnight.
pub proof fn law_pg_encode_time(time: SqlTime, encoded: Result<PgArgument, SqlError>)
    requires
        Postgres::encodes_value(SqlValue::Time(time), encoded),
    ensures
        encoded matches Ok(PgArgument::Binary(PgBinary::Int8(micros))) && micros == time.nanos()
            / 1000,
{
}

/// A microsecond count within a day is read as the time of day that many
/// microseconds after midnight; any other count is an error.
pub proof fn law_pg_decode_time(micros: i64, decoded: Result<SqlValue, SqlError>)
    requires
        Postgres::decodes_value(SqlType::Time, PgValueRef::Binary(PgBinary::Int8(micros)), decoded),
    ensures
        0 <= micros < micros_per_day() ==> (decoded matches Ok(SqlValue::Time(time))
            && time.is_valid() && time.nanos() == micros * 1000),
        !(0 <= micros < micros_per_day()) ==> decoded == Err::<SqlValue, SqlError>(
            SqlError::TimeOutOfRange,
        ),
{
    if 0 <= micros < micros_per_day() {
        crate::date_time::law_time_from_nanos_sound(micros * 1000);
    }
}

/// A date and time is written as its microseconds since 2000-01-01T00:00:00,
/// when that count fits eight bytes.
pub proof fn law_pg_encode_timestamp(date_time: SqlDateTime, encoded: Result<PgArgument, SqlError>)
    requires
        Postgres::encodes_value(SqlValue::Timestamp(date_time), encoded),
    ensures
        ({
            let micros = date_time.micros() - crate::calendar::day_number(2000, 1, 1)
                * micros_per_day();
            &&& i64::MIN <= micros <= i64::MAX ==> (encoded matches Ok(
                PgArgument::Binary(PgBinary::Int8(k)),
            ) && k == micros)
            &&& !(i64::MIN <= micros <= i64::MAX) ==> encoded == Err::<PgArgument, SqlError>(
                SqlError::IntegerOutOfRange,
            )
        }),
{
}

/// Any eight-byte microsecond count is read as the real date and time that many
/// microseconds after 2000-01-01T00:00:00.
pub proof fn law_pg_decode_timestamp(micros: i64, decoded: Result<SqlValue, SqlError>)
    requires
        Postgres::decodes_value(
            SqlType::Timestamp,
            PgValueRef::Binary(PgBinary::Int8(micros)),
            decoded,
        ),
    ensures
        decoded matches Ok(SqlValue::Timestamp(date_time)) && date_time.is_valid()
            && date_time.micros() == micros + crate::calendar::day_number(2000, 1, 1)
            * micros_per_day(),
{
    crate::date_time::law_date_time_from_micros_sound(micros + 946_684_800_000_000);
}

/// An instant is written as its microseconds since 2000-01-01T00:00:00 UTC,
/// rounded toward zero from its nanoseconds since the Unix epoch; an instant
/// whose Unix microseconds do not fit eight bytes is refused.
pub proof fn law_pg_encode_timestamptz(timestamp: SqlTimestamp, encoded: Result<PgArgument, SqlError>)
    requires
        Postgres::encodes_value(SqlValue::TimestampTz(timestamp), encoded),
    ensures
        ({
            let unix_micros = div_toward_zero(timestamp.nanos(), 1000);
            let micros = unix_micros - crate::calendar::day_number(2000, 1, 1) * micros_per_day();
            &&& !(i64::MIN <= unix_micros <= i64::MAX) ==> encoded == Err::<PgArgument, SqlError>(
                SqlError::TimestampTzOutOfRange,
            )
            &&& i64::MIN <= unix_micros <= i64::MAX && i64::MIN <= micros <= i64::MAX ==> (encoded
                matches Ok(PgArgument::Binary(PgBinary::Int8(k))) && k == micros)
            &&& i64::MIN <= unix_micros <= i64::MAX && !(i64::MIN <= micros <= i64::MAX)
                ==> encoded == Err::<PgArgument, SqlError>(SqlError::IntegerOutOfRange)
        }),
{
}

/// A microsecond count since 2000-01-01T00:00:00 UTC is read as the instant with
/// that many microseconds, when its Unix microseconds fit eight bytes.
pub proof fn law_pg_decode_timestamptz(micros: i64, decoded: Result<SqlValue, SqlError>)
    requires
        Postgres::decodes_value(
            SqlType::TimestampTz,
            PgValueRef::Binary(PgBinary::Int8(micros)),
            decoded,
        ),
    ensures
        ({
            let unix_micros = micros + crate::calendar::day_number(2000, 1, 1) * micros_per_day();
            &&& i64::MIN <= unix_micros <= i64::MAX ==> (decoded matches Ok(
                SqlValue::TimestampTz(timestamp),
            ) && timestamp.nanos() == unix_micros * 1000)
            &&& !(i64::MIN <= unix_micros <= i64::MAX) ==> decoded == Err::<SqlValue, SqlError>(
                SqlError::IntegerOutOfRange,
            )
        }),
{
    let unix_micros = micros + 946_684_800_000_000;
    if i64::MIN <= unix_micros <= i64::MAX {
        SqlTimestamp::lemma_with_nanos((unix_micros * 1000) as i128);
    }
}

} // verus!
