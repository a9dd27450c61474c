//! The semantic SQL types and values, and the errors of converting them.
use vstd::prelude::*;

use crate::date_time::{div_toward_zero, SqlDate, SqlDateTime, SqlTime, SqlTimestamp};

verus! {

/// A semantic SQL type.
#[derive(Clone, Copy, Debug, Eq, Hash, PartialEq, Structural)]
pub enum SqlType {
    /// Textual data.
    Text,
    /// A calendar date without a time of day.
    Date,
    /// A time of day without a date.
    Time,
    /// A calendar date and time without an offset or time zone.
    Timestamp,
    /// An instant in time, commonly represented in SQL as `TIMESTAMP WITH TIME ZONE`.
    TimestampTz,
}

/// A semantic SQL value.
#[derive(Clone, Debug, Eq, PartialEq)]
pub enum SqlValue {
    /// SQL `NULL`.
    Null,
    /// Textual data.
    Text(String),
    /// A calendar date without a time of day.
    Date(SqlDate),
    /// A time of day without a date.
    Time(SqlTime),
    /// A calendar date and time without an offset or time zone.
    Timestamp(SqlDateTime),
    /// An instant in time.
    TimestampTz(SqlTimestamp),
}

impl SqlValue {
    /// The name of the kind of this value, as error messages show it.
    pub open spec fn kind_name(self) -> Seq<char> {
        match self {
            SqlValue::Null => "null"@,
            SqlValue::Text(_) => "text"@,
            SqlValue::Date(_) => "date"@,
            SqlValue::Time(_) => "time"@,
            SqlValue::Timestamp(_) => "timestamp"@,
            SqlValue::TimestampTz(_) => "timestamp with time zone"@,
        }
    }

    /// The name of the kind of this value.
    pub open spec fn kind_str(self) -> &'static str {
        match self {
            SqlValue::Null => "null",
            SqlValue::Text(_) => "text",
            SqlValue::Date(_) => "date",
            SqlValue::Time(_) => "time",
            SqlValue::Timestamp(_) => "timestamp",
            SqlValue::TimestampTz(_) => "timestamp with time zone",
        }
    }

    /// The semantic SQL type of a non-null value.
    pub open spec fn sql_type(self) -> Option<SqlType> {
        match self {
            SqlValue::Null => None,
            SqlValue::Text(_) => Some(SqlType::Text),
            SqlValue::Date(_) => Some(SqlType::Date),
            SqlValue::Time(_) => Some(SqlType::Time),
            SqlValue::Timestamp(_) => Some(SqlType::Timestamp),
            SqlValue::TimestampTz(_) => Some(SqlType::TimestampTz),
        }
    }

    /// Every date and time in the value is a real one.
    pub open spec fn is_valid(self) -> bool {
        match self {
            SqlValue::Date(date) => date.is_valid(),
            SqlValue::Time(time) => time.is_valid(),
            SqlValue::Timestamp(date_time) => date_time.is_valid(),
            _ => true,
        }
    }

    /// The value at microsecond precision: nanoseconds below a whole microsecond
    /// are dropped, toward zero for an instant.
    pub open spec fn truncated_to_micros(self) -> SqlValue {
        match self {
            SqlValue::Time(time) => SqlValue::Time(time.truncated_to_micros()),
            SqlValue::Timestamp(date_time) => SqlValue::Timestamp(
                SqlDateTime { date: date_time.date, time: date_time.time.truncated_to_micros() },
            ),
            SqlValue::TimestampTz(timestamp) => SqlValue::TimestampTz(
                SqlTimestamp::with_nanos((div_toward_zero(timestamp.nanos(), 1000) * 1000) as i128),
            ),
            value => value,
        }
    }

    /// Returns the name of the kind of this value.
    pub fn kind(&self) -> (name: &'static str)
        ensures
            name@ == self.kind_name(),
            name == self.kind_str(),
    {
        match self {
            SqlValue::Null => "null",
            SqlValue::Text(_) => "text",
            SqlValue::Date(_) => "date",
            SqlValue::Time(_) => "time",
            SqlValue::Timestamp(_) => "timestamp",
            SqlValue::TimestampTz(_) => "timestamp with time zone",
        }
    }
}

/// The error of a semantic SQL conversion.
#[derive(Clone, Debug, Eq, PartialEq)]
pub enum SqlError {
    /// A value of another kind than the one a conversion expected.
    UnexpectedValue {
        /// What the conversion expected.
        expected: &'static str,
        /// The kind of the value it was given.
        actual: &'static str,
    },
    /// A `NULL` where a value was needed.
    UnexpectedNull,
    /// An integer conversion to a narrower type whose range does not hold the value.
    IntegerOutOfRange,
    /// A PostgreSQL `DATE` with no representable date.
    DateOutOfRange,
    /// A PostgreSQL `TIME` outside a day.
    TimeOutOfRange,
    /// A PostgreSQL `TIMESTAMP` with no representable date and time.
    TimestampOutOfRange,
    /// A timestamp outside the microsecond range of PostgreSQL.
    TimestampTzOutOfRange,
    /// A binary driver value whose shape does not fit the type it is decoded as.
    MismatchedBinaryValue,
    /// An error that an implementation of the conversion traits reports in its own words.
    Message(String),
}

impl SqlError {
    /// The message of this error.
    pub open spec fn message_text(self) -> Seq<char> {
        match self {
            SqlError::UnexpectedValue { expected, actual } => "expected "@ + expected@ + ", got "@
                + actual@,
            SqlError::UnexpectedNull => "unexpected null; try decoding as an `Option`"@,
            SqlError::IntegerOutOfRange => "out of range integral type conversion attempted"@,
            SqlError::DateOutOfRange => "PostgreSQL DATE is out of range"@,
            SqlError::TimeOutOfRange => "PostgreSQL TIME is out of range"@,
            SqlError::TimestampOutOfRange => "PostgreSQL TIMESTAMP is out of range"@,
            SqlError::TimestampTzOutOfRange => "timestamp is out of range for PostgreSQL"@,
            SqlError::MismatchedBinaryValue => "binary value does not fit the decoded type"@,
            SqlError::Message(text) => text@,
        }
    }

    /// Returns the message of this error.
    pub fn message(&self) -> (text: String)
        ensures
            text@ == self.message_text(),
    {
        match self {
            SqlError::UnexpectedValue { expected, actual } => String::from_str("expected ").concat(
                expected,
            ).concat(", got ").concat(actual),
            SqlError::UnexpectedNull => String::from_str(
                "unexpected null; try decoding as an `Option`",
            ),
            SqlError::IntegerOutOfRange => String::from_str(
                "out of range integral type conversion attempted",
            ),
            SqlError::DateOutOfRange => String::from_str("PostgreSQL DATE is out of range"),
            SqlError::TimeOutOfRange => String::from_str("PostgreSQL TIME is out of range"),
            SqlError::TimestampOutOfRange => String::from_str(
                "PostgreSQL TIMESTAMP is out of range",
            ),
            SqlError::TimestampTzOutOfRange => String::from_str(
                "timestamp is out of range for PostgreSQL",
            ),
            SqlError::MismatchedBinaryValue => String::from_str(
                "binary value does not fit the decoded type",
            ),
            SqlError::Message(text) => text.clone(),
        }
    }

    /// Creates an error with the given message.
    pub fn from_message(message: &str) -> (error: SqlError)
        ensures
            error matches SqlError::Message(text) && text@ == message@,
            error.message_text() == message@,
    {
        SqlError::Message(message.to_owned())
    }
}

/// Creates a conversion error for an unexpected semantic SQL value.
pub fn unexpected_sql_value(expected: &'static str, actual: &SqlValue) -> (error: SqlError)
    ensures
        error == (SqlError::UnexpectedValue { expected, actual: actual.kind_str() }),
        error.message_text() == "expected "@ + expected@ + ", got "@ + actual.kind_name(),
{
    SqlError::UnexpectedValue { expected, actual: actual.kind() }
}

} // verus!
