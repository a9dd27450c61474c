//! The traits by which a Rust type names its semantic SQL type and converts to and
//! from semantic SQL values, with their implementations for text and options.
use vstd::prelude::*;

use crate::value::{unexpected_sql_value, SqlError, SqlType, SqlValue};

verus! {

/// A type with a known semantic SQL type.
pub trait HasSqlType {
    /// The semantic SQL type this Rust type maps to.
    const SQL_TYPE: SqlType;
}

/// Encodes a Rust value into a semantic SQL value.
pub trait SqlEncode: HasSqlType {
    /// Encoding this value may give `encoded`. An implementation that states
    /// nothing leaves every outcome possible.
    open spec fn encodes_to(&self, encoded: Result<SqlValue, SqlError>) -> bool {
        true
    }

    /// Encodes this value.
    fn encode_sql(&self) -> (encoded: Result<SqlValue, SqlError>)
        ensures
            self.encodes_to(encoded),
    ;
}

/// Decodes a Rust value from a semantic SQL value.
pub trait SqlDecode: HasSqlType + Sized {
    /// Decoding `value` may give `decoded`. An implementation that states
    /// nothing leaves every outcome possible.
    open spec fn decodes_to(value: SqlValue, decoded: Result<Self, SqlError>) -> bool {
        true
    }

    /// Decodes this value.
    fn decode_sql(value: SqlValue) -> (decoded: Result<Self, SqlError>)
        ensures
            Self::decodes_to(value, decoded),
    ;
}

impl<T> HasSqlType for &T where T: HasSqlType + ?Sized {
    const SQL_TYPE: SqlType = T::SQL_TYPE;
}

impl<T> SqlEncode for &T where T: SqlEncode + ?Sized {
    open spec fn encodes_to(&self, encoded: Result<SqlValue, SqlError>) -> bool {
        (**self).encodes_to(encoded)
    }

    fn encode_sql(&self) -> (encoded: Result<SqlValue, SqlError>) {
        (**self).encode_sql()
    }
}

impl<T> HasSqlType for Option<T> where T: HasSqlType {
    const SQL_TYPE: SqlType = T::SQL_TYPE;
}

impl<T> SqlEncode for Option<T> where T: SqlEncode {
    open spec fn encodes_to(&self, encoded: Result<SqlValue, SqlError>) -> bool {
        match self {
            None => encoded == Ok::<SqlValue, SqlError>(SqlValue::Null),
            Some(value) => value.encodes_to(encoded),
        }
    }

    fn encode_sql(&self) -> (encoded: Result<SqlValue, SqlError>) {
        match self {
            None => Ok(SqlValue::Null),
            Some(value) => value.encode_sql(),
        }
    }
}

impl<T> SqlDecode for Option<T> where T: SqlDecode {
    open spec fn decodes_to(value: SqlValue, decoded: Result<Self, SqlError>) -> bool {
        match value {
            SqlValue::Null => decoded == Ok::<Self, SqlError>(None),
            value => match decoded {
                Ok(Some(inner)) => T::decodes_to(value, Ok(inner)),
                Ok(None) => false,
                Err(error) => T::decodes_to(value, Err(error)),
            },
        }
    }

    fn decode_sql(value: SqlValue) -> (decoded: Result<Self, SqlError>) {
        match value {
            SqlValue::Null => Ok(None),
            value => match T::decode_sql(value) {
                Ok(decoded) => Ok(Some(decoded)),
                Err(error) => Err(error),
            },
        }
    }
}

impl HasSqlType for str {
    const SQL_TYPE: SqlType = SqlType::Text;
}

impl SqlEncode for str {
    open spec fn encodes_to(&self, encoded: Result<SqlValue, SqlError>) -> bool {
        encoded matches Ok(SqlValue::Text(text)) && text@ == self@
    }

    fn encode_sql(&self) -> (encoded: Result<SqlValue, SqlError>) {
        Ok(SqlValue::Text(self.to_owned()))
    }
}

impl HasSqlType for String {
    const SQL_TYPE: SqlType = SqlType::Text;
}

impl SqlEncode for String {
    open spec fn encodes_to(&self, encoded: Result<SqlValue, SqlError>) -> bool {
        encoded == Ok::<SqlValue, SqlError>(SqlValue::Text(*self))
    }

    fn encode_sql(&self) -> (encoded: Result<SqlValue, SqlError>) {
        Ok(SqlValue::Text(self.clone()))
    }
}

impl SqlDecode for String {
    open spec fn decodes_to(value: SqlValue, decoded: Result<Self, SqlError>) -> bool {
        decoded == match value {
            SqlValue::Text(text) => Ok(text),
            value => Err(SqlError::UnexpectedValue { expected: "text", actual: value.kind_str() }),
        }
    }

    fn decode_sql(value: SqlValue) -> (decoded: Result<Self, SqlError>) {
        match value {
            SqlValue::Text(text) => Ok(text),
            value => Err(unexpected_sql_value("text", &value)),
        }
    }
}

/// Text comes back from its semantic value: what encoding a `String` gives,
/// decoding as a `String` turns back into the same `String`.
pub proof fn law_string_round_trip(text: String, encoded: Result<SqlValue, SqlError>)
    requires
        text.encodes_to(encoded),
    ensures
        encoded matches Ok(value) && String::decodes_to(value, Ok(text)),
{
}

/// A missing value is `NULL` and `NULL` is a missing value.
pub proof fn law_option_none<T: SqlEncode + SqlDecode>(
    encoded: Result<SqlValue, SqlError>,
    decoded: Result<Option<T>, SqlError>,
)
    ensures
        None::<T>.encodes_to(encoded) ==> encoded == Ok::<SqlValue, SqlError>(SqlValue::Null),
        Option::<T>::decodes_to(SqlValue::Null, decoded) ==> decoded == Ok::<Option<T>, SqlError>(
            None,
        ),
{
}

/// A present value that comes back from its non-null semantic value also comes
/// back through `Option`.
pub proof fn law_option_round_trip<T: SqlEncode + SqlDecode>(value: T, encoded: SqlValue)
    requires
        value.encodes_to(Ok(encoded)),
        !(encoded is Null),
        T::decodes_to(encoded, Ok(value)),
    ensures
        Some(value).encodes_to(Ok(encoded)),
        Option::<T>::decodes_to(encoded, Ok(Some(value))),
{
}

} // verus!
