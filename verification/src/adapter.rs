//! The bridge between semantic SQL values and a database driver: the operations a
//! driver provides for semantic types, and the `Sql` adapter that binds and reads
//! any type implementing the semantic traits through them.
use vstd::prelude::*;

use crate::traits::{HasSqlType, SqlDecode, SqlEncode};
use crate::value::{SqlError, SqlType, SqlValue};

verus! {

/// A local adapter that lets a driver encode, decode and type-check any value
/// described by the semantic SQL traits.
#[derive(Clone, Copy, Debug, Eq, Hash, PartialEq)]
pub struct Sql<T>(pub T);

/// Database support for values described by the semantic SQL traits.
pub trait DatabaseSqlTypes {
    /// The driver's description of a column or parameter type.
    type TypeInfo;
    /// What encoding a value hands to the driver's argument buffer.
    type Argument;
    /// A value the driver received from the database.
    type ValueRef;

    /// The driver type info of a semantic SQL type.
    spec fn type_info_of(sql_type: SqlType) -> Self::TypeInfo;

    /// Whether a driver type info stands for the type of `NULL`.
    spec fn type_info_null(type_info: Self::TypeInfo) -> bool;

    /// Whether a driver type is compatible with a semantic SQL type.
    spec fn compatible_with(sql_type: SqlType, type_info: Self::TypeInfo) -> bool;

    /// Whether a received value is `NULL`.
    spec fn value_null(value: Self::ValueRef) -> bool;

    /// Encoding `value` may give `encoded`.
    spec fn encodes_value(value: SqlValue, encoded: Result<Self::Argument, SqlError>) -> bool;

    /// Decoding `value` as `sql_type` may give `decoded`.
    spec fn decodes_value(
        sql_type: SqlType,
        value: Self::ValueRef,
        decoded: Result<SqlValue, SqlError>,
    ) -> bool;

    /// Returns the driver-specific type info for a semantic SQL type.
    fn sql_type_info(sql_type: SqlType) -> (type_info: Self::TypeInfo)
        ensures
            type_info == Self::type_info_of(sql_type),
    ;

    /// Returns whether a driver type info stands for the type of `NULL`.
    fn type_info_is_null(type_info: &Self::TypeInfo) -> (is_null: bool)
        ensures
            is_null == Self::type_info_null(*type_info),
    ;

    /// Returns whether a driver-specific type is compatible with a semantic SQL type.
    fn sql_type_compatible(sql_type: SqlType, type_info: &Self::TypeInfo) -> (compatible: bool)
        ensures
            compatible == Self::compatible_with(sql_type, *type_info),
    ;

    /// Returns whether a received value is `NULL`.
    fn value_is_null(value: &Self::ValueRef) -> (is_null: bool)
        ensures
            is_null == Self::value_null(*value),
    ;

    /// Encodes a semantic SQL value into what the driver's argument buffer takes.
    fn encode_sql_value(value: SqlValue) -> (encoded: Result<Self::Argument, SqlError>)
        ensures
            Self::encodes_value(value, encoded),
    ;

    /// Decodes a semantic SQL value from the driver's value reference.
    fn decode_sql_value(sql_type: SqlType, value: Self::ValueRef) -> (decoded: Result<
        SqlValue,
        SqlError,
    >)
        ensures
            Self::decodes_value(sql_type, value, decoded),
    ;
}

impl<T> Sql<T> {
    /// The driver type of the adapter: that of `T`'s semantic SQL type.
    pub fn type_info<DB: DatabaseSqlTypes>() -> (type_info: DB::TypeInfo) where T: HasSqlType
        ensures
            type_info == DB::type_info_of(T::SQL_TYPE),
    {
        DB::sql_type_info(T::SQL_TYPE)
    }

    /// Whether a driver type can be read into the adapter: the type of `NULL`, or
    /// one compatible with `T`'s semantic SQL type.
    pub fn compatible<DB: DatabaseSqlTypes>(ty: &DB::TypeInfo) -> (compatible: bool) where
        T: HasSqlType,

        ensures
            compatible == (DB::type_info_null(*ty) || DB::compatible_with(T::SQL_TYPE, *ty)),
    {
        DB::type_info_is_null(ty) || DB::sql_type_compatible(T::SQL_TYPE, ty)
    }

    /// Encodes the wrapped value and hands its semantic SQL value to the driver;
    /// an error of either step is returned.
    pub fn encode_by_ref<DB: DatabaseSqlTypes>(&self) -> (encoded: Result<DB::Argument, SqlError>) where
        T: SqlEncode,

        ensures
            match encoded {
                Ok(argument) => exists|value: SqlValue|
                    self.0.encodes_to(Ok(value)) && DB::encodes_value(value, Ok(argument)),
                Err(error) => self.0.encodes_to(Err(error)) || exists|value: SqlValue|
                    self.0.encodes_to(Ok(value)) && DB::encodes_value(value, Err(error)),
            },
    {
        match self.0.encode_sql() {
            Ok(value) => {
                let encoded = DB::encode_sql_value(value);
                proof {
                    if encoded is Ok {
                        assert(DB::encodes_value(value, Ok(encoded->Ok_0)));
                    } else {
                        assert(DB::encodes_value(value, Err(encoded->Err_0)));
                    }
                }
                encoded
            },
            Err(error) => Err(error),
        }
    }

    /// The driver type that encoding the adapter produces.
    pub fn produces<DB: DatabaseSqlTypes>(&self) -> (type_info: Option<DB::TypeInfo>) where
        T: HasSqlType,

        ensures
            type_info == Some(DB::type_info_of(T::SQL_TYPE)),
    {
        Some(DB::sql_type_info(T::SQL_TYPE))
    }

    /// The number of bytes a semantic SQL value takes, as a hint for buffers.
    pub fn size_hint(&self) -> (size: usize)
        ensures
            size == vstd::layout::size_of::<SqlValue>(),
    {
        core::mem::size_of::<SqlValue>()
    }

    /// Decodes a received value: `NULL` becomes `SqlValue::Null`, any other value
    /// is decoded by the driver as `T`'s semantic SQL type, and the semantic
    /// value is then decoded into `T`.
    pub fn decode<DB: DatabaseSqlTypes>(value: DB::ValueRef) -> (decoded: Result<Sql<T>, SqlError>) where
        T: SqlDecode,

        ensures
            DB::value_null(value) ==> match decoded {
                Ok(Sql(inner)) => T::decodes_to(SqlValue::Null, Ok(inner)),
                Err(error) => T::decodes_to(SqlValue::Null, Err(error)),
            },
            !DB::value_null(value) ==> match decoded {
                Ok(Sql(inner)) => exists|semantic: SqlValue|
                    #[trigger] DB::decodes_value(T::SQL_TYPE, value, Ok(semantic))
                        && T::decodes_to(semantic, Ok(inner)),
                Err(error) => DB::decodes_value(T::SQL_TYPE, value, Err(error)) || exists|
                    semantic: SqlValue,
                |
                    #[trigger] DB::decodes_value(T::SQL_TYPE, value, Ok(semantic))
                        && T::decodes_to(semantic, Err(error)),
            },
    {
        let ghost raw = value;
        let semantic = if DB::value_is_null(&value) {
            SqlValue::Null
        } else {
            match DB::decode_sql_value(T::SQL_TYPE, value) {
                Ok(semantic) => semantic,
                Err(error) => {
                    return Err(error);
                },
            }
        };
        assert(!DB::value_null(raw) ==> DB::decodes_value(T::SQL_TYPE, raw, Ok(semantic)));

        let decoded = T::decode_sql(semantic);
        proof {
            if decoded is Ok {
                assert(T::decodes_to(semantic, Ok(decoded->Ok_0)));
            } else {
                assert(T::decodes_to(semantic, Err(decoded->Err_0)));
            }
        }
        match decoded {
            Ok(inner) => Ok(Sql(inner)),
            Err(error) => Err(error),
        }
    }
}

} // verus!
