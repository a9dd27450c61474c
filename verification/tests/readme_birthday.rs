use lib::date_time::SqlDate;
use lib::traits::{HasSqlType, SqlDecode, SqlEncode};
use lib::value::{unexpected_sql_value, SqlError, SqlType, SqlValue};

#[derive(Debug, PartialEq)]
struct Birthday {
    year: i32,
    month: u8,
    day: u8,
}

impl HasSqlType for Birthday {
    const SQL_TYPE: SqlType = SqlType::Date;
}

impl SqlEncode for Birthday {
    fn encode_sql(&self) -> Result<SqlValue, SqlError> {
        Ok(SqlValue::Date(SqlDate::from_ymd_unchecked(self.year, self.month, self.day)))
    }
}

impl SqlDecode for Birthday {
    fn decode_sql(value: SqlValue) -> Result<Self, SqlError> {
        match value {
            SqlValue::Date(date) => Ok(Birthday { year: date.year, month: date.month, day: date.day }),
            other => Err(unexpected_sql_value("date", &other)),
        }
    }
}

#[test]
fn birthday_round_trips_through_sql_value() {
    let birthday = Birthday { year: 1990, month: 7, day: 14 };
    let value = birthday.encode_sql().unwrap();
    assert_eq!(value, SqlValue::Date(SqlDate::from_ymd_unchecked(1990, 7, 14)));
    assert_eq!(Birthday::decode_sql(value), Ok(Birthday { year: 1990, month: 7, day: 14 }));
    assert_eq!(<Birthday as HasSqlType>::SQL_TYPE, SqlType::Date);
}

#[test]
fn birthday_rejects_text() {
    let error = Birthday::decode_sql(SqlValue::Text("x".to_string())).unwrap_err();
    assert_eq!(error.message(), "expected date, got text");
    assert_eq!(Option::<Birthday>::decode_sql(SqlValue::Null), Ok(None));
}
