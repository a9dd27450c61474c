//! Database-independent date and time values and their conversions to and from
//! day, nanosecond and microsecond counts.
use vstd::prelude::*;

use crate::calendar::{
    civil_from_day_number, day_number, is_valid_date, lemma_civil_from_day_number,
    lemma_days_before_march_by_era, lemma_month_of_day, lemma_year_of_era_bounds,
};

verus! {

/// Floor division: the quotient of `n` by `d` rounded toward negative infinity.
fn div_floor(n: i64, d: i64) -> (q: i64)
    requires
        d != 0,
        !(n == i64::MIN && d == -1),
    ensures
        d > 0 ==> q * d <= n < q * d + d,
        d < 0 ==> q * d + d < n <= q * d,
        d > 0 ==> q == n as int / d as int,
{
    let q = n / d;
    let r = n % d;
    proof {
        let x: int = if n >= 0 { n as int } else { -(n as int) };
        let di = d as int;
        let b: int = if d > 0 { di } else { -di };
        vstd::arithmetic::div_mod::lemma_fundamental_div_mod(x, di);
        let e = x / di;
        let m = x % di;
        assert(0 <= m < b);
        if d > 0 {
            assert(0 <= e <= x) by (nonlinear_arith)
                requires
                    x == di * e + m,
                    0 <= m < di,
                    x >= 0,
            ;
        } else if d == -1 {
            assert(e == -x) by (nonlinear_arith)
                requires
                    x == di * e + m,
                    0 <= m < -di,
                    di == -1,
            ;
        } else {
            assert(-x <= 2 * e <= 0) by (nonlinear_arith)
                requires
                    x == di * e + m,
                    0 <= m < -di,
                    di <= -2,
                    x >= 0,
            ;
        }
        if n >= 0 {
            assert(q == e);
            assert(r == m);
        } else {
            assert(q == -e);
            assert(r == -m);
        }
        assert(n as int == q * di + r) by (nonlinear_arith)
            requires
                x == di * e + m,
                n >= 0 ==> x == n && q == e && r == m,
                n < 0 ==> x == -n && q == -e && r == -m,
        ;
    }
    if r != 0 && ((r > 0) != (d > 0)) {
        proof {
            assert(q > i64::MIN) by (nonlinear_arith)
                requires
                    n == q * (d as int) + r,
                    r != 0,
                    (r > 0) != (d > 0),
                    n >= i64::MIN,
                    n <= i64::MAX,
                    -(if d > 0 { d as int } else { -(d as int) }) < r,
                    r < (if d > 0 { d as int } else { -(d as int) }),
            ;
            assert((q - 1) * (d as int) == q * (d as int) - d) by (nonlinear_arith);
            if d > 0 {
                crate::calendar::lemma_quotient(n as int, d as int, q - 1);
            }
        }
        q - 1
    } else {
        proof {
            if d > 0 {
                crate::calendar::lemma_quotient(n as int, d as int, q as int);
            }
        }
        q
    }
}

/// The day count of the first date representable: January 1st of the year `i32::MIN`.
pub open spec fn min_day_count() -> int {
    day_number(i32::MIN as int, 1, 1)
}

/// The day count of the last date representable: December 31st of the year `i32::MAX`.
pub open spec fn max_day_count() -> int {
    day_number(i32::MAX as int, 12, 31)
}

/// The date whose day count from 1970-01-01 is `n`, when its year fits an `i32`.
pub open spec fn date_from_day_number(n: int) -> Option<SqlDate> {
    if min_day_count() <= n <= max_day_count() {
        let t = civil_from_day_number(n);
        Some(SqlDate { year: t.0 as i32, month: t.1 as u8, day: t.2 as u8 })
    } else {
        None
    }
}

/// A proleptic Gregorian calendar date.
#[derive(Clone, Copy, Debug, PartialEq, Eq, Hash, Structural)]
pub struct SqlDate {
    /// The Gregorian year.
    pub year: i32,
    /// The month number in the range `1..=12`.
    pub month: u8,
    /// The day number in the range `1..=31`.
    pub day: u8,
}

impl SqlDate {
    /// The date is a real calendar date.
    pub open spec fn is_valid(self) -> bool {
        is_valid_date(self.year as int, self.month as int, self.day as int)
    }

    /// The number of days from 1970-01-01 to this date.
    pub open spec fn day_count(self) -> int {
        day_number(self.year as int, self.month as int, self.day as int)
    }

    /// Creates a date from its components without validation.
    pub fn from_ymd_unchecked(year: i32, month: u8, day: u8) -> (date: Self)
        ensures
            date == (SqlDate { year, month, day }),
    {
        Self { year, month, day }
    }

    /// Returns the number of days since `1970-01-01`.
    pub fn days_since_unix_epoch(self) -> (days: i64)
        ensures
            days == self.day_count(),
    {
        let mut year = self.year as i64;
        let month = self.month as i64;
        let day = self.day as i64;

        year -= if month <= 2 { 1 } else { 0 };
        let era = div_floor(year, 400);
        let year_of_era = year - era * 400;
        proof {
            assert(0 <= year_of_era < 400) by {
                vstd::arithmetic::div_mod::lemma_fundamental_div_mod(year as int, 400);
            }
        }
        let month_prime = month + if month > 2 { -3 } else { 9 };
        let day_of_year = (153 * month_prime + 2) / 5 + day - 1;
        let day_of_era = year_of_era * 365 + year_of_era / 4 - year_of_era / 100 + day_of_year;
        proof {
            lemma_days_before_march_by_era(era as int, year_of_era as int);
        }
        era * 146_097 + day_of_era - 719_468
    }

    /// Creates a date from a day count relative to `1970-01-01`.
    pub fn from_days_since_unix_epoch(days: i64) -> (date: Option<Self>)
        ensures
            date == date_from_day_number(days as int),
            date is Some <==> min_day_count() <= days <= max_day_count(),
            date matches Some(d) ==> d.is_valid() && d.day_count() == days,
    {
        let ghost n = days as int;
        proof {
            if min_day_count() <= n <= max_day_count() {
                law_date_from_day_number_sound(n);
            }
            crate::calendar::lemma_year_range(n, i32::MIN as int, i32::MAX as int);
        }
        let days = days.checked_add(719_468)?;
        let era = div_floor(days, 146_097);
        let day_of_era = days - era * 146_097;
        proof {
            assert(0 <= day_of_era < 146097) by {
                vstd::arithmetic::div_mod::lemma_fundamental_div_mod(days as int, 146097);
            }
            lemma_year_of_era_bounds(day_of_era as int);
        }
        let year_of_era =
            (day_of_era - day_of_era / 1_460 + day_of_era / 36_524 - day_of_era / 146_096) / 365;
        let mut year = year_of_era + era * 400;
        let day_of_year = day_of_era - (365 * year_of_era + year_of_era / 4 - year_of_era / 100);
        proof {
            lemma_month_of_day(day_of_year as int);
        }
        let month_prime = (5 * day_of_year + 2) / 153;
        let day = day_of_year - (153 * month_prime + 2) / 5 + 1;
        let month = month_prime + if month_prime < 10 { 3 } else { -9 };

        year += if month <= 2 { 1 } else { 0 };
        proof {
            crate::calendar::lemma_civil_steps(
                n,
                era as int,
                day_of_era as int,
                year_of_era as int,
                day_of_year as int,
                month_prime as int,
                day as int,
                month as int,
                year as int,
            );
        }

        Some(Self {
            year: i32::try_from(year).ok()?,
            month: u8::try_from(month).ok()?,
            day: u8::try_from(day).ok()?,
        })
    }
}

/// The number of nanoseconds in a day.
pub open spec fn nanos_per_day() -> int {
    86_400_000_000_000
}

/// The number of microseconds in a day.
pub open spec fn micros_per_day() -> int {
    86_400_000_000
}

/// The time of day `n` nanoseconds after midnight, for `n` within a day.
pub open spec fn time_from_nanos(n: int) -> Option<SqlTime> {
    if 0 <= n < nanos_per_day() {
        let seconds = n / 1_000_000_000;
        Some(
            SqlTime {
                hour: (seconds / 3_600) as u8,
                minute: ((seconds % 3_600) / 60) as u8,
                second: (seconds % 60) as u8,
                nanosecond: (n % 1_000_000_000) as u32,
            },
        )
    } else {
        None
    }
}

/// The time of day `n` microseconds after midnight, for `n` within a day.
pub open spec fn time_from_micros(n: int) -> Option<SqlTime> {
    if n < micros_per_day() {
        time_from_nanos(n * 1000)
    } else {
        None
    }
}

/// A time of day with nanosecond precision.
#[derive(Clone, Copy, Debug, PartialEq, Eq, Hash, Structural)]
pub struct SqlTime {
    /// The hour in the range `0..=23`.
    pub hour: u8,
    /// The minute in the range `0..=59`.
    pub minute: u8,
    /// The second in the range `0..=59`.
    pub second: u8,
    /// The fractional nanosecond in the range `0..=999_999_999`.
    pub nanosecond: u32,
}

impl SqlTime {
    /// The number of nanoseconds in a day.
    pub const NANOS_PER_DAY: u64 = 86_400_000_000_000;

    /// The number of microseconds in a day.
    pub const MICROS_PER_DAY: u64 = 86_400_000_000;

    /// Every component is within its range.
    pub open spec fn is_valid(self) -> bool {
        self.hour < 24 && self.minute < 60 && self.second < 60 && self.nanosecond < 1_000_000_000
    }

    /// The nanoseconds from midnight to this time.
    pub open spec fn nanos(self) -> int {
        (self.hour * 3_600 + self.minute * 60 + self.second) * 1_000_000_000 + self.nanosecond
    }

    /// This time with the nanoseconds below a whole microsecond dropped.
    pub open spec fn truncated_to_micros(self) -> SqlTime {
        SqlTime { nanosecond: (self.nanosecond / 1000 * 1000) as u32, ..self }
    }

    /// Creates a time from its components without validation.
    pub fn from_hms_nano_unchecked(hour: u8, minute: u8, second: u8, nanosecond: u32) -> (time:
        Self)
        ensures
            time == (SqlTime { hour, minute, second, nanosecond }),
    {
        Self { hour, minute, second, nanosecond }
    }

    /// Returns the nanosecond count since midnight.
    pub fn nanoseconds_since_midnight(self) -> (nanos: u64)
        ensures
            nanos == self.nanos(),
    {
        let seconds = u64::from(self.hour) * 3_600 + u64::from(self.minute) * 60 + u64::from(
            self.second,
        );
        seconds * 1_000_000_000 + u64::from(self.nanosecond)
    }

    /// Returns the microsecond count since midnight, truncating sub-microsecond precision.
    pub fn microseconds_since_midnight(self) -> (micros: u64)
        ensures
            micros == self.nanos() / 1000,
    {
        self.nanoseconds_since_midnight() / 1_000
    }

    /// Creates a time from a nanosecond count since midnight.
    pub fn from_nanoseconds_since_midnight(nanos: u64) -> (time: Option<Self>)
        ensures
            time == time_from_nanos(nanos as int),
            time is Some <==> nanos < nanos_per_day(),
            time matches Some(t) ==> t.is_valid() && t.nanos() == nanos,
    {
        proof {
            if nanos < nanos_per_day() {
                law_time_from_nanos_sound(nanos as int);
            }
        }
        if nanos >= Self::NANOS_PER_DAY {
            return None;
        }
        let seconds = nanos / 1_000_000_000;
        let nanosecond = u32::try_from(nanos % 1_000_000_000).ok()?;
        let hour = seconds / 3_600;
        let minute = (seconds % 3_600) / 60;
        let second = seconds % 60;

        Some(
            Self {
                hour: u8::try_from(hour).ok()?,
                minute: u8::try_from(minute).ok()?,
                second: u8::try_from(second).ok()?,
                nanosecond,
            },
        )
    }

    /// Creates a time from a microsecond count since midnight.
    pub fn from_microseconds_since_midnight(micros: u64) -> (time: Option<Self>)
        ensures
            time == time_from_micros(micros as int),
            time is Some <==> micros < micros_per_day(),
            time matches Some(t) ==> t.is_valid() && t.nanos() == micros * 1000,
    {
        proof {
            if micros < micros_per_day() {
                law_time_from_nanos_sound(micros * 1000);
            }
        }
        match micros.checked_mul(1_000) {
            Some(nanos) => Self::from_nanoseconds_since_midnight(nanos),
            None => None,
        }
    }
}

/// The date and time `m` microseconds after 1970-01-01T00:00:00, when its date
/// is representable.
pub open spec fn date_time_from_micros(m: int) -> Option<SqlDateTime> {
    let days = m / micros_per_day();
    let day_micros = m % micros_per_day();
    if min_day_count() <= days <= max_day_count() {
        Some(
            SqlDateTime {
                date: date_from_day_number(days).unwrap(),
                time: time_from_micros(day_micros).unwrap(),
            },
        )
    } else {
        None
    }
}

/// A calendar date and time without an offset or time zone.
#[derive(Clone, Copy, Debug, PartialEq, Eq, Hash, Structural)]
pub struct SqlDateTime {
    /// The date component.
    pub date: SqlDate,
    /// The time component.
    pub time: SqlTime,
}

impl SqlDateTime {
    /// Both components are valid.
    pub open spec fn is_valid(self) -> bool {
        self.date.is_valid() && self.time.is_valid()
    }

    /// The microseconds from 1970-01-01T00:00:00 to this date and time, with
    /// sub-microsecond precision dropped.
    pub open spec fn micros(self) -> int {
        self.date.day_count() * micros_per_day() + self.time.nanos() / 1000
    }

    /// Creates a datetime from its date and time components.
    pub fn new(date: SqlDate, time: SqlTime) -> (date_time: Self)
        ensures
            date_time == (SqlDateTime { date, time }),
    {
        Self { date, time }
    }

    /// Returns microseconds since `1970-01-01T00:00:00`, truncating sub-microsecond precision.
    pub fn microseconds_since_unix_epoch(self) -> (micros: i128)
        ensures
            micros == self.micros(),
    {
        proof {
            crate::calendar::lemma_day_number_bound(
                self.date.year as int,
                self.date.month as int,
                self.date.day as int,
            );
        }
        let days = self.date.days_since_unix_epoch();
        let day_micros = self.time.microseconds_since_midnight();
        assert(-1_000_000_000_000 * 86_400_000_000 <= days * 86_400_000_000
            <= 1_000_000_000_000 * 86_400_000_000) by (nonlinear_arith)
            requires
                -1_000_000_000_000 <= days <= 1_000_000_000_000,
        ;
        i128::from(days) * (SqlTime::MICROS_PER_DAY as i128) + (day_micros as i128)
    }

    /// Creates a datetime from microseconds since `1970-01-01T00:00:00`.
    pub fn from_microseconds_since_unix_epoch(micros: i128) -> (date_time: Option<Self>)
        ensures
            date_time == date_time_from_micros(micros as int),
            date_time matches Some(dt) ==> dt.is_valid() && dt.micros() == micros,
    {
        proof {
            if date_time_from_micros(micros as int) is Some {
                law_date_time_from_micros_sound(micros as int);
            }
        }
        let micros_per_day = SqlTime::MICROS_PER_DAY as i128;
        let days = micros.checked_div_euclid(micros_per_day)?;
        let day_micros = micros.checked_rem_euclid(micros_per_day)?;
        proof {
            assert(0 <= day_micros < micros_per_day) by {
                vstd::arithmetic::div_mod::lemma_fundamental_div_mod(
                    micros as int,
                    micros_per_day as int,
                );
            }
        }

        Some(
            Self {
                date: SqlDate::from_days_since_unix_epoch(i64::try_from(days).ok()?)?,
                time: SqlTime::from_microseconds_since_midnight(u64::try_from(day_micros).ok()?)?,
            },
        )
    }
}

/// Truncating division, rounding toward zero, as Rust's `/` on integers.
pub open spec fn div_toward_zero(n: int, d: int) -> int {
    if n >= 0 {
        n / d
    } else {
        -((-n) / d)
    }
}

/// An instant in time represented as nanoseconds since the Unix epoch.
#[derive(Clone, Copy, Debug, PartialEq, Eq, Hash, Structural)]
pub struct SqlTimestamp {
    unix_nanoseconds: i128,
}

impl SqlTimestamp {
    /// The nanoseconds since the Unix epoch.
    pub closed spec fn nanos(self) -> int {
        self.unix_nanoseconds as int
    }

    /// The instant `n` nanoseconds after the Unix epoch.
    pub closed spec fn with_nanos(n: i128) -> SqlTimestamp {
        SqlTimestamp { unix_nanoseconds: n }
    }

    /// The instant made of a nanosecond count has that count.
    pub proof fn lemma_with_nanos(n: i128)
        ensures
            Self::with_nanos(n).nanos() == n,
    {
    }

    /// An instant is determined by its nanosecond count.
    pub proof fn lemma_nanos_injective(self, other: Self)
        requires
            self.nanos() == other.nanos(),
        ensures
            self == other,
    {
    }

    /// Creates a timestamp from nanoseconds since the Unix epoch.
    pub fn from_unix_nanoseconds(unix_nanoseconds: i128) -> (timestamp: Self)
        ensures
            timestamp == Self::with_nanos(unix_nanoseconds),
            timestamp.nanos() == unix_nanoseconds,
    {
        Self { unix_nanoseconds }
    }

    /// Creates a timestamp from microseconds since the Unix epoch.
    pub fn from_unix_microseconds(unix_microseconds: i64) -> (timestamp: Self)
        ensures
            timestamp == Self::with_nanos((unix_microseconds * 1000) as i128),
            timestamp.nanos() == unix_microseconds * 1000,
    {
        Self { unix_nanoseconds: unix_microseconds as i128 * 1_000 }
    }

    /// Returns nanoseconds since the Unix epoch.
    pub fn unix_nanoseconds(self) -> (nanos: i128)
        ensures
            nanos == self.nanos(),
    {
        self.unix_nanoseconds
    }

    /// Returns microseconds since the Unix epoch, truncating sub-microsecond precision.
    pub fn unix_microseconds_truncated(self) -> (micros: Option<i64>)
        ensures
            micros == (if i64::MIN <= div_toward_zero(self.nanos(), 1000) <= i64::MAX {
                Some(div_toward_zero(self.nanos(), 1000) as i64)
            } else {
                None
            }),
    {
        i64::try_from(self.unix_nanoseconds / 1_000).ok()
    }
}

/// A real date is found again from its day count:
/// `from_days_since_unix_epoch(d.days_since_unix_epoch()) == Some(d)`.
pub proof fn law_date_round_trip(date: SqlDate)
    requires
        date.is_valid(),
    ensures
        date_from_day_number(date.day_count()) == Some(date),
{
    crate::calendar::lemma_day_number_inverse(date.year as int, date.month as int, date.day as int);
    crate::calendar::lemma_year_range(date.day_count(), i32::MIN as int, i32::MAX as int);
}

/// A date made from a day count is a real date, and its day count is the one it
/// was made from.
pub proof fn law_date_from_day_number_sound(n: int)
    requires
        date_from_day_number(n) is Some,
    ensures
        date_from_day_number(n).unwrap().is_valid(),
        date_from_day_number(n).unwrap().day_count() == n,
{
    lemma_civil_from_day_number(n);
}

/// A valid time of day is found again from its nanosecond count.
pub proof fn law_time_round_trip(time: SqlTime)
    requires
        time.is_valid(),
    ensures
        0 <= time.nanos() < nanos_per_day(),
        time_from_nanos(time.nanos()) == Some(time),
{
    let s = time.hour * 3_600 + time.minute * 60 + time.second;
    crate::calendar::lemma_quotient(time.nanos(), 1_000_000_000, s);
    crate::calendar::lemma_quotient(s, 3_600, time.hour as int);
    crate::calendar::lemma_quotient(s % 3_600, 60, time.minute as int);
    crate::calendar::lemma_quotient(s, 60, time.hour * 60 + time.minute);
}

/// A time made from a nanosecond count is valid and has that count.
pub proof fn law_time_from_nanos_sound(n: int)
    requires
        time_from_nanos(n) is Some,
    ensures
        time_from_nanos(n).unwrap().is_valid(),
        time_from_nanos(n).unwrap().nanos() == n,
{
    let seconds = n / 1_000_000_000;
    vstd::arithmetic::div_mod::lemma_fundamental_div_mod(n, 1_000_000_000);
    vstd::arithmetic::div_mod::lemma_fundamental_div_mod(seconds, 3_600);
    vstd::arithmetic::div_mod::lemma_fundamental_div_mod(seconds % 3_600, 60);
    vstd::arithmetic::div_mod::lemma_fundamental_div_mod(seconds, 60);
    assert(seconds % 60 == (seconds % 3_600) % 60) by {
        vstd::arithmetic::div_mod::lemma_mod_mod(seconds, 60, 60);
    }
}

/// Through microseconds a valid time comes back with its nanoseconds truncated
/// to whole microseconds.
pub proof fn law_time_micros_round_trip(time: SqlTime)
    requires
        time.is_valid(),
    ensures
        time_from_micros(time.nanos() / 1000) == Some(time.truncated_to_micros()),
{
    let t = time.truncated_to_micros();
    let ns = time.nanosecond as int;
    vstd::arithmetic::div_mod::lemma_fundamental_div_mod(ns, 1000);
    let s = time.hour * 3_600 + time.minute * 60 + time.second;
    crate::calendar::lemma_quotient(time.nanos(), 1000, s * 1_000_000 + ns / 1000);
    assert(t.is_valid());
    assert(t.nanos() == (time.nanos() / 1000) * 1000);
    law_time_round_trip(t);
}

/// A valid date and time is found again from its microsecond count, with its
/// nanoseconds truncated to whole microseconds.
pub proof fn law_date_time_round_trip(date_time: SqlDateTime)
    requires
        date_time.is_valid(),
    ensures
        date_time_from_micros(date_time.micros()) == Some(
            SqlDateTime { date: date_time.date, time: date_time.time.truncated_to_micros() },
        ),
{
    let days = date_time.date.day_count();
    let day_micros = date_time.time.nanos() / 1000;
    law_time_round_trip(date_time.time);
    crate::calendar::lemma_quotient(date_time.micros(), micros_per_day(), days);
    law_date_round_trip(date_time.date);
    crate::calendar::lemma_day_number_bound(
        date_time.date.year as int,
        date_time.date.month as int,
        date_time.date.day as int,
    );
    law_time_micros_round_trip(date_time.time);
}

/// A date and time made from a microsecond count is valid and has that count.
pub proof fn law_date_time_from_micros_sound(m: int)
    requires
        date_time_from_micros(m) is Some,
    ensures
        date_time_from_micros(m).unwrap().is_valid(),
        date_time_from_micros(m).unwrap().micros() == m,
{
    let days = m / micros_per_day();
    let day_micros = m % micros_per_day();
    vstd::arithmetic::div_mod::lemma_fundamental_div_mod(m, micros_per_day());
    law_date_from_day_number_sound(days);
    law_time_from_nanos_sound(day_micros * 1000);
    let t = time_from_micros(day_micros).unwrap();
    assert(t.nanos() / 1000 == day_micros);
}

/// Microseconds are found again from the timestamp made of them:
/// `from_unix_microseconds(u).unix_microseconds_truncated() == Some(u)`.
pub proof fn law_timestamp_micros_round_trip(u: i64)
    ensures
        div_toward_zero(u * 1000, 1000) == u,
{
    if u >= 0 {
        crate::calendar::lemma_quotient(u * 1000, 1000, u as int);
    } else {
        crate::calendar::lemma_quotient(-u * 1000, 1000, -u);
    }
}

} // verus!

