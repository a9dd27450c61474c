//! The proleptic Gregorian calendar as mathematics: leap years, month lengths,
//! the day number of a date relative to 1970-01-01, and the inverse map.
use vstd::prelude::*;

verus! {

/// A year of the proleptic Gregorian calendar is a leap year when it is divisible
/// by 4 and not by 100, or divisible by 400.
pub open spec fn is_leap_year(y: int) -> bool {
    (y % 4 == 0 && y % 100 != 0) || y % 400 == 0
}

/// The number of days of month `m` (1 = January) in year `y`.
pub open spec fn days_in_month(y: int, m: int) -> int {
    if m == 2 {
        if is_leap_year(y) { 29 } else { 28 }
    } else if m == 4 || m == 6 || m == 9 || m == 11 {
        30
    } else {
        31
    }
}

/// A real calendar date: the month in `1..=12` and the day within the month.
pub open spec fn is_valid_date(y: int, m: int, d: int) -> bool {
    1 <= m <= 12 && 1 <= d <= days_in_month(y, m)
}

/// The year that a date belongs to when years are counted from March 1st, so that
/// the leap day is the last day of its year.
pub open spec fn march_year(y: int, m: int) -> int {
    if m <= 2 { y - 1 } else { y }
}

/// The month counted from March (March = 0, ..., February = 11).
pub open spec fn march_month(m: int) -> int {
    if m > 2 { m - 3 } else { m + 9 }
}

/// The number of days from 0000-03-01 to `y`-03-01.
pub open spec fn days_before_march(y: int) -> int {
    365 * y + y / 4 - y / 100 + y / 400
}

/// The number of days from March 1st to day `d` of month `mp` counted from March.
/// The month lengths from March on are 31, 30, 31, 30, 31, 31, 30, 31, 30, 31, 31.
pub open spec fn day_of_march_year(mp: int, d: int) -> int {
    (153 * mp + 2) / 5 + d - 1
}

/// The day number of 1970-01-01 counted from 0000-03-01.
pub open spec fn unix_epoch_offset() -> int {
    719468
}

/// The number of days from 1970-01-01 to the date `y`-`m`-`d` (negative before it).
/// For a month outside `1..=12` or a day past the month's end the same formula
/// continues linearly.
pub open spec fn day_number(y: int, m: int, d: int) -> int {
    days_before_march(march_year(y, m)) + day_of_march_year(march_month(m), d) - unix_epoch_offset()
}

/// `x / d == q` for a positive `d` as soon as `q * d <= x < q * d + d`.
pub proof fn lemma_quotient(x: int, d: int, q: int)
    requires
        d > 0,
        q * d <= x < q * d + d,
    ensures
        x / d == q,
        x % d == x - q * d,
{
    vstd::arithmetic::div_mod::lemma_fundamental_div_mod_converse(x, d, q, x - q * d);
}

/// The days of the year of an era (400 years, 146097 days) before the
/// March-based year `yoe`.
pub open spec fn days_before_year_of_era(yoe: int) -> int {
    365 * yoe + yoe / 4 - yoe / 100
}

/// The year of an era that a day of that era falls in, as the date algorithm
/// computes it.
pub open spec fn year_of_era(doe: int) -> int {
    (doe - doe / 1460 + doe / 36524 - doe / 146096) / 365
}

/// Whether the March-based year `yoe` of an era ends with a leap day.
pub open spec fn year_of_era_has_leap_day(yoe: int) -> bool {
    yoe % 4 == 3 && (yoe % 100 != 99 || yoe == 399)
}

/// The core of the inverse computation: a day of an era written as a century `c`,
/// a four-year block `b`, a year `a` of the block and a day `t` of the year.
proof fn lemma_era_decomposition(c: int, b: int, a: int, t: int)
    requires
        0 <= c <= 3,
        0 <= b <= 24,
        0 <= a <= 3,
        0 <= t <= 365,
        t == 365 ==> a == 3 && (b < 24 || c == 3),
    ensures
        ({
            let doe = 36524 * c + 1461 * b + 365 * a + t;
            let yoe = 100 * c + 4 * b + a;
            &&& 0 <= doe <= 146096
            &&& year_of_era(doe) == yoe
            &&& doe - days_before_year_of_era(yoe) == t
        }),
{
    let doe = 36524 * c + 1461 * b + 365 * a + t;
    let yoe = 100 * c + 4 * b + a;
    let w = 24 * c + b + 365 * a + t;
    let e: int = if w >= 1460 { 1 } else { 0 };
    let z: int = if doe == 146096 { 1 } else { 0 };
    lemma_quotient(doe, 1460, 25 * c + b + e);
    lemma_quotient(doe, 36524, c + z);
    lemma_quotient(doe, 146096, z);
    let g = doe - doe / 1460 + doe / 36524 - doe / 146096;
    assert(g == 365 * yoe + (t - e));
    lemma_quotient(g, 365, yoe);
    lemma_quotient(yoe, 4, 25 * c + b);
    lemma_quotient(yoe, 100, c);
}

/// Every day of an era falls in one year of the era, and within that year on a
/// day that exists: day 365 only in a year that ends with a leap day.
pub proof fn lemma_year_of_era_bounds(doe: int)
    requires
        0 <= doe <= 146096,
    ensures
        0 <= year_of_era(doe) <= 399,
        0 <= doe - days_before_year_of_era(year_of_era(doe)),
        doe - days_before_year_of_era(year_of_era(doe)) <= 364 + (if year_of_era_has_leap_day(
            year_of_era(doe),
        ) {
            1int
        } else {
            0int
        }),
{
    let c: int = if doe == 146096 { 3 } else { doe / 36524 };
    if doe < 146096 {
        lemma_quotient(doe, 36524, doe / 36524);
        assert(0 <= doe / 36524 <= 3) by {
            vstd::arithmetic::div_mod::lemma_fundamental_div_mod(doe, 36524);
        }
    }
    let r = doe - 36524 * c;
    assert(0 <= r <= 36524) by {
        vstd::arithmetic::div_mod::lemma_fundamental_div_mod(doe, 36524);
    }
    let b = r / 1461;
    assert(0 <= b <= 24 && 0 <= r - 1461 * b < 1461) by {
        vstd::arithmetic::div_mod::lemma_fundamental_div_mod(r, 1461);
    }
    let s = r - 1461 * b;
    let a: int = if s == 1460 { 3 } else { s / 365 };
    assert(0 <= a <= 3 && 0 <= s - 365 * a <= 364 + (if s == 1460 { 1int } else { 0int })) by {
        vstd::arithmetic::div_mod::lemma_fundamental_div_mod(s, 365);
    }
    let t = s - 365 * a;
    lemma_era_decomposition(c, b, a, t);
    let yoe = 100 * c + 4 * b + a;
    lemma_quotient(yoe, 4, 25 * c + b);
    lemma_quotient(yoe, 100, c);
}

/// A day of a year of an era, within the year's length, lies in the era and the
/// date algorithm finds the year again.
pub proof fn lemma_year_of_era_inverse(yoe: int, t: int)
    requires
        0 <= yoe <= 399,
        0 <= t <= 364 + (if year_of_era_has_leap_day(yoe) { 1int } else { 0int }),
    ensures
        0 <= days_before_year_of_era(yoe) + t <= 146096,
        year_of_era(days_before_year_of_era(yoe) + t) == yoe,
{
    let c = yoe / 100;
    let b = (yoe % 100) / 4;
    let a = yoe % 4;
    assert(0 <= c <= 3 && 0 <= yoe % 100 < 100 && yoe == 100 * c + yoe % 100) by {
        vstd::arithmetic::div_mod::lemma_fundamental_div_mod(yoe, 100);
    }
    assert(0 <= b <= 24 && yoe % 100 == 4 * b + (yoe % 100) % 4) by {
        vstd::arithmetic::div_mod::lemma_fundamental_div_mod(yoe % 100, 4);
    }
    lemma_quotient(yoe, 4, 25 * c + b);
    assert(a == (yoe % 100) % 4);
    lemma_era_decomposition(c, b, a, t);
}

/// The calendar month (1 = January) of the month `mp` counted from March.
pub open spec fn month_from_march(mp: int) -> int {
    if mp < 10 { mp + 3 } else { mp - 9 }
}

/// The number of days of the month `mp` counted from March, with February
/// given its leap-year length.
pub open spec fn march_month_length(mp: int) -> int {
    days_in_month(0, month_from_march(mp))
}

/// A day of a March-based year, counted from 0, falls in the month
/// `(5 * doy + 2) / 153` counted from March, on a day that the month has.
pub proof fn lemma_month_of_day(doy: int)
    requires
        0 <= doy <= 365,
    ensures
        0 <= (5 * doy + 2) / 153 <= 11,
        1 <= doy - (153 * ((5 * doy + 2) / 153) + 2) / 5 + 1,
        doy - (153 * ((5 * doy + 2) / 153) + 2) / 5 + 1 <= march_month_length((5 * doy + 2) / 153),
        (5 * doy + 2) / 153 == 11 && doy - (153 * ((5 * doy + 2) / 153) + 2) / 5 + 1 == 29 ==> doy == 365,
{
    let mp: int = if doy < 31 { 0 } else if doy < 61 { 1 } else if doy < 92 { 2 } else if doy < 122 {
        3
    } else if doy < 153 { 4 } else if doy < 184 { 5 } else if doy < 214 { 6 } else if doy < 245 {
        7
    } else if doy < 275 { 8 } else if doy < 306 { 9 } else if doy < 337 { 10 } else { 11 };
    lemma_quotient(5 * doy + 2, 153, mp);
}

/// The month counted from March and the day are found again from the day of
/// the March-based year.
pub proof fn lemma_day_of_march_year_inverse(mp: int, d: int)
    requires
        0 <= mp <= 11,
        1 <= d <= march_month_length(mp),
    ensures
        0 <= day_of_march_year(mp, d) <= 365,
        (5 * day_of_march_year(mp, d) + 2) / 153 == mp,
        day_of_march_year(mp, d) == 365 ==> mp == 11 && d == 29,
{
    let doy = day_of_march_year(mp, d);
    assert(0 <= doy <= 365);
    lemma_quotient(5 * doy + 2, 153, mp);
}

/// Splitting a March-based year into 400-year eras of 146097 days.
pub proof fn lemma_days_before_march_by_era(era: int, yoe: int)
    requires
        0 <= yoe <= 399,
    ensures
        days_before_march(400 * era + yoe) == 146097 * era + days_before_year_of_era(yoe),
{
    let y = 400 * era + yoe;
    assert(yoe == 4 * (yoe / 4) + yoe % 4 && 0 <= yoe % 4 < 4) by {
        vstd::arithmetic::div_mod::lemma_fundamental_div_mod(yoe, 4);
    }
    assert(yoe == 100 * (yoe / 100) + yoe % 100 && 0 <= yoe % 100 < 100) by {
        vstd::arithmetic::div_mod::lemma_fundamental_div_mod(yoe, 100);
    }
    lemma_quotient(y, 4, 100 * era + yoe / 4);
    lemma_quotient(y, 100, 4 * era + yoe / 100);
    lemma_quotient(y, 400, era);
}

/// The date on day `n` (counted from 1970-01-01) as the era-based algorithm finds it.
pub closed spec fn civil_by_eras(n: int) -> (int, int, int) {
    let z = n + unix_epoch_offset();
    let era = z / 146097;
    let doe = z - era * 146097;
    let yoe = year_of_era(doe);
    let doy = doe - days_before_year_of_era(yoe);
    let mp = (5 * doy + 2) / 153;
    let d = doy - (153 * mp + 2) / 5 + 1;
    let m = month_from_march(mp);
    (yoe + era * 400 + (if m <= 2 { 1int } else { 0int }), m, d)
}

/// The era-based algorithm yields a real date whose day number is `n`.
proof fn lemma_civil_by_eras_sound(n: int)
    ensures
        is_valid_date(civil_by_eras(n).0, civil_by_eras(n).1, civil_by_eras(n).2),
        day_number(civil_by_eras(n).0, civil_by_eras(n).1, civil_by_eras(n).2) == n,
{
    let z = n + unix_epoch_offset();
    let era = z / 146097;
    assert(0 <= z - era * 146097 < 146097) by {
        vstd::arithmetic::div_mod::lemma_fundamental_div_mod(z, 146097);
    }
    let doe = z - era * 146097;
    lemma_year_of_era_bounds(doe);
    let yoe = year_of_era(doe);
    let doy = doe - days_before_year_of_era(yoe);
    lemma_month_of_day(doy);
    let mp = (5 * doy + 2) / 153;
    let d = doy - (153 * mp + 2) / 5 + 1;
    let m = month_from_march(mp);
    let y = yoe + era * 400 + (if m <= 2 { 1int } else { 0int });
    assert(civil_by_eras(n) == (y, m, d));
    assert(march_year(y, m) == 400 * era + yoe);
    assert(march_month(m) == mp);
    lemma_days_before_march_by_era(era, yoe);
    if m == 2 && d == 29 {
        lemma_leap_day_of_era(era, yoe);
    }
}

/// A year of an era ends with a leap day exactly when the calendar year in whose
/// February it ends is a leap year.
proof fn lemma_leap_day_of_era(era: int, yoe: int)
    requires
        0 <= yoe <= 399,
    ensures
        is_leap_year(400 * era + yoe + 1) == year_of_era_has_leap_day(yoe),
{
    let y = 400 * era + yoe + 1;
    lemma_quotient(y, 4, 100 * era + (yoe + 1) / 4);
    lemma_quotient(yoe + 1, 4, (yoe + 1) / 4);
    lemma_quotient(y, 100, 4 * era + (yoe + 1) / 100);
    lemma_quotient(yoe + 1, 100, (yoe + 1) / 100);
    lemma_quotient(y, 400, era + (yoe + 1) / 400);
    lemma_quotient(yoe + 1, 400, (yoe + 1) / 400);
}

/// The era-based algorithm finds every real date again from its day number.
proof fn lemma_civil_by_eras_complete(y: int, m: int, d: int)
    requires
        is_valid_date(y, m, d),
    ensures
        civil_by_eras(day_number(y, m, d)) == (y, m, d),
{
    let ym = march_year(y, m);
    let mp = march_month(m);
    let era = ym / 400;
    let yoe = ym % 400;
    assert(ym == 400 * era + yoe && 0 <= yoe < 400) by {
        vstd::arithmetic::div_mod::lemma_fundamental_div_mod(ym, 400);
    }
    lemma_days_before_march_by_era(era, yoe);
    assert(month_from_march(mp) == m);
    lemma_day_of_march_year_inverse(mp, d);
    let doy = day_of_march_year(mp, d);
    assert(doy <= 364 + (if year_of_era_has_leap_day(yoe) { 1int } else { 0int })) by {
        if doy == 365 {
            lemma_leap_day_of_era(era, yoe);
        }
    }
    lemma_year_of_era_inverse(yoe, doy);
    let n = day_number(y, m, d);
    let z = n + unix_epoch_offset();
    assert(z == 146097 * era + days_before_year_of_era(yoe) + doy);
    lemma_quotient(z, 146097, era);
}

/// The real date whose day number (from 1970-01-01) is `n`.
pub open spec fn civil_from_day_number(n: int) -> (int, int, int) {
    choose|t: (int, int, int)| is_valid_date(t.0, t.1, t.2) && day_number(t.0, t.1, t.2) == n
}

/// Every day number belongs to exactly one real date.
pub proof fn lemma_civil_from_day_number(n: int)
    ensures
        is_valid_date(
            civil_from_day_number(n).0,
            civil_from_day_number(n).1,
            civil_from_day_number(n).2,
        ),
        day_number(civil_from_day_number(n).0, civil_from_day_number(n).1, civil_from_day_number(n).2)
            == n,
        civil_from_day_number(n) == civil_by_eras(n),
{
    lemma_civil_by_eras_sound(n);
    let w = civil_by_eras(n);
    assert(is_valid_date(w.0, w.1, w.2) && day_number(w.0, w.1, w.2) == n);
    let t = civil_from_day_number(n);
    lemma_civil_by_eras_complete(t.0, t.1, t.2);
}

/// Distinct real dates have distinct day numbers, so a date is found again from
/// its day number.
pub proof fn lemma_day_number_inverse(y: int, m: int, d: int)
    requires
        is_valid_date(y, m, d),
    ensures
        civil_from_day_number(day_number(y, m, d)) == (y, m, d),
{
    lemma_civil_from_day_number(day_number(y, m, d));
    lemma_civil_by_eras_complete(y, m, d);
}

/// The steps of the era-based computation of the date on day `n`, with the
/// ranges of the intermediate values.
pub proof fn lemma_civil_steps(
    n: int,
    era: int,
    doe: int,
    yoe: int,
    doy: int,
    mp: int,
    d: int,
    m: int,
    y: int,
)
    requires
        era == (n + unix_epoch_offset()) / 146097,
        doe == n + unix_epoch_offset() - era * 146097,
        yoe == year_of_era(doe),
        doy == doe - days_before_year_of_era(yoe),
        mp == (5 * doy + 2) / 153,
        d == doy - (153 * mp + 2) / 5 + 1,
        m == month_from_march(mp),
        y == yoe + era * 400 + (if m <= 2 { 1int } else { 0int }),
    ensures
        civil_from_day_number(n) == (y, m, d),
        0 <= doe < 146097,
        0 <= yoe <= 399,
        0 <= doy <= 365,
        0 <= mp <= 11,
        1 <= d <= 31,
        1 <= m <= 12,
{
    lemma_civil_from_day_number(n);
    assert(0 <= doe < 146097) by {
        vstd::arithmetic::div_mod::lemma_fundamental_div_mod(n + unix_epoch_offset(), 146097);
    }
    lemma_year_of_era_bounds(doe);
    lemma_month_of_day(doy);
}

/// The day number of any year of an `i32` and any month and day of a `u8` stays
/// below 10^12 in magnitude.
pub proof fn lemma_day_number_bound(y: int, m: int, d: int)
    requires
        i32::MIN <= y <= i32::MAX,
        0 <= m <= 255,
        0 <= d <= 255,
    ensures
        -1_000_000_000_000 <= day_number(y, m, d) <= 1_000_000_000_000,
{
}

/// The date that follows a real date.
pub open spec fn next_day(y: int, m: int, d: int) -> (int, int, int) {
    if d < days_in_month(y, m) {
        (y, m, d + 1)
    } else if m < 12 {
        (y, m + 1, 1)
    } else {
        (y + 1, 1, 1)
    }
}

/// Going from `y - 1` to `y`, `y / k` grows by one exactly when `k` divides `y`.
proof fn lemma_floor_step(y: int, k: int)
    requires
        k > 0,
    ensures
        y / k - (y - 1) / k == (if y % k == 0 { 1int } else { 0int }),
{
    let q = y / k;
    let r = y % k;
    vstd::arithmetic::div_mod::lemma_fundamental_div_mod(y, k);
    assert(y == q * k + r && 0 <= r < k) by (nonlinear_arith)
        requires
            y == k * q + r,
            0 <= r < k,
    ;
    if r == 0 {
        assert((q - 1) * k <= y - 1 < (q - 1) * k + k) by (nonlinear_arith)
            requires
                y == q * k,
                k > 0,
        ;
        lemma_quotient(y - 1, k, q - 1);
    } else {
        lemma_quotient(y - 1, k, q);
    }
}

/// From one March-based year to the next there are 365 days, and one more when
/// the February that ends it has a leap day.
proof fn lemma_march_year_length(y: int)
    ensures
        days_before_march(y) - days_before_march(y - 1) == 365 + (if is_leap_year(y) {
            1int
        } else {
            0int
        }),
{
    lemma_floor_step(y, 4);
    lemma_floor_step(y, 100);
    lemma_floor_step(y, 400);
    if y % 100 == 0 {
        lemma_quotient(y, 4, 25 * (y / 100));
    }
    if y % 400 == 0 {
        lemma_quotient(y, 100, 4 * (y / 400));
    }
}

/// The first day of a month other than March follows the last day of the month
/// before it within the same March-based year.
proof fn lemma_month_boundary(m: int)
    requires
        1 <= m <= 11,
        m != 2,
    ensures
        day_of_march_year(march_month(m + 1), 1) == day_of_march_year(
            march_month(m),
            days_in_month(0, m),
        ) + 1,
{
    if m == 1 {
    } else if m == 3 {
    } else if m == 4 {
    } else if m == 5 {
    } else if m == 6 {
    } else if m == 7 {
    } else if m == 8 {
    } else if m == 9 {
    } else if m == 10 {
    } else {
    }
}

/// March 1st follows the last day of February.
proof fn lemma_march_first(y: int)
    ensures
        day_number(y, 3, 1) == day_number(y, 2, days_in_month(y, 2)) + 1,
{
    lemma_march_year_length(y);
    assert(day_of_march_year(march_month(2), days_in_month(y, 2)) == 337 + days_in_month(y, 2) - 1);
    assert(day_of_march_year(march_month(3), 1) == 0);
}

/// Day numbers count days: the day after a real date is a real date whose day
/// number is one more.
pub proof fn law_next_day(y: int, m: int, d: int)
    requires
        is_valid_date(y, m, d),
    ensures
        is_valid_date(next_day(y, m, d).0, next_day(y, m, d).1, next_day(y, m, d).2),
        day_number(next_day(y, m, d).0, next_day(y, m, d).1, next_day(y, m, d).2) == day_number(
            y,
            m,
            d,
        ) + 1,
{
    if d < days_in_month(y, m) {
    } else if m == 2 {
        lemma_march_first(y);
    } else if m == 12 {
        assert(day_number(y + 1, 1, 1) == day_number(y, 12, 31) + 1);
    } else {
        lemma_month_boundary(m);
        assert(march_year(y, m) == march_year(y, m + 1));
    }
}

/// Later March-based years start later.
proof fn lemma_days_before_march_monotone(a: int, b: int)
    requires
        a <= b,
    ensures
        days_before_march(a) + 365 * (b - a) <= days_before_march(b),
{
    vstd::arithmetic::div_mod::lemma_fundamental_div_mod(a, 4);
    vstd::arithmetic::div_mod::lemma_fundamental_div_mod(b, 4);
    vstd::arithmetic::div_mod::lemma_fundamental_div_mod(a, 100);
    vstd::arithmetic::div_mod::lemma_fundamental_div_mod(b, 100);
    vstd::arithmetic::div_mod::lemma_fundamental_div_mod(a, 400);
    vstd::arithmetic::div_mod::lemma_fundamental_div_mod(b, 400);
    vstd::arithmetic::div_mod::lemma_div_is_ordered(a, b, 400);
    let da = b - a;
    let q4 = b / 4 - a / 4;
    let q100 = b / 100 - a / 100;
    assert(q4 * 4 > da - 4);
    assert(q100 * 100 < da + 100);
    assert(q4 >= q100) by {
        assert(25 * (b / 100) <= b / 4) by {
            lemma_quotient(b, 4, b / 4);
        }
    }
}

/// A real date of a year lies between the first and the last day of that year.
proof fn lemma_day_number_within_year(y: int, m: int, d: int)
    requires
        is_valid_date(y, m, d),
    ensures
        day_number(y, 1, 1) <= day_number(y, m, d) <= day_number(y, 12, 31),
{
    lemma_days_before_march_monotone(y - 1, y);
}

/// Real dates of earlier years have smaller day numbers.
pub proof fn lemma_day_number_by_year(y1: int, m1: int, d1: int, y2: int, m2: int, d2: int)
    requires
        is_valid_date(y1, m1, d1),
        is_valid_date(y2, m2, d2),
        y1 < y2,
    ensures
        day_number(y1, m1, d1) < day_number(y2, m2, d2),
{
    lemma_day_number_within_year(y1, m1, d1);
    lemma_day_number_within_year(y2, m2, d2);
    lemma_days_before_march_monotone(y1, y2 - 1);
}

/// The date on day `n` has a year within `lo..=hi` exactly when `n` lies between
/// the day numbers of `lo`-01-01 and `hi`-12-31.
pub proof fn lemma_year_range(n: int, lo: int, hi: int)
    requires
        lo <= hi,
    ensures
        (lo <= civil_from_day_number(n).0 <= hi) <==> (day_number(lo, 1, 1) <= n <= day_number(
            hi,
            12,
            31,
        )),
{
    lemma_civil_from_day_number(n);
    let (y, m, d) = civil_from_day_number(n);
    lemma_day_number_within_year(y, m, d);
    if y > hi {
        lemma_day_number_by_year(hi, 12, 31, y, m, d);
    } else if y < hi {
        lemma_day_number_by_year(y, 12, 31, hi, 12, 31);
    }
    if y < lo {
        lemma_day_number_by_year(y, m, d, lo, 1, 1);
    } else if y > lo {
        lemma_day_number_by_year(lo, 1, 1, y, 1, 1);
    }
}

/// Day numbers count from the Unix epoch: 1970-01-01 is day 0, and PostgreSQL's
/// epoch 2000-01-01 is day 10957.
pub proof fn law_epochs()
    ensures
        day_number(1970, 1, 1) == 0,
        day_number(2000, 1, 1) == 10_957,
{
}

} // verus!
