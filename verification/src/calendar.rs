use vstd::prelude::*;

verus! {

/// Largest magnitude of a day count handled by the calendar functions: enough for
/// every day that an `i64` count of seconds can name.
pub open spec fn day_bound() -> int {
    0x8000_0000_0000
}

/// Largest magnitude of a year handled by the calendar functions.
pub open spec fn year_bound() -> int {
    0x100_0000_0000
}

/// Days since 1970-01-01 of the proleptic Gregorian date `year`-`month`-`day`.
pub open spec fn spec_days_from_civil(year: int, month: int, day: int) -> int {
    let y = if month <= 2 { year - 1 } else { year };
    let era = y / 400;
    let yoe = y - era * 400;
    let mp = if month > 2 { month - 3 } else { month + 9 };
    let doy = (153 * mp + 2) / 5 + day - 1;
    let doe = yoe * 365 + yoe / 4 - yoe / 100 + doy;
    era * 146097 + doe - 719468
}

/// The proleptic Gregorian (year, month, day) of the day `days` since 1970-01-01.
pub open spec fn spec_civil_from_days(days: int) -> (int, int, int) {
    let z = days + 719468;
    let era = z / 146097;
    let doe = z - era * 146097;
    let yoe = (doe - doe / 1460 + doe / 36524 - doe / 146096) / 365;
    let doy = doe - (365 * yoe + yoe / 4 - yoe / 100);
    let mp = (5 * doy + 2) / 153;
    let day = doy - (153 * mp + 2) / 5 + 1;
    let month = if mp < 10 { mp + 3 } else { mp - 9 };
    let year = yoe + era * 400 + if month <= 2 { 1int } else { 0int };
    (year, month, day)
}

/// Day of the week of the day `days` since 1970-01-01, 0 meaning Sunday.
pub open spec fn spec_weekday(days: int) -> int {
    (days + 4) % 7
}

pub open spec fn spec_is_leap_year(year: int) -> bool {
    (year % 4 == 0 && year % 100 != 0) || year % 400 == 0
}

pub open spec fn spec_days_in_month(year: int, month: int) -> int {
    if month == 2 {
        if spec_is_leap_year(year) { 29 } else { 28 }
    } else if month == 4 || month == 6 || month == 9 || month == 11 {
        30
    } else {
        31
    }
}

/// Floor of `a / b` for a positive constant `b`, computed without dividing a negative number.
fn floor_div(a: i64, b: i64) -> (q: i64)
    requires
        0 < b <= 1_000_000,
        -0x4000_0000_0000_0000 <= a <= 0x4000_0000_0000_0000,
    ensures
        q == a / b,
{
    if a >= 0 {
        a / b
    } else {
        let n: i64 = -a + (b - 1);
        let q: i64 = -(n / b);
        proof {
            let m = n / b;
            let r = n % b;
            assert(n == m * b + r && 0 <= r < b) by (nonlinear_arith)
                requires b > 0, m == n / b, r == n % b;
            // a == -n + b - 1 == -(m*b + r) + b - 1, so a == (-m) * b + (b - 1 - r)
            assert(a == (-m) * b + (b - 1 - r)) by (nonlinear_arith)
                requires a == -n + (b - 1), n == m * b + r;
            vstd::arithmetic::div_mod::lemma_fundamental_div_mod_converse(a as int, b as int, -m, b - 1 - r);
        }
        q
    }
}

pub fn days_from_civil(year: i64, month: u32, day: u32) -> (d: i64)
    requires
        -year_bound() <= year <= year_bound(),
        1 <= month <= 12,
        1 <= day <= 31,
    ensures
        d == spec_days_from_civil(year as int, month as int, day as int),
        -0x4_0000_0000_0000 <= d <= 0x4_0000_0000_0000,
{
    let y: i64 = if month <= 2 { year - 1 } else { year };
    let era = floor_div(y, 400);
    let yoe: i64 = y - era * 400;
    assert(0 <= yoe < 400) by {
        vstd::arithmetic::div_mod::lemma_fundamental_div_mod(y as int, 400);
    }
    let m = month as i64;
    let mp: i64 = if month > 2 { m - 3 } else { m + 9 };
    let doy: i64 = (153 * mp + 2) / 5 + day as i64 - 1;
    let doe: i64 = yoe * 365 + yoe / 4 - yoe / 100 + doy;
    assert(-0x1_0000_0000 <= era <= 0x1_0000_0000) by {
        vstd::arithmetic::div_mod::lemma_fundamental_div_mod(y as int, 400);
    }
    era * 146097 + doe - 719468
}

pub fn civil_from_days(days: i64) -> (ymd: (i64, i64, i64))
    requires
        -day_bound() <= days <= day_bound(),
    ensures
        ymd.0 == spec_civil_from_days(days as int).0,
        ymd.1 == spec_civil_from_days(days as int).1,
        ymd.2 == spec_civil_from_days(days as int).2,
        -year_bound() <= ymd.0 <= year_bound(),
{
    let z: i64 = days + 719468;
    let era = floor_div(z, 146097);
    let doe: i64 = z - era * 146097;
    assert(0 <= doe < 146097 && -0x4000_0000 <= era <= 0x4000_0000) by {
        vstd::arithmetic::div_mod::lemma_fundamental_div_mod(z as int, 146097);
    }
    let yoe: i64 = (doe - doe / 1460 + doe / 36524 - doe / 146096) / 365;
    assert(0 <= yoe <= 401);
    let doy: i64 = doe - (365 * yoe + yoe / 4 - yoe / 100);
    let mp: i64 = (5 * doy + 2) / 153;
    let day: i64 = doy - (153 * mp + 2) / 5 + 1;
    let month: i64 = if mp < 10 { mp + 3 } else { mp - 9 };
    let year: i64 = yoe + era * 400 + if month <= 2 { 1i64 } else { 0i64 };
    (year, month, day)
}

pub fn weekday_from_days(days: i64) -> (w: u32)
    requires
        -0x4_0000_0000_0000 <= days <= 0x4_0000_0000_0000,
    ensures
        w == spec_weekday(days as int),
        w <= 6,
{
    let shifted: i64 = days + 4;
    let r: i64 = if shifted >= 0 {
        shifted % 7
    } else {
        let q = floor_div(shifted, 7);
        shifted - q * 7
    };
    proof {
        vstd::arithmetic::div_mod::lemma_fundamental_div_mod(shifted as int, 7);
    }
    r as u32
}

/// Whether `b` divides `a`.
fn divides(a: i64, b: i64) -> (r: bool)
    requires
        0 < b <= 1_000_000,
        -year_bound() <= a <= year_bound(),
    ensures
        r == (a % b == 0),
{
    let q = floor_div(a, b);
    proof {
        vstd::arithmetic::div_mod::lemma_fundamental_div_mod(a as int, b as int);
        assert(q * b == b * q) by (nonlinear_arith);
    }
    a - q * b == 0
}

pub fn is_leap_year(year: i64) -> (b: bool)
    requires
        -year_bound() <= year <= year_bound(),
    ensures
        b == spec_is_leap_year(year as int),
{
    (divides(year, 4) && !divides(year, 100)) || divides(year, 400)
}

pub fn days_in_month(year: i64, month: u32) -> (n: u32)
    requires
        1 <= month <= 12,
        -year_bound() <= year <= year_bound(),
    ensures
        n == spec_days_in_month(year as int, month as int),
        28 <= n <= 31,
{
    if month == 2 {
        if is_leap_year(year) { 29 } else { 28 }
    } else if month == 4 || month == 6 || month == 9 || month == 11 {
        30
    } else {
        31
    }
}

/// Floor of `a / b` for any `a` and a positive `b`.
pub fn floor_div_i64(a: i64, b: i64) -> (q: i64)
    requires
        2 <= b <= 1_000_000,
    ensures
        q == a / b,
        q * b <= a < q * b + b,
        b >= 86400 ==> -day_bound() <= q <= day_bound(),
{
    proof {
        vstd::arithmetic::div_mod::lemma_fundamental_div_mod(a as int, b as int);
        let qq = a as int / b as int;
        let rr = a as int % b as int;
        assert(-0x8000_0000_0000_0000 <= qq <= 0x8000_0000_0000_0000) by (nonlinear_arith)
            requires a == b * qq + rr, 0 <= rr < b, b >= 2, -0x8000_0000_0000_0000 <= a < 0x8000_0000_0000_0000;
        assert(qq * b == b * qq) by (nonlinear_arith);
        assert(b >= 86400 ==> -day_bound() <= qq <= day_bound()) by (nonlinear_arith)
            requires a == b * qq + rr, 0 <= rr < b, -0x8000_0000_0000_0000 <= a < 0x8000_0000_0000_0000;
    }
    match a.checked_div_euclid(b) {
        Some(q) => q,
        None => 0,
    }
}

} // verus!
