//! The proleptic Gregorian calendar: a mathematical model of dates and the
//! executable conversions between civil dates and days since 1970-01-01.

use vstd::prelude::*;

verus! {

/// Whether `year` is a leap year in the proleptic Gregorian calendar.
pub open spec fn is_leap(year: int) -> bool {
    (year % 4 == 0 && year % 100 != 0) || year % 400 == 0
}

/// Number of days of `month` (1..=12) in `year`; 0 for any other month.
pub open spec fn month_len(year: int, month: int) -> int {
    if month == 1 || month == 3 || month == 5 || month == 7 || month == 8 || month == 10
        || month == 12 {
        31
    } else if month == 4 || month == 6 || month == 9 || month == 11 {
        30
    } else if month == 2 {
        if is_leap(year) {
            29
        } else {
            28
        }
    } else {
        0
    }
}

/// Number of days of `year`.
pub open spec fn year_len(year: int) -> int {
    if is_leap(year) {
        366
    } else {
        365
    }
}

/// `(year, month, day)` names an existing calendar day.
pub open spec fn valid_date(year: int, month: int, day: int) -> bool {
    1 <= month <= 12 && 1 <= day <= month_len(year, month)
}

/// Days of `year` that lie before the first day of `month`.
pub open spec fn days_before_month(year: int, month: int) -> int
    decreases month,
{
    if month <= 1 {
        0
    } else {
        days_before_month(year, month - 1) + month_len(year, month - 1)
    }
}

/// Days from 1970-01-01 to the first day of `year` (negative before 1970).
pub open spec fn days_before_year(year: int) -> int
    decreases (if year > 1970 { year - 1970 } else { 1970 - year }),
{
    if year > 1970 {
        days_before_year(year - 1) + year_len(year - 1)
    } else if year < 1970 {
        days_before_year(year + 1) - year_len(year)
    } else {
        0
    }
}

/// Days from 1970-01-01 to the given calendar day.
pub open spec fn epoch_days(year: int, month: int, day: int) -> int {
    days_before_year(year) + days_before_month(year, month) + day - 1
}

/// Leap years among the years `1..=n` (counted negatively below 1).
pub open spec fn leaps_through(n: int) -> int {
    n / 4 - n / 100 + n / 400
}

/// Each year adds one to `leaps_through` exactly when it is a leap year.
pub proof fn lemma_leaps_step(n: int)
    ensures
        leaps_through(n) - leaps_through(n - 1) == (if is_leap(n) { 1int } else { 0int }),
{
    assert((n / 4 - (n - 1) / 4) == (if n % 4 == 0 { 1int } else { 0int })) by (nonlinear_arith);
    assert((n / 100 - (n - 1) / 100) == (if n % 100 == 0 { 1int } else { 0int })) by (nonlinear_arith);
    assert((n / 400 - (n - 1) / 400) == (if n % 400 == 0 { 1int } else { 0int })) by (nonlinear_arith);
    assert(n % 100 == 0 ==> n % 4 == 0) by (nonlinear_arith);
    assert(n % 400 == 0 ==> n % 100 == 0) by (nonlinear_arith);
}

/// Closed form of `days_before_year`.
pub proof fn lemma_days_before_year(year: int)
    ensures
        days_before_year(year) == 365 * (year - 1970) + leaps_through(year - 1) - 477,
    decreases (if year > 1970 { year - 1970 } else { 1970 - year }),
{
    if year > 1970 {
        lemma_days_before_year(year - 1);
        lemma_leaps_step(year - 1);
    } else if year < 1970 {
        lemma_days_before_year(year + 1);
        lemma_leaps_step(year);
    } else {
        assert(leaps_through(1969) == 477);
    }
}


/// Days from 1970-01-01 to day `day` of month `month_prime` (0 = March,
/// 11 = February) of the year that starts on 1 March of `year_prime`.
pub open spec fn march_days(year_prime: int, month_prime: int, day: int) -> int {
    365 * year_prime + leaps_through(year_prime) + (153 * month_prime + 2) / 5 + day - 1 - 719468
}

/// The year that starts in March and holds the given civil month.
pub open spec fn march_year(year: int, month: int) -> int {
    if month <= 2 {
        year - 1
    } else {
        year
    }
}

/// The month counted from March (0) to February (11).
pub open spec fn march_month(month: int) -> int {
    if month > 2 {
        month - 3
    } else {
        month + 9
    }
}

/// Counting from 1 March reaches the same day number as counting by years and months.
pub proof fn lemma_epoch_days_march(year: int, month: int, day: int)
    requires
        1 <= month <= 12,
    ensures
        epoch_days(year, month, day) == march_days(march_year(year, month), march_month(month), day),
{
    lemma_days_before_year(year);
    lemma_leaps_step(year);
    reveal_with_fuel(days_before_month, 13);
}

/// Whole 400-year eras hold exactly 97 leap years each.
pub proof fn lemma_leaps_era(era: int, year_of_era: int)
    requires
        0 <= year_of_era < 400,
    ensures
        leaps_through(400 * era + year_of_era) == 97 * era + leaps_through(year_of_era),
{
    let x = 400 * era + year_of_era;
    vstd::arithmetic::div_mod::lemma_fundamental_div_mod_converse(
        x, 4, 100 * era + year_of_era / 4, year_of_era % 4);
    vstd::arithmetic::div_mod::lemma_fundamental_div_mod_converse(
        x, 100, 4 * era + year_of_era / 100, year_of_era % 100);
    vstd::arithmetic::div_mod::lemma_fundamental_div_mod_converse(
        x, 400, era, year_of_era);
}

/// Floor division of a negative number computed from non-negative operands.
pub proof fn lemma_floor_div_negative(y: int, d: int)
    requires
        y < 0,
        d > 0,
    ensures
        y / d == -((d - 1 - y) / d),
{
    let q = (d - 1 - y) / d;
    let rem = (d - 1 - y) % d;
    vstd::arithmetic::div_mod::lemma_fundamental_div_mod(d - 1 - y, d);
    assert(d - 1 - y == d * q + rem);
    assert(y == (-q) * d + (d - 1 - rem)) by (nonlinear_arith)
        requires
            d - 1 - y == d * q + rem,
    ;
    vstd::arithmetic::div_mod::lemma_fundamental_div_mod_converse(y, d, -q, d - 1 - rem);
}

/// Days from 1970-01-01 to a valid calendar day.
pub fn days_from_civil(year: i32, month: u8, day: u8) -> (days: i64)
    requires
        valid_date(year as int, month as int, day as int),
    ensures
        days == epoch_days(year as int, month as int, day as int),
{
    let y: i64 = if month <= 2 {
        year as i64 - 1
    } else {
        year as i64
    };
    let era: i64 = if y >= 0 {
        y / 400
    } else {
        -((399 - y) / 400)
    };
    proof {
        if y < 0 {
            lemma_floor_div_negative(y as int, 400);
        }
    }
    let year_of_era: i64 = y - era * 400;
    assert(0 <= year_of_era < 400);
    let month_prime: i64 = if month > 2 {
        month as i64 - 3
    } else {
        month as i64 + 9
    };
    let day_of_year: i64 = (153 * month_prime + 2) / 5 + day as i64 - 1;
    let day_of_era: i64 = year_of_era * 365 + year_of_era / 4 - year_of_era / 100 + day_of_year;
    proof {
        lemma_epoch_days_march(year as int, month as int, day as int);
        lemma_leaps_era(era as int, year_of_era as int);
    }
    era * 146_097 + day_of_era - 719_468
}


/// Days from the start of a 400-year era to 1 March of its year `year_of_era`.
pub open spec fn era_year_start(year_of_era: int) -> int {
    365 * year_of_era + leaps_through(year_of_era)
}

/// The year-of-era estimate picks the March-based year that holds `day_of_era`.
proof fn lemma_year_of_era(
    doe: u64,
    a: u64,
    b: u64,
    c: u64,
    t: u64,
    yoe: u64,
    start: u64,
    n: u64,
    next: u64,
)
    by (bit_vector)
    requires
        doe <= 146096,
        a == doe / 1460,
        b == doe / 36524,
        c == doe / 146096,
        t == doe - a + b - c,
        yoe == t / 365,
        start == 365 * yoe + yoe / 4 - yoe / 100,
        n == yoe + 1,
        next == 365 * n + n / 4 - n / 100 + n / 400,
    ensures
        yoe <= 399,
        start <= doe,
        doe < next,
{
}


/// The month estimate picks the March-based month that holds `doy`.
proof fn lemma_month_of_year(doy: u64, x: u64, mp: u64, y: u64, lo: u64, z: u64, hi: u64)
    by (bit_vector)
    requires
        doy <= 365,
        x == 5 * doy + 2,
        mp == x / 153,
        y == 153 * mp + 2,
        lo == y / 5,
        z == 153 * mp + 155,
        hi == z / 5,
    ensures
        mp <= 11,
        lo <= doy,
        doy < hi,
{
}

/// Leap years repeat every 400 years.
pub proof fn lemma_leap_era_shift(era: int, year: int)
    ensures
        is_leap(400 * era + year) == is_leap(year),
{
    vstd::arithmetic::div_mod::lemma_fundamental_div_mod(year, 4);
    vstd::arithmetic::div_mod::lemma_fundamental_div_mod(year, 100);
    vstd::arithmetic::div_mod::lemma_fundamental_div_mod(year, 400);
    vstd::arithmetic::div_mod::lemma_fundamental_div_mod_converse(
        400 * era + year, 4, 100 * era + year / 4, year % 4);
    vstd::arithmetic::div_mod::lemma_fundamental_div_mod_converse(
        400 * era + year, 100, 4 * era + year / 100, year % 100);
    vstd::arithmetic::div_mod::lemma_fundamental_div_mod_converse(
        400 * era + year, 400, era + year / 400, year % 400);
}

/// Whether `year` is a leap year.
pub fn is_leap_year(year: i32) -> (leap: bool)
    ensures
        leap == is_leap(year as int),
{
    (year % 4 == 0 && year % 100 != 0) || year % 400 == 0
}

/// Number of days of `month` in `year`; 0 when `month` is not in `1..=12`.
pub fn days_in_month(year: i32, month: u8) -> (days: u8)
    ensures
        days == month_len(year as int, month as int),
{
    match month {
        1 | 3 | 5 | 7 | 8 | 10 | 12 => 31,
        4 | 6 | 9 | 11 => 30,
        2 => if is_leap_year(year) {
            29
        } else {
            28
        },
        _ => 0,
    }
}

/// Smallest day number that `civil_from_days` accepts: the day that holds the
/// earliest millisecond of `i64`.
pub const MIN_EPOCH_DAYS: i64 = -106_751_991_168;

/// Largest day number that `civil_from_days` accepts: the day that holds the
/// latest millisecond of `i64`.
pub const MAX_EPOCH_DAYS: i64 = 106_751_991_167;

/// A day number within a March-based year names a valid civil date.
proof fn lemma_march_date_valid(
    year_prime: int,
    month_prime: int,
    day_of_year: int,
    day: int,
    month: int,
    year: int,
)
    requires
        0 <= month_prime <= 11,
        (153 * month_prime + 2) / 5 <= day_of_year < (153 * month_prime + 155) / 5,
        day_of_year < 365 + (if is_leap(year_prime + 1) { 1int } else { 0int }),
        day == day_of_year - (153 * month_prime + 2) / 5 + 1,
        month == (if month_prime < 10 { month_prime + 3 } else { month_prime - 9 }),
        year == (if month <= 2 { year_prime + 1 } else { year_prime }),
    ensures
        valid_date(year, month, day),
        march_year(year, month) == year_prime,
        march_month(month) == month_prime,
{
    if month_prime == 0 {
    } else if month_prime == 1 {
    } else if month_prime == 2 {
    } else if month_prime == 3 {
    } else if month_prime == 4 {
    } else if month_prime == 5 {
    } else if month_prime == 6 {
    } else if month_prime == 7 {
    } else if month_prime == 8 {
    } else if month_prime == 9 {
    } else if month_prime == 10 {
    } else {
    }
}

/// Counting whole eras, whole years of the era and days of the year.
proof fn lemma_march_days_era(era: int, year_of_era: int, month_prime: int, day: int)
    requires
        0 <= year_of_era < 400,
    ensures
        march_days(400 * era + year_of_era, month_prime, day) == 146097 * era + (365 * year_of_era
            + year_of_era / 4 - year_of_era / 100) + (153 * month_prime + 2) / 5 + day - 1 - 719468,
{
    lemma_leaps_era(era, year_of_era);
}

/// The length of the March-based year `400 * era + year_of_era`.
proof fn lemma_march_year_len(era: int, year_of_era: int)
    requires
        0 <= year_of_era < 400,
    ensures
        (365 * (year_of_era + 1) + (year_of_era + 1) / 4 - (year_of_era + 1) / 100 + (year_of_era
            + 1) / 400) - (365 * year_of_era + year_of_era / 4 - year_of_era / 100) == 365 + (
        if is_leap(400 * era + year_of_era + 1) {
            1int
        } else {
            0int
        }),
{
    lemma_leaps_step(year_of_era + 1);
    lemma_leap_era_shift(era, year_of_era + 1);
}

/// The calendar day that lies `days` days after 1970-01-01.
#[verifier::rlimit(40)]
pub fn civil_from_days(days: i64) -> (date: (i32, u8, u8))
    requires
        MIN_EPOCH_DAYS <= days <= MAX_EPOCH_DAYS,
    ensures
        valid_date(date.0 as int, date.1 as int, date.2 as int),
        epoch_days(date.0 as int, date.1 as int, date.2 as int) == days,
{
    let shifted: i64 = days + 719_468;
    let era: i64 = if shifted >= 0 {
        shifted / 146_097
    } else {
        -((146_096 - shifted) / 146_097)
    };
    proof {
        if shifted < 0 {
            lemma_floor_div_negative(shifted as int, 146_097);
        }
        vstd::arithmetic::div_mod::lemma_fundamental_div_mod(shifted as int, 146_097);
    }
    assert(-800_000 <= era <= 800_000);
    let day_of_era: i64 = shifted - era * 146_097;
    assert(0 <= day_of_era <= 146_096);
    let year_of_era: i64 = (day_of_era - day_of_era / 1_460 + day_of_era / 36_524 - day_of_era
        / 146_096) / 365;
    proof {
        let doe = day_of_era as u64;
        let yoe = year_of_era as u64;
        lemma_year_of_era(
            doe,
            doe / 1460,
            doe / 36524,
            doe / 146096,
            (doe - doe / 1460 + doe / 36524 - doe / 146096) as u64,
            yoe,
            (365 * yoe + yoe / 4 - yoe / 100) as u64,
            (yoe + 1) as u64,
            (365 * (yoe + 1) + (yoe + 1) / 4 - (yoe + 1) / 100 + (yoe + 1) / 400) as u64,
        );
        lemma_march_year_len(era as int, year_of_era as int);
    }
    let day_of_year: i64 = day_of_era - (365 * year_of_era + year_of_era / 4 - year_of_era / 100);
    let month_prime: i64 = (5 * day_of_year + 2) / 153;
    proof {
        let doy = day_of_year as u64;
        let mp = month_prime as u64;
        lemma_month_of_year(
            doy,
            (5 * doy + 2) as u64,
            mp,
            (153 * mp + 2) as u64,
            ((153 * mp + 2) / 5) as u64,
            (153 * mp + 155) as u64,
            ((153 * mp + 155) / 5) as u64,
        );
    }
    let day: i64 = day_of_year - (153 * month_prime + 2) / 5 + 1;
    let month: i64 = if month_prime < 10 {
        month_prime + 3
    } else {
        month_prime - 9
    };
    let year_prime: i64 = year_of_era + era * 400;
    let year: i64 = if month <= 2 {
        year_prime + 1
    } else {
        year_prime
    };
    proof {
        lemma_march_date_valid(
            year_prime as int,
            month_prime as int,
            day_of_year as int,
            day as int,
            month as int,
            year as int,
        );
        lemma_march_days_era(era as int, year_of_era as int, month_prime as int, day as int);
        lemma_epoch_days_march(year as int, month as int, day as int);
    }
    (year as i32, month as u8, day as u8)
}


/// Day offset of a valid date within its March-based year.
pub open spec fn march_offset(month: int, day: int) -> int {
    (153 * march_month(month) + 2) / 5 + day - 1
}

/// A valid date lies inside its March-based month and year.
proof fn lemma_march_offset_bounds(year: int, month: int, day: int)
    requires
        valid_date(year, month, day),
    ensures
        0 <= march_month(month) <= 11,
        (153 * march_month(month) + 2) / 5 <= march_offset(month, day) < (153 * march_month(month)
            + 155) / 5,
        march_offset(month, day) < 365 + (if is_leap(march_year(year, month) + 1) {
            1int
        } else {
            0int
        }),
{
}

/// The month estimate is the only March-based month holding `doy`.
proof fn lemma_month_unique(
    doy: u64,
    mp: u64,
    y: u64,
    lo: u64,
    z: u64,
    hi: u64,
    x: u64,
    q: u64,
)
    by (bit_vector)
    requires
        doy <= 365,
        mp <= 11,
        y == 153 * mp + 2,
        lo == y / 5,
        z == 153 * mp + 155,
        hi == z / 5,
        lo <= doy < hi,
        x == 5 * doy + 2,
        q == x / 153,
    ensures
        q == mp,
{
}

/// Starts of March-based years grow by at least 365 days per year.
proof fn lemma_year_start_grows(a: int, b: int)
    requires
        a <= b,
    ensures
        365 * b + leaps_through(b) - (365 * a + leaps_through(a)) >= 365 * (b - a),
    decreases b - a,
{
    if a < b {
        lemma_year_start_grows(a, b - 1);
        lemma_leaps_step(b);
    }
}

/// Converting a date to its day number and back (as `civil_from_days`
/// does) gives the same date: distinct valid dates have distinct day numbers.
pub proof fn law_epoch_days_injective(y1: int, m1: int, d1: int, y2: int, m2: int, d2: int)
    requires
        valid_date(y1, m1, d1),
        valid_date(y2, m2, d2),
        epoch_days(y1, m1, d1) == epoch_days(y2, m2, d2),
    ensures
        y1 == y2,
        m1 == m2,
        d1 == d2,
{
    lemma_epoch_days_march(y1, m1, d1);
    lemma_epoch_days_march(y2, m2, d2);
    lemma_march_offset_bounds(y1, m1, d1);
    lemma_march_offset_bounds(y2, m2, d2);
    let p1 = march_year(y1, m1);
    let p2 = march_year(y2, m2);
    let o1 = march_offset(m1, d1);
    let o2 = march_offset(m2, d2);
    if p1 < p2 {
        lemma_year_start_grows(p1 + 1, p2);
        lemma_leaps_step(p1 + 1);
        assert(false);
    } else if p2 < p1 {
        lemma_year_start_grows(p2 + 1, p1);
        lemma_leaps_step(p2 + 1);
        assert(false);
    }
    assert(o1 == o2);
    let mp1 = march_month(m1) as u64;
    let mp2 = march_month(m2) as u64;
    let doy = o1 as u64;
    lemma_month_unique(
        doy,
        mp1,
        (153 * mp1 + 2) as u64,
        ((153 * mp1 + 2) / 5) as u64,
        (153 * mp1 + 155) as u64,
        ((153 * mp1 + 155) / 5) as u64,
        (5 * doy + 2) as u64,
        ((5 * doy + 2) / 153) as u64,
    );
    lemma_month_unique(
        doy,
        mp2,
        (153 * mp2 + 2) as u64,
        ((153 * mp2 + 2) / 5) as u64,
        (153 * mp2 + 155) as u64,
        ((153 * mp2 + 155) / 5) as u64,
        (5 * doy + 2) as u64,
        ((5 * doy + 2) / 153) as u64,
    );
}


/// Day numbers of dates in `i32` years stay below `2^40` in magnitude.
pub proof fn lemma_epoch_days_bounds(year: int, month: int, day: int)
    requires
        i32::MIN <= year <= i32::MAX,
        valid_date(year, month, day),
    ensures
        -0x100_0000_0000 < epoch_days(year, month, day) < 0x100_0000_0000,
{
    lemma_epoch_days_march(year, month, day);
    let p = march_year(year, month);
    vstd::arithmetic::div_mod::lemma_fundamental_div_mod(p, 4);
    vstd::arithmetic::div_mod::lemma_fundamental_div_mod(p, 100);
    vstd::arithmetic::div_mod::lemma_fundamental_div_mod(p, 400);
}

/// Dates within 200 million years of year 0 lie within 73.1 billion days of
/// the Unix epoch.
pub proof fn lemma_epoch_days_bounds_200m(year: int, month: int, day: int)
    requires
        -200_000_000 <= year <= 200_000_000,
        valid_date(year, month, day),
    ensures
        -73_100_000_000 < epoch_days(year, month, day) < 73_100_000_000,
{
    lemma_epoch_days_march(year, month, day);
    let p = march_year(year, month);
    vstd::arithmetic::div_mod::lemma_fundamental_div_mod(p, 4);
    vstd::arithmetic::div_mod::lemma_fundamental_div_mod(p, 100);
    vstd::arithmetic::div_mod::lemma_fundamental_div_mod(p, 400);
}

} // verus!
