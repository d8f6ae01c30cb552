//! Proleptic Gregorian calendar arithmetic on day counts since the Unix epoch.

use vstd::prelude::*;

verus! {

/// `y` is a leap year of the Gregorian calendar.
pub open spec fn is_leap_year(y: int) -> bool {
    y % 4 == 0 && (y % 100 != 0 || y % 400 == 0)
}

/// Number of days in month `m` (1 = January) of year `y`.
pub open spec fn days_in_month(y: int, m: int) -> int {
    if m == 2 {
        if is_leap_year(y) { 29 } else { 28 }
    } else if m == 4 || m == 6 || m == 9 || m == 11 {
        30
    } else {
        31
    }
}

/// Days from the first of January to the first of month `m` of year `y`.
pub open spec fn days_before_month(y: int, m: int) -> int
    decreases m,
{
    if m <= 1 {
        0
    } else {
        days_before_month(y, m - 1) + days_in_month(y, m - 1)
    }
}

/// Number of leap years among the years `1..=y` (counted by floor division,
/// which extends the count to years before 1).
pub open spec fn leap_years_through(y: int) -> int {
    y / 4 - y / 100 + y / 400
}

/// Days from 1970-01-01 to the first of January of year `y` (negative for
/// years before 1970).
pub open spec fn days_before_year(y: int) -> int {
    365 * (y - 1970) + leap_years_through(y - 1) - leap_years_through(1969)
}

/// Days from 1970-01-01 to the date `y-m-d`.
pub open spec fn days_from_civil(y: int, m: int, d: int) -> int {
    days_before_year(y) + days_before_month(y, m) + d - 1
}

/// `y-m-d` names a day of the calendar.
pub open spec fn is_valid_date(y: int, m: int, d: int) -> bool {
    1 <= m <= 12 && 1 <= d <= days_in_month(y, m)
}

/// The calendar date that lies `days` days after 1970-01-01.
pub open spec fn civil_from_days(days: int) -> (int, int, int) {
    choose|ymd: (int, int, int)|
        is_valid_date(ymd.0, ymd.1, ymd.2) && days_from_civil(ymd.0, ymd.1, ymd.2) == days
}

/// The value of a `u64` day count reinterpreted as a signed 64-bit number.
pub open spec fn signed_day_count(days: u64) -> int {
    if days <= 0x7fff_ffff_ffff_ffff {
        days as int
    } else {
        days as int - 0x1_0000_0000_0000_0000
    }
}

/// Cumulative days of the months of a year that starts on the first of March.
spec fn march_month_start(mp: int) -> int {
    (153 * mp + 2) / 5
}

/// Days of a 400-year era before year-of-era `k` (eras start on 1 March).
spec fn era_year_start(k: int) -> int {
    365 * k + k / 4 - k / 100 + k / 400
}

proof fn lemma_month_of_day(doy: u32)
    requires
        doy <= 365,
    ensures
        (5 * doy + 2) / 153 <= 11,
        (153 * ((5 * doy + 2) / 153) + 2) / 5 <= doy,
        doy < (153 * ((5 * doy + 2) / 153 + 1) + 2) / 5,
{
    assert((5 * doy + 2) / 153 <= 11 && (153 * ((5 * doy + 2) / 153) + 2) / 5 <= doy && doy < (
    153 * ((5 * doy + 2) / 153 + 1) + 2) / 5) by (bit_vector)
        requires
            doy <= 365u32,
    ;
}

proof fn lemma_year_of_era(doe: u32)
    requires
        doe <= 146096,
    ensures
        ({
            let yoe = (doe - doe / 1460 + doe / 36524 - doe / 146096) / 365;
            &&& yoe <= 399
            &&& 365 * yoe + yoe / 4 - yoe / 100 <= doe
            &&& doe < 365 * (yoe + 1) + (yoe + 1) / 4 - (yoe + 1) / 100 + (yoe + 1) / 400
        }),
{
    assert({
        let yoe = (doe - doe / 1460 + doe / 36524 - doe / 146096) / 365;
        &&& yoe <= 399
        &&& 365 * yoe + yoe / 4 - yoe / 100 <= doe
        &&& doe < 365 * (yoe + 1) + (yoe + 1) / 4 - (yoe + 1) / 100 + (yoe + 1) / 400
    }) by (bit_vector)
        requires
            doe <= 146096u32,
    ;
}


proof fn lemma_leap_step(y: int)
    ensures
        leap_years_through(y) - leap_years_through(y - 1) == if is_leap_year(y) { 1int } else { 0int },
{
}

proof fn lemma_month_table(y: int, m: int)
    requires
        1 <= m <= 12,
    ensures
        m >= 3 ==> days_before_month(y, m) == march_month_start(m - 3) + 59 + if is_leap_year(y) { 1int } else { 0int },
        m <= 2 ==> days_before_month(y, m) == march_month_start(m + 9) - 306,
{
    reveal_with_fuel(days_before_month, 13);
}

/// Days from 1970-01-01 expressed in years that start on the first of March.
proof fn lemma_days_from_civil_march(y: int, m: int, d: int)
    requires
        1 <= m <= 12,
    ensures
        ({
            let yp = if m <= 2 { y - 1 } else { y };
            let mp = if m > 2 { m - 3 } else { m + 9 };
            days_from_civil(y, m, d) == 365 * yp + leap_years_through(yp) + march_month_start(mp) + d - 1 - 719468
        }),
{
    lemma_month_table(y, m);
    lemma_leap_step(y);
}


/// Days from 0000-03-01 to the first of March of year `yp`.
spec fn march_year_start(yp: int) -> int {
    365 * yp + leap_years_through(yp)
}

proof fn lemma_march_year_monotone(a: int, b: int)
    requires
        a <= b,
    ensures
        march_year_start(b) - march_year_start(a) >= 365 * (b - a),
    decreases b - a,
{
    if a < b {
        lemma_march_year_monotone(a, b - 1);
        lemma_leap_step(b);
    }
}

/// A valid date, counted from the first of March of its March-based year,
/// falls inside that year, and its month is the one whose range holds it.
proof fn lemma_valid_date_offset(y: int, m: int, d: int)
    requires
        is_valid_date(y, m, d),
    ensures
        ({
            let yp = if m <= 2 { y - 1 } else { y };
            let mp = if m > 2 { m - 3 } else { m + 9 };
            let o = march_month_start(mp) + d - 1;
            &&& 0 <= mp <= 11
            &&& march_month_start(mp) <= o < march_month_start(mp + 1)
            &&& o < march_year_start(yp + 1) - march_year_start(yp)
        }),
{
    let yp = if m <= 2 { y - 1 } else { y };
    lemma_leap_step(yp + 1);
    assert(yp + 1 == y || m > 2);
}

/// Two valid dates with the same day count are the same date.
pub proof fn lemma_days_from_civil_injective(y1: int, m1: int, d1: int, y2: int, m2: int, d2: int)
    requires
        is_valid_date(y1, m1, d1),
        is_valid_date(y2, m2, d2),
        days_from_civil(y1, m1, d1) == days_from_civil(y2, m2, d2),
    ensures
        y1 == y2 && m1 == m2 && d1 == d2,
{
    lemma_days_from_civil_march(y1, m1, d1);
    lemma_days_from_civil_march(y2, m2, d2);
    lemma_valid_date_offset(y1, m1, d1);
    lemma_valid_date_offset(y2, m2, d2);
    let yp1 = if m1 <= 2 { y1 - 1 } else { y1 };
    let mp1 = if m1 > 2 { m1 - 3 } else { m1 + 9 };
    let yp2 = if m2 <= 2 { y2 - 1 } else { y2 };
    let mp2 = if m2 > 2 { m2 - 3 } else { m2 + 9 };
    let o1 = march_month_start(mp1) + d1 - 1;
    let o2 = march_month_start(mp2) + d2 - 1;
    assert(march_year_start(yp1) + o1 == march_year_start(yp2) + o2);
    if yp1 < yp2 {
        lemma_march_year_monotone(yp1 + 1, yp2);
    }
    if yp2 < yp1 {
        lemma_march_year_monotone(yp2 + 1, yp1);
    }
    assert(yp1 == yp2);
    assert(mp1 == mp2);
}


proof fn lemma_era_year(era: int, k: int)
    ensures
        leap_years_through(k + 400 * era) == 97 * era + leap_years_through(k),
        is_leap_year(k + 400 * era) == is_leap_year(k),
{
    assert((k + 400 * era) / 4 == 100 * era + k / 4);
    assert((k + 400 * era) / 100 == 4 * era + k / 100);
    assert((k + 400 * era) / 400 == era + k / 400);
    assert((k + 400 * era) % 4 == k % 4);
    assert((k + 400 * era) % 100 == k % 100);
    assert((k + 400 * era) % 400 == k % 400);
}

/// The date arithmetic inside one 400-year era: a day `doy` of the
/// March-based year `yp` maps to a valid date with the expected day count.
proof fn lemma_day_of_year(yp: int, doy: int)
    requires
        0 <= doy < march_year_start(yp + 1) - march_year_start(yp),
    ensures
        ({
            let mp = (5 * doy + 2) / 153;
            let d = doy - (153 * mp + 2) / 5 + 1;
            let m = if mp < 10 { mp + 3 } else { mp - 9 };
            let y = yp + if m <= 2 { 1int } else { 0int };
            &&& is_valid_date(y, m, d)
            &&& days_from_civil(y, m, d) == march_year_start(yp) + doy - 719468
        }),
{
    lemma_leap_step(yp + 1);
    lemma_month_of_day(doy as u32);
    let mp = (5 * doy + 2) / 153;
    let d = doy - (153 * mp + 2) / 5 + 1;
    let m = if mp < 10 { mp + 3 } else { mp - 9 };
    let y = yp + if m <= 2 { 1int } else { 0int };
    lemma_days_from_civil_march(y, m, d);
}

/// The civil date reached by the era decomposition `z = 146097 * era + doe`
/// (day counts from 0000-03-01) is valid and has day count `z - 719468`.
proof fn lemma_era_decomposition(z: int, era: int, doe: u32)
    requires
        z == 146097 * era + doe,
        doe <= 146096,
    ensures
        ({
            let yoe = (doe - doe / 1460 + doe / 36524 - doe / 146096) / 365;
            let doy = doe - (365 * yoe + yoe / 4 - yoe / 100);
            let mp = (5 * doy + 2) / 153;
            let d = doy - (153 * mp + 2) / 5 + 1;
            let m = if mp < 10 { mp + 3 } else { mp - 9 };
            let y = yoe + era * 400 + if m <= 2 { 1int } else { 0int };
            &&& 0 <= yoe <= 399
            &&& 0 <= doy <= 365
            &&& 0 <= mp <= 11
            &&& is_valid_date(y, m, d)
            &&& days_from_civil(y, m, d) == z - 719468
        }),
{
    lemma_year_of_era(doe);
    let yoe: int = (doe - doe / 1460 + doe / 36524 - doe / 146096) / 365;
    let doy: int = doe - (365 * yoe + yoe / 4 - yoe / 100);
    let yp = yoe + era * 400;
    lemma_era_year(era, yoe);
    lemma_era_year(era, yoe + 1);
    assert(yp + 1 == (yoe + 1) + 400 * era);
    lemma_leap_step(yoe + 1);
    lemma_leap_step(yp + 1);
    assert(march_year_start(yp) == 146097 * era + 365 * yoe + yoe / 4 - yoe / 100);
    assert(0 <= doy < march_year_start(yp + 1) - march_year_start(yp));
    lemma_month_of_day(doy as u32);
    lemma_day_of_year(yp, doy);
}

/// Converts a day count since 1970-01-01 to the calendar date
/// `(year, month, day)`; the year is reduced modulo 2^32.
pub fn days_to_ymd(days: u64) -> (ymd: (u32, u32, u32))
    requires
        signed_day_count(days) + 719_468 <= 0x7fff_ffff_ffff_ffff,
    ensures
        ymd.0 as int == civil_from_days(signed_day_count(days)).0 % 0x1_0000_0000,
        ymd.1 as int == civil_from_days(signed_day_count(days)).1,
        ymd.2 as int == civil_from_days(signed_day_count(days)).2,
{
    let signed: i64 = if days <= 0x7fff_ffff_ffff_ffff {
        days as i64
    } else {
        -((u64::MAX - days) as i64) - 1
    };
    let z: i64 = signed + 719_468;
    let era: i64 = if z >= 0 { z } else { z - 146_096 } / 146_097;
    let doe: u32 = (z - era * 146_097) as u32;
    let yoe: u32 = (doe - doe / 1_460 + doe / 36_524 - doe / 146_096) / 365;
    proof {
        lemma_year_of_era(doe);
    }
    let y: i64 = yoe as i64 + era * 400;
    let doy: u32 = doe - (365 * yoe + yoe / 4 - yoe / 100);
    proof {
        lemma_era_decomposition(z as int, era as int, doe);
    }
    let mp: u32 = (5 * doy + 2) / 153;
    let d: u32 = doy - (153 * mp + 2) / 5 + 1;
    let m: u32 = if mp < 10 { mp + 3 } else { mp - 9 };
    let y: i64 = if m <= 2 { y + 1 } else { y };
    proof {
        let ghost w = (y as int, m as int, d as int);
        assert(is_valid_date(w.0, w.1, w.2) && days_from_civil(w.0, w.1, w.2) == signed_day_count(days));
        let ghost civil = civil_from_days(signed_day_count(days));
        assert(is_valid_date(civil.0, civil.1, civil.2) && days_from_civil(civil.0, civil.1, civil.2) == signed_day_count(days));
        lemma_days_from_civil_injective(y as int, m as int, d as int, civil.0, civil.1, civil.2);
    }
    (year_mod_2_32(y), m, d)
}

/// Two's-complement truncation of a year to 32 bits.
fn year_mod_2_32(y: i64) -> (r: u32)
    ensures
        r as int == (y as int) % 0x1_0000_0000,
{
    #[verifier::truncate]
    let r = y as u32;
    assert(r as i64 == y % 0x1_0000_0000i64 || r as i64 == y % 0x1_0000_0000i64 + 0x1_0000_0000i64)
        by (bit_vector)
        requires
            r == y as u32,
    ;
    r
}


/// The closed form of `days_before_year` adds up year lengths: 366 days for
/// a leap year, 365 otherwise.
pub proof fn lemma_days_before_year_step(y: int)
    ensures
        days_before_year(y + 1) - days_before_year(y) == if is_leap_year(y) { 366int } else { 365int },
{
    lemma_leap_step(y);
}

/// Every valid date is the civil date of its own day count.
pub proof fn lemma_civil_round_trip(y: int, m: int, d: int)
    requires
        is_valid_date(y, m, d),
    ensures
        civil_from_days(days_from_civil(y, m, d)) == (y, m, d),
{
    let days = days_from_civil(y, m, d);
    let w = (y, m, d);
    assert(is_valid_date(w.0, w.1, w.2) && days_from_civil(w.0, w.1, w.2) == days);
    let c = civil_from_days(days);
    lemma_days_from_civil_injective(c.0, c.1, c.2, y, m, d);
}

} // verus!
