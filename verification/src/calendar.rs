//! Conversion of a count of days since 1970-01-01 into a proleptic Gregorian
//! calendar date, as used for UTC timestamps in log lines.
use vstd::prelude::*;

use crate::text::{
    fixed_digits, lemma_fixed_digits_len, lemma_fixed_digits_order, lemma_pad_is_fixed,
    lemma_text_lt_extend, lemma_text_lt_prefix, pad_signed, pad_unsigned, pow10, push_char,
    push_padded_signed, push_padded_unsigned, text_lt,
};

verus! {

/// Gregorian leap-year rule.
pub open spec fn is_leap_year(y: int) -> bool {
    (y % 4 == 0 && y % 100 != 0) || y % 400 == 0
}

/// Number of days of month `m` (1-based) in year `y`.
pub open spec fn days_in_month(y: int, m: int) -> int {
    if m == 2 {
        if is_leap_year(y) { 29 } else { 28 }
    } else if m == 4 || m == 6 || m == 9 || m == 11 {
        30
    } else {
        31
    }
}

/// A month in 1..=12 and a day that exists in that month.
pub open spec fn is_valid_date(y: int, m: int, d: int) -> bool {
    1 <= m <= 12 && 1 <= d <= days_in_month(y, m)
}

/// Number of leap years among the years 1..=y (for y >= 0); extended to
/// negative years with floor division, so that year 0 counts as a leap year.
pub open spec fn leap_years_through(y: int) -> int {
    y / 4 - y / 100 + y / 400
}

/// Days in year `y` before the first day of month `m`.
pub open spec fn days_before_month(y: int, m: int) -> int {
    let common: int = if m == 1 {
        0
    } else if m == 2 {
        31
    } else if m == 3 {
        59
    } else if m == 4 {
        90
    } else if m == 5 {
        120
    } else if m == 6 {
        151
    } else if m == 7 {
        181
    } else if m == 8 {
        212
    } else if m == 9 {
        243
    } else if m == 10 {
        273
    } else if m == 11 {
        304
    } else {
        334
    };
    common + if m > 2 && is_leap_year(y) { 1int } else { 0int }
}

/// The day number of the date y-m-d, counted from 1970-01-01 (day 0).
pub open spec fn days_from_civil(y: int, m: int, d: int) -> int {
    365 * (y - 1970) + (leap_years_through(y - 1) - leap_years_through(1969)) + days_before_month(
        y,
        m,
    ) + (d - 1)
}

/// The leap-year count grows by one exactly at leap years.
pub proof fn lemma_leap_years_step(y: int)
    ensures
        leap_years_through(y) - leap_years_through(y - 1) == if is_leap_year(y) {
            1int
        } else {
            0int
        },
{
    assert(y / 4 - (y - 1) / 4 == if y % 4 == 0 { 1int } else { 0int }) by (nonlinear_arith);
    assert(y / 100 - (y - 1) / 100 == if y % 100 == 0 { 1int } else { 0int }) by (nonlinear_arith);
    assert(y / 400 - (y - 1) / 400 == if y % 400 == 0 { 1int } else { 0int }) by (nonlinear_arith);
    assert(y % 400 == 0 ==> y % 100 == 0 && y % 4 == 0) by (nonlinear_arith);
    assert(y % 100 == 0 ==> y % 4 == 0) by (nonlinear_arith);
}

/// Day numbering is consecutive: the day after a valid date has the next day
/// number, and 1970-01-01 is day 0.
pub proof fn lemma_days_from_civil_successor(y: int, m: int, d: int)
    requires
        is_valid_date(y, m, d),
    ensures
        days_from_civil(1970, 1, 1) == 0,
        d < days_in_month(y, m) ==> days_from_civil(y, m, d + 1) == days_from_civil(y, m, d) + 1,
        d == days_in_month(y, m) && m < 12 ==> days_from_civil(y, m + 1, 1) == days_from_civil(
            y,
            m,
            d,
        ) + 1,
        d == days_in_month(y, m) && m == 12 ==> days_from_civil(y + 1, 1, 1) == days_from_civil(
            y,
            m,
            d,
        ) + 1,
{
    lemma_leap_years_step(y);
}

proof fn lemma_year_of_era(doe: u64)
    requires
        doe <= 146096,
    ensures
        ({
            let yoe = (doe - doe / 1460 + doe / 36524 - doe / 146096) / 365;
            let ys = 365 * yoe + yoe / 4 - yoe / 100;
            &&& yoe <= 399
            &&& ys <= doe
            &&& doe - ys <= 365
            &&& (doe - ys == 365 ==> ((yoe + 1) % 4 == 0 && ((yoe + 1) % 100 != 0 || yoe == 399)))
        }),
{
    assert({
        let yoe = (doe - doe / 1460 + doe / 36524 - doe / 146096) / 365;
        let ys = 365 * yoe + yoe / 4 - yoe / 100;
        &&& yoe <= 399
        &&& ys <= doe
        &&& doe - ys <= 365
        &&& (doe - ys == 365 ==> ((yoe + 1) % 4 == 0 && ((yoe + 1) % 100 != 0 || yoe == 399)))
    }) by (bit_vector)
        requires
            doe <= 146096,
    ;
}

proof fn lemma_month_of_year(doy: u64)
    requires
        doy <= 365,
    ensures
        ({
            let mp = (5 * doy + 2) / 153;
            let c = (153 * mp + 2) / 5;
            &&& mp <= 11
            &&& c <= doy
            &&& (mp == 0 ==> c == 0 && doy - c < 31)
            &&& (mp == 1 ==> c == 31 && doy - c < 30)
            &&& (mp == 2 ==> c == 61 && doy - c < 31)
            &&& (mp == 3 ==> c == 92 && doy - c < 30)
            &&& (mp == 4 ==> c == 122 && doy - c < 31)
            &&& (mp == 5 ==> c == 153 && doy - c < 31)
            &&& (mp == 6 ==> c == 184 && doy - c < 30)
            &&& (mp == 7 ==> c == 214 && doy - c < 31)
            &&& (mp == 8 ==> c == 245 && doy - c < 30)
            &&& (mp == 9 ==> c == 275 && doy - c < 31)
            &&& (mp == 10 ==> c == 306 && doy - c < 31)
            &&& (mp == 11 ==> c == 337 && doy - c < 29)
        }),
{
    assert({
        let mp = (5 * doy + 2) / 153;
        let c = (153 * mp + 2) / 5;
        &&& mp <= 11
        &&& c <= doy
        &&& (mp == 0 ==> c == 0 && doy - c < 31)
        &&& (mp == 1 ==> c == 31 && doy - c < 30)
        &&& (mp == 2 ==> c == 61 && doy - c < 31)
        &&& (mp == 3 ==> c == 92 && doy - c < 30)
        &&& (mp == 4 ==> c == 122 && doy - c < 31)
        &&& (mp == 5 ==> c == 153 && doy - c < 31)
        &&& (mp == 6 ==> c == 184 && doy - c < 30)
        &&& (mp == 7 ==> c == 214 && doy - c < 31)
        &&& (mp == 8 ==> c == 245 && doy - c < 30)
        &&& (mp == 9 ==> c == 275 && doy - c < 31)
        &&& (mp == 10 ==> c == 306 && doy - c < 31)
        &&& (mp == 11 ==> c == 337 && doy - c < 29)
    }) by (bit_vector)
        requires
            doy <= 365,
    ;
}

/// Shifting a year by whole 400-year cycles shifts the leap-year count by 97
/// per cycle.
proof fn lemma_leap_years_era_shift(era: int, x: int)
    ensures
        leap_years_through(400 * era + x) == 97 * era + leap_years_through(x),
{
    assert((400 * era + x) / 4 == 100 * era + x / 4) by (nonlinear_arith);
    assert((400 * era + x) / 100 == 4 * era + x / 100) by (nonlinear_arith);
    assert((400 * era + x) / 400 == era + x / 400) by (nonlinear_arith);
}

proof fn lemma_leap_era_shift(era: int, x: int)
    ensures
        is_leap_year(400 * era + x) == is_leap_year(x),
{
    assert((400 * era + x) % 4 == x % 4) by (nonlinear_arith);
    assert((400 * era + x) % 100 == x % 100) by (nonlinear_arith);
    assert((400 * era + x) % 400 == x % 400) by (nonlinear_arith);
}

/// Converts a day number (days since 1970-01-01) into year, month (1..=12)
/// and day of month.
#[verifier::spinoff_prover]
#[verifier::rlimit(40)]
pub fn days_to_ymd(days: i64) -> (r: (i64, u32, u32))
    requires
        days <= i64::MAX - 719468,
    ensures
        is_valid_date(r.0 as int, r.1 as int, r.2 as int),
        days_from_civil(r.0 as int, r.1 as int, r.2 as int) == days as int,
{
    let days = days + 719468;
    let era: i64 = if days >= 0 {
        days / 146097
    } else {
        (days - 146096) / 146097
    };
    proof {
        if days >= 0 {
            assert(era * 146097 <= days < era * 146097 + 146097) by (nonlinear_arith)
                requires
                    days >= 0,
                    era == days / 146097,
            ;
        } else {
            assert(era * 146097 <= days < era * 146097 + 146097) by (nonlinear_arith)
                requires
                    days < 0,
                    era == -((146096 - days) / 146097),
            ;
        }
    }
    let doe = (days - era * 146097) as u64;
    let yoe = (doe - doe / 1460 + doe / 36524 - doe / 146096) / 365;
    proof {
        lemma_year_of_era(doe);
    }
    let y = yoe as i64 + era * 400;
    let doy = doe - (365 * yoe + yoe / 4 - yoe / 100);
    let mp = (5 * doy + 2) / 153;
    proof {
        lemma_month_of_year(doy);
    }
    let d = (doy - (153 * mp + 2) / 5 + 1) as u32;
    let m = if mp < 10 {
        mp + 3
    } else {
        mp - 9
    } as u32;
    let y = if m <= 2 {
        y + 1
    } else {
        y
    };
    proof {
        let e = era as int;
        let yo = yoe as int;
        lemma_leap_years_era_shift(e, yo);
        lemma_leap_years_step(400 * e + yo);
        lemma_leap_years_era_shift(e, yo + 1);
        lemma_leap_era_shift(e, yo);
        lemma_leap_era_shift(e, yo + 1);
        assert(400 * e + yo == yo + e * 400);
        assert(leap_years_through(yo) == yo / 4 - yo / 100);
        assert(is_leap_year(yo + 1) <== ((yo + 1) % 4 == 0 && ((yo + 1) % 100 != 0 || yo == 399)));
        assert(e * 146097 == 146097 * e);
    }
    (y, m, d)
}

/// The leap-year count never decreases.
proof fn lemma_leap_years_monotone(a: int, b: int)
    requires
        a <= b,
    ensures
        leap_years_through(a) <= leap_years_through(b),
    decreases b - a,
{
    if a < b {
        lemma_leap_years_step(b);
        lemma_leap_years_monotone(a, b - 1);
    }
}

/// A valid date lies inside its year: after its first day and before the
/// first day of the next year.
proof fn lemma_date_within_year(y: int, m: int, d: int)
    requires
        is_valid_date(y, m, d),
    ensures
        days_from_civil(y, 1, 1) <= days_from_civil(y, m, d) < days_from_civil(y + 1, 1, 1),
{
    lemma_leap_years_step(y);
}

/// Distinct valid dates have distinct day numbers.
pub proof fn lemma_days_from_civil_injective(y1: int, m1: int, d1: int, y2: int, m2: int, d2: int)
    requires
        is_valid_date(y1, m1, d1),
        is_valid_date(y2, m2, d2),
        days_from_civil(y1, m1, d1) == days_from_civil(y2, m2, d2),
    ensures
        y1 == y2 && m1 == m2 && d1 == d2,
{
    lemma_date_within_year(y1, m1, d1);
    lemma_date_within_year(y2, m2, d2);
    if y1 < y2 {
        lemma_leap_years_monotone(y1, y2 - 1);
        assert(days_from_civil(y1 + 1, 1, 1) <= days_from_civil(y2, 1, 1));
    } else if y2 < y1 {
        lemma_leap_years_monotone(y2, y1 - 1);
        assert(days_from_civil(y2 + 1, 1, 1) <= days_from_civil(y1, 1, 1));
    }
}

/// The calendar date of day number `days` (days since 1970-01-01).
pub open spec fn civil_from_days(days: int) -> (int, int, int) {
    choose|ymd: (int, int, int)|
        is_valid_date(ymd.0, ymd.1, ymd.2) && days_from_civil(ymd.0, ymd.1, ymd.2) == days
}

/// What `x as i64` yields for a non-negative integer `x`: its low 64 bits
/// read as a two's-complement number.
pub open spec fn as_i64(x: int) -> int {
    let low = x % 0x1_0000_0000_0000_0000;
    if low < 0x8000_0000_0000_0000 {
        low
    } else {
        low - 0x1_0000_0000_0000_0000
    }
}

/// Integer division rounding toward zero, for `b > 0`.
pub open spec fn trunc_div(a: int, b: int) -> int {
    if a >= 0 {
        a / b
    } else {
        -((-a) / b)
    }
}

/// Remainder of `trunc_div`: it has the sign of `a`.
pub open spec fn trunc_rem(a: int, b: int) -> int {
    a - b * trunc_div(a, b)
}

/// The text `YYYY-MM-DDThh:mm:ssZ` written for `secs` seconds since the
/// epoch: the seconds are read as a signed 64-bit count, split into days and
/// seconds of day with division toward zero, each field zero-padded.
pub open spec fn iso_timestamp(secs: int) -> Seq<char> {
    let s = as_i64(secs);
    let days = trunc_div(s, 86400);
    let day_secs = trunc_rem(s, 86400);
    let ymd = civil_from_days(days);
    let hour = trunc_div(day_secs, 3600);
    let minute = trunc_div(trunc_rem(day_secs, 3600), 60);
    let second = trunc_rem(day_secs, 60);
    pad_signed(ymd.0, 4) + seq!['-'] + pad_unsigned(ymd.1 as nat, 2) + seq!['-'] + pad_unsigned(
        ymd.2 as nat,
        2,
    ) + seq!['T'] + pad_signed(hour, 2) + seq![':'] + pad_signed(minute, 2) + seq![':']
        + pad_signed(second, 2) + seq!['Z']
}

fn to_i64_wrapping(secs: u128) -> (s: i64)
    ensures
        s as int == as_i64(secs as int),
{
    let low: u64 = (secs % 0x1_0000_0000_0000_0000u128) as u64;
    if low <= 0x7fff_ffff_ffff_ffff {
        low as i64
    } else {
        ((low - 0x8000_0000_0000_0000u64) as i64) + i64::MIN
    }
}

/// Renders `secs` seconds since the epoch as an ISO-8601 UTC timestamp.
pub fn format_iso(secs: u128) -> (r: String)
    ensures
        r@ == iso_timestamp(secs as int),
{
    let s = to_i64_wrapping(secs);
    let days_since_epoch = s / 86400;
    let day_secs = s % 86400;
    let hour = day_secs / 3600;
    let minute = (day_secs % 3600) / 60;
    let second = day_secs % 60;
    let (y, m, d) = days_to_ymd(days_since_epoch);
    proof {
        let ymd = civil_from_days(days_since_epoch as int);
        assert(is_valid_date(y as int, m as int, d as int) && days_from_civil(y as int, m as int, d as int) == days_since_epoch as int);
        let w = (y as int, m as int, d as int);
        assert(is_valid_date(w.0, w.1, w.2) && days_from_civil(w.0, w.1, w.2) == days_since_epoch as int);
        lemma_days_from_civil_injective(ymd.0, ymd.1, ymd.2, y as int, m as int, d as int);
    }
    let mut out = String::new();
    push_padded_signed(&mut out, y, 4);
    push_char(&mut out, '-');
    push_padded_unsigned(&mut out, m as u64, 2);
    push_char(&mut out, '-');
    push_padded_unsigned(&mut out, d as u64, 2);
    push_char(&mut out, 'T');
    push_padded_signed(&mut out, hour, 2);
    push_char(&mut out, ':');
    push_padded_signed(&mut out, minute, 2);
    push_char(&mut out, ':');
    push_padded_signed(&mut out, second, 2);
    push_char(&mut out, 'Z');
    assert(out@ =~= iso_timestamp(secs as int));
    out
}

/// The text `YYYY-MM-DD` of day number `days`, zero-padded as in
/// `iso_timestamp`.
pub open spec fn iso_date(days: int) -> Seq<char> {
    let ymd = civil_from_days(days);
    pad_signed(ymd.0, 4) + seq!['-'] + pad_unsigned(ymd.1 as nat, 2) + seq!['-'] + pad_unsigned(
        ymd.2 as nat,
        2,
    )
}

/// Renders day number `days` as `YYYY-MM-DD` (see `iso_date`).
pub fn format_date(days: i64) -> (r: String)
    requires
        days <= i64::MAX - 719468,
    ensures
        r@ == iso_date(days as int),
{
    let (y, m, d) = days_to_ymd(days);
    proof {
        let ymd = civil_from_days(days as int);
        let w = (y as int, m as int, d as int);
        assert(is_valid_date(w.0, w.1, w.2) && days_from_civil(w.0, w.1, w.2) == days as int);
        lemma_days_from_civil_injective(ymd.0, ymd.1, ymd.2, y as int, m as int, d as int);
    }
    let mut out = String::new();
    push_padded_signed(&mut out, y, 4);
    push_char(&mut out, '-');
    push_padded_unsigned(&mut out, m as u64, 2);
    push_char(&mut out, '-');
    push_padded_unsigned(&mut out, d as u64, 2);
    assert(out@ =~= iso_date(days as int));
    out
}

/// The day number (days since 1970-01-01) that `iso_timestamp(secs)` shows.
pub open spec fn day_of_secs(secs: int) -> int {
    trunc_div(as_i64(secs), 86400)
}

/// The day number of `secs` seconds since the epoch (see `day_of_secs`).
pub fn day_number(secs: u128) -> (r: i64)
    ensures
        r as int == day_of_secs(secs as int),
        r <= i64::MAX - 719468,
{
    let s = to_i64_wrapping(secs);
    s / 86400
}

// ---------------------------------------------------------------------------
// Timestamps sort as the times they show
// ---------------------------------------------------------------------------

/// `(y1, m1, d1)` is an earlier date than `(y2, m2, d2)`.
pub open spec fn date_before(y1: int, m1: int, d1: int, y2: int, m2: int, d2: int) -> bool {
    y1 < y2 || (y1 == y2 && (m1 < m2 || (m1 == m2 && d1 < d2)))
}

/// Later dates have larger day numbers.
pub proof fn lemma_days_from_civil_increasing(y1: int, m1: int, d1: int, y2: int, m2: int, d2: int)
    requires
        is_valid_date(y1, m1, d1),
        is_valid_date(y2, m2, d2),
        date_before(y1, m1, d1, y2, m2, d2),
    ensures
        days_from_civil(y1, m1, d1) < days_from_civil(y2, m2, d2),
{
    if y1 < y2 {
        lemma_date_within_year(y1, m1, d1);
        lemma_date_within_year(y2, m2, d2);
        lemma_leap_years_monotone(y1, y2 - 1);
        assert(days_from_civil(y1 + 1, 1, 1) <= days_from_civil(y2, 1, 1));
    } else if m1 < m2 {
        lemma_leap_years_step(y1);
        assert(days_before_month(y1, m1) + days_in_month(y1, m1) <= days_before_month(y1, m2));
    }
}

/// `ymd` is the date of day number `days`.
pub open spec fn is_date_of(ymd: (int, int, int), days: int) -> bool {
    is_valid_date(ymd.0, ymd.1, ymd.2) && days_from_civil(ymd.0, ymd.1, ymd.2) == days
}

/// Every day number from 1970-01-01 on is the day number of some date.
proof fn lemma_date_exists(days: nat)
    ensures
        exists|ymd: (int, int, int)| #[trigger] is_date_of(ymd, days as int),
        is_date_of(civil_from_days(days as int), days as int),
    decreases days,
{
    if days == 0 {
        lemma_days_from_civil_successor(1970, 1, 1);
        let t = (1970int, 1int, 1int);
        assert(is_date_of(t, 0));
    } else {
        lemma_date_exists((days - 1) as nat);
        let w = choose|ymd: (int, int, int)| #[trigger] is_date_of(ymd, days - 1);
        lemma_days_from_civil_successor(w.0, w.1, w.2);
        let t = if w.2 < days_in_month(w.0, w.1) {
            (w.0, w.1, w.2 + 1)
        } else if w.1 < 12 {
            (w.0, w.1 + 1, 1int)
        } else {
            (w.0 + 1, 1int, 1int)
        };
        assert(is_date_of(t, days as int));
    }
}

/// Of two day numbers from 1970-01-01 on, the smaller has the earlier date.
proof fn lemma_civil_order(da: nat, db: nat)
    requires
        da < db,
    ensures
        ({
            let a = civil_from_days(da as int);
            let b = civil_from_days(db as int);
            date_before(a.0, a.1, a.2, b.0, b.1, b.2)
        }),
{
    lemma_date_exists(da);
    lemma_date_exists(db);
    let a = civil_from_days(da as int);
    let b = civil_from_days(db as int);
    if !date_before(a.0, a.1, a.2, b.0, b.1, b.2) {
        if date_before(b.0, b.1, b.2, a.0, a.1, a.2) {
            lemma_days_from_civil_increasing(b.0, b.1, b.2, a.0, a.1, a.2);
        }
    }
}

/// Of two times of day (seconds), the earlier has the earlier hour, minute
/// and second, most significant first.
proof fn lemma_time_of_day_order(sa: int, sb: int)
    requires
        0 <= sa < sb < 86400,
    ensures
        field_before(
            (sa / 3600) as nat,
            (sb / 3600) as nat,
            field_before((sa % 3600 / 60) as nat, (sb % 3600 / 60) as nat, sa % 60 < sb % 60),
        ),
{
    assert(sa == 3600 * (sa / 3600) + sa % 3600);
    assert(sb == 3600 * (sb / 3600) + sb % 3600);
    assert(sa % 3600 == 60 * (sa % 3600 / 60) + sa % 60);
    assert(sb % 3600 == 60 * (sb % 3600 / 60) + sb % 60);
}

/// The end of a timestamp text from the seconds on: `ss` and `Z`.
pub open spec fn tail_sec(s: nat) -> Seq<char> {
    fixed_digits(s, 2) + seq!['Z']
}

/// The end of a timestamp text from the minutes on.
pub open spec fn tail_min(i: nat, s: nat) -> Seq<char> {
    fixed_digits(i, 2) + (seq![':'] + tail_sec(s))
}

/// The end of a timestamp text from the hours on.
pub open spec fn tail_hour(h: nat, i: nat, s: nat) -> Seq<char> {
    fixed_digits(h, 2) + (seq![':'] + tail_min(i, s))
}

/// The end of a timestamp text from the day of month on.
pub open spec fn tail_day(d: nat, h: nat, i: nat, s: nat) -> Seq<char> {
    fixed_digits(d, 2) + (seq!['T'] + tail_hour(h, i, s))
}

/// The end of a timestamp text from the month on.
pub open spec fn tail_month(o: nat, d: nat, h: nat, i: nat, s: nat) -> Seq<char> {
    fixed_digits(o, 2) + (seq!['-'] + tail_day(d, h, i, s))
}

/// The timestamp text made of fixed-width fields.
pub open spec fn stamp_text(y: nat, o: nat, d: nat, h: nat, i: nat, s: nat) -> Seq<char> {
    fixed_digits(y, 4) + (seq!['-'] + tail_month(o, d, h, i, s))
}

/// `a1` before `a2`, or equal and `rest` says the rest is before.
pub open spec fn field_before(a1: nat, a2: nat, rest: bool) -> bool {
    a1 < a2 || (a1 == a2 && rest)
}

/// The fields of the timestamp of `secs` (before year 10000): a date from
/// 1970 to 9999 and the time of day.
proof fn lemma_iso_fields(secs: int)
    requires
        0 <= secs < 253402300800,
    ensures
        ({
            let ymd = civil_from_days(secs / 86400);
            let ds = secs % 86400;
            &&& is_valid_date(ymd.0, ymd.1, ymd.2)
            &&& days_from_civil(ymd.0, ymd.1, ymd.2) == secs / 86400
            &&& 1970 <= ymd.0 <= 9999
            &&& iso_timestamp(secs) == stamp_text(
                ymd.0 as nat,
                ymd.1 as nat,
                ymd.2 as nat,
                (ds / 3600) as nat,
                (ds % 3600 / 60) as nat,
                (ds % 60) as nat,
            )
            &&& iso_timestamp(secs).len() == 20
        }),
{
    let days = secs / 86400;
    lemma_date_exists(days as nat);
    let ymd = civil_from_days(days);
    let (y, m, d) = ymd;
    lemma_date_within_year(y, m, d);
    if y < 1970 {
        lemma_leap_years_monotone(y, 1969);
        lemma_days_from_civil_successor(1970, 1, 1);
        assert(days_from_civil(y + 1, 1, 1) <= days_from_civil(1970, 1, 1));
    }
    if y > 9999 {
        lemma_leap_years_monotone(9999, y - 1);
        assert(days_from_civil(10000, 1, 1) == 2932897);
        assert(days_from_civil(10000, 1, 1) <= days_from_civil(y, 1, 1));
    }
    let ds = secs % 86400;
    let h = ds / 3600;
    let mi = ds % 3600 / 60;
    let s = ds % 60;
    assert(as_i64(secs) == secs);
    assert(trunc_div(secs, 86400) == days);
    assert(trunc_rem(secs, 86400) == ds);
    assert(trunc_div(ds, 3600) == h);
    assert(trunc_rem(ds, 3600) == ds % 3600);
    assert(trunc_div(ds % 3600, 60) == mi);
    assert(trunc_rem(ds, 60) == s);
    reveal_with_fuel(pow10, 5);
    lemma_pad_is_fixed(y as nat, 4);
    lemma_pad_is_fixed(m as nat, 2);
    lemma_pad_is_fixed(d as nat, 2);
    lemma_pad_is_fixed(h as nat, 2);
    lemma_pad_is_fixed(mi as nat, 2);
    lemma_pad_is_fixed(s as nat, 2);
    assert(iso_timestamp(secs) =~= stamp_text(
        y as nat,
        m as nat,
        d as nat,
        h as nat,
        mi as nat,
        s as nat,
    ));
}

/// A field of equal width decides the order, or, where equal, what follows
/// the separator does.
proof fn lemma_field_step(fa: Seq<char>, fb: Seq<char>, sep: Seq<char>, ra: Seq<char>, rb: Seq<char>)
    requires
        fa.len() == fb.len(),
        text_lt(fa, fb) || (fa == fb && text_lt(ra, rb)),
    ensures
        text_lt(fa + (sep + ra), fb + (sep + rb)),
{
    if text_lt(fa, fb) {
        lemma_text_lt_extend(fa, fb, sep + ra, sep + rb);
    } else {
        lemma_text_lt_prefix(sep, ra, rb);
        lemma_text_lt_prefix(fa, sep + ra, sep + rb);
    }
}

/// Timestamp texts sort as the times: field by field, most significant
/// first.
proof fn lemma_stamp_order(
    y1: nat, o1: nat, d1: nat, h1: nat, i1: nat, s1: nat,
    y2: nat, o2: nat, d2: nat, h2: nat, i2: nat, s2: nat,
)
    requires
        y1 < 10000 && y2 < 10000,
        o1 < 100 && o2 < 100 && d1 < 100 && d2 < 100 && h1 < 100 && h2 < 100,
        i1 < 100 && i2 < 100 && s1 < 100 && s2 < 100,
        ({
            let bi = field_before(i1, i2, s1 < s2);
            let bh = field_before(h1, h2, bi);
            let bd = field_before(d1, d2, bh);
            field_before(y1, y2, field_before(o1, o2, bd))
        }),
    ensures
        text_lt(stamp_text(y1, o1, d1, h1, i1, s1), stamp_text(y2, o2, d2, h2, i2, s2)),
{
    reveal_with_fuel(pow10, 5);
    lemma_fixed_digits_len(y1, 4);
    lemma_fixed_digits_len(y2, 4);
    lemma_fixed_digits_len(o1, 2);
    lemma_fixed_digits_len(o2, 2);
    lemma_fixed_digits_len(d1, 2);
    lemma_fixed_digits_len(d2, 2);
    lemma_fixed_digits_len(h1, 2);
    lemma_fixed_digits_len(h2, 2);
    lemma_fixed_digits_len(i1, 2);
    lemma_fixed_digits_len(i2, 2);
    lemma_fixed_digits_len(s1, 2);
    lemma_fixed_digits_len(s2, 2);
    let bi = field_before(i1, i2, s1 < s2);
    let bh = field_before(h1, h2, bi);
    let bd = field_before(d1, d2, bh);
    let bo = field_before(o1, o2, bd);
    if s1 < s2 {
        lemma_fixed_digits_order(s1, s2, 2);
        lemma_text_lt_extend(fixed_digits(s1, 2), fixed_digits(s2, 2), seq!['Z'], seq!['Z']);
    }
    if bi {
        if i1 < i2 {
            lemma_fixed_digits_order(i1, i2, 2);
        }
        lemma_field_step(fixed_digits(i1, 2), fixed_digits(i2, 2), seq![':'], tail_sec(s1), tail_sec(s2));
    }
    if bh {
        if h1 < h2 {
            lemma_fixed_digits_order(h1, h2, 2);
        }
        lemma_field_step(
            fixed_digits(h1, 2),
            fixed_digits(h2, 2),
            seq![':'],
            tail_min(i1, s1),
            tail_min(i2, s2),
        );
    }
    if bd {
        if d1 < d2 {
            lemma_fixed_digits_order(d1, d2, 2);
        }
        lemma_field_step(
            fixed_digits(d1, 2),
            fixed_digits(d2, 2),
            seq!['T'],
            tail_hour(h1, i1, s1),
            tail_hour(h2, i2, s2),
        );
    }
    if bo {
        if o1 < o2 {
            lemma_fixed_digits_order(o1, o2, 2);
        }
        lemma_field_step(
            fixed_digits(o1, 2),
            fixed_digits(o2, 2),
            seq!['-'],
            tail_day(d1, h1, i1, s1),
            tail_day(d2, h2, i2, s2),
        );
    }
    if y1 < y2 {
        lemma_fixed_digits_order(y1, y2, 4);
    }
    lemma_field_step(
        fixed_digits(y1, 4),
        fixed_digits(y2, 4),
        seq!['-'],
        tail_month(o1, d1, h1, i1, s1),
        tail_month(o2, d2, h2, i2, s2),
    );
}

/// Timestamps before the year 10000 have 20 characters, and a later time
/// gives a text that sorts after an earlier one: log lines sort by time as
/// strings.
pub proof fn lemma_iso_timestamp_sortable(a: int, b: int)
    requires
        0 <= a < b < 253402300800,
    ensures
        iso_timestamp(a).len() == 20,
        iso_timestamp(b).len() == 20,
        text_lt(iso_timestamp(a), iso_timestamp(b)),
{
    lemma_iso_fields(a);
    lemma_iso_fields(b);
    let da = a / 86400;
    let db = b / 86400;
    let ya = civil_from_days(da);
    let yb = civil_from_days(db);
    let sa = a % 86400;
    let sb = b % 86400;
    if da < db {
        lemma_civil_order(da as nat, db as nat);
    } else {
        assert(da == db && sa < sb);
        lemma_time_of_day_order(sa, sb);
    }
    lemma_stamp_order(
        ya.0 as nat, ya.1 as nat, ya.2 as nat, (sa / 3600) as nat, (sa % 3600 / 60) as nat, (sa % 60) as nat,
        yb.0 as nat, yb.1 as nat, yb.2 as nat, (sb / 3600) as nat, (sb % 3600 / 60) as nat, (sb % 60) as nat,
    );
}

} // verus!
