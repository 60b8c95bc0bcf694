//! Proleptic Gregorian calendar arithmetic: day numbers of civil dates and
//! back, ISO `YYYY-MM-DD` dates, the days left until a due date, and the IMAP
//! `SINCE` token of a look-back window.

use vstd::prelude::*;
use crate::text::{
    chars_of, int_text, int_text_padded, parse_i32_spec, parse_i64, parse_i64_spec, parse_i32,
    parse_u32, parse_u32_spec, push_int_padded, push_int_text, push_str, split_by, split_on,
    string_of, join_with, nat_text, zero_pad, lemma_parse_zero_padded, lemma_split_by_join,
};
use crate::parser::iso_text;

verus! {

// ---------------------------------------------------------------------------
// The calendar
// ---------------------------------------------------------------------------

pub open spec fn is_leap_year(y: int) -> bool {
    y % 4 == 0 && (y % 100 != 0 || y % 400 == 0)
}

pub open spec fn days_in_month(y: int, m: int) -> int {
    if m == 2 {
        if is_leap_year(y) { 29 } else { 28 }
    } else if m == 4 || m == 6 || m == 9 || m == 11 {
        30
    } else {
        31
    }
}

/// `(y, m, d)` names a day of the proleptic Gregorian calendar.
pub open spec fn is_valid_date(y: int, m: int, d: int) -> bool {
    1 <= m <= 12 && 1 <= d <= days_in_month(y, m)
}

/// The calendar day after a valid date.
pub open spec fn next_date(y: int, m: int, d: int) -> (int, int, int) {
    if d < days_in_month(y, m) {
        (y, m, d + 1)
    } else if m < 12 {
        (y, m + 1, 1)
    } else {
        (y + 1, 1, 1)
    }
}

/// The year counted from March: January and February belong to the year
/// before, so that the leap day ends the counted year.
pub open spec fn march_year(y: int, m: int) -> int {
    if m <= 2 { y - 1 } else { y }
}

/// The month counted from March (March = 0, ..., February = 11).
pub open spec fn march_month(m: int) -> int {
    if m > 2 { m - 3 } else { m + 9 }
}

/// Days from March 1 to the first day of the March-based month `mp`.
pub open spec fn month_start(mp: int) -> int {
    (153 * mp + 2) / 5
}

/// The day number of `(y, m, d)`: days since 1970-01-01, counting 365 days a
/// year plus one for every leap year (divisible by 4, except centuries not
/// divisible by 400). Months outside 1..=12 and days past the month's end
/// carry over into the following months.
pub open spec fn civil_ordinal(y: int, m: int, d: int) -> int {
    let yp = march_year(y, m);
    365 * yp + yp / 4 - yp / 100 + yp / 400 + month_start(march_month(m)) + d - 1 - 719468
}

/// Days in the March-based year `k` of a 400-year era.
pub open spec fn era_year_len(k: int) -> int {
    if k % 4 == 3 && (k % 100 != 99 || k == 399) { 366 } else { 365 }
}

/// Days from the start of an era to the start of its March-based year `k`.
pub open spec fn era_year_start(k: int) -> int {
    365 * k + k / 4 - k / 100
}

#[verifier::rlimit(60)]
proof fn lemma_era_year_of(doe: u32)
    requires
        doe <= 146096,
    ensures
        ({
            let k = (doe - doe / 1460 + doe / 36524 - doe / 146096) / 365;
            &&& k <= 399
            &&& 365 * k + k / 4 - k / 100 <= doe
            &&& doe < 365 * k + k / 4 - k / 100 + (if k % 4 == 3 && (k % 100 != 99 || k == 399) { 366u32 } else { 365u32 })
        }),
{
    assert(doe <= 146096 ==> {
        let k = (doe - doe / 1460 + doe / 36524 - doe / 146096) / 365;
        &&& k <= 399
        &&& 365 * k + k / 4 - k / 100 <= doe
        &&& doe < 365 * k + k / 4 - k / 100 + (if k % 4 == 3 && (k % 100 != 99 || k == 399) { 366u32 } else { 365u32 })
    }) by (bit_vector);
}

#[verifier::rlimit(60)]
proof fn lemma_era_year_inverse(k: u32, r: u32)
    requires
        k <= 399,
        r < 365 || (r == 365 && k % 4 == 3 && (k % 100 != 99 || k == 399)),
    ensures
        ({
            let doe = 365 * k + k / 4 - k / 100 + r;
            (doe - doe / 1460 + doe / 36524 - doe / 146096) / 365 == k
        }),
{
    assert(k <= 399 && (r < 365 || (r == 365 && k % 4 == 3 && (k % 100 != 99 || k == 399))) ==>
        ((365 * k + k / 4 - k / 100 + r) - (365 * k + k / 4 - k / 100 + r) / 1460
          + (365 * k + k / 4 - k / 100 + r) / 36524 - (365 * k + k / 4 - k / 100 + r) / 146096) / 365 == k)
        by (bit_vector);
}

proof fn lemma_month_of(doy: u32)
    requires
        doy <= 365,
    ensures
        ({
            let mp = (5 * doy + 2) / 153;
            &&& mp <= 11
            &&& (153 * mp + 2) / 5 <= doy
            &&& doy < (153 * (mp + 1) + 2) / 5
        }),
{
    assert(doy <= 365 ==> {
        let mp = (5 * doy + 2) / 153;
        &&& mp <= 11
        &&& (153 * mp + 2) / 5 <= doy
        &&& doy < (153 * (mp + 1) + 2) / 5
    }) by (bit_vector);
}

proof fn lemma_month_inverse(mp: u32, t: u32)
    requires
        mp <= 11,
        t < (153 * (mp + 1) + 2) / 5 - (153 * mp + 2) / 5,
    ensures
        (5 * ((153 * mp + 2) / 5 + t) + 2) / 153 == mp,
{
    assert(mp <= 11 && t < (153 * (mp + 1) + 2) / 5 - (153 * mp + 2) / 5 ==>
        (5 * ((153 * mp + 2) / 5 + t) + 2) / 153 == mp) by (bit_vector);
}

/// Splitting a March-based year into its era and year of era.
proof fn lemma_era_split(yp: int, era: int, yoe: int)
    requires
        yp == era * 400 + yoe,
        0 <= yoe < 400,
    ensures
        yp / 400 == era,
        yp / 4 == era * 100 + yoe / 4,
        yp / 100 == era * 4 + yoe / 100,
        365 * yp + yp / 4 - yp / 100 + yp / 400 == era * 146097 + era_year_start(yoe),
{
}

/// The length of March-based year `k` of an era is 366 exactly when the
/// February it ends with is a leap February.
proof fn lemma_era_year_len_leap(era: int, k: int)
    requires
        0 <= k < 400,
    ensures
        (era_year_len(k) == 366) == is_leap_year(era * 400 + k + 1),
{
    let y = era * 400 + k + 1;
    vstd::arithmetic::div_mod::lemma_mod_multiples_vanish(era * 100, k + 1, 4);
    vstd::arithmetic::div_mod::lemma_mod_multiples_vanish(era * 4, k + 1, 100);
    vstd::arithmetic::div_mod::lemma_mod_multiples_vanish(era, k + 1, 400);
    assert(4 * (era * 100) + (k + 1) == y);
    assert(100 * (era * 4) + (k + 1) == y);
    assert(400 * era + (k + 1) == y);
}

// ---------------------------------------------------------------------------
// Laws of the day number
// ---------------------------------------------------------------------------

/// The day number counts from 1970-01-01; the day before is 1969-12-31.
pub proof fn lemma_epoch()
    ensures
        civil_ordinal(1970, 1, 1) == 0,
        civil_ordinal(1969, 12, 31) == -1,
        civil_from_ordinal(0) == (1970int, 1int, 1int),
        civil_from_ordinal(-1) == (1969int, 12int, 31int),
{
    lemma_civil_round_trip(1970, 1, 1);
    lemma_civil_round_trip(1969, 12, 31);
}

/// Consecutive calendar days have consecutive day numbers, across month and
/// year ends, leap days included.
pub proof fn lemma_next_date(y: int, m: int, d: int)
    requires
        is_valid_date(y, m, d),
    ensures
        ({
            let (y2, m2, d2) = next_date(y, m, d);
            is_valid_date(y2, m2, d2) && civil_ordinal(y2, m2, d2) == civil_ordinal(y, m, d) + 1
        }),
{
    let yp = march_year(y, m);
    let era = yp / 400;
    let yoe = yp - era * 400;
    lemma_era_split(yp, era, yoe);
    if d == days_in_month(y, m) && m == 2 {
        // February 28/29 -> March 1: the March-based year ends.
        let era2 = y / 400;
        let yoe2 = y - era2 * 400;
        lemma_era_split(y, era2, yoe2);
        assert(y == yp + 1);
        if yoe == 399 {
            assert(era2 == era + 1 && yoe2 == 0);
        } else {
            assert(era2 == era && yoe2 == yoe + 1);
        }
        lemma_era_year_len_leap(era, yoe);
    }
}

/// The day number of a civil date can be inverted: the date named by it is
/// the one that `days_to_civil` gives.
pub open spec fn civil_from_ordinal(z: int) -> (int, int, int) {
    let zp = z + 719468;
    let era = zp / 146097;
    let doe = zp - era * 146097;
    let yoe = (doe - doe / 1460 + doe / 36524 - doe / 146096) / 365;
    let doy = doe - era_year_start(yoe);
    let mp = (5 * doy + 2) / 153;
    let d = doy - month_start(mp) + 1;
    let m = if mp < 10 { mp + 3 } else { mp - 9 };
    let y = yoe + era * 400;
    (if m <= 2 { y + 1 } else { y }, m, d)
}

/// Every day number names exactly one valid date: `civil_from_ordinal` gives a
/// valid date with that day number.
pub proof fn lemma_civil_from_ordinal(z: int)
    ensures
        ({
            let (y, m, d) = civil_from_ordinal(z);
            is_valid_date(y, m, d) && civil_ordinal(y, m, d) == z
        }),
{
    let zp = z + 719468;
    let era = zp / 146097;
    let doe = zp - era * 146097;
    assert(0 <= doe <= 146096);
    lemma_era_year_of(doe as u32);
    let yoe = (doe - doe / 1460 + doe / 36524 - doe / 146096) / 365;
    let doy = doe - era_year_start(yoe);
    assert(0 <= doy < era_year_len(yoe));
    lemma_month_of(doy as u32);
    let mp = (5 * doy + 2) / 153;
    let d = doy - month_start(mp) + 1;
    let m = if mp < 10 { mp + 3 } else { mp - 9 };
    let y = yoe + era * 400;
    let yy = if m <= 2 { y + 1 } else { y };
    assert(march_year(yy, m) == y);
    assert(march_month(m) == mp);
    lemma_era_split(y, era, yoe);
    lemma_era_year_len_leap(era, yoe);
    assert(is_valid_date(yy, m, d));
}

/// Valid dates and day numbers correspond one to one: the date named by the
/// day number of a valid date is that date.
pub proof fn lemma_civil_round_trip(y: int, m: int, d: int)
    requires
        is_valid_date(y, m, d),
    ensures
        civil_from_ordinal(civil_ordinal(y, m, d)) == (y, m, d),
{
    let yp = march_year(y, m);
    let era = yp / 400;
    let yoe = yp - era * 400;
    lemma_era_split(yp, era, yoe);
    let mp = march_month(m);
    let doy = month_start(mp) + d - 1;
    lemma_era_year_len_leap(era, yoe);
    assert(0 <= doy < era_year_len(yoe));
    lemma_era_year_inverse(yoe as u32, doy as u32);
    let doe = era_year_start(yoe) + doy;
    let z = civil_ordinal(y, m, d);
    assert(z + 719468 == era * 146097 + doe);
    assert((z + 719468) / 146097 == era);
    lemma_month_inverse(mp as u32, (d - 1) as u32);
}

/// Different valid dates have different day numbers.
pub proof fn lemma_civil_ordinal_injective(y1: int, m1: int, d1: int, y2: int, m2: int, d2: int)
    requires
        is_valid_date(y1, m1, d1),
        is_valid_date(y2, m2, d2),
        civil_ordinal(y1, m1, d1) == civil_ordinal(y2, m2, d2),
    ensures
        y1 == y2 && m1 == m2 && d1 == d2,
{
    lemma_civil_round_trip(y1, m1, d1);
    lemma_civil_round_trip(y2, m2, d2);
}


// ---------------------------------------------------------------------------
// Day numbers in machine integers
// ---------------------------------------------------------------------------

/// The day number of `(y, m, d)` (Howard Hinnant's days-from-civil).
/// `y - 1` for January and February must not leave `i32`.
pub fn civil_to_days(today: (i32, u32, u32)) -> (n: i64)
    requires
        !(today.1 <= 2 && today.0 == i32::MIN),
    ensures
        n == civil_ordinal(today.0 as int, today.1 as int, today.2 as int),
{
    let (y, m, d) = today;
    let y: i64 = (if m <= 2 { y - 1 } else { y }) as i64;
    let m: i64 = m as i64;
    let d: i64 = d as i64;
    let era: i64 = (if y >= 0 { y } else { y - 399 }) / 400;
    let yoe: i64 = y - era * 400;
    assert(0 <= yoe < 400);
    let doy: i64 = (153 * (if m > 2 { m - 3 } else { m + 9 }) + 2) / 5 + d - 1;
    let doe: i64 = yoe * 365 + yoe / 4 - yoe / 100 + doy;
    proof {
        lemma_era_split(y as int, era as int, yoe as int);
    }
    era * 146097 + doe - 719468
}

/// The valid date with day number `z` (Howard Hinnant's civil-from-days),
/// the year as a 64-bit integer.
pub fn days_to_civil_i64(z: i64) -> (r: (i64, u32, u32))
    requires
        z <= i64::MAX - 719468,
    ensures
        is_valid_date(r.0 as int, r.1 as int, r.2 as int),
        civil_ordinal(r.0 as int, r.1 as int, r.2 as int) == z,
        (r.0 as int, r.1 as int, r.2 as int) == civil_from_ordinal(z as int),
{
    let z = z + 719468;
    let era: i64 = (if z >= 0 { z } else { z - 146096 }) / 146097;
    let doe: i64 = z - era * 146097;
    assert(era == (z as int) / 146097);
    proof {
        lemma_era_year_of(doe as u32);
    }
    let yoe: i64 = (doe - doe / 1460 + doe / 36524 - doe / 146096) / 365;
    let y: i64 = yoe + era * 400;
    let doy: i64 = doe - (365 * yoe + yoe / 4 - yoe / 100);
    proof {
        lemma_month_of(doy as u32);
    }
    let mp: i64 = (5 * doy + 2) / 153;
    let d: i64 = doy - (153 * mp + 2) / 5 + 1;
    let m: i64 = if mp < 10 { mp + 3 } else { mp - 9 };
    proof {
        lemma_civil_from_ordinal(z - 719468);
    }
    ((if m <= 2 { y + 1 } else { y }), m as u32, d as u32)
}

/// `(y, m, d)` moved back by `days` days (the year wraps to `i32` as `as`
/// does). The day numbers involved must fit in `i64`.
pub fn shift_back(today: (i32, u32, u32), days: i64) -> (r: (i32, u32, u32))
    requires
        shift_back_defined(today, days),
    ensures
        ({
            let z = civil_ordinal(today.0 as int, today.1 as int, today.2 as int) - days;
            let (y, m, d) = civil_from_ordinal(z);
            &&& r.0 == y as i32
            &&& r.1 == m
            &&& r.2 == d
            &&& is_valid_date(y, m, d)
            &&& civil_ordinal(y, m, d) == z
        }),
{
    let n = civil_to_days(today);
    let z = n - days;
    let (y, m, d) = days_to_civil_i64(z);
    (y as i32, m, d)
}

/// The inputs on which `shift_back` computes without leaving `i64`.
pub open spec fn shift_back_defined(today: (i32, u32, u32), days: i64) -> bool {
    &&& !(today.1 <= 2 && today.0 == i32::MIN)
    &&& i64::MIN <= civil_ordinal(today.0 as int, today.1 as int, today.2 as int) - days
    &&& civil_ordinal(today.0 as int, today.1 as int, today.2 as int) - days <= i64::MAX - 719468
}

/// Whether `shift_back(today, days)`, and so `imap_since(today, days)`, can
/// be computed (`shift_back_defined`).
pub fn shift_back_computable(today: (i32, u32, u32), days: i64) -> (b: bool)
    ensures
        b == shift_back_defined(today, days),
{
    if today.1 <= 2 && today.0 == i32::MIN {
        return false;
    }
    let n = civil_to_days(today);
    let z: i128 = n as i128 - days as i128;
    i64::MIN as i128 <= z && z <= (i64::MAX - 719468) as i128
}

// ---------------------------------------------------------------------------
// The IMAP SINCE token
// ---------------------------------------------------------------------------

/// English month abbreviations, as IMAP dates spell them.
pub open spec fn month_abbr(m: int) -> Seq<char> {
    if m == 1 { "Jan"@ } else if m == 2 { "Feb"@ } else if m == 3 { "Mar"@ }
    else if m == 4 { "Apr"@ } else if m == 5 { "May"@ } else if m == 6 { "Jun"@ }
    else if m == 7 { "Jul"@ } else if m == 8 { "Aug"@ } else if m == 9 { "Sep"@ }
    else if m == 10 { "Oct"@ } else if m == 11 { "Nov"@ } else { "Dec"@ }
}

fn push_month_abbr(out: &mut Vec<char>, m: u32)
    requires
        1 <= m <= 12,
    ensures
        final(out)@ == old(out)@ + month_abbr(m as int),
{
    if m == 1 { push_str(out, "Jan") } else if m == 2 { push_str(out, "Feb") }
    else if m == 3 { push_str(out, "Mar") } else if m == 4 { push_str(out, "Apr") }
    else if m == 5 { push_str(out, "May") } else if m == 6 { push_str(out, "Jun") }
    else if m == 7 { push_str(out, "Jul") } else if m == 8 { push_str(out, "Aug") }
    else if m == 9 { push_str(out, "Sep") } else if m == 10 { push_str(out, "Oct") }
    else if m == 11 { push_str(out, "Nov") } else { push_str(out, "Dec") }
}

/// The IMAP date `DD-Mon-YYYY` of `(y, m, d)`.
pub open spec fn imap_date_text(y: int, m: int, d: int) -> Seq<char> {
    int_text_padded(d, 2) + seq!['-'] + month_abbr(m) + seq!['-'] + int_text(y)
}

/// The IMAP `SINCE` token (`DD-Mon-YYYY`) for the day `days` days before
/// `today` = `(year, month, day)`: the valid date whose day number is the day
/// number of `today` minus `days`, its year wrapped to `i32`.
pub fn imap_since(today: (i32, u32, u32), days: i64) -> (r: String)
    requires
        shift_back_defined(today, days),
    ensures
        ({
            let (y, m, d) = civil_from_ordinal(
                civil_ordinal(today.0 as int, today.1 as int, today.2 as int) - days,
            );
            &&& is_valid_date(y, m, d)
            &&& civil_ordinal(y, m, d) == civil_ordinal(today.0 as int, today.1 as int, today.2 as int) - days
            &&& r@ == imap_date_text((y as i32) as int, m, d)
        }),
{
    let (y, m, d) = shift_back(today, days);
    let mut out: Vec<char> = Vec::new();
    push_int_padded(&mut out, d as i64, 2);
    out.push('-');
    push_month_abbr(&mut out, m);
    out.push('-');
    push_int_text(&mut out, y as i64);
    string_of(out.as_slice())
}


// ---------------------------------------------------------------------------
// ISO dates
// ---------------------------------------------------------------------------

/// The year, month and day of an ISO `YYYY-MM-DD` date as the day counter
/// reads them: the first three `-`-separated pieces (later pieces are
/// ignored), each an `i64`, the month in 1..=12 and the day in 1..=31.
pub open spec fn iso_fields(s: Seq<char>) -> Option<(int, int, int)> {
    let p = split_by(s, '-');
    if p.len() >= 3 && parse_i64_spec(p[0]) is Some && parse_i64_spec(p[1]) is Some
        && parse_i64_spec(p[2]) is Some {
        let y = parse_i64_spec(p[0]).unwrap();
        let m = parse_i64_spec(p[1]).unwrap();
        let d = parse_i64_spec(p[2]).unwrap();
        if 1 <= m <= 12 && 1 <= d <= 31 {
            Some((y, m, d))
        } else {
            None
        }
    } else {
        None
    }
}

/// The day number of an ISO date, if it reads as one.
pub open spec fn iso_day_number(s: Seq<char>) -> Option<int> {
    match iso_fields(s) {
        Some((y, m, d)) => Some(civil_ordinal(y, m, d)),
        None => None,
    }
}

/// Every intermediate value of the day count of `(y, m, d)` fits in `i64`.
pub open spec fn civil_fits_i64(y: int, m: int, d: int) -> bool {
    let yp = march_year(y, m);
    let era = yp / 400;
    let doe = era_year_start(yp - era * 400) + month_start(march_month(m)) + d - 1;
    &&& i64::MIN <= yp
    &&& (yp < 0 ==> i64::MIN <= yp - 399)
    &&& i64::MIN <= era * 146097 <= i64::MAX
    &&& i64::MIN <= era * 146097 + doe <= i64::MAX
    &&& i64::MIN <= era * 146097 + doe - 719468
}

/// `s` does not read as an ISO date, or its day count fits in `i64`.
pub open spec fn iso_in_range(s: Seq<char>) -> bool {
    match iso_fields(s) {
        Some((y, m, d)) => civil_fits_i64(y, m, d),
        None => true,
    }
}

fn days_from_civil_i64(y: i64, m: i64, d: i64) -> (n: i64)
    requires
        1 <= m <= 12,
        1 <= d <= 31,
        civil_fits_i64(y as int, m as int, d as int),
    ensures
        n == civil_ordinal(y as int, m as int, d as int),
{
    let y: i64 = if m <= 2 { y - 1 } else { y };
    let era: i64 = (if y >= 0 { y } else { y - 399 }) / 400;
    assert(era == (y as int) / 400);
    let yoe: i64 = y - era * 400;
    let doy: i64 = (153 * (if m > 2 { m - 3 } else { m + 9 }) + 2) / 5 + d - 1;
    let doe: i64 = yoe * 365 + yoe / 4 - yoe / 100 + doy;
    proof {
        lemma_era_split(y as int, era as int, yoe as int);
    }
    era * 146097 + doe - 719468
}

/// The year, month and day of an ISO date (`iso_fields`).
pub fn iso_date_fields(iso: &str) -> (r: Option<(i64, i64, i64)>)
    ensures
        r matches Some((y, m, d)) ==> iso_fields(iso@) == Some((y as int, m as int, d as int)),
        r is None ==> iso_fields(iso@) is None,
{
    let cs = chars_of(iso);
    let parts = split_on(cs.as_slice(), '-');
    if parts.len() < 3 {
        return None;
    }
    let y = match parse_i64(parts[0].as_slice()) {
        Some(v) => v,
        None => return None,
    };
    let m = match parse_i64(parts[1].as_slice()) {
        Some(v) => v,
        None => return None,
    };
    let d = match parse_i64(parts[2].as_slice()) {
        Some(v) => v,
        None => return None,
    };
    if !(1 <= m && m <= 12) || !(1 <= d && d <= 31) {
        return None;
    }
    Some((y, m, d))
}

/// Whether the day count of an ISO date stays in `i64` (`iso_in_range`).
pub fn iso_date_in_range(iso: &str) -> (b: bool)
    ensures
        b == iso_in_range(iso@),
{
    match iso_date_fields(iso) {
        None => true,
        Some((y, m, d)) => {
            let yp: i128 = if m <= 2 { y as i128 - 1 } else { y as i128 };
            let era: i128 = (if yp >= 0 { yp } else { yp - 399 }) / 400;
            assert(era == (yp as int) / 400);
            let yoe: i128 = yp - era * 400;
            let doy: i128 = (153 * (if m > 2 { m as i128 - 3 } else { m as i128 + 9 }) + 2) / 5 + d as i128 - 1;
            let doe: i128 = yoe * 365 + yoe / 4 - yoe / 100 + doy;
            let lo: i128 = i64::MIN as i128;
            let hi: i128 = i64::MAX as i128;
            let e = era * 146097;
            lo <= yp && (yp >= 0 || lo <= yp - 399) && lo <= e && e <= hi && lo <= e + doe
                && e + doe <= hi && lo <= e + doe - 719468
        },
    }
}

/// The day number of an ISO date, `None` if it does not read as one.
fn iso_to_ordinal(iso: &str) -> (r: Option<i64>)
    requires
        iso_in_range(iso@),
    ensures
        r matches Some(n) ==> iso_day_number(iso@) == Some(n as int),
        r is None ==> iso_day_number(iso@) is None,
{
    match iso_date_fields(iso) {
        None => None,
        Some((y, m, d)) => Some(days_from_civil_i64(y, m, d)),
    }
}

/// When `days_left(due_date, today)` computes without leaving `i64`: the
/// due date's day count fits, and if it reads as a date, so do today's day
/// count and the difference.
pub open spec fn days_left_defined(due_date: Seq<char>, today: Seq<char>) -> bool {
    &&& iso_in_range(due_date)
    &&& (iso_fields(due_date) is Some ==> iso_in_range(today))
    &&& (iso_day_number(due_date) is Some && iso_day_number(today) is Some ==>
            i64::MIN <= iso_day_number(due_date).unwrap() - iso_day_number(today).unwrap() <= i64::MAX)
}

/// Days between `today` and the ISO `due_date` (`due - today`); `None` if
/// either does not read as a date. Negative = overdue.
pub open spec fn days_left_spec(due_date: Seq<char>, today: Seq<char>) -> Option<int> {
    match (iso_day_number(due_date), iso_day_number(today)) {
        (Some(a), Some(b)) => Some(a - b),
        _ => None,
    }
}

/// Days between `today` and an ISO `due_date` (`due - today`); `None` if
/// unparseable. Both args are ISO `YYYY-MM-DD`. Negative = overdue.
pub fn days_left(due_date: &str, today: &str) -> (r: Option<i64>)
    requires
        days_left_defined(due_date@, today@),
    ensures
        r matches Some(n) ==> days_left_spec(due_date@, today@) == Some(n as int),
        r is None ==> days_left_spec(due_date@, today@) is None,
{
    let a = match iso_to_ordinal(due_date) {
        Some(a) => a,
        None => return None,
    };
    let b = match iso_to_ordinal(today) {
        Some(b) => b,
        None => return None,
    };
    Some(a - b)
}

/// Whether `days_left(due_date, today)` is defined (`days_left_defined`).
pub fn days_left_computable(due_date: &str, today: &str) -> (b: bool)
    ensures
        b == days_left_defined(due_date@, today@),
{
    if !iso_date_in_range(due_date) {
        return false;
    }
    let a = match iso_to_ordinal(due_date) {
        Some(a) => a,
        None => return true,
    };
    if !iso_date_in_range(today) {
        return false;
    }
    let b = match iso_to_ordinal(today) {
        Some(b) => b,
        None => return true,
    };
    let diff: i128 = a as i128 - b as i128;
    i64::MIN as i128 <= diff && diff <= i64::MAX as i128
}

/// `(year, month, day)` of an ISO date: the first three `-`-separated
/// pieces read as `i32`, `u32`, `u32` (no range check).
pub open spec fn parse_iso_spec(s: Seq<char>) -> Option<(int, int, int)> {
    let p = split_by(s, '-');
    if p.len() >= 3 && parse_i32_spec(p[0]) is Some && parse_u32_spec(p[1]) is Some
        && parse_u32_spec(p[2]) is Some {
        Some((parse_i32_spec(p[0]).unwrap(), parse_u32_spec(p[1]).unwrap(), parse_u32_spec(p[2]).unwrap()))
    } else {
        None
    }
}

/// Reads an ISO `YYYY-MM-DD` date into `(year, month, day)`.
pub fn parse_iso(iso: &str) -> (r: Option<(i32, u32, u32)>)
    ensures
        r matches Some((y, m, d)) ==> parse_iso_spec(iso@) == Some((y as int, m as int, d as int)),
        r is None ==> parse_iso_spec(iso@) is None,
{
    let cs = chars_of(iso);
    let p = split_on(cs.as_slice(), '-');
    if p.len() < 3 {
        return None;
    }
    let y = match parse_i32(p[0].as_slice()) {
        Some(v) => v,
        None => return None,
    };
    let m = match parse_u32(p[1].as_slice()) {
        Some(v) => v,
        None => return None,
    };
    let d = match parse_u32(p[2].as_slice()) {
        Some(v) => v,
        None => return None,
    };
    Some((y, m, d))
}

/// Days left never depend on the order of the arguments but for the sign.
pub proof fn lemma_days_left_antisymmetric(a: Seq<char>, b: Seq<char>)
    ensures
        days_left_spec(a, b) matches Some(n) ==> days_left_spec(b, a) == Some(-n),
        days_left_spec(a, b) is None ==> days_left_spec(b, a) is None,
{
}

/// A date is zero days from itself.
pub proof fn lemma_days_left_same_day(a: Seq<char>)
    requires
        iso_fields(a) is Some,
    ensures
        days_left_spec(a, a) == Some(0int),
{
}

/// Days left add up along a chain of dates: from `a` to `c` is from `a` to
/// `b` and on from `b` to `c`.
pub proof fn lemma_days_left_additive(a: Seq<char>, b: Seq<char>, c: Seq<char>)
    requires
        iso_fields(a) is Some,
        iso_fields(b) is Some,
        iso_fields(c) is Some,
    ensures
        days_left_spec(c, a) == Some(days_left_spec(b, a).unwrap() + days_left_spec(c, b).unwrap()),
{
}

/// The date `days` days before the valid date `(y, m, d)`, as `shift_back`
/// gives it (before the year is taken into `i32`).
pub open spec fn shifted(y: int, m: int, d: int, days: int) -> (int, int, int) {
    civil_from_ordinal(civil_ordinal(y, m, d) - days)
}

/// Moving back by 0 days stays put; moving back by `a` and then by `b` is
/// moving back by `a + b`; moving back by `a` and then by `-a` returns.
pub proof fn lemma_shift_compose(y: int, m: int, d: int, a: int, b: int)
    requires
        is_valid_date(y, m, d),
    ensures
        shifted(y, m, d, 0) == (y, m, d),
        ({
            let (y1, m1, d1) = shifted(y, m, d, a);
            &&& shifted(y1, m1, d1, b) == shifted(y, m, d, a + b)
            &&& shifted(y1, m1, d1, -a) == (y, m, d)
        }),
{
    lemma_civil_round_trip(y, m, d);
    lemma_civil_from_ordinal(civil_ordinal(y, m, d) - a);
    assert(civil_ordinal(y, m, d) - 0 == civil_ordinal(y, m, d));
    let (y1, m1, d1) = shifted(y, m, d, a);
    assert(civil_ordinal(y1, m1, d1) - b == civil_ordinal(y, m, d) - (a + b));
    assert(civil_ordinal(y1, m1, d1) - (-a) == civil_ordinal(y, m, d));
}

/// The English month abbreviations in calendar order, January first.
pub open spec fn english_month_abbrs() -> Seq<Seq<char>> {
    seq!["Jan"@, "Feb"@, "Mar"@, "Apr"@, "May"@, "Jun"@, "Jul"@, "Aug"@, "Sep"@, "Oct"@, "Nov"@, "Dec"@]
}

/// The IMAP date names month `m` by the `m`-th English abbreviation, so the
/// `SINCE` token of `imap_since` names the month of the date it stands for.
pub proof fn lemma_month_abbr_calendar_order(y: int, m: int, d: int)
    requires
        1 <= m <= 12,
    ensures
        month_abbr(m) == english_month_abbrs()[m - 1],
        imap_date_text(y, m, d) == int_text_padded(d, 2) + seq!['-'] + english_month_abbrs()[m - 1] + seq!['-'] + int_text(y),
{
}

/// Every zero-padded ISO date `YYYY-MM-DD` reads back as its year, month
/// and day (leading zeros such as `08` read as 8).
pub proof fn lemma_iso_text_fields(y: int, m: int, d: int)
    requires
        0 <= y <= i64::MAX,
        1 <= m <= 12,
        1 <= d <= 31,
    ensures
        iso_fields(iso_text(y, m, d)) == Some((y, m, d)),
        iso_day_number(iso_text(y, m, d)) == Some(civil_ordinal(y, m, d)),
{
    let a = zero_pad(nat_text(y as nat), 4);
    let b = zero_pad(nat_text(m as nat), 2);
    let c = zero_pad(nat_text(d as nat), 2);
    lemma_parse_zero_padded(y as nat, 4);
    lemma_parse_zero_padded(m as nat, 2);
    lemma_parse_zero_padded(d as nat, 2);
    let parts = seq![a, b, c];
    assert forall|i: int| 0 <= i < parts.len() implies !(#[trigger] parts[i]).contains('-') by {
        if parts[i].contains('-') {
            let j = choose|j: int| 0 <= j < parts[i].len() && parts[i][j] == '-';
            assert(crate::text::is_digit(parts[i][j]));
        }
    }
    lemma_split_by_join(parts, '-');
    assert(parts.drop_last() =~= seq![a, b]);
    assert(seq![a, b].drop_last() =~= seq![a]);
    assert(join_with(seq![a], seq!['-']) == a);
    assert(join_with(seq![a, b], seq!['-']) == a + seq!['-'] + b);
    assert(join_with(parts, seq!['-']) == a + seq!['-'] + b + seq!['-'] + c);
    assert(iso_text(y, m, d) == a + seq!['-'] + b + seq!['-'] + c);
    assert(join_with(parts, seq!['-']) =~= iso_text(y, m, d));
}

/// The days left between two zero-padded ISO dates are the difference of
/// their day numbers.
pub proof fn lemma_days_left_iso(due: (int, int, int), today: (int, int, int))
    requires
        0 <= due.0 <= i64::MAX,
        1 <= due.1 <= 12,
        1 <= due.2 <= 31,
        0 <= today.0 <= i64::MAX,
        1 <= today.1 <= 12,
        1 <= today.2 <= 31,
    ensures
        days_left_spec(iso_text(due.0, due.1, due.2), iso_text(today.0, today.1, today.2))
            == Some(civil_ordinal(due.0, due.1, due.2) - civil_ordinal(today.0, today.1, today.2)),
{
    lemma_iso_text_fields(due.0, due.1, due.2);
    lemma_iso_text_fields(today.0, today.1, today.2);
}

} // verus!
