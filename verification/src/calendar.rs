//! Proleptic Gregorian calendar arithmetic on day numbers counted from
//! 1970-01-01, and the UTC timestamps shown in exports.
use vstd::prelude::*;
use crate::digits::{int_text_padded, push_int_padded};
use crate::text::{chars_of, extend_str, is_ascii_digit, string_of};

verus! {

pub open spec fn is_leap(y: int) -> bool {
    (y % 4 == 0 && y % 100 != 0) || y % 400 == 0
}

/// Days in a month of a year; zero for a month outside 1..=12.
pub open spec fn month_days(y: int, m: int) -> int {
    if m == 1 || m == 3 || m == 5 || m == 7 || m == 8 || m == 10 || m == 12 {
        31
    } else if m == 4 || m == 6 || m == 9 || m == 11 {
        30
    } else if m == 2 {
        if is_leap(y) {
            29
        } else {
            28
        }
    } else {
        0
    }
}

pub open spec fn valid_date(y: int, m: int, d: int) -> bool {
    1 <= m <= 12 && 1 <= d <= month_days(y, m)
}

/// Day number of a civil date: days since 1970-01-01.  Years are counted
/// from March, in 400-year eras of 146 097 days.
pub open spec fn civil_day_number(y: int, m: int, d: int) -> int {
    let y1 = if m <= 2 {
        y - 1
    } else {
        y
    };
    let era = y1 / 400;
    let yoe = y1 - era * 400;
    let mp = if m > 2 {
        m - 3
    } else {
        m + 9
    };
    let doy = (153 * mp + 2) / 5 + d - 1;
    let doe = yoe * 365 + yoe / 4 - yoe / 100 + doy;
    era * 146_097 + doe - 719_468
}

/// The civil date of a day number, by the inverse of the era computation.
pub open spec fn civil_of(days: int) -> (int, int, int) {
    let z = days + 719_468;
    let era = z / 146_097;
    let doe = z - era * 146_097;
    let yoe = (doe - doe / 1_460 + doe / 36_524 - doe / 146_096) / 365;
    let doy = doe - (365 * yoe + yoe / 4 - yoe / 100);
    let mp = (5 * doy + 2) / 153;
    let d = doy - (153 * mp + 2) / 5 + 1;
    let m = if mp < 10 {
        mp + 3
    } else {
        mp - 9
    };
    let y = yoe + era * 400 + if m <= 2 {
        1int
    } else {
        0
    };
    (y, m, d)
}

/// Within one era: the year of era that `civil_of` computes starts on or
/// before the day of era, and the next one starts after it (the last day of
/// the era is the leap day of its 400th year).
proof fn lemma_year_of_era(doe: int)
    requires
        0 <= doe <= 146_096,
    ensures
        ({
            let yoe = (doe - doe / 1_460 + doe / 36_524 - doe / 146_096) / 365;
            let doy = doe - (365 * yoe + yoe / 4 - yoe / 100);
            &&& 0 <= yoe <= 399
            &&& 0 <= doy <= 365
            &&& doy == 365 ==> ((yoe + 1) % 4 == 0 && ((yoe + 1) % 100 != 0 || yoe == 399))
        }),
{
    let a = doe / 1_460;
    let b = doe / 36_524;
    let c = doe / 146_096;
    let yoe = (doe - a + b - c) / 365;
    let p = yoe / 4;
    let q = yoe / 100;
    assert(0 <= yoe <= 399);
    assert(0 <= doe - (365 * yoe + p - q) <= 365);
}

/// Within a March-based year: the month and day that `civil_of` computes
/// from a day of year form a valid date.
proof fn lemma_month_of_year(doy: int, leap_feb: bool)
    requires
        0 <= doy <= 365,
        doy == 365 ==> leap_feb,
    ensures
        ({
            let mp = (5 * doy + 2) / 153;
            let d = doy - (153 * mp + 2) / 5 + 1;
            &&& 0 <= mp <= 11
            &&& 1 <= d
            &&& mp != 11 ==> d <= (153 * (mp + 1) + 2) / 5 - (153 * mp + 2) / 5
            &&& mp == 11 ==> d <= if leap_feb {
                29int
            } else {
                28
            }
            &&& (153 * mp + 2) / 5 + d - 1 == doy
        }),
{
}

/// Leap years repeat every 400 years.
proof fn lemma_leap_shift(era: int, yoe: int)
    requires
        0 <= yoe <= 399,
        (yoe + 1) % 4 == 0 && ((yoe + 1) % 100 != 0 || yoe == 399),
    ensures
        is_leap(era * 400 + yoe + 1),
{
    let y = era * 400 + yoe + 1;
    assert(y % 4 == (yoe + 1) % 4) by {
        vstd::arithmetic::div_mod::lemma_mod_multiples_vanish(era * 100, yoe + 1, 4);
        assert(era * 400 + yoe + 1 == 4 * (era * 100) + (yoe + 1));
    }
    assert(y % 100 == (yoe + 1) % 100) by {
        vstd::arithmetic::div_mod::lemma_mod_multiples_vanish(era * 4, yoe + 1, 100);
        assert(era * 400 + yoe + 1 == 100 * (era * 4) + (yoe + 1));
    }
    assert(y % 400 == (yoe + 1) % 400) by {
        vstd::arithmetic::div_mod::lemma_mod_multiples_vanish(era, yoe + 1, 400);
    }
}

/// `civil_of` gives a valid date whose day number is the one it was given.
#[verifier::rlimit(40)]
pub proof fn lemma_civil_of(days: int)
    ensures
        valid_date(civil_of(days).0, civil_of(days).1, civil_of(days).2),
        civil_day_number(civil_of(days).0, civil_of(days).1, civil_of(days).2) == days,
{
    let z = days + 719_468;
    let era = z / 146_097;
    let doe = z - era * 146_097;
    assert(0 <= doe < 146_097);
    lemma_year_of_era(doe);
    let yoe = (doe - doe / 1_460 + doe / 36_524 - doe / 146_096) / 365;
    let doy = doe - (365 * yoe + yoe / 4 - yoe / 100);
    let leap_feb = is_leap(era * 400 + yoe + 1);
    if doy == 365 {
        lemma_leap_shift(era, yoe);
    }
    lemma_month_of_year(doy, leap_feb);
    let mp = (5 * doy + 2) / 153;
    let d = doy - (153 * mp + 2) / 5 + 1;
    let m = if mp < 10 {
        mp + 3
    } else {
        mp - 9
    };
    let y = yoe + era * 400 + if m <= 2 {
        1int
    } else {
        0
    };
    assert(civil_of(days) == (y, m, d));
    assert(valid_date(y, m, d)) by {
        if mp == 11 {
            assert(m == 2);
            assert(y == era * 400 + yoe + 1);
        } else {
            assert(mp <= 10);
        }
    }
    let y1 = if m <= 2 {
        y - 1
    } else {
        y
    };
    assert(y1 == era * 400 + yoe);
    assert(y1 / 400 == era) by {
        vstd::arithmetic::div_mod::lemma_fundamental_div_mod_converse(y1, 400, era, yoe);
    }
    let mp2 = if m > 2 {
        m - 3
    } else {
        m + 9
    };
    assert(mp2 == mp);
    assert(civil_day_number(y, m, d) == era * 146_097 + (yoe * 365 + yoe / 4 - yoe / 100 + doy)
        - 719_468);
}

/// Leap years repeat every 400 years (the other way round).
proof fn lemma_leap_unshift(era: int, yoe: int)
    requires
        0 <= yoe <= 399,
        is_leap(era * 400 + yoe + 1),
    ensures
        (yoe + 1) % 4 == 0 && ((yoe + 1) % 100 != 0 || yoe == 399),
{
    let y = era * 400 + yoe + 1;
    assert(y % 4 == (yoe + 1) % 4) by {
        vstd::arithmetic::div_mod::lemma_mod_multiples_vanish(era * 100, yoe + 1, 4);
        assert(era * 400 + yoe + 1 == 4 * (era * 100) + (yoe + 1));
    }
    assert(y % 100 == (yoe + 1) % 100) by {
        vstd::arithmetic::div_mod::lemma_mod_multiples_vanish(era * 4, yoe + 1, 100);
        assert(era * 400 + yoe + 1 == 100 * (era * 4) + (yoe + 1));
    }
    assert(y % 400 == (yoe + 1) % 400) by {
        vstd::arithmetic::div_mod::lemma_mod_multiples_vanish(era, yoe + 1, 400);
    }
}

/// The year of era found from a day of era is the one the day was counted
/// in.
proof fn lemma_year_of_era_inverse(yoe: int, doy: int)
    requires
        0 <= yoe <= 399,
        0 <= doy <= 365,
        doy == 365 ==> ((yoe + 1) % 4 == 0 && ((yoe + 1) % 100 != 0 || yoe == 399)),
    ensures
        ({
            let doe = yoe * 365 + yoe / 4 - yoe / 100 + doy;
            &&& 0 <= doe <= 146_096
            &&& (doe - doe / 1_460 + doe / 36_524 - doe / 146_096) / 365 == yoe
        }),
{
}

/// The month found from a day of a March-based year is the one the day was
/// counted in.
proof fn lemma_month_of_year_inverse(mp: int, d: int, leap_feb: bool)
    requires
        0 <= mp <= 11,
        1 <= d,
        mp != 11 ==> d <= (153 * (mp + 1) + 2) / 5 - (153 * mp + 2) / 5,
        mp == 11 ==> d <= if leap_feb {
            29int
        } else {
            28
        },
    ensures
        ({
            let doy = (153 * mp + 2) / 5 + d - 1;
            &&& 0 <= doy <= 365
            &&& doy == 365 ==> leap_feb
            &&& (5 * doy + 2) / 153 == mp
        }),
{
}

/// A valid date's day number gives the date back.
#[verifier::rlimit(40)]
pub proof fn lemma_days_from_civil_inverse(y: int, m: int, d: int)
    requires
        valid_date(y, m, d),
    ensures
        civil_of(civil_day_number(y, m, d)) == (y, m, d),
{
    let y1 = if m <= 2 {
        y - 1
    } else {
        y
    };
    let era = y1 / 400;
    let yoe = y1 - era * 400;
    let mp = if m > 2 {
        m - 3
    } else {
        m + 9
    };
    let leap_feb = is_leap(era * 400 + yoe + 1);
    assert(mp == 11 ==> y == era * 400 + yoe + 1);
    assert(mp != 11 ==> d <= (153 * (mp + 1) + 2) / 5 - (153 * mp + 2) / 5) by {
        if mp != 11 {
            assert(d <= month_days(y, m));
        }
    }
    lemma_month_of_year_inverse(mp, d, leap_feb);
    let doy = (153 * mp + 2) / 5 + d - 1;
    if doy == 365 {
        lemma_leap_unshift(era, yoe);
    }
    lemma_year_of_era_inverse(yoe, doy);
    let doe = yoe * 365 + yoe / 4 - yoe / 100 + doy;
    let days = era * 146_097 + doe - 719_468;
    assert(civil_day_number(y, m, d) == days);
    let z = days + 719_468;
    assert(z / 146_097 == era) by {
        vstd::arithmetic::div_mod::lemma_fundamental_div_mod_converse(z, 146_097, era, doe);
    }
    assert(z - era * 146_097 == doe);
}

/// A date filter's day starts at midnight of that same date: the timestamp
/// that `parse_date_start_ms` gives is shown by `format_timestamp_ms` as
/// that date at 00:00:00.000.
pub proof fn lemma_date_filter_formats_back(value: Seq<char>, name: Seq<char>)
    requires
        date_start_ms(value, name) is Ok,
    ensures
        ({
            let (y, m, d) = date_parts(value)->0;
            timestamp_text(date_start_ms(value, name)->Ok_0) == iso_text(y, m, d, 0, 0, 0, 0)
        }),
{
    let (y, m, d) = date_parts(value)->0;
    let days = civil_day_number(y, m, d);
    let ms = days * 86_400_000;
    lemma_days_from_civil_inverse(y, m, d);
    assert(ms / 1000 == days * 86_400) by {
        vstd::arithmetic::div_mod::lemma_fundamental_div_mod_converse(ms, 1000, days * 86_400, 0);
    }
    assert(ms % 1000 == 0) by {
        vstd::arithmetic::div_mod::lemma_fundamental_div_mod_converse(ms, 1000, days * 86_400, 0);
    }
    assert((days * 86_400) / 86_400 == days) by {
        vstd::arithmetic::div_mod::lemma_fundamental_div_mod_converse(days * 86_400, 86_400, days, 0);
    }
    assert((days * 86_400) % 86_400 == 0) by {
        vstd::arithmetic::div_mod::lemma_fundamental_div_mod_converse(days * 86_400, 86_400, days, 0);
    }
}

pub fn is_leap_year(year: i64) -> (r: bool)
    ensures
        r == is_leap(year as int),
{
    (year % 4 == 0 && year % 100 != 0) || year % 400 == 0
}

/// `days_in_month`.
pub fn days_in_month(year: i64, month: i64) -> (r: i64)
    ensures
        r == month_days(year as int, month as int),
{
    if month == 1 || month == 3 || month == 5 || month == 7 || month == 8 || month == 10 || month
        == 12 {
        31
    } else if month == 4 || month == 6 || month == 9 || month == 11 {
        30
    } else if month == 2 {
        if is_leap_year(year) {
            29
        } else {
            28
        }
    } else {
        0
    }
}

/// Euclidean quotient and remainder by a positive divisor.
fn div_rem_euclid(x: i64, n: i64) -> (r: (i64, i64))
    requires
        n > 0,
    ensures
        r.0 == x as int / n as int,
        r.1 == x as int % n as int,
{
    if x >= 0 {
        (x / n, x % n)
    } else {
        let u = (-(x + 1)) as u64;
        let t = u / (n as u64);
        let rest = u % (n as u64);
        let q = -(t as i64) - 1;
        let rem = n - 1 - (rest as i64);
        proof {
            let xi = x as int;
            let ni = n as int;
            let ti = t as int;
            let si = rest as int;
            assert(u as int == ti * ni + si) by (nonlinear_arith)
                requires
                    ti == (u as int) / ni,
                    si == (u as int) % ni,
                    ni > 0,
            ;
            assert(xi == (q as int) * ni + (rem as int)) by (nonlinear_arith)
                requires
                    u as int == ti * ni + si,
                    xi == -(u as int) - 1,
                    q as int == -ti - 1,
                    rem as int == ni - 1 - si,
            ;
            assert(0 <= rem < n);
            vstd::arithmetic::div_mod::lemma_fundamental_div_mod_converse(
                xi,
                ni,
                q as int,
                rem as int,
            );
        }
        (q, rem)
    }
}

/// Whether the day number of a date is computed within `i64`: the day
/// number of its 400-year era's first day, the days from 0000-03-01 to the
/// date, and the day number itself.
pub open spec fn day_number_fits(y: int, m: int, d: int) -> bool {
    let era = (if m <= 2 {
        y - 1
    } else {
        y
    }) / 400;
    &&& i64::MIN <= era * 146_097
    &&& civil_day_number(y, m, d) + 719_468 <= i64::MAX
    &&& i64::MIN <= civil_day_number(y, m, d)
}

/// A year whose era begins on a day number that an `i64` holds lies far
/// above the bottom of `i64`.
proof fn lemma_era_floor(y1: int)
    requires
        i64::MIN <= (y1 / 400) * 146_097,
    ensures
        i64::MIN / 2 < y1,
{
    let era = y1 / 400;
    assert(y1 >= era * 400) by {
        vstd::arithmetic::div_mod::lemma_fundamental_div_mod(y1, 400);
    }
    assert(era * 400 > i64::MIN / 2) by (nonlinear_arith)
        requires
            i64::MIN <= era * 146_097,
    ;
}

/// The day number of a valid date: days since 1970-01-01.
pub fn days_from_civil(year: i64, month: i64, day: i64) -> (r: i64)
    requires
        valid_date(year as int, month as int, day as int),
        day_number_fits(year as int, month as int, day as int),
    ensures
        r == civil_day_number(year as int, month as int, day as int),
{
    proof {
        lemma_era_floor(if month <= 2 {
            year - 1
        } else {
            year as int
        });
    }
    let y = if month <= 2 {
        year - 1
    } else {
        year
    };
    let (era, yoe) = div_rem_euclid(y, 400);
    let mp = if month > 2 {
        month - 3
    } else {
        month + 9
    };
    let doy = (153 * mp + 2) / 5 + day - 1;
    let doe = yoe * 365 + yoe / 4 - yoe / 100 + doy;
    assert(yoe == y - era * 400);
    era * 146_097 + doe - 719_468
}

/// `civil_from_days`: the civil date of a day number.  Only shifting the
/// day number to 0000-03-01 can leave `i64`, at the top of its range.
pub fn civil_from_days(days: i64) -> (r: (i64, i64, i64))
    requires
        days + 719_468 <= i64::MAX,
    ensures
        (r.0 as int, r.1 as int, r.2 as int) == civil_of(days as int),
        valid_date(r.0 as int, r.1 as int, r.2 as int),
        civil_day_number(r.0 as int, r.1 as int, r.2 as int) == days,
{
    proof {
        lemma_civil_of(days as int);
    }
    let z = days + 719_468;
    let (era, doe) = div_rem_euclid(z, 146_097);
    assert(doe == z - era * 146_097);
    proof {
        lemma_year_of_era(doe as int);
    }
    let yoe = (doe - doe / 1_460 + doe / 36_524 - doe / 146_096) / 365;
    let doy = doe - (365 * yoe + yoe / 4 - yoe / 100);
    let mp = (5 * doy + 2) / 153;
    let d = doy - (153 * mp + 2) / 5 + 1;
    let m = if mp < 10 {
        mp + 3
    } else {
        mp - 9
    };
    let y = yoe + era * 400 + if m <= 2 {
        1
    } else {
        0
    };
    (y, m, d)
}

/// `YYYY-MM-DDTHH:MM:SS.mmmZ` for the given fields.
pub open spec fn iso_text(y: int, m: int, d: int, h: int, mi: int, s: int, ms: int) -> Seq<char> {
    int_text_padded(y, 4) + "-"@ + int_text_padded(m, 2) + "-"@ + int_text_padded(d, 2) + "T"@
        + int_text_padded(h, 2) + ":"@ + int_text_padded(mi, 2) + ":"@ + int_text_padded(s, 2)
        + "."@ + int_text_padded(ms, 3) + "Z"@
}

/// The text `format_timestamp_ms` gives: the UTC date and time of a
/// millisecond Unix timestamp.
pub open spec fn timestamp_text(ms: int) -> Seq<char> {
    let seconds = ms / 1000;
    let days = seconds / 86_400;
    let day_seconds = seconds % 86_400;
    let (y, m, d) = civil_of(days);
    iso_text(y, m, d, day_seconds / 3600, (day_seconds % 3600) / 60, day_seconds % 60, ms % 1000)
}

fn iso_string(y: i64, m: i64, d: i64, h: i64, mi: i64, s: i64, ms: i64) -> (r: String)
    ensures
        r@ == iso_text(y as int, m as int, d as int, h as int, mi as int, s as int, ms as int),
{
    let mut out: Vec<char> = Vec::new();
    push_int_padded(&mut out, y, 4);
    out.push('-');
    push_int_padded(&mut out, m, 2);
    out.push('-');
    push_int_padded(&mut out, d, 2);
    out.push('T');
    push_int_padded(&mut out, h, 2);
    out.push(':');
    push_int_padded(&mut out, mi, 2);
    out.push(':');
    push_int_padded(&mut out, s, 2);
    out.push('.');
    push_int_padded(&mut out, ms, 3);
    out.push('Z');
    proof {
        reveal_strlit("-");
        reveal_strlit("T");
        reveal_strlit(":");
        reveal_strlit(".");
        reveal_strlit("Z");
    }
    assert(out@ =~= iso_text(y as int, m as int, d as int, h as int, mi as int, s as int, ms as int));
    string_of(&out)
}

/// `format_timestamp_ms`: a millisecond Unix timestamp as UTC ISO 8601.
pub fn format_timestamp_ms(timestamp_ms: i64) -> (r: String)
    ensures
        r@ == timestamp_text(timestamp_ms as int),
{
    let (seconds, millis) = div_rem_euclid(timestamp_ms, 1000);
    let (days, day_seconds) = div_rem_euclid(seconds, 86_400);
    let (year, month, day) = civil_from_days(days);
    let hours = day_seconds / 3_600;
    let minutes = (day_seconds % 3_600) / 60;
    let secs = day_seconds % 60;
    iso_string(year, month, day, hours, minutes, secs, millis)
}


// ---------------------------------------------------------------------------
// Date filters
// ---------------------------------------------------------------------------

/// The value of a string of ASCII digits.
pub open spec fn digits_value(s: Seq<char>) -> int
    decreases s.len(),
{
    if s.len() == 0 {
        0
    } else {
        digits_value(s.drop_last()) * 10 + (s.last() as int - '0' as int)
    }
}

pub open spec fn all_digits(s: Seq<char>) -> bool {
    forall|i: int| 0 <= i < s.len() ==> #[trigger] is_ascii_digit(s[i])
}

/// What `str::parse::<i64>` answers: an optional sign, then one or more
/// ASCII digits, whose value fits an `i64`.
pub open spec fn parse_i64(s: Seq<char>) -> Option<int> {
    let neg = s.len() > 0 && s[0] == '-';
    let body = if s.len() > 0 && (s[0] == '+' || s[0] == '-') {
        s.drop_first()
    } else {
        s
    };
    let v = if neg {
        -digits_value(body)
    } else {
        digits_value(body)
    };
    if body.len() == 0 || !all_digits(body) || v < i64::MIN || v > i64::MAX {
        None
    } else {
        Some(v)
    }
}

/// `s` cut at every occurrence of `sep`, as `str::split` does.
pub open spec fn split_on(s: Seq<char>, sep: char) -> Seq<Seq<char>>
    decreases s.len(),
{
    if s.len() == 0 {
        seq![Seq::empty()]
    } else {
        let p = split_on(s.drop_last(), sep);
        if s.last() == sep {
            p.push(Seq::empty())
        } else {
            p.update(p.len() - 1, p.last().push(s.last()))
        }
    }
}

pub proof fn lemma_split_on_nonempty(s: Seq<char>, sep: char)
    ensures
        split_on(s, sep).len() >= 1,
    decreases s.len(),
{
    if s.len() > 0 {
        lemma_split_on_nonempty(s.drop_last(), sep);
    }
}

/// What `parse_date_parts` answers: three `-`-separated integers.
pub open spec fn date_parts(value: Seq<char>) -> Option<(int, int, int)> {
    let p = split_on(value, '-');
    if p.len() != 3 {
        None
    } else {
        match (parse_i64(p[0]), parse_i64(p[1]), parse_i64(p[2])) {
            (Some(y), Some(m), Some(d)) => Some((y, m, d)),
            _ => None,
        }
    }
}

proof fn lemma_digits_value_prefix(s: Seq<char>, i: int)
    requires
        0 <= i <= s.len(),
        all_digits(s),
    ensures
        0 <= digits_value(s.take(i)) <= digits_value(s),
    decreases s.len(),
{
    if i < s.len() {
        assert(s.drop_last().take(i) =~= s.take(i));
        assert(all_digits(s.drop_last())) by {
            assert forall|k: int| 0 <= k < s.drop_last().len() implies #[trigger] is_ascii_digit(
                s.drop_last()[k],
            ) by {
                assert(is_ascii_digit(s[k]));
            }
        }
        lemma_digits_value_prefix(s.drop_last(), i);
        assert(is_ascii_digit(s[s.len() - 1]));
    } else {
        assert(s.take(i) =~= s);
        if s.len() > 0 {
            assert(all_digits(s.drop_last())) by {
                assert forall|k: int| 0 <= k < s.drop_last().len() implies #[trigger] is_ascii_digit(
                    s.drop_last()[k],
                ) by {
                    assert(is_ascii_digit(s[k]));
                }
            }
            lemma_digits_value_prefix(s.drop_last(), i - 1);
            assert(s.drop_last().take(i - 1) =~= s.drop_last());
            assert(is_ascii_digit(s[s.len() - 1]));
        }
    }
}

/// `str::parse::<i64>` on characters.
pub fn parse_i64_chars(s: &Vec<char>) -> (r: Option<i64>)
    ensures
        match r {
            Some(v) => parse_i64(s@) == Some(v as int),
            None => parse_i64(s@) is None,
        },
{
    let n = s.len();
    let neg = n > 0 && s[0] == '-';
    let start: usize = if n > 0 && (s[0] == '+' || s[0] == '-') {
        1
    } else {
        0
    };
    let ghost body = s@.subrange(start as int, n as int);
    assert(body =~= if n > 0 && (s@[0] == '+' || s@[0] == '-') {
        s@.drop_first()
    } else {
        s@
    });
    if start == n {
        return None;
    }
    let limit: u64 = if neg {
        9_223_372_036_854_775_808
    } else {
        9_223_372_036_854_775_807
    };
    let mut acc: u64 = 0;
    let mut i = start;
    while i < n
        invariant
            start <= i <= n == s@.len(),
            body == s@.subrange(start as int, n as int),
            all_digits(body.take(i - start)),
            acc as int == digits_value(body.take(i - start)),
            acc <= limit,
            body == if n > 0 && (s@[0] == '+' || s@[0] == '-') {
                s@.drop_first()
            } else {
                s@
            },
            neg == (n > 0 && s@[0] == '-'),
            limit == if neg {
                9_223_372_036_854_775_808u64
            } else {
                9_223_372_036_854_775_807u64
            },
        decreases n - i,
    {
        let c = s[i];
        let ghost t = body.take(i - start + 1);
        assert(t.drop_last() =~= body.take(i - start));
        assert(t.last() == c);
        assert(body[i - start] == s@[i as int]);
        if !('0' <= c && c <= '9') {
            proof {
                assert(!is_ascii_digit(body[i - start]));
                assert(!all_digits(body));
            }
            return None;
        }
        let dv = (c as u64) - 48;
        assert(dv <= 9);
        assert(dv as int == c as int - '0' as int);
        if acc > (limit - dv) / 10 {
            proof {
                assert(all_digits(t)) by {
                    assert forall|k: int| 0 <= k < t.len() implies #[trigger] is_ascii_digit(t[k]) by {
                        if k < t.len() - 1 {
                            assert(is_ascii_digit(body.take(i - start)[k]));
                        }
                    }
                }
                assert(digits_value(t) > limit) by (nonlinear_arith)
                    requires
                        digits_value(t) == acc * 10 + dv,
                        acc > (limit - dv) / 10,
                        dv <= 9,
                        dv <= limit,
                ;
                if all_digits(body) {
                    lemma_digits_value_prefix(body, i - start + 1);
                }
            }
            return None;
        }
        acc = acc * 10 + dv;
        proof {
            assert(all_digits(t)) by {
                assert forall|k: int| 0 <= k < t.len() implies #[trigger] is_ascii_digit(t[k]) by {
                    if k < t.len() - 1 {
                        assert(is_ascii_digit(body.take(i - start)[k]));
                    }
                }
            }
        }
        i = i + 1;
    }
    assert(body.take(n - start) =~= body);
    if neg {
        if acc == 9_223_372_036_854_775_808 {
            Some(i64::MIN)
        } else {
            Some(-(acc as i64))
        }
    } else {
        Some(acc as i64)
    }
}

/// `parse_date_parts`.
pub fn parse_date_parts(value: &str) -> (r: Option<(i64, i64, i64)>)
    ensures
        match r {
            Some((y, m, d)) => date_parts(value@) == Some((y as int, m as int, d as int)),
            None => date_parts(value@) is None,
        },
{
    let v = chars_of(value);
    let mut parts: Vec<Vec<char>> = Vec::new();
    let mut current: Vec<char> = Vec::new();
    let mut i: usize = 0;
    while i < v.len()
        invariant
            i <= v@.len(),
            v@ == value@,
            parts@.map_values(|p: Vec<char>| p@).push(current@) == split_on(v@.take(i as int), '-'),
        decreases v@.len() - i,
    {
        let ghost t = v@.take(i as int + 1);
        assert(t.drop_last() =~= v@.take(i as int));
        let ghost before = parts@.map_values(|p: Vec<char>| p@).push(current@);
        if v[i] == '-' {
            let done = current;
            parts.push(done);
            current = Vec::new();
            assert(parts@.map_values(|p: Vec<char>| p@).push(current@) =~= before.push(
                Seq::empty(),
            ));
        } else {
            current.push(v[i]);
            assert(parts@.map_values(|p: Vec<char>| p@).push(current@) =~= before.update(
                before.len() - 1,
                before.last().push(v@[i as int]),
            ));
        }
        i = i + 1;
    }
    assert(v@.take(v@.len() as int) =~= v@);
    parts.push(current);
    let ghost p = parts@.map_values(|p: Vec<char>| p@);
    assert(p == split_on(value@, '-'));
    if parts.len() != 3 {
        return None;
    }
    let y = parse_i64_chars(&parts[0]);
    let m = parse_i64_chars(&parts[1]);
    let d = parse_i64_chars(&parts[2]);
    assert(p[0] == parts@[0]@ && p[1] == parts@[1]@ && p[2] == parts@[2]@);
    match (y, m, d) {
        (Some(y), Some(m), Some(d)) => Some((y, m, d)),
        _ => None,
    }
}

/// The message of a refused date filter.
pub open spec fn date_filter_error(name: Seq<char>) -> Seq<char> {
    "Invalid "@ + name + ": date. Use "@ + name + ":YYYY-MM-DD."@
}

/// Dates whose start in milliseconds an `i64` holds.
pub open spec fn date_in_range(y: int, m: int, d: int) -> bool {
    i64::MIN <= civil_day_number(y, m, d) * 86_400_000 <= i64::MAX
}

/// The day number of a valid date lies within its era: between the era's
/// first day and 146 096 days later, less the shift to 1970-01-01.
proof fn lemma_day_number_in_era(y: int, m: int, d: int)
    requires
        valid_date(y, m, d),
    ensures
        ({
            let era = (if m <= 2 {
                y - 1
            } else {
                y
            }) / 400;
            era * 146_097 - 719_468 <= civil_day_number(y, m, d) <= era * 146_097 + 146_096
                - 719_468
        }),
{
    let y1 = if m <= 2 {
        y - 1
    } else {
        y
    };
    let era = y1 / 400;
    let yoe = y1 - era * 400;
    assert(0 <= yoe < 400) by {
        vstd::arithmetic::div_mod::lemma_fundamental_div_mod(y1, 400);
    }
    let mp = if m > 2 {
        m - 3
    } else {
        m + 9
    };
    assert(0 <= (153 * mp + 2) / 5 <= 337);
    assert(0 <= yoe * 365 + yoe / 4 - yoe / 100 <= 145_731) by (nonlinear_arith)
        requires
            0 <= yoe < 400,
    ;
}

/// A valid date whose start in milliseconds fits an `i64` has a day number
/// computed within `i64`, and a year far inside `i64`.
proof fn lemma_in_range_fits(y: int, m: int, d: int)
    requires
        valid_date(y, m, d),
        date_in_range(y, m, d),
    ensures
        day_number_fits(y, m, d),
        -1_000_000_000_000 <= y <= 1_000_000_000_000,
{
    lemma_day_number_in_era(y, m, d);
    let y1 = if m <= 2 {
        y - 1
    } else {
        y
    };
    let era = y1 / 400;
    assert(y1 < era * 400 + 400 && era * 400 <= y1) by {
        vstd::arithmetic::div_mod::lemma_fundamental_div_mod(y1, 400);
    }
}

/// A date filter value is in range unless it names a valid date whose start
/// an `i64` cannot hold.
pub open spec fn date_filter_in_range(value: Seq<char>) -> bool {
    match date_parts(value) {
        Some((y, m, d)) => valid_date(y, m, d) ==> date_in_range(y, m, d),
        None => true,
    }
}

/// Whether a date filter value is in range (see `date_filter_in_range`).
pub fn date_filter_fits(value: &str) -> (r: bool)
    ensures
        r == date_filter_in_range(value@),
{
    let (year, month, day) = match parse_date_parts(value) {
        Some(p) => p,
        None => {
            return true;
        },
    };
    if !(1 <= month && month <= 12) {
        return true;
    }
    let max_day = days_in_month(year, month);
    if day < 1 || day > max_day {
        return true;
    }
    if !(-1_000_000_000_000 <= year && year <= 1_000_000_000_000) {
        proof {
            if date_in_range(year as int, month as int, day as int) {
                lemma_in_range_fits(year as int, month as int, day as int);
            }
        }
        return false;
    }
    proof {
        lemma_day_number_in_era(year as int, month as int, day as int);
    }
    let days = days_from_civil(year, month, day);
    let ms: i128 = days as i128 * 86_400_000;
    ms >= i64::MIN as i128 && ms <= i64::MAX as i128
}

/// What `parse_date_start_ms` answers: the start of the named UTC day in
/// milliseconds, or the filter's error.
pub open spec fn date_start_ms(value: Seq<char>, name: Seq<char>) -> Result<int, Seq<char>> {
    match date_parts(value) {
        Some((y, m, d)) => if valid_date(y, m, d) {
            Ok(civil_day_number(y, m, d) * 86_400_000)
        } else {
            Err(date_filter_error(name))
        },
        None => Err(date_filter_error(name)),
    }
}

pub open spec fn int_result_view(r: Result<i64, String>) -> Result<int, Seq<char>> {
    match r {
        Ok(v) => Ok(v as int),
        Err(e) => Err(e@),
    }
}

fn date_filter_error_exec(name: &str) -> (r: String)
    ensures
        r@ == date_filter_error(name@),
{
    let mut out = chars_of("Invalid ");
    extend_str(&mut out, name);
    extend_str(&mut out, ": date. Use ");
    extend_str(&mut out, name);
    extend_str(&mut out, ":YYYY-MM-DD.");
    string_of(&out)
}

/// `parse_date_start_ms`: a `YYYY-MM-DD` filter value as the first
/// millisecond of that UTC day.
pub fn parse_date_start_ms(value: &str, filter_name: &str) -> (r: Result<i64, String>)
    requires
        date_filter_in_range(value@),
    ensures
        int_result_view(r) == date_start_ms(value@, filter_name@),
{
    let (year, month, day) = match parse_date_parts(value) {
        Some(p) => p,
        None => {
            return Err(date_filter_error_exec(filter_name));
        },
    };
    if !(1 <= month && month <= 12) {
        return Err(date_filter_error_exec(filter_name));
    }
    let max_day = days_in_month(year, month);
    if day < 1 || day > max_day {
        return Err(date_filter_error_exec(filter_name));
    }
    proof {
        lemma_in_range_fits(year as int, month as int, day as int);
    }
    let days = days_from_civil(year, month, day);
    Ok(days * 86_400_000)
}

} // verus!
