//! Calendar days, as texts and as numbers.

use vstd::prelude::*;
use crate::text::{padded_decimal, padded_decimal_text};

verus! {

pub open spec fn is_leap_year(y: int) -> bool {
    y % 4 == 0 && (y % 100 != 0 || y % 400 == 0)
}

pub open spec fn month_length(y: int, m: int) -> int {
    if m == 2 {
        if is_leap_year(y) {
            29
        } else {
            28
        }
    } else if m == 4 || m == 6 || m == 9 || m == 11 {
        30
    } else {
        31
    }
}

/// The days of the year before the first of a month.
pub open spec fn days_before_month(y: int, m: int) -> int
    decreases m,
{
    if m <= 1 {
        0
    } else {
        days_before_month(y, m - 1) + month_length(y, m - 1)
    }
}

/// The days from the first of January of year 0 to the first of January of `y`.
pub open spec fn days_before_year(y: int) -> int {
    365 * y + (y + 3) / 4 - (y + 99) / 100 + (y + 399) / 400
}

/// Whether the `n`-th day after the first of January 1970 is the day `d` of the
/// month `m` of the year `y`.
#[verifier::opaque]
pub open spec fn is_day(y: int, m: int, d: int, n: int) -> bool {
    &&& 1 <= m <= 12
    &&& 1 <= d <= month_length(y, m)
    &&& n == days_before_year(y) + days_before_month(y, m) + d - 1 - days_before_year(1970)
}

/// The number of days in a year is what lies between two first days.
pub proof fn law_year_length(y: int)
    requires
        y >= 0,
    ensures
        days_before_year(y + 1) - days_before_year(y) == if is_leap_year(y) {
            366int
        } else {
            365int
        },
{
    let q = y / 400;
    let r = y % 400;
    assert(y == 400 * q + r);
    assert((y + 3) / 4 == 100 * q + (r + 3) / 4);
    assert((y + 4) / 4 == 100 * q + (r + 4) / 4);
    assert((y + 99) / 100 == 4 * q + (r + 99) / 100);
    assert((y + 100) / 100 == 4 * q + (r + 100) / 100);
    assert((y + 399) / 400 == q + (r + 399) / 400);
    assert((y + 400) / 400 == q + (r + 400) / 400);
    assert(y % 4 == r % 4);
    assert(y % 100 == r % 100);
}

pub proof fn lemma_month_starts(y: int)
    ensures
        days_before_month(y, 1) == 0,
        days_before_month(y, 2) == 31,
        ({
            let f = month_length(y, 2);
            &&& days_before_month(y, 3) == 31 + f
            &&& days_before_month(y, 4) == 62 + f
            &&& days_before_month(y, 5) == 92 + f
            &&& days_before_month(y, 6) == 123 + f
            &&& days_before_month(y, 7) == 153 + f
            &&& days_before_month(y, 8) == 184 + f
            &&& days_before_month(y, 9) == 215 + f
            &&& days_before_month(y, 10) == 245 + f
            &&& days_before_month(y, 11) == 276 + f
            &&& days_before_month(y, 12) == 306 + f
            &&& days_before_month(y, 13) == 337 + f
        }),
{
    reveal_with_fuel(days_before_month, 14);
}

/// A day has one date: no two dates have the same number.
pub proof fn law_date_unique(y: int, m: int, d: int, y2: int, m2: int, d2: int, n: int)
    requires
        0 <= y,
        0 <= y2,
        is_day(y, m, d, n),
        is_day(y2, m2, d2, n),
    ensures
        y == y2,
        m == m2,
        d == d2,
{
    reveal(is_day);
    lemma_month_starts(y);
    lemma_month_starts(y2);
    if y < y2 {
        lemma_years_apart(y, m, d, y2);
        lemma_month_not_negative(y2, m2);
    } else if y2 < y {
        lemma_years_apart(y2, m2, d2, y);
        lemma_month_not_negative(y, m);
    }
    assert(y == y2);
    if m < m2 {
        lemma_months_apart(y, m, m2);
    } else if m2 < m {
        lemma_months_apart(y, m2, m);
    }
}

proof fn lemma_month_not_negative(y: int, m: int)
    ensures
        days_before_month(y, m) >= 0,
    decreases m,
{
    if m > 1 {
        lemma_month_not_negative(y, m - 1);
    }
}

proof fn lemma_months_apart(y: int, m: int, m2: int)
    requires
        1 <= m < m2,
    ensures
        days_before_month(y, m) + month_length(y, m) <= days_before_month(y, m2),
    decreases m2,
{
    if m + 1 < m2 {
        lemma_months_apart(y, m, m2 - 1);
    }
}

/// A day of a year lies before the first day of a later one.
proof fn lemma_years_apart(y: int, m: int, d: int, y2: int)
    requires
        0 <= y < y2,
        1 <= m <= 12,
        1 <= d <= month_length(y, m),
    ensures
        days_before_year(y) + days_before_month(y, m) + d - 1 < days_before_year(y2),
    decreases y2 - y,
{
    law_year_length(y2 - 1);
    if y + 1 < y2 {
        lemma_years_apart(y, m, d, y2 - 1);
    } else {
        lemma_month_starts(y);
        if m < 12 {
            lemma_months_apart(y, m, 12);
        }
    }
}

/// A day of a span of four hundred years that starts in March, split into its
/// year and the day of that year.
proof fn lemma_year_of_era(doe: int)
    requires
        0 <= doe <= 146096,
    ensures
        ({
            let yoe = (doe - doe / 1460 + doe / 36524 - doe / 146096) / 365;
            let doy = doe - (365 * yoe + yoe / 4 - yoe / 100);
            &&& 0 <= yoe <= 399
            &&& 0 <= doy <= 365
            &&& (doy == 365 ==> (yoe + 1) % 4 == 0 && ((yoe + 1) % 100 != 0 || yoe == 399))
        }),
{
    let yoe = (doe - doe / 1460 + doe / 36524 - doe / 146096) / 365;
    // The day within its century, its four years and its year.
    let c = if doe / 36524 > 3 {
        3
    } else {
        doe / 36524
    };
    let doc = doe - 36524 * c;
    assert(0 <= doc <= 36524);
    let q = if doc / 1461 > 24 {
        24
    } else {
        doc / 1461
    };
    let doq = doc - 1461 * q;
    assert(0 <= doq <= 1460);
    let a = if doq / 365 > 3 {
        3
    } else {
        doq / 365
    };
    let year = 100 * c + 4 * q + a;
    assert(yoe == year);
}

/// Whether these are the year, in thirty-two bits, the month and the day of the
/// `n`-th day after the first of January 1970.
pub open spec fn names_day(year: u32, month: u32, day: u32, n: int) -> bool {
    exists|y: int| #[trigger] is_day(y, month as int, day as int, n) && y >= 0 && year as int == y
        % 0x1_0000_0000
}

/// The number of days since the first of January 1970 as a date.
pub fn days_to_ymd(days: u64) -> (r: (u32, u32, u32))
    requires
        days + 719468 <= u64::MAX,
    ensures
        names_day(r.0, r.1, r.2, days as int),
{
    let shifted: u64 = days + 719468;
    let era: u64 = shifted / 146097;
    let doe: u64 = shifted % 146097;
    proof {
        lemma_year_of_era(doe as int);
    }
    let yoe: u64 = (doe - doe / 1460 + doe / 36524 - doe / 146096) / 365;
    let march_year: u64 = yoe + era * 400;
    let doy: u64 = doe - (365 * yoe + yoe / 4 - yoe / 100);
    let mp: u64 = (5 * doy + 2) / 153;
    let d: u64 = doy - (153 * mp + 2) / 5 + 1;
    let m: u64 = if mp < 10 {
        mp + 3
    } else {
        mp - 9
    };
    let y: u64 = if m <= 2 {
        march_year + 1
    } else {
        march_year
    };
    proof {
        lemma_march_date(era as int, yoe as int, doy as int, mp as int);
        assert(era * 146097 + doe == days + 719468);
    }
    let month: u32 = m as u32;
    let day: u32 = d as u32;
    assert(is_day(y as int, month as int, day as int, days as int));
    let year: u32 = #[verifier::truncate] (y as u32);
    assert(year == y % 0x1_0000_0000) by {
        assert((y as u32) as u64 == y % 0x1_0000_0000) by (bit_vector);
    }
    assert(names_day(year, month, day, days as int));
    (year, month, day)
}

proof fn lemma_march_date(era: int, yoe: int, doy: int, mp: int)
    requires
        0 <= era,
        0 <= yoe <= 399,
        0 <= doy <= 365,
        doy == 365 ==> (yoe + 1) % 4 == 0 && ((yoe + 1) % 100 != 0 || yoe == 399),
        mp == (5 * doy + 2) / 153,
    ensures
        0 <= mp <= 11,
        ({
            let m = if mp < 10 {
                mp + 3
            } else {
                mp - 9
            };
            let y = yoe + era * 400 + if m <= 2 {
                1int
            } else {
                0int
            };
            let d = doy - (153 * mp + 2) / 5 + 1;
            is_day(
                y,
                m,
                d,
                era * 146097 + 365 * yoe + yoe / 4 - yoe / 100 + doy - 719468,
            ) && 1 <= m <= 12 && 1 <= d <= 31
        }),
{
    let y0 = yoe + era * 400;
    lemma_first_of_march(era, yoe);
    lemma_month_starts(y0);
    lemma_month_starts(y0 + 1);
    assert(mp == 0 || mp == 1 || mp == 2 || mp == 3 || mp == 4 || mp == 5 || mp == 6 || mp == 7 || mp
        == 8 || mp == 9 || mp == 10 || mp == 11);
    reveal(is_day);
}

/// The first of March of a year, and whether the February that ends the year that
/// starts there has a leap day.
#[verifier::rlimit(50)]
proof fn lemma_first_of_march(era: int, yoe: int)
    requires
        0 <= era,
        0 <= yoe <= 399,
    ensures
        ({
            let y0 = yoe + era * 400;
            &&& days_before_year(1970) == 719528
            &&& days_before_year(y0) + days_before_month(y0, 3) == era * 146097 + 365 * yoe + yoe / 4
                - yoe / 100 + 60
            &&& days_before_year(y0 + 1) == days_before_year(y0) + if is_leap_year(y0) {
                366int
            } else {
                365int
            }
            &&& is_leap_year(y0 + 1) == ((yoe + 1) % 4 == 0 && ((yoe + 1) % 100 != 0 || yoe == 399))
        }),
{
    let y0 = yoe + era * 400;
    lemma_month_starts(y0);
    law_year_length(y0);
    assert((y0 + 3) / 4 == 100 * era + (yoe + 3) / 4);
    assert((y0 + 99) / 100 == 4 * era + (yoe + 99) / 100);
    assert((y0 + 399) / 400 == era + (yoe + 399) / 400);
    assert(y0 % 4 == yoe % 4);
    assert(y0 % 100 == yoe % 100);
    assert(y0 % 400 == yoe % 400);
    assert((y0 + 1) % 4 == (yoe + 1) % 4);
    assert((y0 + 1) % 100 == (yoe + 1) % 100);
    assert((y0 + 1) % 400 == (yoe + 1) % 400);
}

/// The date as `YYYY-MM-DD`.
pub open spec fn date_text_of(y: nat, m: nat, d: nat) -> Seq<char> {
    padded_decimal(y, 4) + "-"@ + padded_decimal(m, 2) + "-"@ + padded_decimal(d, 2)
}

pub fn date_text(y: u32, m: u32, d: u32) -> (r: String)
    ensures
        r@ == date_text_of(y as nat, m as nat, d as nat),
{
    let mut r = padded_decimal_text(y as u64, 4);
    r.append("-");
    r.append(padded_decimal_text(m as u64, 2).as_str());
    r.append("-");
    r.append(padded_decimal_text(d as u64, 2).as_str());
    r
}

/// Whether a text is the UTC date of a moment, in seconds since 1970.
pub open spec fn is_date_of(text: Seq<char>, secs: int) -> bool {
    exists|y: u32, m: u32, d: u32| #[trigger]
        names_day(y, m, d, secs / 86400) && text == date_text_of(y as nat, m as nat, d as nat)
}

/// The UTC date of a moment, given in seconds since 1970.
pub fn current_utc_date_string(secs: u64) -> (r: String)
    ensures
        is_date_of(r@, secs as int),
{
    let (y, m, d) = days_to_ymd(secs / 86400);
    date_text(y, m, d)
}

/// The time of day as `HH:MM:SS`.
pub open spec fn clock_text_of(secs_of_day: nat) -> Seq<char> {
    padded_decimal(secs_of_day / 3600, 2) + ":"@ + padded_decimal((secs_of_day % 3600) / 60, 2) + ":"@
        + padded_decimal(secs_of_day % 60, 2)
}

/// The moment as `YYYY-MM-DDTHH:MM:SSZ`, given in seconds since 1970.
pub fn utc_now_iso8601(secs: u64) -> (r: String)
    ensures
        exists|date: Seq<char>| #[trigger]
            is_date_of(date, secs as int) && r@ == date + "T"@ + clock_text_of((secs % 86400) as nat)
                + "Z"@,
{
    let mut r = current_utc_date_string(secs);
    let ghost date = r@;
    let rem: u64 = secs % 86400;
    let mut clock = padded_decimal_text(rem / 3600, 2);
    clock.append(":");
    clock.append(padded_decimal_text((rem % 3600) / 60, 2).as_str());
    clock.append(":");
    clock.append(padded_decimal_text(rem % 60, 2).as_str());
    r.append("T");
    r.append(clock.as_str());
    r.append("Z");
    assert(r@ == date + "T"@ + clock_text_of((secs % 86400) as nat) + "Z"@);
    r
}

/// The whole seconds that are left of a local day at this time of day.
pub fn secs_until_next_local_midnight(hour: u8, minute: u8, second: u8, nanosecond: u32) -> (r: u64)
    requires
        hour < 24,
        minute < 60,
        second < 60,
        nanosecond < 1_000_000_000,
    ensures
        r * 1_000_000_000 <= 86_400_000_000_000 - ((hour * 3600 + minute * 60 + second) * 1_000_000_000
            + nanosecond) < (r + 1) * 1_000_000_000,
{
    let gone: u64 = hour as u64 * 3600 + minute as u64 * 60 + second as u64;
    if nanosecond > 0 {
        86_400 - gone - 1
    } else {
        86_400 - gone
    }
}

} // verus!
