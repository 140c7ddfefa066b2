//! Laws of the calendar: how one day follows another, and how days and moments
//! are written.

use vstd::prelude::*;
use crate::ingest::jsonl::date_order::{lemma_four_digits, lemma_two_digits};
use crate::ingest::jsonl::dates::{
    clock_text_of, current_utc_date_string, date_text_of, days_before_month, days_to_ymd,
    is_date_of, is_day, is_leap_year, law_date_unique, law_year_length, lemma_month_starts,
    month_length, names_day, utc_now_iso8601,
};
use crate::text::padded_decimal;
use crate::text_laws::{law_padding_keeps_the_number, number_in};

verus! {

/// Every fourth year is a leap year, but for the hundreds that are not every
/// fourth hundred.
pub proof fn law_leap_years(y: int)
    ensures
        y % 400 == 0 ==> is_leap_year(y),
        y % 100 == 0 && y % 400 != 0 ==> !is_leap_year(y),
        y % 4 == 0 && y % 100 != 0 ==> is_leap_year(y),
        y % 4 != 0 ==> !is_leap_year(y),
{
    if y % 400 == 0 {
        assert(y % 4 == 0);
    }
}

/// The months have their lengths, and add up to their year.
pub proof fn law_months(y: int)
    ensures
        month_length(y, 1) == 31 && month_length(y, 3) == 31 && month_length(y, 5) == 31
            && month_length(y, 7) == 31 && month_length(y, 8) == 31 && month_length(y, 10) == 31
            && month_length(y, 12) == 31,
        month_length(y, 4) == 30 && month_length(y, 6) == 30 && month_length(y, 9) == 30
            && month_length(y, 11) == 30,
        is_leap_year(y) ==> month_length(y, 2) == 29 && days_before_month(y, 13) == 366,
        !is_leap_year(y) ==> month_length(y, 2) == 28 && days_before_month(y, 13) == 365,
{
    lemma_month_starts(y);
}

/// Days are counted from the first of January 1970, and one follows the other: in
/// its month, from the last of a month to the first of the next, and from the last
/// of a year to the first of the next.
pub proof fn law_one_day_after_the_other(y: int, m: int, d: int, n: int)
    requires
        y >= 0,
    ensures
        is_day(1970, 1, 1, 0),
        is_day(y, m, d, n) && d < month_length(y, m) ==> is_day(y, m, d + 1, n + 1),
        is_day(y, m, d, n) && d == month_length(y, m) && m < 12 ==> is_day(y, m + 1, 1, n + 1),
        is_day(y, m, d, n) && d == 31 && m == 12 ==> is_day(y + 1, 1, 1, n + 1),
        is_day(y, m, d, n) ==> 1 <= m <= 12 && 1 <= d <= month_length(y, m),
{
    reveal(is_day);
    lemma_month_starts(y);
    lemma_month_starts(1970);
    lemma_month_starts(y + 1);
    law_year_length(y);
    if is_day(y, m, d, n) && m < 12 {
        assert(days_before_month(y, m + 1) == days_before_month(y, m) + month_length(y, m));
        law_months(y);
        assert(month_length(y, m + 1) >= 28);
    }
}

/// A day is written as four digits, two and two, with lines between: the year, the
/// month and the day.
pub proof fn law_day_is_written(y: nat, m: nat, d: nat)
    requires
        y < 10_000,
        m < 100,
        d < 100,
    ensures
        ({
            let t = date_text_of(y, m, d);
            &&& t.len() == 10
            &&& number_in(t.subrange(0, 4)) == y
            &&& t[4] == '-'
            &&& number_in(t.subrange(5, 7)) == m
            &&& t[7] == '-'
            &&& number_in(t.subrange(8, 10)) == d
        }),
{
    lemma_four_digits(y);
    lemma_two_digits(m);
    lemma_two_digits(d);
    law_padding_keeps_the_number(y, 4);
    law_padding_keeps_the_number(m, 2);
    law_padding_keeps_the_number(d, 2);
    reveal_strlit("-");
    assert("-"@ =~= seq!['-']);
    let t = date_text_of(y, m, d);
    assert(t.subrange(0, 4) =~= padded_decimal(y, 4));
    assert(t.subrange(5, 7) =~= padded_decimal(m, 2));
    assert(t.subrange(8, 10) =~= padded_decimal(d, 2));
}

/// A time of day is written as two digits three times, with colons between: the
/// hours, the minutes and the seconds that make it up.
pub proof fn law_time_is_written(secs: nat)
    requires
        secs < 86_400,
    ensures
        ({
            let t = clock_text_of(secs);
            let h = number_in(t.subrange(0, 2));
            let m = number_in(t.subrange(3, 5));
            let s = number_in(t.subrange(6, 8));
            &&& t.len() == 8
            &&& t[2] == ':'
            &&& t[5] == ':'
            &&& 0 <= h < 24
            &&& 0 <= m < 60
            &&& 0 <= s < 60
            &&& 3600 * h + 60 * m + s == secs
        }),
{
    let h = secs / 3600;
    let m = (secs % 3600) / 60;
    let s = secs % 60;
    lemma_two_digits(h);
    lemma_two_digits(m);
    lemma_two_digits(s);
    law_padding_keeps_the_number(h, 2);
    law_padding_keeps_the_number(m, 2);
    law_padding_keeps_the_number(s, 2);
    reveal_strlit(":");
    assert(":"@ =~= seq![':']);
    let t = clock_text_of(secs);
    assert(t.subrange(0, 2) =~= padded_decimal(h, 2));
    assert(t.subrange(3, 5) =~= padded_decimal(m, 2));
    assert(t.subrange(6, 8) =~= padded_decimal(s, 2));
}

/// The date that is worked out for a day is the one that the calendar gives it.
pub proof fn law_date_of_a_day(y: int, m: int, d: int, n: u64, r: (u32, u32, u32))
    requires
        call_ensures(days_to_ymd, (n,), r),
        n + 719468 <= u64::MAX,
        0 <= y <= u32::MAX,
        is_day(y, m, d, n as int),
    ensures
        r.0 == y,
        r.1 == m,
        r.2 == d,
{
    let found = choose|found: int| #[trigger]
        is_day(found, r.1 as int, r.2 as int, n as int) && found >= 0 && r.0 as int == found
            % 0x1_0000_0000;
    law_date_unique(y, m, d, found, r.1 as int, r.2 as int, n as int);
}

/// So is the date that is written for a moment, and the time of day behind it.
pub proof fn law_moment_is_written(
    y: int,
    m: int,
    d: int,
    secs: u64,
    date: String,
    moment: String,
)
    requires
        call_ensures(current_utc_date_string, (secs,), date),
        call_ensures(utc_now_iso8601, (secs,), moment),
        0 <= y <= u32::MAX,
        is_day(y, m, d, secs as int / 86_400),
    ensures
        date@ == date_text_of(y as nat, m as nat, d as nat),
        moment@ == date@ + "T"@ + clock_text_of((secs % 86_400) as nat) + "Z"@,
{
    let n = secs as int / 86_400;
    assert forall|text: Seq<char>| #[trigger] is_date_of(text, secs as int) implies text
        == date_text_of(y as nat, m as nat, d as nat) by {
        let (a, b, c) = choose|a: u32, b: u32, c: u32| #[trigger]
            names_day(a, b, c, secs as int / 86400) && text == date_text_of(
                a as nat,
                b as nat,
                c as nat,
            );
        let found = choose|found: int| #[trigger]
            is_day(found, b as int, c as int, n) && found >= 0 && a as int == found % 0x1_0000_0000;
        law_date_unique(y, m, d, found, b as int, c as int, n);
    }
}

} // verus!
