//! The order of days is the order of their texts.

use vstd::prelude::*;
use crate::ingest::jsonl::dates::date_text_of;
use crate::text::{decimal, digit_char, lemma_not_before_itself, padded_decimal, text_before};

verus! {

pub proof fn lemma_two_digits(n: nat)
    requires
        n < 100,
    ensures
        padded_decimal(n, 2) == seq![digit_char(n / 10), digit_char(n % 10)],
{
    reveal_with_fuel(decimal, 3);
    assert(padded_decimal(n, 2) =~= seq![digit_char(n / 10), digit_char(n % 10)]);
}

pub proof fn lemma_four_digits(n: nat)
    requires
        n < 10000,
    ensures
        padded_decimal(n, 4) == seq![
            digit_char(n / 1000),
            digit_char(n / 100 % 10),
            digit_char(n / 10 % 10),
            digit_char(n % 10),
        ],
{
    reveal_with_fuel(decimal, 5);
    assert(n / 10 / 10 == n / 100 && n / 10 / 10 / 10 == n / 1000);
    assert(padded_decimal(n, 4) =~= seq![
        digit_char(n / 1000),
        digit_char(n / 100 % 10),
        digit_char(n / 10 % 10),
        digit_char(n % 10),
    ]);
}

proof fn lemma_first_difference(a: Seq<char>, b: Seq<char>, k: int)
    requires
        0 <= k < a.len(),
        k < b.len(),
        forall|i: int| 0 <= i < k ==> a[i] == b[i],
        a[k] != b[k],
    ensures
        text_before(a, b) == ((a[k] as u32) < (b[k] as u32)),
    decreases k,
{
    if k > 0 {
        let x = a.subrange(1, a.len() as int);
        let y = b.subrange(1, b.len() as int);
        assert(forall|i: int| 0 <= i < k - 1 ==> x[i] == a[i + 1] && y[i] == b[i + 1]);
        lemma_first_difference(x, y, k - 1);
    }
}

/// The character of a digit.
#[verifier::opaque]
spec fn digit(d: nat) -> char {
    digit_char(d)
}

/// The ten characters of a date.
spec fn date_chars(y: nat, m: nat, d: nat) -> Seq<char> {
    seq![
        digit(y / 1000),
        digit(y / 100 % 10),
        digit(y / 10 % 10),
        digit(y % 10),
        '-',
        digit(m / 10),
        digit(m % 10),
        '-',
        digit(d / 10),
        digit(d % 10),
    ]
}

proof fn lemma_date_chars(y: nat, m: nat, d: nat)
    requires
        y < 10000,
        m < 100,
        d < 100,
    ensures
        date_text_of(y, m, d) == date_chars(y, m, d),
{
    lemma_four_digits(y);
    lemma_two_digits(m);
    lemma_two_digits(d);
    reveal_strlit("-");
    reveal(digit);
    assert(date_text_of(y, m, d) =~= date_chars(y, m, d));
}

proof fn lemma_digit_order(a: nat, b: nat)
    requires
        a < b < 10,
    ensures
        (digit(a) as u32) < (digit(b) as u32),
{
    reveal(digit);
}

/// The first place where the digits of two years differ.
proof fn lemma_year_digits(y: nat, y2: nat) -> (k: int)
    requires
        y < y2 < 10000,
    ensures
        0 <= k < 4,
        k >= 1 ==> y / 1000 == y2 / 1000,
        k >= 2 ==> y / 100 % 10 == y2 / 100 % 10,
        k >= 3 ==> y / 10 % 10 == y2 / 10 % 10,
        k == 0 ==> y / 1000 < y2 / 1000,
        k == 1 ==> y / 100 % 10 < y2 / 100 % 10,
        k == 2 ==> y / 10 % 10 < y2 / 10 % 10,
        k == 3 ==> y % 10 < y2 % 10,
{
    if y / 1000 != y2 / 1000 {
        0
    } else if y / 100 % 10 != y2 / 100 % 10 {
        assert(y / 100 / 10 == y / 1000 && y2 / 100 / 10 == y2 / 1000);
        1
    } else if y / 10 % 10 != y2 / 10 % 10 {
        assert(y / 100 / 10 == y / 1000 && y2 / 100 / 10 == y2 / 1000);
        assert(y / 10 / 10 == y / 100 && y2 / 10 / 10 == y2 / 100);
        2
    } else {
        assert(y / 100 / 10 == y / 1000 && y2 / 100 / 10 == y2 / 1000);
        assert(y / 10 / 10 == y / 100 && y2 / 10 / 10 == y2 / 100);
        3
    }
}

proof fn lemma_smaller_char(a: Seq<char>, b: Seq<char>, k: int)
    requires
        0 <= k < a.len(),
        k < b.len(),
        forall|i: int| 0 <= i < k ==> a[i] == b[i],
        (a[k] as u32) < (b[k] as u32),
    ensures
        text_before(a, b),
        !text_before(b, a),
{
    lemma_first_difference(a, b, k);
    lemma_first_difference(b, a, k);
}

proof fn lemma_earlier_year(y: nat, m: nat, d: nat, y2: nat, m2: nat, d2: nat)
    requires
        y < y2 < 10000,
    ensures
        text_before(date_chars(y, m, d), date_chars(y2, m2, d2)),
        !text_before(date_chars(y2, m2, d2), date_chars(y, m, d)),
{
    let a = date_chars(y, m, d);
    let b = date_chars(y2, m2, d2);
    let k = lemma_year_digits(y, y2);
    if k == 0 {
        lemma_digit_order(y / 1000, y2 / 1000);
        lemma_smaller_char(a, b, 0);
    } else if k == 1 {
        lemma_digit_order(y / 100 % 10, y2 / 100 % 10);
        lemma_smaller_char(a, b, 1);
    } else if k == 2 {
        lemma_digit_order(y / 10 % 10, y2 / 10 % 10);
        lemma_smaller_char(a, b, 2);
    } else {
        lemma_digit_order(y % 10, y2 % 10);
        lemma_smaller_char(a, b, 3);
    }
}

proof fn lemma_earlier_month(y: nat, m: nat, d: nat, m2: nat, d2: nat)
    requires
        m < m2 < 100,
    ensures
        text_before(date_chars(y, m, d), date_chars(y, m2, d2)),
        !text_before(date_chars(y, m2, d2), date_chars(y, m, d)),
{
    let a = date_chars(y, m, d);
    let b = date_chars(y, m2, d2);
    if m / 10 < m2 / 10 {
        lemma_digit_order(m / 10, m2 / 10);
        lemma_smaller_char(a, b, 5);
    } else {
        assert(m / 10 == m2 / 10);
        lemma_digit_order(m % 10, m2 % 10);
        lemma_smaller_char(a, b, 6);
    }
}

proof fn lemma_earlier_day(y: nat, m: nat, d: nat, d2: nat)
    requires
        d < d2 < 100,
    ensures
        text_before(date_chars(y, m, d), date_chars(y, m, d2)),
        !text_before(date_chars(y, m, d2), date_chars(y, m, d)),
{
    let a = date_chars(y, m, d);
    let b = date_chars(y, m, d2);
    if d / 10 < d2 / 10 {
        lemma_digit_order(d / 10, d2 / 10);
        lemma_smaller_char(a, b, 8);
    } else {
        assert(d / 10 == d2 / 10);
        lemma_digit_order(d % 10, d2 % 10);
        lemma_smaller_char(a, b, 9);
    }
}

/// Dates are ordered as their texts are, as long as years have four digits.
pub proof fn law_dates_are_ordered_as_texts(y: nat, m: nat, d: nat, y2: nat, m2: nat, d2: nat)
    requires
        y < 10000,
        y2 < 10000,
        1 <= m <= 12,
        1 <= m2 <= 12,
        1 <= d <= 31,
        1 <= d2 <= 31,
    ensures
        text_before(date_text_of(y, m, d), date_text_of(y2, m2, d2)) <==> y < y2 || (y == y2 && (m
            < m2 || (m == m2 && d < d2))),
{
    lemma_date_chars(y, m, d);
    lemma_date_chars(y2, m2, d2);
    if y < y2 {
        lemma_earlier_year(y, m, d, y2, m2, d2);
    } else if y2 < y {
        lemma_earlier_year(y2, m2, d2, y, m, d);
    } else if m < m2 {
        lemma_earlier_month(y, m, d, m2, d2);
    } else if m2 < m {
        lemma_earlier_month(y, m2, d2, m, d);
    } else if d < d2 {
        lemma_earlier_day(y, m, d, d2);
    } else if d2 < d {
        lemma_earlier_day(y, m, d2, d);
    } else {
        lemma_not_before_itself(date_text_of(y, m, d));
    }
}

} // verus!
