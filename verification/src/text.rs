//! Text operations on character sequences: trimming, searching, slicing and
//! decimal rendering.

use vstd::prelude::*;
use vstd::utf8::{encode_utf8, encode_utf8_decode_utf8};

verus! {

/// Whether `c` has the Unicode `White_Space` property.
pub open spec fn is_white_space(c: char) -> bool {
    let n = c as u32;
    ||| 0x9 <= n <= 0xd
    ||| n == 0x20
    ||| n == 0x85
    ||| n == 0xa0
    ||| n == 0x1680
    ||| 0x2000 <= n <= 0x200a
    ||| n == 0x2028
    ||| n == 0x2029
    ||| n == 0x202f
    ||| n == 0x205f
    ||| n == 0x3000
}

/// `s` without its leading white space.
pub open spec fn trim_start_of(s: Seq<char>) -> Seq<char>
    decreases s.len(),
{
    if s.len() > 0 && is_white_space(s[0]) {
        trim_start_of(s.subrange(1, s.len() as int))
    } else {
        s
    }
}

/// `s` without its trailing white space.
pub open spec fn trim_end_of(s: Seq<char>) -> Seq<char>
    decreases s.len(),
{
    if s.len() > 0 && is_white_space(s.last()) {
        trim_end_of(s.drop_last())
    } else {
        s
    }
}

/// `s` without white space at either end.
pub open spec fn trim_of(s: Seq<char>) -> Seq<char> {
    trim_end_of(trim_start_of(s))
}

/// `s` without the run of `c` at its end.
pub open spec fn trim_end_char_of(s: Seq<char>, c: char) -> Seq<char>
    decreases s.len(),
{
    if s.len() > 0 && s.last() == c {
        trim_end_char_of(s.drop_last(), c)
    } else {
        s
    }
}

pub open spec fn has_prefix(s: Seq<char>, prefix: Seq<char>) -> bool {
    prefix.len() <= s.len() && s.subrange(0, prefix.len() as int) == prefix
}

pub open spec fn has_suffix(s: Seq<char>, suffix: Seq<char>) -> bool {
    suffix.len() <= s.len() && s.subrange(s.len() - suffix.len(), s.len() as int) == suffix
}

/// Whether `needle` stands in `s` as a block.
pub open spec fn has_block(s: Seq<char>, needle: Seq<char>) -> bool {
    exists|i: int| #[trigger] block_at(s, needle, i)
}

pub open spec fn block_at(s: Seq<char>, needle: Seq<char>, i: int) -> bool {
    0 <= i <= s.len() - needle.len() && s.subrange(i, i + needle.len()) == needle
}

/// The first position of `c` in `s`, or the length of `s` without one.
pub open spec fn first_index(s: Seq<char>, c: char) -> nat
    decreases s.len(),
{
    if s.len() == 0 || s[0] == c {
        0
    } else {
        1 + first_index(s.subrange(1, s.len() as int), c)
    }
}

/// The position behind the last `c` in `s`, or zero without one.
pub open spec fn last_end(s: Seq<char>, c: char) -> nat
    decreases s.len(),
{
    if s.len() == 0 || s.last() == c {
        s.len()
    } else {
        last_end(s.drop_last(), c)
    }
}

/// The texts between the occurrences of `c`.
pub open spec fn pieces(s: Seq<char>, c: char) -> Seq<Seq<char>>
    decreases s.len(),
{
    let n = first_index(s, c);
    if n >= s.len() {
        seq![s]
    } else {
        seq![s.subrange(0, n as int)] + pieces(s.subrange(n as int + 1, s.len() as int), c)
    }
}

/// At most `max` pieces; the last one keeps what is left.
pub open spec fn pieces_up_to(s: Seq<char>, c: char, max: nat) -> Seq<Seq<char>>
    decreases max,
{
    let n = first_index(s, c);
    if n >= s.len() || max <= 1 {
        seq![s]
    } else {
        seq![s.subrange(0, n as int)] + pieces_up_to(
            s.subrange(n as int + 1, s.len() as int),
            c,
            (max - 1) as nat,
        )
    }
}

/// The texts of a list of strings.
pub open spec fn texts_of(v: Seq<String>) -> Seq<Seq<char>> {
    v.map_values(|t: String| t@)
}

/// The text before the first line feed, without the carriage return that may
/// stand directly before that line feed.
pub open spec fn first_line_of(s: Seq<char>) -> Seq<char> {
    let n = first_index(s, '\n');
    if n < s.len() && n > 0 && s[n - 1] == '\r' {
        s.subrange(0, n - 1)
    } else {
        s.subrange(0, n as int)
    }
}

/// At most `max` leading characters.
pub open spec fn take_of(s: Seq<char>, max: nat) -> Seq<char> {
    if s.len() <= max {
        s
    } else {
        s.subrange(0, max as int)
    }
}

/// At most `max` leading characters, followed by an ellipsis where characters
/// were cut off.
pub open spec fn ellipsis_of(s: Seq<char>, max: nat) -> Seq<char> {
    if s.len() <= max {
        s
    } else {
        s.subrange(0, max as int).push('…')
    }
}

pub open spec fn digit_char(d: nat) -> char {
    if d == 0 {
        '0'
    } else if d == 1 {
        '1'
    } else if d == 2 {
        '2'
    } else if d == 3 {
        '3'
    } else if d == 4 {
        '4'
    } else if d == 5 {
        '5'
    } else if d == 6 {
        '6'
    } else if d == 7 {
        '7'
    } else if d == 8 {
        '8'
    } else {
        '9'
    }
}

/// The decimal digits of `n`, most significant first.
pub open spec fn decimal(n: nat) -> Seq<char>
    decreases n,
{
    if n < 10 {
        seq![digit_char(n)]
    } else {
        decimal(n / 10).push(digit_char(n % 10))
    }
}

/// The decimal digits of `n`, filled up with leading zeros to `width`.
pub open spec fn padded_decimal(n: nat, width: nat) -> Seq<char> {
    let d = decimal(n);
    if d.len() < width {
        Seq::new((width - d.len()) as nat, |i: int| '0') + d
    } else {
        d
    }
}

// ---------------------------------------------------------------------------
// Facts about the sequences above.

pub proof fn lemma_first_index(s: Seq<char>, c: char)
    ensures
        first_index(s, c) <= s.len(),
        forall|i: int| 0 <= i < first_index(s, c) ==> s[i] != c,
        first_index(s, c) < s.len() ==> s[first_index(s, c) as int] == c,
    decreases s.len(),
{
    if s.len() == 0 || s[0] == c {
    } else {
        let rest = s.subrange(1, s.len() as int);
        lemma_first_index(rest, c);
        assert forall|i: int| 0 <= i < first_index(s, c) implies s[i] != c by {
            if i > 0 {
                assert(rest[i - 1] == s[i]);
            }
        }
    }
}

/// The position of the first `c` is the only one that has a `c` and none
/// before it.
pub proof fn lemma_first_index_unique(s: Seq<char>, c: char, n: nat)
    requires
        n <= s.len(),
        forall|i: int| 0 <= i < n ==> s[i] != c,
        n < s.len() ==> s[n as int] == c,
    ensures
        first_index(s, c) == n,
{
    lemma_first_index(s, c);
    let m = first_index(s, c);
    if m < n {
        assert(s[m as int] != c);
    } else if n < m {
        assert(s[n as int] != c);
    }
}

pub proof fn lemma_last_end(s: Seq<char>, c: char)
    ensures
        last_end(s, c) <= s.len(),
        forall|i: int| last_end(s, c) <= i < s.len() ==> s[i] != c,
        last_end(s, c) > 0 ==> s[last_end(s, c) - 1] == c,
    decreases s.len(),
{
    if s.len() == 0 || s.last() == c {
    } else {
        lemma_last_end(s.drop_last(), c);
        assert forall|i: int| last_end(s, c) <= i < s.len() implies s[i] != c by {
            if i < s.len() - 1 {
                assert(s.drop_last()[i] == s[i]);
            }
        }
    }
}

pub proof fn lemma_last_end_unique(s: Seq<char>, c: char, n: nat)
    requires
        n <= s.len(),
        forall|i: int| n <= i < s.len() ==> s[i] != c,
        n > 0 ==> s[n - 1] == c,
    ensures
        last_end(s, c) == n,
{
    lemma_last_end(s, c);
    let m = last_end(s, c);
    if m < n {
        assert(s[n - 1] != c);
    } else if n < m {
        assert(s[m - 1] != c);
    }
}

/// A text that is empty or ends in `c` has an empty last piece, and what follows
/// it is split on its own.
pub proof fn lemma_pieces_append(a: Seq<char>, b: Seq<char>, c: char)
    requires
        a.len() == 0 || a.last() == c,
    ensures
        pieces(a, c).len() > 0,
        pieces(a, c).last() == Seq::<char>::empty(),
        pieces(a + b, c) == pieces(a, c).drop_last() + pieces(b, c),
    decreases a.len(),
{
    if a.len() == 0 {
        assert(a + b =~= b);
        assert(first_index(a, c) == 0);
        assert(pieces(a, c) =~= seq![a]);
        assert(a =~= Seq::<char>::empty());
        assert(pieces(a, c).drop_last() + pieces(b, c) =~= pieces(b, c));
    } else {
        lemma_first_index(a, c);
        let n = first_index(a, c);
        if n == a.len() {
            assert(a[a.len() - 1] != c);
        }
        let whole = a + b;
        assert forall|i: int| 0 <= i < n implies whole[i] != c by {
            assert(whole[i] == a[i]);
        }
        lemma_first_index_unique(whole, c, n);
        let rest = a.subrange(n as int + 1, a.len() as int);
        if rest.len() > 0 {
            assert(rest.last() == a.last());
        }
        lemma_pieces_append(rest, b, c);
        assert(whole.subrange(n as int + 1, whole.len() as int) =~= rest + b);
        assert(whole.subrange(0, n as int) =~= a.subrange(0, n as int));
        let head = seq![a.subrange(0, n as int)];
        assert(pieces(a, c) == head + pieces(rest, c));
        assert((head + pieces(rest, c)).drop_last() =~= head + pieces(rest, c).drop_last());
        assert(head + (pieces(rest, c).drop_last() + pieces(b, c)) =~= (head + pieces(rest, c).drop_last())
            + pieces(b, c));
    }
}

/// Trimming at the front removes exactly the leading run of white space.
pub proof fn lemma_trim_start(s: Seq<char>, n: int)
    requires
        0 <= n <= s.len(),
        forall|i: int| 0 <= i < n ==> is_white_space(#[trigger] s[i]),
        n < s.len() ==> !is_white_space(s[n]),
    ensures
        trim_start_of(s) == s.subrange(n, s.len() as int),
    decreases n,
{
    if n == 0 {
        assert(s.subrange(0, s.len() as int) =~= s);
    } else {
        let rest = s.subrange(1, s.len() as int);
        assert forall|i: int| 0 <= i < n - 1 implies is_white_space(#[trigger] rest[i]) by {
            assert(rest[i] == s[i + 1]);
        }
        lemma_trim_start(rest, n - 1);
        assert(is_white_space(s[0]));
        assert(rest.subrange(n - 1, rest.len() as int) =~= s.subrange(n, s.len() as int));
    }
}

/// Trimming at the back removes exactly the trailing run of white space.
pub proof fn lemma_trim_end(s: Seq<char>, n: int)
    requires
        0 <= n <= s.len(),
        forall|i: int| n <= i < s.len() ==> is_white_space(#[trigger] s[i]),
        n > 0 ==> !is_white_space(s[n - 1]),
    ensures
        trim_end_of(s) == s.subrange(0, n),
    decreases s.len() - n,
{
    if n == s.len() {
        assert(s.subrange(0, n) =~= s);
    } else {
        let rest = s.drop_last();
        assert(is_white_space(s[s.len() - 1]));
        assert forall|i: int| n <= i < rest.len() implies is_white_space(#[trigger] rest[i]) by {
            assert(rest[i] == s[i]);
        }
        lemma_trim_end(rest, n);
        assert(rest.subrange(0, n) =~= s.subrange(0, n));
    }
}

/// Text with no white space at its ends is its own trim.
pub proof fn lemma_trim_idle(s: Seq<char>)
    requires
        s.len() > 0 ==> !is_white_space(s[0]) && !is_white_space(s.last()),
    ensures
        trim_of(s) == s,
        trim_start_of(s) == s,
        trim_end_of(s) == s,
{
}

// ---------------------------------------------------------------------------
// Executable operations.

/// Whether two texts hold the same characters.
pub fn str_eq(a: &str, b: &str) -> (r: bool)
    ensures
        r == (a@ == b@),
{
    let x = a.as_bytes();
    let y = b.as_bytes();
    proof {
        encode_utf8_decode_utf8(a@);
        encode_utf8_decode_utf8(b@);
    }
    if x.len() != y.len() {
        return false;
    }
    let mut i: usize = 0;
    while i < x.len()
        invariant
            x@ == encode_utf8(a@),
            y@ == encode_utf8(b@),
            x.len() == y.len(),
            i <= x.len(),
            forall|j: int| 0 <= j < i ==> x@[j] == y@[j],
        decreases x.len() - i,
    {
        if x[i] != y[i] {
            return false;
        }
        i = i + 1;
    }
    assert(x@ =~= y@);
    true
}

/// Whether `a` stands before `b` in the order of texts: by the first characters
/// that differ, or by length where one starts the other.
pub open spec fn text_before(a: Seq<char>, b: Seq<char>) -> bool
    decreases a.len(),
{
    if b.len() == 0 {
        false
    } else if a.len() == 0 {
        true
    } else if a[0] == b[0] {
        text_before(a.subrange(1, a.len() as int), b.subrange(1, b.len() as int))
    } else {
        (a[0] as u32) < (b[0] as u32)
    }
}

/// The characters of a text.
pub fn to_chars(s: &str) -> (v: Vec<char>)
    ensures
        v@ == s@,
{
    let mut v: Vec<char> = Vec::new();
    for c in it: s.chars()
        invariant
            v@ == it.seq().take(it.index() as int),
            it.seq() == s@,
    {
        v.push(c);
    }
    assert(s@.take(s@.len() as int) =~= s@);
    v
}

fn white_space(c: char) -> (r: bool)
    ensures
        r == is_white_space(c),
{
    let n: u32 = c as u32;
    (0x9 <= n && n <= 0xd) || n == 0x20 || n == 0x85 || n == 0xa0 || n == 0x1680 || (0x2000 <= n
        && n <= 0x200a) || n == 0x2028 || n == 0x2029 || n == 0x202f || n == 0x205f || n == 0x3000
}

/// The number of characters that are left when trailing white space goes.
fn kept_len(v: &Vec<char>) -> (n: usize)
    ensures
        n <= v@.len(),
        trim_end_of(v@) == v@.subrange(0, n as int),
{
    let mut n: usize = v.len();
    while n > 0 && white_space(v[n - 1])
        invariant
            n <= v@.len(),
            forall|i: int| n <= i < v@.len() ==> is_white_space(#[trigger] v@[i]),
        decreases n,
    {
        n = n - 1;
    }
    proof {
        lemma_trim_end(v@, n as int);
    }
    n
}

/// The text without white space at its end.
pub fn trim_end<'a>(s: &'a str) -> (r: &'a str)
    ensures
        r@ == trim_end_of(s@),
{
    let v = to_chars(s);
    let n = kept_len(&v);
    s.substring_char(0, n)
}

/// The text without white space at its start.
pub fn trim_start<'a>(s: &'a str) -> (r: &'a str)
    ensures
        r@ == trim_start_of(s@),
{
    let v = to_chars(s);
    let mut n: usize = 0;
    while n < v.len() && white_space(v[n])
        invariant
            n <= v@.len(),
            forall|i: int| 0 <= i < n ==> is_white_space(#[trigger] v@[i]),
        decreases v@.len() - n,
    {
        n = n + 1;
    }
    proof {
        lemma_trim_start(v@, n as int);
    }
    s.substring_char(n, v.len())
}

/// No text stands before itself.
pub proof fn lemma_not_before_itself(t: Seq<char>)
    ensures
        !text_before(t, t),
    decreases t.len(),
{
    if t.len() > 0 {
        lemma_not_before_itself(t.subrange(1, t.len() as int));
    }
}

/// Whether `a` stands before `b` in the order of texts.
pub fn comes_before(a: &str, b: &str) -> (r: bool)
    ensures
        r == text_before(a@, b@),
{
    let x = to_chars(a);
    let y = to_chars(b);
    let mut i: usize = 0;
    assert(a@.subrange(0, a@.len() as int) =~= a@);
    assert(b@.subrange(0, b@.len() as int) =~= b@);
    while i < x.len() && i < y.len()
        invariant
            i <= x@.len(),
            i <= y@.len(),
            x@ == a@,
            y@ == b@,
            text_before(a@, b@) == text_before(
                a@.subrange(i as int, a@.len() as int),
                b@.subrange(i as int, b@.len() as int),
            ),
        decreases x@.len() - i,
    {
        let ghost p = a@.subrange(i as int, a@.len() as int);
        let ghost q = b@.subrange(i as int, b@.len() as int);
        assert(p[0] == x@[i as int] && q[0] == y@[i as int]);
        if x[i] != y[i] {
            return (x[i] as u32) < (y[i] as u32);
        }
        assert(p.subrange(1, p.len() as int) =~= a@.subrange(i + 1, a@.len() as int));
        assert(q.subrange(1, q.len() as int) =~= b@.subrange(i + 1, b@.len() as int));
        i = i + 1;
    }
    i < y.len()
}

/// The text without white space at either end.
pub fn trim<'a>(s: &'a str) -> (r: &'a str)
    ensures
        r@ == trim_of(s@),
{
    trim_end(trim_start(s))
}

/// The text without the run of `c` at its end.
pub fn trim_end_char<'a>(s: &'a str, c: char) -> (r: &'a str)
    ensures
        r@ == trim_end_char_of(s@, c),
{
    let v = to_chars(s);
    let mut n: usize = v.len();
    assert(v@.subrange(0, n as int) =~= v@);
    while n > 0 && v[n - 1] == c
        invariant
            n <= v@.len(),
            trim_end_char_of(v@, c) == trim_end_char_of(v@.subrange(0, n as int), c),
        decreases n,
    {
        assert(v@.subrange(0, n as int).drop_last() =~= v@.subrange(0, n - 1));
        n = n - 1;
    }
    s.substring_char(0, n)
}

fn chars_at(v: &Vec<char>, w: &Vec<char>, at: usize) -> (r: bool)
    requires
        at + w@.len() <= v@.len(),
    ensures
        r == (v@.subrange(at as int, at + w@.len()) == w@),
{
    let mut i: usize = 0;
    while i < w.len()
        invariant
            i <= w@.len(),
            at + w@.len() <= v@.len(),
            v@.len() == v.len(),
            forall|j: int| 0 <= j < i ==> v@[at + j] == w@[j],
        decreases w@.len() - i,
    {
        if v[at + i] != w[i] {
            assert(v@.subrange(at as int, at + w@.len())[i as int] != w@[i as int]);
            return false;
        }
        i = i + 1;
    }
    assert(v@.subrange(at as int, at + w@.len()) =~= w@);
    true
}

pub fn starts_with(s: &str, prefix: &str) -> (r: bool)
    ensures
        r == has_prefix(s@, prefix@),
{
    let v = to_chars(s);
    let w = to_chars(prefix);
    w.len() <= v.len() && chars_at(&v, &w, 0)
}

/// The text without `suffix`, if it ends in it.
pub fn strip_suffix<'a>(s: &'a str, suffix: &str) -> (r: Option<&'a str>)
    ensures
        r is Some == has_suffix(s@, suffix@),
        r matches Some(t) ==> t@ == s@.subrange(0, s@.len() - suffix@.len()),
{
    let v = to_chars(s);
    let w = to_chars(suffix);
    if w.len() <= v.len() && chars_at(&v, &w, v.len() - w.len()) {
        Some(s.substring_char(0, v.len() - w.len()))
    } else {
        None
    }
}

/// The text behind `prefix`, if it starts with it.
pub fn strip_prefix<'a>(s: &'a str, prefix: &str) -> (r: Option<&'a str>)
    ensures
        r is Some == has_prefix(s@, prefix@),
        r matches Some(t) ==> t@ == s@.subrange(prefix@.len() as int, s@.len() as int),
{
    let v = to_chars(s);
    let w = to_chars(prefix);
    if w.len() <= v.len() && chars_at(&v, &w, 0) {
        Some(s.substring_char(w.len(), v.len()))
    } else {
        None
    }
}

pub fn contains(s: &str, needle: &str) -> (r: bool)
    ensures
        r == has_block(s@, needle@),
{
    let v = to_chars(s);
    let w = to_chars(needle);
    if w.len() > v.len() {
        return false;
    }
    let last: usize = v.len() - w.len();
    let mut i: usize = 0;
    while i <= last
        invariant
            i <= last + 1,
            last == v@.len() - w@.len(),
            v@.len() <= usize::MAX,
            v@ == s@,
            w@ == needle@,
            forall|j: int| 0 <= j < i ==> !block_at(s@, needle@, j),
        decreases last + 1 - i,
    {
        if chars_at(&v, &w, i) {
            assert(block_at(s@, needle@, i as int));
            return true;
        }
        if i == last {
            assert(forall|j: int| !block_at(s@, needle@, j));
            return false;
        }
        i = i + 1;
    }
    false
}

/// The position of the first `c`, counted in characters.
pub fn find_char(s: &str, c: char) -> (r: Option<usize>)
    ensures
        r is Some == (first_index(s@, c) < s@.len()),
        r matches Some(n) ==> n == first_index(s@, c),
{
    let v = to_chars(s);
    let mut n: usize = 0;
    while n < v.len()
        invariant
            n <= v@.len(),
            v@ == s@,
            forall|i: int| 0 <= i < n ==> v@[i] != c,
        decreases v@.len() - n,
    {
        if v[n] == c {
            proof {
                lemma_first_index_unique(s@, c, n as nat);
            }
            return Some(n);
        }
        n = n + 1;
    }
    proof {
        lemma_first_index_unique(s@, c, n as nat);
    }
    None
}

/// The position of the last `c`, counted in characters.
pub fn rfind_char(s: &str, c: char) -> (r: Option<usize>)
    ensures
        r is Some == (last_end(s@, c) > 0),
        r matches Some(n) ==> n + 1 == last_end(s@, c),
{
    let v = to_chars(s);
    let mut n: usize = v.len();
    while n > 0
        invariant
            n <= v@.len(),
            v@ == s@,
            forall|i: int| n <= i < v@.len() ==> v@[i] != c,
        decreases n,
    {
        if v[n - 1] == c {
            proof {
                lemma_last_end_unique(s@, c, n as nat);
            }
            return Some(n - 1);
        }
        n = n - 1;
    }
    proof {
        lemma_last_end_unique(s@, c, n as nat);
    }
    None
}

/// The texts between the occurrences of `c`.
pub fn split(s: &str, c: char) -> (r: Vec<String>)
    ensures
        texts_of(r@) == pieces(s@, c),
        r@.len() > 0,
{
    let mut r: Vec<String> = Vec::new();
    let mut rest: &str = s;
    assert(texts_of(r@) + pieces(rest@, c) =~= pieces(s@, c));
    loop
        invariant_except_break
            texts_of(r@) + pieces(rest@, c) == pieces(s@, c),
        ensures
            texts_of(r@) == pieces(s@, c),
            r@.len() > 0,
        decreases rest@.len(),
    {
        let ghost before = r@;
        proof {
            lemma_first_index(rest@, c);
        }
        match find_char(rest, c) {
            None => {
                r.push(rest.to_owned());
                assert(texts_of(r@) =~= texts_of(before) + seq![rest@]);
                break;
            },
            Some(n) => {
                let len = rest.unicode_len();
                let head = rest.substring_char(0, n).to_owned();
                let tail = rest.substring_char(n + 1, len);
                r.push(head);
                assert(texts_of(r@) + pieces(tail@, c) =~= texts_of(before) + (seq![head@] + pieces(
                    tail@,
                    c,
                )));
                rest = tail;
            },
        }
    }
    r
}

/// At most `max` pieces of a text; the last one keeps what is left.
pub fn split_up_to(s: &str, c: char, max: usize) -> (r: Vec<String>)
    ensures
        texts_of(r@) == pieces_up_to(s@, c, max as nat),
        r@.len() > 0,
{
    let mut r: Vec<String> = Vec::new();
    let mut rest: &str = s;
    let mut left: usize = max;
    assert(texts_of(r@) + pieces_up_to(rest@, c, left as nat) =~= pieces_up_to(s@, c, max as nat));
    loop
        invariant_except_break
            texts_of(r@) + pieces_up_to(rest@, c, left as nat) == pieces_up_to(s@, c, max as nat),
        ensures
            texts_of(r@) == pieces_up_to(s@, c, max as nat),
            r@.len() > 0,
        decreases rest@.len(),
    {
        let ghost before = r@;
        proof {
            lemma_first_index(rest@, c);
        }
        let found = if left <= 1 {
            None
        } else {
            find_char(rest, c)
        };
        match found {
            None => {
                r.push(rest.to_owned());
                assert(texts_of(r@) =~= texts_of(before) + seq![rest@]);
                break;
            },
            Some(n) => {
                let len = rest.unicode_len();
                let head = rest.substring_char(0, n).to_owned();
                let tail = rest.substring_char(n + 1, len);
                r.push(head);
                left = left - 1;
                assert(texts_of(r@) + pieces_up_to(tail@, c, left as nat) =~= texts_of(before) + (
                seq![head@] + pieces_up_to(tail@, c, left as nat)));
                rest = tail;
            },
        }
    }
    r
}

/// The first line of a text, without its line ending.
pub fn first_line<'a>(s: &'a str) -> (r: &'a str)
    ensures
        r@ == first_line_of(s@),
{
    proof {
        lemma_first_index(s@, '\n');
    }
    match find_char(s, '\n') {
        None => {
            let n = s.unicode_len();
            s.substring_char(0, n)
        },
        Some(n) => {
            if n > 0 && s.get_char(n - 1) == '\r' {
                s.substring_char(0, n - 1)
            } else {
                s.substring_char(0, n)
            }
        },
    }
}

/// At most `max` leading characters.
pub fn take_chars(s: &str, max: usize) -> (r: String)
    ensures
        r@ == take_of(s@, max as nat),
{
    let n = s.unicode_len();
    if n <= max {
        s.to_owned()
    } else {
        s.substring_char(0, max).to_owned()
    }
}

/// At most `max` leading characters, with an ellipsis where more followed.
pub fn truncate_chars(s: &str, max: usize) -> (r: String)
    ensures
        r@ == ellipsis_of(s@, max as nat),
{
    let n = s.unicode_len();
    if n <= max {
        s.to_owned()
    } else {
        let mut r = s.substring_char(0, max).to_owned();
        r.append("…");
        proof {
            reveal_strlit("…");
            assert("…"@ =~= seq!['…']);
            assert(r@ =~= ellipsis_of(s@, max as nat));
        }
        r
    }
}

/// Two texts, one behind the other.
pub fn join2(a: &str, b: &str) -> (r: String)
    ensures
        r@ == a@ + b@,
{
    let mut r = a.to_owned();
    r.append(b);
    r
}

/// Three texts, one behind the other.
pub fn join3(a: &str, b: &str, c: &str) -> (r: String)
    ensures
        r@ == a@ + b@ + c@,
{
    let mut r = a.to_owned();
    r.append(b);
    r.append(c);
    r
}

fn digit_text(d: u64) -> (r: &'static str)
    requires
        d < 10,
    ensures
        r@ == seq![digit_char(d as nat)],
{
    proof {
        reveal_strlit("0");
        reveal_strlit("1");
        reveal_strlit("2");
        reveal_strlit("3");
        reveal_strlit("4");
        reveal_strlit("5");
        reveal_strlit("6");
        reveal_strlit("7");
        reveal_strlit("8");
        reveal_strlit("9");
    }
    let r = match d {
        0 => "0",
        1 => "1",
        2 => "2",
        3 => "3",
        4 => "4",
        5 => "5",
        6 => "6",
        7 => "7",
        8 => "8",
        _ => "9",
    };
    assert(r@ =~= seq![digit_char(d as nat)]);
    r
}

/// The decimal digits of `n`.
pub fn decimal_text(n: u64) -> (r: String)
    ensures
        r@ == decimal(n as nat),
    decreases n,
{
    if n < 10 {
        digit_text(n).to_owned()
    } else {
        let mut r = decimal_text(n / 10);
        r.append(digit_text(n % 10));
        assert(r@ =~= decimal((n / 10) as nat).push(digit_char((n % 10) as nat)));
        r
    }
}

/// The decimal digits of `n`, filled up with leading zeros to `width`.
pub fn padded_decimal_text(n: u64, width: usize) -> (r: String)
    ensures
        r@ == padded_decimal(n as nat, width as nat),
{
    let d = decimal_text(n);
    let len = d.as_str().unicode_len();
    let mut r = String::new();
    let mut i: usize = len;
    while i < width
        invariant
            len == d@.len(),
            i == len || i <= width,
            r@ == Seq::new((i - len) as nat, |k: int| '0'),
            i >= len,
        decreases width - i,
    {
        proof {
            reveal_strlit("0");
        }
        let ghost before = r@;
        r.append("0");
        i = i + 1;
        assert(r@ =~= Seq::new((i - len) as nat, |k: int| '0'));
    }
    r.append(d.as_str());
    assert(r@ =~= padded_decimal(n as nat, width as nat));
    r
}

} // verus!
