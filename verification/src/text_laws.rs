//! Laws of texts: what cutting, splitting and writing numbers do, letter by
//! letter.

use vstd::prelude::*;
use crate::text::{
    block_at, decimal, digit_char, ellipsis_of, first_index, first_line_of, has_block, has_prefix,
    has_suffix, is_white_space, last_end, lemma_first_index, lemma_first_index_unique,
    lemma_last_end_unique, lemma_trim_end, lemma_trim_start, padded_decimal, pieces, pieces_up_to,
    take_of, text_before, trim_end_char_of, trim_end_of, trim_of, trim_start_of,
};

verus! {

/// A text starts with another exactly if they agree letter by letter as long as
/// the other goes on.
pub proof fn law_prefix_letter_by_letter(s: Seq<char>, p: Seq<char>)
    ensures
        has_prefix(s, p) <==> p.len() <= s.len() && forall|i: int|
            0 <= i < p.len() ==> #[trigger] s[i] == p[i],
        forall|rest: Seq<char>| #[trigger] has_prefix(p + rest, p),
{
    if p.len() <= s.len() && forall|i: int| 0 <= i < p.len() ==> #[trigger] s[i] == p[i] {
        assert(s.subrange(0, p.len() as int) =~= p);
    }
    if has_prefix(s, p) {
        assert forall|i: int| 0 <= i < p.len() implies #[trigger] s[i] == p[i] by {
            assert(s.subrange(0, p.len() as int)[i] == s[i]);
        }
    }
    assert forall|rest: Seq<char>| #[trigger] has_prefix(p + rest, p) by {
        assert((p + rest).subrange(0, p.len() as int) =~= p);
    }
}

/// A text ends in another exactly if they agree letter by letter from the end.
pub proof fn law_suffix_letter_by_letter(s: Seq<char>, p: Seq<char>)
    ensures
        has_suffix(s, p) <==> p.len() <= s.len() && forall|i: int|
            0 <= i < p.len() ==> s[s.len() - p.len() + i] == #[trigger] p[i],
        forall|head: Seq<char>| #[trigger] has_suffix(head + p, p),
{
    let n = s.len() - p.len();
    if p.len() <= s.len() && forall|i: int| 0 <= i < p.len() ==> s[n + i] == #[trigger] p[i] {
        assert(s.subrange(n, s.len() as int) =~= p);
    }
    if has_suffix(s, p) {
        assert forall|i: int| 0 <= i < p.len() implies s[n + i] == #[trigger] p[i] by {
            assert(s.subrange(n, s.len() as int)[i] == s[n + i]);
        }
    }
    assert forall|head: Seq<char>| #[trigger] has_suffix(head + p, p) by {
        let t = head + p;
        assert(t.subrange(t.len() - p.len(), t.len() as int) =~= p);
    }
}

/// A text holds another exactly if it is that text with something before it and
/// something behind it.
pub proof fn law_block_is_between(s: Seq<char>, needle: Seq<char>)
    ensures
        has_block(s, needle) <==> exists|a: Seq<char>, b: Seq<char>| s == #[trigger] (a + needle + b),
{
    if has_block(s, needle) {
        let i = choose|i: int| #[trigger] block_at(s, needle, i);
        let a = s.subrange(0, i);
        let b = s.subrange(i + needle.len(), s.len() as int);
        assert(s =~= a + needle + b);
    }
    if exists|a: Seq<char>, b: Seq<char>| s == #[trigger] (a + needle + b) {
        let (a, b) = choose|a: Seq<char>, b: Seq<char>| s == #[trigger] (a + needle + b);
        assert(s.subrange(a.len() as int, (a.len() + needle.len()) as int) =~= needle);
        assert(block_at(s, needle, a.len() as int));
    }
}

/// The blank, the tab and the line ends are white space; what ASCII can print
/// besides is not.
pub proof fn law_white_space(c: char)
    ensures
        c == ' ' || c == '\t' || c == '\n' || c == '\r' ==> is_white_space(c),
        '!' <= c <= '~' ==> !is_white_space(c),
{
}

pub open spec fn all_white(s: Seq<char>) -> bool {
    forall|i: int| 0 <= i < s.len() ==> is_white_space(#[trigger] s[i])
}

/// Whether neither end of a text is white space.
pub open spec fn is_tight(s: Seq<char>) -> bool {
    s.len() > 0 ==> !is_white_space(s[0]) && !is_white_space(s.last())
}

/// Trimming takes the white space around a text, all of it, and nothing else.
pub proof fn law_trim_takes_what_is_around(before: Seq<char>, core: Seq<char>, after: Seq<char>)
    requires
        all_white(before),
        all_white(after),
        is_tight(core),
    ensures
        trim_of(before + core + after) == core,
        core.len() > 0 ==> trim_start_of(before + core + after) == core + after,
        core.len() > 0 ==> trim_end_of(before + core + after) == before + core,
{
    let s = before + core + after;
    if core.len() > 0 {
        lemma_trim_start(s, before.len() as int);
        let t = s.subrange(before.len() as int, s.len() as int);
        assert(t =~= core + after);
        lemma_trim_end(t, core.len() as int);
        assert(t.subrange(0, core.len() as int) =~= core);
        lemma_trim_end(s, (before + core).len() as int);
        assert(s.subrange(0, (before + core).len() as int) =~= before + core);
    } else {
        lemma_trim_start(s, s.len() as int);
        lemma_trim_end(trim_start_of(s), 0);
        assert(trim_of(s) =~= core);
    }
}

/// What is left of a text when it is trimmed has no white space at its ends, and
/// stands in the text with nothing but white space around it.
pub proof fn law_trimmed_is_tight(s: Seq<char>) -> (parts: (Seq<char>, Seq<char>))
    ensures
        all_white(parts.0),
        all_white(parts.1),
        is_tight(trim_of(s)),
        s == parts.0 + trim_of(s) + parts.1,
{
    let n = lead(s);
    let t = s.subrange(n, s.len() as int);
    lemma_trim_start(s, n);
    let m = tail(t);
    lemma_trim_end(t, m);
    let core = t.subrange(0, m);
    let before = s.subrange(0, n);
    let after = t.subrange(m, t.len() as int);
    assert(s =~= before + core + after);
    if core.len() > 0 {
        assert(core[0] == s[n]);
        assert(core.last() == t[m - 1]);
        assert(!is_white_space(t[m - 1]));
        assert(n < s.len());
    }
    (before, after)
}

proof fn lead(s: Seq<char>) -> (n: int)
    ensures
        0 <= n <= s.len(),
        forall|i: int| 0 <= i < n ==> is_white_space(#[trigger] s[i]),
        n < s.len() ==> !is_white_space(s[n]),
    decreases s.len(),
{
    if s.len() == 0 || !is_white_space(s[0]) {
        0
    } else {
        let rest = s.subrange(1, s.len() as int);
        let n = lead(rest);
        assert forall|i: int| 0 <= i < n + 1 implies is_white_space(#[trigger] s[i]) by {
            if i > 0 {
                assert(s[i] == rest[i - 1]);
            }
        }
        n + 1
    }
}

proof fn tail(s: Seq<char>) -> (n: int)
    ensures
        0 <= n <= s.len(),
        forall|i: int| n <= i < s.len() ==> is_white_space(#[trigger] s[i]),
        n > 0 ==> !is_white_space(s[n - 1]),
    decreases s.len(),
{
    if s.len() == 0 || !is_white_space(s.last()) {
        s.len() as int
    } else {
        let n = tail(s.drop_last());
        assert forall|i: int| n <= i < s.len() implies is_white_space(#[trigger] s[i]) by {
            if i < s.len() - 1 {
                assert(s[i] == s.drop_last()[i]);
            }
        }
        n
    }
}

/// The run of a letter at the end of a text goes, all of it, and nothing else.
pub proof fn law_trim_end_takes_the_run(core: Seq<char>, n: nat, c: char)
    requires
        core.len() > 0 ==> core.last() != c,
    ensures
        trim_end_char_of(core + Seq::new(n, |i: int| c), c) == core,
    decreases n,
{
    let s = core + Seq::new(n, |i: int| c);
    if n == 0 {
        assert(s =~= core);
    } else {
        law_trim_end_takes_the_run(core, (n - 1) as nat, c);
        assert(s.drop_last() =~= core + Seq::new((n - 1) as nat, |i: int| c));
    }
}

/// The first line of a text ends before its first line feed, and before the
/// carriage return that stands there.
pub proof fn law_first_line(line: Seq<char>, rest: Seq<char>)
    requires
        !line.contains('\n'),
    ensures
        first_line_of(line) == line,
        line.len() == 0 || line.last() != '\r' ==> first_line_of(line + seq!['\n'] + rest) == line,
        first_line_of(line + seq!['\r', '\n'] + rest) == line,
{
    lemma_first_index_unique(line, '\n', line.len());
    assert(line.subrange(0, line.len() as int) =~= line);
    let a = line + seq!['\n'] + rest;
    assert forall|i: int| 0 <= i < line.len() implies a[i] != '\n' by {
        assert(line.contains(line[i]));
    }
    lemma_first_index_unique(a, '\n', line.len());
    assert(a.subrange(0, line.len() as int) =~= line);
    let b = line + seq!['\r', '\n'] + rest;
    assert forall|i: int| 0 <= i < line.len() + 1 implies b[i] != '\n' by {
        if i < line.len() {
            assert(line.contains(line[i]));
        }
    }
    lemma_first_index_unique(b, '\n', line.len() + 1);
    assert(b[line.len() as int] == '\r');
    assert(b.subrange(0, line.len() as int) =~= line);
}

/// A text is cut only where it is too long; then its first letters stay, exactly
/// as many as are allowed, and an ellipsis shows the cut.
pub proof fn law_cut_keeps_the_start(s: Seq<char>, max: nat)
    ensures
        s.len() <= max ==> ellipsis_of(s, max) == s && take_of(s, max) == s,
        s.len() > max ==> {
            &&& take_of(s, max).len() == max
            &&& forall|i: int| 0 <= i < max ==> #[trigger] take_of(s, max)[i] == s[i]
            &&& ellipsis_of(s, max).len() == max + 1
            &&& ellipsis_of(s, max)[max as int] == '…'
            &&& forall|i: int| 0 <= i < max ==> #[trigger] ellipsis_of(s, max)[i] == s[i]
        },
{
}

/// The number that decimal digits write.
pub open spec fn number_in(s: Seq<char>) -> int
    decreases s.len(),
{
    if s.len() == 0 {
        0
    } else {
        10 * number_in(s.drop_last()) + (s.last() as u32 - '0' as u32)
    }
}

pub open spec fn all_digits(s: Seq<char>) -> bool {
    forall|i: int| 0 <= i < s.len() ==> '0' <= #[trigger] s[i] <= '9'
}

/// A number is written in decimal digits that give it back, without a zero in
/// front unless it is zero.
pub proof fn law_decimal_gives_the_number_back(n: nat)
    ensures
        number_in(decimal(n)) == n,
        all_digits(decimal(n)),
        decimal(n).len() > 0,
        decimal(n)[0] == '0' ==> n == 0 && decimal(n).len() == 1,
    decreases n,
{
    if n < 10 {
        assert(decimal(n).drop_last() =~= Seq::empty());
        assert(number_in(Seq::<char>::empty()) == 0);
        assert(decimal(n).last() == digit_char(n));
    } else {
        law_decimal_gives_the_number_back(n / 10);
        let s = decimal(n);
        assert(s.drop_last() =~= decimal(n / 10));
        assert(s.last() == digit_char(n % 10));
        assert(s[0] == decimal(n / 10)[0]);
    }
}

proof fn lemma_leading_zeros(k: nat, d: Seq<char>)
    ensures
        number_in(Seq::new(k, |i: int| '0') + d) == number_in(d),
    decreases k + d.len(),
{
    let zeros = Seq::new(k, |i: int| '0');
    let s = zeros + d;
    if d.len() > 0 {
        lemma_leading_zeros(k, d.drop_last());
        assert(s.drop_last() =~= zeros + d.drop_last());
    } else if k > 0 {
        lemma_leading_zeros((k - 1) as nat, d);
        assert(s.drop_last() =~= Seq::new((k - 1) as nat, |i: int| '0') + d);
    }
}

/// A number that is filled up keeps its value, and is as wide as asked unless it
/// is wider by itself.
pub proof fn law_padding_keeps_the_number(n: nat, width: nat)
    ensures
        number_in(padded_decimal(n, width)) == n,
        all_digits(padded_decimal(n, width)),
        padded_decimal(n, width).len() >= width,
        padded_decimal(n, width).len() > width ==> padded_decimal(n, width) == decimal(n),
{
    law_decimal_gives_the_number_back(n);
    let d = decimal(n);
    if d.len() < width {
        lemma_leading_zeros((width - d.len()) as nat, d);
    }
}

/// Texts with a letter between each two of them.
pub open spec fn joined(parts: Seq<Seq<char>>, c: char) -> Seq<char>
    decreases parts.len(),
{
    if parts.len() == 0 {
        Seq::empty()
    } else if parts.len() == 1 {
        parts[0]
    } else {
        parts[0] + seq![c] + joined(parts.subrange(1, parts.len() as int), c)
    }
}

/// A text that was split is whole again when its pieces are joined, and no piece
/// holds the letter at which it was split.
pub proof fn law_pieces_join(s: Seq<char>, c: char)
    ensures
        pieces(s, c).len() > 0,
        joined(pieces(s, c), c) == s,
        forall|i: int| 0 <= i < pieces(s, c).len() ==> !(#[trigger] pieces(s, c)[i]).contains(c),
    decreases s.len(),
{
    lemma_first_index(s, c);
    let n = first_index(s, c) as int;
    let all = pieces(s, c);
    if n < s.len() {
        let rest = s.subrange(n + 1, s.len() as int);
        law_pieces_join(rest, c);
        assert(all.subrange(1, all.len() as int) =~= pieces(rest, c));
        assert(all[0] =~= s.subrange(0, n));
        assert(s =~= s.subrange(0, n) + seq![c] + rest);
        assert forall|i: int| 0 <= i < all.len() implies !(#[trigger] all[i]).contains(c) by {
            if i > 0 {
                assert(all[i] == pieces(rest, c)[i - 1]);
            }
        }
    }
}

/// A text that is split into at most so many pieces is whole again when they are
/// joined. Only the last piece may hold the letter, and only if no more pieces
/// were allowed.
pub proof fn law_few_pieces_join(s: Seq<char>, c: char, max: nat)
    requires
        max > 0,
    ensures
        ({
            let p = pieces_up_to(s, c, max);
            &&& 0 < p.len() <= max
            &&& joined(p, c) == s
            &&& forall|i: int| 0 <= i < p.len() - 1 ==> !(#[trigger] p[i]).contains(c)
            &&& p.len() < max ==> !p.last().contains(c)
        }),
    decreases max,
{
    lemma_first_index(s, c);
    let n = first_index(s, c) as int;
    let all = pieces_up_to(s, c, max);
    if n < s.len() && max > 1 {
        let rest = s.subrange(n + 1, s.len() as int);
        law_few_pieces_join(rest, c, (max - 1) as nat);
        let tail = pieces_up_to(rest, c, (max - 1) as nat);
        assert(all.subrange(1, all.len() as int) =~= tail);
        assert(all[0] =~= s.subrange(0, n));
        assert(s =~= s.subrange(0, n) + seq![c] + rest);
        assert(all.last() == tail.last());
        assert forall|i: int| 0 <= i < all.len() - 1 implies !(#[trigger] all[i]).contains(c) by {
            if i > 0 {
                assert(all[i] == tail[i - 1]);
            }
        }
    }
}

/// A text stands before another exactly if they agree up to a place where the
/// first ends and the other goes on, or where the first has the smaller letter.
pub proof fn law_order_of_texts(a: Seq<char>, b: Seq<char>)
    ensures
        text_before(a, b) <==> exists|n: int| #[trigger] differs_first(a, b, n),
    decreases a.len(),
{
    if a.len() == 0 {
        if b.len() > 0 {
            assert(differs_first(a, b, 0));
        }
    } else if b.len() > 0 {
        if a[0] != b[0] {
            if text_before(a, b) {
                assert(differs_first(a, b, 0));
            }
            if exists|n: int| #[trigger] differs_first(a, b, n) {
                let n = choose|n: int| #[trigger] differs_first(a, b, n);
                assert(n == 0);
            }
        } else {
            let x = a.subrange(1, a.len() as int);
            let y = b.subrange(1, b.len() as int);
            law_order_of_texts(x, y);
            if text_before(x, y) {
                let n = choose|n: int| #[trigger] differs_first(x, y, n);
                assert forall|i: int| 0 <= i < n + 1 implies a[i] == b[i] by {
                    if i > 0 {
                        assert(x[i - 1] == y[i - 1]);
                    }
                }
                assert(differs_first(a, b, n + 1));
            }
            if exists|n: int| #[trigger] differs_first(a, b, n) {
                let n = choose|n: int| #[trigger] differs_first(a, b, n);
                assert(n > 0);
                assert(differs_first(x, y, n - 1));
            }
        }
    }
}

/// Whether the texts agree before `n`, and the first is the smaller one there.
pub open spec fn differs_first(a: Seq<char>, b: Seq<char>, n: int) -> bool {
    &&& 0 <= n <= a.len()
    &&& n < b.len()
    &&& forall|i: int| 0 <= i < n ==> a[i] == b[i]
    &&& n == a.len() || (a[n] as u32) < (b[n] as u32)
}

/// The place of a letter: nothing before it is that letter, and a text that does
/// not hold it has no place for it.
pub proof fn law_places_of_a_letter(before: Seq<char>, after: Seq<char>, c: char)
    ensures
        !before.contains(c) ==> first_index(before + seq![c] + after, c) == before.len(),
        !before.contains(c) ==> first_index(before, c) == before.len() && last_end(before, c) == 0,
        !after.contains(c) ==> last_end(before + seq![c] + after, c) == before.len() + 1,
{
    let s = before + seq![c] + after;
    if !before.contains(c) {
        assert forall|i: int| 0 <= i < before.len() implies s[i] != c && before[i] != c by {
            assert(before.contains(before[i]));
        }
        lemma_first_index_unique(s, c, before.len());
        lemma_first_index_unique(before, c, before.len());
        lemma_last_end_unique(before, c, 0);
    }
    if !after.contains(c) {
        assert forall|i: int| before.len() + 1 <= i < s.len() implies s[i] != c by {
            assert(s[i] == after[i - before.len() - 1]);
            assert(after.contains(after[i - before.len() - 1]));
        }
        lemma_last_end_unique(s, c, before.len() + 1);
    }
}

/// Beyond ASCII these are white space: the next line, the blanks that do not
/// break or are of other widths, and the separators of lines and paragraphs. What
/// has no width at all is not, and neither is any letter behind them.
pub proof fn law_white_space_beyond_ascii(c: char)
    ensures
        is_white_space('\u{85}'),
        is_white_space('\u{a0}'),
        is_white_space('\u{1680}'),
        is_white_space('\u{2028}'),
        is_white_space('\u{2029}'),
        is_white_space('\u{202f}'),
        is_white_space('\u{205f}'),
        is_white_space('\u{3000}'),
        '\u{2000}' <= c <= '\u{200a}' ==> is_white_space(c),
        '\u{b}' <= c <= '\u{c}' ==> is_white_space(c),
        c <= '\u{8}' || '\u{e}' <= c <= '\u{1f}' || '\u{7f}' <= c <= '\u{84}' ==> !is_white_space(c),
        '\u{86}' <= c <= '\u{9f}' || '\u{a1}' <= c <= '\u{167f}' ==> !is_white_space(c),
        '\u{1681}' <= c <= '\u{1fff}' || '\u{200b}' <= c <= '\u{2027}' ==> !is_white_space(c),
        '\u{202a}' <= c <= '\u{202e}' || '\u{2030}' <= c <= '\u{205e}' ==> !is_white_space(c),
        '\u{2060}' <= c <= '\u{2fff}' || '\u{3001}' <= c ==> !is_white_space(c),
{
}

} // verus!
