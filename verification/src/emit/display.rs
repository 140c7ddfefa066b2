//! Short forms of paths and counts for notifications.

use vstd::prelude::*;
use crate::paths::{components, path_components};
use crate::text::{
    decimal, decimal_text, has_prefix, has_suffix, join2, join3, starts_with, str_eq, strip_suffix,
    texts_of,
};

verus! {

// ---------------------------------------------------------------------------
// Directories.

/// The directory with the home directory written as `~`. Only whole names count:
/// `/home/used` is not below `/home/u`.
pub open spec fn with_tilde(cwd: Seq<char>, home: Seq<char>) -> Seq<char> {
    let below = if has_suffix(home, "/"@) {
        home
    } else {
        home + "/"@
    };
    if home.len() == 0 {
        cwd
    } else if cwd == home {
        "~"@
    } else if has_prefix(cwd, below) {
        "~"@ + cwd.subrange(home.len() as int, cwd.len() as int)
    } else {
        cwd
    }
}

/// A directory for display: with `~` for the home directory, and with its middle
/// left out where it is longer than thirty characters.
pub open spec fn short_cwd(cwd: Seq<char>, home: Seq<char>) -> Seq<char> {
    if cwd.len() == 0 {
        Seq::empty()
    } else {
        let shown = with_tilde(cwd, home);
        let names = components(shown);
        if shown.len() <= 30 || names.len() <= 2 {
            shown
        } else {
            (if has_prefix(shown, "~"@) {
                "~/…/"@
            } else {
                "/…/"@
            }) + names[names.len() - 2] + "/"@ + names.last()
        }
    }
}

/// A directory for display.
pub fn shorten_cwd_with_home(cwd: &str, home: &str) -> (r: String)
    ensures
        r@ == short_cwd(cwd@, home@),
{
    if cwd.is_empty() {
        return String::new();
    }
    let shown: String = if !home.is_empty() {
        let below = match strip_suffix(home, "/") {
            Some(_) => home.to_owned(),
            None => join2(home, "/"),
        };
        if str_eq(cwd, home) {
            "~".to_owned()
        } else if starts_with(cwd, below.as_str()) {
            let n = home.unicode_len();
            let len = cwd.unicode_len();
            join2("~", cwd.substring_char(n, len))
        } else {
            cwd.to_owned()
        }
    } else {
        cwd.to_owned()
    };
    if shown.as_str().unicode_len() <= 30 {
        return shown;
    }
    let names = path_components(shown.as_str());
    let n = names.len();
    assert(texts_of(names@).len() == n);
    if n <= 2 {
        return shown;
    }
    proof {
        assert(texts_of(names@)[n - 2] == names@[n - 2]@);
        assert(texts_of(names@)[n - 1] == names@[n - 1]@);
    }
    let head = if starts_with(shown.as_str(), "~") {
        "~/…/"
    } else {
        "/…/"
    };
    let mut r = join3(head, names[n - 2].as_str(), "/");
    r.append(names[n - 1].as_str());
    r
}

// ---------------------------------------------------------------------------
// Counts.

/// The power of two below a number from one to ten, as the twentieths of a
/// number in that range scale with it modulo twenty.
pub open spec fn twentieths_scale(k: int) -> int {
    if k < 40 {
        16
    } else if k < 80 {
        8
    } else if k < 160 {
        4
    } else {
        12
    }
}

/// Whether `k` twentieths, with `k` odd, are shown as the tenth above: the way
/// of the binary fraction nearest to them, and to the even digit where they are
/// a binary fraction themselves.
pub open spec fn rounds_up(k: int) -> bool {
    let r = (k * twentieths_scale(k)) % 20;
    if r == 0 {
        (k / 2) % 2 == 1
    } else {
        r > 10
    }
}

/// `n / unit` in tenths, rounded to the nearest.
pub open spec fn tenths_of(n: int, unit: int) -> int {
    let t = (10 * n) / unit;
    let rest = 2 * ((10 * n) % unit);
    if rest < unit {
        t
    } else if rest > unit {
        t + 1
    } else if rounds_up(2 * t + 1) {
        t + 1
    } else {
        t
    }
}

pub open spec fn with_tenth(t: int, mark: Seq<char>) -> Seq<char> {
    decimal((t / 10) as nat) + "."@ + decimal((t % 10) as nat) + mark
}

/// A count of tokens for display: all digits below a thousand, one decimal below
/// ten thousand and below ten million, whole thousands or millions else.
pub open spec fn token_count_text(n: nat) -> Seq<char> {
    if n < 1_000 {
        decimal(n)
    } else if n < 10_000 {
        with_tenth(tenths_of(n as int, 1_000), "k"@)
    } else if n < 1_000_000 {
        decimal(n / 1_000) + "k"@
    } else if n < 10_000_000 {
        with_tenth(tenths_of(n as int, 1_000_000), "M"@)
    } else {
        decimal(n / 1_000_000) + "M"@
    }
}

fn tenths(n: u64, unit: u64) -> (t: u64)
    requires
        1 <= unit <= 1_000_000,
        n < 10_000_000,
    ensures
        t == tenths_of(n as int, unit as int),
{
    let t: u64 = (10 * n) / unit;
    let rest: u64 = 2 * ((10 * n) % unit);
    assert(t <= 10 * n) by (nonlinear_arith)
        requires
            unit >= 1,
            t == (10 * n) / (unit as int),
    ;
    if rest < unit {
        t
    } else if rest > unit {
        t + 1
    } else {
        let k: u64 = 2 * t + 1;
        let scale: u64 = if k < 40 {
            16
        } else if k < 80 {
            8
        } else if k < 160 {
            4
        } else {
            12
        };
        let r: u64 = (k * scale) % 20;
        let up = if r == 0 {
            (k / 2) % 2 == 1
        } else {
            r > 10
        };
        if up {
            t + 1
        } else {
            t
        }
    }
}

fn tenth_text(t: u64, mark: &str) -> (r: String)
    ensures
        r@ == with_tenth(t as int, mark@),
{
    let mut r = decimal_text(t / 10);
    r.append(".");
    r.append(decimal_text(t % 10).as_str());
    r.append(mark);
    r
}

/// A count of tokens for display.
pub fn format_token_count(n: u64) -> (r: String)
    ensures
        r@ == token_count_text(n as nat),
{
    if n < 1_000 {
        decimal_text(n)
    } else if n < 10_000 {
        tenth_text(tenths(n, 1_000), "k")
    } else if n < 1_000_000 {
        join2(decimal_text(n / 1_000).as_str(), "k")
    } else if n < 10_000_000 {
        tenth_text(tenths(n, 1_000_000), "M")
    } else {
        join2(decimal_text(n / 1_000_000).as_str(), "M")
    }
}

pub open spec fn is_digit(c: char) -> bool {
    '0' <= c <= '9'
}

proof fn lemma_decimal_short(n: nat)
    ensures
        n < 10 ==> decimal(n).len() == 1,
        n < 100 ==> decimal(n).len() <= 2,
        n < 1000 ==> decimal(n).len() <= 3,
{
    reveal_with_fuel(decimal, 4);
}

/// Below a thousand million, no count shows four digits in a row, which a
/// notification daemon might take for a code to copy.
pub proof fn law_no_long_digit_runs(n: nat, i: int)
    requires
        n < 1_000_000_000,
        0 <= i,
        i + 3 < token_count_text(n).len(),
    ensures
        !is_digit(token_count_text(n)[i]) || !is_digit(token_count_text(n)[i + 1]) || !is_digit(
            token_count_text(n)[i + 2],
        ) || !is_digit(token_count_text(n)[i + 3]),
{
    let s = token_count_text(n);
    reveal_strlit("k");
    reveal_strlit("M");
    reveal_strlit(".");
    if n < 1_000 {
        lemma_decimal_short(n);
    } else if n < 10_000 {
        let t = tenths_of(n as int, 1_000);
        lemma_decimal_short((t / 10) as nat);
        lemma_decimal_short((t % 10) as nat);
        let a = decimal((t / 10) as nat).len() as int;
        assert(s[a] == '.');
        assert(s[a + 2] == 'k');
    } else if n < 1_000_000 {
        lemma_decimal_short(n / 1_000);
        assert(s[s.len() - 1] == 'k');
    } else if n < 10_000_000 {
        let t = tenths_of(n as int, 1_000_000);
        lemma_decimal_short((t / 10) as nat);
        lemma_decimal_short((t % 10) as nat);
        let a = decimal((t / 10) as nat).len() as int;
        assert(s[a] == '.');
        assert(s[a + 2] == 'M');
    } else {
        lemma_decimal_short(n / 1_000_000);
        assert(s[s.len() - 1] == 'M');
    }
}

} // verus!
