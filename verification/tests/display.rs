//! Texts of notifications.

use ccbridge::emit::display::{format_token_count, shorten_cwd_with_home};

#[test]
fn shorten_cwd_replaces_home_with_tilde() {
    assert_eq!(shorten_cwd_with_home("/home/u/dev/x", "/home/u"), "~/dev/x");
    assert_eq!(shorten_cwd_with_home("/home/u", "/home/u"), "~");
    assert_eq!(shorten_cwd_with_home("/home/u/x", "/home/u"), "~/x");
}

#[test]
fn shorten_cwd_keeps_short_absolute_paths() {
    assert_eq!(shorten_cwd_with_home("/tmp/new", "/home/u"), "/tmp/new");
    assert_eq!(shorten_cwd_with_home("/srv", "/home/u"), "/srv");
    assert_eq!(shorten_cwd_with_home("/", "/home/u"), "/");
}

#[test]
fn shorten_cwd_truncates_long_home_paths() {
    let long = "/home/u/dev/aiven/aiven-design-system/very/deep";
    let out = shorten_cwd_with_home(long, "/home/u");
    assert!(out.starts_with("~/…/"), "expected ~/…/... got {out:?}");
    assert!(
        out.contains("very/deep"),
        "expected tail very/deep, got {out:?}"
    );
}

#[test]
fn shorten_cwd_truncates_long_absolute_paths() {
    let long = "/var/lib/postgres/data/very/deep/path";
    let out = shorten_cwd_with_home(long, "/home/u");
    assert!(out.starts_with("/…/"), "expected /…/... got {out:?}");
    assert!(
        out.contains("deep/path"),
        "expected tail deep/path, got {out:?}"
    );
}

#[test]
fn shorten_cwd_empty_path() {
    assert_eq!(shorten_cwd_with_home("", "/home/u"), "");
}

#[test]
fn shorten_cwd_no_home_env_var() {
    // When home is empty, paths under what would normally be home stay absolute.
    assert_eq!(shorten_cwd_with_home("/home/u/dev/x", ""), "/home/u/dev/x");
}

#[test]
fn shorten_cwd_partial_home_match_not_substituted() {
    // /home/used must NOT match /home/u — substring vs prefix.
    let out = shorten_cwd_with_home("/home/used/x", "/home/u");
    assert!(
        !out.starts_with('~'),
        "partial prefix must not substitute ~, got {out:?}"
    );
    assert_eq!(out, "/home/used/x");
}

#[test]
fn shorten_cwd_root_returns_slash() {
    assert_eq!(shorten_cwd_with_home("/", "/home/u"), "/");
}

// -----------------------------------------------------------------------
// format_token_count
// -----------------------------------------------------------------------

#[test]
fn format_token_count_under_1k_uses_raw() {
    assert_eq!(format_token_count(0), "0");
    assert_eq!(format_token_count(42), "42");
    assert_eq!(format_token_count(999), "999");
}

#[test]
fn format_token_count_thousands_uses_decimal_or_integer() {
    // 1.0k–9.9k: one decimal digit.
    assert_eq!(format_token_count(1_000), "1.0k");
    assert_eq!(format_token_count(1_172), "1.2k");
    assert_eq!(format_token_count(9_999), "10.0k");
    // 10k–999k: integer.
    assert_eq!(format_token_count(10_000), "10k");
    assert_eq!(format_token_count(184_502), "184k");
    assert_eq!(format_token_count(999_999), "999k");
}

#[test]
fn format_token_count_millions() {
    assert_eq!(format_token_count(1_000_000), "1.0M");
    assert_eq!(format_token_count(2_500_000), "2.5M");
    assert_eq!(format_token_count(10_000_000), "10M");
}

#[test]
fn format_token_count_no_long_digit_runs() {
    // The defence against the notification daemon's "OTP detector":
    // no compact representation should have 4+ consecutive digits
    // (which is what such heuristics flag as a copyable code).
    for n in [1_000_u64, 1_172, 9_999, 10_000, 184_502, 1_000_000] {
        let s = format_token_count(n);
        let max_run = s
            .chars()
            .fold((0_usize, 0_usize), |(cur, max), c| {
                if c.is_ascii_digit() {
                    let cur = cur + 1;
                    (cur, max.max(cur))
                } else {
                    (0, max)
                }
            })
            .1;
        assert!(
            max_run <= 3,
            "format_token_count({n}) = {s:?} has a {max_run}-digit run; \
             the notification daemon's OTP heuristic may flag it",
        );
    }
}

#[test]
fn shorten_cwd_keeps_two_directories() {
    assert_eq!(
        shorten_cwd_with_home("/home/u/dev/aiven/aiven-design-system/very/deep", "/home/u"),
        "~/…/very/deep"
    );
    assert_eq!(
        shorten_cwd_with_home("/var/lib/postgres/data/very/deep/path", "/home/u"),
        "/…/deep/path"
    );
}

#[test]
fn shorten_cwd_counts_characters() {
    let accented = "/éééé/éééé/éééé/éééé";
    assert_eq!(shorten_cwd_with_home(accented, "/home/u"), accented);
    let thirty = "/aaaaaaaaa/bbbbbbbbb/ccccccccc";
    assert_eq!(thirty.len(), 30);
    assert_eq!(shorten_cwd_with_home(thirty, ""), thirty);
    assert_eq!(shorten_cwd_with_home(&format!("{thirty}c"), ""), "/…/bbbbbbbbb/cccccccccc");
}

/// The count as floating point prints it.
fn by_division(n: u64, unit: f64, letter: &str) -> String {
    format!("{:.1}{letter}", n as f64 / unit)
}

#[test]
fn decimals_round_as_floating_point_does() {
    for n in 1_000_u64..10_000 {
        assert_eq!(format_token_count(n), by_division(n, 1_000.0, "k"), "{n}");
    }
    for step in 0..180_u64 {
        for around in 0..3_u64 {
            let n = 1_000_000 + step * 50_000 + around;
            if n < 10_000_000 {
                assert_eq!(format_token_count(n), by_division(n, 1_000_000.0, "M"), "{n}");
            }
            if around > 0 && n - around * 2 >= 1_000_000 {
                let m = n - around * 2;
                assert_eq!(format_token_count(m), by_division(m, 1_000_000.0, "M"), "{m}");
            }
        }
    }
    assert_eq!(format_token_count(u64::MAX), "18446744073709M");
}
