//! Transcripts: lines, saved counts, offsets, days.

use ccbridge::ingest::jsonl::offsets::{FileOffsets, FoundFile};
use ccbridge::ingest::jsonl::parse::parse_jsonl_line;
use ccbridge::ingest::jsonl::tokens::{tokens_state_path, PersistedTokens};
use ccbridge::config::Fallback;
use ccbridge::ingest::jsonl::dates::{
    current_utc_date_string, date_text, days_to_ymd, secs_until_next_local_midnight,
    utc_now_iso8601,
};
use ccbridge::ingest::jsonl::offsets::{is_jsonl_path, readable_text, split_lines};
use ccbridge::ingest::jsonl::parse::ParsedAssistantLine;
use ccbridge::ingest::jsonl::reset::{catch_up_to_local_date, perform_midnight_reset, CatchUp};
use ccbridge::ingest::jsonl::watcher::{LineNews, TokenTally};
use ccbridge::state::Aggregator;
use std::time::Duration;

fn found(path: &str, text: &str) -> FoundFile {
    FoundFile { path: path.to_owned(), len: text.len() as u64, dev: 1, inode: 7 }
}

/// Reads the lines that a file with this text has not given out yet.
fn drain(offsets: &mut FileOffsets, path: &str, inode: u64, text: &str) -> Vec<String> {
    let from = offsets.resume(path, 1, inode) as usize;
    offsets.drain_new_lines(path, &text[from..])
}

// --- lines of a transcript ---

#[test]
fn mod_parse_real_assistant_line_with_usage() {
    let line = r#"{
        "type": "assistant",
        "message": {
            "role": "assistant",
            "usage": {
                "input_tokens": 3,
                "cache_creation_input_tokens": 502,
                "cache_read_input_tokens": 8724,
                "output_tokens": 200,
                "server_tool_use": {"web_search_requests": 0},
                "service_tier": "standard"
            },
            "content": [
                {"type": "text", "text": "Here is my analysis of the situation."}
            ]
        }
    }"#;

    let parsed = parse_jsonl_line(line).expect("should parse");
    assert_eq!(parsed.output_tokens, 200);
    assert_eq!(parsed.entry_text.as_deref(), Some("Here is my analysis of the situation."));
}

#[test]
fn mod_parse_assistant_line_no_usage() {
    // A message that only thinks: no output tokens.
    let line = r#"{
        "type": "assistant",
        "message": {
            "role": "assistant",
            "content": [{"type": "thinking", "thinking": "..."}]
        }
    }"#;

    let parsed = parse_jsonl_line(line).expect("should parse as assistant");
    assert_eq!(parsed.output_tokens, 0);
    assert!(parsed.entry_text.is_none());
}

#[test]
fn mod_parse_skips_non_assistant_types() {
    let user_line = r#"{"type": "user", "message": {"role": "user", "content": "hello"}}"#;
    assert!(parse_jsonl_line(user_line).is_none());

    let system_line = r#"{"type": "permission-mode", "permissionMode": "default"}"#;
    assert!(parse_jsonl_line(system_line).is_none());
}

#[test]
fn mod_parse_malformed_json_returns_none() {
    assert!(parse_jsonl_line("not json at all").is_none());
    assert!(parse_jsonl_line("{unclosed").is_none());
    assert!(parse_jsonl_line("").is_none());
    assert!(parse_jsonl_line("   \n  ").is_none());
}

#[test]
fn mod_parse_non_jsonl_file_extension_lines_are_skipped() {
    assert!(parse_jsonl_line("# This is a comment").is_none());
    // Raw bytes that aren't valid JSON
    assert!(parse_jsonl_line("binary\x00data").is_none());
}

#[test]
fn mod_parse_entry_text_truncated_at_80_chars_ascii() {
    let long_text = "A".repeat(100);
    let line = format!(
        r#"{{"type": "assistant", "message": {{"usage": {{"output_tokens": 50}},
            "content": [{{"type": "text", "text": "{long_text}"}}]}}}}"#
    );

    let parsed = parse_jsonl_line(&line).unwrap();
    let snippet = parsed.entry_text.unwrap();
    assert!(snippet.ends_with('…'));
    assert_eq!(snippet.chars().count(), 81); // 80 of the text, and the ellipsis
}

#[test]
fn mod_parse_entry_text_truncated_multibyte_no_panic() {
    // Em-dashes are 3 bytes each: the cut counts characters.
    let em_dashes = "—".repeat(100);
    let line = format!(
        r#"{{"type": "assistant", "message": {{"usage": {{"output_tokens": 1}},
            "content": [{{"type": "text", "text": "{em_dashes}"}}]}}}}"#
    );

    let parsed = parse_jsonl_line(&line).unwrap();
    let snippet = parsed.entry_text.unwrap();
    assert!(snippet.ends_with('…'), "should be truncated");
    // 80 em-dashes + "…" = 81 chars
    assert_eq!(snippet.chars().count(), 81);
}

#[test]
fn mod_parse_entry_text_short_not_truncated() {
    let line = r#"{"type": "assistant", "message": {"usage": {"output_tokens": 5},
        "content": [{"type": "text", "text": "short text"}]}}"#;
    let parsed = parse_jsonl_line(line).unwrap();
    assert_eq!(parsed.entry_text.as_deref(), Some("short text"));
}

#[test]
fn mod_parse_only_first_text_block_used_for_entry() {
    let line = r#"{
        "type": "assistant",
        "message": {
            "usage": {"output_tokens": 10},
            "content": [
                {"type": "thinking", "thinking": "internal reasoning"},
                {"type": "text", "text": "first text block"},
                {"type": "text", "text": "second text block"}
            ]
        }
    }"#;

    let parsed = parse_jsonl_line(line).unwrap();
    assert_eq!(parsed.entry_text.as_deref(), Some("first text block"));
}

// --- saved counts ---

#[test]
fn mod_persisted_tokens_round_trip() {
    let tokens = PersistedTokens {
        date: "2026-05-19".to_owned(),
        today: 31_200,
        cumulative: 184_502,
    };
    let text = tokens.save();

    let loaded = PersistedTokens::load(Some(&text)).unwrap();
    assert_eq!(loaded.date, "2026-05-19");
    assert_eq!(loaded.today, 31_200);
    assert_eq!(loaded.cumulative, 184_502);
}

#[test]
fn mod_persisted_tokens_missing_file_returns_default() {
    let loaded = PersistedTokens::load(None).unwrap();
    assert_eq!(loaded.today, 0);
    assert_eq!(loaded.cumulative, 0);
    assert_eq!(loaded.date, "");
}

// --- reading on in files ---

#[test]
fn mod_file_offsets_only_reads_new_lines() {
    let path = "/d/session.jsonl";
    let mut offsets = FileOffsets::new();
    // Both lines are "already seen".
    offsets.snapshot_existing(&vec![found(path, "line1\nline2\n")]);

    let collected = drain(&mut offsets, path, 7, "line1\nline2\nline3\n");
    assert_eq!(collected, vec!["line3"]);
}

#[test]
fn mod_file_offsets_no_trailing_newline_correct_offset() {
    // If the last line has no line feed, the byte count is still accurate, so
    // that the next drain picks up exactly where this one ended.
    let path = "/d/notail.jsonl";
    let mut offsets = FileOffsets::new();
    let collected = drain(&mut offsets, path, 7, "line1\nline2");
    assert_eq!(collected, vec!["line1", "line2"]);

    let new_lines = drain(&mut offsets, path, 7, "line1\nline2\nline3\n");
    assert!(
        new_lines.contains(&"line3".to_owned()),
        "should see line3 after correct offset, got: {:?}",
        new_lines
    );
    assert_eq!(new_lines, vec!["", "line3"]);
}

#[test]
fn mod_file_offsets_new_file_starts_from_zero() {
    let mut offsets = FileOffsets::new();
    // No snapshot — this is a newly appearing file.
    let collected = drain(&mut offsets, "/d/new_session.jsonl", 7, "first\nsecond\n");
    assert_eq!(collected, vec!["first", "second"]);
}

#[test]
fn mod_tokens_state_path_uses_xdg_state_home() {
    let p = tokens_state_path(Some("/xdg/state"), Some("/home/u"))
        .expect("tokens_state_path should succeed");
    assert!(p.ends_with("ccbridge/tokens.json"), "unexpected path: {}", p);
    assert_eq!(p, "/xdg/state/ccbridge/tokens.json");
    let p = tokens_state_path(None, Some("/home/u")).expect("tokens_state_path should succeed");
    assert!(p.ends_with("ccbridge/tokens.json"), "unexpected path: {}", p);
    assert_eq!(p, "/home/u/.local/state/ccbridge/tokens.json");
    assert!(tokens_state_path(None, None).is_none());
}

#[test]
fn file_offsets_resets_on_atomic_replace() {
    let path = "/d/test.jsonl";
    let mut offsets = FileOffsets::new();
    let lines_v1 = drain(&mut offsets, path, 7, "line1\nline2\n");
    assert_eq!(lines_v1, vec!["line1", "line2"], "v1 lines must be read");

    // Another file has taken its place.
    let lines_v2 = drain(&mut offsets, path, 8, "line3\n");
    assert_eq!(
        lines_v2,
        vec!["line3"],
        "after atomic replace, new file must be read from start"
    );
}

#[test]
fn a_snapshot_skips_what_is_there() {
    let path = "/d/a.jsonl";
    let mut offsets = FileOffsets::default();
    assert_eq!(drain(&mut offsets, path, 7, "é\r\n"), vec!["é"]);
    offsets.snapshot_existing(&vec![found(path, "é\r\nmore\n"), found("/d/b.jsonl", "x\n")]);
    assert!(drain(&mut offsets, path, 7, "é\r\nmore\n").is_empty());
    assert_eq!(drain(&mut offsets, path, 7, "é\r\nmore\nnew\n"), vec!["new"]);
    assert!(drain(&mut offsets, "/d/b.jsonl", 7, "x\n").is_empty());
    assert_eq!(offsets.resume(path, 2, 7), 0);
}

#[test]
fn lines_and_their_ends() {
    assert_eq!(split_lines("a\r\n\nb\r\r\n c"), vec!["a", "", "b\r", " c"]);
    assert_eq!(split_lines("a\r\r\n"), vec!["a\r"]);
    assert_eq!(split_lines("a\r"), vec!["a\r"]);
    assert!(split_lines("").is_empty());
    assert_eq!(split_lines("\n"), vec![""]);
}

#[test]
fn transcripts_are_told_by_their_extension() {
    assert!(is_jsonl_path("/d/x.jsonl"));
    assert!(is_jsonl_path("a.b.jsonl"));
    assert!(!is_jsonl_path("/d/.jsonl"));
    assert!(!is_jsonl_path("/d/x.json"));
    assert!(!is_jsonl_path("/d.jsonl/x"));
    assert!(!is_jsonl_path("jsonl"));
}

#[test]
fn saved_counts_that_do_not_parse_are_refused() {
    assert!(PersistedTokens::load(Some("{")).is_none());
    assert!(PersistedTokens::load(Some(r#"{"date": "2026-01-01", "today": -1, "cumulative": 1}"#)).is_none());
    assert!(PersistedTokens::load(Some(r#"{"date": "2026-01-01", "today": 1}"#)).is_none());
}

// --- a new day ---

#[test]
fn no_rollover_when_date_matches_today() {
    let today = "2026-05-20";
    let mut state =
        PersistedTokens { date: today.to_owned(), today: 100, cumulative: 500 };
    let outcome = catch_up_to_local_date(&mut state, today);
    assert_eq!(outcome, CatchUp::UpToDate);
    assert_eq!(state.today, 100, "today must be preserved");
    assert_eq!(state.date, today);
}

#[test]
fn rollover_zeroes_today_and_preserves_cumulative() {
    let mut state = PersistedTokens {
        date: "2020-01-01".to_owned(), // stale
        today: 4_700_000,
        cumulative: 4_700_000,
    };
    let outcome = catch_up_to_local_date(&mut state, "2026-05-20");
    assert_eq!(outcome, CatchUp::Rolled);
    assert_eq!(state.today, 0);
    assert_eq!(state.cumulative, 4_700_000, "cumulative must be preserved");
    assert_ne!(state.date, "2020-01-01");
    assert_eq!(state.date, "2026-05-20");
}

#[test]
fn empty_date_adopts_today_without_rolling() {
    let mut state = PersistedTokens { date: String::new(), today: 0, cumulative: 0 };
    let outcome = catch_up_to_local_date(&mut state, "2026-05-20");
    assert_eq!(outcome, CatchUp::UpToDate);
    assert_eq!(state.date, "2026-05-20");
}

#[test]
fn a_later_day_is_kept() {
    // The clock was set back.
    let later = PersistedTokens { date: "2026-05-21".to_owned(), today: 7, cumulative: 9 };
    let mut state = later.clone();
    assert_eq!(catch_up_to_local_date(&mut state, "2026-05-20"), CatchUp::UpToDate);
    assert_eq!(state, later);
    assert_eq!(perform_midnight_reset(&mut state, 12, "2026-05-20"), CatchUp::UpToDate);
    assert_eq!((state.date.as_str(), state.today, state.cumulative), ("2026-05-21", 7, 12));
    let mut state = PersistedTokens { date: "2025-12-31".to_owned(), today: 7, cumulative: 9 };
    assert_eq!(catch_up_to_local_date(&mut state, "2026-01-01"), CatchUp::Rolled);
}

#[test]
fn midnight_reset_preserves_cumulative_from_aggregator() {
    let mut agg = Aggregator::new(Duration::from_secs(30), Fallback::default());
    agg.add_tokens(184_502);
    let hb = agg.snapshot();
    assert_eq!(hb.tokens, 184_502, "precondition: aggregator must hold 184_502");

    let mut saved = PersistedTokens::load(None).unwrap();
    perform_midnight_reset(&mut saved, hb.tokens, "2026-05-20");

    let loaded = PersistedTokens::load(Some(&saved.save())).unwrap();
    assert_eq!(loaded.today, 0, "today must reset to 0");
    assert_eq!(
        loaded.cumulative, 184_502,
        "cumulative must be queried from the aggregator, not zeroed"
    );
    assert!(!loaded.date.is_empty(), "date must be set to today");
}

#[test]
fn midnight_keeps_the_larger_total() {
    let mut saved =
        PersistedTokens { date: "2026-05-19".to_owned(), today: 7, cumulative: 900 };
    assert_eq!(perform_midnight_reset(&mut saved, 40, "2026-05-20"), CatchUp::Rolled);
    assert_eq!(
        saved,
        PersistedTokens { date: "2026-05-20".to_owned(), today: 0, cumulative: 900 }
    );
    assert_eq!(perform_midnight_reset(&mut saved, 950, "2026-05-20"), CatchUp::UpToDate);
    assert_eq!(saved.cumulative, 950);
}

// --- counting ---

#[test]
fn lines_are_tallied() {
    let mut tally = TokenTally {
        counts: PersistedTokens { date: "2026-05-20".to_owned(), today: 10, cumulative: 100 },
        dirty: false,
    };
    let news = tally.take_line(ParsedAssistantLine { output_tokens: 0, entry_text: Some("hm".to_owned()) });
    assert_eq!(news, LineNews { tokens: None, entry: Some("hm".to_owned()) });
    assert!(!tally.dirty);
    let news = tally.take_line(ParsedAssistantLine { output_tokens: 5, entry_text: None });
    assert_eq!(news, LineNews { tokens: Some(5), entry: None });
    assert!(tally.dirty);
    assert_eq!((tally.counts.today, tally.counts.cumulative), (15, 105));
}

// --- dates ---

#[test]
fn days_count_from_the_epoch() {
    assert_eq!(days_to_ymd(0), (1970, 1, 1));
    assert_eq!(days_to_ymd(58), (1970, 2, 28));
    assert_eq!(days_to_ymd(59), (1970, 3, 1));
    assert_eq!(days_to_ymd(789), (1972, 2, 29));
    assert_eq!(days_to_ymd(11_016), (2000, 2, 29));
    assert_eq!(days_to_ymd(20_593), (2026, 5, 20));
    assert_eq!(days_to_ymd(47_540), (2100, 2, 28));
    assert_eq!(days_to_ymd(47_541), (2100, 3, 1));
}

#[test]
fn dates_are_padded() {
    assert_eq!(date_text(987, 6, 5), "0987-06-05");
    assert_eq!(date_text(12_345, 12, 31), "12345-12-31");
    assert_eq!(current_utc_date_string(0), "1970-01-01");
    assert_eq!(current_utc_date_string(1_779_235_199), "2026-05-19");
    assert_eq!(current_utc_date_string(1_779_235_200), "2026-05-20");
    assert_eq!(utc_now_iso8601(1_779_239_045), "2026-05-20T01:04:05Z");
}

#[test]
fn midnight_is_a_whole_number_of_seconds_away() {
    assert_eq!(secs_until_next_local_midnight(0, 0, 0, 0), 86_400);
    assert_eq!(secs_until_next_local_midnight(23, 59, 59, 0), 1);
    assert_eq!(secs_until_next_local_midnight(23, 59, 59, 1), 0);
    assert_eq!(secs_until_next_local_midnight(12, 30, 15, 5), 41_384);
}

#[test]
fn a_text_block_counts_by_its_first_line() {
    let line = r#"{"type": "assistant", "message": {"usage": {"output_tokens": 3.5},
        "content": [{"type": "text", "text": 4}, {"type": "text", "text": "\n one\ntwo"}]}}"#;
    let parsed = parse_jsonl_line(line).unwrap();
    assert_eq!(parsed.output_tokens, 0);
    assert_eq!(parsed.entry_text.as_deref(), Some("one"));
}

#[test]
fn a_line_that_is_not_utf8_stops_the_reading() {
    assert_eq!(readable_text(&b"one\ntwo\nthr".to_vec()), "one\ntwo\nthr");
    assert_eq!(readable_text(&b"one\nt\xffo\nthree\n".to_vec()), "one\n");
    assert_eq!(readable_text(&b"one\nt\xc3".to_vec()), "one\n");
    assert_eq!(readable_text(&b"\xff\n".to_vec()), "");
    assert_eq!(readable_text(&"é\nü".as_bytes().to_vec()), "é\nü");
    assert_eq!(readable_text(&Vec::new()), "");
}

#[test]
fn counts_may_be_an_array_of_their_fields() {
    let loaded = PersistedTokens::load(Some(r#"["2026-05-20", 5, 7]"#)).expect("counts");
    assert_eq!(
        (loaded.date.as_str(), loaded.today, loaded.cumulative),
        ("2026-05-20", 5, 7)
    );
    assert!(PersistedTokens::load(Some(r#"["2026-05-20", 5]"#)).is_none());
    assert!(PersistedTokens::load(Some(r#"["2026-05-20", 5, 7, 9]"#)).is_none());
    assert!(PersistedTokens::load(Some(r#"[5, "2026-05-20", 7]"#)).is_none());
}
