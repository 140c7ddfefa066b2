//! Transcripts: lines, saved counts, offsets.

use ccbridge::ingest::jsonl::offsets::{FileOffsets, FoundFile};
use ccbridge::ingest::jsonl::parse::parse_jsonl_line;
use ccbridge::ingest::jsonl::tokens::{tokens_state_path, PersistedTokens};

fn found(path: &str, text: &str) -> FoundFile {
    FoundFile { path: path.to_owned(), len: text.len() as u64, dev: 1, inode: 7 }
}

/// Reads the lines that a file with this text has not given out yet.
fn drain(offsets: &mut FileOffsets, path: &str, inode: u64, text: &str) -> Vec<String> {
    let from = offsets.resume(path, 1, inode) as usize;
    offsets.drain_new_lines(path, &text[from..])
}

// --- lines of a transcript ---

#[test]
fn jsonl_parse_real_assistant_line_with_usage() {
    let line = r#"{
        "type": "assistant",
        "message": {
            "role": "assistant",
            "usage": {
                "input_tokens": 3,
                "cache_creation_input_tokens": 502,
                "cache_read_input_tokens": 8724,
                "output_tokens": 200,
                "server_tool_use": {"web_search_requests": 0},
                "service_tier": "standard"
            },
            "content": [
                {"type": "text", "text": "Here is my analysis of the situation."}
            ]
        }
    }"#;

    let parsed = parse_jsonl_line(line).expect("should parse");
    assert_eq!(parsed.output_tokens, 200);
    assert_eq!(parsed.entry_text.as_deref(), Some("Here is my analysis of the situation."));
}

#[test]
fn jsonl_parse_assistant_line_no_usage() {
    // A message that only thinks: no output tokens.
    let line = r#"{
        "type": "assistant",
        "message": {
            "role": "assistant",
            "content": [{"type": "thinking", "thinking": "..."}]
        }
    }"#;

    let parsed = parse_jsonl_line(line).expect("should parse as assistant");
    assert_eq!(parsed.output_tokens, 0);
    assert!(parsed.entry_text.is_none());
}

#[test]
fn jsonl_parse_skips_non_assistant_types() {
    let user_line = r#"{"type": "user", "message": {"role": "user", "content": "hello"}}"#;
    assert!(parse_jsonl_line(user_line).is_none());

    let system_line = r#"{"type": "permission-mode", "permissionMode": "default"}"#;
    assert!(parse_jsonl_line(system_line).is_none());
}

#[test]
fn jsonl_parse_malformed_json_returns_none() {
    assert!(parse_jsonl_line("not json at all").is_none());
    assert!(parse_jsonl_line("{unclosed").is_none());
    assert!(parse_jsonl_line("").is_none());
    assert!(parse_jsonl_line("   \n  ").is_none());
}

#[test]
fn jsonl_parse_non_jsonl_file_extension_lines_are_skipped() {
    assert!(parse_jsonl_line("# This is a comment").is_none());
    // Raw bytes that aren't valid JSON
    assert!(parse_jsonl_line("binary\x00data").is_none());
}

#[test]
fn jsonl_parse_entry_text_truncated_at_80_chars_ascii() {
    let long_text = "A".repeat(100);
    let line = format!(
        r#"{{"type": "assistant", "message": {{"usage": {{"output_tokens": 50}},
            "content": [{{"type": "text", "text": "{long_text}"}}]}}}}"#
    );

    let parsed = parse_jsonl_line(&line).unwrap();
    let snippet = parsed.entry_text.unwrap();
    assert!(snippet.ends_with('…'));
    assert_eq!(snippet.chars().count(), 81); // 80 of the text, and the ellipsis
}

#[test]
fn jsonl_parse_entry_text_truncated_multibyte_no_panic() {
    // Em-dashes are 3 bytes each: the cut counts characters.
    let em_dashes = "—".repeat(100);
    let line = format!(
        r#"{{"type": "assistant", "message": {{"usage": {{"output_tokens": 1}},
            "content": [{{"type": "text", "text": "{em_dashes}"}}]}}}}"#
    );

    let parsed = parse_jsonl_line(&line).unwrap();
    let snippet = parsed.entry_text.unwrap();
    assert!(snippet.ends_with('…'), "should be truncated");
    // 80 em-dashes + "…" = 81 chars
    assert_eq!(snippet.chars().count(), 81);
}

#[test]
fn jsonl_parse_entry_text_short_not_truncated() {
    let line = r#"{"type": "assistant", "message": {"usage": {"output_tokens": 5},
        "content": [{"type": "text", "text": "short text"}]}}"#;
    let parsed = parse_jsonl_line(line).unwrap();
    assert_eq!(parsed.entry_text.as_deref(), Some("short text"));
}

#[test]
fn jsonl_parse_only_first_text_block_used_for_entry() {
    let line = r#"{
        "type": "assistant",
        "message": {
            "usage": {"output_tokens": 10},
            "content": [
                {"type": "thinking", "thinking": "internal reasoning"},
                {"type": "text", "text": "first text block"},
                {"type": "text", "text": "second text block"}
            ]
        }
    }"#;

    let parsed = parse_jsonl_line(line).unwrap();
    assert_eq!(parsed.entry_text.as_deref(), Some("first text block"));
}

// --- saved counts ---

#[test]
fn jsonl_persisted_tokens_round_trip() {
    let tokens = PersistedTokens {
        date: "2026-05-19".to_owned(),
        today: 31_200,
        cumulative: 184_502,
    };
    let text = tokens.save();

    let loaded = PersistedTokens::load(Some(&text)).unwrap();
    assert_eq!(loaded.date, "2026-05-19");
    assert_eq!(loaded.today, 31_200);
    assert_eq!(loaded.cumulative, 184_502);
}

#[test]
fn jsonl_persisted_tokens_missing_file_returns_default() {
    let loaded = PersistedTokens::load(None).unwrap();
    assert_eq!(loaded.today, 0);
    assert_eq!(loaded.cumulative, 0);
    assert_eq!(loaded.date, "");
}

// --- reading on in files ---

#[test]
fn jsonl_file_offsets_only_reads_new_lines() {
    let path = "/d/session.jsonl";
    let mut offsets = FileOffsets::new();
    // Both lines are "already seen".
    offsets.snapshot_existing(&vec![found(path, "line1\nline2\n")]);

    let collected = drain(&mut offsets, path, 7, "line1\nline2\nline3\n");
    assert_eq!(collected, vec!["line3"]);
}

#[test]
fn jsonl_file_offsets_no_trailing_newline_correct_offset() {
    // If the last line has no line feed, the byte count is still accurate, so
    // that the next drain picks up exactly where this one ended.
    let path = "/d/notail.jsonl";
    let mut offsets = FileOffsets::new();
    let collected = drain(&mut offsets, path, 7, "line1\nline2");
    assert_eq!(collected, vec!["line1", "line2"]);

    let new_lines = drain(&mut offsets, path, 7, "line1\nline2\nline3\n");
    assert!(
        new_lines.contains(&"line3".to_owned()),
        "should see line3 after correct offset, got: {:?}",
        new_lines
    );
    assert_eq!(new_lines, vec!["", "line3"]);
}

#[test]
fn jsonl_file_offsets_new_file_starts_from_zero() {
    let mut offsets = FileOffsets::new();
    // No snapshot — this is a newly appearing file.
    let collected = drain(&mut offsets, "/d/new_session.jsonl", 7, "first\nsecond\n");
    assert_eq!(collected, vec!["first", "second"]);
}

#[test]
fn jsonl_tokens_state_path_uses_xdg_state_home() {
    let p = tokens_state_path(Some("/xdg/state"), Some("/home/u"))
        .expect("tokens_state_path should succeed");
    assert!(p.ends_with("ccbridge/tokens.json"), "unexpected path: {}", p);
    assert_eq!(p, "/xdg/state/ccbridge/tokens.json");
    let p = tokens_state_path(None, Some("/home/u")).expect("tokens_state_path should succeed");
    assert!(p.ends_with("ccbridge/tokens.json"), "unexpected path: {}", p);
    assert_eq!(p, "/home/u/.local/state/ccbridge/tokens.json");
    assert!(tokens_state_path(None, None).is_none());
}
