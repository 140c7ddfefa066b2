//! Parsing and matching of allow and deny patterns.

use ccbridge::json::Json;
use ccbridge::outside::parse_json;
use ccbridge::permission::pattern::{ArgMatcher, MatchResult, Pattern};
use ccbridge::proto::hook::{HookBase, PermissionMode, PreToolUseEvent};

fn j(text: &str) -> Json {
    parse_json(text).expect("valid JSON")
}

fn event_for(tool: &str, input: Json) -> PreToolUseEvent {
    PreToolUseEvent {
        base: HookBase {
            session_id: "test".to_owned(),
            transcript_path: "/tmp/t.jsonl".to_owned(),
            cwd: "/tmp".to_owned(),
        },
        permission_mode: PermissionMode::Default,
        effort: None,
        tool_name: tool.to_owned(),
        tool_input: input,
        tool_use_id: "toolu_test".to_owned(),
        agent_id: None,
        agent_type: None,
    }
}

#[test]
fn parse_bare_tool_skill() {
    let p = Pattern::parse("Skill");
    assert!(matches!(p, Pattern::BareTool { ref name, .. } if name == "Skill"));
}

#[test]
fn parse_mcp_exact() {
    let raw = "mcp__plugin_context7_context7__resolve-library-id";
    let p = Pattern::parse(raw);
    assert!(
        matches!(p, Pattern::McpExact { ref full_id, .. } if full_id == raw),
        "got {p:?}"
    );
}

#[test]
fn parse_mcp_prefix_wildcard() {
    let p = Pattern::parse("mcp__plugin_backlog_tasks__*");
    match p {
        Pattern::McpPrefix { ref prefix, .. } => {
            assert_eq!(prefix, "mcp__plugin_backlog_tasks__");
        }
        _ => panic!("expected McpPrefix, got {p:?}"),
    }
}

#[test]
fn parse_agent_exact_arg() {
    let p = Pattern::parse("Agent(task-planner)");
    match p {
        Pattern::ToolWithArgs {
            ref tool,
            arg_matcher: ArgMatcher::Exact(ref s),
            ..
        } => {
            assert_eq!(tool, "Agent");
            assert_eq!(s, "task-planner");
        }
        _ => panic!("expected ToolWithArgs/Exact, got {p:?}"),
    }
}

#[test]
fn parse_read_path_glob() {
    let p = Pattern::parse("Read(**/.env*)");
    assert!(
        matches!(p, Pattern::ToolWithArgs { ref tool, arg_matcher: ArgMatcher::PathGlob(_), .. } if tool == "Read"),
        "got {p:?}"
    );
}

#[test]
fn parse_edit_path_glob() {
    let p = Pattern::parse("Edit(**/*.pem)");
    assert!(
        matches!(p, Pattern::ToolWithArgs { ref tool, arg_matcher: ArgMatcher::PathGlob(_), .. } if tool == "Edit"),
        "got {p:?}"
    );
}

#[test]
fn parse_bash_prefix() {
    let p = Pattern::parse("Bash(git status:*)");
    match p {
        Pattern::ToolWithArgs {
            ref tool,
            arg_matcher: ArgMatcher::BashPrefix(ref prefix),
            ..
        } => {
            assert_eq!(tool, "Bash");
            assert_eq!(prefix, "git status");
        }
        _ => panic!("expected BashPrefix, got {p:?}"),
    }
}

#[test]
fn parse_bash_no_colon_star_uses_exact_matcher() {
    // Without ":*" suffix, "Bash(cmd)" produces an exact-command matcher
    // (introduced so derive_pattern can produce round-trippable patterns).
    let p = Pattern::parse("Bash(rm -rf)");
    assert!(
        matches!(p, Pattern::ToolWithArgs { ref tool, arg_matcher: ArgMatcher::BashExact(_), .. } if tool == "Bash"),
        "expected ToolWithArgs with BashExact matcher, got {p:?}"
    );
}

#[test]
fn parse_unknown_tool_with_args_uses_ambiguous_matcher() {
    let p = Pattern::parse("FutureTool(some-arg)");
    assert!(
        matches!(
            p,
            Pattern::ToolWithArgs {
                arg_matcher: ArgMatcher::Ambiguous,
                ..
            }
        ),
        "expected ToolWithArgs with Ambiguous matcher, got {p:?}"
    );
}

#[test]
fn parse_no_closing_paren_is_unparseable() {
    let p = Pattern::parse("Read(**/.env*");
    assert!(matches!(p, Pattern::Unparseable { .. }), "got {p:?}");
}

#[test]
fn parse_empty_string_is_unparseable() {
    let p = Pattern::parse("");
    assert!(matches!(p, Pattern::Unparseable { .. }), "got {p:?}");
    let p2 = Pattern::parse("   ");
    assert!(matches!(p2, Pattern::Unparseable { .. }), "got {p2:?}");
}

#[test]
fn parse_glob_compile_error_falls_back_to_ambiguous_matcher() {
    // A glob with unmatched `[` is invalid.
    let p = Pattern::parse("Read([invalid)");
    assert!(
        matches!(
            p,
            Pattern::ToolWithArgs {
                arg_matcher: ArgMatcher::Ambiguous,
                ..
            }
        ),
        "glob compile failure must produce Ambiguous matcher, got {p:?}"
    );
}


#[test]
fn bare_tool_matches_same_tool_name() {
    let p = Pattern::parse("Skill");
    let e = event_for("Skill", j(r#"{}"#));
    assert_eq!(p.matches(&e), MatchResult::Confident);
}

#[test]
fn bare_tool_no_match_different_tool() {
    let p = Pattern::parse("Skill");
    let e = event_for("Bash", j(r#"{}"#));
    assert_eq!(p.matches(&e), MatchResult::NoMatch);
}

#[test]
fn mcp_exact_matches_full_id() {
    let raw = "mcp__plugin_context7_context7__resolve-library-id";
    let p = Pattern::parse(raw);
    let e = event_for(raw, j(r#"{}"#));
    assert_eq!(p.matches(&e), MatchResult::Confident);
}

#[test]
fn mcp_exact_no_match_partial_id() {
    let p = Pattern::parse("mcp__plugin_context7_context7__resolve-library-id");
    let e = event_for("mcp__plugin_context7_context7__query-docs", j(r#"{}"#));
    assert_eq!(p.matches(&e), MatchResult::NoMatch);
}

#[test]
fn mcp_prefix_matches_method_in_server() {
    let p = Pattern::parse("mcp__plugin_backlog_tasks__*");
    let e = event_for("mcp__plugin_backlog_tasks__task_list", j(r#"{}"#));
    assert_eq!(p.matches(&e), MatchResult::Confident);
}

#[test]
fn mcp_prefix_no_match_different_server() {
    let p = Pattern::parse("mcp__plugin_backlog_tasks__*");
    let e = event_for("mcp__plugin_context7_context7__query-docs", j(r#"{}"#));
    assert_eq!(p.matches(&e), MatchResult::NoMatch);
}

#[test]
fn agent_exact_subagent_type_matches() {
    let p = Pattern::parse("Agent(task-planner)");
    let e = event_for("Agent", j(r#"{"subagent_type": "task-planner"}"#));
    assert_eq!(p.matches(&e), MatchResult::Confident);
}

#[test]
fn agent_exact_different_subagent_type_no_match() {
    let p = Pattern::parse("Agent(task-planner)");
    let e = event_for("Agent", j(r#"{"subagent_type": "code-helper"}"#));
    assert_eq!(p.matches(&e), MatchResult::NoMatch);
}

#[test]
fn agent_exact_missing_subagent_type_is_no_match() {
    // User allowed a specific subagent; a call without subagent_type is not
    // the thing they allowed — intercept normally, don't ambiguously "ask".
    let p = Pattern::parse("Agent(task-planner)");
    let e = event_for("Agent", j(r#"{}"#));
    assert_eq!(
        p.matches(&e),
        MatchResult::NoMatch,
        "missing subagent_type must be NoMatch (not Ambiguous)"
    );
}

#[test]
fn read_path_glob_matches_dotenv() {
    let p = Pattern::parse("Read(**/.env*)");
    let e = event_for(
        "Read",
        j(r#"{"file_path": "/home/user/project/.env.production"}"#),
    );
    assert_eq!(p.matches(&e), MatchResult::Confident);
}

#[test]
fn read_path_glob_matches_pem_file() {
    let p = Pattern::parse("Read(**/*.pem)");
    let e = event_for("Read", j(r#"{"file_path": "/etc/ssl/certs/server.pem"}"#));
    assert_eq!(p.matches(&e), MatchResult::Confident);
}

#[test]
fn read_path_glob_no_match_unrelated_path() {
    let p = Pattern::parse("Read(**/.env*)");
    let e = event_for("Read", j(r#"{"file_path": "/home/user/README.md"}"#));
    assert_eq!(p.matches(&e), MatchResult::NoMatch);
}

#[test]
fn read_path_glob_missing_file_path_field_is_ambiguous() {
    let p = Pattern::parse("Read(**/.env*)");
    // No file_path in tool_input — can't evaluate, must not false-NoMatch.
    let e = event_for("Read", j(r#"{}"#));
    assert_eq!(p.matches(&e), MatchResult::Ambiguous);
}

#[test]
fn bash_prefix_matches_git_status_command() {
    let p = Pattern::parse("Bash(git status:*)");
    let e = event_for("Bash", j(r#"{"command": "git status --porcelain"}"#));
    assert_eq!(p.matches(&e), MatchResult::Confident);
}

#[test]
fn bash_prefix_no_match_different_command() {
    let p = Pattern::parse("Bash(git status:*)");
    let e = event_for("Bash", j(r#"{"command": "npm install"}"#));
    assert_eq!(p.matches(&e), MatchResult::NoMatch);
}

#[test]
fn unparseable_with_tool_name_in_raw_is_ambiguous() {
    // A pattern that names Bash but we can't parse.
    let p = Pattern::Unparseable {
        raw: "Bash[[invalid".to_owned(),
    };
    let e = event_for("Bash", j(r#"{}"#));
    assert_eq!(p.matches(&e), MatchResult::Ambiguous);
}

#[test]
fn unparseable_without_tool_name_is_no_match() {
    let p = Pattern::Unparseable {
        raw: "SomeWeirdSyntax".to_owned(),
    };
    let e = event_for("Bash", j(r#"{}"#));
    assert_eq!(p.matches(&e), MatchResult::NoMatch);
}

#[test]
fn globset_smoke_test_double_star_behavior() {
    // Verify that **/.env* matches both a bare filename and an absolute path.
    // This is a critical assumption underlying the deny-list patterns.
    let p = Pattern::parse("Read(**/.env*)");
    // Bare filename (no leading path).
    let e_bare = event_for("Read", j(r#"{"file_path": ".env.production"}"#));
    // Absolute path with several components.
    let e_abs = event_for(
        "Read",
        j(r#"{"file_path": "/home/user/dev/project/.env.production"}"#),
    );
    assert_eq!(
        p.matches(&e_bare),
        MatchResult::Confident,
        "**/.env* must match bare .env.production"
    );
    assert_eq!(
        p.matches(&e_abs),
        MatchResult::Confident,
        "**/.env* must match absolute path"
    );
}

#[test]
fn read_ssh_glob_matches_ssh_file() {
    // Real-world deny pattern: "Read(**/.ssh/**)"
    let p = Pattern::parse("Read(**/.ssh/**)");
    let e = event_for("Read", j(r#"{"file_path": "/home/user/.ssh/id_rsa"}"#));
    assert_eq!(p.matches(&e), MatchResult::Confident);
}

#[test]
fn read_secret_glob_matches_secret_file() {
    // Real-world deny pattern: "Read(**/*secret*)"
    let p = Pattern::parse("Read(**/*secret*)");
    let e = event_for("Read", j(r#"{"file_path": "/tmp/my_secret_key.txt"}"#));
    assert_eq!(p.matches(&e), MatchResult::Confident);
}
