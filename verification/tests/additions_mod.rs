//! Adding patterns for good, taking them back, and the audit log.

use ccbridge::json::Json;
use ccbridge::outside::parse_json;
use ccbridge::permission::additions::audit_log::{
    audit_line, find_last_undone_addition, AdditionMetadata,
};
use ccbridge::permission::additions::derive::{derive_pattern, DerivedPattern};
use ccbridge::permission::additions::target::{
    local_settings_path, resolve_write_target, AuditTarget, WriteTarget,
};
use ccbridge::permission::additions::undo::{
    find_addition, undo_file, undo_last_allow, UndoError, UndoOutcome,
};
use ccbridge::permission::additions::write::{write_allow_pattern, AddOutcome};
use ccbridge::permission::pattern::{MatchResult, Pattern};
use ccbridge::proto::hook::{HookBase, PermissionMode, PreToolUseEvent};
use ccbridge::setup::{load_settings, settings_text};
use ccbridge::paths::{join_path, lexically_normalize, parent_path, paths_equal};
use ccbridge::permission::additions::audit_log::{
    audit_log_path, parse_log, parse_tsv_audit_line, AuditLogRow,
};
use ccbridge::permission::additions::undo::validate_audit_root;
use ccbridge::permission::additions::write::{remove_allow_pattern, AddError};
use ccbridge::setup::settings_path;

fn j(text: &str) -> Json {
    parse_json(text).expect("valid JSON")
}

fn event(tool: &str, input: Json) -> PreToolUseEvent {
    PreToolUseEvent {
        base: HookBase {
            session_id: "3cb58992-935c-4fdd-9efd-1f160946e822".to_owned(),
            transcript_path: "/tmp/t.jsonl".to_owned(),
            cwd: "/tmp".to_owned(),
        },
        permission_mode: PermissionMode::Default,
        effort: None,
        tool_name: tool.to_owned(),
        tool_input: input,
        tool_use_id: "toolu_test_01".to_owned(),
        agent_id: None,
        agent_type: None,
    }
}

fn meta() -> AdditionMetadata {
    AdditionMetadata {
        tool_use_id: "toolu_test_01".to_owned(),
        session_id: "3cb58992-935c-4fdd-9efd-1f160946e822".to_owned(),
        agent_type: Some("core".to_owned()),
    }
}

/// A project's settings file and the audit log, as their texts.
struct Disk {
    settings: Option<String>,
    audit: Option<String>,
}

impl Disk {
    fn empty() -> Disk {
        Disk { settings: None, audit: None }
    }

    fn target(&self) -> WriteTarget {
        WriteTarget { root: "/tmp/proj".to_owned() }
    }

    fn log(&mut self, op: &str, pattern: &str, metadata: &AdditionMetadata, target: &AuditTarget) {
        let line = audit_line("2026-05-20T00:00:00Z", op, pattern, metadata, target);
        self.audit.get_or_insert_with(String::new).push_str(&line);
    }

    /// Adds a pattern and records it, unless it is there already.
    fn add(&mut self, pattern: &str) {
        let settings = load_settings(self.settings.as_deref()).expect("readable settings");
        match write_allow_pattern(settings, pattern).expect("settings of the right shape") {
            AddOutcome::Added(changed) => {
                self.settings = Some(settings_text(&changed));
                let target = self.target().to_audit_target();
                self.log("added", pattern, &meta(), &target);
            }
            AddOutcome::AlreadyPresent => {}
        }
    }

    /// Takes the last addition back and records that.
    fn undo(&mut self) -> Result<UndoOutcome, UndoError> {
        let entry = find_addition(self.audit.as_deref())?;
        let file = undo_file(
            &entry.target,
            None,
            "/home/u/.agent/settings.json",
            "/home/u/.agent",
            None,
            ".agent",
        )?;
        let settings = match &self.settings {
            Some(text) => Some(load_settings(Some(text)).expect("readable settings")),
            None => None,
        };
        let (outcome, changed) = undo_last_allow(&entry, &file, settings);
        if let Some(changed) = changed {
            self.settings = Some(settings_text(&changed));
        }
        let metadata = AdditionMetadata {
            tool_use_id: entry.tool_use_id.clone(),
            session_id: entry.session_id.clone(),
            agent_type: entry.agent_type.clone(),
        };
        self.log("undone", &entry.pattern, &metadata, &entry.target);
        Ok(outcome)
    }

    fn allow(&self) -> Vec<Json> {
        let settings = load_settings(self.settings.as_deref()).expect("readable settings");
        match settings.get("permissions").and_then(|p| p.get("allow")) {
            Some(Json::Array(items)) => items.clone(),
            other => panic!("no list of patterns: {other:?}"),
        }
    }

    fn audit(&self) -> &str {
        self.audit.as_deref().expect("an audit log")
    }
}

// --- patterns of calls ---

#[test]
fn mod_derive_pattern_bash_literal_command() {
    let e = event("Bash", j(r#"{"command": "rm -rf /tmp/foo"}"#));
    assert_eq!(
        derive_pattern(&e),
        DerivedPattern::Specific("Bash(rm -rf /tmp/foo)".to_owned())
    );
}

#[test]
fn mod_derive_pattern_read_exact_path() {
    let e = event("Read", j(r#"{"file_path": "/home/user/.env"}"#));
    assert_eq!(
        derive_pattern(&e),
        DerivedPattern::Specific("Read(/home/user/.env)".to_owned())
    );
}

#[test]
fn mod_derive_pattern_edit_exact_path() {
    let e = event(
        "Edit",
        j(r#"{"file_path": "/tmp/foo.rs", "old_string": "a", "new_string": "b"}"#),
    );
    assert_eq!(
        derive_pattern(&e),
        DerivedPattern::Specific("Edit(/tmp/foo.rs)".to_owned())
    );
}

#[test]
fn mod_derive_pattern_agent_subagent_type() {
    let e = event("Agent", j(r#"{"subagent_type": "task-planner"}"#));
    assert_eq!(
        derive_pattern(&e),
        DerivedPattern::Specific("Agent(task-planner)".to_owned())
    );
}

#[test]
fn mod_derive_pattern_mcp_exact() {
    let e = event("mcp__plugin_context7_context7__query-docs", j("{}"));
    assert_eq!(
        derive_pattern(&e),
        DerivedPattern::Specific("mcp__plugin_context7_context7__query-docs".to_owned())
    );
}

#[test]
fn mod_derive_pattern_unknown_tool_is_bare() {
    let e = event("WebSearch", j(r#"{"query": "Rust tokio tutorial"}"#));
    assert_eq!(
        derive_pattern(&e),
        DerivedPattern::BareToolNeedsConfirmation { tool: "WebSearch".to_owned() }
    );
}

#[test]
fn mod_derive_pattern_bash_missing_command_is_bare() {
    let e = event("Bash", j(r#"{"description": "no command field"}"#));
    assert_eq!(
        derive_pattern(&e),
        DerivedPattern::BareToolNeedsConfirmation { tool: "Bash".to_owned() }
    );
}

#[test]
fn mod_derive_pattern_glob_falls_to_bare() {
    // Glob names its input "pattern", not "file_path".
    let e = event("Glob", j(r#"{"pattern": "*.rs"}"#));
    assert_eq!(
        derive_pattern(&e),
        DerivedPattern::BareToolNeedsConfirmation { tool: "Glob".to_owned() }
    );
}

#[test]
fn mod_derive_pattern_non_string_field_falls_to_bare() {
    // A number must not be taken for a path.
    let e = event("Read", j(r#"{"file_path": 42}"#));
    assert_eq!(
        derive_pattern(&e),
        DerivedPattern::BareToolNeedsConfirmation { tool: "Read".to_owned() }
    );
}

fn assert_round_trip(tool: &str, input: Json, expected_pattern: &str) {
    let e = event(tool, input);
    let derived = derive_pattern(&e);
    assert_eq!(
        derived,
        DerivedPattern::Specific(expected_pattern.to_owned()),
        "derive_pattern should produce Specific({expected_pattern:?}) for {tool}"
    );
    let parsed = Pattern::parse(expected_pattern);
    assert_eq!(
        parsed.matches(&e),
        MatchResult::Confident,
        "Pattern::parse({expected_pattern:?}).matches(event) must be Confident for round-trip"
    );
}

#[test]
fn mod_round_trip_bash_command() {
    assert_round_trip("Bash", j(r#"{"command": "git status"}"#), "Bash(git status)");
}

#[test]
fn mod_round_trip_read_path() {
    assert_round_trip("Read", j(r#"{"file_path": "/tmp/file.txt"}"#), "Read(/tmp/file.txt)");
}

#[test]
fn mod_round_trip_agent_subagent() {
    assert_round_trip("Agent", j(r#"{"subagent_type": "task-planner"}"#), "Agent(task-planner)");
}

#[test]
fn mod_round_trip_mcp_exact() {
    assert_round_trip(
        "mcp__plugin_backlog_tasks__task_list",
        j("{}"),
        "mcp__plugin_backlog_tasks__task_list",
    );
}

// --- adding a pattern ---

#[test]
fn mod_write_allow_pattern_adds_to_array() {
    let mut disk = Disk { settings: Some(r#"{"theme":"dark"}"#.to_owned()), audit: None };
    disk.add("Bash(git status)");
    let allow = disk.allow();
    assert_eq!(allow.len(), 1);
    assert_eq!(allow[0], Json::Str("Bash(git status)".to_owned()));
    assert_eq!(j(disk.settings.as_deref().unwrap()).get_str("theme"), Some("dark"));
}

#[test]
fn mod_write_allow_pattern_idempotent() {
    let mut disk = Disk::empty();
    disk.add("Bash(echo hi)");
    disk.add("Bash(echo hi)");
    assert_eq!(disk.allow().len(), 1, "duplicate pattern must not be added");
}

#[test]
fn mod_write_allow_pattern_writes_audit_log() {
    let mut disk = Disk::empty();
    disk.add("Read(/tmp/file.txt)");
    let log = disk.audit();
    assert!(log.contains("added"), "audit log must contain 'added' op");
    assert!(
        log.contains("Read(/tmp/file.txt)"),
        "audit log must contain the pattern"
    );
}

// --- taking it back ---

#[test]
fn mod_undo_last_allow_removes_pattern() {
    let mut disk = Disk::empty();
    disk.add("Bash(echo undo_me)");
    assert_eq!(disk.allow().len(), 1);

    disk.undo().unwrap();
    assert!(disk.allow().is_empty(), "pattern must be removed after undo");
    assert!(
        disk.audit().contains("undone"),
        "audit log must contain 'undone' after undo"
    );
}

#[test]
fn mod_undo_last_allow_empty_audit_returns_error() {
    let err = Disk::empty().undo().unwrap_err();
    assert!(
        err.message().contains("no allowlist additions"),
        "error message must mention empty audit log"
    );
}

#[test]
fn mod_undo_last_allow_idempotent_when_pattern_already_gone() {
    let mut disk = Disk::empty();
    disk.add("Bash(already_gone)");
    // The list is emptied by hand.
    disk.settings = Some(r#"{"permissions":{"allow":[]}}"#.to_owned());

    let outcome = disk.undo().unwrap();
    assert!(
        matches!(outcome, UndoOutcome::AlreadyGone { .. }),
        "must return AlreadyGone when pattern not in file"
    );
}

#[test]
fn mod_write_allow_pattern_project_local_creates_dotclaude_dir() {
    let mut disk = Disk::empty();
    disk.add("Bash(npm test)");
    assert_eq!(
        local_settings_path(&disk.target().root, ".agent"),
        "/tmp/proj/.agent/settings.local.json"
    );
    assert_eq!(disk.allow()[0], Json::Str("Bash(npm test)".to_owned()));
}

#[test]
fn mod_write_allow_pattern_project_local_records_target_in_audit() {
    let mut disk = Disk::empty();
    disk.add("Skill");
    let log = disk.audit();
    assert!(
        log.contains("/tmp/proj"),
        "audit log must contain project root path, got:\n{log}"
    );
    assert!(
        log.contains("project_local"),
        "audit log must contain 'project_local' key, got:\n{log}"
    );
}

// --- the audit log ---

#[test]
fn mod_audit_entry_user_global_encodes_as_jsonl() {
    let mut disk = Disk::empty();
    disk.log("added", "Skill", &meta(), &AuditTarget::UserGlobal);
    let row = j(disk.audit().trim());
    assert_eq!(
        row.get("target"),
        Some(&j(r#""user_global""#)),
        "UserGlobal target must serialise as \"user_global\""
    );
}

#[test]
fn mod_audit_log_jsonl_round_trip_project_local() {
    let mut disk = Disk::empty();
    disk.add("Bash(npm test)");
    let entry = find_last_undone_addition(Some(disk.audit())).expect("entry must be found");
    assert_eq!(entry.pattern, "Bash(npm test)");
    assert_eq!(entry.op_str(), "added");
    assert!(
        matches!(&entry.target, AuditTarget::ProjectLocal { root } if root == "/tmp/proj"),
        "target must be ProjectLocal with correct root"
    );
}

#[test]
fn mod_audit_log_jsonl_round_trip_legacy_user_target() {
    let mut disk = Disk::empty();
    disk.log("added", "Skill", &meta(), &AuditTarget::UserGlobal);
    let entry = find_last_undone_addition(Some(disk.audit())).expect("entry must be found");
    assert_eq!(entry.pattern, "Skill");
    assert!(
        matches!(entry.target, AuditTarget::UserGlobal),
        "UserGlobal target must round-trip correctly"
    );
}

#[test]
fn mod_audit_log_mixed_tsv_legacy_then_jsonl_new() {
    let legacy_line =
        "2026-01-01T00:00:00Z\tadded\tBash(legacy)\ttoolu_old\tabc123\tcore\tproject:/tmp/proj\n";
    let mut disk = Disk { settings: None, audit: Some(legacy_line.to_owned()) };
    disk.add("Bash(new_cmd)");

    let entry = find_last_undone_addition(Some(disk.audit())).expect("entry must be found");
    assert_eq!(
        entry.pattern, "Bash(new_cmd)",
        "newest entry (JSONL) must be returned"
    );
    assert_eq!(entry.op_str(), "added");

    // Undo the newest, then the legacy one should surface.
    disk.undo().unwrap();

    let entry2 = find_last_undone_addition(Some(disk.audit()))
        .expect("legacy entry must surface after undo");
    assert_eq!(entry2.pattern, "Bash(legacy)");
}

#[test]
fn mod_audit_log_handles_bash_pattern_with_tab() {
    let mut disk = Disk::empty();
    let pattern_with_tab = "Bash(echo \"hi\there\")";
    disk.add(pattern_with_tab);
    let entry = find_last_undone_addition(Some(disk.audit())).expect("entry must be found");
    assert_eq!(
        entry.pattern, pattern_with_tab,
        "pattern with tab must round-trip correctly via JSONL"
    );
}

#[test]
fn mod_undo_last_allow_target_aware_project_local() {
    let mut disk = Disk::empty();
    disk.add("Bash(npm test)");
    assert_eq!(disk.allow().len(), 1, "pattern must be in project-local file");

    let outcome = disk.undo().unwrap();
    assert_eq!(
        outcome,
        UndoOutcome::Removed {
            pattern: "Bash(npm test)".to_owned(),
            file: "/tmp/proj/.agent/settings.local.json".to_owned(),
        }
    );
    assert!(
        disk.allow().is_empty(),
        "pattern must be removed from project-local file"
    );
}

#[test]
fn mod_find_last_undone_addition_legacy_6_column_treats_as_user() {
    // A line without a target column was written for the user's own settings.
    let legacy_line = "2026-01-01T00:00:00Z\tadded\tBash(legacy)\ttoolu_old\tabc123\t\n";
    let entry = find_last_undone_addition(Some(legacy_line)).expect("entry");
    assert_eq!(entry.pattern, "Bash(legacy)");
    assert!(matches!(entry.target, AuditTarget::UserGlobal));
}

#[test]
fn mod_resolve_write_target_uses_cwd_as_root_when_no_ancestor_marker() {
    let cwd = "/nonexistent-ccbridge-test-xyz/sub";
    let target = resolve_write_target(cwd, None);
    assert_eq!(
        target.root, cwd,
        "root must equal cwd when no project marker found"
    );
}

#[test]
fn additions_leave_the_users_settings_alone() {
    // Even where a call is made in the home directory itself.
    let target = resolve_write_target("/home/u", None);
    assert_ne!(
        Some(local_settings_path(&target.root, ".agent")),
        settings_path(None, Some("/home/u"), ".agent")
    );
}

#[test]
fn resolve_write_target_prefers_the_project_root() {
    assert_eq!(resolve_write_target("/p/sub", Some("/p".to_owned())).root, "/p");
}

// --- settings of another shape ---

#[test]
fn write_allow_pattern_bails_when_allow_is_string() {
    let settings = j(r#"{"permissions":{"allow":"Bash(git status)"}}"#);
    let err = write_allow_pattern(settings, "Bash(echo hi)").unwrap_err();
    let msg = err.message("/p/settings.local.json");
    assert!(
        msg.contains(".permissions.allow") && msg.contains("string"),
        "error must point at .permissions.allow and name the actual type, got: {msg}"
    );
}

#[test]
fn write_allow_pattern_bails_when_allow_is_null() {
    let settings = j(r#"{"permissions":{"allow":null}}"#);
    let err = write_allow_pattern(settings, "Bash(echo hi)").unwrap_err();
    let msg = err.message("/p/settings.local.json");
    assert!(
        msg.contains(".permissions.allow") && msg.contains("null"),
        "error must point at .permissions.allow and name the actual type, got: {msg}"
    );
}

#[test]
fn write_allow_pattern_bails_on_other_shapes() {
    assert_eq!(
        write_allow_pattern(j("[1]"), "X").unwrap_err(),
        AddError::Root { got: "array" }
    );
    assert_eq!(
        write_allow_pattern(j(r#"{"permissions": true}"#), "X").unwrap_err(),
        AddError::Permissions
    );
    assert_eq!(
        AddError::Root { got: "array" }.message("/f"),
        "settings file /f has unexpected root shape (expected JSON object, got array)"
    );
    assert_eq!(
        AddError::Permissions.message("/f"),
        "settings file /f has unexpected shape at .permissions (expected object)"
    );
    assert_eq!(
        AddError::Allow { got: "number" }.message("/f"),
        "settings file /f has unexpected shape at .permissions.allow (expected array, got number)"
    );
}

#[test]
fn removing_takes_every_occurrence() {
    let settings = j(r#"{"permissions":{"allow":["A","B","A",1]},"x":2}"#);
    assert_eq!(
        remove_allow_pattern(settings, "A"),
        Some(j(r#"{"permissions":{"allow":["B",1]},"x":2}"#))
    );
    assert_eq!(remove_allow_pattern(j(r#"{"permissions":{"allow":["B"]}}"#), "A"), None);
    assert_eq!(remove_allow_pattern(j("{}"), "A"), None);
}

#[test]
fn adding_and_removing_leaves_the_rest() {
    let before = j(r#"{"b": 1.5, "permissions": {"deny": ["D"], "allow": ["B"]}, "a": null}"#);
    let added = match write_allow_pattern(before.clone(), "A") {
        Ok(AddOutcome::Added(added)) => added,
        other => panic!("not added: {other:?}"),
    };
    assert_eq!(
        added,
        j(r#"{"b": 1.5, "permissions": {"deny": ["D"], "allow": ["B", "A"]}, "a": null}"#)
    );
    assert_eq!(remove_allow_pattern(added, "A"), Some(before));
}

#[test]
fn a_missing_file_is_reported() {
    let mut disk = Disk::empty();
    disk.add("Skill");
    disk.settings = None;
    assert!(matches!(disk.undo(), Ok(UndoOutcome::FileMissing { .. })));
    assert_eq!(disk.undo(), Err(UndoError::NothingToUndo));
}

// --- roots in the audit log ---

fn check_root(root: &str, user_global_dir: &str) -> Result<(), UndoError> {
    validate_audit_root(root, None, user_global_dir, None)
}

#[test]
fn validate_audit_root_rejects_filesystem_root() {
    let err = check_root("/", "/nonexistent-ccbridge-ugd").unwrap_err();
    assert!(
        err.message().contains("filesystem root"),
        "error must name the rule, got: {err:?}"
    );
}

#[test]
fn validate_audit_root_rejects_relative_path() {
    let err = check_root("relative/path", "/nonexistent-ccbridge-ugd").unwrap_err();
    assert!(
        err.message().contains("relative"),
        "error must name the rule, got: {err:?}"
    );
}

#[test]
fn validate_audit_root_rejects_user_global_collision() {
    let err = validate_audit_root("/tmp/ugd", Some("/tmp/ugd"), "/tmp/ugd", Some("/tmp/ugd"))
        .unwrap_err();
    assert!(
        err.message().contains("collides"),
        "error must name the collision, got: {err:?}"
    );
}

#[test]
fn validate_audit_root_accepts_normal_project_dir() {
    // Two distinct directories — must pass.
    validate_audit_root("/tmp/a", Some("/tmp/a"), "/tmp/b", Some("/tmp/b")).unwrap();
}

#[test]
fn validate_audit_root_rejects_trailing_dot_collision_when_dir_absent() {
    let err = check_root(
        "/this/path/does/not/exist/.agent/.",
        "/this/path/does/not/exist/.agent",
    )
    .unwrap_err();
    assert!(
        err.message().contains("collides"),
        "error must catch the lexical collision via `.` collapse, got: {err:?}"
    );
}

#[test]
fn validate_audit_root_rejects_parent_dir_collision_when_dir_absent() {
    let err = check_root("/no/such/path/foo/../.agent", "/no/such/path/.agent").unwrap_err();
    assert!(
        err.message().contains("collides"),
        "error must catch the lexical collision via `..` resolution, got: {err:?}"
    );
}

#[test]
fn validate_audit_root_follows_links() {
    // The root is a link to the user's directory.
    let err = validate_audit_root("/tmp/link", Some("/home/u/.agent"), "/home/u/.agent", None)
        .unwrap_err();
    assert!(matches!(err, UndoError::Collides { .. }));
    assert!(err.message().contains("\"/tmp/link\""), "{}", err.message());
}

#[test]
fn messages_quote_what_they_name() {
    let err = check_root("a\"b\n", "/ugd").unwrap_err();
    assert!(err.message().contains(r#""a\"b\n""#), "{}", err.message());
}

#[test]
fn lexically_normalize_collapses_dot_and_parent() {
    assert_eq!(lexically_normalize("/a/b/c/./../d"), "/a/b/d");

    assert_eq!(lexically_normalize("/a/."), "/a");

    // `..` past the root is dropped.
    assert_eq!(lexically_normalize("/a/../../b"), "/b");
}

#[test]
fn paths_compare_by_their_components() {
    assert!(paths_equal("/a//b/", "/a/b/."));
    assert!(!paths_equal("/a/b", "a/b"));
    assert!(paths_equal("./a", "./a/."));
    assert!(!paths_equal("./a", "a"));
    assert!(!paths_equal("/a/../b", "/b"));
    assert_eq!(join_path("/a", "b"), "/a/b");
    assert_eq!(join_path("/a/", "b"), "/a/b");
    assert_eq!(join_path("", "b"), "b");
    assert_eq!(lexically_normalize("a/.."), "");
    assert_eq!(lexically_normalize("../x"), "x");
}

#[test]
fn undo_last_allow_rejects_root_slash() {
    let line = r#"{"ts": "2026-01-01T00:00:00Z", "op": "added", "pattern": "Bash(evil)", "tool_use_id": "toolu_evil", "session_id": "abc123", "target": {"project_local": {"root": "/"}}}"#;
    let mut disk = Disk { settings: None, audit: Some(format!("{line}\n")) };
    let err = disk.undo().unwrap_err();
    assert!(
        err.message().contains("filesystem root") || err.message().contains("invalid"),
        "must reject root '/', got: {err:?}"
    );
}

// --- walking back through the log ---

const UNKNOWN_LINE: &str = r#"{"ts":"2026-02-01T00:00:00Z","op":"added","pattern":"Bash(future)","tool_use_id":"toolu_future","session_id":"xyz","target":"future_target"}"#;

#[test]
fn find_last_undone_addition_skips_unknown_target() {
    let known_line = r#"{"ts":"2026-01-01T00:00:00Z","op":"added","pattern":"Bash(known)","tool_use_id":"toolu_known","session_id":"abc","target":"user_global"}"#;
    let log = format!("{known_line}\n{UNKNOWN_LINE}\n");
    let entry = find_last_undone_addition(Some(&log))
        .expect("must skip unknown and return the known addition");
    assert_eq!(entry.pattern, "Bash(known)");
    assert!(matches!(entry.target, AuditTarget::UserGlobal));
}

#[test]
fn undo_last_allow_bails_on_unknown_target_only() {
    let mut disk = Disk { settings: None, audit: Some(format!("{UNKNOWN_LINE}\n")) };
    let msg = disk.undo().unwrap_err().message();
    assert!(
        msg.contains("no allowlist additions"),
        "must bail with 'no additions' (unknown was skipped), got: {msg}"
    );
}

#[test]
fn a_target_that_is_unknown_has_no_file() {
    let file = undo_file(&AuditTarget::Unknown, None, "/s", "/d", None, ".agent");
    assert_eq!(file, Err(UndoError::UnknownTarget));
    let file = undo_file(&AuditTarget::UserGlobal, None, "/s", "/d", None, ".agent");
    assert_eq!(file.as_deref(), Ok("/s"));
}

#[test]
fn find_last_undone_addition_handles_re_always_after_undo() {
    let line = |op: &str, ts: &str| {
        format!(
            r#"{{"ts": "{ts}", "op": "{op}", "pattern": "Bash(test)", "tool_use_id": "toolu_A", "session_id": "abc", "target": {{"project_local": {{"root": "/tmp/proj"}}}}}}"#
        )
    };
    let log = format!(
        "{}\n{}\n{}\n",
        line("added", "2026-01-01T00:00:00Z"),
        line("undone", "2026-01-01T00:00:01Z"),
        line("added", "2026-01-01T00:00:02Z"),
    );
    let entry = find_last_undone_addition(Some(&log)).expect("re-Always should surface as un-undone");
    assert_eq!(entry.pattern, "Bash(test)");
    assert_eq!(entry.op_str(), "added");
}

#[test]
fn lines_that_mean_nothing_are_passed_over() {
    let entries = parse_log("\nnonsense\n{\"ts\": 1}\na\tadded\tP\tid\ts\n");
    assert_eq!(entries.len(), 1);
    assert_eq!(entries[0].pattern, "P");
    assert_eq!(entries[0].agent_type, None);
    assert!(parse_tsv_audit_line("a\tb").is_none());
    let short = parse_tsv_audit_line("a\tadded\tP").unwrap();
    assert_eq!((short.op_str(), short.pattern.as_str(), short.tool_use_id.as_str()), ("added", "P", ""));
    assert_eq!(short.target, AuditTarget::UserGlobal);
    assert!(find_last_undone_addition(None).is_none());
    assert!(find_last_undone_addition(Some("")).is_none());
}

#[test]
fn rows_read_back() {
    let row = AuditLogRow {
        ts: "t".to_owned(),
        op: "added".to_owned(),
        pattern: "P".to_owned(),
        tool_use_id: "id".to_owned(),
        session_id: "s".to_owned(),
        agent: None,
        target: AuditTarget::ProjectLocal { root: "/r".to_owned() },
    };
    assert_eq!(AuditLogRow::from_json(&row.to_json()), Some(row));
    assert_eq!(
        audit_log_path(None, Some("/home/u")).as_deref(),
        Some("/home/u/.local/state/ccbridge/allowlist-additions.log")
    );
}

/// The pattern of a call, if it has one of its own.
fn specific(tool: &str, input: &str) -> Option<String> {
    match derive_pattern(&event(tool, j(input))) {
        DerivedPattern::Specific(pattern) => Some(pattern),
        DerivedPattern::BareToolNeedsConfirmation { tool: bare } => {
            assert_eq!(bare, tool);
            None
        }
    }
}

#[test]
fn a_text_that_means_more_than_itself_gives_no_pattern() {
    // A prefix of commands.
    assert_eq!(specific("Bash", r#"{"command": "rm:*"}"#), None);
    assert_eq!(specific("Bash", r#"{"command": ":*"}"#), None);
    // Globs.
    assert_eq!(specific("Read", r#"{"file_path": "/a/*"}"#), None);
    assert_eq!(specific("Edit", r#"{"file_path": "/a/[id]/x"}"#), None);
    assert_eq!(specific("Write", r#"{"file_path": "/a/{b,c}"}"#), None);
    assert_eq!(specific("Read", r#"{"file_path": "/a/[b"}"#), None);
    assert_eq!(specific("Read", r#"{"file_path": ""}"#), None);
    // A prefix of ids.
    assert_eq!(specific("mcp__server__*", "{}"), None);
}

#[test]
fn a_text_that_would_miss_its_call_gives_no_pattern() {
    assert_eq!(specific("Bash", r#"{"command": " ls"}"#), None);
    assert_eq!(specific("Bash", r#"{"command": "ls\n"}"#), None);
    assert_eq!(specific("Read", r#"{"file_path": "/a/b "}"#), None);
    assert_eq!(specific("Agent", r#"{"subagent_type": "\tplanner"}"#), None);
    assert_eq!(specific("mcp__server__x ", "{}"), None);
    assert_eq!(specific("mcp__server__x(y)", "{}"), None);
}

#[test]
fn derived_patterns_mean_one_call() {
    for (tool, field, text) in [
        ("Bash", "command", "ls (a) * :* x"),
        ("Bash", "command", ""),
        ("Read", "file_path", "/a/b (1).txt"),
        ("Agent", "subagent_type", "*"),
    ] {
        let input = format!(r#"{{"{field}": "{text}"}}"#);
        let pattern = Pattern::parse(&specific(tool, &input).expect(text));
        assert_eq!(pattern.matches(&event(tool, j(&input))), MatchResult::Confident, "{text}");
        let other = format!(r#"{{"{field}": "{text}x"}}"#);
        assert_ne!(pattern.matches(&event(tool, j(&other))), MatchResult::Confident, "{text}");
    }
    let pattern = Pattern::parse(&specific("mcp__s__m", "{}").unwrap());
    assert_eq!(pattern.matches(&event("mcp__s__m", j("{}"))), MatchResult::Confident);
    assert_eq!(pattern.matches(&event("mcp__s__m2", j("{}"))), MatchResult::NoMatch);
}

#[test]
fn an_undo_is_counted_behind_later_rows() {
    let mut disk = Disk::empty();
    disk.add("Bash(first)");
    disk.add("Bash(second)");
    let later = disk.target().to_audit_target();
    disk.log("checked", "Bash(other)", &meta(), &later);
    // The pattern is gone from the file, and is passed over from then on.
    disk.settings = Some(r#"{"permissions":{"allow":["Bash(first)"]}}"#.to_owned());
    assert!(matches!(disk.undo(), Ok(UndoOutcome::AlreadyGone { pattern, .. }) if pattern == "Bash(second)"));
    assert!(matches!(disk.undo(), Ok(UndoOutcome::Removed { pattern, .. }) if pattern == "Bash(first)"));
    assert_eq!(disk.undo(), Err(UndoError::NothingToUndo));
}

#[test]
fn normalizing_twice_changes_nothing() {
    for path in ["/a/b/../c", "a/./b", "../x", "/..", "", "/", "a//b/", "x/.."] {
        let once = lexically_normalize(path);
        assert_eq!(lexically_normalize(&once), once, "{path}");
    }
}

#[test]
fn a_parent_keeps_the_spelling() {
    assert_eq!(parent_path("/a//b/./c/").as_deref(), Some("/a//b"));
    assert_eq!(parent_path("/a").as_deref(), Some("/"));
    assert_eq!(parent_path("./a").as_deref(), Some("."));
    assert_eq!(parent_path("a").as_deref(), Some(""));
    assert_eq!(parent_path("a/..").as_deref(), Some("a"));
    assert_eq!(parent_path("/"), None);
    assert_eq!(parent_path(""), None);
}

#[test]
fn a_row_may_be_an_array_of_its_fields() {
    let named = j(r#"{"ts": "t", "op": "added", "pattern": "p", "tool_use_id": "u",
        "session_id": "s", "agent": "core", "target": {"project_local": {"root": "/r"}}}"#);
    let listed = j(r#"["t", "added", "p", "u", "s", "core", {"project_local": ["/r"]}]"#);
    let row = AuditLogRow::from_json(&listed).expect("a row");
    assert_eq!(row.target, AuditTarget::ProjectLocal { root: "/r".to_owned() });
    assert_eq!(Some(row), AuditLogRow::from_json(&named));
    let quiet = j(r#"["t", "added", "p", "u", "s", null, "user_global"]"#);
    assert_eq!(AuditLogRow::from_json(&quiet).map(|r| r.agent), Some(None));
    assert_eq!(AuditLogRow::from_json(&j(r#"["t", "added", "p", "u", "s", null]"#)), None);
    let long = j(r#"["t", "added", "p", "u", "s", null, "user_global", 1]"#);
    assert_eq!(AuditLogRow::from_json(&long), None);
}
