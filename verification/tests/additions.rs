//! Adding patterns for good, and taking them back.

use ccbridge::json::Json;
use ccbridge::outside::parse_json;
use ccbridge::permission::additions::audit_log::{
    audit_line, find_last_undone_addition, AdditionMetadata,
};
use ccbridge::permission::additions::derive::{derive_pattern, DerivedPattern};
use ccbridge::permission::additions::target::{
    local_settings_path, resolve_write_target, AuditTarget, WriteTarget,
};
use ccbridge::permission::additions::undo::{
    find_addition, undo_file, undo_last_allow, UndoError, UndoOutcome,
};
use ccbridge::permission::additions::write::{write_allow_pattern, AddOutcome};
use ccbridge::permission::pattern::{MatchResult, Pattern};
use ccbridge::proto::hook::{HookBase, PermissionMode, PreToolUseEvent};
use ccbridge::setup::{load_settings, settings_text};

fn j(text: &str) -> Json {
    parse_json(text).expect("valid JSON")
}

fn event(tool: &str, input: Json) -> PreToolUseEvent {
    PreToolUseEvent {
        base: HookBase {
            session_id: "3cb58992-935c-4fdd-9efd-1f160946e822".to_owned(),
            transcript_path: "/tmp/t.jsonl".to_owned(),
            cwd: "/tmp".to_owned(),
        },
        permission_mode: PermissionMode::Default,
        effort: None,
        tool_name: tool.to_owned(),
        tool_input: input,
        tool_use_id: "toolu_test_01".to_owned(),
        agent_id: None,
        agent_type: None,
    }
}

fn meta() -> AdditionMetadata {
    AdditionMetadata {
        tool_use_id: "toolu_test_01".to_owned(),
        session_id: "3cb58992-935c-4fdd-9efd-1f160946e822".to_owned(),
        agent_type: Some("core".to_owned()),
    }
}

/// A project's settings file and the audit log, as their texts.
struct Disk {
    settings: Option<String>,
    audit: Option<String>,
}

impl Disk {
    fn empty() -> Disk {
        Disk { settings: None, audit: None }
    }

    fn target(&self) -> WriteTarget {
        WriteTarget { root: "/tmp/proj".to_owned() }
    }

    fn log(&mut self, op: &str, pattern: &str, metadata: &AdditionMetadata, target: &AuditTarget) {
        let line = audit_line("2026-05-20T00:00:00Z", op, pattern, metadata, target);
        self.audit.get_or_insert_with(String::new).push_str(&line);
    }

    /// Adds a pattern and records it, unless it is there already.
    fn add(&mut self, pattern: &str) {
        let settings = load_settings(self.settings.as_deref()).expect("readable settings");
        match write_allow_pattern(settings, pattern).expect("settings of the right shape") {
            AddOutcome::Added(changed) => {
                self.settings = Some(settings_text(&changed));
                let target = self.target().to_audit_target();
                self.log("added", pattern, &meta(), &target);
            }
            AddOutcome::AlreadyPresent => {}
        }
    }

    /// Takes the last addition back and records that.
    fn undo(&mut self) -> Result<UndoOutcome, UndoError> {
        let entry = find_addition(self.audit.as_deref())?;
        let file = undo_file(
            &entry.target,
            None,
            "/home/u/.agent/settings.json",
            "/home/u/.agent",
            None,
            ".agent",
        )?;
        let settings = match &self.settings {
            Some(text) => Some(load_settings(Some(text)).expect("readable settings")),
            None => None,
        };
        let (outcome, changed) = undo_last_allow(&entry, &file, settings);
        if let Some(changed) = changed {
            self.settings = Some(settings_text(&changed));
        }
        let metadata = AdditionMetadata {
            tool_use_id: entry.tool_use_id.clone(),
            session_id: entry.session_id.clone(),
            agent_type: entry.agent_type.clone(),
        };
        self.log("undone", &entry.pattern, &metadata, &entry.target);
        Ok(outcome)
    }

    fn allow(&self) -> Vec<Json> {
        let settings = load_settings(self.settings.as_deref()).expect("readable settings");
        match settings.get("permissions").and_then(|p| p.get("allow")) {
            Some(Json::Array(items)) => items.clone(),
            other => panic!("no list of patterns: {other:?}"),
        }
    }

    fn audit(&self) -> &str {
        self.audit.as_deref().expect("an audit log")
    }
}

// --- patterns of calls ---

#[test]
fn additions_derive_pattern_bash_literal_command() {
    let e = event("Bash", j(r#"{"command": "rm -rf /tmp/foo"}"#));
    assert_eq!(
        derive_pattern(&e),
        DerivedPattern::Specific("Bash(rm -rf /tmp/foo)".to_owned())
    );
}

#[test]
fn additions_derive_pattern_read_exact_path() {
    let e = event("Read", j(r#"{"file_path": "/home/user/.env"}"#));
    assert_eq!(
        derive_pattern(&e),
        DerivedPattern::Specific("Read(/home/user/.env)".to_owned())
    );
}

#[test]
fn additions_derive_pattern_edit_exact_path() {
    let e = event(
        "Edit",
        j(r#"{"file_path": "/tmp/foo.rs", "old_string": "a", "new_string": "b"}"#),
    );
    assert_eq!(
        derive_pattern(&e),
        DerivedPattern::Specific("Edit(/tmp/foo.rs)".to_owned())
    );
}

#[test]
fn additions_derive_pattern_agent_subagent_type() {
    let e = event("Agent", j(r#"{"subagent_type": "task-planner"}"#));
    assert_eq!(
        derive_pattern(&e),
        DerivedPattern::Specific("Agent(task-planner)".to_owned())
    );
}

#[test]
fn additions_derive_pattern_mcp_exact() {
    let e = event("mcp__plugin_context7_context7__query-docs", j("{}"));
    assert_eq!(
        derive_pattern(&e),
        DerivedPattern::Specific("mcp__plugin_context7_context7__query-docs".to_owned())
    );
}

#[test]
fn additions_derive_pattern_unknown_tool_is_bare() {
    let e = event("WebSearch", j(r#"{"query": "Rust tokio tutorial"}"#));
    assert_eq!(
        derive_pattern(&e),
        DerivedPattern::BareToolNeedsConfirmation { tool: "WebSearch".to_owned() }
    );
}

#[test]
fn additions_derive_pattern_bash_missing_command_is_bare() {
    let e = event("Bash", j(r#"{"description": "no command field"}"#));
    assert_eq!(
        derive_pattern(&e),
        DerivedPattern::BareToolNeedsConfirmation { tool: "Bash".to_owned() }
    );
}

#[test]
fn additions_derive_pattern_glob_falls_to_bare() {
    // Glob names its input "pattern", not "file_path".
    let e = event("Glob", j(r#"{"pattern": "*.rs"}"#));
    assert_eq!(
        derive_pattern(&e),
        DerivedPattern::BareToolNeedsConfirmation { tool: "Glob".to_owned() }
    );
}

#[test]
fn additions_derive_pattern_non_string_field_falls_to_bare() {
    // A number must not be taken for a path.
    let e = event("Read", j(r#"{"file_path": 42}"#));
    assert_eq!(
        derive_pattern(&e),
        DerivedPattern::BareToolNeedsConfirmation { tool: "Read".to_owned() }
    );
}

fn assert_round_trip(tool: &str, input: Json, expected_pattern: &str) {
    let e = event(tool, input);
    let derived = derive_pattern(&e);
    assert_eq!(
        derived,
        DerivedPattern::Specific(expected_pattern.to_owned()),
        "derive_pattern should produce Specific({expected_pattern:?}) for {tool}"
    );
    let parsed = Pattern::parse(expected_pattern);
    assert_eq!(
        parsed.matches(&e),
        MatchResult::Confident,
        "Pattern::parse({expected_pattern:?}).matches(event) must be Confident for round-trip"
    );
}

#[test]
fn additions_round_trip_bash_command() {
    assert_round_trip("Bash", j(r#"{"command": "git status"}"#), "Bash(git status)");
}

#[test]
fn additions_round_trip_read_path() {
    assert_round_trip("Read", j(r#"{"file_path": "/tmp/file.txt"}"#), "Read(/tmp/file.txt)");
}

#[test]
fn additions_round_trip_agent_subagent() {
    assert_round_trip("Agent", j(r#"{"subagent_type": "task-planner"}"#), "Agent(task-planner)");
}

#[test]
fn additions_round_trip_mcp_exact() {
    assert_round_trip(
        "mcp__plugin_backlog_tasks__task_list",
        j("{}"),
        "mcp__plugin_backlog_tasks__task_list",
    );
}

// --- adding a pattern ---

#[test]
fn additions_write_allow_pattern_adds_to_array() {
    let mut disk = Disk { settings: Some(r#"{"theme":"dark"}"#.to_owned()), audit: None };
    disk.add("Bash(git status)");
    let allow = disk.allow();
    assert_eq!(allow.len(), 1);
    assert_eq!(allow[0], Json::Str("Bash(git status)".to_owned()));
    assert_eq!(j(disk.settings.as_deref().unwrap()).get_str("theme"), Some("dark"));
}

#[test]
fn additions_write_allow_pattern_idempotent() {
    let mut disk = Disk::empty();
    disk.add("Bash(echo hi)");
    disk.add("Bash(echo hi)");
    assert_eq!(disk.allow().len(), 1, "duplicate pattern must not be added");
}

#[test]
fn additions_write_allow_pattern_writes_audit_log() {
    let mut disk = Disk::empty();
    disk.add("Read(/tmp/file.txt)");
    let log = disk.audit();
    assert!(log.contains("added"), "audit log must contain 'added' op");
    assert!(
        log.contains("Read(/tmp/file.txt)"),
        "audit log must contain the pattern"
    );
}

// --- taking it back ---

#[test]
fn additions_undo_last_allow_removes_pattern() {
    let mut disk = Disk::empty();
    disk.add("Bash(echo undo_me)");
    assert_eq!(disk.allow().len(), 1);

    disk.undo().unwrap();
    assert!(disk.allow().is_empty(), "pattern must be removed after undo");
    assert!(
        disk.audit().contains("undone"),
        "audit log must contain 'undone' after undo"
    );
}

#[test]
fn additions_undo_last_allow_empty_audit_returns_error() {
    let err = Disk::empty().undo().unwrap_err();
    assert!(
        err.message().contains("no allowlist additions"),
        "error message must mention empty audit log"
    );
}

#[test]
fn additions_undo_last_allow_idempotent_when_pattern_already_gone() {
    let mut disk = Disk::empty();
    disk.add("Bash(already_gone)");
    // The list is emptied by hand.
    disk.settings = Some(r#"{"permissions":{"allow":[]}}"#.to_owned());

    let outcome = disk.undo().unwrap();
    assert!(
        matches!(outcome, UndoOutcome::AlreadyGone { .. }),
        "must return AlreadyGone when pattern not in file"
    );
}

#[test]
fn additions_write_allow_pattern_project_local_creates_dotclaude_dir() {
    let mut disk = Disk::empty();
    disk.add("Bash(npm test)");
    assert_eq!(
        local_settings_path(&disk.target().root, ".agent"),
        "/tmp/proj/.agent/settings.local.json"
    );
    assert_eq!(disk.allow()[0], Json::Str("Bash(npm test)".to_owned()));
}

#[test]
fn additions_write_allow_pattern_project_local_records_target_in_audit() {
    let mut disk = Disk::empty();
    disk.add("Skill");
    let log = disk.audit();
    assert!(
        log.contains("/tmp/proj"),
        "audit log must contain project root path, got:\n{log}"
    );
    assert!(
        log.contains("project_local"),
        "audit log must contain 'project_local' key, got:\n{log}"
    );
}

// --- the audit log ---

#[test]
fn additions_audit_entry_user_global_encodes_as_jsonl() {
    let mut disk = Disk::empty();
    disk.log("added", "Skill", &meta(), &AuditTarget::UserGlobal);
    let row = j(disk.audit().trim());
    assert_eq!(
        row.get("target"),
        Some(&j(r#""user_global""#)),
        "UserGlobal target must serialise as \"user_global\""
    );
}

#[test]
fn additions_audit_log_jsonl_round_trip_project_local() {
    let mut disk = Disk::empty();
    disk.add("Bash(npm test)");
    let entry = find_last_undone_addition(Some(disk.audit())).expect("entry must be found");
    assert_eq!(entry.pattern, "Bash(npm test)");
    assert_eq!(entry.op_str(), "added");
    assert!(
        matches!(&entry.target, AuditTarget::ProjectLocal { root } if root == "/tmp/proj"),
        "target must be ProjectLocal with correct root"
    );
}

#[test]
fn additions_audit_log_jsonl_round_trip_legacy_user_target() {
    let mut disk = Disk::empty();
    disk.log("added", "Skill", &meta(), &AuditTarget::UserGlobal);
    let entry = find_last_undone_addition(Some(disk.audit())).expect("entry must be found");
    assert_eq!(entry.pattern, "Skill");
    assert!(
        matches!(entry.target, AuditTarget::UserGlobal),
        "UserGlobal target must round-trip correctly"
    );
}

#[test]
fn additions_audit_log_mixed_tsv_legacy_then_jsonl_new() {
    let legacy_line =
        "2026-01-01T00:00:00Z\tadded\tBash(legacy)\ttoolu_old\tabc123\tcore\tproject:/tmp/proj\n";
    let mut disk = Disk { settings: None, audit: Some(legacy_line.to_owned()) };
    disk.add("Bash(new_cmd)");

    let entry = find_last_undone_addition(Some(disk.audit())).expect("entry must be found");
    assert_eq!(
        entry.pattern, "Bash(new_cmd)",
        "newest entry (JSONL) must be returned"
    );
    assert_eq!(entry.op_str(), "added");

    // Undo the newest, then the legacy one should surface.
    disk.undo().unwrap();

    let entry2 = find_last_undone_addition(Some(disk.audit()))
        .expect("legacy entry must surface after undo");
    assert_eq!(entry2.pattern, "Bash(legacy)");
}

#[test]
fn additions_audit_log_handles_bash_pattern_with_tab() {
    let mut disk = Disk::empty();
    let pattern_with_tab = "Bash(echo \"hi\there\")";
    disk.add(pattern_with_tab);
    let entry = find_last_undone_addition(Some(disk.audit())).expect("entry must be found");
    assert_eq!(
        entry.pattern, pattern_with_tab,
        "pattern with tab must round-trip correctly via JSONL"
    );
}

#[test]
fn additions_undo_last_allow_target_aware_project_local() {
    let mut disk = Disk::empty();
    disk.add("Bash(npm test)");
    assert_eq!(disk.allow().len(), 1, "pattern must be in project-local file");

    let outcome = disk.undo().unwrap();
    assert_eq!(
        outcome,
        UndoOutcome::Removed {
            pattern: "Bash(npm test)".to_owned(),
            file: "/tmp/proj/.agent/settings.local.json".to_owned(),
        }
    );
    assert!(
        disk.allow().is_empty(),
        "pattern must be removed from project-local file"
    );
}

#[test]
fn additions_find_last_undone_addition_legacy_6_column_treats_as_user() {
    // A line without a target column was written for the user's own settings.
    let legacy_line = "2026-01-01T00:00:00Z\tadded\tBash(legacy)\ttoolu_old\tabc123\t\n";
    let entry = find_last_undone_addition(Some(legacy_line)).expect("entry");
    assert_eq!(entry.pattern, "Bash(legacy)");
    assert!(matches!(entry.target, AuditTarget::UserGlobal));
}

#[test]
fn additions_resolve_write_target_uses_cwd_as_root_when_no_ancestor_marker() {
    let cwd = "/nonexistent-ccbridge-test-xyz/sub";
    let target = resolve_write_target(cwd, None);
    assert_eq!(
        target.root, cwd,
        "root must equal cwd when no project marker found"
    );
}
