//! Allow and deny lists, decisions, project roots and the project cache.

use ccbridge::json::Json;
use ccbridge::outside::parse_json;
use ccbridge::permission::allowlist::Allowlist;
use ccbridge::permission::cache::ProjectAllowlistCache;
use ccbridge::permission::pattern::Pattern;
use ccbridge::permission::project::{find_project_root_with_home, project_root_candidates};
use ccbridge::permission::{evaluate, AllowOrDeny, Decision};
use ccbridge::proto::hook::{HookBase, PermissionMode, PreToolUseEvent};

fn j(text: &str) -> Json {
    parse_json(text).expect("valid JSON")
}

fn call(tool: &str, input: Json, permission_mode: PermissionMode) -> PreToolUseEvent {
    PreToolUseEvent {
        base: HookBase {
            session_id: "sess".to_owned(),
            transcript_path: "/tmp/t.jsonl".to_owned(),
            cwd: "/tmp".to_owned(),
        },
        permission_mode,
        effort: None,
        tool_name: tool.to_owned(),
        tool_input: input,
        tool_use_id: "toolu_test".to_owned(),
        agent_id: None,
        agent_type: None,
    }
}

fn pre_tool_use(tool: &str, permission_mode: PermissionMode) -> PreToolUseEvent {
    call(tool, j(r#"{"command": "echo test"}"#), permission_mode)
}

fn evaluate_bare(e: &PreToolUseEvent) -> Decision {
    evaluate(e, &Allowlist::empty())
}

fn allowlist_with_patterns(allow: &[&str], deny: &[&str]) -> Allowlist {
    Allowlist {
        allow: allow.iter().map(|s| Pattern::parse(s)).collect(),
        deny: deny.iter().map(|s| Pattern::parse(s)).collect(),
    }
}

fn raw_strs(patterns: &[Pattern]) -> Vec<&str> {
    patterns.iter().map(|p| p.raw()).collect()
}

// --- lists of a settings document ---

#[test]
fn empty_json_object_gives_empty_allowlist() {
    let a = Allowlist::from_settings_json(&j("{}"));
    assert!(a.allow.is_empty());
    assert!(a.deny.is_empty());
}

#[test]
fn missing_permissions_key_gives_empty_allowlist() {
    let a = Allowlist::from_settings_json(&j(r#"{"theme": "dark", "tui": "fullscreen"}"#));
    assert!(a.allow.is_empty());
    assert!(a.deny.is_empty());
}

#[test]
fn empty_allow_deny_arrays() {
    let a = Allowlist::from_settings_json(&j(r#"{"permissions": {"allow": [], "deny": []}}"#));
    assert!(a.allow.is_empty());
    assert!(a.deny.is_empty());
}

#[test]
fn allow_and_deny_both_populated() {
    let root = j(r#"{
        "permissions": {
            "allow": ["Skill", "mcp__plugin_backlog_tasks__*"],
            "deny":  ["Read(**/.env*)", "Edit(**/*.pem)"]
        }
    }"#);
    let a = Allowlist::from_settings_json(&root);
    assert_eq!(a.allow.len(), 2);
    assert_eq!(a.deny.len(), 2);
}

#[test]
fn non_string_entries_skipped_no_panic() {
    let root = j(r#"{
        "permissions": {
            "allow": ["Skill", 42, null, true, "Bash"],
            "deny":  []
        }
    }"#);
    let a = Allowlist::from_settings_json(&root);
    assert_eq!(a.allow.len(), 2, "non-string entries must be skipped");
    assert_eq!(raw_strs(&a.allow), vec!["Skill", "Bash"]);
}

#[test]
fn real_world_settings_shape() {
    let root = j(r#"{
        "permissions": {
            "allow": [
                "Skill",
                "mcp__plugin_context7_context7__resolve-library-id",
                "mcp__plugin_context7_context7__query-docs",
                "mcp__plugin_backlog_tasks__*",
                "Agent(task-planner)"
            ],
            "deny": [
                "Read(**/.env*)",
                "Read(**/*.pem)",
                "Read(**/*.key)",
                "Read(**/*.p12)",
                "Read(**/*.pfx)",
                "Read(**/*.cer)",
                "Read(**/*.crt)",
                "Read(**/.ssh/**)",
                "Read(**/*secret*)",
                "Read(**/*credential*)",
                "Read(**/.aws/credentials)",
                "Edit(**/.env*)",
                "Edit(**/*.pem)",
                "Edit(**/*.key)",
                "Edit(**/.ssh/**)"
            ]
        }
    }"#);
    let a = Allowlist::from_settings_json(&root);
    assert_eq!(a.allow.len(), 5, "expected 5 allow patterns");
    assert_eq!(a.deny.len(), 15, "expected 15 deny patterns");
}

#[test]
fn from_path_missing_file_returns_empty() {
    let a = Allowlist::from_text(None).unwrap();
    assert!(a.allow.is_empty());
    assert!(a.deny.is_empty());
}

#[test]
fn from_path_malformed_json_returns_err() {
    assert!(Allowlist::from_text(Some("not valid json")).is_none());
}

#[test]
fn from_text_reads_the_lists() {
    let a = Allowlist::from_text(Some(r#"{"permissions": {"deny": ["Skill"]}}"#)).unwrap();
    assert!(a.allow.is_empty());
    assert_eq!(raw_strs(&a.deny), vec!["Skill"]);
}

// --- cascade ---

#[test]
fn cascade_deny_union() {
    let local = allowlist_with_patterns(&[], &["Skill"]);
    let project = allowlist_with_patterns(&[], &["Bash(npm test)"]);
    let user = allowlist_with_patterns(&[], &["Read(**/.env*)"]);

    let merged = Allowlist::cascade(local, project, user);

    let deny_raws = raw_strs(&merged.deny);
    assert!(deny_raws.contains(&"Skill"), "local deny must be present");
    assert!(deny_raws.contains(&"Bash(npm test)"), "project deny must be present");
    assert!(deny_raws.contains(&"Read(**/.env*)"), "user deny must be present");
    assert_eq!(merged.deny.len(), 3);
}

#[test]
fn cascade_allow_union() {
    let local = allowlist_with_patterns(&["Agent(task-planner)"], &[]);
    let project = allowlist_with_patterns(&["Bash(npm test)"], &[]);
    let user = allowlist_with_patterns(&["Skill"], &[]);

    let merged = Allowlist::cascade(local, project, user);

    let allow_raws = raw_strs(&merged.allow);
    assert!(allow_raws.contains(&"Agent(task-planner)"), "local allow must be present");
    assert!(allow_raws.contains(&"Bash(npm test)"), "project allow must be present");
    assert!(allow_raws.contains(&"Skill"), "user allow must be present");
    assert_eq!(merged.allow.len(), 3);
}

#[test]
fn cascade_local_first_in_vec() {
    let local = allowlist_with_patterns(&["A"], &["X"]);
    let project = allowlist_with_patterns(&["B"], &["Y"]);
    let user = allowlist_with_patterns(&["C"], &["Z"]);

    let merged = Allowlist::cascade(local, project, user);

    let allow_raws = raw_strs(&merged.allow);
    assert_eq!(allow_raws, vec!["A", "B", "C"], "allow order must be local→project→user");

    let deny_raws = raw_strs(&merged.deny);
    assert_eq!(deny_raws, vec!["X", "Y", "Z"], "deny order must be local→project→user");
}

// --- decisions ---

#[test]
fn bypass_permissions_allows() {
    let e = pre_tool_use("Bash", PermissionMode::BypassPermissions);
    assert!(
        matches!(evaluate_bare(&e), Decision::Allow { .. }),
        "bypassPermissions must auto-allow"
    );
}

#[test]
fn auto_allows() {
    let e = pre_tool_use("Bash", PermissionMode::Auto);
    assert!(matches!(evaluate_bare(&e), Decision::Allow { .. }));
}

#[test]
fn dont_ask_allows() {
    let e = pre_tool_use("Bash", PermissionMode::DontAsk);
    assert!(matches!(evaluate_bare(&e), Decision::Allow { .. }));
}

#[test]
fn accept_edits_allows() {
    let e = pre_tool_use("Edit", PermissionMode::AcceptEdits);
    assert!(matches!(evaluate_bare(&e), Decision::Allow { .. }));
}

#[test]
fn default_mode_intercepts() {
    let e = pre_tool_use("Bash", PermissionMode::Default);
    assert!(
        matches!(evaluate_bare(&e), Decision::Intercept),
        "default mode must use the normal intercept flow"
    );
}

#[test]
fn plan_mode_intercepts() {
    let e = pre_tool_use("Bash", PermissionMode::Plan);
    assert!(
        matches!(evaluate_bare(&e), Decision::Intercept),
        "plan mode must NOT auto-allow (it is more restrictive, not less)"
    );
}

#[test]
fn allow_reason_includes_mode_name() {
    let e = pre_tool_use("Bash", PermissionMode::BypassPermissions);
    match evaluate_bare(&e) {
        Decision::Allow { reason } => {
            assert!(
                reason.contains("BypassPermissions"),
                "reason should name the mode, got: {reason:?}"
            );
            assert_eq!(reason, "permission_mode=BypassPermissions");
        }
        other => panic!("expected Allow, got {other:?}"),
    }
}

#[test]
fn deny_wins_over_allow() {
    let lists = allowlist_with_patterns(&["Bash"], &["Bash(rm:*)"]);
    let e = call("Bash", j(r#"{"command": "rm -rf /tmp/x"}"#), PermissionMode::Default);
    match evaluate(&e, &lists) {
        Decision::Deny { reason } => assert_eq!(reason, "permissions.deny: Bash(rm:*)"),
        other => panic!("expected Deny, got {other:?}"),
    }
    let ok = call("Bash", j(r#"{"command": "ls"}"#), PermissionMode::Default);
    match evaluate(&ok, &lists) {
        Decision::Allow { reason } => assert_eq!(reason, "permissions.allow: Bash"),
        other => panic!("expected Allow, got {other:?}"),
    }
}

#[test]
fn unsure_deny_asks_before_a_sure_allow() {
    let lists = allowlist_with_patterns(&["FutureTool"], &["FutureTool(x)", "FutureTool(y)"]);
    let e = call("FutureTool", j("{}"), PermissionMode::Default);
    match evaluate(&e, &lists) {
        Decision::AskAnnotated(a) => {
            assert_eq!(a.matched_pattern, "FutureTool(x)");
            assert_eq!(a.source, AllowOrDeny::Deny);
        }
        other => panic!("expected AskAnnotated, got {other:?}"),
    }
}

#[test]
fn unsure_allow_asks_unless_another_is_sure() {
    let e = call("FutureTool", j("{}"), PermissionMode::Default);
    let unsure = allowlist_with_patterns(&["Skill", "FutureTool(x)"], &[]);
    match evaluate(&e, &unsure) {
        Decision::AskAnnotated(a) => {
            assert_eq!(a.matched_pattern, "FutureTool(x)");
            assert_eq!(a.source, AllowOrDeny::Allow);
        }
        other => panic!("expected AskAnnotated, got {other:?}"),
    }
    let sure = allowlist_with_patterns(&["FutureTool(x)", "FutureTool"], &[]);
    assert!(matches!(evaluate(&e, &sure), Decision::Allow { .. }));
}

#[test]
fn permissive_mode_goes_before_the_deny_list() {
    let lists = allowlist_with_patterns(&[], &["Bash"]);
    let e = pre_tool_use("Bash", PermissionMode::Auto);
    assert!(matches!(evaluate(&e, &lists), Decision::Allow { .. }));
}

// --- project roots ---

#[test]
fn find_project_root_with_dotclaude() {
    let found = find_project_root_with_home("/tmp/proj", None, &vec![true, false, false]);
    assert_eq!(found.as_deref(), Some("/tmp/proj"));
}

#[test]
fn find_project_root_returns_none_when_no_markers() {
    let cwd = "/nonexistent-ccbridge-test-path-xyz/sub";
    let candidates = project_root_candidates(cwd, None);
    assert_eq!(candidates, vec![cwd, "/nonexistent-ccbridge-test-path-xyz", "/"]);
    let result = find_project_root_with_home(cwd, None, &vec![false; candidates.len()]);
    assert!(result.is_none(), "no markers anywhere → expected None, got {result:?}");
}

#[test]
fn find_project_root_dotclaude_beats_dotgit_different_levels() {
    // Both the directory and its parent are marked: the nearest one counts.
    let result = find_project_root_with_home("/tmp/a/subproject", None, &vec![true, true, false, false]);
    assert_eq!(result.as_deref(), Some("/tmp/a/subproject"));
}

#[test]
fn find_project_root_skips_home_dotclaude() {
    let candidates = project_root_candidates("/home/u/dev/tmp", Some("/home/u"));
    assert_eq!(candidates, vec!["/home/u/dev/tmp", "/home/u/dev"]);
    let result =
        find_project_root_with_home("/home/u/dev/tmp", Some("/home/u"), &vec![false, false, true]);
    assert!(
        result.is_none(),
        "the home directory must not be treated as a project root, got {result:?}",
    );
}

#[test]
fn find_project_root_returns_ancestor_not_descendant() {
    let result =
        find_project_root_with_home("/tmp/p/src/main", None, &vec![false, false, true, false, false]);
    assert_eq!(
        result.as_deref(),
        Some("/tmp/p"),
        "must return the ancestor that is marked, not the starting dir"
    );
}

#[test]
fn project_candidates_of_odd_paths() {
    assert_eq!(
        project_root_candidates("/a//b/./c/", None),
        vec!["/a//b/./c/", "/a//b", "/a", "/"]
    );
    assert_eq!(project_root_candidates("./a/b", None), vec!["./a/b", "./a", ".", ""]);
    assert_eq!(project_root_candidates("/home/u", Some("/home/u/")), Vec::<String>::new());
    assert_eq!(project_root_candidates("a/b", None), vec!["a/b", "a", ""]);
}

// --- project cache ---

#[test]
fn cascade_for_unknown_cwd_returns_user_only() {
    let cache = ProjectAllowlistCache::new(allowlist_with_patterns(&["Skill"], &[]));
    let cascade = cache.cascade_for(None);
    let allow_raws = raw_strs(&cascade.allow);
    assert!(allow_raws.contains(&"Skill"), "user allow must be present");
    assert!(cascade.deny.is_empty(), "no deny patterns expected");
}

#[test]
fn cascade_for_project_loads_both_files() {
    let mut cache = ProjectAllowlistCache::new(allowlist_with_patterns(&["Skill"], &[]));
    assert!(cache.needs_project("/p"));
    cache.add_project(
        "/p".to_owned(),
        allowlist_with_patterns(&[], &["Bash(rm:*)"]),
        allowlist_with_patterns(&["Bash(echo test)"], &[]),
    );
    let cascade = cache.cascade_for(Some("/p"));
    assert_eq!(raw_strs(&cascade.allow), vec!["Bash(echo test)", "Skill"]);
    assert_eq!(raw_strs(&cascade.deny), vec!["Bash(rm:*)"]);
}

#[test]
fn cascade_for_project_with_only_local() {
    let mut cache = ProjectAllowlistCache::new(allowlist_with_patterns(&["Skill"], &[]));
    cache.add_project(
        "/p".to_owned(),
        Allowlist::from_text(None).unwrap(),
        allowlist_with_patterns(&["Bash(echo hi)"], &[]),
    );
    let cascade = cache.cascade_for(Some("/p"));
    let allow_raws = raw_strs(&cascade.allow);
    assert!(allow_raws.contains(&"Bash(echo hi)"), "local allow must be present");
    assert!(allow_raws.contains(&"Skill"), "user allow must be present");
}

#[test]
fn cascade_for_project_with_no_files() {
    let mut cache = ProjectAllowlistCache::new(allowlist_with_patterns(&["Skill"], &[]));
    cache.add_project("/p".to_owned(), Allowlist::empty(), Allowlist::empty());
    let cascade = cache.cascade_for(Some("/p"));
    assert_eq!(raw_strs(&cascade.allow), vec!["Skill"], "only user allow expected");
    assert!(cascade.deny.is_empty());
}

#[test]
fn cascade_for_caches_entry() {
    let mut cache = ProjectAllowlistCache::new(Allowlist::empty());
    cache.add_project("/p".to_owned(), Allowlist::empty(), Allowlist::empty());
    cache.add_project("/p".to_owned(), allowlist_with_patterns(&["X"], &[]), Allowlist::empty());
    assert_eq!(
        cache.cached_project_count(),
        1,
        "same project root must only produce one cache entry"
    );
    assert!(!cache.needs_project("/p"));
    assert!(cache.cascade_for(Some("/p")).allow.is_empty());
}

#[test]
fn evaluate_uses_project_local_deny() {
    let mut cache = ProjectAllowlistCache::new(allowlist_with_patterns(&["Skill"], &[]));
    cache.add_project(
        "/p".to_owned(),
        Allowlist::empty(),
        allowlist_with_patterns(&[], &["Bash(npm test)"]),
    );
    let event = call("Bash", j(r#"{"command": "npm test"}"#), PermissionMode::Default);
    let decision = evaluate(&event, &cache.cascade_for(Some("/p")));
    assert!(
        matches!(decision, Decision::Deny { .. }),
        "project-local deny must flow through evaluate() as Deny, got {decision:?}"
    );
}

#[test]
fn reloading_replaces_one_source() {
    let mut cache = ProjectAllowlistCache::new(allowlist_with_patterns(&["U"], &[]));
    cache.add_project(
        "/p".to_owned(),
        allowlist_with_patterns(&["P"], &[]),
        allowlist_with_patterns(&["L"], &[]),
    );
    cache.reload_user(allowlist_with_patterns(&["U2"], &[]));
    cache.reload_local("/p", allowlist_with_patterns(&["L2"], &[]));
    assert_eq!(raw_strs(&cache.cascade_for(Some("/p")).allow), vec!["L2", "P", "U2"]);
    cache.reload_project("/p", allowlist_with_patterns(&["P2"], &[]));
    assert_eq!(raw_strs(&cache.cascade_for(Some("/p")).allow), vec!["L2", "P2", "U2"]);
    cache.reload_project("/other", allowlist_with_patterns(&["X"], &[]));
    assert_eq!(cache.cached_project_count(), 1);
}
