//! Registering the hooks, and the configuration file.

use ccbridge::config::{config_path, Config};
use ccbridge::json::Json;
use ccbridge::json_order::sorted;
use ccbridge::outside::{parse_json, print_json, print_json_pretty};
use ccbridge::setup::{
    any_added, hook_event, json_type_name, load_settings, merge_hooks, settings_path,
    settings_text, setup_summary, write_default_config_if_absent, ConfigAction, HookAction, HookMergeResult,
    DEFAULT_CONFIG_TOML, HOOK_EVENT_COUNT,
};

const HOOK_COMMAND: &str = "ccbridge-hook";

fn j(text: &str) -> Json {
    parse_json(text).expect("valid JSON")
}

fn text(s: &str) -> Json {
    Json::Str(s.to_owned())
}

/// The part of a document under keys, or under positions in its lists.
fn at<'a>(v: &'a Json, path: &[&str]) -> &'a Json {
    let mut v = v;
    for key in path {
        v = match v {
            Json::Array(items) => &items[key.parse::<usize>().expect("a position")],
            _ => v.get(key).expect("a member"),
        };
    }
    v
}

fn items(v: &Json) -> &[Json] {
    match v {
        Json::Array(items) => items,
        _ => panic!("no list: {v:?}"),
    }
}

fn hook_events() -> Vec<&'static str> {
    (0..HOOK_EVENT_COUNT).map(hook_event).collect()
}

fn all_added(results: &[HookMergeResult]) {
    for r in results {
        assert_eq!(
            r.action,
            HookAction::Added,
            "expected Added for {}",
            r.event
        );
    }
}

fn all_present(results: &[HookMergeResult]) {
    for r in results {
        assert_eq!(
            r.action,
            HookAction::AlreadyPresent,
            "expected AlreadyPresent for {}",
            r.event
        );
    }
}

#[test]
fn merge_empty_settings() {
    let mut s = j(r#"{}"#);
    let results = merge_hooks(&mut s).unwrap();
    assert_eq!(results.len(), HOOK_EVENT_COUNT);
    all_added(&results);

    // Verify the structure is correct.
    for event in hook_events() {
        let arr = items(at(&s, &["hooks", event]));
        assert_eq!(arr.len(), 1);
        assert_eq!(at(&arr[0], &["hooks", "0", "command"]), &text(HOOK_COMMAND));
        assert_eq!(at(&arr[0], &["hooks", "0", "type"]), &text("command"));
    }
}

#[test]
fn merge_settings_with_unrelated_keys() {
    let mut s = j(r#"{ "theme": "dark-ansi", "tui": "fullscreen", "env": {"SOME_VAR": "1"} }"#);
    let results = merge_hooks(&mut s).unwrap();
    all_added(&results);

    // Unrelated keys must survive.
    assert_eq!(at(&s, &["theme"]), &text("dark-ansi"));
    assert_eq!(at(&s, &["tui"]), &text("fullscreen"));
    assert_eq!(at(&s, &["env", "SOME_VAR"]), &text("1"));
}

#[test]
fn merge_idempotent() {
    let mut s = j(r#"{}"#);
    // Run once → adds all.
    merge_hooks(&mut s).unwrap();
    // Run again → all already present.
    let results = merge_hooks(&mut s).unwrap();
    all_present(&results);
    // No duplicate groups.
    for event in hook_events() {
        assert_eq!(
            items(at(&s, &["hooks", event])).len(),
            1,
            "duplicate groups for {event}"
        );
    }
}

#[test]
fn idempotent_setup_does_not_rewrite_settings_file() {
    // All hooks are registered, in a layout of the user's own: nothing is to be
    // saved, and so that layout survives.
    let user_authored = format!(
        "{{\n  \"theme\": \"dark\",\n  \"hooks\": {{\n{}  }}\n}}\n",
        hook_events()
            .iter()
            .map(|e| format!(
                "    \"{e}\": [{{\"hooks\":[{{\"type\":\"command\",\"command\":\"{HOOK_COMMAND}\"}}]}}],\n"
            ))
            .collect::<String>()
            .trim_end_matches(",\n")
            .to_owned(),
    );

    let mut settings = load_settings(Some(&user_authored)).unwrap();
    let before = settings.clone();
    let results = merge_hooks(&mut settings).unwrap();
    assert!(
        !any_added(&results),
        "all hooks are pre-registered — none should be Added",
    );
    assert_eq!(settings, before, "no-op setup must NOT change the settings");
}

#[test]
fn merge_partial_presets() {
    // Only PreToolUse is configured; remaining 6 should be Added.
    let mut s = j(r#"{ "hooks": { "PreToolUse": [ {"hooks": [{"type": "command", "command": "ccbridge-hook"}]} ] } }"#);
    let results = merge_hooks(&mut s).unwrap();
    assert_eq!(results.len(), HOOK_EVENT_COUNT);
    let pre = results.iter().find(|r| r.event == "PreToolUse").unwrap();
    assert_eq!(pre.action, HookAction::AlreadyPresent);
    for r in results.iter().filter(|r| r.event != "PreToolUse") {
        assert_eq!(
            r.action,
            HookAction::Added,
            "expected Added for {}",
            r.event
        );
    }
}

#[test]
fn merge_settings_with_pre_tool_use_matcher() {
    // User already has a foreign hook group on PreToolUse.
    // After merge: foreign group preserved + our group appended.
    let mut s = j(r#"{ "hooks": { "PreToolUse": [ { "matcher": "Bash", "hooks": [{"type": "command", "command": "my-lint-script.sh"}] } ] } }"#);
    let results = merge_hooks(&mut s).unwrap();

    let pre = results.iter().find(|r| r.event == "PreToolUse").unwrap();
    assert_eq!(pre.action, HookAction::Added, "should append our group");

    let arr = items(at(&s, &["hooks", "PreToolUse"]));
    assert_eq!(arr.len(), 2, "foreign group + our group");

    // Foreign group still intact.
    assert_eq!(at(&arr[0], &["matcher"]), &text("Bash"));
    assert_eq!(at(&arr[0], &["hooks", "0", "command"]), &text("my-lint-script.sh"));

    // Our group appended.
    assert_eq!(at(&arr[1], &["hooks", "0", "command"]), &text(HOOK_COMMAND));
}

#[test]
fn merge_preserves_other_event_keys() {
    // hooks.Idle is not in our event list; merge must leave it alone.
    let mut s = j(r#"{ "hooks": { "Idle": [{"hooks": [{"type": "command", "command": "idle-handler"}]}] } }"#);
    merge_hooks(&mut s).unwrap();

    let idle = items(at(&s, &["hooks", "Idle"]));
    assert_eq!(idle.len(), 1);
    assert_eq!(at(&idle[0], &["hooks", "0", "command"]), &text("idle-handler"));
}

#[test]
fn merge_preserves_complex_unrelated_keys() {
    // Real-world settings.json shapes: permissions, mcpServers, enabledPlugins, etc.
    // Merge must add hooks without mangling any of these.
    let mut s = j(r#"{ "theme": "dark-ansi", "permissions": { "allow": ["Skill"], "deny": ["Read(**/.env)"], "ask": ["Bash"] }, "mcpServers": { "context7": {"command": "npx", "args": ["-y", "@upstash/context7-mcp"]} }, "enabledPlugins": ["foo", "bar"], "tui": "fullscreen" }"#);
    let results = merge_hooks(&mut s).unwrap();
    assert_eq!(results.len(), HOOK_EVENT_COUNT);

    // All hook events added.
    for event in hook_events() {
        assert!(matches!(at(&s, &["hooks", event]), Json::Array(_)), "{event} missing after merge");
    }
    // Every pre-existing key must survive untouched.
    assert_eq!(at(&s, &["theme"]), &text("dark-ansi"));
    assert_eq!(at(&s, &["permissions", "ask"]), &j(r#"["Bash"]"#));
    assert_eq!(at(&s, &["permissions", "allow"]), &j(r#"["Skill"]"#));
    assert_eq!(at(&s, &["mcpServers", "context7", "command"]), &text("npx"));
    assert_eq!(at(&s, &["enabledPlugins"]), &j(r#"["foo", "bar"]"#));
    assert_eq!(at(&s, &["tui"]), &text("fullscreen"));
}

// -----------------------------------------------------------------------
// load_settings / save_settings
// -----------------------------------------------------------------------

#[test]
fn load_settings_missing_file() {
    let v = load_settings(None).unwrap();
    assert_eq!(v, j("{}"));
}

#[test]
fn load_settings_malformed_json() {
    assert!(load_settings(Some("not json")).is_none());
    assert!(load_settings(Some("")).is_none());
}

#[test]
fn save_and_load_round_trip() {
    let mut s = j(r#"{"theme": "dark", "hooks": {}}"#);
    merge_hooks(&mut s).unwrap();
    let saved = settings_text(&s);
    let loaded = load_settings(Some(&saved)).unwrap();
    assert_eq!(loaded, sorted(&s));
    // All events present after round-trip.
    for event in hook_events() {
        assert!(
            matches!(at(&loaded, &["hooks", event]), Json::Array(_)),
            "{event} missing after round-trip"
        );
    }
    assert_eq!(at(&loaded, &["theme"]), &text("dark"));
    assert!(saved.contains("\n  \"theme\": \"dark\""), "{saved}");
}

// -----------------------------------------------------------------------
// Service enable — test path just returns true
// -----------------------------------------------------------------------

#[test]
fn setup_does_not_exit_when_service_fails() {
    let mut s = load_settings(None).unwrap();
    let results = merge_hooks(&mut s).unwrap();
    assert_eq!(results.len(), HOOK_EVENT_COUNT);
    let config = ConfigAction::Skipped { reason: "no home".to_owned() };
    let summary = setup_summary(&results, &config, false, "/home/u/.agent/settings.json");
    assert_eq!(
        summary,
        vec![
            "ccbridged setup: registered hooks for: PreToolUse, PostToolUse, UserPromptSubmit, Notification, Stop, SessionStart, SessionEnd",
            "ccbridged setup: config not written (no home)",
            "ccbridged setup: service enabled: no (see above warning)",
            "ccbridged setup: done — settings written to /home/u/.agent/settings.json",
        ]
    );
}

// -----------------------------------------------------------------------
// I3: shape validation tests
// -----------------------------------------------------------------------

#[test]
fn merge_hooks_rejects_non_object_hooks() {
    // .hooks is a string — not an object.
    let mut s = j(r#"{"hooks": "invalid_string"}"#);
    let err = merge_hooks(&mut s).unwrap_err();
    assert!(
        err.message(".agent").contains("unexpected shape"),
        "error must mention unexpected shape, got: {err:?}"
    );
    assert!(
        err.message(".agent").contains("string"),
        "error must name the actual type, got: {err:?}"
    );
}

#[test]
fn merge_hooks_rejects_non_array_event_value() {
    // .hooks.PreToolUse is an object, not an array.
    let mut s = j(r#"{"hooks": {"PreToolUse": {"foo": "bar"}}}"#);
    let err = merge_hooks(&mut s).unwrap_err();
    assert!(
        err.message(".agent").contains("unexpected shape"),
        "error must mention unexpected shape, got: {err:?}"
    );
    assert!(
        err.message(".agent").contains("PreToolUse"),
        "error must name the problematic event, got: {err:?}"
    );
    assert!(
        err.message(".agent").contains("object"),
        "error must name the actual type, got: {err:?}"
    );
}

#[test]
fn merge_hooks_treats_null_hooks_as_absent() {
    // `{"hooks": null}` must be treated as absent and populated with all events.
    let mut s = j(r#"{"hooks": null}"#);
    let results = merge_hooks(&mut s).unwrap();
    assert_eq!(results.len(), HOOK_EVENT_COUNT);
    // All events must be Added (null treated as if the key didn't exist).
    for r in &results {
        assert_eq!(
            r.action,
            HookAction::Added,
            "event {} must be Added when hooks:null",
            r.event
        );
    }
    // The .hooks field must now be an object.
    assert!(
        matches!(at(&s, &["hooks"]), Json::Object(_)),
        ".hooks must be an object after merge, got: {}",
        print_json_pretty(at(&s, &["hooks"]))
    );
}

#[test]
fn merge_hooks_treats_null_event_as_absent() {
    // `{"hooks": {"PreToolUse": null}}` — null event is treated as absent,
    // must end up with the ccbridge entry added.
    let mut s = j(r#"{"hooks": {"PreToolUse": null}}"#);
    let results = merge_hooks(&mut s).unwrap();
    // Find the PreToolUse result.
    let ptu = results.iter().find(|r| r.event == "PreToolUse").unwrap();
    assert_eq!(
        ptu.action,
        HookAction::Added,
        "PreToolUse must be Added when its value is null"
    );
    let arr = items(at(&s, &["hooks", "PreToolUse"]));
    assert_eq!(
        arr.len(),
        1,
        "PreToolUse must have exactly one group after merge"
    );
    assert_eq!(at(&arr[0], &["hooks", "0", "command"]), &text(HOOK_COMMAND));
}

// -----------------------------------------------------------------------
// write_default_config_to

#[test]
fn merge_hooks_stops_at_the_first_wrong_event() {
    let mut s = j(r#"{"hooks": {"Stop": 1, "Notification": []}}"#);
    let err = merge_hooks(&mut s).unwrap_err();
    assert_eq!((err.at.as_str(), err.expected, err.got), (".hooks.Stop", "array", "number"));
    assert_eq!(
        err.message(".agent"),
        "~/.agent/settings.json has an unexpected shape at .hooks.Stop (expected array, got number) \
         — please clean it up manually before running setup, or rename the file to start fresh"
    );
    // A document that is no object is replaced.
    let mut s = j("3");
    assert!(any_added(&merge_hooks(&mut s).unwrap()));
    assert!(matches!(s, Json::Object(_)));
}

#[test]
fn types_have_names() {
    let name = |t: &str| json_type_name(&j(t));
    assert_eq!(
        [name("null"), name("true"), name("-1"), name("1"), name("1.5"), name("\"\""), name("[]"), name("{}")],
        ["null", "boolean", "number", "number", "number", "string", "array", "object"]
    );
}

// --- the configuration file ---

#[test]
fn write_default_config_creates_file_when_absent() {
    let path = config_path(None, Some("/home/u"));
    let outcome = write_default_config_if_absent(path.clone(), false);
    match outcome {
        ConfigAction::Created { path: written_path, text } => {
            assert_eq!(Some(written_path), path);
            // Content matches the bundled default verbatim.
            assert_eq!(text, DEFAULT_CONFIG_TOML);
        }
        other => panic!("expected Created, got {other:?}"),
    }
}

#[test]
fn write_default_config_skips_when_present() {
    let outcome = write_default_config_if_absent(Some("/c".to_owned()), true);
    assert!(
        matches!(outcome, ConfigAction::AlreadyPresent { .. }),
        "expected AlreadyPresent, got {outcome:?}"
    );
    let outcome = write_default_config_if_absent(None, false);
    assert!(matches!(outcome, ConfigAction::Skipped { .. }));
}

#[test]
fn bundled_default_config_parses_as_config() {
    let cfg = Config::load_from(Some(DEFAULT_CONFIG_TOML))
        .expect("bundled default config must parse cleanly");
    assert_eq!(cfg, Config::default());
}

#[test]
fn settings_stand_in_the_agents_directory() {
    assert_eq!(
        settings_path(None, Some("/home/u"), ".agent").as_deref(),
        Some("/home/u/.agent/settings.json")
    );
    assert_eq!(
        settings_path(Some("/conf"), Some("/home/u"), ".agent").as_deref(),
        Some("/conf/settings.json")
    );
    assert_eq!(settings_path(None, None, ".agent"), None);
}

// --- documents as texts ---

#[test]
fn documents_print_and_read_back() {
    let text = r#"{"b":[1,-2,"x\ny",null,true],"a":{"é":18446744073709551615}}"#;
    assert_eq!(print_json(&j(text)), text);
    assert_eq!(j(&print_json_pretty(&j(text))), j(text));
    assert_eq!(print_json(&j("1.50")), "1.5");
    assert_eq!(print_json(&j(r#"{"a": 1, "b": 2, "a": 3}"#)), r#"{"a":3,"b":2}"#);
}

#[test]
fn settings_are_saved_in_the_order_of_their_keys() {
    let settings = j(r#"{"b": 1, "a": [{"z": 1, "y": {"q": null, "p": true}}], "B": "x"}"#);
    let saved = settings_text(&settings);
    assert_eq!(
        saved,
        "{\n  \"B\": \"x\",\n  \"a\": [\n    {\n      \"y\": {\n        \"p\": true,\n        \"q\": null\n      },\n      \"z\": 1\n    }\n  ],\n  \"b\": 1\n}"
    );
    assert_eq!(settings_text(&j(&saved)), saved);
}
