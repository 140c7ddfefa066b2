//! Settings, paths of files, and the answers that follow from the settings.

use ccbridge::config::{
    config_path, Approvals, Config, ConfigError, Fallback, NotifyUrgency, TurnDoneConfig,
};
use ccbridge::ingest::hooks::timeout_response;
use ccbridge::outside::{parse_json, parse_toml};
use ccbridge::proto::hook::PermissionDecision;
use ccbridge::util::{bridge_path, short_session_id, xdg_config_dir, xdg_state_dir};
use std::time::Duration;

#[test]
fn default_config_when_file_missing() {
    let cfg = Config::load_from(None).expect("missing file should yield defaults");
    assert_eq!(cfg, Config::default());
}

#[test]
fn load_full_config_round_trip() {
    let text = r#"
[approvals]
timeout_ms = 5000
fallback   = "deny"

[emit.notify]
enabled = false
urgency = "low"

[emit.ctrl]
enabled        = true
allow_simulate = true

[emit.http]
enabled = true
addr    = "0.0.0.0:8080"

[tokens]
state_path = "/tmp/tokens.json"
"#;

    let cfg = Config::load_from(Some(text)).expect("valid TOML must load");

    // approvals
    assert_eq!(cfg.approvals.timeout_ms, 5_000);
    assert_eq!(cfg.approvals.fallback, Fallback::Deny);
    assert_eq!(cfg.approvals.timeout(), Duration::from_millis(5_000));

    // emit.notify
    assert!(!cfg.emit.notify.enabled);
    assert_eq!(cfg.emit.notify.urgency, NotifyUrgency::Low);

    // emit.ctrl
    assert!(cfg.emit.ctrl.enabled);
    assert!(cfg.emit.ctrl.allow_simulate);

    // emit.http
    assert!(cfg.emit.http.enabled);
    assert_eq!(cfg.emit.http.addr, "0.0.0.0:8080");

    // tokens
    assert_eq!(cfg.tokens.state_path, Some("/tmp/tokens.json".to_owned()));
}

#[test]
fn unknown_field_fails_loud() {
    let text = r#"
[approvals]
timeout_ms = 30000
typo_field = "oops"
"#;
    let err = Config::load_from(Some(text)).expect_err("unknown field must be an error");
    let msg = err.message();
    assert!(
        msg.contains("typo_field") || msg.contains("unknown"),
        "error message should mention the unknown field, got: {msg}"
    );
    assert_eq!(err, ConfigError::UnknownField { field: "typo_field".to_owned() });
}

#[test]
fn partial_config_uses_defaults_for_missing() {
    // Only override timeout_ms; everything else should come from defaults.
    let text = r#"
[approvals]
timeout_ms = 10000
"#;
    let cfg = Config::load_from(Some(text)).expect("partial config must load");

    assert_eq!(cfg.approvals.timeout_ms, 10_000);
    // Fallback should be the default (Passthrough).
    assert_eq!(cfg.approvals.fallback, Fallback::Passthrough);

    // Emit defaults.
    assert!(cfg.emit.notify.enabled);
    assert_eq!(cfg.emit.notify.urgency, NotifyUrgency::Critical);
    assert!(cfg.emit.ctrl.enabled);
    assert!(!cfg.emit.ctrl.allow_simulate);
    assert!(!cfg.emit.http.enabled);
    assert_eq!(cfg.emit.http.addr, "127.0.0.1:9876");

    // Tokens default.
    assert_eq!(cfg.tokens.state_path, None);
}

/// What a call is answered when nobody decided in time.
fn simulate_timeout_fallback(fallback: Fallback) -> (PermissionDecision, Option<String>) {
    let output = timeout_response(fallback).hook_specific_output;
    (output.permission_decision, output.permission_decision_reason)
}

#[test]
fn fallback_deny_on_timeout_produces_deny_with_reason() {
    let (decision, reason) = simulate_timeout_fallback(Fallback::Deny);
    assert_eq!(decision, PermissionDecision::Deny);
    let reason = reason.expect("Deny fallback must include a reason");
    assert!(!reason.is_empty());
    assert!(reason.contains("denying"), "reason should say 'denying', got: {reason}");
}

#[test]
fn fallback_allow_on_timeout_produces_allow_no_reason() {
    let (decision, reason) = simulate_timeout_fallback(Fallback::Allow);
    assert_eq!(decision, PermissionDecision::Allow);
    assert!(
        reason.is_none(),
        "Allow fallback must carry no reason, got: {reason:?}"
    );
}

#[test]
fn fallback_passthrough_asks() {
    let (decision, reason) = simulate_timeout_fallback(Fallback::Passthrough);
    assert_eq!(decision, PermissionDecision::Ask);
    assert_eq!(
        reason.as_deref(),
        Some("ccbridge: approval timeout — falling back to interactive prompt")
    );
}

#[test]
fn config_path_ends_with_expected_suffix() {
    let p = config_path(None, Some("/home/u")).unwrap();
    assert!(p.ends_with("ccbridge/config.toml"), "unexpected config path: {}", p);
    assert_eq!(p, "/home/u/.config/ccbridge/config.toml");
    let p = config_path(Some("/xdg"), Some("/home/u")).unwrap();
    assert_eq!(p, "/xdg/ccbridge/config.toml");
}

#[test]
fn approvals_timeout_converts_ms_to_duration() {
    let a = Approvals { timeout_ms: 5_000, fallback: Fallback::Passthrough };
    assert_eq!(a.timeout(), Duration::from_secs(5));
}

#[test]
fn turn_done_grace_converts_ms_to_duration() {
    let t = TurnDoneConfig { enabled: true, idle_grace_ms: 1_500, expire_ms: -1 };
    assert_eq!(t.idle_grace(), Duration::from_millis(1_500));
    assert!(TurnDoneConfig { enabled: true, idle_grace_ms: 0, expire_ms: -1 }.idle_grace().is_zero());
}

#[test]
fn devices_can_be_named_and_disabled() {
    let text = r#"
[emit.ble]
enabled = true
service_uuid = "abc"

[[emit.ble.device]]
address = "AA:BB:CC:DD:EE:FF"
nickname = "desk"

[[emit.ble.device]]
address = "11:22:33:44:55:66"
disabled = true
"#;
    let ble = Config::load_from(Some(text)).unwrap().emit.ble;
    assert!(ble.enabled);
    assert_eq!(ble.service_uuid, "abc");
    assert_eq!(ble.device.len(), 2);
    assert_eq!(ble.device[0].nickname.as_deref(), Some("desk"));
    assert!(!ble.device[0].disabled);
    assert_eq!(ble.device[1].address, "11:22:33:44:55:66");
    assert!(ble.device[1].disabled);
}

#[test]
fn wrong_settings_are_refused_one_by_one() {
    let error = |text: &str| Config::load_from(Some(text)).expect_err("refused");
    let invalid = |field: &str| ConfigError::InvalidValue { field: field.to_owned() };
    assert_eq!(error("= 1"), ConfigError::Syntax);
    assert_eq!(error("extra = 1"), ConfigError::UnknownField { field: "extra".to_owned() });
    assert_eq!(error("[approvals]\ntimeout_ms = -1"), invalid("timeout_ms"));
    assert_eq!(error("[approvals]\nfallback = \"maybe\""), invalid("fallback"));
    assert_eq!(error("[emit.notify]\nurgency = \"high\""), invalid("urgency"));
    assert_eq!(error("[emit.notify.turn_done]\nexpire_ms = 3000000000"), invalid("expire_ms"));
    assert_eq!(error("[emit.http]\nenabled = 1"), invalid("enabled"));
    assert_eq!(error("emit = 1"), invalid("emit"));
    for e in [error("= 1"), error("extra = 1"), error("emit = 1")] {
        assert!(!e.message().is_empty());
    }
}

#[test]
fn a_document_reads_the_same_from_toml_and_json() {
    let from_toml = parse_toml("[tokens]\nstate_path = \"/x\"\n").unwrap();
    let from_json = parse_json(r#"{"tokens": {"state_path": "/x"}}"#).unwrap();
    assert_eq!(from_toml, from_json);
    assert_eq!(
        Config::from_document(&from_toml).unwrap().tokens.state_path.as_deref(),
        Some("/x")
    );
    assert!(parse_toml("a =").is_none());
    assert!(parse_json("{").is_none());
}

#[test]
fn xdg_state_dir_succeeds_in_test_env() {
    let dir = xdg_state_dir(None, Some("/home/u")).expect("xdg_state_dir should succeed");
    assert!(dir.ends_with(".local/state"));
    assert_eq!(xdg_state_dir(Some("/s"), None).as_deref(), Some("/s"));
    assert!(xdg_state_dir(None, None).is_none());
}

#[test]
fn xdg_config_dir_succeeds_in_test_env() {
    let dir = xdg_config_dir(None, Some("/home/u")).expect("xdg_config_dir should succeed");
    assert!(dir.ends_with(".config"));
    assert_eq!(xdg_config_dir(Some("/c"), None).as_deref(), Some("/c"));
    assert!(xdg_config_dir(None, None).is_none());
}

#[test]
fn short_session_id_takes_six_chars() {
    assert_eq!(short_session_id("3cb58992-935c-4fdd-9efd-1f160946e822"), "3cb589");
    assert_eq!(short_session_id("abc"), "abc");
    assert_eq!(short_session_id(""), "");
}

#[test]
fn files_of_the_bridge_stand_in_its_directory() {
    assert_eq!(bridge_path(Some("/b".to_owned()), "f").as_deref(), Some("/b/ccbridge/f"));
    assert!(bridge_path(None, "f").is_none());
}

#[test]
fn a_section_may_be_an_array_of_its_fields() {
    let cfg = Config::load_from(Some(
        "approvals = [5000, \"deny\", true]\n[emit]\nnotify = [false]\nctrl = []\n",
    ))
    .unwrap();
    assert_eq!(cfg.approvals, Approvals { timeout_ms: 5000, fallback: Fallback::Deny });
    assert!(!cfg.emit.notify.enabled);
    assert_eq!(cfg.emit.notify.urgency, NotifyUrgency::Critical);
    assert_eq!(cfg.emit.ctrl, Config::default().emit.ctrl);
    assert_eq!(
        Config::load_from(Some("approvals = [\"deny\"]")),
        Err(ConfigError::InvalidValue { field: "timeout_ms".to_owned() })
    );
    assert_eq!(
        Config::load_from(Some("emit = [{ bogus = 1 }]")),
        Err(ConfigError::UnknownField { field: "bogus".to_owned() })
    );
}

#[test]
fn a_name_may_be_a_table_with_nothing_in_it() {
    let cfg = Config::load_from(Some(
        "[approvals.fallback.deny]\n[emit.notify]\nurgency = { low = [] }\n",
    ))
    .unwrap();
    assert_eq!(cfg.approvals.fallback, Fallback::Deny);
    assert_eq!(cfg.emit.notify.urgency, NotifyUrgency::Low);
    assert_eq!(
        Config::load_from(Some("approvals = { fallback = { deny = 1 } }")),
        Err(ConfigError::InvalidValue { field: "fallback".to_owned() })
    );
}
