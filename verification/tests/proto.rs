//! Messages on the wire: hook events, control commands, device commands.

use ccbridge::json::Json;
use ccbridge::outside::parse_json;
use ccbridge::proto::buddy::{DeviceCommand, WireDecision};
use ccbridge::proto::ctrl::{Ack, Command, HelloMessage, Topic};
use ccbridge::proto::hook::{
    Effort, EffortLevel, HookEvent, PermissionDecision, PermissionMode, PreToolUseOutput,
    PreToolUseResponse, SessionSource,
};

fn j(text: &str) -> Json {
    parse_json(text).expect("valid JSON")
}

/// The part of a document under keys, or under positions in its lists.
fn at<'a>(v: &'a Json, path: &[&str]) -> &'a Json {
    let mut v = v;
    for key in path {
        v = match v {
            Json::Array(items) => &items[key.parse::<usize>().expect("a position")],
            _ => v.get(key).expect("a member"),
        };
    }
    v
}

// -----------------------------------------------------------------------
// Hello
// -----------------------------------------------------------------------

#[test]
fn hello_round_trip() {
    let raw = j(r#"{ "hello": { "version": 1, "owner": "Felix", "time": [1775731234, -25200] } }"#);
    let msg: HelloMessage = HelloMessage::from_json(&raw).unwrap();
    assert_eq!(msg.hello.version, 1);
    assert_eq!(msg.hello.owner, "Felix");
    assert_eq!(msg.hello.time.0, 1_775_731_234);
    assert_eq!(msg.hello.time.1, -25200);

    let v = msg.to_json();
    assert_eq!(at(&v, &["hello", "version"]), &j(r#"1"#));
    assert_eq!(at(&v, &["hello", "owner"]), &j(r#""Felix""#));
    assert_eq!(at(&v, &["hello", "time", "1"]), &j(r#"-25200"#));
}

// -----------------------------------------------------------------------
// Subscribe / Unsubscribe
// -----------------------------------------------------------------------

#[test]
fn subscribe_round_trip() {
    let raw = j(r#"{"cmd": "subscribe", "topics": ["heartbeat", "turn"]}"#);
    let cmd: Command = Command::from_json(&raw).unwrap();
    match &cmd {
        Command::Subscribe { topics } => {
            assert_eq!(topics.len(), 2);
            assert!(topics.contains(&Topic::Heartbeat));
            assert!(topics.contains(&Topic::Turn));
        }
        _ => panic!("wrong variant"),
    }
    // re-serialise
    let v = cmd.to_json();
    assert_eq!(at(&v, &["cmd"]), &j(r#""subscribe""#));
}

#[test]
fn unsubscribe_round_trip() {
    let raw = j(r#"{"cmd": "unsubscribe", "topics": ["log"]}"#);
    let cmd: Command = Command::from_json(&raw).unwrap();
    match &cmd {
        Command::Unsubscribe { topics } => {
            assert_eq!(topics, &[Topic::Log]);
        }
        _ => panic!("wrong variant"),
    }
}

// -----------------------------------------------------------------------
// Permission — reuses WireDecision
// -----------------------------------------------------------------------

#[test]
fn permission_once_round_trip() {
    let raw = j(r#"{"cmd": "permission", "id": "req_abc", "decision": "once"}"#);
    let cmd: Command = Command::from_json(&raw).unwrap();
    match &cmd {
        Command::Permission { id, decision } => {
            assert_eq!(id, "req_abc");
            assert_eq!(*decision, WireDecision::Once);
        }
        _ => panic!("wrong variant"),
    }
    let v = cmd.to_json();
    assert_eq!(at(&v, &["cmd"]), &j(r#""permission""#));
    assert_eq!(at(&v, &["decision"]), &j(r#""once""#));
}

#[test]
fn permission_deny_round_trip() {
    let raw = j(r#"{"cmd": "permission", "id": "req_xyz", "decision": "deny"}"#);
    let cmd: Command = Command::from_json(&raw).unwrap();
    assert!(matches!(
        cmd,
        Command::Permission {
            decision: WireDecision::Deny,
            ..
        }
    ));
}

// -----------------------------------------------------------------------
// Status (unit variant)
// -----------------------------------------------------------------------

#[test]
fn status_round_trip() {
    let raw = j(r#"{"cmd": "status"}"#);
    let cmd: Command = Command::from_json(&raw).unwrap();
    assert!(matches!(cmd, Command::Status));
    let v = cmd.to_json();
    assert_eq!(at(&v, &["cmd"]), &j(r#""status""#));
}

// -----------------------------------------------------------------------
// Replay
// -----------------------------------------------------------------------

#[test]
fn replay_round_trip() {
    let raw = j(r#"{"cmd": "replay", "n": 50}"#);
    let cmd: Command = Command::from_json(&raw).unwrap();
    match &cmd {
        Command::Replay { n } => assert_eq!(*n, 50),
        _ => panic!("wrong variant"),
    }
}

// -----------------------------------------------------------------------
// ForgetDevice
// -----------------------------------------------------------------------

#[test]
fn forget_device_round_trip() {
    let raw = j(r#"{"cmd": "forget_device", "addr": "AA:BB:CC:DD:EE:FF"}"#);
    let cmd: Command = Command::from_json(&raw).unwrap();
    match &cmd {
        Command::ForgetDevice { addr } => {
            assert_eq!(addr, "AA:BB:CC:DD:EE:FF");
        }
        _ => panic!("wrong variant"),
    }
    let v = cmd.to_json();
    assert_eq!(at(&v, &["cmd"]), &j(r#""forget_device""#));
}

// -----------------------------------------------------------------------
// Simulate
// -----------------------------------------------------------------------

#[test]
fn simulate_round_trip() {
    let raw = j(r#"{ "cmd": "simulate", "event": { "hook_event_name": "PreToolUse", "session_id": "fake_session", "transcript_path": "/tmp/fake.jsonl", "cwd": "/tmp", "permission_mode": "default", "tool_name": "Bash", "tool_input": {"command": "echo hello"}, "tool_use_id": "toolu_fake" } }"#);
    let cmd: Command = Command::from_json(&raw).unwrap();
    match &cmd {
        Command::Simulate { event } => {
            assert_eq!(at(event, &["hook_event_name"]), &j(r#""PreToolUse""#));
        }
        _ => panic!("wrong variant"),
    }
}

// -----------------------------------------------------------------------
// Ack helpers
// -----------------------------------------------------------------------

#[test]
fn ack_ok_serialises() {
    let ack = Ack::ok("subscribe");
    let v = ack.to_json();
    assert_eq!(at(&v, &["ack"]), &j(r#""subscribe""#));
    assert_eq!(at(&v, &["ok"]), &j(r#"true"#));
    assert!(v.get("error").is_none());
}

#[test]
fn ack_err_serialises() {
    let ack = Ack::err("permission", "no_pending_prompt");
    let v = ack.to_json();
    assert_eq!(at(&v, &["ok"]), &j(r#"false"#));
    assert_eq!(at(&v, &["error"]), &j(r#""no_pending_prompt""#));
}

#[test]
fn ack_unknown_command() {
    let ack = Ack::unknown("future_cmd");
    let v = ack.to_json();
    assert_eq!(at(&v, &["ack"]), &j(r#""future_cmd""#));
    assert_eq!(at(&v, &["ok"]), &j(r#"false"#));
    assert_eq!(at(&v, &["error"]), &j(r#""unknown_command""#));
}
#[test]
fn round_trip_pre_tool_use() {
    let raw = j(r#"{ "session_id": "sess_01", "transcript_path": "/home/user/.agent/projects/foo/sess_01.jsonl", "cwd": "/home/user/dev/foo", "permission_mode": "default", "hook_event_name": "PreToolUse", "effort": {"level": "medium"}, "tool_name": "Bash", "tool_input": {"command": "ls -la"}, "tool_use_id": "toolu_01abc" }"#);
    let evt: HookEvent = HookEvent::from_json(&raw).unwrap();
    match &evt {
        HookEvent::PreToolUse(e) => {
            assert_eq!(e.base.session_id, "sess_01");
            assert_eq!(e.tool_name, "Bash");
            assert_eq!(e.tool_use_id, "toolu_01abc");
        }
        _ => panic!("wrong variant"),
    }
    // Round-trip: re-serialise must contain hook_event_name tag
    let reserialised = evt.to_json();
    assert_eq!(at(&reserialised, &["hook_event_name"]), &j(r#""PreToolUse""#));
    assert_eq!(at(&reserialised, &["tool_name"]), &j(r#""Bash""#));
}

#[test]
fn round_trip_post_tool_use() {
    let raw = j(r#"{ "session_id": "sess_02", "transcript_path": "/tmp/sess_02.jsonl", "cwd": "/tmp", "permission_mode": "default", "hook_event_name": "PostToolUse", "tool_name": "Read", "tool_input": {"file_path": "/tmp/foo.txt"}, "tool_use_id": "toolu_02", "tool_result": "file contents here" }"#);
    let evt: HookEvent = HookEvent::from_json(&raw).unwrap();
    assert!(matches!(evt, HookEvent::PostToolUse(_)));
    assert_eq!(evt.session_id(), "sess_02");
}

#[test]
fn round_trip_notification() {
    let raw = j(r#"{ "session_id": "sess_03", "transcript_path": "/tmp/sess_03.jsonl", "cwd": "/tmp", "hook_event_name": "Notification", "notification_type": "permission_prompt", "message": "Bash wants to run: rm -rf /tmp/foo" }"#);
    let evt: HookEvent = HookEvent::from_json(&raw).unwrap();
    match &evt {
        HookEvent::Notification(e) => {
            assert_eq!(e.notification_type, "permission_prompt");
        }
        _ => panic!("wrong variant"),
    }
}

#[test]
fn round_trip_stop() {
    let raw = j(r#"{ "session_id": "sess_04", "transcript_path": "/tmp/sess_04.jsonl", "cwd": "/tmp", "permission_mode": "default", "hook_event_name": "Stop", "response": "Done!" }"#);
    let evt: HookEvent = HookEvent::from_json(&raw).unwrap();
    match &evt {
        HookEvent::Stop(e) => {
            assert_eq!(e.response.as_deref(), Some("Done!"));
        }
        _ => panic!("wrong variant"),
    }
}

#[test]
fn round_trip_stop_without_response() {
    // Real sessions emit Stop events without a `response` field
    // (e.g. timeout stops or sessions that end with no assistant turn).
    // This must parse successfully — same pattern as PostToolUse.tool_result.
    let raw = j(r#"{ "session_id": "sess_04b", "transcript_path": "/tmp/sess_04b.jsonl", "cwd": "/tmp", "permission_mode": "default", "hook_event_name": "Stop" }"#);
    let evt: HookEvent = HookEvent::from_json(&raw).expect("Stop without response must parse successfully");
    match &evt {
        HookEvent::Stop(e) => {
            assert!(e.response.is_none(), "absent response must be None");
        }
        _ => panic!("wrong variant"),
    }
}

#[test]
fn round_trip_session_start() {
    let raw = j(r#"{ "session_id": "sess_05", "transcript_path": "/tmp/sess_05.jsonl", "cwd": "/tmp", "hook_event_name": "SessionStart", "source": "startup", "model": "opus" }"#);
    let evt: HookEvent = HookEvent::from_json(&raw).unwrap();
    match &evt {
        HookEvent::SessionStart(e) => {
            assert_eq!(e.source, SessionSource::Startup);
        }
        _ => panic!("wrong variant"),
    }
}

#[test]
fn pre_tool_use_response_serialises() {
    let resp = PreToolUseResponse {
        hook_specific_output: PreToolUseOutput {
            hook_event_name: "PreToolUse".into(),
            permission_decision: PermissionDecision::Allow,
            permission_decision_reason: None,
            updated_input: None,
            additional_context: None,
        },
    };
    let v = resp.to_json();
    assert_eq!(at(&v, &["hookSpecificOutput", "permissionDecision"]), &j(r#""allow""#));
    // Defer is gone — only allow|deny|ask are valid
    let decisions = ["allow", "deny", "ask"];
    for d in decisions {
        let pd: PermissionDecision = PermissionDecision::from_name(d).unwrap();
        assert_eq!(pd.name(), d);
    }
}

#[test]
fn round_trip_user_prompt_submit() {
    let raw = j(r#"{ "session_id": "sess_06", "transcript_path": "/tmp/sess_06.jsonl", "cwd": "/tmp", "permission_mode": "default", "hook_event_name": "UserPromptSubmit", "prompt": "Write a factorial function" }"#);
    let evt: HookEvent = HookEvent::from_json(&raw).unwrap();
    match &evt {
        HookEvent::UserPromptSubmit(e) => {
            assert_eq!(e.prompt, "Write a factorial function");
            assert_eq!(e.base.session_id, "sess_06");
        }
        _ => panic!("wrong variant"),
    }
}

#[test]
fn round_trip_session_end() {
    let raw = j(r#"{ "session_id": "sess_07", "transcript_path": "/tmp/sess_07.jsonl", "cwd": "/tmp", "hook_event_name": "SessionEnd", "reason": "logout" }"#);
    let evt: HookEvent = HookEvent::from_json(&raw).unwrap();
    match &evt {
        HookEvent::SessionEnd(e) => {
            assert_eq!(e.reason.as_deref(), Some("logout"));
        }
        _ => panic!("wrong variant"),
    }
}

#[test]
fn post_tool_use_without_tool_result_parses_ok() {
    // tool_result is optional: absent when the tool errored before producing
    // output or for tools with no output.  This must NOT return a parse error.
    let raw = j(r#"{ "session_id": "sess_pt", "transcript_path": "/tmp/sess_pt.jsonl", "cwd": "/tmp", "permission_mode": "default", "hook_event_name": "PostToolUse", "tool_name": "Bash", "tool_input": {"command": "exit 1"}, "tool_use_id": "toolu_err_01" }"#);
    let evt: HookEvent = HookEvent::from_json(&raw)
        .expect("PostToolUse without tool_result must parse successfully");
    match &evt {
        HookEvent::PostToolUse(e) => {
            assert!(
                e.tool_result.is_none(),
                "tool_result should be None when absent"
            );
            assert_eq!(e.tool_name, "Bash");
        }
        _ => panic!("wrong variant"),
    }
    // With tool_result present it should still parse as Some.
    let with_result = j(r#"{ "session_id": "sess_pt2", "transcript_path": "/tmp/sess_pt2.jsonl", "cwd": "/tmp", "permission_mode": "default", "hook_event_name": "PostToolUse", "tool_name": "Read", "tool_input": {"file_path": "/tmp/foo.txt"}, "tool_use_id": "toolu_ok_01", "tool_result": "contents" }"#);
    let evt2: HookEvent = HookEvent::from_json(&with_result).unwrap();
    match evt2 {
        HookEvent::PostToolUse(e) => assert!(e.tool_result.is_some()),
        _ => panic!("wrong variant"),
    }
}

#[test]
fn unknown_event_name_deserialises_to_unknown_variant() {
    // Future versions may add new hook events. We must not crash.
    let raw = j(r#"{ "session_id": "sess_08", "transcript_path": "/tmp/sess_08.jsonl", "cwd": "/tmp", "hook_event_name": "PreCompact", "some_future_field": 42 }"#);
    let evt: HookEvent = HookEvent::from_json(&raw).unwrap();
    assert!(
        matches!(evt, HookEvent::Unknown),
        "expected Unknown variant for unrecognised hook_event_name"
    );
    assert_eq!(evt.session_id(), "");
}

// -----------------------------------------------------------------------
// Records as arrays, names as objects
// -----------------------------------------------------------------------

#[test]
fn a_greeting_may_be_an_array() {
    let named = j(r#"{"hello": {"version": 1, "owner": "F", "time": [5, -7]}}"#);
    let m = HelloMessage::from_json(&named);
    assert!(m.is_some());
    assert_eq!(HelloMessage::from_json(&j(r#"[[1, "F", [5, -7]]]"#)), m);
    assert_eq!(HelloMessage::from_json(&j(r#"{"hello": [1, "F", [5, -7]]}"#)), m);
    assert_eq!(HelloMessage::from_json(&j(r#"{"hello": [1, "F"]}"#)), None);
}

#[test]
fn a_command_may_be_an_array() {
    let read = |text: &str| Command::from_json(&j(text));
    assert_eq!(read(r#"["status"]"#), Some(Command::Status));
    assert_eq!(
        read(r#"["subscribe", ["turn", {"log": null}, {"heartbeat": {}}]]"#),
        Some(Command::Subscribe { topics: vec![Topic::Turn, Topic::Log, Topic::Heartbeat] })
    );
    assert_eq!(read(r#"["unsubscribe", []]"#), Some(Command::Unsubscribe { topics: vec![] }));
    assert_eq!(
        read(r#"["permission", "t", "deny"]"#),
        read(r#"{"cmd": "permission", "id": "t", "decision": "deny"}"#)
    );
    assert!(read(r#"["permission", "t", "deny"]"#).is_some());
    assert_eq!(read(r#"["replay", 3]"#), Some(Command::Replay { n: 3 }));
    assert_eq!(
        read(r#"["forget_device", "a"]"#),
        Some(Command::ForgetDevice { addr: "a".to_owned() })
    );
    assert_eq!(read(r#"["simulate", {"x": 1}]"#), Some(Command::Simulate { event: j(r#"{"x": 1}"#) }));
    assert_eq!(read(r#"["status", 1]"#), None);
    assert_eq!(read(r#"["replay"]"#), None);
    assert_eq!(read(r#"["jump"]"#), None);
    assert_eq!(read("[]"), None);
    assert_eq!(read(r#"{"cmd": "subscribe", "topics": [{"log": 1}]}"#), None);
}

#[test]
fn a_device_command_may_be_an_array() {
    let read = |text: &str| DeviceCommand::from_json(&j(text));
    assert_eq!(read(r#"["unpair"]"#), Some(DeviceCommand::Unpair));
    assert_eq!(read(r#"["name", "desk"]"#), Some(DeviceCommand::Name { name: "desk".to_owned() }));
    assert_eq!(
        read(r#"["permission", "t", "once"]"#),
        Some(DeviceCommand::Permission { id: "t".to_owned(), decision: WireDecision::Once })
    );
    assert_eq!(read(r#"["permission", "t"]"#), None);
}

#[test]
fn an_event_is_no_array_but_for_an_unknown_name() {
    assert!(matches!(HookEvent::from_json(&j(r#"["PreCompact"]"#)), Some(HookEvent::Unknown)));
    assert!(HookEvent::from_json(&j(r#"["PreCompact", 1]"#)).is_none());
    assert!(HookEvent::from_json(&j(r#"["Stop"]"#)).is_none());
    assert!(HookEvent::from_json(&j("[1]")).is_none());
}

#[test]
fn names_in_an_event_may_be_objects() {
    let stop = |mode: &str, effort: &str| {
        let text = format!(
            r#"{{"hook_event_name": "Stop", "session_id": "s", "transcript_path": "/t",
                "cwd": "/", "permission_mode": {mode}, "effort": {effort}}}"#
        );
        match HookEvent::from_json(&j(&text)) {
            Some(HookEvent::Stop(e)) => Some((e.permission_mode, e.effort)),
            _ => None,
        }
    };
    let high = Some(Effort { level: EffortLevel::High });
    assert_eq!(stop(r#"{"plan": null}"#, r#"["high"]"#), Some((PermissionMode::Plan, high)));
    assert_eq!(stop(r#"{"odd": {}}"#, "null"), Some((PermissionMode::Unknown, None)));
    assert_eq!(stop(r#""plan""#, r#"{"level": {"high": {}}}"#), Some((PermissionMode::Plan, high)));
    assert_eq!(stop(r#"{"plan": 1}"#, "null"), None);
    assert_eq!(stop(r#""plan""#, r#"["high", "low"]"#), None);
}
