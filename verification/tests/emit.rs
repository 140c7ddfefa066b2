//! What is shown, sent and answered.

use ccbridge::agent::AgentNames;
use ccbridge::cli::{seed_message, subcommand, undo_report, watchdog_interval, Subcommand};
use ccbridge::config::{BleConfig, BleDeviceOverride, Fallback};
use ccbridge::emit::ble::{
    find_nus_chars, find_override, handle_inbound, matches_service, service_uuid, session_opening,
    starts_session, Backoff, DeviceStep, NUS_RX_CHAR_UUID, NUS_SERVICE_UUID, NUS_TX_CHAR_UUID,
};
use ccbridge::emit::ctrl::{
    build_hello, greeting_lines, handle_command, line_too_long, permission_ack, resolve_owner,
    streamed_line, CtrlStep, Subscriptions, MAX_LINE_BYTES,
};
use ccbridge::emit::http::{
    bind_allowed, error_response, handle, route, BindAddress, Route, StateReply,
};
use ccbridge::emit::notify::{restart_notice, ClickOutcome, HeartbeatPlan, NotifyState};
use ccbridge::ingest::hooks::{
    awaited_response, event_name_str, immediate_response, parse_hook_line, pre_tool_use_response,
    timeout_response, WaitEnd,
};
use ccbridge::ingest::jsonl::tokens::PersistedTokens;
use ccbridge::ingest::relay::{
    outgoing_line, printed_reply, stdin_timeout_ms, STDIN_MAX_BYTES, STDIN_TIMEOUT_DEFAULT_MS,
};
use ccbridge::json::Json;
use ccbridge::lines::{
    ack_line, heartbeat_line, heartbeat_text, hello_line, owner_line, response_line, status_line,
    strip_line, time_line,
};
use ccbridge::outside::parse_json;
use ccbridge::permission::additions::undo::UndoOutcome;
use ccbridge::proto::buddy::{
    DeviceCommand, Heartbeat, MatchSource, OwnerMessage, PromptInfo, StatusAck, TimeSync,
    WireDecision,
};
use ccbridge::proto::ctrl::{Ack, Topic};
use ccbridge::proto::hook::{HookEvent, PermissionDecision};
use ccbridge::state::{AggregatorMsg, HookResponse, PermissionDecisionResult, TurnDoneEvent};

fn j(text: &str) -> Json {
    parse_json(text).expect("valid JSON")
}

fn names() -> AgentNames {
    AgentNames {
        product: "Coding Agent".to_owned(),
        short: "Agent".to_owned(),
        dir: ".agent".to_owned(),
    }
}

fn prompt(id: &str, session: &str) -> PromptInfo {
    PromptInfo {
        id: id.to_owned(),
        tool: "Bash".to_owned(),
        hint: "ls".to_owned(),
        matched_pattern: None,
        matched_source: None,
        session_id: Some(session.to_owned()),
        cwd: Some("/home/u/dev/x".to_owned()),
        agent_type: None,
    }
}

fn beat(prompts: Vec<PromptInfo>) -> Heartbeat {
    Heartbeat {
        total: 1,
        running: 0,
        waiting: prompts.len() as u32,
        msg: "m".to_owned(),
        entries: vec!["e".to_owned()],
        tokens: 7,
        tokens_today: 5,
        prompts,
    }
}

// --- notifications ---

fn tell(state: &mut NotifyState, prompts: Vec<PromptInfo>) -> HeartbeatPlan {
    state.handle_heartbeat(&beat(prompts), "/home/u", &names())
}

#[test]
fn a_prompt_is_shown_once_and_closed_when_it_is_gone() {
    let mut state = NotifyState::new();
    let plan = tell(&mut state, vec![prompt("t1", "session-1")]);
    assert!(plan.close.is_empty());
    assert_eq!(plan.posts.len(), 1);
    let post = &plan.posts[0];
    assert_eq!(post.summary, "Coding Agent [~/dev/x]: approve Bash?");
    assert_eq!(post.body, "ls\n[~/dev/x · main · sessio]");
    assert_eq!(post.replaces_id, 0);
    assert_eq!(
        post.actions,
        vec![
            "default", "Approve once", "once", "Approve once", "always", "Always", "deny", "Deny",
        ]
    );
    assert_eq!((post.urgency, post.expire_ms), (2, 0));
    state.approval_posted(post, 11);

    // The same prompt again: it is on the screen.
    assert!(tell(&mut state, vec![prompt("t1", "session-1")]).posts.is_empty());

    // Another prompt of the session takes its place.
    let plan = tell(&mut state, vec![prompt("t2", "session-1")]);
    assert_eq!(plan.posts[0].replaces_id, 11);
    state.approval_posted(&plan.posts[0], 12);

    let plan = tell(&mut state, vec![]);
    assert_eq!(plan.close, vec![12]);
    assert!(plan.posts.is_empty());
}

#[test]
fn a_pattern_that_may_mean_the_call_is_named() {
    let mut p = prompt("t1", "session-1");
    p.cwd = None;
    p.agent_type = Some("planner".to_owned());
    p.matched_pattern = Some("Bash(\"x\":*)".to_owned());
    p.matched_source = Some(MatchSource::Deny);
    let mut state = NotifyState::new();
    let plan = tell(&mut state, vec![p]);
    assert_eq!(plan.posts[0].summary, "Coding Agent: approve Bash?");
    assert_eq!(
        plan.posts[0].body,
        "ls\n[? · planner · sessio]\n[Agent denies this with pattern \"Bash(\\\"x\\\":*)\" — confirm to override]"
    );
}

#[test]
fn a_dismissed_prompt_stays_away() {
    let mut state = NotifyState::new();
    let plan = tell(&mut state, vec![prompt("t1", "s")]);
    state.approval_posted(&plan.posts[0], 11);
    state.handle_closed(11);
    assert!(tell(&mut state, vec![prompt("t1", "s")]).posts.is_empty());
    // Once the call is no longer asked about, the dismissal is over.
    tell(&mut state, vec![]);
    assert_eq!(tell(&mut state, vec![prompt("t1", "s")]).posts.len(), 1);
}

#[test]
fn clicks_decide() {
    for (action, expected) in [
        ("default", Some(WireDecision::Once)),
        ("once", Some(WireDecision::Once)),
        ("deny", Some(WireDecision::Deny)),
        ("always", None),
    ] {
        let mut state = NotifyState::new();
        let plan = tell(&mut state, vec![prompt("t1", "s")]);
        state.approval_posted(&plan.posts[0], 11);
        assert_eq!(state.handle_action(11, "other"), ClickOutcome::Ignored);
        let outcome = state.handle_action(11, action);
        match expected {
            Some(decision) => assert_eq!(
                outcome,
                ClickOutcome::Decide { tool_use_id: "t1".to_owned(), decision }
            ),
            None => assert_eq!(outcome, ClickOutcome::Always { tool_use_id: "t1".to_owned() }),
        }
        // The prompt is not shown again while it is still told.
        assert!(tell(&mut state, vec![prompt("t1", "s")]).posts.is_empty());
        // A second click is stale, and explained once.
        assert_eq!(state.handle_action(11, action), ClickOutcome::Stale { explain: true });
        assert_eq!(state.handle_action(11, action), ClickOutcome::Stale { explain: false });
    }
}

#[test]
fn a_finished_turn_takes_the_sessions_place() {
    let mut state = NotifyState::new();
    let plan = tell(&mut state, vec![prompt("t1", "session-1")]);
    state.approval_posted(&plan.posts[0], 11);
    let evt = TurnDoneEvent {
        session_id: "session-1".to_owned(),
        response_snippet: "all good".to_owned(),
        cwd: "/home/u/dev/x".to_owned(),
        tokens_cumulative: 1_172,
    };
    let post = state.handle_turn_done(&evt, 1_172, 5_000, "/home/u", &names());
    assert!(post.actions.is_empty());
    assert_eq!((post.urgency, post.expire_ms), (1, 5_000));
    assert_eq!(post.replaces_id, 11);
    assert_eq!(post.summary, "Coding Agent [~/dev/x]: done");
    assert_eq!(post.body, "all good\n[~/dev/x · main · sessio]\n1.2k tokens/turn");
    state.turn_done_posted(&post, 12);
    // It stays when no prompt is told, and a click on it means nothing.
    assert!(tell(&mut state, vec![]).close.is_empty());
    assert_eq!(state.handle_action(12, "default"), ClickOutcome::Ignored);
    assert_eq!(state.close_all(), vec![12]);
    assert!(state.close_all().is_empty());
}

#[test]
fn the_same_heartbeat_changes_nothing() {
    let mut state = NotifyState::new();
    let prompts = || vec![prompt("t1", "a"), prompt("t2", "b"), prompt("t3", "c")];
    let plan = tell(&mut state, prompts());
    for (post, id) in plan.posts.iter().zip(21..) {
        state.approval_posted(post, id);
    }
    state.handle_closed(22);
    for _ in 0..2 {
        let plan = tell(&mut state, prompts());
        assert!(plan.close.is_empty());
        assert!(plan.posts.is_empty());
    }
    assert_eq!(state.close_all(), vec![21, 23]);
}

#[test]
fn a_restart_is_explained() {
    let notice = restart_notice();
    assert_eq!(notice.summary, "ccbridge restarted");
    assert!(notice.body.starts_with("Please re-trigger the action you were approving. The"));
    assert!(notice.actions.is_empty());
    assert_eq!((notice.urgency, notice.expire_ms), (2, 0));
}

#[test]
fn a_turn_without_details_tells_its_tokens() {
    let evt = TurnDoneEvent {
        session_id: String::new(),
        response_snippet: String::new(),
        cwd: String::new(),
        tokens_cumulative: 0,
    };
    let post = NotifyState::new().handle_turn_done(&evt, 42, -1, "/home/u", &names());
    assert_eq!(post.expire_ms, -1);
    assert_eq!(post.summary, "Coding Agent: done");
    assert_eq!(post.body, "42 tokens/turn");
}

// --- the control socket ---

#[test]
fn topics_are_added_and_taken_back() {
    let mut subs = Subscriptions::none();
    let step = handle_command(r#"{"cmd": "subscribe", "topics": ["heartbeat", "log"]}"#, &mut subs);
    assert!(matches!(step, CtrlStep::Reply(a) if a == Ack::ok("subscribe")));
    assert!(subs.contains(Topic::Heartbeat) && subs.contains(Topic::Log));
    assert!(!subs.contains(Topic::Turn));
    let step = handle_command(r#"{"cmd": "unsubscribe", "topics": ["log"]}"#, &mut subs);
    assert!(matches!(step, CtrlStep::Reply(a) if a == Ack::ok("unsubscribe")));
    assert!(subs.contains(Topic::Heartbeat) && !subs.contains(Topic::Log));
}

#[test]
fn commands_are_answered() {
    let mut subs = Subscriptions::none();
    let mut reply = |line: &str| handle_command(line, &mut subs);
    for cmd in [
        r#"{"cmd": "replay", "n": 3}"#,
        r#"{"cmd": "forget_device", "addr": "x"}"#,
        r#"{"cmd": "simulate", "event": {}}"#,
        r#"{"cmd": "dance"}"#,
        r#"{"cmd": "replay", "n": -3}"#,
    ] {
        match reply(cmd) {
            CtrlStep::Reply(ack) => assert_eq!(
                (ack.ok, ack.error.as_deref(), Some(ack.ack.as_str())),
                (false, Some("unknown_command"), j(cmd).get_str("cmd"))
            ),
            other => panic!("{cmd}: {other:?}"),
        }
    }
    assert!(matches!(reply("nonsense"), CtrlStep::Silent));
    assert!(matches!(reply("[1]"), CtrlStep::Silent));
    match reply(r#"{"cmd": "status"}"#) {
        CtrlStep::ReplyStatus(s) => {
            assert_eq!(status_line(&s), "{\"ack\":\"status\",\"ok\":true,\"data\":{\"name\":\"ccbridge\"}}\n")
        }
        other => panic!("{other:?}"),
    }
    match reply(r#"{"cmd": "permission", "id": "t", "decision": "deny"}"#) {
        CtrlStep::Decide { id, decision } => assert_eq!((id.as_str(), decision), ("t", WireDecision::Deny)),
        other => panic!("{other:?}"),
    }
}

#[test]
fn decisions_are_acknowledged() {
    assert_eq!(permission_ack(Some(PermissionDecisionResult::Applied)), Ack::ok("permission"));
    assert_eq!(
        permission_ack(Some(PermissionDecisionResult::UnknownId)),
        Ack::err("permission", "unknown_id")
    );
    assert_eq!(permission_ack(None), Ack::err("permission", "aggregator_gone"));
}

#[test]
fn long_lines_are_told() {
    assert!(!line_too_long(&"x".repeat(MAX_LINE_BYTES)));
    assert!(line_too_long(&"x".repeat(MAX_LINE_BYTES + 1)));
    assert!(line_too_long(&"é".repeat(MAX_LINE_BYTES / 2 + 1)));
}

#[test]
fn the_greeting_names_the_owner() {
    assert_eq!(resolve_owner(Some(" Ada \n"), Some("u")), "Ada");
    assert_eq!(resolve_owner(Some("\n"), Some("u")), "u");
    assert_eq!(resolve_owner(None, Some("")), "unknown");
    assert_eq!(
        hello_line(&build_hello("Ada", 1_775_731_234, -25_200)),
        "{\"hello\":{\"version\":1,\"owner\":\"Ada\",\"time\":[1775731234,-25200]}}\n"
    );
}

// --- lines ---

#[test]
fn messages_are_lines() {
    assert_eq!(ack_line(&Ack::ok("x")), "{\"ack\":\"x\",\"ok\":true}\n");
    assert_eq!(
        ack_line(&Ack::err("x", "a\nb")),
        "{\"ack\":\"x\",\"ok\":false,\"error\":\"a\\nb\"}\n"
    );
    let hb = beat(vec![]);
    assert_eq!(heartbeat_line(&hb), format!("{}\n", heartbeat_text(&hb)));
    let doc = j(&heartbeat_text(&hb));
    assert_eq!(doc, hb.to_json());
    assert_eq!(doc.get("tokens"), Some(&j("7")));
    assert_eq!(strip_line("abc\r\n"), "abc");
    assert_eq!(strip_line("abc\n\n"), "abc");
}

#[test]
fn a_device_is_greeted() {
    assert_eq!(
        owner_line(&OwnerMessage::new("Ada \"L\"")),
        "{\"cmd\":\"owner\",\"name\":\"Ada \\\"L\\\"\"}\n"
    );
    assert_eq!(
        time_line(&TimeSync { time: (1_775_731_234, -25_200) }),
        "{\"time\":[1775731234,-25200]}\n"
    );
}

#[test]
fn answers_are_lines() {
    assert_eq!(
        response_line(&pre_tool_use_response(WireDecision::Once)),
        "{\"hookSpecificOutput\":{\"hookEventName\":\"PreToolUse\",\"permissionDecision\":\"allow\"}}\n"
    );
    let denied = immediate_response(&HookResponse::HardDeny { reason: "no".to_owned() }).unwrap();
    assert_eq!(
        response_line(&denied),
        "{\"hookSpecificOutput\":{\"hookEventName\":\"PreToolUse\",\"permissionDecision\":\"deny\",\"permissionDecisionReason\":\"no\"}}\n"
    );
    assert!(immediate_response(&HookResponse::Passthrough).is_none());
    let once = HookResponse::PermissionDecision(WireDecision::Deny);
    assert_eq!(
        immediate_response(&once).unwrap().hook_specific_output.permission_decision,
        PermissionDecision::Deny
    );
}

#[test]
fn waiting_ends_in_an_answer() {
    assert!(awaited_response(WaitEnd::Dropped, Fallback::Deny).is_none());
    assert_eq!(
        awaited_response(WaitEnd::TimedOut, Fallback::Deny),
        Some(timeout_response(Fallback::Deny))
    );
    assert_eq!(
        awaited_response(WaitEnd::Decided(WireDecision::Once), Fallback::Deny),
        Some(pre_tool_use_response(WireDecision::Once))
    );
}

#[test]
fn hook_lines_are_events() {
    let line = "{\"hook_event_name\": \"SessionEnd\", \"session_id\": \"s\", \"transcript_path\": \"t\", \"cwd\": \"/\"}\r\n";
    let event = parse_hook_line(line).expect("an event");
    assert!(matches!(&event, HookEvent::SessionEnd(e) if e.reason.is_none()));
    assert_eq!(event_name_str(&event), "SessionEnd");
    assert_eq!(event_name_str(&HookEvent::Unknown), "Unknown");
    assert_eq!(HookEvent::from_json(&event.to_json()), Some(event));
    assert!(parse_hook_line("nonsense").is_none());
    assert!(parse_hook_line("{}").is_none());
}

#[test]
fn the_hook_command_relays_lines() {
    assert_eq!(outgoing_line(Some("{}\r\n"), STDIN_MAX_BYTES).as_deref(), Some("{}\n"));
    assert_eq!(outgoing_line(Some("\n"), STDIN_MAX_BYTES), None);
    assert_eq!(outgoing_line(None, STDIN_MAX_BYTES), None);
    assert_eq!(outgoing_line(Some("abcd"), 3), None);
    assert_eq!(printed_reply(Some("{}\n")).as_deref(), Some("{}\n"));
    assert_eq!(printed_reply(Some("")), None);
    assert_eq!(printed_reply(None), None);
    assert_eq!(stdin_timeout_ms(None), STDIN_TIMEOUT_DEFAULT_MS);
    assert_eq!(stdin_timeout_ms(Some(70)), 70);
}

// --- the status page ---

#[test]
fn only_the_status_is_served() {
    assert_eq!(route("GET", "/status"), Route::Status);
    assert_eq!(route("POST", "/status"), Route::NotFound);
    assert_eq!(route("GET", "/status/"), Route::NotFound);
    let hb = beat(vec![]);
    let text = heartbeat_text(&hb);
    let ok = handle(Route::Status, &StateReply::Heartbeat(hb));
    assert_eq!((ok.status, ok.content_type, ok.body), (200, "application/json", text));
    assert_eq!(
        handle(Route::Status, &StateReply::Unavailable),
        error_response(503, "aggregator unavailable")
    );
    assert_eq!(
        handle(Route::Status, &StateReply::Dropped),
        error_response(503, "aggregator dropped response")
    );
    assert_eq!(
        handle(Route::NotFound, &StateReply::Unavailable),
        error_response(404, "not found")
    );
}

#[test]
fn the_page_is_local() {
    assert!(bind_allowed(BindAddress::V4 { a: 127, b: 0, c: 0, d: 1 }));
    assert!(!bind_allowed(BindAddress::V4 { a: 0, b: 0, c: 0, d: 0 }));
    assert!(bind_allowed(BindAddress::V6 { high: 0, low: 1 }));
    assert!(!bind_allowed(BindAddress::V6 { high: 0, low: 0 }));
}

// --- devices ---

#[test]
fn devices_offer_the_service() {
    let uuids = vec![1, NUS_SERVICE_UUID];
    assert!(matches_service(true, Some(&uuids), NUS_SERVICE_UUID));
    assert!(!matches_service(false, Some(&uuids), NUS_SERVICE_UUID));
    assert!(!matches_service(true, None, NUS_SERVICE_UUID));
    assert!(!matches_service(true, Some(&vec![1]), NUS_SERVICE_UUID));
    assert_eq!(find_nus_chars(&vec![5, NUS_TX_CHAR_UUID, NUS_RX_CHAR_UUID]), Some((2, 1)));
    assert_eq!(find_nus_chars(&vec![NUS_TX_CHAR_UUID]), None);
}

#[test]
fn a_device_gets_one_session() {
    let mut o =
        BleDeviceOverride { address: "A".to_owned(), nickname: None, disabled: false };
    assert!(starts_session(None, false));
    assert!(starts_session(Some(&o), false));
    assert!(!starts_session(Some(&o), true));
    o.disabled = true;
    assert!(!starts_session(Some(&o), false));
}

#[test]
fn pauses_double() {
    let mut b = Backoff::new();
    let pauses: Vec<u64> = (0..7).map(|_| b.pause(false)).collect();
    assert_eq!(pauses, vec![1, 2, 4, 8, 16, 30, 30]);
    assert_eq!(b.pause(true), 1);
    assert_eq!(b.pause(false), 2);
}

#[test]
fn devices_are_answered() {
    match handle_inbound(r#"{"cmd": "permission", "id": "t", "decision": "once"}"#) {
        DeviceStep::Decide { id, decision } => assert_eq!((id.as_str(), decision), ("t", WireDecision::Once)),
        other => panic!("{other:?}"),
    }
    match handle_inbound(r#"{"cmd": "status"}"#) {
        DeviceStep::ReplyStatus(s) => assert_eq!(s, StatusAck::of_bridge()),
        other => panic!("{other:?}"),
    }
    let reply = |line: &str| match handle_inbound(line) {
        DeviceStep::Reply(ack) => ack,
        other => panic!("{other:?}"),
    };
    assert_eq!(reply(r#"{"cmd": "name", "name": "desk"}"#), Ack::ok("name"));
    assert_eq!(reply(r#"{"cmd": "unpair"}"#), Ack::err("unpair", "manage_via_os"));
    assert_eq!(reply(r#"{"cmd": "jump"}"#), Ack::err("jump", "unknown msg"));
    assert!(matches!(handle_inbound(""), DeviceStep::Silent));
    assert!(matches!(handle_inbound("{}"), DeviceStep::Silent));
    assert_eq!(DeviceCommand::from_json(&j("[]")), None);
}

// --- the command line ---

#[test]
fn the_first_argument_is_the_task() {
    assert_eq!(subcommand(None), Subcommand::Daemon);
    assert_eq!(subcommand(Some("setup")), Subcommand::Setup);
    assert_eq!(subcommand(Some("undo-last-allow")), Subcommand::UndoLastAllow);
    assert_eq!(subcommand(Some("x")), Subcommand::Unknown { name: "x".to_owned() });
}

#[test]
fn undoing_is_reported() {
    let pattern = "Bash(\"x\")".to_owned();
    let file = "/f".to_owned();
    assert_eq!(
        undo_report(&UndoOutcome::Removed { pattern: pattern.clone(), file: file.clone() }),
        "Removed pattern \"Bash(\\\"x\\\")\" from /f."
    );
    assert_eq!(
        undo_report(&UndoOutcome::AlreadyGone { pattern: pattern.clone(), file: file.clone() }),
        "Pattern \"Bash(\\\"x\\\")\" not present in /f (already removed?)."
    );
    assert_eq!(
        undo_report(&UndoOutcome::FileMissing { pattern, file }),
        "Pattern \"Bash(\\\"x\\\")\": settings file /f not found (already removed?)."
    );
}

#[test]
fn counts_are_seeded_if_there_are_any() {
    assert!(seed_message(PersistedTokens::default()).is_none());
    let tokens = PersistedTokens { date: String::new(), today: 0, cumulative: 9 };
    assert!(matches!(
        seed_message(tokens),
        Some(AggregatorMsg::SetInitialTokens { cumulative: 9, today: 0, date }) if date.is_empty()
    ));
}

#[test]
fn signs_of_life_come_twice_as_often_as_asked() {
    assert_eq!(watchdog_interval(true, 30_000_001), Some(15_000_000));
    assert_eq!(watchdog_interval(false, 30_000_000), None);
    assert_eq!(watchdog_interval(true, 0), None);
}

// --- what a connection starts with ---

#[test]
fn a_client_is_greeted_and_told_how_things_stand() {
    let hb = beat(Vec::new());
    let lines = greeting_lines("Felix", 1_775_731_234, -25_200, Some(&hb));
    assert_eq!(
        lines,
        vec![
            "{\"hello\":{\"version\":1,\"owner\":\"Felix\",\"time\":[1775731234,-25200]}}\n".to_owned(),
            heartbeat_line(&hb),
        ]
    );
    assert_eq!(greeting_lines("Felix", 1_775_731_234, -25_200, None), lines[..1].to_vec());
}

#[test]
fn heartbeats_go_to_subscribers() {
    let hb = beat(Vec::new());
    let mut topics = Subscriptions::none();
    assert_eq!(streamed_line(&topics, &hb), None);
    handle_command(r#"{"cmd": "subscribe", "topics": ["turn"]}"#, &mut topics);
    assert_eq!(streamed_line(&topics, &hb), None);
    handle_command(r#"{"cmd": "subscribe", "topics": ["heartbeat"]}"#, &mut topics);
    assert_eq!(streamed_line(&topics, &hb), Some(heartbeat_line(&hb)));
}

#[test]
fn a_session_opens_with_the_owner_and_the_time() {
    let hb = beat(Vec::new());
    let lines = session_opening("Felix", 1_775_731_234, -25_200, Some(&hb));
    assert_eq!(
        lines,
        vec![
            "{\"cmd\":\"owner\",\"name\":\"Felix\"}\n".to_owned(),
            "{\"time\":[1775731234,-25200]}\n".to_owned(),
            heartbeat_line(&hb),
        ]
    );
    assert_eq!(session_opening("Felix", 1_775_731_234, -25_200, None), lines[..2].to_vec());
}

#[test]
fn the_last_entry_for_a_device_counts() {
    let configured = vec![Some(1), None, Some(2), Some(1)];
    assert_eq!(find_override(&configured, 1), Some(3));
    assert_eq!(find_override(&configured, 2), Some(2));
    assert_eq!(find_override(&configured, 3), None);
    assert_eq!(find_override(&Vec::new(), 0), None);
}

#[test]
fn the_service_is_named_by_a_uuid() {
    let mut config = BleConfig::default();
    assert_eq!(service_uuid(&config), Some(NUS_SERVICE_UUID));
    config.service_uuid = "6E400001B5A3F393E0A9E50E24DCCA9E".to_owned();
    assert_eq!(service_uuid(&config), Some(NUS_SERVICE_UUID));
    config.service_uuid = "00000000-0000-0000-0000-00000000000a".to_owned();
    assert_eq!(service_uuid(&config), Some(10));
    config.service_uuid = "nus".to_owned();
    assert_eq!(service_uuid(&config), None);
}
