//! The aggregator: sessions, approvals, tokens and entries.

use ccbridge::config::Fallback;
use ccbridge::json::Json;
use ccbridge::outside::parse_json;
use ccbridge::permission::additions::write::{write_allow_pattern, AddOutcome};
use ccbridge::permission::allowlist::Allowlist;
use ccbridge::permission::pattern::Pattern;
use ccbridge::proto::buddy::{Heartbeat, MatchSource, PromptInfo, WireDecision};
use ccbridge::proto::hook::{
    HookBase, HookEvent, NotificationEvent, PermissionMode, PostToolUseEvent, PreToolUseEvent,
    SessionEndEvent, SessionSource, SessionStartEvent, StopEvent, UserPromptSubmitEvent,
};
use ccbridge::setup::load_settings;
use ccbridge::state::{
    format_tool_hint, has_clean_hint, truncate_snippet, Aggregator, AggregatorMsg, HookOutcome,
    HookResponse, HookStep, PendingApproval, PermissionDecisionResult, Reaction, TurnDoneEvent,
    TurnDoneGate, DEFAULT_APPROVAL_TIMEOUT_MS, ENTRIES_CAP,
};
use std::time::Duration;

fn j(text: &str) -> Json {
    parse_json(text).expect("valid JSON")
}

fn base(session_id: &str) -> HookBase {
    HookBase {
        session_id: session_id.to_owned(),
        transcript_path: "/tmp/test.jsonl".to_owned(),
        cwd: "/tmp".to_owned(),
    }
}

fn session_start_event(session_id: &str) -> HookEvent {
    HookEvent::SessionStart(SessionStartEvent {
        base: base(session_id),
        source: SessionSource::Startup,
        model: "test-model".to_owned(),
        agent_type: None,
    })
}

fn call(session_id: &str, tool_use_id: &str, tool: &str, input: Json) -> PreToolUseEvent {
    PreToolUseEvent {
        base: base(session_id),
        permission_mode: PermissionMode::Default,
        effort: None,
        tool_name: tool.to_owned(),
        tool_input: input,
        tool_use_id: tool_use_id.to_owned(),
        agent_id: None,
        agent_type: None,
    }
}

fn pre_tool_use_event(session_id: &str, tool_use_id: &str, tool: &str) -> HookEvent {
    HookEvent::PreToolUse(call(session_id, tool_use_id, tool, j(r#"{"command": "echo hello"}"#)))
}

fn stop_event(session_id: &str) -> HookEvent {
    HookEvent::Stop(StopEvent {
        base: base(session_id),
        permission_mode: PermissionMode::Default,
        effort: None,
        response: Some("done".to_owned()),
    })
}

fn user_prompt_event(session_id: &str) -> HookEvent {
    HookEvent::UserPromptSubmit(UserPromptSubmitEvent {
        base: base(session_id),
        permission_mode: PermissionMode::Default,
        prompt: "do something".to_owned(),
    })
}

fn post_tool_use_event(session_id: &str, tool_use_id: &str, tool: &str) -> HookEvent {
    HookEvent::PostToolUse(PostToolUseEvent {
        base: base(session_id),
        permission_mode: PermissionMode::Default,
        effort: None,
        tool_name: tool.to_owned(),
        tool_input: j(r#"{"command": "echo hello"}"#),
        tool_use_id: tool_use_id.to_owned(),
        tool_result: Some(j(r#""output""#)),
        agent_id: None,
        agent_type: None,
    })
}

fn session_end_event(session_id: &str) -> HookEvent {
    HookEvent::SessionEnd(SessionEndEvent { base: base(session_id), reason: None })
}

fn new_agg() -> Aggregator {
    Aggregator::new(Duration::from_millis(DEFAULT_APPROVAL_TIMEOUT_MS), Fallback::default())
}

fn hook(agg: &mut Aggregator, event: HookEvent) -> HookStep {
    agg.handle_hook_event(event, &Allowlist::empty())
}

fn only_prompt(hb: Heartbeat) -> PromptInfo {
    assert_eq!(hb.prompts.len(), 1, "exactly one prompt expected");
    hb.prompts.into_iter().next().expect("prompt must be set")
}

// --- snapshots ---

#[test]
fn snapshot_empty() {
    let agg = new_agg();
    let hb = agg.snapshot();
    assert_eq!(hb.total, 0);
    assert_eq!(hb.running, 0);
    assert_eq!(hb.waiting, 0);
    assert!(hb.prompts.is_empty());
    assert_eq!(hb.msg, "no sessions");
}

#[test]
fn snapshot_session_counts() {
    let mut agg = new_agg();

    // Add two sessions — both idle.
    hook(&mut agg, session_start_event("s1"));
    hook(&mut agg, session_start_event("s2"));

    let hb = agg.snapshot();
    assert_eq!(hb.total, 2);
    assert_eq!(hb.running, 0);
    assert_eq!(hb.waiting, 0);

    // Mark s1 as running via UserPromptSubmit.
    hook(&mut agg, user_prompt_event("s1"));

    let hb = agg.snapshot();
    assert_eq!(hb.running, 1);
    assert_eq!(hb.waiting, 0);
}

#[test]
fn pre_tool_use_stores_oneshot_and_populates_prompt() {
    let mut agg = new_agg();
    hook(&mut agg, session_start_event("sess"));
    let step = hook(&mut agg, pre_tool_use_event("sess", "toolu_abc", "Bash"));

    // Aggregator should have stored the approval.
    assert!(agg.pending.contains_key("toolu_abc"));
    assert_eq!(
        step.outcome,
        HookOutcome::Await {
            tool_use_id: "toolu_abc".to_owned(),
            session_id: "sess".to_owned(),
            approval_timeout: Duration::from_millis(30_000),
            fallback: Fallback::Passthrough,
        }
    );
    assert!(step.broadcast);

    // Heartbeat should reflect waiting=1 with populated prompt.
    let hb = agg.snapshot();
    assert_eq!(hb.waiting, 1);
    let prompt = only_prompt(hb);
    assert_eq!(prompt.id, "toolu_abc");
    assert_eq!(prompt.tool, "Bash");
    assert_eq!(prompt.hint, "echo hello");
}

#[test]
fn ask_annotated_decision_surfaces_in_snapshot() {
    let allowlist = Allowlist { allow: vec![Pattern::parse("Bash(git status:*)")], deny: vec![] };
    let mut agg = new_agg();
    agg.handle_hook_event(session_start_event("sess_ann"), &allowlist);

    // No command: the pattern cannot tell.
    let event = HookEvent::PreToolUse(call("sess_ann", "toolu_ann_001", "Bash", j("{}")));
    agg.handle_hook_event(event, &allowlist);

    let hb = agg.snapshot();
    assert_eq!(hb.waiting, 1);
    let prompt = only_prompt(hb);
    assert_eq!(
        prompt.matched_pattern.as_deref(),
        Some("Bash(git status:*)"),
        "matched_pattern must be the raw settings.json pattern string"
    );
    assert_eq!(prompt.matched_source, Some(MatchSource::Allow));
}

#[test]
fn snapshot_includes_session_id_and_cwd() {
    let mut agg = new_agg();
    hook(&mut agg, session_start_event("sess-cwd"));
    hook(&mut agg, pre_tool_use_event("sess-cwd", "toolu_cwd_01", "Bash"));

    let prompt = only_prompt(agg.snapshot());
    assert_eq!(
        prompt.session_id.as_deref(),
        Some("sess-cwd"),
        "session_id must be populated in PromptInfo"
    );
    assert_eq!(
        prompt.cwd.as_deref(),
        Some("/tmp"),
        "cwd must be populated in PromptInfo"
    );
    assert!(
        prompt.agent_type.is_none(),
        "agent_type must be None for a top-level session"
    );
}

#[test]
fn start_intercept_captures_agent_type() {
    let mut agg = new_agg();
    hook(&mut agg, session_start_event("sess-agent"));

    let mut e =
        call("sess-agent", "toolu_agent_01", "Bash", j(r#"{"command": "echo agent"}"#));
    e.base.cwd = "/home/user/dev/project".to_owned();
    e.agent_id = Some("core@ccbridge".to_owned());
    e.agent_type = Some("general-purpose".to_owned());
    hook(&mut agg, HookEvent::PreToolUse(e));

    let prompt = only_prompt(agg.snapshot());
    assert_eq!(
        prompt.agent_type.as_deref(),
        Some("general-purpose"),
        "agent_type must be captured from the PreToolUse event"
    );
    assert_eq!(prompt.session_id.as_deref(), Some("sess-agent"));
}

#[test]
fn snapshot_lists_all_pending_sessions() {
    let mut agg = new_agg();
    for sid in ["sess-A", "sess-B"] {
        hook(&mut agg, session_start_event(sid));
    }
    for (sid, tid, tool) in [("sess-A", "toolu_a_01", "Bash"), ("sess-B", "toolu_b_01", "Edit")] {
        hook(&mut agg, pre_tool_use_event(sid, tid, tool));
    }

    let hb = agg.snapshot();
    assert_eq!(hb.waiting, 2, "both sessions must be counted as waiting");
    assert_eq!(hb.prompts.len(), 2, "both prompts must be in the heartbeat");
    assert_eq!(
        hb.msg, "approve: 2 pending",
        "msg must summarise multi-pending state",
    );

    let by_session = |sid: &str| {
        hb.prompts
            .iter()
            .find(|p| p.session_id.as_deref() == Some(sid))
            .expect("a prompt of the session")
    };
    assert_eq!(by_session("sess-A").id, "toolu_a_01");
    assert_eq!(by_session("sess-A").tool, "Bash");
    assert_eq!(by_session("sess-B").id, "toolu_b_01");
    assert_eq!(by_session("sess-B").tool, "Edit");
}

#[test]
fn snapshot_msg_for_one_pending_names_the_tool() {
    let mut agg = new_agg();
    hook(&mut agg, session_start_event("sess-solo"));
    hook(&mut agg, pre_tool_use_event("sess-solo", "toolu_solo", "Bash"));
    assert_eq!(agg.snapshot().msg, "approve: Bash");
}

// --- approving for good ---

#[test]
fn allowlist_always_writes_project_local_when_cwd_has_root() {
    let mut agg = new_agg();
    hook(&mut agg, session_start_event("sess_always"));
    let mut e = call(
        "sess_always",
        "toolu_always_01",
        "Bash",
        j(r#"{"command": "echo always_test"}"#),
    );
    e.base.cwd = "/tmp/proj".to_owned();
    let step = hook(&mut agg, HookEvent::PreToolUse(e.clone()));
    assert!(matches!(step.outcome, HookOutcome::Await { .. }));

    let always = agg
        .handle_allowlist_always("toolu_always_01")
        .expect("AllowlistAlways must fire Once");
    assert_eq!(always.decision, WireDecision::Once);
    assert_eq!(agg.snapshot().waiting, 0);

    let write = always.write.expect("a pattern is to be written");
    assert_eq!(write.pattern, "Bash(echo always_test)");
    assert_eq!(write.cwd, "/tmp/proj");
    assert_eq!(write.metadata.tool_use_id, "toolu_always_01");
    assert_eq!(write.metadata.session_id, "sess_always");

    // Once the pattern is in the settings, the same call is allowed.
    let settings = match write_allow_pattern(load_settings(None).unwrap(), &write.pattern) {
        Ok(AddOutcome::Added(settings)) => settings,
        other => panic!("not added: {other:?}"),
    };
    let allowlist = Allowlist::from_settings_json(&settings);
    e.tool_use_id = "toolu_always_02".to_owned();
    let step = agg.handle_hook_event(HookEvent::PreToolUse(e), &allowlist);
    assert_eq!(
        step.outcome,
        HookOutcome::Immediate(HookResponse::PermissionDecision(WireDecision::Once))
    );
}

#[test]
fn allowlist_always_bare_tool_denies_with_reason() {
    let mut agg = new_agg();
    hook(&mut agg, session_start_event("sess_bare"));
    let event = HookEvent::PreToolUse(call(
        "sess_bare",
        "toolu_bare_01",
        "WebSearch",
        j(r#"{"query": "Rust tokio"}"#),
    ));
    let step = hook(&mut agg, event);
    assert!(matches!(step.outcome, HookOutcome::Await { .. }));

    let always = agg.handle_allowlist_always("toolu_bare_01").expect("AllowlistAlways must fire");
    assert_eq!(
        always.decision,
        WireDecision::Deny,
        "bare-tool AllowlistAlways must deny"
    );
    assert_eq!(always.write, None);
}

#[test]
fn allowlist_always_declines_what_would_allow_more() {
    let mut agg = new_agg();
    let e = call("s", "t", "Bash", j(r#"{"command": "rm:*"}"#));
    hook(&mut agg, HookEvent::PreToolUse(e));
    let always = agg.handle_allowlist_always("t").unwrap();
    assert_eq!(always.decision, WireDecision::Deny);
    assert_eq!(always.write, None);
}

#[test]
fn allowlist_always_unknown_tool_use_id_no_panic() {
    let mut agg = new_agg();
    assert_eq!(agg.handle_allowlist_always("toolu_nonexistent"), None);
}

// --- approvals ---

#[test]
fn duplicate_tool_use_id_doesnt_corrupt_state() {
    let mut agg = new_agg();
    hook(&mut agg, session_start_event("sess1"));
    hook(&mut agg, session_start_event("sess2"));

    // First session registers the approval.
    let first = hook(&mut agg, pre_tool_use_event("sess1", "toolu_dup", "Bash"));
    assert!(matches!(first.outcome, HookOutcome::Await { .. }));
    assert!(agg.pending.contains_key("toolu_dup"));

    // Second session sends the SAME tool_use_id — must get Passthrough.
    let second = hook(&mut agg, pre_tool_use_event("sess2", "toolu_dup", "Bash"));
    assert!(
        matches!(second.outcome, HookOutcome::Immediate(HookResponse::Passthrough)),
        "duplicate tool_use_id must fall through to the agent's own prompt"
    );

    // First session's entry must still be intact.
    assert!(
        agg.pending.contains_key("toolu_dup"),
        "first session pending entry must survive duplicate attempt"
    );
    assert_eq!(agg.snapshot().waiting, 1, "waiting count must still be 1");
}

#[test]
fn permissive_mode_pre_tool_use_auto_allows_without_prompt() {
    let mut agg = new_agg();
    hook(&mut agg, session_start_event("sess_bypass"));
    let mut e = call("sess_bypass", "toolu_bypass_01", "Bash", j(r#"{"command": "echo hi"}"#));
    e.permission_mode = PermissionMode::BypassPermissions;
    let outcome = hook(&mut agg, HookEvent::PreToolUse(e)).outcome;
    assert!(
        matches!(
            outcome,
            HookOutcome::Immediate(HookResponse::PermissionDecision(WireDecision::Once))
        ),
        "permissive mode must auto-allow: got {outcome:?}",
    );
    assert!(
        !agg.pending.contains_key("toolu_bypass_01"),
        "permissive mode must not register an approval",
    );
    let hb = agg.snapshot();
    assert_eq!(hb.waiting, 0, "permissive mode must not set waiting");
}

#[test]
fn a_denied_pattern_is_a_hard_deny() {
    let mut agg = new_agg();
    let allowlist = Allowlist { allow: vec![], deny: vec![Pattern::parse("Bash(echo hello)")] };
    let step = agg.handle_hook_event(pre_tool_use_event("s", "t", "Bash"), &allowlist);
    assert_eq!(
        step.outcome,
        HookOutcome::Immediate(HookResponse::HardDeny {
            reason: "permissions.deny: Bash(echo hello)".to_owned()
        })
    );
    assert!(agg.pending.get("t").is_none());
}

#[test]
fn permission_decision_fires_oneshot_and_clears_waiting() {
    let mut agg = new_agg();
    hook(&mut agg, session_start_event("sess"));
    let step = hook(&mut agg, pre_tool_use_event("sess", "toolu_xyz", "Bash"));
    assert!(matches!(step.outcome, HookOutcome::Await { .. }));

    let (result, decision) = agg.handle_permission_decision("toolu_xyz", WireDecision::Once);
    assert_eq!(result, PermissionDecisionResult::Applied);
    assert_eq!(decision, Some(WireDecision::Once), "decision should have been fired");

    let hb = agg.snapshot();
    assert_eq!(hb.waiting, 0);
    assert!(hb.prompts.is_empty());
    assert_eq!(agg.pending.len(), 0);

    // It is decided once.
    let again = agg.handle_permission_decision("toolu_xyz", WireDecision::Deny);
    assert_eq!(again, (PermissionDecisionResult::UnknownId, None));
}

#[test]
fn approval_timed_out_clears_pending() {
    let mut agg = new_agg();
    hook(&mut agg, session_start_event("sess"));
    hook(&mut agg, pre_tool_use_event("sess", "toolu_timeout", "Bash"));
    assert_eq!(agg.snapshot().waiting, 1);
    assert_ne!(agg.pending.len(), 0);

    agg.handle_approval_timed_out("toolu_timeout");

    assert_eq!(agg.pending.len(), 0, "pending must be cleared");
    assert_eq!(agg.snapshot().waiting, 0, "waiting must be 0 after timeout");
    assert!(
        agg.snapshot().prompts.is_empty(),
        "prompt must be None after timeout"
    );
}

#[test]
fn permission_decision_unknown_id_does_not_panic() {
    let mut agg = new_agg();
    let (result, fired) = agg.handle_permission_decision("toolu_nonexistent", WireDecision::Deny);
    assert_eq!(result, PermissionDecisionResult::UnknownId);
    assert_eq!(fired, None);
}

#[test]
fn stop_clears_running_and_waiting() {
    let mut agg = new_agg();
    hook(&mut agg, session_start_event("sess"));
    hook(&mut agg, user_prompt_event("sess"));
    assert_eq!(agg.snapshot().running, 1);

    // A stale waiting state, inserted directly.
    let s = agg.sessions.value_mut(0);
    s.waiting = true;
    s.pending_tool_use_id = Some("toolu_stale".to_owned());
    agg.pending.insert(
        "toolu_stale".to_owned(),
        PendingApproval {
            event: call("sess", "toolu_stale", "Bash", j("{}")),
            tool_name: "Bash".to_owned(),
            tool_hint: "rm -rf".to_owned(),
            matched_pattern: None,
            match_source: None,
        },
    );
    assert_eq!(agg.snapshot().waiting, 1);

    // Fire Stop — should clear session waiting state.
    hook(&mut agg, stop_event("sess"));

    let hb = agg.snapshot();
    assert_eq!(hb.running, 0);
    assert_eq!(hb.waiting, 0);
    assert!(hb.prompts.is_empty());
}

// --- tokens and entries ---

#[test]
fn daily_reset_zeroes_today_keeps_cumulative_updates_date() {
    let mut agg = new_agg();
    agg.tokens.cumulative = 50_000;
    agg.tokens.today = 12_000;
    agg.tokens.date = "2026-05-19".to_owned();

    agg.reset_day("2026-05-20".to_owned());

    assert_eq!(
        agg.tokens.cumulative, 50_000,
        "cumulative must survive reset"
    );
    assert_eq!(agg.tokens.today, 0);
    assert_eq!(agg.tokens.date, "2026-05-20");
}

#[test]
fn entries_ring_buffer_caps_at_eight_newest_first() {
    let mut agg = new_agg();
    for i in 0..12u32 {
        agg.push_entry(format!("entry-{}", i));
    }
    assert_eq!(agg.entries.len(), ENTRIES_CAP);
    assert_eq!(agg.entries[0], "entry-11");
    assert_eq!(agg.entries[ENTRIES_CAP - 1], "entry-4");
}

#[test]
fn snapshot_entries_order_is_newest_first() {
    let mut agg = new_agg();
    agg.push_entry("oldest".to_owned());
    agg.push_entry("middle".to_owned());
    agg.push_entry("newest".to_owned());

    let hb = agg.snapshot();
    assert_eq!(hb.entries[0], "newest");
    assert_eq!(hb.entries[2], "oldest");
}

// --- messages ---

fn send_hook(agg: &mut Aggregator, event: HookEvent) -> Reaction {
    agg.apply(AggregatorMsg::HookEvent { event, allowlist: Allowlist::empty() })
}

fn heartbeat(agg: &mut Aggregator) -> Heartbeat {
    agg.apply(AggregatorMsg::GetHeartbeat).heartbeat.expect("a heartbeat")
}

#[test]
fn run_loop_responds_to_get_heartbeat() {
    let mut agg = new_agg();
    assert_eq!(heartbeat(&mut agg).total, 0);
}

#[test]
fn run_loop_session_start_increments_total() {
    let mut agg = new_agg();
    let r = send_hook(&mut agg, session_start_event("run-sess"));
    assert_eq!(r.outcome, Some(HookOutcome::Immediate(HookResponse::Passthrough)));
    assert_eq!(heartbeat(&mut agg).total, 1);
}

#[test]
fn run_loop_pre_tool_use_then_permission_decision() {
    let mut agg = new_agg();
    send_hook(&mut agg, session_start_event("psess"));

    let r = send_hook(&mut agg, pre_tool_use_event("psess", "toolu_run1", "Bash"));
    assert!(matches!(r.outcome, Some(HookOutcome::Await { .. })));
    assert!(r.broadcast);
    let hb = agg.snapshot();
    assert_eq!(hb.waiting, 1);
    assert_eq!(hb.prompts.len(), 1);

    let r = agg.apply(AggregatorMsg::PermissionDecision {
        tool_use_id: "toolu_run1".to_owned(),
        decision: WireDecision::Once,
    });
    assert_eq!(r.fire, Some(WireDecision::Once));
    assert!(r.broadcast);
    let hb2 = agg.snapshot();
    assert_eq!(hb2.waiting, 0);
    assert!(hb2.prompts.is_empty());
}

#[test]
fn run_loop_daily_reset_zeroes_today_keeps_cumulative() {
    let mut agg = new_agg();
    agg.apply(AggregatorMsg::TokensUpdate { output_tokens: 5_000 });
    agg.apply(AggregatorMsg::TokensUpdate { output_tokens: 3_000 });
    assert_eq!(agg.snapshot().tokens, 8_000);

    let r = agg.apply(AggregatorMsg::DailyReset { date: "2026-05-20".to_owned() });
    assert!(r.broadcast);
    let hb = agg.snapshot();
    assert_eq!(hb.tokens_today, 0);
    assert_eq!(hb.tokens, 8_000, "cumulative must survive reset");
}

#[test]
fn set_initial_tokens_seeds_aggregator_state() {
    let mut agg = new_agg();
    let r = agg.apply(AggregatorMsg::SetInitialTokens {
        cumulative: 184_502,
        today: 12_000,
        date: "2026-05-20".to_owned(),
    });
    assert!(r.broadcast);
    let hb = agg.snapshot();
    assert_eq!(hb.tokens, 184_502);
    assert_eq!(hb.tokens_today, 12_000);

    // A subsequent TokensUpdate adds on top, not replaces.
    agg.apply(AggregatorMsg::TokensUpdate { output_tokens: 200 });
    let hb = agg.snapshot();
    assert_eq!(hb.tokens, 184_702);
    assert_eq!(hb.tokens_today, 12_200);
}

#[test]
fn set_initial_tokens_does_not_regress_higher_running_total() {
    let mut agg = new_agg();
    agg.apply(AggregatorMsg::TokensUpdate { output_tokens: 200_000 });
    assert_eq!(agg.snapshot().tokens, 200_000);

    agg.apply(AggregatorMsg::SetInitialTokens {
        cumulative: 50_000,
        today: 10_000,
        date: "2026-05-20".to_owned(),
    });
    let hb = heartbeat(&mut agg);
    assert_eq!(hb.tokens, 200_000, "cumulative must not regress");
    assert_eq!(hb.tokens_today, 200_000, "today must not regress");
}

#[test]
fn run_loop_multiple_subscribers_all_receive_heartbeat() {
    // Every change is told to all, and every telling is the same.
    let mut agg = new_agg();
    let r = send_hook(&mut agg, session_start_event("multi-sess"));
    assert!(r.broadcast);
    let hb1 = agg.snapshot();
    let hb2 = agg.snapshot();
    assert_eq!(hb1.total, 1);
    assert_eq!(hb2.total, 1);
    assert_eq!(hb1, hb2);
}

#[test]
fn other_messages_change_what_they_name() {
    let mut agg = new_agg();
    let r = agg.apply(AggregatorMsg::AddEntry { text: "hi".to_owned() });
    assert!(r.broadcast);
    assert_eq!(agg.snapshot().entries, vec!["hi"]);

    send_hook(&mut agg, pre_tool_use_event("s", "t1", "Bash"));
    send_hook(&mut agg, pre_tool_use_event("s2", "t2", "WebSearch"));
    agg.apply(AggregatorMsg::ApprovalTimedOut { tool_use_id: "t1".to_owned() });
    assert_eq!(agg.snapshot().waiting, 1);
    let r = agg.apply(AggregatorMsg::AllowlistAlways { tool_use_id: "t2".to_owned() });
    assert_eq!(r.fire, Some(WireDecision::Deny));
    assert_eq!(r.write, None);
    let r = agg.apply(AggregatorMsg::PermissionDecision {
        tool_use_id: "t2".to_owned(),
        decision: WireDecision::Once,
    });
    assert_eq!(r.result, Some(PermissionDecisionResult::UnknownId));
}

// --- the end of a turn ---

fn with_grace(grace: Duration) -> Aggregator {
    let mut agg = new_agg();
    agg.set_turn_done_idle_grace(grace);
    agg
}

/// What is reported when the grace is over.
fn expire(agg: &mut Aggregator, gate: TurnDoneGate) -> Option<TurnDoneEvent> {
    agg.apply(AggregatorMsg::CheckTurnDone {
        session_id: gate.session_id,
        activity_serial: gate.activity_serial,
        snapshot: gate.snapshot,
    })
    .turn_done
}

#[test]
fn turn_done_fires_after_idle_grace_with_no_followup() {
    let mut agg = with_grace(Duration::from_millis(50));
    hook(&mut agg, session_start_event("sess_td"));
    let gate = hook(&mut agg, stop_event("sess_td")).gate.expect("a gate");
    assert_eq!(gate.grace, Duration::from_millis(50));

    let evt = expire(&mut agg, gate).expect("turn-done must fire");
    assert_eq!(evt.session_id, "sess_td");
    assert_eq!(evt.response_snippet, "done");
}

#[test]
fn turn_done_skipped_if_user_prompt_arrives_in_grace() {
    let mut agg = with_grace(Duration::from_millis(200));
    hook(&mut agg, session_start_event("sess_followup"));
    let gate = hook(&mut agg, stop_event("sess_followup")).gate.expect("a gate");

    hook(&mut agg, user_prompt_event("sess_followup"));
    let result = expire(&mut agg, gate);
    assert!(
        result.is_none(),
        "turn-done must NOT fire when user submitted a follow-up; got {:?}",
        result,
    );
}

#[test]
fn turn_done_skipped_if_pre_tool_use_arrives_in_grace() {
    let mut agg = with_grace(Duration::from_millis(200));
    hook(&mut agg, session_start_event("sess_midtask"));
    let gate = hook(&mut agg, stop_event("sess_midtask")).gate.expect("a gate");

    hook(&mut agg, pre_tool_use_event("sess_midtask", "toolu_mid", "Bash"));
    let result = expire(&mut agg, gate);
    assert!(
        result.is_none(),
        "turn-done must NOT fire when the session continued with a tool call; got {:?}",
        result,
    );
}

#[test]
fn turn_done_skipped_if_post_tool_use_arrives_in_grace() {
    let mut agg = with_grace(Duration::from_millis(200));
    hook(&mut agg, session_start_event("sess_post"));
    let gate = hook(&mut agg, stop_event("sess_post")).gate.expect("a gate");

    hook(&mut agg, post_tool_use_event("sess_post", "toolu_p", "Bash"));
    let result = expire(&mut agg, gate);
    assert!(
        result.is_none(),
        "turn-done must NOT fire when a PostToolUse arrives during grace; got {:?}",
        result,
    );
}

#[test]
fn turn_done_disabled_when_grace_is_zero() {
    let mut agg = with_grace(Duration::from_millis(0));
    hook(&mut agg, session_start_event("sess_off"));
    let gate = hook(&mut agg, stop_event("sess_off")).gate;
    assert!(gate.is_none(), "turn-done must NOT fire when idle_grace is zero");
}

#[test]
fn a_session_that_ended_counts_as_idle() {
    let mut agg = with_grace(Duration::from_millis(200));
    hook(&mut agg, session_start_event("s"));
    let gate = hook(&mut agg, stop_event("s")).gate.expect("a gate");
    hook(&mut agg, session_end_event("s"));
    assert_eq!(agg.snapshot().total, 0);
    assert_eq!(expire(&mut agg, gate).expect("turn-done must fire").session_id, "s");
}

#[test]
fn a_notification_changes_no_counts() {
    let mut agg = new_agg();
    hook(&mut agg, session_start_event("s"));
    let before = agg.snapshot();
    let step = hook(
        &mut agg,
        HookEvent::Notification(NotificationEvent {
            base: base("s"),
            notification_type: "idle".to_owned(),
            message: "hm".to_owned(),
        }),
    );
    assert_eq!(step.outcome, HookOutcome::Immediate(HookResponse::Passthrough));
    let after = agg.snapshot();
    assert_eq!(after.entries, vec!["notif: hm", "session: /tmp"]);
    assert_eq!((after.total, after.running, after.waiting), (1, 0, 0));
    assert_eq!(before.entries, vec!["session: /tmp"]);
    let step = hook(&mut agg, HookEvent::Unknown);
    assert_eq!(step.outcome, HookOutcome::Immediate(HookResponse::Passthrough));
    assert_eq!(agg.snapshot(), after);
}

// --- texts ---

#[test]
fn hints_are_cut() {
    assert_eq!(format_tool_hint(&j(r#"{"command": "ls"}"#)), "ls");
    assert_eq!(format_tool_hint(&j(r#"{"file_path": "/x", "content": "y"}"#)), "/x");
    let long = format!(r#"{{"command": "{}"}}"#, "a".repeat(200));
    assert_eq!(format_tool_hint(&j(&long)), format!("{}…", "a".repeat(60)));
    assert_eq!(format_tool_hint(&j(r#"{"other": 1}"#)), "");
    let cut_inside_a_character = format!(r#"{{"command": "a{}"}}"#, "é".repeat(100));
    assert!(has_clean_hint(&j(r#"{"command": "ls"}"#)));
    assert!(has_clean_hint(&j(&long)));
    assert!(!has_clean_hint(&j(&cut_inside_a_character)));
    assert!(has_clean_hint(&j(&format!(r#"{{"command": "{}"}}"#, "é".repeat(100)))));
}

#[test]
fn snippets_are_one_short_line() {
    assert_eq!(truncate_snippet("done"), "done");
    assert_eq!(truncate_snippet("  two words \nmore"), "two words");
    assert_eq!(truncate_snippet(&"x".repeat(1_000)), format!("{}…", "x".repeat(80)));
}

#[test]
fn a_call_that_cannot_be_taken_changes_nothing() {
    let input = j(&format!(r#"{{"command": "a{}"}}"#, "é".repeat(100)));
    let mut agg = new_agg();
    let mut e = call("s", "t", "Bash", input);
    let msg = |e: &PreToolUseEvent| AggregatorMsg::HookEvent {
        event: HookEvent::PreToolUse(e.clone()),
        allowlist: Allowlist::empty(),
    };
    assert_eq!(agg.try_apply(msg(&e)), None);
    assert_eq!(agg.snapshot().total, 0);

    // No hint is made where nobody is asked.
    e.permission_mode = PermissionMode::Auto;
    let r = agg.try_apply(msg(&e)).expect("taken");
    assert_eq!(
        r.outcome,
        Some(HookOutcome::Immediate(HookResponse::PermissionDecision(WireDecision::Once)))
    );

    assert!(agg.try_apply(AggregatorMsg::TokensUpdate { output_tokens: u64::MAX }).is_some());
    assert_eq!(agg.try_apply(AggregatorMsg::TokensUpdate { output_tokens: 1 }), None);
    assert_eq!(agg.snapshot().tokens, u64::MAX);
}
