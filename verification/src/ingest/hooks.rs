//! A hook's connection: reading its event, and answering it.

use vstd::prelude::*;
use crate::config::Fallback;
use crate::lines::{line_content, strip_line};
use crate::outside::{json_text, parse_json};
use crate::proto::buddy::WireDecision;
use crate::proto::hook::{
    event_in, text_of, HookEvent, PermissionDecision, PreToolUseOutput, PreToolUseResponse,
};
use crate::state::HookResponse;

verus! {

/// The event of a line. Without one the connection is closed unanswered, and the
/// session goes on as if there were no bridge.
pub fn parse_hook_line(line: &str) -> (r: Option<HookEvent>)
    ensures
        match json_text(line_content(line@)) {
            None => r is None,
            Some(v) => match event_in(v) {
                Some(e) => r is Some && r->0@ == e,
                None => r is None,
            },
        },
{
    match parse_json(strip_line(line)) {
        Some(v) => HookEvent::from_json(&v),
        None => None,
    }
}

pub open spec fn hook_decision(d: WireDecision) -> PermissionDecision {
    match d {
        WireDecision::Once => PermissionDecision::Allow,
        WireDecision::Deny => PermissionDecision::Deny,
    }
}

/// A decision in the words of the hook.
pub fn wire_to_hook_decision(d: WireDecision) -> (r: PermissionDecision)
    ensures
        r == hook_decision(d),
{
    match d {
        WireDecision::Once => PermissionDecision::Allow,
        WireDecision::Deny => PermissionDecision::Deny,
    }
}

/// Whether an answer is this decision, for this reason, and nothing else.
pub open spec fn answers(
    r: PreToolUseResponse,
    decision: PermissionDecision,
    reason: Option<Seq<char>>,
) -> bool {
    let o = r.hook_specific_output;
    &&& o.hook_event_name@ == "PreToolUse"@
    &&& o.permission_decision == decision
    &&& text_of(o.permission_decision_reason) == reason
    &&& o.updated_input is None
    &&& o.additional_context is None
}

fn answer(decision: PermissionDecision, reason: Option<String>) -> (r: PreToolUseResponse)
    ensures
        answers(r, decision, text_of(reason)),
{
    PreToolUseResponse {
        hook_specific_output: PreToolUseOutput {
            hook_event_name: "PreToolUse".to_owned(),
            permission_decision: decision,
            permission_decision_reason: reason,
            updated_input: None,
            additional_context: None,
        },
    }
}

/// The answer for a decision.
pub fn pre_tool_use_response(decision: WireDecision) -> (r: PreToolUseResponse)
    ensures
        answers(r, hook_decision(decision), None),
{
    answer(wire_to_hook_decision(decision), None)
}

/// The answer of the bridge, if it answers at all: a decision, or a refusal with
/// its reason.
pub fn immediate_response(response: &HookResponse) -> (r: Option<PreToolUseResponse>)
    ensures
        match response {
            HookResponse::Passthrough => r is None,
            HookResponse::PermissionDecision(d) => r is Some && answers(
                r->0,
                hook_decision(*d),
                None,
            ),
            HookResponse::HardDeny { reason } => r is Some && answers(
                r->0,
                PermissionDecision::Deny,
                Some(reason@),
            ),
        },
{
    match response {
        HookResponse::Passthrough => None,
        HookResponse::PermissionDecision(d) => Some(pre_tool_use_response(*d)),
        HookResponse::HardDeny { reason } => Some(
            answer(PermissionDecision::Deny, Some(reason.clone())),
        ),
    }
}

/// The decision when nobody decided in time.
pub open spec fn timeout_decision(fallback: Fallback) -> PermissionDecision {
    match fallback {
        Fallback::Passthrough => PermissionDecision::Ask,
        Fallback::Deny => PermissionDecision::Deny,
        Fallback::Allow => PermissionDecision::Allow,
    }
}

/// The reason that goes with it.
pub open spec fn timeout_reason(fallback: Fallback) -> Option<Seq<char>> {
    match fallback {
        Fallback::Passthrough => Some(
            "ccbridge: approval timeout — falling back to interactive prompt"@,
        ),
        Fallback::Deny => Some("ccbridge: approval timeout — denying per config"@),
        Fallback::Allow => None,
    }
}

/// The answer when nobody decided in time.
pub fn timeout_response(fallback: Fallback) -> (r: PreToolUseResponse)
    ensures
        answers(r, timeout_decision(fallback), timeout_reason(fallback)),
{
    match fallback {
        Fallback::Passthrough => answer(
            PermissionDecision::Ask,
            Some("ccbridge: approval timeout — falling back to interactive prompt".to_owned()),
        ),
        Fallback::Deny => answer(
            PermissionDecision::Deny,
            Some("ccbridge: approval timeout — denying per config".to_owned()),
        ),
        Fallback::Allow => answer(PermissionDecision::Allow, None),
    }
}

/// How waiting for a decision ended.
#[derive(Debug, Clone, Copy, PartialEq, Eq, Structural)]
pub enum WaitEnd {
    Decided(WireDecision),
    /// The bridge shuts down; the session goes on by itself.
    Dropped,
    TimedOut,
}

/// The answer after waiting for a decision.
pub fn awaited_response(end: WaitEnd, fallback: Fallback) -> (r: Option<PreToolUseResponse>)
    ensures
        match end {
            WaitEnd::Decided(d) => r is Some && answers(r->0, hook_decision(d), None),
            WaitEnd::Dropped => r is None,
            WaitEnd::TimedOut => r is Some && answers(
                r->0,
                timeout_decision(fallback),
                timeout_reason(fallback),
            ),
        },
{
    match end {
        WaitEnd::Decided(d) => Some(pre_tool_use_response(d)),
        WaitEnd::Dropped => None,
        WaitEnd::TimedOut => Some(timeout_response(fallback)),
    }
}

/// The name of an event.
pub fn event_name_str(event: &HookEvent) -> (r: &'static str)
    ensures
        r@ == (match event {
            HookEvent::PreToolUse(_) => "PreToolUse"@,
            HookEvent::PostToolUse(_) => "PostToolUse"@,
            HookEvent::Notification(_) => "Notification"@,
            HookEvent::Stop(_) => "Stop"@,
            HookEvent::SessionStart(_) => "SessionStart"@,
            HookEvent::UserPromptSubmit(_) => "UserPromptSubmit"@,
            HookEvent::SessionEnd(_) => "SessionEnd"@,
            HookEvent::Unknown => "Unknown"@,
        }),
{
    match event {
        HookEvent::PreToolUse(_) => "PreToolUse",
        HookEvent::PostToolUse(_) => "PostToolUse",
        HookEvent::Notification(_) => "Notification",
        HookEvent::Stop(_) => "Stop",
        HookEvent::SessionStart(_) => "SessionStart",
        HookEvent::UserPromptSubmit(_) => "UserPromptSubmit",
        HookEvent::SessionEnd(_) => "SessionEnd",
        HookEvent::Unknown => "Unknown",
    }
}

} // verus!
