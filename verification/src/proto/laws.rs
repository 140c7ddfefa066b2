//! Laws of the messages: which words stand for what, on the wire and back.

use vstd::prelude::*;
use crate::config::Fallback;
use crate::ingest::hooks::{answers, hook_decision, timeout_decision, timeout_reason};
use crate::json::{lemma_field, opt_str, present, JsonValue};
use crate::json_form::positional;
use crate::lines::line_content;
use crate::proto::buddy::{
    device_command_in, heartbeat_json, owner_json, prompt_json, source_json, status_json, time_json,
    DeviceValue, Heartbeat, MatchSource, OwnerMessage, PromptInfo, StatusAck, TimeSync,
    WireDecision,
};
use crate::proto::ctrl::{
    ack_err, ack_json, ack_ok, ack_unknown, command_in, command_names, hello_fields, hello_json,
    topics_in, Ack, CommandValue, HelloMessage, Topic,
};
use crate::proto::hook::{
    effort_in, event_in, mode_in, output_fields, response_json, text_of, Effort, EffortLevel,
    HookValue, PermissionDecision, PermissionMode, PreToolUseResponse, SessionSource,
};
use crate::text_laws::law_trim_end_takes_the_run;

verus! {

/// Which mode a word stands for.
pub open spec fn is_mode(text: Seq<char>, value: PermissionMode) -> bool {
    &&& text == "default"@ ==> value == PermissionMode::Default
    &&& text == "plan"@ ==> value == PermissionMode::Plan
    &&& text == "acceptEdits"@ ==> value == PermissionMode::AcceptEdits
    &&& text == "auto"@ ==> value == PermissionMode::Auto
    &&& text == "dontAsk"@ ==> value == PermissionMode::DontAsk
    &&& text == "bypassPermissions"@ ==> value == PermissionMode::BypassPermissions
    &&& (text != "default"@ && text != "plan"@ && text != "acceptEdits"@ && text != "auto"@ && text != "dontAsk"@ && text != "bypassPermissions"@) ==> value == PermissionMode::Unknown
}

/// Which level a word stands for.
pub open spec fn is_level(text: Seq<char>, value: EffortLevel) -> bool {
    &&& text == "low"@ ==> value == EffortLevel::Low
    &&& text == "medium"@ ==> value == EffortLevel::Medium
    &&& text == "high"@ ==> value == EffortLevel::High
    &&& text == "xhigh"@ ==> value == EffortLevel::Xhigh
    &&& text == "max"@ ==> value == EffortLevel::Max
    &&& (text != "low"@ && text != "medium"@ && text != "high"@ && text != "xhigh"@ && text != "max"@) ==> value == EffortLevel::Unknown
}

/// How a session began, by its word.
pub open spec fn is_source(text: Seq<char>, value: SessionSource) -> bool {
    &&& text == "startup"@ ==> value == SessionSource::Startup
    &&& text == "resume"@ ==> value == SessionSource::Resume
    &&& text == "clear"@ ==> value == SessionSource::Clear
    &&& text == "compact"@ ==> value == SessionSource::Compact
    &&& (text != "startup"@ && text != "resume"@ && text != "clear"@ && text != "compact"@) ==> value == SessionSource::Unknown
}

/// Whether an optional text is read from a document: null and absent are none.
pub open spec fn is_optional(v: JsonValue, key: Seq<char>, t: Option<Seq<char>>) -> bool {
    match v.get(key) {
        None => t is None,
        Some(JsonValue::Null) => t is None,
        Some(JsonValue::Str(s)) => t == Some(s),
        Some(_) => false,
    }
}

/// Whether an optional text of a document can be read.
pub open spec fn may_be_text(v: JsonValue, key: Seq<char>) -> bool {
    match v.get(key) {
        None => true,
        Some(JsonValue::Null) => true,
        Some(JsonValue::Str(s)) => true,
        Some(_) => false,
    }
}

/// Whether an effort is absent from a document, or given by a level as a word.
pub open spec fn has_plain_effort(v: JsonValue) -> bool {
    match v.get("effort"@) {
        None => true,
        Some(JsonValue::Null) => true,
        Some(e) => e.get_str("level"@) is Some,
    }
}

/// Whether an effort is read from a document.
pub open spec fn is_effort(v: JsonValue, effort: Option<Effort>) -> bool {
    match v.get("effort"@) {
        None => effort is None,
        Some(JsonValue::Null) => effort is None,
        Some(e) => effort is Some && e.get_str("level"@) is Some && is_level(
            e.get_str("level"@)->0,
            effort->0.level,
        ),
    }
}

/// The fields that every event has.
pub open spec fn has_base(v: JsonValue) -> bool {
    v.get_str("session_id"@) is Some && v.get_str("transcript_path"@) is Some && v.get_str("cwd"@)
        is Some
}

/// The fields that a tool call has besides.
pub open spec fn has_call(v: JsonValue) -> bool {
    &&& has_base(v)
    &&& v.get_str("permission_mode"@) is Some
    &&& v.get_str("tool_name"@) is Some
    &&& v.get("tool_input"@) is Some
    &&& v.get_str("tool_use_id"@) is Some
    &&& has_plain_effort(v)
    &&& may_be_text(v, "agent_id"@)
    &&& may_be_text(v, "agent_type"@)
}

proof fn lemma_event_words()
    ensures
        "PreToolUse"@ != "PostToolUse"@,
        "PreToolUse"@ != "Notification"@,
        "PreToolUse"@ != "Stop"@,
        "PreToolUse"@ != "SessionStart"@,
        "PreToolUse"@ != "UserPromptSubmit"@,
        "PreToolUse"@ != "SessionEnd"@,
        "PostToolUse"@ != "Notification"@,
        "PostToolUse"@ != "Stop"@,
        "PostToolUse"@ != "SessionStart"@,
        "PostToolUse"@ != "UserPromptSubmit"@,
        "PostToolUse"@ != "SessionEnd"@,
        "Notification"@ != "Stop"@,
        "Notification"@ != "SessionStart"@,
        "Notification"@ != "UserPromptSubmit"@,
        "Notification"@ != "SessionEnd"@,
        "Stop"@ != "SessionStart"@,
        "Stop"@ != "UserPromptSubmit"@,
        "Stop"@ != "SessionEnd"@,
        "SessionStart"@ != "UserPromptSubmit"@,
        "SessionStart"@ != "SessionEnd"@,
        "UserPromptSubmit"@ != "SessionEnd"@,
{
    reveal_strlit("PreToolUse");
    reveal_strlit("PostToolUse");
    reveal_strlit("Notification");
    reveal_strlit("Stop");
    reveal_strlit("SessionStart");
    reveal_strlit("UserPromptSubmit");
    reveal_strlit("SessionEnd");
    assert("PreToolUse"@.len() == 10 && "PreToolUse"@[0] == 'P' && "PostToolUse"@.len() == 11
        && "Notification"@.len() == 12 && "Notification"@[0] == 'N' && "Stop"@.len() == 4
        && "SessionStart"@.len() == 12 && "SessionStart"@[0] == 'S'
        && "UserPromptSubmit"@.len() == 16 && "SessionEnd"@.len() == 10
        && "SessionEnd"@[0] == 'S');
}

/// A tool call is read field by field from the names that the agent writes, its
/// mode by the mode's own word.
pub proof fn law_tool_call_is_read(v: JsonValue)
    requires
        v.get_str("hook_event_name"@) == Some("PreToolUse"@),
        has_call(v),
    ensures
        event_in(v) is Some,
        event_in(v)->0 matches HookValue::PreToolUse(call) && {
            &&& call.session_id == v.get_str("session_id"@)->0
            &&& call.transcript_path == v.get_str("transcript_path"@)->0
            &&& call.cwd == v.get_str("cwd"@)->0
            &&& is_mode(v.get_str("permission_mode"@)->0, call.permission_mode)
            &&& is_effort(v, call.effort)
            &&& call.tool_name == v.get_str("tool_name"@)->0
            &&& call.tool_input == v.get("tool_input"@)->0
            &&& call.tool_use_id == v.get_str("tool_use_id"@)->0
            &&& is_optional(v, "agent_id"@, call.agent_id)
            &&& is_optional(v, "agent_type"@, call.agent_type)
        },
{
    lemma_event_words();
    lemma_mode_words();
    lemma_level_words();
}

/// So is the report that a tool has run, with its result; a result that is null
/// is none.
pub proof fn law_tool_report_is_read(v: JsonValue)
    requires
        v.get_str("hook_event_name"@) == Some("PostToolUse"@),
        has_call(v),
    ensures
        event_in(v) is Some,
        event_in(v)->0 matches HookValue::PostToolUse { call, tool_result } && {
            &&& call.session_id == v.get_str("session_id"@)->0
            &&& call.transcript_path == v.get_str("transcript_path"@)->0
            &&& call.cwd == v.get_str("cwd"@)->0
            &&& is_mode(v.get_str("permission_mode"@)->0, call.permission_mode)
            &&& is_effort(v, call.effort)
            &&& call.tool_name == v.get_str("tool_name"@)->0
            &&& call.tool_input == v.get("tool_input"@)->0
            &&& call.tool_use_id == v.get_str("tool_use_id"@)->0
            &&& is_optional(v, "agent_id"@, call.agent_id)
            &&& is_optional(v, "agent_type"@, call.agent_type)
            &&& tool_result == if v.get("tool_result"@) == Some(JsonValue::Null) {
                None
            } else {
                v.get("tool_result"@)
            }
        },
{
    lemma_event_words();
    lemma_mode_words();
    lemma_level_words();
}

/// A tool call without one of its fields is no event.
pub proof fn law_incomplete_call_is_refused(v: JsonValue)
    requires
        v.get_str("hook_event_name"@) == Some("PreToolUse"@) || v.get_str("hook_event_name"@) == Some(
            "PostToolUse"@,
        ),
        !has_base(v) || v.get("permission_mode"@) is None || v.get_str("tool_name"@) is None || v.get(
            "tool_input"@,
        ) is None || v.get_str("tool_use_id"@) is None || !may_be_text(v, "agent_id"@)
            || !may_be_text(v, "agent_type"@),
    ensures
        event_in(v) is None,
{
    lemma_event_words();
}

/// The other events are read from their own fields.
pub proof fn law_other_events_are_read(v: JsonValue)
    requires
        has_base(v),
    ensures
        ({
            let name = v.get_str("hook_event_name"@);
            let r = event_in(v);
            &&& name == Some("Notification"@) && v.get_str("notification_type"@) is Some
                && v.get_str("message"@) is Some ==> (r matches Some(
                HookValue::Notification { base, notification_type, message },
            ) && is_base(v, base) && notification_type == v.get_str("notification_type"@)->0
                && message == v.get_str("message"@)->0)
            &&& name == Some("Stop"@) && v.get_str("permission_mode"@) is Some && has_plain_effort(v)
                && may_be_text(v, "response"@) ==> (r matches Some(
                HookValue::Stop { base, permission_mode, effort, response },
            ) && is_base(v, base) && is_mode(v.get_str("permission_mode"@)->0, permission_mode)
                && is_effort(v, effort) && is_optional(v, "response"@, response))
            &&& name == Some("SessionStart"@) && v.get_str("source"@) is Some && v.get_str("model"@)
                is Some && may_be_text(v, "agent_type"@) ==> (r matches Some(
                HookValue::SessionStart { base, source, model, agent_type },
            ) && is_base(v, base) && is_source(v.get_str("source"@)->0, source) && model
                == v.get_str("model"@)->0 && is_optional(v, "agent_type"@, agent_type))
            &&& name == Some("UserPromptSubmit"@) && v.get_str("permission_mode"@) is Some
                && v.get_str("prompt"@) is Some ==> (r matches Some(
                HookValue::UserPromptSubmit { base, permission_mode, prompt },
            ) && is_base(v, base) && is_mode(v.get_str("permission_mode"@)->0, permission_mode)
                && prompt == v.get_str("prompt"@)->0)
            &&& name == Some("SessionEnd"@) && may_be_text(v, "reason"@) ==> (r matches Some(
                HookValue::SessionEnd { base, reason },
            ) && is_base(v, base) && is_optional(v, "reason"@, reason))
        }),
{
    lemma_event_words();
    lemma_mode_words();
    lemma_level_words();
    lemma_source_words();
}

/// Whether the fields that every event has are read from a document.
pub open spec fn is_base(v: JsonValue, base: crate::proto::hook::BaseValue) -> bool {
    &&& Some(base.session_id) == v.get_str("session_id"@)
    &&& Some(base.transcript_path) == v.get_str("transcript_path"@)
    &&& Some(base.cwd) == v.get_str("cwd"@)
}

/// An object without a name is no event, and one with a name that is not known
/// stands for an event that does nothing.
pub proof fn law_unknown_event(v: JsonValue)
    ensures
        v is Object && v.get_str("hook_event_name"@) is None ==> event_in(v) is None,
        (v.get_str("hook_event_name"@) matches Some(name) && name != "PreToolUse"@ && name
            != "PostToolUse"@ && name != "Notification"@ && name != "Stop"@ && name
            != "SessionStart"@ && name != "UserPromptSubmit"@ && name != "SessionEnd"@) ==> event_in(
            v,
        ) == Some(HookValue::Unknown),
        !(v is Object) && !(v is Array) ==> event_in(v) is None,
{
}

proof fn lemma_mode_words()
    ensures
        "default"@ != "plan"@,
        "default"@ != "acceptEdits"@,
        "default"@ != "auto"@,
        "default"@ != "dontAsk"@,
        "default"@ != "bypassPermissions"@,
        "plan"@ != "acceptEdits"@,
        "plan"@ != "auto"@,
        "plan"@ != "dontAsk"@,
        "plan"@ != "bypassPermissions"@,
        "acceptEdits"@ != "auto"@,
        "acceptEdits"@ != "dontAsk"@,
        "acceptEdits"@ != "bypassPermissions"@,
        "auto"@ != "dontAsk"@,
        "auto"@ != "bypassPermissions"@,
        "dontAsk"@ != "bypassPermissions"@,
{
    reveal_strlit("default");
    reveal_strlit("plan");
    reveal_strlit("acceptEdits");
    reveal_strlit("auto");
    reveal_strlit("dontAsk");
    reveal_strlit("bypassPermissions");
    assert("default"@.len() == 7 && "default"@[1] == 'e' && "plan"@.len() == 4
        && "plan"@[0] == 'p' && "acceptEdits"@.len() == 11 && "auto"@.len() == 4
        && "auto"@[0] == 'a' && "dontAsk"@.len() == 7 && "dontAsk"@[1] == 'o'
        && "bypassPermissions"@.len() == 17);
}

proof fn lemma_level_words()
    ensures
        "low"@ != "medium"@,
        "low"@ != "high"@,
        "low"@ != "xhigh"@,
        "low"@ != "max"@,
        "medium"@ != "high"@,
        "medium"@ != "xhigh"@,
        "medium"@ != "max"@,
        "high"@ != "xhigh"@,
        "high"@ != "max"@,
        "xhigh"@ != "max"@,
{
    reveal_strlit("low");
    reveal_strlit("medium");
    reveal_strlit("high");
    reveal_strlit("xhigh");
    reveal_strlit("max");
    assert("low"@.len() == 3 && "low"@[0] == 'l' && "medium"@.len() == 6 && "high"@.len() == 4
        && "xhigh"@.len() == 5 && "max"@.len() == 3 && "max"@[0] == 'm');
}

proof fn lemma_source_words()
    ensures
        "startup"@ != "resume"@,
        "startup"@ != "clear"@,
        "startup"@ != "compact"@,
        "resume"@ != "clear"@,
        "resume"@ != "compact"@,
        "clear"@ != "compact"@,
{
    reveal_strlit("startup");
    reveal_strlit("resume");
    reveal_strlit("clear");
    reveal_strlit("compact");
    assert("startup"@.len() == 7 && "startup"@[0] == 's' && "resume"@.len() == 6
        && "clear"@.len() == 5 && "compact"@.len() == 7 && "compact"@[0] == 'c');
}

// ---------------------------------------------------------------------------
// Answers.

/// What an answer to a tool call says on the wire: the event's name, the decision
/// by its word, and the reason if there is one.
pub proof fn law_answer_on_the_wire(r: PreToolUseResponse, decision: PermissionDecision, reason: Option<
    Seq<char>,
>)
    requires
        answers(r, decision, reason),
    ensures
        ({
            let out = response_json(r).get("hookSpecificOutput"@);
            &&& out is Some
            &&& out->0.get_str("hookEventName"@) == Some("PreToolUse"@)
            &&& decision == PermissionDecision::Allow ==> out->0.get_str("permissionDecision"@)
                == Some("allow"@)
            &&& decision == PermissionDecision::Deny ==> out->0.get_str("permissionDecision"@)
                == Some("deny"@)
            &&& decision == PermissionDecision::Ask ==> out->0.get_str("permissionDecision"@)
                == Some("ask"@)
            &&& out->0.get_str("permissionDecisionReason"@) == reason
            &&& out->0.get("updatedInput"@) is None
            &&& out->0.get("additionalContext"@) is None
        }),
{
    reveal_strlit("hookEventName");
    reveal_strlit("permissionDecision");
    reveal_strlit("permissionDecisionReason");
    reveal_strlit("updatedInput");
    reveal_strlit("additionalContext");
    assert("hookEventName"@.len() == 13 && "permissionDecision"@.len() == 18
        && "permissionDecisionReason"@.len() == 24 && "updatedInput"@.len() == 12
        && "additionalContext"@.len() == 17);
    let o = r.hook_specific_output;
    let f = output_fields(o);
    assert(f[0].0 == "hookEventName"@ && f[1].0 == "permissionDecision"@
        && f[2].0 == "permissionDecisionReason"@ && f[3].0 == "updatedInput"@
        && f[4].0 == "additionalContext"@);
    lemma_field(f, 0);
    lemma_field(f, 1);
    lemma_field(f, 2);
    lemma_field(f, 3);
    lemma_field(f, 4);
    let outer = seq![("hookSpecificOutput"@, Some(JsonValue::Object(present(f))))];
    assert(outer[0].0 == "hookSpecificOutput"@);
    lemma_field(outer, 0);
    let out = JsonValue::Object(present(f));
    assert(out.get("permissionDecisionReason"@) == opt_str(o.permission_decision_reason));
}

/// A decision of the user is answered as it was made: `once` allows and `deny`
/// denies, without a reason.
pub proof fn law_user_decides(d: WireDecision)
    ensures
        d == WireDecision::Once <==> hook_decision(d) == PermissionDecision::Allow,
        d == WireDecision::Deny <==> hook_decision(d) == PermissionDecision::Deny,
        hook_decision(d) != PermissionDecision::Ask,
{
}

/// When nobody decides in time, the configuration does: the agent asks by itself,
/// or the call is denied, or it is allowed. All but the last say why.
pub proof fn law_timeout_follows_the_configuration(fallback: Fallback)
    ensures
        fallback == Fallback::Passthrough <==> timeout_decision(fallback) == PermissionDecision::Ask,
        fallback == Fallback::Deny <==> timeout_decision(fallback) == PermissionDecision::Deny,
        fallback == Fallback::Allow <==> timeout_decision(fallback) == PermissionDecision::Allow,
        timeout_reason(fallback) is Some <==> timeout_decision(fallback) != PermissionDecision::Allow,
{
}

// ---------------------------------------------------------------------------
// Commands.

pub proof fn lemma_command_words()
    ensures
        "subscribe"@ != "unsubscribe"@,
        "subscribe"@ != "permission"@,
        "subscribe"@ != "status"@,
        "subscribe"@ != "replay"@,
        "subscribe"@ != "forget_device"@,
        "subscribe"@ != "simulate"@,
        "unsubscribe"@ != "permission"@,
        "unsubscribe"@ != "status"@,
        "unsubscribe"@ != "replay"@,
        "unsubscribe"@ != "forget_device"@,
        "unsubscribe"@ != "simulate"@,
        "permission"@ != "status"@,
        "permission"@ != "replay"@,
        "permission"@ != "forget_device"@,
        "permission"@ != "simulate"@,
        "status"@ != "replay"@,
        "status"@ != "forget_device"@,
        "status"@ != "simulate"@,
        "replay"@ != "forget_device"@,
        "replay"@ != "simulate"@,
        "forget_device"@ != "simulate"@,
        "once"@ != "deny"@,
        "heartbeat"@ != "turn"@,
        "heartbeat"@ != "log"@,
        "turn"@ != "log"@,
        "permission"@ != "name"@,
        "permission"@ != "unpair"@,
        "status"@ != "name"@,
        "status"@ != "unpair"@,
        "name"@ != "unpair"@,
{
    reveal_strlit("subscribe");
    reveal_strlit("unsubscribe");
    reveal_strlit("permission");
    reveal_strlit("status");
    reveal_strlit("replay");
    reveal_strlit("forget_device");
    reveal_strlit("simulate");
    reveal_strlit("once");
    reveal_strlit("deny");
    reveal_strlit("heartbeat");
    reveal_strlit("turn");
    reveal_strlit("log");
    reveal_strlit("name");
    reveal_strlit("unpair");
    assert("subscribe"@.len() == 9 && "subscribe"@[0] == 's' && "unsubscribe"@.len() == 11
        && "permission"@.len() == 10 && "status"@.len() == 6 && "status"@[0] == 's'
        && "replay"@.len() == 6 && "replay"@[0] == 'r' && "forget_device"@.len() == 13
        && "simulate"@.len() == 8 && "once"@.len() == 4 && "once"@[0] == 'o'
        && "deny"@.len() == 4 && "deny"@[0] == 'd' && "heartbeat"@.len() == 9
        && "heartbeat"@[0] == 'h' && "turn"@.len() == 4 && "turn"@[0] == 't'
        && "log"@.len() == 3 && "name"@.len() == 4 && "name"@[0] == 'n' && "unpair"@.len() == 6
        && "unpair"@[0] == 'u');
}

/// A client's command is read by its word, and its fields by theirs.
pub proof fn law_command_is_read(v: JsonValue)
    requires
        v is Object,
    ensures
        ({
            let cmd = v.get_str("cmd"@);
            let r = command_in(v);
            &&& cmd is None ==> r is None
            &&& cmd == Some("status"@) ==> r == Some(CommandValue::Status)
            &&& cmd == Some("permission"@) && v.get_str("id"@) is Some && v.get_str("decision"@)
                == Some("once"@) ==> r == Some(
                CommandValue::Permission { id: v.get_str("id"@)->0, decision: WireDecision::Once },
            )
            &&& cmd == Some("permission"@) && v.get_str("id"@) is Some && v.get_str("decision"@)
                == Some("deny"@) ==> r == Some(
                CommandValue::Permission { id: v.get_str("id"@)->0, decision: WireDecision::Deny },
            )
            &&& cmd == Some("permission"@) && (v.get_str("id"@) is None || v.get("decision"@) is None)
                ==> r is None
            &&& (cmd == Some("permission"@) && v.get_str("decision"@) is Some && v.get_str(
                "decision"@,
            ) != Some("once"@) && v.get_str("decision"@) != Some("deny"@)) ==> r is None
            &&& cmd == Some("replay"@) ==> (v.get("n"@) matches Some(JsonValue::Unsigned(n)) ==> r == if n
                <= u32::MAX {
                Some(CommandValue::Replay { n: n as u32 })
            } else {
                None
            })
            &&& cmd == Some("forget_device"@) && v.get_str("addr"@) is Some ==> r == Some(
                CommandValue::ForgetDevice { addr: v.get_str("addr"@)->0 },
            )
            &&& cmd == Some("simulate"@) && v.get("event"@) is Some ==> r == Some(
                CommandValue::Simulate { event: v.get("event"@)->0 },
            )
            &&& cmd == Some("subscribe"@) ==> (v.get("topics"@) matches Some(JsonValue::Array(items)) ==> r
                == match topics_in(items) {
                Some(topics) => Some(CommandValue::Subscribe { topics }),
                None => None,
            })
            &&& cmd == Some("unsubscribe"@) ==> (v.get("topics"@) matches Some(
                JsonValue::Array(items),
            ) ==> r == match topics_in(items) {
                Some(topics) => Some(CommandValue::Unsubscribe { topics }),
                None => None,
            })
            &&& (cmd is Some && cmd != Some("status"@) && cmd != Some("permission"@) && cmd != Some(
                "replay"@,
            ) && cmd != Some("forget_device"@) && cmd != Some("simulate"@) && cmd != Some(
                "subscribe"@,
            ) && cmd != Some("unsubscribe"@)) ==> r is None
        }),
{
    lemma_command_words();
}

/// Topics are read one by one, in order, each by its word; one word that is not
/// known spoils the list.
pub proof fn law_topics_are_read_by_word(items: Seq<JsonValue>, word: Seq<char>)
    requires
        topics_in(items) is Some,
    ensures
        topics_in(Seq::empty()) == Some(Seq::<Topic>::empty()),
        ({
            let before = topics_in(items)->0;
            let r = topics_in(items.push(JsonValue::Str(word)));
            &&& word == "heartbeat"@ ==> r == Some(before.push(Topic::Heartbeat))
            &&& word == "turn"@ ==> r == Some(before.push(Topic::Turn))
            &&& word == "log"@ ==> r == Some(before.push(Topic::Log))
            &&& word != "heartbeat"@ && word != "turn"@ && word != "log"@ ==> r is None
        }),
{
    lemma_command_words();
    assert(items.push(JsonValue::Str(word)).drop_last() =~= items);
}

/// A device's command is read by its word, and its fields by theirs.
pub proof fn law_device_command_is_read(v: JsonValue)
    requires
        v is Object,
    ensures
        ({
            let cmd = v.get_str("cmd"@);
            let r = device_command_in(v);
            &&& cmd is None ==> r is None
            &&& cmd == Some("status"@) ==> r == Some(DeviceValue::Status)
            &&& cmd == Some("unpair"@) ==> r == Some(DeviceValue::Unpair)
            &&& cmd == Some("name"@) && v.get_str("name"@) is Some ==> r == Some(
                DeviceValue::Name { name: v.get_str("name"@)->0 },
            )
            &&& cmd == Some("permission"@) && v.get_str("id"@) is Some && v.get_str("decision"@)
                == Some("once"@) ==> r == Some(
                DeviceValue::Permission { id: v.get_str("id"@)->0, decision: WireDecision::Once },
            )
            &&& cmd == Some("permission"@) && v.get_str("id"@) is Some && v.get_str("decision"@)
                == Some("deny"@) ==> r == Some(
                DeviceValue::Permission { id: v.get_str("id"@)->0, decision: WireDecision::Deny },
            )
            &&& cmd == Some("permission"@) && v.get_str("id"@) is None ==> r is None
            &&& (cmd is Some && cmd != Some("status"@) && cmd != Some("permission"@) && cmd != Some(
                "name"@,
            ) && cmd != Some("unpair"@)) ==> r is None
        }),
{
    lemma_command_words();
}

// ---------------------------------------------------------------------------
// What is told.

/// A reply names the command that it is for, tells whether it was done, and names
/// the error if there is one.
pub proof fn law_reply_on_the_wire(a: Ack)
    ensures
        ack_json(a).get_str("ack"@) == Some(a.ack@),
        ack_json(a).get("ok"@) == Some(JsonValue::Bool(a.ok)),
        ack_json(a).get_str("error"@) == text_of(a.error),
{
    reveal_strlit("ack");
    reveal_strlit("ok");
    reveal_strlit("error");
    assert("ack"@.len() == 3 && "ok"@.len() == 2 && "error"@.len() == 5);
    let f = seq![
        ("ack"@, Some(JsonValue::Str(a.ack@))),
        ("ok"@, Some(JsonValue::Bool(a.ok))),
        ("error"@, opt_str(a.error)),
    ];
    assert(f[0].0 == "ack"@ && f[1].0 == "ok"@ && f[2].0 == "error"@);
    lemma_field(f, 0);
    lemma_field(f, 1);
    lemma_field(f, 2);
}

/// A command that was done is acknowledged; one that failed is not, and says why;
/// and one that is not known says just that.
pub proof fn law_replies(cmd: Seq<char>, error: Seq<char>)
    ensures
        ack_ok(cmd).ok && ack_ok(cmd).error is None && ack_ok(cmd).ack == cmd,
        !ack_err(cmd, error).ok && ack_err(cmd, error).error == Some(error) && ack_err(
            cmd,
            error,
        ).ack == cmd,
        !ack_unknown(cmd).ok && ack_unknown(cmd).error == Some("unknown_command"@) && ack_unknown(
            cmd,
        ).ack == cmd,
{
}

/// A heartbeat carries each of its parts under its own name, and nothing else.
pub proof fn law_heartbeat_on_the_wire(h: Heartbeat)
    ensures
        ({
            let v = heartbeat_json(h);
            &&& v.get("total"@) == Some(JsonValue::Unsigned(h.total as u64))
            &&& v.get("running"@) == Some(JsonValue::Unsigned(h.running as u64))
            &&& v.get("waiting"@) == Some(JsonValue::Unsigned(h.waiting as u64))
            &&& v.get_str("msg"@) == Some(h.msg@)
            &&& v.get("tokens"@) == Some(JsonValue::Unsigned(h.tokens))
            &&& v.get("tokens_today"@) == Some(JsonValue::Unsigned(h.tokens_today))
            &&& v.get("entries"@) matches Some(JsonValue::Array(entries)) && entries.len()
                == h.entries@.len() && forall|i: int|
                0 <= i < entries.len() ==> #[trigger] entries[i] == JsonValue::Str(h.entries@[i]@)
            &&& v.get("prompts"@) matches Some(JsonValue::Array(prompts)) && prompts.len()
                == h.prompts@.len() && forall|i: int|
                0 <= i < prompts.len() ==> #[trigger] prompts[i] == prompt_json(h.prompts@[i])
        }),
{
    reveal_strlit("total");
    reveal_strlit("running");
    reveal_strlit("waiting");
    reveal_strlit("msg");
    reveal_strlit("entries");
    reveal_strlit("tokens");
    reveal_strlit("tokens_today");
    reveal_strlit("prompts");
    assert("total"@.len() == 5 && "running"@.len() == 7 && "running"@[0] == 'r'
        && "waiting"@.len() == 7 && "waiting"@[0] == 'w' && "msg"@.len() == 3
        && "entries"@.len() == 7 && "entries"@[0] == 'e' && "tokens"@.len() == 6
        && "tokens_today"@.len() == 12 && "prompts"@.len() == 7 && "prompts"@[0] == 'p');
    let f = seq![
        ("total"@, Some(JsonValue::Unsigned(h.total as u64))),
        ("running"@, Some(JsonValue::Unsigned(h.running as u64))),
        ("waiting"@, Some(JsonValue::Unsigned(h.waiting as u64))),
        ("msg"@, Some(JsonValue::Str(h.msg@))),
        (
            "entries"@,
            Some(JsonValue::Array(h.entries@.map_values(|t: String| JsonValue::Str(t@)))),
        ),
        ("tokens"@, Some(JsonValue::Unsigned(h.tokens))),
        ("tokens_today"@, Some(JsonValue::Unsigned(h.tokens_today))),
        (
            "prompts"@,
            Some(JsonValue::Array(h.prompts@.map_values(|p: PromptInfo| prompt_json(p)))),
        ),
    ];
    assert(f[0].0 == "total"@ && f[1].0 == "running"@ && f[2].0 == "waiting"@
        && f[3].0 == "msg"@ && f[4].0 == "entries"@ && f[5].0 == "tokens"@
        && f[6].0 == "tokens_today"@ && f[7].0 == "prompts"@);
    lemma_field(f, 0);
    lemma_field(f, 1);
    lemma_field(f, 2);
    lemma_field(f, 3);
    lemma_field(f, 4);
    lemma_field(f, 5);
    lemma_field(f, 6);
    lemma_field(f, 7);
}

/// A prompt carries each of its parts under its own name; what it does not know
/// is left out, and the list of its pattern is named by a word.
pub proof fn law_prompt_on_the_wire(p: PromptInfo)
    ensures
        ({
            let v = prompt_json(p);
            &&& v.get_str("id"@) == Some(p.id@)
            &&& v.get_str("tool"@) == Some(p.tool@)
            &&& v.get_str("hint"@) == Some(p.hint@)
            &&& v.get_str("matched_pattern"@) == text_of(p.matched_pattern)
            &&& p.matched_source is None ==> v.get("matched_source"@) is None
            &&& p.matched_source == Some(MatchSource::Allow) ==> v.get_str("matched_source"@) == Some(
                "allow"@,
            )
            &&& p.matched_source == Some(MatchSource::Deny) ==> v.get_str("matched_source"@) == Some(
                "deny"@,
            )
            &&& v.get_str("session_id"@) == text_of(p.session_id)
            &&& v.get_str("cwd"@) == text_of(p.cwd)
            &&& v.get_str("agent_type"@) == text_of(p.agent_type)
        }),
{
    reveal_strlit("id");
    reveal_strlit("tool");
    reveal_strlit("hint");
    reveal_strlit("matched_pattern");
    reveal_strlit("matched_source");
    reveal_strlit("session_id");
    reveal_strlit("cwd");
    reveal_strlit("agent_type");
    assert("id"@.len() == 2 && "tool"@.len() == 4 && "tool"@[0] == 't' && "hint"@.len() == 4
        && "hint"@[0] == 'h' && "matched_pattern"@.len() == 15 && "matched_source"@.len() == 14
        && "session_id"@.len() == 10 && "session_id"@[0] == 's' && "cwd"@.len() == 3
        && "agent_type"@.len() == 10 && "agent_type"@[0] == 'a');
    let f = seq![
        ("id"@, Some(JsonValue::Str(p.id@))),
        ("tool"@, Some(JsonValue::Str(p.tool@))),
        ("hint"@, Some(JsonValue::Str(p.hint@))),
        ("matched_pattern"@, opt_str(p.matched_pattern)),
        ("matched_source"@, source_json(p.matched_source)),
        ("session_id"@, opt_str(p.session_id)),
        ("cwd"@, opt_str(p.cwd)),
        ("agent_type"@, opt_str(p.agent_type)),
    ];
    assert(f[0].0 == "id"@ && f[1].0 == "tool"@ && f[2].0 == "hint"@
        && f[3].0 == "matched_pattern"@ && f[4].0 == "matched_source"@
        && f[5].0 == "session_id"@ && f[6].0 == "cwd"@ && f[7].0 == "agent_type"@);
    lemma_field(f, 0);
    lemma_field(f, 1);
    lemma_field(f, 2);
    lemma_field(f, 3);
    lemma_field(f, 4);
    lemma_field(f, 5);
    lemma_field(f, 6);
    lemma_field(f, 7);
}

/// A greeting tells the version, the owner, and the time with its offset.
pub proof fn law_greeting_on_the_wire(m: HelloMessage)
    ensures
        ({
            let h = hello_json(m).get("hello"@);
            &&& h is Some
            &&& h->0.get("version"@) == Some(JsonValue::Unsigned(m.hello.version as u64))
            &&& h->0.get_str("owner"@) == Some(m.hello.owner@)
            &&& h->0.get("time"@) matches Some(JsonValue::Array(time)) && time.len() == 2
                && is_integer(time[0], m.hello.time.0 as int) && is_integer(
                time[1],
                m.hello.time.1 as int,
            )
        }),
{
    reveal_strlit("version");
    reveal_strlit("owner");
    reveal_strlit("time");
    assert("version"@.len() == 7 && "owner"@.len() == 5 && "time"@.len() == 4);
    let f = hello_fields(m.hello);
    assert(f[0].0 == "version"@ && f[1].0 == "owner"@ && f[2].0 == "time"@);
    lemma_field(f, 0);
    lemma_field(f, 1);
    lemma_field(f, 2);
    let outer = seq![("hello"@, Some(JsonValue::Object(present(f))))];
    assert(outer[0].0 == "hello"@);
    lemma_field(outer, 0);
}

/// Whether a value is an integer, labelled by its sign.
pub open spec fn is_integer(v: JsonValue, n: int) -> bool {
    match v {
        JsonValue::Unsigned(k) => k == n,
        JsonValue::Negative(k) => k == n && n < 0,
        _ => false,
    }
}

/// A device is told whose bridge it is and what time it is there.
pub proof fn law_device_greeting_on_the_wire(o: OwnerMessage, t: TimeSync)
    ensures
        owner_json(o).get_str("cmd"@) == Some("owner"@),
        owner_json(o).get_str("name"@) == Some(o.name@),
        time_json(t).get("time"@) matches Some(JsonValue::Array(time)) && time.len() == 2
            && is_integer(time[0], t.time.0 as int) && is_integer(time[1], t.time.1 as int),
{
    reveal_strlit("cmd");
    reveal_strlit("name");
    assert("cmd"@.len() == 3 && "name"@.len() == 4);
    let f = crate::proto::buddy::owner_fields(o.name@);
    assert(f[0].0 == "cmd"@ && f[1].0 == "name"@);
    lemma_field(f, 0);
    lemma_field(f, 1);
    let g = crate::proto::buddy::time_fields(t.time.0, t.time.1);
    assert(g[0].0 == "time"@);
    lemma_field(g, 0);
}

/// A status tells that it is one, whether all is well, and the bridge's name.
pub proof fn law_status_on_the_wire(s: StatusAck)
    ensures
        status_json(s).get_str("ack"@) == Some(s.ack@),
        status_json(s).get("ok"@) == Some(JsonValue::Bool(s.ok)),
        status_json(s).get("data"@) is Some,
        status_json(s).get("data"@)->0.get_str("name"@) == text_of(s.name),
{
    reveal_strlit("ack");
    reveal_strlit("ok");
    reveal_strlit("data");
    assert("ack"@.len() == 3 && "ok"@.len() == 2 && "data"@.len() == 4);
    let inner = seq![("name"@, opt_str(s.name))];
    assert(inner[0].0 == "name"@);
    lemma_field(inner, 0);
    let f = seq![
        ("ack"@, Some(JsonValue::Str(s.ack@))),
        ("ok"@, Some(JsonValue::Bool(s.ok))),
        ("data"@, Some(JsonValue::Object(present(inner)))),
    ];
    assert(f[0].0 == "ack"@ && f[1].0 == "ok"@ && f[2].0 == "data"@);
    lemma_field(f, 0);
    lemma_field(f, 1);
    lemma_field(f, 2);
}

/// A line holds what stands before its line ends.
pub proof fn law_line_without_its_end(text: Seq<char>)
    requires
        text.len() > 0 ==> text.last() != '\n' && text.last() != '\r',
    ensures
        line_content(text) == text,
        line_content(text.push('\n')) == text,
        line_content(text + seq!['\r', '\n']) == text,
{
    law_trim_end_takes_the_run(text, 0, '\n');
    law_trim_end_takes_the_run(text, 0, '\r');
    assert(text + Seq::new(0, |i: int| '\n') =~= text);
    assert(text + Seq::new(0, |i: int| '\r') =~= text);
    law_trim_end_takes_the_run(text, 1, '\n');
    assert(text + Seq::new(1, |i: int| '\n') =~= text.push('\n'));
    let r = text.push('\r');
    law_trim_end_takes_the_run(r, 1, '\n');
    assert(r + Seq::new(1, |i: int| '\n') =~= text + seq!['\r', '\n']);
    law_trim_end_takes_the_run(text, 1, '\r');
    assert(text + Seq::new(1, |i: int| '\r') =~= r);
}

/// A command may also be an array of its word and its fields, in order; it is then
/// the command of the object that names them.
pub proof fn law_command_as_an_array(a: JsonValue, b: JsonValue)
    ensures
        ({
            let arr = |word: Seq<char>, rest: Seq<JsonValue>|
                command_in(JsonValue::Array(seq![JsonValue::Str(word)] + rest));
            let obj = |word: Seq<char>, rest: Seq<(Seq<char>, JsonValue)>|
                command_in(JsonValue::Object(seq![("cmd"@, JsonValue::Str(word))] + rest));
            &&& arr("status"@, Seq::empty()) == obj("status"@, Seq::empty())
            &&& arr("subscribe"@, seq![a]) == obj("subscribe"@, seq![("topics"@, a)])
            &&& arr("unsubscribe"@, seq![a]) == obj("unsubscribe"@, seq![("topics"@, a)])
            &&& arr("permission"@, seq![a, b]) == obj(
                "permission"@,
                seq![("id"@, a), ("decision"@, b)],
            )
            &&& arr("replay"@, seq![a]) == obj("replay"@, seq![("n"@, a)])
            &&& arr("forget_device"@, seq![a]) == obj("forget_device"@, seq![("addr"@, a)])
            &&& arr("simulate"@, seq![a]) == obj("simulate"@, seq![("event"@, a)])
        }),
{
    lemma_command_words();
    lemma_positions("status"@, Seq::empty(), Seq::empty());
    lemma_positions("subscribe"@, seq!["topics"@], seq![a]);
    lemma_positions("unsubscribe"@, seq!["topics"@], seq![a]);
    lemma_positions("permission"@, seq!["id"@, "decision"@], seq![a, b]);
    lemma_positions("replay"@, seq!["n"@], seq![a]);
    lemma_positions("forget_device"@, seq!["addr"@], seq![a]);
    lemma_positions("simulate"@, seq!["event"@], seq![a]);
    let t = seq![("topics"@, a)];
    assert(positional(seq!["topics"@], seq![a]) =~= t);
    assert(positional(seq!["n"@], seq![a]) =~= seq![("n"@, a)]);
    assert(positional(seq!["addr"@], seq![a]) =~= seq![("addr"@, a)]);
    assert(positional(seq!["event"@], seq![a]) =~= seq![("event"@, a)]);
    assert(positional(seq!["id"@, "decision"@], seq![a, b]) =~= seq![("id"@, a), ("decision"@, b)]);
    assert(positional(Seq::empty(), Seq::<JsonValue>::empty()) =~= Seq::empty());
}

proof fn lemma_positions(word: Seq<char>, names: Seq<Seq<char>>, rest: Seq<JsonValue>)
    requires
        command_names(word) =~= seq!["cmd"@] + names,
        names.len() == rest.len(),
    ensures
        command_in(JsonValue::Array(seq![JsonValue::Str(word)] + rest)) == command_in(
            JsonValue::Object(seq![("cmd"@, JsonValue::Str(word))] + positional(names, rest)),
        ),
{
    let items = seq![JsonValue::Str(word)] + rest;
    assert(items[0] == JsonValue::Str(word));
    assert(positional(seq!["cmd"@] + names, items) =~= seq![("cmd"@, JsonValue::Str(word))]
        + positional(names, rest));
}

/// A word of an event may also be an object that holds nothing else, and an effort
/// an array of its level.
pub proof fn law_other_forms_of_words(v: JsonValue, word: Seq<char>)
    ensures
        v.get("permission_mode"@) == Some(JsonValue::Object(seq![(word, JsonValue::Null)])) ==> (
        mode_in(v) is Some && is_mode(word, mode_in(v)->0)),
        v.get("effort"@) == Some(JsonValue::Array(seq![JsonValue::Str(word)])) ==> (effort_in(v)
            is Some && effort_in(v)->0 is Some && is_level(word, effort_in(v)->0->0.level)),
        v.get("effort"@) == Some(JsonValue::Array(Seq::empty())) ==> effort_in(v) is None,
{
    lemma_mode_words();
    lemma_level_words();
    let one = seq![(word, JsonValue::Null)];
    assert(one[0] == (word, JsonValue::Null));
    let level = seq![JsonValue::Str(word)];
    assert(positional(seq!["level"@], level) =~= seq![("level"@, JsonValue::Str(word))]);
    let m = seq![("level"@, JsonValue::Str(word))];
    assert(m[0].0 == "level"@);
    crate::assoc::lemma_index_unique(m, "level"@, 0);
    assert(seq!["level"@].len() == 1);
}

/// A device's command may also be an array of its word and its fields, in order.
pub proof fn law_device_command_as_an_array(a: JsonValue, b: JsonValue)
    ensures
        device_command_in(JsonValue::Array(seq![JsonValue::Str("status"@)])) == Some(
            DeviceValue::Status,
        ),
        device_command_in(JsonValue::Array(seq![JsonValue::Str("unpair"@)])) == Some(
            DeviceValue::Unpair,
        ),
        device_command_in(JsonValue::Array(seq![JsonValue::Str("name"@), a]))
            == device_command_in(
            JsonValue::Object(seq![("cmd"@, JsonValue::Str("name"@)), ("name"@, a)]),
        ),
        device_command_in(JsonValue::Array(seq![JsonValue::Str("permission"@), a, b]))
            == device_command_in(
            JsonValue::Object(
                seq![("cmd"@, JsonValue::Str("permission"@)), ("id"@, a), ("decision"@, b)],
            ),
        ),
{
    lemma_command_words();
    let s = seq![JsonValue::Str("status"@)];
    let u = seq![JsonValue::Str("unpair"@)];
    let n = seq![JsonValue::Str("name"@), a];
    let p = seq![JsonValue::Str("permission"@), a, b];
    assert(s[0] == JsonValue::Str("status"@) && u[0] == JsonValue::Str("unpair"@) && n[0]
        == JsonValue::Str("name"@) && p[0] == JsonValue::Str("permission"@));
    let ms = seq![("cmd"@, JsonValue::Str("status"@))];
    let mu = seq![("cmd"@, JsonValue::Str("unpair"@))];
    assert(positional(seq!["cmd"@], s) =~= ms);
    assert(positional(seq!["cmd"@], u) =~= mu);
    assert(ms[0].0 == "cmd"@ && mu[0].0 == "cmd"@);
    crate::assoc::lemma_index_unique(ms, "cmd"@, 0);
    crate::assoc::lemma_index_unique(mu, "cmd"@, 0);
    assert(positional(seq!["cmd"@, "name"@], n) =~= seq![
        ("cmd"@, JsonValue::Str("name"@)),
        ("name"@, a),
    ]);
    assert(positional(seq!["cmd"@, "id"@, "decision"@], p) =~= seq![
        ("cmd"@, JsonValue::Str("permission"@)),
        ("id"@, a),
        ("decision"@, b),
    ]);
}

} // verus!
