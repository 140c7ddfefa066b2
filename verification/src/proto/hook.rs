//! Hook events of a coding session, and the answer to a tool call.

use vstd::prelude::*;
use crate::assoc::keys_distinct;
use crate::json::{
    json_items, lemma_array_view, lemma_field, opt_str, opt_str_value, present, Fields, Json, JsonValue,
};
use crate::json_form::{name_under, names_of, read_name_under, read_record, record};
use crate::text::str_eq;

verus! {

#[derive(Debug, Clone, Copy, PartialEq, Eq, Structural)]
pub enum PermissionMode {
    Default,
    /// Read-only planning: restrictive, not permissive.
    Plan,
    AcceptEdits,
    Auto,
    DontAsk,
    BypassPermissions,
    Unknown,
}

#[derive(Debug, Clone, Copy, PartialEq, Eq, Structural)]
pub enum EffortLevel {
    Low,
    Medium,
    High,
    Xhigh,
    Max,
    Unknown,
}

#[derive(Debug, Clone, Copy, PartialEq, Eq, Structural)]
pub struct Effort {
    pub level: EffortLevel,
}

#[derive(Debug, Clone, Copy, PartialEq, Eq, Structural)]
pub enum SessionSource {
    Startup,
    Resume,
    Clear,
    Compact,
    Unknown,
}

/// Fields that every hook event carries.
#[derive(Debug, Clone, PartialEq, Eq)]
pub struct HookBase {
    pub session_id: String,
    pub transcript_path: String,
    pub cwd: String,
}

/// A tool is about to run.
#[derive(Debug, Clone, PartialEq)]
pub struct PreToolUseEvent {
    pub base: HookBase,
    pub permission_mode: PermissionMode,
    pub effort: Option<Effort>,
    pub tool_name: String,
    pub tool_input: Json,
    /// Names this call in the later decision.
    pub tool_use_id: String,
    pub agent_id: Option<String>,
    pub agent_type: Option<String>,
}

/// What a [`PreToolUseEvent`] stands for.
#[verifier::ext_equal]
pub struct ToolCall {
    pub session_id: Seq<char>,
    pub transcript_path: Seq<char>,
    pub cwd: Seq<char>,
    pub permission_mode: PermissionMode,
    pub effort: Option<Effort>,
    pub tool_name: Seq<char>,
    pub tool_input: JsonValue,
    pub tool_use_id: Seq<char>,
    pub agent_id: Option<Seq<char>>,
    pub agent_type: Option<Seq<char>>,
}

impl View for PreToolUseEvent {
    type V = ToolCall;

    open spec fn view(&self) -> ToolCall {
        ToolCall {
            session_id: self.base.session_id@,
            transcript_path: self.base.transcript_path@,
            cwd: self.base.cwd@,
            permission_mode: self.permission_mode,
            effort: self.effort,
            tool_name: self.tool_name@,
            tool_input: self.tool_input@,
            tool_use_id: self.tool_use_id@,
            agent_id: text_of(self.agent_id),
            agent_type: text_of(self.agent_type),
        }
    }
}

/// The characters of an optional text.
pub open spec fn text_of(t: Option<String>) -> Option<Seq<char>> {
    match t {
        Some(s) => Some(s@),
        None => None,
    }
}

/// A copy of an optional text.
pub fn copy_text(t: &Option<String>) -> (r: Option<String>)
    ensures
        text_of(r) == text_of(*t),
{
    match t {
        Some(s) => Some(s.clone()),
        None => None,
    }
}

/// A tool has run.
#[derive(Debug, Clone, PartialEq)]
pub struct PostToolUseEvent {
    pub base: HookBase,
    pub permission_mode: PermissionMode,
    pub effort: Option<Effort>,
    pub tool_name: String,
    pub tool_input: Json,
    pub tool_use_id: String,
    pub tool_result: Option<Json>,
    pub agent_id: Option<String>,
    pub agent_type: Option<String>,
}

#[derive(Debug, Clone, PartialEq, Eq)]
pub struct NotificationEvent {
    pub base: HookBase,
    pub notification_type: String,
    pub message: String,
}

/// The response turn has ended.
#[derive(Debug, Clone, PartialEq, Eq)]
pub struct StopEvent {
    pub base: HookBase,
    pub permission_mode: PermissionMode,
    pub effort: Option<Effort>,
    pub response: Option<String>,
}

#[derive(Debug, Clone, PartialEq, Eq)]
pub struct SessionStartEvent {
    pub base: HookBase,
    pub source: SessionSource,
    pub model: String,
    pub agent_type: Option<String>,
}

#[derive(Debug, Clone, PartialEq, Eq)]
pub struct UserPromptSubmitEvent {
    pub base: HookBase,
    pub permission_mode: PermissionMode,
    pub prompt: String,
}

#[derive(Debug, Clone, PartialEq, Eq)]
pub struct SessionEndEvent {
    pub base: HookBase,
    pub reason: Option<String>,
}

#[derive(Debug, Clone, PartialEq)]
pub enum HookEvent {
    PreToolUse(PreToolUseEvent),
    PostToolUse(PostToolUseEvent),
    Notification(NotificationEvent),
    Stop(StopEvent),
    SessionStart(SessionStartEvent),
    UserPromptSubmit(UserPromptSubmitEvent),
    SessionEnd(SessionEndEvent),
    /// An event with a name that is not one of the above.
    Unknown,
}

impl HookEvent {
    /// The fields shared by all events, where the event is known.
    pub open spec fn base(self) -> Option<HookBase> {
        match self {
            HookEvent::PreToolUse(e) => Some(e.base),
            HookEvent::PostToolUse(e) => Some(e.base),
            HookEvent::Notification(e) => Some(e.base),
            HookEvent::Stop(e) => Some(e.base),
            HookEvent::SessionStart(e) => Some(e.base),
            HookEvent::UserPromptSubmit(e) => Some(e.base),
            HookEvent::SessionEnd(e) => Some(e.base),
            HookEvent::Unknown => None,
        }
    }

    /// The session of the event; empty for an unknown event.
    pub fn session_id(&self) -> (r: &str)
        ensures
            match self.base() {
                Some(base) => r@ == base.session_id@,
                None => r@ == Seq::<char>::empty(),
            },
    {
        match self {
            HookEvent::PreToolUse(e) => e.base.session_id.as_str(),
            HookEvent::PostToolUse(e) => e.base.session_id.as_str(),
            HookEvent::Notification(e) => e.base.session_id.as_str(),
            HookEvent::Stop(e) => e.base.session_id.as_str(),
            HookEvent::SessionStart(e) => e.base.session_id.as_str(),
            HookEvent::UserPromptSubmit(e) => e.base.session_id.as_str(),
            HookEvent::SessionEnd(e) => e.base.session_id.as_str(),
            HookEvent::Unknown => {
                proof {
                    reveal_strlit("");
                }
                ""
            },
        }
    }
}

/// What a hook prints to answer a tool call.
#[derive(Debug, Clone, PartialEq)]
pub struct PreToolUseResponse {
    pub hook_specific_output: PreToolUseOutput,
}

#[derive(Debug, Clone, PartialEq)]
pub struct PreToolUseOutput {
    pub hook_event_name: String,
    pub permission_decision: PermissionDecision,
    pub permission_decision_reason: Option<String>,
    pub updated_input: Option<Json>,
    pub additional_context: Option<String>,
}

#[derive(Debug, Clone, Copy, PartialEq, Eq, Structural)]
pub enum PermissionDecision {
    Allow,
    Deny,
    Ask,
}

// ---------------------------------------------------------------------------
// Events as JSON.

/// The fields that every event carries.
#[verifier::ext_equal]
pub struct BaseValue {
    pub session_id: Seq<char>,
    pub transcript_path: Seq<char>,
    pub cwd: Seq<char>,
}

impl View for HookBase {
    type V = BaseValue;

    open spec fn view(&self) -> BaseValue {
        BaseValue {
            session_id: self.session_id@,
            transcript_path: self.transcript_path@,
            cwd: self.cwd@,
        }
    }
}

/// What a [`HookEvent`] stands for.
#[verifier::ext_equal]
pub enum HookValue {
    PreToolUse(ToolCall),
    PostToolUse { call: ToolCall, tool_result: Option<JsonValue> },
    Notification { base: BaseValue, notification_type: Seq<char>, message: Seq<char> },
    Stop {
        base: BaseValue,
        permission_mode: PermissionMode,
        effort: Option<Effort>,
        response: Option<Seq<char>>,
    },
    SessionStart {
        base: BaseValue,
        source: SessionSource,
        model: Seq<char>,
        agent_type: Option<Seq<char>>,
    },
    UserPromptSubmit { base: BaseValue, permission_mode: PermissionMode, prompt: Seq<char> },
    SessionEnd { base: BaseValue, reason: Option<Seq<char>> },
    Unknown,
}

/// What the call of a [`PostToolUseEvent`] stands for.
pub open spec fn post_call(e: PostToolUseEvent) -> ToolCall {
    ToolCall {
        session_id: e.base.session_id@,
        transcript_path: e.base.transcript_path@,
        cwd: e.base.cwd@,
        permission_mode: e.permission_mode,
        effort: e.effort,
        tool_name: e.tool_name@,
        tool_input: e.tool_input@,
        tool_use_id: e.tool_use_id@,
        agent_id: text_of(e.agent_id),
        agent_type: text_of(e.agent_type),
    }
}

pub open spec fn value_of(v: Option<Json>) -> Option<JsonValue> {
    match v {
        Some(json) => Some(json@),
        None => None,
    }
}

impl View for HookEvent {
    type V = HookValue;

    open spec fn view(&self) -> HookValue {
        match self {
            HookEvent::PreToolUse(e) => HookValue::PreToolUse(e@),
            HookEvent::PostToolUse(e) => HookValue::PostToolUse {
                call: post_call(*e),
                tool_result: value_of(e.tool_result),
            },
            HookEvent::Notification(e) => HookValue::Notification {
                base: e.base@,
                notification_type: e.notification_type@,
                message: e.message@,
            },
            HookEvent::Stop(e) => HookValue::Stop {
                base: e.base@,
                permission_mode: e.permission_mode,
                effort: e.effort,
                response: text_of(e.response),
            },
            HookEvent::SessionStart(e) => HookValue::SessionStart {
                base: e.base@,
                source: e.source,
                model: e.model@,
                agent_type: text_of(e.agent_type),
            },
            HookEvent::UserPromptSubmit(e) => HookValue::UserPromptSubmit {
                base: e.base@,
                permission_mode: e.permission_mode,
                prompt: e.prompt@,
            },
            HookEvent::SessionEnd(e) => HookValue::SessionEnd {
                base: e.base@,
                reason: text_of(e.reason),
            },
            HookEvent::Unknown => HookValue::Unknown,
        }
    }
}

/// The mode that a name stands for; names that are not known stand for an
/// unknown mode.
pub open spec fn mode_named(name: Seq<char>) -> PermissionMode {
    if name == "default"@ {
        PermissionMode::Default
    } else if name == "plan"@ {
        PermissionMode::Plan
    } else if name == "acceptEdits"@ {
        PermissionMode::AcceptEdits
    } else if name == "auto"@ {
        PermissionMode::Auto
    } else if name == "dontAsk"@ {
        PermissionMode::DontAsk
    } else if name == "bypassPermissions"@ {
        PermissionMode::BypassPermissions
    } else {
        PermissionMode::Unknown
    }
}

pub open spec fn level_named(name: Seq<char>) -> EffortLevel {
    if name == "low"@ {
        EffortLevel::Low
    } else if name == "medium"@ {
        EffortLevel::Medium
    } else if name == "high"@ {
        EffortLevel::High
    } else if name == "xhigh"@ {
        EffortLevel::Xhigh
    } else if name == "max"@ {
        EffortLevel::Max
    } else {
        EffortLevel::Unknown
    }
}

pub open spec fn source_named(name: Seq<char>) -> SessionSource {
    if name == "startup"@ {
        SessionSource::Startup
    } else if name == "resume"@ {
        SessionSource::Resume
    } else if name == "clear"@ {
        SessionSource::Clear
    } else if name == "compact"@ {
        SessionSource::Compact
    } else {
        SessionSource::Unknown
    }
}

/// The base fields of an event, if it has them.
pub open spec fn base_in(v: JsonValue) -> Option<BaseValue> {
    match (v.get_str("session_id"@), v.get_str("transcript_path"@), v.get_str("cwd"@)) {
        (Some(session_id), Some(transcript_path), Some(cwd)) => Some(
            BaseValue { session_id, transcript_path, cwd },
        ),
        _ => None,
    }
}

pub open spec fn mode_in(v: JsonValue) -> Option<PermissionMode> {
    match name_under(v, "permission_mode"@) {
        Some(name) => Some(mode_named(name)),
        None => None,
    }
}

/// The effort of an event: absent and null are none, and anything else than a
/// record of a level is an error (`None`).
pub open spec fn effort_in(v: JsonValue) -> Option<Option<Effort>> {
    match v.get("effort"@) {
        None => Some(None),
        Some(JsonValue::Null) => Some(None),
        Some(e) => match name_under(record(e, seq!["level"@]), "level"@) {
            Some(name) => Some(Some(Effort { level: level_named(name) })),
            None => None,
        },
    }
}

/// The optional text under `key`: absent and null are none, and anything else
/// than text is an error (`None`).
pub open spec fn optional_text(v: JsonValue, key: Seq<char>) -> Option<Option<Seq<char>>> {
    match v.get(key) {
        None => Some(None),
        Some(JsonValue::Null) => Some(None),
        Some(JsonValue::Str(t)) => Some(Some(t)),
        Some(_) => None,
    }
}

/// The tool call of an event, if it has all its fields.
pub open spec fn call_in(v: JsonValue) -> Option<ToolCall> {
    match (
        base_in(v),
        mode_in(v),
        effort_in(v),
        v.get_str("tool_name"@),
        v.get("tool_input"@),
        v.get_str("tool_use_id"@),
        optional_text(v, "agent_id"@),
        optional_text(v, "agent_type"@),
    ) {
        (
            Some(base),
            Some(permission_mode),
            Some(effort),
            Some(tool_name),
            Some(tool_input),
            Some(tool_use_id),
            Some(agent_id),
            Some(agent_type),
        ) => Some(
            ToolCall {
                session_id: base.session_id,
                transcript_path: base.transcript_path,
                cwd: base.cwd,
                permission_mode,
                effort,
                tool_name,
                tool_input,
                tool_use_id,
                agent_id,
                agent_type,
            },
        ),
        _ => None,
    }
}

/// The result of a tool: absent and null are none.
pub open spec fn result_in(v: JsonValue) -> Option<JsonValue> {
    match v.get("tool_result"@) {
        None => None,
        Some(JsonValue::Null) => None,
        Some(other) => Some(other),
    }
}

/// Whether an event of this name has fields of its own.
pub open spec fn is_event_name(name: Seq<char>) -> bool {
    ||| name == "PreToolUse"@
    ||| name == "PostToolUse"@
    ||| name == "Notification"@
    ||| name == "Stop"@
    ||| name == "SessionStart"@
    ||| name == "UserPromptSubmit"@
    ||| name == "SessionEnd"@
}

/// The event that a document stands for, if it has a name and the fields that
/// the name asks for. A name that is not known stands for an unknown event, also
/// where it stands alone in an array.
pub open spec fn event_in(doc: JsonValue) -> Option<HookValue> {
    match doc {
        JsonValue::Array(items) => if items.len() != 1 {
            None
        } else {
            match items[0] {
                JsonValue::Str(name) => if is_event_name(name) {
                    None
                } else {
                    Some(HookValue::Unknown)
                },
                _ => None,
            }
        },
        _ => event_record(doc),
    }
}

/// The event that an object stands for.
pub open spec fn event_record(v: JsonValue) -> Option<HookValue> {
    match v.get_str("hook_event_name"@) {
        None => None,
        Some(name) => if name == "PreToolUse"@ {
            match call_in(v) {
                Some(call) => Some(HookValue::PreToolUse(call)),
                None => None,
            }
        } else if name == "PostToolUse"@ {
            match call_in(v) {
                Some(call) => Some(HookValue::PostToolUse { call, tool_result: result_in(v) }),
                None => None,
            }
        } else if name == "Notification"@ {
            match (base_in(v), v.get_str("notification_type"@), v.get_str("message"@)) {
                (Some(base), Some(notification_type), Some(message)) => Some(
                    HookValue::Notification { base, notification_type, message },
                ),
                _ => None,
            }
        } else if name == "Stop"@ {
            match (base_in(v), mode_in(v), effort_in(v), optional_text(v, "response"@)) {
                (Some(base), Some(permission_mode), Some(effort), Some(response)) => Some(
                    HookValue::Stop { base, permission_mode, effort, response },
                ),
                _ => None,
            }
        } else if name == "SessionStart"@ {
            match (
                base_in(v),
                name_under(v, "source"@),
                v.get_str("model"@),
                optional_text(v, "agent_type"@),
            ) {
                (Some(base), Some(source), Some(model), Some(agent_type)) => Some(
                    HookValue::SessionStart { base, source: source_named(source), model, agent_type },
                ),
                _ => None,
            }
        } else if name == "UserPromptSubmit"@ {
            match (base_in(v), mode_in(v), v.get_str("prompt"@)) {
                (Some(base), Some(permission_mode), Some(prompt)) => Some(
                    HookValue::UserPromptSubmit { base, permission_mode, prompt },
                ),
                _ => None,
            }
        } else if name == "SessionEnd"@ {
            match (base_in(v), optional_text(v, "reason"@)) {
                (Some(base), Some(reason)) => Some(HookValue::SessionEnd { base, reason }),
                _ => None,
            }
        } else {
            Some(HookValue::Unknown)
        },
    }
}

fn read_base(v: &Json) -> (r: Option<HookBase>)
    ensures
        match r {
            Some(b) => base_in(v@) == Some(b@),
            None => base_in(v@) is None,
        },
{
    match (v.get_str("session_id"), v.get_str("transcript_path"), v.get_str("cwd")) {
        (Some(session_id), Some(transcript_path), Some(cwd)) => Some(
            HookBase {
                session_id: session_id.to_owned(),
                transcript_path: transcript_path.to_owned(),
                cwd: cwd.to_owned(),
            },
        ),
        _ => None,
    }
}

fn read_mode(v: &Json) -> (r: Option<PermissionMode>)
    ensures
        r == mode_in(v@),
{
    match read_name_under(v, "permission_mode") {
        None => None,
        Some(name) => Some(
            if str_eq(name, "default") {
                PermissionMode::Default
            } else if str_eq(name, "plan") {
                PermissionMode::Plan
            } else if str_eq(name, "acceptEdits") {
                PermissionMode::AcceptEdits
            } else if str_eq(name, "auto") {
                PermissionMode::Auto
            } else if str_eq(name, "dontAsk") {
                PermissionMode::DontAsk
            } else if str_eq(name, "bypassPermissions") {
                PermissionMode::BypassPermissions
            } else {
                PermissionMode::Unknown
            },
        ),
    }
}

fn read_effort(v: &Json) -> (r: Option<Option<Effort>>)
    ensures
        r == effort_in(v@),
{
    let names = vec!["level"];
    assert(names_of(names@) =~= seq!["level"@]);
    match v.get("effort") {
        None => Some(None),
        Some(Json::Null) => Some(None),
        Some(e) => match read_name_under(&read_record(e, &names), "level") {
            None => None,
            Some(name) => {
                let level = if str_eq(name, "low") {
                    EffortLevel::Low
                } else if str_eq(name, "medium") {
                    EffortLevel::Medium
                } else if str_eq(name, "high") {
                    EffortLevel::High
                } else if str_eq(name, "xhigh") {
                    EffortLevel::Xhigh
                } else if str_eq(name, "max") {
                    EffortLevel::Max
                } else {
                    EffortLevel::Unknown
                };
                Some(Some(Effort { level }))
            },
        },
    }
}

/// The optional text under `key`; the outer `None` is an error.
pub fn read_optional_text(v: &Json, key: &str) -> (r: Option<Option<String>>)
    ensures
        match r {
            Some(t) => optional_text(v@, key@) == Some(text_of(t)),
            None => optional_text(v@, key@) is None,
        },
{
    match v.get(key) {
        None => Some(None),
        Some(Json::Null) => Some(None),
        Some(Json::Str(t)) => Some(Some(t.clone())),
        Some(_) => None,
    }
}

fn read_call(v: &Json) -> (r: Option<PreToolUseEvent>)
    ensures
        match r {
            Some(e) => call_in(v@) == Some(e@),
            None => call_in(v@) is None,
        },
{
    match (
        read_base(v),
        read_mode(v),
        read_effort(v),
        v.get_str("tool_name"),
        v.get("tool_input"),
        v.get_str("tool_use_id"),
        read_optional_text(v, "agent_id"),
        read_optional_text(v, "agent_type"),
    ) {
        (
            Some(base),
            Some(permission_mode),
            Some(effort),
            Some(tool_name),
            Some(tool_input),
            Some(tool_use_id),
            Some(agent_id),
            Some(agent_type),
        ) => Some(
            PreToolUseEvent {
                base,
                permission_mode,
                effort,
                tool_name: tool_name.to_owned(),
                tool_input: tool_input.duplicate(),
                tool_use_id: tool_use_id.to_owned(),
                agent_id,
                agent_type,
            },
        ),
        _ => None,
    }
}

fn known_event(name: &str) -> (r: bool)
    ensures
        r == is_event_name(name@),
{
    str_eq(name, "PreToolUse") || str_eq(name, "PostToolUse") || str_eq(name, "Notification")
        || str_eq(name, "Stop") || str_eq(name, "SessionStart") || str_eq(name, "UserPromptSubmit")
        || str_eq(name, "SessionEnd")
}

impl HookEvent {
    /// Reads an event. A name that is not known gives [`HookEvent::Unknown`], so
    /// that new events do no harm.
    pub fn from_json(doc: &Json) -> (r: Option<HookEvent>)
        ensures
            match r {
                Some(e) => event_in(doc@) == Some(e@),
                None => event_in(doc@) is None,
            },
    {
        match doc {
            Json::Array(items) => {
                proof {
                    lemma_array_view(*items);
                }
                if items.len() != 1 {
                    return None;
                }
                assert(json_items(items@)[0] == items@[0]@);
                match &items[0] {
                    Json::Str(name) => {
                        if known_event(name.as_str()) {
                            None
                        } else {
                            Some(HookEvent::Unknown)
                        }
                    },
                    _ => None,
                }
            },
            _ => HookEvent::from_record(doc),
        }
    }

    fn from_record(v: &Json) -> (r: Option<HookEvent>)
        ensures
            match r {
                Some(e) => event_record(v@) == Some(e@),
                None => event_record(v@) is None,
            },
    {
        let name = match v.get_str("hook_event_name") {
            Some(name) => name,
            None => {
                return None;
            },
        };
        if str_eq(name, "PreToolUse") {
            match read_call(v) {
                Some(e) => Some(HookEvent::PreToolUse(e)),
                None => None,
            }
        } else if str_eq(name, "PostToolUse") {
            let tool_result = match v.get("tool_result") {
                None => None,
                Some(Json::Null) => None,
                Some(other) => Some(other.duplicate()),
            };
            match read_call(v) {
                Some(e) => Some(
                    HookEvent::PostToolUse(
                        PostToolUseEvent {
                            base: e.base,
                            permission_mode: e.permission_mode,
                            effort: e.effort,
                            tool_name: e.tool_name,
                            tool_input: e.tool_input,
                            tool_use_id: e.tool_use_id,
                            tool_result,
                            agent_id: e.agent_id,
                            agent_type: e.agent_type,
                        },
                    ),
                ),
                None => None,
            }
        } else if str_eq(name, "Notification") {
            match (read_base(v), v.get_str("notification_type"), v.get_str("message")) {
                (Some(base), Some(notification_type), Some(message)) => Some(
                    HookEvent::Notification(
                        NotificationEvent {
                            base,
                            notification_type: notification_type.to_owned(),
                            message: message.to_owned(),
                        },
                    ),
                ),
                _ => None,
            }
        } else if str_eq(name, "Stop") {
            match (read_base(v), read_mode(v), read_effort(v), read_optional_text(v, "response")) {
                (Some(base), Some(permission_mode), Some(effort), Some(response)) => Some(
                    HookEvent::Stop(StopEvent { base, permission_mode, effort, response }),
                ),
                _ => None,
            }
        } else if str_eq(name, "SessionStart") {
            match (
                read_base(v),
                read_name_under(v, "source"),
                v.get_str("model"),
                read_optional_text(v, "agent_type"),
            ) {
                (Some(base), Some(source), Some(model), Some(agent_type)) => {
                    let source = if str_eq(source, "startup") {
                        SessionSource::Startup
                    } else if str_eq(source, "resume") {
                        SessionSource::Resume
                    } else if str_eq(source, "clear") {
                        SessionSource::Clear
                    } else if str_eq(source, "compact") {
                        SessionSource::Compact
                    } else {
                        SessionSource::Unknown
                    };
                    Some(
                        HookEvent::SessionStart(
                            SessionStartEvent { base, source, model: model.to_owned(), agent_type },
                        ),
                    )
                },
                _ => None,
            }
        } else if str_eq(name, "UserPromptSubmit") {
            match (read_base(v), read_mode(v), v.get_str("prompt")) {
                (Some(base), Some(permission_mode), Some(prompt)) => Some(
                    HookEvent::UserPromptSubmit(
                        UserPromptSubmitEvent { base, permission_mode, prompt: prompt.to_owned() },
                    ),
                ),
                _ => None,
            }
        } else if str_eq(name, "SessionEnd") {
            match (read_base(v), read_optional_text(v, "reason")) {
                (Some(base), Some(reason)) => Some(
                    HookEvent::SessionEnd(SessionEndEvent { base, reason }),
                ),
                _ => None,
            }
        } else {
            Some(HookEvent::Unknown)
        }
    }
}

pub open spec fn mode_name(mode: PermissionMode) -> Seq<char> {
    match mode {
        PermissionMode::Default => "default"@,
        PermissionMode::Plan => "plan"@,
        PermissionMode::AcceptEdits => "acceptEdits"@,
        PermissionMode::Auto => "auto"@,
        PermissionMode::DontAsk => "dontAsk"@,
        PermissionMode::BypassPermissions => "bypassPermissions"@,
        PermissionMode::Unknown => "unknown"@,
    }
}

pub open spec fn level_name(level: EffortLevel) -> Seq<char> {
    match level {
        EffortLevel::Low => "low"@,
        EffortLevel::Medium => "medium"@,
        EffortLevel::High => "high"@,
        EffortLevel::Xhigh => "xhigh"@,
        EffortLevel::Max => "max"@,
        EffortLevel::Unknown => "unknown"@,
    }
}

pub open spec fn source_name(source: SessionSource) -> Seq<char> {
    match source {
        SessionSource::Startup => "startup"@,
        SessionSource::Resume => "resume"@,
        SessionSource::Clear => "clear"@,
        SessionSource::Compact => "compact"@,
        SessionSource::Unknown => "unknown"@,
    }
}

pub open spec fn effort_value(effort: Option<Effort>) -> Option<JsonValue> {
    match effort {
        Some(e) => Some(
            JsonValue::Object(
                present(seq![("level"@, Some(JsonValue::Str(level_name(e.level))))]),
            ),
        ),
        None => None,
    }
}

/// The fields of an event's call.
pub open spec fn call_fields(
    name: Seq<char>,
    c: ToolCall,
    tool_result: Option<JsonValue>,
) -> Seq<(Seq<char>, Option<JsonValue>)> {
    seq![
        ("hook_event_name"@, Some(JsonValue::Str(name))),
        ("session_id"@, Some(JsonValue::Str(c.session_id))),
        ("transcript_path"@, Some(JsonValue::Str(c.transcript_path))),
        ("cwd"@, Some(JsonValue::Str(c.cwd))),
        ("permission_mode"@, Some(JsonValue::Str(mode_name(c.permission_mode)))),
        ("effort"@, effort_value(c.effort)),
        ("tool_name"@, Some(JsonValue::Str(c.tool_name))),
        ("tool_input"@, Some(c.tool_input)),
        ("tool_use_id"@, Some(JsonValue::Str(c.tool_use_id))),
        ("tool_result"@, tool_result),
        ("agent_id"@, opt_str_value(c.agent_id)),
        ("agent_type"@, opt_str_value(c.agent_type)),
    ]
}

/// The first fields of an event: its name and its base.
pub open spec fn head_fields(name: Seq<char>, base: BaseValue) -> Seq<(Seq<char>, Option<JsonValue>)> {
    seq![
        ("hook_event_name"@, Some(JsonValue::Str(name))),
        ("session_id"@, Some(JsonValue::Str(base.session_id))),
        ("transcript_path"@, Some(JsonValue::Str(base.transcript_path))),
        ("cwd"@, Some(JsonValue::Str(base.cwd))),
    ]
}

/// The fields of an event.
pub open spec fn event_fields(e: HookValue) -> Seq<(Seq<char>, Option<JsonValue>)> {
    match e {
        HookValue::PreToolUse(call) => call_fields("PreToolUse"@, call, None),
        HookValue::PostToolUse { call, tool_result } => call_fields(
            "PostToolUse"@,
            call,
            tool_result,
        ),
        HookValue::Notification { base, notification_type, message } => head_fields(
            "Notification"@,
            base,
        ).push(("notification_type"@, Some(JsonValue::Str(notification_type)))).push(
            ("message"@, Some(JsonValue::Str(message))),
        ),
        HookValue::Stop { base, permission_mode, effort, response } => head_fields(
            "Stop"@,
            base,
        ).push(("permission_mode"@, Some(JsonValue::Str(mode_name(permission_mode))))).push(
            ("effort"@, effort_value(effort)),
        ).push(("response"@, opt_str_value(response))),
        HookValue::SessionStart { base, source, model, agent_type } => head_fields(
            "SessionStart"@,
            base,
        ).push(("source"@, Some(JsonValue::Str(source_name(source))))).push(
            ("model"@, Some(JsonValue::Str(model))),
        ).push(("agent_type"@, opt_str_value(agent_type))),
        HookValue::UserPromptSubmit { base, permission_mode, prompt } => head_fields(
            "UserPromptSubmit"@,
            base,
        ).push(("permission_mode"@, Some(JsonValue::Str(mode_name(permission_mode))))).push(
            ("prompt"@, Some(JsonValue::Str(prompt))),
        ),
        HookValue::SessionEnd { base, reason } => head_fields("SessionEnd"@, base).push(
            ("reason"@, opt_str_value(reason)),
        ),
        HookValue::Unknown => seq![("hook_event_name"@, Some(JsonValue::Str("Unknown"@)))],
    }
}

/// An event as JSON.
pub open spec fn event_json(e: HookValue) -> JsonValue {
    JsonValue::Object(present(event_fields(e)))
}

fn mode_text(mode: PermissionMode) -> (r: &'static str)
    ensures
        r@ == mode_name(mode),
{
    match mode {
        PermissionMode::Default => "default",
        PermissionMode::Plan => "plan",
        PermissionMode::AcceptEdits => "acceptEdits",
        PermissionMode::Auto => "auto",
        PermissionMode::DontAsk => "dontAsk",
        PermissionMode::BypassPermissions => "bypassPermissions",
        PermissionMode::Unknown => "unknown",
    }
}

fn make_effort(effort: Option<Effort>) -> (r: Option<Json>)
    ensures
        value_of(r) == effort_value(effort),
{
    match effort {
        None => None,
        Some(e) => {
            let name = match e.level {
                EffortLevel::Low => "low",
                EffortLevel::Medium => "medium",
                EffortLevel::High => "high",
                EffortLevel::Xhigh => "xhigh",
                EffortLevel::Max => "max",
                EffortLevel::Unknown => "unknown",
            };
            let f = Fields::new().text("level", name);
            assert(f@ =~= seq![("level"@, Some(JsonValue::Str(name@)))]);
            Some(f.object())
        },
    }
}

fn make_head(name: &str, base: &HookBase) -> (r: Fields)
    ensures
        r.wf(),
        r@ == head_fields(name@, base@),
{
    let f = Fields::new().text("hook_event_name", name).text(
        "session_id",
        base.session_id.as_str(),
    ).text("transcript_path", base.transcript_path.as_str()).text("cwd", base.cwd.as_str());
    assert(f@ =~= head_fields(name@, base@));
    f
}

fn copy_value(v: &Option<Json>) -> (r: Option<Json>)
    ensures
        value_of(r) == value_of(*v),
{
    match v {
        Some(json) => Some(json.duplicate()),
        None => None,
    }
}

impl HookEvent {
    /// The event as JSON.
    pub fn to_json(&self) -> (r: Json)
        ensures
            r@ == event_json(self@),
    {
        match self {
            HookEvent::PreToolUse(e) => {
                let f = make_head("PreToolUse", &e.base).text(
                    "permission_mode",
                    mode_text(e.permission_mode),
                ).add_opt("effort", make_effort(e.effort)).text("tool_name", e.tool_name.as_str()).add(
                    "tool_input",
                    e.tool_input.duplicate(),
                ).text("tool_use_id", e.tool_use_id.as_str()).add_opt("tool_result", None).opt_text(
                    "agent_id",
                    &e.agent_id,
                ).opt_text("agent_type", &e.agent_type);
                assert(f@ =~= event_fields(self@));
                f.object()
            },
            HookEvent::PostToolUse(e) => {
                let f = make_head("PostToolUse", &e.base).text(
                    "permission_mode",
                    mode_text(e.permission_mode),
                ).add_opt("effort", make_effort(e.effort)).text("tool_name", e.tool_name.as_str()).add(
                    "tool_input",
                    e.tool_input.duplicate(),
                ).text("tool_use_id", e.tool_use_id.as_str()).add_opt(
                    "tool_result",
                    copy_value(&e.tool_result),
                ).opt_text("agent_id", &e.agent_id).opt_text("agent_type", &e.agent_type);
                assert(f@ =~= event_fields(self@));
                f.object()
            },
            HookEvent::Notification(e) => {
                let f = make_head("Notification", &e.base).text(
                    "notification_type",
                    e.notification_type.as_str(),
                ).text("message", e.message.as_str());
                assert(f@ =~= event_fields(self@));
                f.object()
            },
            HookEvent::Stop(e) => {
                let f = make_head("Stop", &e.base).text(
                    "permission_mode",
                    mode_text(e.permission_mode),
                ).add_opt("effort", make_effort(e.effort)).opt_text("response", &e.response);
                assert(f@ =~= event_fields(self@));
                f.object()
            },
            HookEvent::SessionStart(e) => {
                let source = match e.source {
                    SessionSource::Startup => "startup",
                    SessionSource::Resume => "resume",
                    SessionSource::Clear => "clear",
                    SessionSource::Compact => "compact",
                    SessionSource::Unknown => "unknown",
                };
                let f = make_head("SessionStart", &e.base).text("source", source).text(
                    "model",
                    e.model.as_str(),
                ).opt_text("agent_type", &e.agent_type);
                assert(f@ =~= event_fields(self@));
                f.object()
            },
            HookEvent::UserPromptSubmit(e) => {
                let f = make_head("UserPromptSubmit", &e.base).text(
                    "permission_mode",
                    mode_text(e.permission_mode),
                ).text("prompt", e.prompt.as_str());
                assert(f@ =~= event_fields(self@));
                f.object()
            },
            HookEvent::SessionEnd(e) => {
                let f = make_head("SessionEnd", &e.base).opt_text("reason", &e.reason);
                assert(f@ =~= event_fields(self@));
                f.object()
            },
            HookEvent::Unknown => {
                let f = Fields::new().text("hook_event_name", "Unknown");
                assert(f@ =~= event_fields(self@));
                f.object()
            },
        }
    }
}

// ---------------------------------------------------------------------------
// Laws of events as JSON.

proof fn lemma_names(mode: PermissionMode, level: EffortLevel, source: SessionSource)
    ensures
        mode_named(mode_name(mode)) == mode,
        level_named(level_name(level)) == level,
        source_named(source_name(source)) == source,
{
    reveal_strlit("default");
    reveal_strlit("plan");
    reveal_strlit("acceptEdits");
    reveal_strlit("auto");
    reveal_strlit("dontAsk");
    reveal_strlit("bypassPermissions");
    reveal_strlit("unknown");
    reveal_strlit("low");
    reveal_strlit("medium");
    reveal_strlit("high");
    reveal_strlit("xhigh");
    reveal_strlit("max");
    reveal_strlit("startup");
    reveal_strlit("resume");
    reveal_strlit("clear");
    reveal_strlit("compact");
    assert("default"@[0] == 'd' && "default"@.len() == 7 && "plan"@[0] == 'p' && "acceptEdits"@[1] == 'c'
        && "acceptEdits"@.len() == 11 && "auto"@[1] == 'u' && "auto"@.len() == 4 && "dontAsk"@[1] == 'o'
        && "dontAsk"@.len() == 7 && "default"@[1] == 'e' && "bypassPermissions"@[0] == 'b'
        && "unknown"@[0] == 'u' && "plan"@.len() == 4 && "dontAsk"@[0] == 'd');
    assert("low"@[0] == 'l' && "medium"@[1] == 'e' && "high"@[0] == 'h' && "xhigh"@[0] == 'x'
        && "max"@[1] == 'a' && "medium"@[0] == 'm' && "max"@[0] == 'm');
    assert("startup"@[0] == 's' && "resume"@[0] == 'r' && "clear"@[1] == 'l' && "compact"@[1] == 'o'
        && "clear"@[0] == 'c' && "compact"@[0] == 'c');
    assert("acceptEdits"@[0] == 'a' && "auto"@[0] == 'a');
}

proof fn lemma_event_names()
    ensures
        "PreToolUse"@ != "PostToolUse"@,
        "Notification"@ != "PreToolUse"@ && "Notification"@ != "PostToolUse"@,
        "Stop"@ != "PreToolUse"@ && "Stop"@ != "PostToolUse"@ && "Stop"@ != "Notification"@,
        "SessionStart"@ != "PreToolUse"@ && "SessionStart"@ != "PostToolUse"@ && "SessionStart"@
            != "Notification"@ && "SessionStart"@ != "Stop"@,
        "UserPromptSubmit"@ != "PreToolUse"@ && "UserPromptSubmit"@ != "PostToolUse"@
            && "UserPromptSubmit"@ != "Notification"@ && "UserPromptSubmit"@ != "Stop"@
            && "UserPromptSubmit"@ != "SessionStart"@,
        "SessionEnd"@ != "PreToolUse"@ && "SessionEnd"@ != "PostToolUse"@ && "SessionEnd"@
            != "Notification"@ && "SessionEnd"@ != "Stop"@ && "SessionEnd"@ != "SessionStart"@
            && "SessionEnd"@ != "UserPromptSubmit"@,
        "Unknown"@ != "PreToolUse"@ && "Unknown"@ != "PostToolUse"@ && "Unknown"@ != "Notification"@
            && "Unknown"@ != "Stop"@ && "Unknown"@ != "SessionStart"@ && "Unknown"@
            != "UserPromptSubmit"@ && "Unknown"@ != "SessionEnd"@,
{
    reveal_strlit("PreToolUse");
    reveal_strlit("PostToolUse");
    reveal_strlit("Notification");
    reveal_strlit("Stop");
    reveal_strlit("SessionStart");
    reveal_strlit("UserPromptSubmit");
    reveal_strlit("SessionEnd");
    reveal_strlit("Unknown");
    assert("PreToolUse"@.len() == 10 && "PostToolUse"@.len() == 11 && "Notification"@.len() == 12
        && "Stop"@.len() == 4 && "SessionStart"@.len() == 12 && "UserPromptSubmit"@.len() == 16
        && "SessionEnd"@.len() == 10 && "Unknown"@.len() == 7);
    assert("PreToolUse"@[0] == 'P' && "SessionEnd"@[0] == 'S' && "Notification"@[0] == 'N'
        && "SessionStart"@[0] == 'S');
}

proof fn lemma_call_fields(name: Seq<char>, c: ToolCall, tool_result: Option<JsonValue>)
    ensures
        keys_distinct(call_fields(name, c, tool_result)),
        ({
            let v = JsonValue::Object(present(call_fields(name, c, tool_result)));
            &&& v.get("hook_event_name"@) == Some(JsonValue::Str(name))
            &&& v.get("tool_result"@) == tool_result
            &&& call_in(v) == Some(c)
        }),
{
    reveal_strlit("hook_event_name");
    reveal_strlit("session_id");
    reveal_strlit("transcript_path");
    reveal_strlit("cwd");
    reveal_strlit("permission_mode");
    reveal_strlit("effort");
    reveal_strlit("tool_name");
    reveal_strlit("tool_input");
    reveal_strlit("tool_use_id");
    reveal_strlit("tool_result");
    reveal_strlit("agent_id");
    reveal_strlit("agent_type");
    assert("hook_event_name"@.len() == 15 && "hook_event_name"@[0] == 'h' && "session_id"@.len() == 10
        && "session_id"@[0] == 's' && "transcript_path"@.len() == 15 && "transcript_path"@[0] == 't'
        && "cwd"@.len() == 3 && "permission_mode"@.len() == 15 && "permission_mode"@[0] == 'p'
        && "effort"@.len() == 6 && "tool_name"@.len() == 9 && "tool_input"@.len() == 10
        && "tool_input"@[0] == 't' && "tool_use_id"@.len() == 11 && "tool_use_id"@[5] == 'u'
        && "tool_result"@.len() == 11 && "tool_result"@[5] == 'r' && "agent_id"@.len() == 8
        && "agent_type"@.len() == 10 && "agent_type"@[0] == 'a');
    let f = call_fields(name, c, tool_result);
    assert(f[0].0 == "hook_event_name"@ && f[1].0 == "session_id"@ && f[2].0 == "transcript_path"@
        && f[3].0 == "cwd"@ && f[4].0 == "permission_mode"@ && f[5].0 == "effort"@ && f[6].0
        == "tool_name"@ && f[7].0 == "tool_input"@ && f[8].0 == "tool_use_id"@ && f[9].0
        == "tool_result"@ && f[10].0 == "agent_id"@ && f[11].0 == "agent_type"@);
    lemma_field(f, 0);
    lemma_field(f, 1);
    lemma_field(f, 2);
    lemma_field(f, 3);
    lemma_field(f, 4);
    lemma_field(f, 5);
    lemma_field(f, 6);
    lemma_field(f, 7);
    lemma_field(f, 8);
    lemma_field(f, 9);
    lemma_field(f, 10);
    lemma_field(f, 11);
    lemma_effort(c.effort);
    lemma_names(c.permission_mode, EffortLevel::Low, SessionSource::Clear);
    let v = JsonValue::Object(present(f));
    assert(v.get("effort"@) == effort_value(c.effort));
    assert(effort_in(v) == Some(c.effort));
}

/// An effort reads back.
proof fn lemma_effort(effort: Option<Effort>)
    ensures
        effort matches Some(e) ==> effort_value(effort)->0.get_str("level"@) == Some(
            level_name(e.level),
        ) && level_named(level_name(e.level)) == e.level,
{
    if let Some(e) = effort {
        let f = seq![("level"@, Some(JsonValue::Str(level_name(e.level))))];
        assert(f[0].0 == "level"@);
        lemma_field(f, 0);
        lemma_names(PermissionMode::Auto, e.level, SessionSource::Clear);
    }
}

proof fn lemma_short_event(e: HookValue)
    requires
        !(e is PreToolUse) && !(e is PostToolUse) && !(e is Unknown),
    ensures
        event_in(event_json(e)) == Some(e),
{
    lemma_event_names();
    reveal_strlit("hook_event_name");
    reveal_strlit("session_id");
    reveal_strlit("transcript_path");
    reveal_strlit("cwd");
    reveal_strlit("permission_mode");
    reveal_strlit("effort");
    reveal_strlit("notification_type");
    reveal_strlit("message");
    reveal_strlit("response");
    reveal_strlit("source");
    reveal_strlit("model");
    reveal_strlit("agent_type");
    reveal_strlit("prompt");
    reveal_strlit("reason");
    assert("hook_event_name"@.len() == 15 && "hook_event_name"@[0] == 'h' && "session_id"@.len() == 10
        && "session_id"@[0] == 's' && "transcript_path"@.len() == 15 && "transcript_path"@[0] == 't'
        && "cwd"@.len() == 3 && "permission_mode"@.len() == 15 && "permission_mode"@[0] == 'p'
        && "effort"@.len() == 6 && "notification_type"@.len() == 17 && "message"@.len() == 7
        && "response"@.len() == 8 && "source"@.len() == 6 && "model"@.len() == 5 && "agent_type"@.len()
        == 10 && "agent_type"@[0] == 'a' && "prompt"@.len() == 6 && "reason"@.len() == 6);
    let f = event_fields(e);
    assert(f[0].0 == "hook_event_name"@ && f[1].0 == "session_id"@ && f[2].0 == "transcript_path"@
        && f[3].0 == "cwd"@);
    match e {
        HookValue::Notification { .. } => {
            assert(f[4].0 == "notification_type"@ && f[5].0 == "message"@ && f.len() == 6);
            lemma_field(f, 5);
        },
        HookValue::Stop { permission_mode, effort, .. } => {
            assert(f[4].0 == "permission_mode"@ && f[5].0 == "effort"@ && f[6].0 == "response"@
                && f.len() == 7);
            lemma_field(f, 5);
            lemma_field(f, 6);
            lemma_effort(effort);
            lemma_names(permission_mode, EffortLevel::Low, SessionSource::Clear);
        },
        HookValue::SessionStart { source, .. } => {
            assert(f[4].0 == "source"@ && f[5].0 == "model"@ && f[6].0 == "agent_type"@ && f.len() == 7);
            lemma_field(f, 5);
            lemma_field(f, 6);
            lemma_names(PermissionMode::Auto, EffortLevel::Low, source);
        },
        HookValue::UserPromptSubmit { permission_mode, .. } => {
            assert(f[4].0 == "permission_mode"@ && f[5].0 == "prompt"@ && f.len() == 6);
            lemma_field(f, 5);
            lemma_names(permission_mode, EffortLevel::Low, SessionSource::Clear);
        },
        _ => {
            assert(f[4].0 == "reason"@ && f.len() == 5);
        },
    }
    lemma_field(f, 0);
    lemma_field(f, 1);
    lemma_field(f, 2);
    lemma_field(f, 3);
    lemma_field(f, 4);
}

/// An event reads back as it was written, unless it is a result that is null:
/// null reads as no result.
pub proof fn law_event_reads_back(e: HookValue)
    requires
        e matches HookValue::PostToolUse { tool_result, .. } ==> tool_result != Some(JsonValue::Null),
    ensures
        event_in(event_json(e)) == Some(e),
{
    lemma_event_names();
    match e {
        HookValue::PreToolUse(call) => {
            lemma_call_fields("PreToolUse"@, call, None);
        },
        HookValue::PostToolUse { call, tool_result } => {
            lemma_call_fields("PostToolUse"@, call, tool_result);
        },
        HookValue::Unknown => {
            let f = event_fields(e);
            assert(f[0].0 == "hook_event_name"@);
            lemma_field(f, 0);
        },
        _ => {
            lemma_short_event(e);
        },
    }
}

// ---------------------------------------------------------------------------
// The answer to a tool call as JSON.

pub open spec fn decision_name(d: PermissionDecision) -> Seq<char> {
    match d {
        PermissionDecision::Allow => "allow"@,
        PermissionDecision::Deny => "deny"@,
        PermissionDecision::Ask => "ask"@,
    }
}

/// The decision that a name stands for.
pub open spec fn decision_named(name: Seq<char>) -> Option<PermissionDecision> {
    if name == "allow"@ {
        Some(PermissionDecision::Allow)
    } else if name == "deny"@ {
        Some(PermissionDecision::Deny)
    } else if name == "ask"@ {
        Some(PermissionDecision::Ask)
    } else {
        None
    }
}

impl PermissionDecision {
    pub fn name(self) -> (r: &'static str)
        ensures
            r@ == decision_name(self),
    {
        match self {
            PermissionDecision::Allow => "allow",
            PermissionDecision::Deny => "deny",
            PermissionDecision::Ask => "ask",
        }
    }

    pub fn from_name(name: &str) -> (r: Option<PermissionDecision>)
        ensures
            r == decision_named(name@),
    {
        if str_eq(name, "allow") {
            Some(PermissionDecision::Allow)
        } else if str_eq(name, "deny") {
            Some(PermissionDecision::Deny)
        } else if str_eq(name, "ask") {
            Some(PermissionDecision::Ask)
        } else {
            None
        }
    }
}

/// The fields of an answer.
pub open spec fn output_fields(o: PreToolUseOutput) -> Seq<(Seq<char>, Option<JsonValue>)> {
    seq![
        ("hookEventName"@, Some(JsonValue::Str(o.hook_event_name@))),
        ("permissionDecision"@, Some(JsonValue::Str(decision_name(o.permission_decision)))),
        ("permissionDecisionReason"@, opt_str(o.permission_decision_reason)),
        ("updatedInput"@, value_of(o.updated_input)),
        ("additionalContext"@, opt_str(o.additional_context)),
    ]
}

/// An answer as JSON.
pub open spec fn response_json(r: PreToolUseResponse) -> JsonValue {
    JsonValue::Object(
        present(
            seq![
                (
                    "hookSpecificOutput"@,
                    Some(JsonValue::Object(present(output_fields(r.hook_specific_output)))),
                ),
            ],
        ),
    )
}

impl PreToolUseResponse {
    /// The answer as JSON.
    pub fn to_json(&self) -> (r: Json)
        ensures
            r@ == response_json(*self),
    {
        let o = &self.hook_specific_output;
        let inner = Fields::new().text("hookEventName", o.hook_event_name.as_str()).text(
            "permissionDecision",
            o.permission_decision.name(),
        ).opt_text("permissionDecisionReason", &o.permission_decision_reason).add_opt(
            "updatedInput",
            copy_value(&o.updated_input),
        ).opt_text("additionalContext", &o.additional_context);
        assert(inner@ =~= output_fields(*o));
        let outer = Fields::new().add("hookSpecificOutput", inner.object());
        assert(outer@ =~= seq![
            ("hookSpecificOutput"@, Some(JsonValue::Object(present(output_fields(*o))))),
        ]);
        outer.object()
    }
}

/// Every decision reads back from its name.
pub proof fn law_decision_reads_back(d: PermissionDecision)
    ensures
        decision_named(decision_name(d)) == Some(d),
{
    reveal_strlit("allow");
    reveal_strlit("deny");
    reveal_strlit("ask");
    assert("allow"@.len() == 5 && "deny"@.len() == 4 && "ask"@.len() == 3);
}

} // verus!
