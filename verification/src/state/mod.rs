//! The bridge's state: sessions, tool calls that wait for a decision, token
//! counts and recent transcript lines, and how each message changes them.

use vstd::prelude::*;
use std::collections::VecDeque;
use std::time::Duration;
use vstd::utf8::{decode_utf8, encode_utf8, encode_utf8_decode_utf8, is_char_boundary};
use crate::assoc::{erase, has_key, keys_distinct, lemma_index_of, lookup, put, Table};
use crate::config::{from_millis, is_zero, nanos, Fallback};
use crate::json::{Json, JsonValue};
use crate::permission::additions::audit_log::AdditionMetadata;
use crate::permission::additions::derive::{derive_pattern, derived_text, reads_back, DerivedPattern};
use crate::permission::allowlist::{Allowlist, AllowlistValue};
use crate::permission::{decision_of, evaluate, AllowOrDeny, Decision, DecisionValue, PatternAnnotation};
use crate::proto::buddy::{Heartbeat, MatchSource, PromptInfo, WireDecision};
use crate::proto::hook::{copy_text, text_of, HookEvent, PreToolUseEvent, StopEvent, ToolCall};
use crate::text::{
    decimal, decimal_text, ellipsis_of, first_line, first_line_of, join2, join3, str_eq, texts_of, trim,
    trim_of, truncate_chars,
};

pub mod laws;
pub mod report_laws;

verus! {

/// The list that an annotation names, as heartbeats carry it.
pub open spec fn match_source_of(source: AllowOrDeny) -> MatchSource {
    match source {
        AllowOrDeny::Allow => MatchSource::Allow,
        AllowOrDeny::Deny => MatchSource::Deny,
    }
}

impl From<AllowOrDeny> for MatchSource {
    fn from(v: AllowOrDeny) -> (r: MatchSource) {
        match v {
            AllowOrDeny::Allow => MatchSource::Allow,
            AllowOrDeny::Deny => MatchSource::Deny,
        }
    }
}

impl vstd::std_specs::convert::FromSpecImpl<AllowOrDeny> for MatchSource {
    open spec fn obeys_from_spec() -> bool {
        true
    }

    open spec fn from_spec(v: AllowOrDeny) -> MatchSource {
        match_source_of(v)
    }
}

// ---------------------------------------------------------------------------
// Short texts.

/// How much of an assistant's response a notification shows.
pub open spec fn snippet_of(response: Seq<char>) -> Seq<char> {
    ellipsis_of(trim_of(first_line_of(response)), 80)
}

/// The first line of a response, trimmed and cut to eighty characters.
pub fn truncate_snippet(s: &str) -> (r: String)
    ensures
        r@ == snippet_of(s@),
{
    truncate_chars(trim(first_line(s)), 80)
}

/// The input field that a hint shows: the first of these that is text.
pub open spec fn hint_source(input: JsonValue) -> Option<Seq<char>> {
    if input.get_str("command"@) is Some {
        input.get_str("command"@)
    } else if input.get_str("file_path"@) is Some {
        input.get_str("file_path"@)
    } else if input.get_str("path"@) is Some {
        input.get_str("path"@)
    } else if input.get_str("query"@) is Some {
        input.get_str("query"@)
    } else {
        input.get_str("url"@)
    }
}

/// Whether the hint of a tool input is short, or has a character that ends at
/// its sixtieth byte.
pub open spec fn hint_cuts_cleanly(input: JsonValue) -> bool {
    match hint_source(input) {
        Some(text) => encode_utf8(text).len() > 60 ==> is_char_boundary(encode_utf8(text), 60),
        None => true,
    }
}

/// At most sixty bytes of text, with an ellipsis where more followed.
pub open spec fn hint_text(text: Seq<char>) -> Seq<char> {
    if encode_utf8(text).len() > 60 {
        decode_utf8(encode_utf8(text).subrange(0, 60)).push('…')
    } else {
        text
    }
}

/// The hint of a tool input.
pub open spec fn tool_hint(input: JsonValue) -> Seq<char> {
    match hint_source(input) {
        Some(text) => hint_text(text),
        None => Seq::empty(),
    }
}

fn find_hint<'a>(input: &'a Json) -> (r: Option<&'a str>)
    ensures
        match r {
            Some(t) => hint_source(input@) == Some(t@),
            None => hint_source(input@) is None,
        },
{
    if let Some(t) = input.get_str("command") {
        return Some(t);
    }
    if let Some(t) = input.get_str("file_path") {
        return Some(t);
    }
    if let Some(t) = input.get_str("path") {
        return Some(t);
    }
    if let Some(t) = input.get_str("query") {
        return Some(t);
    }
    input.get_str("url")
}

/// Whether [`format_tool_hint`] can cut the hint of `input`.
pub fn has_clean_hint(input: &Json) -> (r: bool)
    ensures
        r == hint_cuts_cleanly(input@),
{
    match find_hint(input) {
        Some(t) => t.as_bytes().len() <= 60 || t.is_char_boundary(60),
        None => true,
    }
}

/// A short hint of what a tool call is about.
pub fn format_tool_hint(input: &Json) -> (r: String)
    requires
        hint_cuts_cleanly(input@),
    ensures
        r@ == tool_hint(input@),
{
    match find_hint(input) {
        Some(t) => {
            if t.as_bytes().len() > 60 {
                let head = t.split_at(60).0;
                proof {
                    encode_utf8_decode_utf8(head@);
                    reveal_strlit("…");
                }
                let r = join2(head, "…");
                assert(r@ =~= head@.push('…'));
                r
            } else {
                t.to_owned()
            }
        },
        None => String::new(),
    }
}

// ---------------------------------------------------------------------------
// Parts of the state.

/// A coding session.
#[derive(Debug, Clone, PartialEq, Eq)]
pub struct Session {
    pub id: String,
    pub cwd: String,
    /// A response is being generated.
    pub running: bool,
    /// A tool call of this session waits for a decision.
    pub waiting: bool,
    /// The call that waits.
    pub pending_tool_use_id: Option<String>,
    /// Grows with each event that shows the session at work. A stop event does
    /// not count: the idle clock starts there.
    pub last_activity_serial: u64,
}

/// What a [`Session`] stands for.
#[verifier::ext_equal]
pub struct SessionValue {
    pub id: Seq<char>,
    pub cwd: Seq<char>,
    pub running: bool,
    pub waiting: bool,
    pub pending: Option<Seq<char>>,
    pub serial: u64,
}

impl View for Session {
    type V = SessionValue;

    open spec fn view(&self) -> SessionValue {
        SessionValue {
            id: self.id@,
            cwd: self.cwd@,
            running: self.running,
            waiting: self.waiting,
            pending: text_of(self.pending_tool_use_id),
            serial: self.last_activity_serial,
        }
    }
}

impl SessionValue {
    pub open spec fn fresh(id: Seq<char>, cwd: Seq<char>) -> SessionValue {
        SessionValue { id, cwd, running: false, waiting: false, pending: None, serial: 0 }
    }

    /// No call waits.
    pub open spec fn cleared(self) -> SessionValue {
        SessionValue { waiting: false, pending: None, ..self }
    }

    /// One activity more; the count stays at its largest value.
    pub open spec fn bumped(self) -> SessionValue {
        SessionValue {
            serial: if self.serial == u64::MAX {
                self.serial
            } else {
                (self.serial + 1) as u64
            },
            ..self
        }
    }

    pub open spec fn with_running(self, running: bool) -> SessionValue {
        SessionValue { running, ..self }
    }

    /// The call `id` waits.
    pub open spec fn holding(self, id: Seq<char>) -> SessionValue {
        SessionValue { waiting: true, pending: Some(id), ..self }
    }
}

impl Session {
    pub fn new(id: &str, cwd: &str) -> (s: Session)
        ensures
            s@ == SessionValue::fresh(id@, cwd@),
    {
        Session {
            id: id.to_owned(),
            cwd: cwd.to_owned(),
            running: false,
            waiting: false,
            pending_tool_use_id: None,
            last_activity_serial: 0,
        }
    }

    /// Forgets the call that waits.
    pub fn clear_pending(&mut self)
        ensures
            final(self)@ == old(self)@.cleared(),
    {
        self.waiting = false;
        self.pending_tool_use_id = None;
    }

    /// Counts one activity.
    pub fn bump_activity(&mut self)
        ensures
            final(self)@ == old(self)@.bumped(),
    {
        self.last_activity_serial = self.last_activity_serial.saturating_add(1);
    }
}

/// A tool call that waits for a decision.
#[derive(Debug)]
pub struct PendingApproval {
    pub event: PreToolUseEvent,
    pub tool_name: String,
    pub tool_hint: String,
    /// The pattern for which the call was not decided, if there was one.
    pub matched_pattern: Option<String>,
    pub match_source: Option<AllowOrDeny>,
}

/// What a [`PendingApproval`] stands for.
#[verifier::ext_equal]
pub struct PendingValue {
    pub call: ToolCall,
    pub tool_name: Seq<char>,
    pub tool_hint: Seq<char>,
    pub matched_pattern: Option<Seq<char>>,
    pub match_source: Option<AllowOrDeny>,
}

impl View for PendingApproval {
    type V = PendingValue;

    open spec fn view(&self) -> PendingValue {
        PendingValue {
            call: self.event@,
            tool_name: self.tool_name@,
            tool_hint: self.tool_hint@,
            matched_pattern: text_of(self.matched_pattern),
            match_source: self.match_source,
        }
    }
}

/// Output tokens, in all and of the current day.
#[derive(Debug, Clone, PartialEq, Eq)]
pub struct TokenState {
    pub cumulative: u64,
    pub today: u64,
    /// The day of `today`, as `YYYY-MM-DD`.
    pub date: String,
}

impl Default for TokenState {
    fn default() -> (r: TokenState)
        ensures
            r.cumulative == 0,
            r.today == 0,
            r.date@ == Seq::<char>::empty(),
    {
        TokenState { cumulative: 0, today: 0, date: String::new() }
    }
}

// ---------------------------------------------------------------------------
// Messages and answers.

/// What a notification of a finished turn needs, as it was at the stop.
#[derive(Debug, Clone, PartialEq, Eq)]
pub struct TurnDoneSnapshot {
    pub response_snippet: String,
    pub cwd: String,
    pub tokens_cumulative: u64,
}

/// A session has been idle since its stop.
#[derive(Debug, Clone, PartialEq, Eq)]
pub struct TurnDoneEvent {
    pub session_id: String,
    pub response_snippet: String,
    pub cwd: String,
    pub tokens_cumulative: u64,
}

/// What became of a decision.
#[derive(Debug, Clone, Copy, PartialEq, Eq, Structural)]
pub enum PermissionDecisionResult {
    /// It was handed to the waiting call.
    Applied,
    /// No call of that id waits.
    UnknownId,
}

/// The answer to a hook.
#[derive(Debug, Clone, PartialEq, Eq)]
pub enum HookResponse {
    /// No output: the session goes on as if there were no bridge.
    Passthrough,
    PermissionDecision(WireDecision),
    HardDeny { reason: String },
}

/// What the hook's connection does next.
#[derive(Debug, PartialEq, Eq)]
pub enum HookOutcome {
    Immediate(HookResponse),
    /// Wait for a decision on this call, at most for `approval_timeout`, and
    /// then apply `fallback`.
    Await {
        tool_use_id: String,
        session_id: String,
        approval_timeout: Duration,
        fallback: Fallback,
    },
}

/// What a [`HookOutcome`] stands for.
pub enum OutcomeValue {
    Passthrough,
    Decided(WireDecision),
    HardDeny { reason: Seq<char> },
    Await { tool_use_id: Seq<char>, session_id: Seq<char>, approval_timeout: Duration, fallback: Fallback },
}

impl View for HookOutcome {
    type V = OutcomeValue;

    open spec fn view(&self) -> OutcomeValue {
        match self {
            HookOutcome::Immediate(HookResponse::Passthrough) => OutcomeValue::Passthrough,
            HookOutcome::Immediate(HookResponse::PermissionDecision(d)) => OutcomeValue::Decided(
                *d,
            ),
            HookOutcome::Immediate(HookResponse::HardDeny { reason }) => OutcomeValue::HardDeny {
                reason: reason@,
            },
            HookOutcome::Await { tool_use_id, session_id, approval_timeout, fallback } =>
                OutcomeValue::Await {
                tool_use_id: tool_use_id@,
                session_id: session_id@,
                approval_timeout: *approval_timeout,
                fallback: *fallback,
            },
        }
    }
}

/// After `grace`, ask whether the session has been idle since its stop.
#[derive(Debug, PartialEq, Eq)]
pub struct TurnDoneGate {
    pub session_id: String,
    pub activity_serial: u64,
    pub snapshot: TurnDoneSnapshot,
    pub grace: Duration,
}

/// What a [`TurnDoneGate`] stands for.
pub struct GateValue {
    pub session_id: Seq<char>,
    pub serial: u64,
    pub snippet: Seq<char>,
    pub cwd: Seq<char>,
    pub tokens: u64,
    pub grace: Duration,
}

pub open spec fn gate_of(g: Option<TurnDoneGate>) -> Option<GateValue> {
    match g {
        Some(g) => Some(
            GateValue {
                session_id: g.session_id@,
                serial: g.activity_serial,
                snippet: g.snapshot.response_snippet@,
                cwd: g.snapshot.cwd@,
                tokens: g.snapshot.tokens_cumulative,
                grace: g.grace,
            },
        ),
        None => None,
    }
}

/// How a hook event is answered.
#[derive(Debug, PartialEq, Eq)]
pub struct HookStep {
    pub outcome: HookOutcome,
    /// A heartbeat is due.
    pub broadcast: bool,
    pub gate: Option<TurnDoneGate>,
}

// ---------------------------------------------------------------------------
// The state as a whole.

/// How many transcript lines a heartbeat carries.
pub const ENTRIES_CAP: usize = 8;

/// How long a tool call waits for a decision by default, in milliseconds.
pub const DEFAULT_APPROVAL_TIMEOUT_MS: u64 = 30_000;

/// Everything the bridge knows; one writer owns it.
#[derive(Debug)]
pub struct Aggregator {
    pub sessions: Table<Session>,
    /// The tool calls that wait, by their id.
    pub pending: Table<PendingApproval>,
    pub tokens: TokenState,
    /// Recent transcript lines, the newest first.
    pub entries: VecDeque<String>,
    pub approval_timeout: Duration,
    pub fallback: Fallback,
    /// How long a session stays idle before its turn counts as done; zero turns
    /// the notification off.
    pub turn_done_idle_grace: Duration,
}

/// What an [`Aggregator`] stands for.
#[verifier::ext_equal]
pub struct StateValue {
    pub sessions: Seq<(Seq<char>, SessionValue)>,
    pub pending: Seq<(Seq<char>, PendingValue)>,
    pub cumulative: u64,
    pub today: u64,
    pub date: Seq<char>,
    pub entries: Seq<Seq<char>>,
    pub approval_timeout: Duration,
    pub fallback: Fallback,
    pub grace: Duration,
}

impl View for Aggregator {
    type V = StateValue;

    open spec fn view(&self) -> StateValue {
        StateValue {
            sessions: self.sessions@,
            pending: self.pending@,
            cumulative: self.tokens.cumulative,
            today: self.tokens.today,
            date: self.tokens.date@,
            entries: texts_of(self.entries@),
            approval_timeout: self.approval_timeout,
            fallback: self.fallback,
            grace: self.turn_done_idle_grace,
        }
    }
}

impl StateValue {
    /// What holds of every state. Sessions and waiting calls are found under
    /// their own ids. A session waits exactly while it has a call that waits,
    /// and no call waits for two sessions.
    pub open spec fn wf(self) -> bool {
        &&& keys_distinct(self.sessions)
        &&& keys_distinct(self.pending)
        &&& forall|i: int|
            0 <= i < self.sessions.len() ==> (#[trigger] self.sessions[i]).1.id == self.sessions[i].0
        &&& forall|i: int|
            0 <= i < self.sessions.len() ==> ((#[trigger] self.sessions[i]).1.waiting
                <==> self.sessions[i].1.pending is Some)
        &&& forall|i: int|
            0 <= i < self.sessions.len() && (#[trigger] self.sessions[i]).1.pending is Some
                ==> has_key(self.pending, self.sessions[i].1.pending->0)
        &&& forall|i: int, j: int|
            0 <= i < j < self.sessions.len() && (#[trigger] self.sessions[i]).1.pending is Some ==> (
            #[trigger] self.sessions[j]).1.pending != self.sessions[i].1.pending
        &&& forall|i: int|
            0 <= i < self.pending.len() ==> (#[trigger] self.pending[i]).1.call.tool_use_id
                == self.pending[i].0
        &&& self.entries.len() <= ENTRIES_CAP
    }

    /// The session `id`, or a new one in `cwd`.
    pub open spec fn session_or_new(self, id: Seq<char>, cwd: Seq<char>) -> SessionValue {
        match lookup(self.sessions, id) {
            Some(s) => s,
            None => SessionValue::fresh(id, cwd),
        }
    }

    pub open spec fn with_session(self, id: Seq<char>, s: SessionValue) -> StateValue {
        StateValue { sessions: put(self.sessions, id, s), ..self }
    }

    /// A new newest transcript line; the oldest goes when there are too many.
    pub open spec fn with_entry(self, entry: Seq<char>) -> StateValue {
        StateValue { entries: newest_first(self.entries, entry), ..self }
    }

    /// The call `id` waits no more, and no session waits for it.
    pub open spec fn without_pending(self, id: Seq<char>) -> StateValue {
        StateValue {
            pending: erase(self.pending, id),
            sessions: released(self.sessions, id),
            ..self
        }
    }
}

pub open spec fn newest_first(entries: Seq<Seq<char>>, entry: Seq<char>) -> Seq<Seq<char>> {
    if entries.len() >= ENTRIES_CAP {
        seq![entry] + entries.drop_last()
    } else {
        seq![entry] + entries
    }
}

/// The sessions, with those that wait for `id` cleared.
pub open spec fn released(sessions: Seq<(Seq<char>, SessionValue)>, id: Seq<char>) -> Seq<
    (Seq<char>, SessionValue),
> {
    sessions.map_values(
        |p: (Seq<char>, SessionValue)|
            if p.1.pending == Some(id) {
                (p.0, p.1.cleared())
            } else {
                p
            },
    )
}

/// A state, an answer, whether a heartbeat is due, and an idle gate.
pub struct Stepped {
    pub state: StateValue,
    pub outcome: OutcomeValue,
    pub broadcast: bool,
    pub gate: Option<GateValue>,
}

pub open spec fn passed(state: StateValue) -> Stepped {
    Stepped { state, outcome: OutcomeValue::Passthrough, broadcast: true, gate: None }
}

/// A tool call that has to wait. A call whose id waits already is handed back to
/// the session, so that the first call's decision stays its own.
pub open spec fn intercepted(
    state: StateValue,
    call: ToolCall,
    matched_pattern: Option<Seq<char>>,
    match_source: Option<AllowOrDeny>,
) -> Stepped {
    let id = call.tool_use_id;
    if has_key(state.pending, id) {
        Stepped { state, outcome: OutcomeValue::Passthrough, broadcast: false, gate: None }
    } else {
        let entry = PendingValue {
            call,
            tool_name: call.tool_name,
            tool_hint: tool_hint(call.tool_input),
            matched_pattern,
            match_source,
        };
        let session = state.session_or_new(call.session_id, call.cwd);
        Stepped {
            state: StateValue {
                pending: put(state.pending, id, entry),
                sessions: put(state.sessions, call.session_id, session.holding(id)),
                ..state
            },
            outcome: OutcomeValue::Await {
                tool_use_id: id,
                session_id: call.session_id,
                approval_timeout: state.approval_timeout,
                fallback: state.fallback,
            },
            broadcast: true,
            gate: None,
        }
    }
}

/// The decision on a tool call, carried out.
pub open spec fn tool_call_step(state: StateValue, call: ToolCall, decision: DecisionValue) -> Stepped {
    let id = call.session_id;
    let touched = state.with_session(id, state.session_or_new(id, call.cwd).bumped());
    match decision {
        DecisionValue::Allow { .. } => Stepped {
            state: touched,
            outcome: OutcomeValue::Decided(WireDecision::Once),
            broadcast: false,
            gate: None,
        },
        DecisionValue::Deny { reason } => Stepped {
            state: touched,
            outcome: OutcomeValue::HardDeny { reason },
            broadcast: false,
            gate: None,
        },
        DecisionValue::AskAnnotated { matched_pattern, source } => intercepted(
            touched,
            call,
            Some(matched_pattern),
            Some(source),
        ),
        DecisionValue::Intercept => intercepted(touched, call, None, None),
    }
}

/// The activity count of a session, or `other` without that session.
pub open spec fn serial_or(state: StateValue, id: Seq<char>, other: u64) -> u64 {
    match lookup(state.sessions, id) {
        Some(s) => s.serial,
        None => other,
    }
}

/// The idle gate that a stop opens, unless the notification is off.
pub open spec fn gate_at_stop(
    state: StateValue,
    id: Seq<char>,
    cwd: Seq<char>,
    response: Option<Seq<char>>,
) -> Option<GateValue> {
    if nanos(state.grace) == 0 {
        None
    } else {
        Some(
            GateValue {
                session_id: id,
                serial: serial_or(state, id, 0),
                snippet: match response {
                    Some(text) => snippet_of(text),
                    None => Seq::empty(),
                },
                cwd,
                tokens: state.cumulative,
                grace: state.grace,
            },
        )
    }
}

/// The session of `id`, changed by `f`, where there is one.
pub open spec fn change_session(
    state: StateValue,
    id: Seq<char>,
    f: spec_fn(SessionValue) -> SessionValue,
) -> StateValue {
    match lookup(state.sessions, id) {
        Some(s) => state.with_session(id, f(s)),
        None => state,
    }
}

/// What a hook event changes, and how it is answered under these lists.
pub open spec fn hook_step(state: StateValue, event: HookEvent, lists: AllowlistValue) -> Stepped {
    match event {
        HookEvent::SessionStart(e) => {
            let id = e.base.session_id@;
            let cwd = e.base.cwd@;
            passed(
                state.with_session(id, state.session_or_new(id, cwd).bumped()).with_entry(
                    "session: "@ + cwd,
                ),
            )
        },
        HookEvent::SessionEnd(e) => passed(
            (StateValue { sessions: erase(state.sessions, e.base.session_id@), ..state }).with_entry(
                "session ended"@,
            ),
        ),
        HookEvent::PreToolUse(e) => tool_call_step(
            state,
            e@,
            decision_of(e.permission_mode, e.tool_name@, e.tool_input@, lists),
        ),
        HookEvent::PostToolUse(e) => passed(
            change_session(
                state,
                e.base.session_id@,
                |s: SessionValue| s.with_running(false).cleared().bumped(),
            ).with_entry(e.tool_name@ + ": "@ + tool_hint(e.tool_input@)),
        ),
        HookEvent::Stop(e) => {
            let stopped = change_session(
                state,
                e.base.session_id@,
                |s: SessionValue| s.with_running(false).cleared(),
            );
            Stepped {
                state: stopped,
                outcome: OutcomeValue::Passthrough,
                broadcast: true,
                gate: gate_at_stop(stopped, e.base.session_id@, e.base.cwd@, text_of(e.response)),
            }
        },
        HookEvent::Notification(e) => passed(state.with_entry("notif: "@ + e.message@)),
        HookEvent::UserPromptSubmit(e) => {
            let id = e.base.session_id@;
            passed(
                state.with_session(
                    id,
                    state.session_or_new(id, e.base.cwd@).with_running(true).bumped(),
                ),
            )
        },
        HookEvent::Unknown => Stepped {
            state,
            outcome: OutcomeValue::Passthrough,
            broadcast: false,
            gate: None,
        },
    }
}

/// Whether a decision leaves the call to the user.
pub open spec fn asks_user(d: DecisionValue) -> bool {
    d is AskAnnotated || d is Intercept
}

/// Whether an event can be taken: the hint that it leads to, if it leads to one,
/// is not cut inside a character.
pub open spec fn event_ok(state: StateValue, event: HookEvent, lists: AllowlistValue) -> bool {
    match event {
        HookEvent::PreToolUse(e) => asks_user(
            decision_of(e.permission_mode, e.tool_name@, e.tool_input@, lists),
        ) && !has_key(state.pending, e.tool_use_id@) ==> hint_cuts_cleanly(e.tool_input@),
        HookEvent::PostToolUse(e) => hint_cuts_cleanly(e.tool_input@),
        _ => true,
    }
}

pub open spec fn stepped_of(step: HookStep, state: StateValue) -> Stepped {
    Stepped {
        state,
        outcome: step.outcome@,
        broadcast: step.broadcast,
        gate: gate_of(step.gate),
    }
}

// ---------------------------------------------------------------------------
// Heartbeats.

/// What a [`PromptInfo`] stands for.
#[verifier::ext_equal]
pub struct PromptValue {
    pub id: Seq<char>,
    pub tool: Seq<char>,
    pub hint: Seq<char>,
    pub matched_pattern: Option<Seq<char>>,
    pub matched_source: Option<MatchSource>,
    pub session_id: Option<Seq<char>>,
    pub cwd: Option<Seq<char>>,
    pub agent_type: Option<Seq<char>>,
}

impl View for PromptInfo {
    type V = PromptValue;

    open spec fn view(&self) -> PromptValue {
        PromptValue {
            id: self.id@,
            tool: self.tool@,
            hint: self.hint@,
            matched_pattern: text_of(self.matched_pattern),
            matched_source: self.matched_source,
            session_id: text_of(self.session_id),
            cwd: text_of(self.cwd),
            agent_type: text_of(self.agent_type),
        }
    }
}

pub open spec fn prompt_values(prompts: Seq<PromptInfo>) -> Seq<PromptValue> {
    prompts.map_values(|p: PromptInfo| p@)
}

/// What a [`Heartbeat`] stands for.
#[verifier::ext_equal]
pub struct HeartbeatValue {
    pub total: u32,
    pub running: u32,
    pub waiting: u32,
    pub msg: Seq<char>,
    pub entries: Seq<Seq<char>>,
    pub tokens: u64,
    pub tokens_today: u64,
    pub prompts: Seq<PromptValue>,
}

impl View for Heartbeat {
    type V = HeartbeatValue;

    open spec fn view(&self) -> HeartbeatValue {
        HeartbeatValue {
            total: self.total,
            running: self.running,
            waiting: self.waiting,
            msg: self.msg@,
            entries: texts_of(self.entries@),
            tokens: self.tokens,
            tokens_today: self.tokens_today,
            prompts: prompt_values(self.prompts@),
        }
    }
}

/// The prompt of a session, if it waits for a call.
pub open spec fn prompt_of(
    s: SessionValue,
    pending: Seq<(Seq<char>, PendingValue)>,
) -> Option<PromptValue> {
    if s.waiting && s.pending is Some {
        match lookup(pending, s.pending->0) {
            Some(p) => Some(
                PromptValue {
                    id: s.pending->0,
                    tool: p.tool_name,
                    hint: p.tool_hint,
                    matched_pattern: p.matched_pattern,
                    matched_source: match p.match_source {
                        Some(source) => Some(match_source_of(source)),
                        None => None,
                    },
                    session_id: Some(s.id),
                    cwd: Some(s.cwd),
                    agent_type: p.call.agent_type,
                },
            ),
            None => None,
        }
    } else {
        None
    }
}

/// The prompts of the sessions that wait, in the order of the sessions.
pub open spec fn prompts_of(
    sessions: Seq<(Seq<char>, SessionValue)>,
    pending: Seq<(Seq<char>, PendingValue)>,
) -> Seq<PromptValue>
    decreases sessions.len(),
{
    if sessions.len() == 0 {
        Seq::empty()
    } else {
        let before = prompts_of(sessions.drop_last(), pending);
        match prompt_of(sessions.last().1, pending) {
            Some(p) => before.push(p),
            None => before,
        }
    }
}

pub open spec fn running_count(sessions: Seq<(Seq<char>, SessionValue)>) -> nat
    decreases sessions.len(),
{
    if sessions.len() == 0 {
        0
    } else {
        running_count(sessions.drop_last()) + if sessions.last().1.running {
            1nat
        } else {
            0nat
        }
    }
}

pub open spec fn waiting_count(sessions: Seq<(Seq<char>, SessionValue)>) -> nat
    decreases sessions.len(),
{
    if sessions.len() == 0 {
        0
    } else {
        waiting_count(sessions.drop_last()) + if sessions.last().1.waiting {
            1nat
        } else {
            0nat
        }
    }
}

/// The one-line summary of a state.
pub open spec fn summary_of(total: u32, running: u32, prompts: Seq<PromptValue>) -> Seq<char> {
    if prompts.len() == 0 {
        if running > 0 {
            "running ("@ + decimal(running as nat) + ")"@
        } else if total > 0 {
            "idle ("@ + decimal(total as nat) + ")"@
        } else {
            "no sessions"@
        }
    } else if prompts.len() == 1 {
        "approve: "@ + prompts[0].tool
    } else {
        "approve: "@ + decimal(prompts.len()) + " pending"@
    }
}

/// The heartbeat of a state.
pub open spec fn heartbeat_of(state: StateValue) -> HeartbeatValue {
    let total = state.sessions.len() as u32;
    let running = running_count(state.sessions) as u32;
    let prompts = prompts_of(state.sessions, state.pending);
    HeartbeatValue {
        total,
        running,
        waiting: waiting_count(state.sessions) as u32,
        msg: summary_of(total, running, prompts),
        entries: state.entries,
        tokens: state.cumulative,
        tokens_today: state.today,
        prompts,
    }
}

// ---------------------------------------------------------------------------
// Operations.

/// The session `id`, made in `cwd` if there is none.
fn session_entry<'a>(sessions: &'a mut Table<Session>, id: &str, cwd: &str) -> (s: &'a mut Session)
    ensures
        s@ == (match lookup(old(sessions)@, id@) {
            Some(v) => v,
            None => SessionValue::fresh(id@, cwd@),
        }),
        final(sessions)@ == put(old(sessions)@, id@, (*final(s))@),
{
    let ghost before = sessions@;
    proof {
        lemma_index_of(before, id@);
    }
    let i = sessions.position(id);
    if i == sessions.len() {
        sessions.insert(id.to_owned(), Session::new(id, cwd));
    }
    let ghost middle = sessions@;
    assert(forall|x: SessionValue|
        #[trigger] middle.update(i as int, (middle[i as int].0, x)) =~= put(before, id@, x));
    sessions.value_mut(i)
}

/// Clears every session that waits for `id`.
fn release(sessions: &mut Table<Session>, id: &str)
    ensures
        final(sessions)@ == released(old(sessions)@, id@),
{
    let ghost before = sessions@;
    let ghost target = released(before, id@);
    let mut i: usize = 0;
    while i < sessions.len()
        invariant
            i <= sessions@.len(),
            sessions@.len() == before.len(),
            target == released(before, id@),
            forall|j: int| 0 <= j < i ==> sessions@[j] == target[j],
            forall|j: int| i <= j < before.len() ==> sessions@[j] == before[j],
        decreases before.len() - i,
    {
        let waits = match &sessions.value_at(i).pending_tool_use_id {
            Some(pending) => str_eq(pending.as_str(), id),
            None => false,
        };
        if waits {
            let s = sessions.value_mut(i);
            s.clear_pending();
        }
        assert(sessions@[i as int] == target[i as int]);
        i = i + 1;
    }
    assert(sessions@ =~= target);
}

fn copy_entries(entries: &VecDeque<String>) -> (r: Vec<String>)
    ensures
        texts_of(r@) == texts_of(entries@),
{
    let mut r: Vec<String> = Vec::new();
    let mut i: usize = 0;
    while i < entries.len()
        invariant
            i <= entries@.len(),
            r@.len() == i,
            forall|j: int| 0 <= j < i ==> (#[trigger] r@[j])@ == entries@[j]@,
        decreases entries@.len() - i,
    {
        r.push(entries[i].clone());
        i = i + 1;
    }
    assert(texts_of(r@) =~= texts_of(entries@));
    r
}

impl Aggregator {
    /// A state without sessions. The idle gate is off.
    pub fn new(approval_timeout: Duration, fallback: Fallback) -> (r: Aggregator)
        ensures
            r@.sessions.len() == 0,
            r@.pending.len() == 0,
            r@.entries.len() == 0,
            r@.cumulative == 0,
            r@.today == 0,
            r@.date.len() == 0,
            r@.approval_timeout == approval_timeout,
            r@.fallback == fallback,
            nanos(r@.grace) == 0,
            r@.wf(),
    {
        Aggregator {
            sessions: Table::new(),
            pending: Table::new(),
            tokens: TokenState::default(),
            entries: VecDeque::new(),
            approval_timeout,
            fallback,
            turn_done_idle_grace: from_millis(0),
        }
    }

    /// Sets how long a session stays idle before its turn counts as done.
    pub fn set_turn_done_idle_grace(&mut self, idle_grace: Duration)
        ensures
            final(self)@ == (StateValue { grace: idle_grace, ..old(self)@ }),
    {
        self.turn_done_idle_grace = idle_grace;
    }

    fn prompt_at(&self, i: usize) -> (r: Option<PromptInfo>)
        requires
            i < self.sessions@.len(),
        ensures
            match r {
                Some(p) => prompt_of(self.sessions@[i as int].1, self.pending@) == Some(p@),
                None => prompt_of(self.sessions@[i as int].1, self.pending@) is None,
            },
    {
        let s = self.sessions.value_at(i);
        if !s.waiting {
            return None;
        }
        match &s.pending_tool_use_id {
            None => None,
            Some(id) => match self.pending.get(id.as_str()) {
                None => None,
                Some(p) => Some(
                    PromptInfo {
                        id: id.clone(),
                        tool: p.tool_name.clone(),
                        hint: p.tool_hint.clone(),
                        matched_pattern: copy_text(&p.matched_pattern),
                        matched_source: match p.match_source {
                            Some(source) => Some(MatchSource::from(source)),
                            None => None,
                        },
                        session_id: Some(s.id.clone()),
                        cwd: Some(s.cwd.clone()),
                        agent_type: copy_text(&p.event.agent_type),
                    },
                ),
            },
        }
    }

    /// The heartbeat of the current state.
    pub fn snapshot(&self) -> (r: Heartbeat)
        ensures
            r@ == heartbeat_of(self@),
    {
        let n: usize = self.sessions.len();
        let mut running_n: usize = 0;
        let mut waiting_n: usize = 0;
        let mut prompts: Vec<PromptInfo> = Vec::new();
        let mut i: usize = 0;
        let ghost sessions = self.sessions@;
        let ghost pending = self.pending@;
        assert(prompt_values(prompts@) =~= prompts_of(sessions.take(0), pending));
        while i < n
            invariant
                n == sessions.len(),
                i <= n,
                sessions == self.sessions@,
                pending == self.pending@,
                running_n <= i,
                waiting_n <= i,
                running_n == running_count(sessions.take(i as int)),
                waiting_n == waiting_count(sessions.take(i as int)),
                prompt_values(prompts@) == prompts_of(sessions.take(i as int), pending),
            decreases n - i,
        {
            assert(sessions.take(i + 1).drop_last() =~= sessions.take(i as int));
            assert(sessions.take(i + 1).last() == sessions[i as int]);
            if self.sessions.value_at(i).running {
                running_n = running_n + 1;
            }
            if self.sessions.value_at(i).waiting {
                waiting_n = waiting_n + 1;
            }
            let ghost before = prompts@;
            if let Some(p) = self.prompt_at(i) {
                prompts.push(p);
                assert(prompt_values(prompts@) =~= prompt_values(before).push(p@));
            }
            i = i + 1;
        }
        assert(sessions.take(n as int) =~= sessions);
        let total: u32 = n as u32;
        let running: u32 = running_n as u32;
        let waiting: u32 = waiting_n as u32;
        let msg = if prompts.len() == 0 {
            if running > 0 {
                join3("running (", decimal_text(running as u64).as_str(), ")")
            } else if total > 0 {
                join3("idle (", decimal_text(total as u64).as_str(), ")")
            } else {
                "no sessions".to_owned()
            }
        } else if prompts.len() == 1 {
            join2("approve: ", prompts[0].tool.as_str())
        } else {
            join3("approve: ", decimal_text(prompts.len() as u64).as_str(), " pending")
        };
        Heartbeat {
            total,
            running,
            waiting,
            msg,
            entries: copy_entries(&self.entries),
            tokens: self.tokens.cumulative,
            tokens_today: self.tokens.today,
            prompts,
        }
    }

    /// Adds a transcript line as the newest.
    pub fn push_entry(&mut self, entry: String)
        ensures
            final(self)@ == old(self)@.with_entry(entry@),
    {
        let ghost before = self.entries@;
        if self.entries.len() >= ENTRIES_CAP {
            let _ = self.entries.pop_back();
        }
        self.entries.push_front(entry);
        assert(texts_of(self.entries@) =~= newest_first(texts_of(before), entry@));
    }

    /// Takes a hook event, judged under the lists that hold for its directory.
    pub fn handle_hook_event(&mut self, event: HookEvent, allowlist: &Allowlist) -> (r: HookStep)
        requires
            event_ok(old(self)@, event, allowlist@),
        ensures
            stepped_of(r, final(self)@) == hook_step(old(self)@, event, allowlist@),
    {
        match event {
            HookEvent::SessionStart(e) => {
                let s = session_entry(
                    &mut self.sessions,
                    e.base.session_id.as_str(),
                    e.base.cwd.as_str(),
                );
                s.bump_activity();
                self.push_entry(join2("session: ", e.base.cwd.as_str()));
                HookStep {
                    outcome: HookOutcome::Immediate(HookResponse::Passthrough),
                    broadcast: true,
                    gate: None,
                }
            },
            HookEvent::SessionEnd(e) => {
                let _ = self.sessions.remove(e.base.session_id.as_str());
                self.push_entry("session ended".to_owned());
                HookStep {
                    outcome: HookOutcome::Immediate(HookResponse::Passthrough),
                    broadcast: true,
                    gate: None,
                }
            },
            HookEvent::PreToolUse(e) => {
                let s = session_entry(
                    &mut self.sessions,
                    e.base.session_id.as_str(),
                    e.base.cwd.as_str(),
                );
                s.bump_activity();
                match evaluate(&e, allowlist) {
                    Decision::Allow { reason: _ } => HookStep {
                        outcome: HookOutcome::Immediate(
                            HookResponse::PermissionDecision(WireDecision::Once),
                        ),
                        broadcast: false,
                        gate: None,
                    },
                    Decision::Deny { reason } => HookStep {
                        outcome: HookOutcome::Immediate(HookResponse::HardDeny { reason }),
                        broadcast: false,
                        gate: None,
                    },
                    Decision::AskAnnotated(a) => self.start_intercept(e, Some(a)),
                    Decision::Intercept => self.start_intercept(e, None),
                }
            },
            HookEvent::PostToolUse(e) => {
                let i = self.sessions.position(e.base.session_id.as_str());
                if i < self.sessions.len() {
                    let s = self.sessions.value_mut(i);
                    s.running = false;
                    s.clear_pending();
                    s.bump_activity();
                }
                proof {
                    lemma_index_of(old(self)@.sessions, e.base.session_id@);
                }
                let hint = format_tool_hint(&e.tool_input);
                self.push_entry(join3(e.tool_name.as_str(), ": ", hint.as_str()));
                HookStep {
                    outcome: HookOutcome::Immediate(HookResponse::Passthrough),
                    broadcast: true,
                    gate: None,
                }
            },
            HookEvent::Stop(e) => {
                let i = self.sessions.position(e.base.session_id.as_str());
                if i < self.sessions.len() {
                    let s = self.sessions.value_mut(i);
                    s.running = false;
                    s.clear_pending();
                }
                proof {
                    lemma_index_of(old(self)@.sessions, e.base.session_id@);
                }
                HookStep {
                    outcome: HookOutcome::Immediate(HookResponse::Passthrough),
                    broadcast: true,
                    gate: self.turn_done_gate(&e),
                }
            },
            HookEvent::Notification(e) => {
                self.push_entry(join2("notif: ", e.message.as_str()));
                HookStep {
                    outcome: HookOutcome::Immediate(HookResponse::Passthrough),
                    broadcast: true,
                    gate: None,
                }
            },
            HookEvent::UserPromptSubmit(e) => {
                let s = session_entry(
                    &mut self.sessions,
                    e.base.session_id.as_str(),
                    e.base.cwd.as_str(),
                );
                s.running = true;
                s.bump_activity();
                HookStep {
                    outcome: HookOutcome::Immediate(HookResponse::Passthrough),
                    broadcast: true,
                    gate: None,
                }
            },
            HookEvent::Unknown => HookStep {
                outcome: HookOutcome::Immediate(HookResponse::Passthrough),
                broadcast: false,
                gate: None,
            },
        }
    }

    /// Lets a tool call wait for a decision, unless its id waits already.
    pub fn start_intercept(&mut self, e: PreToolUseEvent, annotation: Option<PatternAnnotation>) -> (r:
        HookStep)
        requires
            !has_key(old(self)@.pending, e.tool_use_id@) ==> hint_cuts_cleanly(e.tool_input@),
        ensures
            stepped_of(r, final(self)@) == intercepted(
                old(self)@,
                e@,
                match annotation {
                    Some(a) => Some(a.matched_pattern@),
                    None => None,
                },
                match annotation {
                    Some(a) => Some(a.source),
                    None => None,
                },
            ),
    {
        if self.pending.contains_key(e.tool_use_id.as_str()) {
            return HookStep {
                outcome: HookOutcome::Immediate(HookResponse::Passthrough),
                broadcast: false,
                gate: None,
            };
        }
        let (matched_pattern, match_source) = match annotation {
            Some(a) => (Some(a.matched_pattern), Some(a.source)),
            None => (None, None),
        };
        let tool_use_id = e.tool_use_id.clone();
        let session_id = e.base.session_id.clone();
        let s = session_entry(&mut self.sessions, session_id.as_str(), e.base.cwd.as_str());
        s.waiting = true;
        s.pending_tool_use_id = Some(tool_use_id.clone());
        let approval = PendingApproval {
            tool_name: e.tool_name.clone(),
            tool_hint: format_tool_hint(&e.tool_input),
            matched_pattern,
            match_source,
            event: e,
        };
        self.pending.insert(tool_use_id.clone(), approval);
        HookStep {
            outcome: HookOutcome::Await {
                tool_use_id,
                session_id,
                approval_timeout: self.approval_timeout,
                fallback: self.fallback,
            },
            broadcast: true,
            gate: None,
        }
    }

    /// The idle gate that a stop opens.
    pub fn turn_done_gate(&self, e: &StopEvent) -> (r: Option<TurnDoneGate>)
        ensures
            gate_of(r) == gate_at_stop(
                self@,
                e.base.session_id@,
                e.base.cwd@,
                text_of(e.response),
            ),
    {
        if is_zero(&self.turn_done_idle_grace) {
            return None;
        }
        let activity_serial: u64 = match self.sessions.get(e.base.session_id.as_str()) {
            Some(s) => s.last_activity_serial,
            None => 0,
        };
        let response_snippet = match &e.response {
            Some(text) => truncate_snippet(text.as_str()),
            None => String::new(),
        };
        Some(
            TurnDoneGate {
                session_id: e.base.session_id.clone(),
                activity_serial,
                snapshot: TurnDoneSnapshot {
                    response_snippet,
                    cwd: e.base.cwd.clone(),
                    tokens_cumulative: self.tokens.cumulative,
                },
                grace: self.turn_done_idle_grace,
            },
        )
    }

    /// Takes a decision. Where its call waits, the decision is handed on.
    pub fn handle_permission_decision(&mut self, tool_use_id: &str, decision: WireDecision) -> (r: (
        PermissionDecisionResult,
        Option<WireDecision>,
    ))
        ensures
            r.0 == decision_result(old(self)@, tool_use_id@),
            r.1 == (if r.0 == PermissionDecisionResult::Applied {
                Some(decision)
            } else {
                None
            }),
            final(self)@ == decided(old(self)@, tool_use_id@),
    {
        match self.pending.remove(tool_use_id) {
            Some(_) => {
                release(&mut self.sessions, tool_use_id);
                (PermissionDecisionResult::Applied, Some(decision))
            },
            None => (PermissionDecisionResult::UnknownId, None),
        }
    }

    /// Nobody decided in time: the call waits no more.
    pub fn handle_approval_timed_out(&mut self, tool_use_id: &str)
        ensures
            final(self)@ == old(self)@.without_pending(tool_use_id@),
    {
        let _ = self.pending.remove(tool_use_id);
        release(&mut self.sessions, tool_use_id);
    }

    /// The user approves a call for good. A call with a pattern of its own is
    /// approved and the pattern is to be written; any other call is denied, so
    /// that no pattern is written that allows too much. The pattern, read back,
    /// surely means the call.
    pub fn handle_allowlist_always(&mut self, tool_use_id: &str) -> (r: Option<AlwaysStep>)
        ensures
            always_of(r) == always_step(old(self)@, tool_use_id@),
            r matches Some(step) ==> step.write is Some ==> {
                let call = lookup(old(self)@.pending, tool_use_id@)->0.call;
                reads_back(call.tool_name, call.tool_input)
            },
            final(self)@ == decided(old(self)@, tool_use_id@),
    {
        let step = match self.pending.get(tool_use_id) {
            None => {
                return None;
            },
            Some(p) => match derive_pattern(&p.event) {
                DerivedPattern::Specific(pattern) => AlwaysStep {
                    decision: WireDecision::Once,
                    write: Some(
                        AllowWrite {
                            pattern,
                            cwd: p.event.base.cwd.clone(),
                            metadata: AdditionMetadata {
                                tool_use_id: tool_use_id.to_owned(),
                                session_id: p.event.base.session_id.clone(),
                                agent_type: copy_text(&p.event.agent_type),
                            },
                        },
                    ),
                },
                DerivedPattern::BareToolNeedsConfirmation { tool: _ } => AlwaysStep {
                    decision: WireDecision::Deny,
                    write: None,
                },
            },
        };
        let _ = self.handle_permission_decision(tool_use_id, step.decision);
        Some(step)
    }

    /// Whether a session has been idle since its stop. A session that is gone
    /// counts as idle.
    pub fn handle_check_turn_done(
        &self,
        session_id: String,
        activity_serial: u64,
        snapshot: TurnDoneSnapshot,
    ) -> (r: Option<TurnDoneEvent>)
        ensures
            r is Some == still_idle(self@, session_id@, activity_serial),
            r matches Some(e) ==> e.session_id@ == session_id@ && e.response_snippet@
                == snapshot.response_snippet@ && e.cwd@ == snapshot.cwd@ && e.tokens_cumulative
                == snapshot.tokens_cumulative,
    {
        let current: u64 = match self.sessions.get(session_id.as_str()) {
            Some(s) => s.last_activity_serial,
            None => activity_serial,
        };
        if current != activity_serial {
            return None;
        }
        Some(
            TurnDoneEvent {
                session_id,
                response_snippet: snapshot.response_snippet,
                cwd: snapshot.cwd,
                tokens_cumulative: snapshot.tokens_cumulative,
            },
        )
    }

    /// Counts output tokens.
    pub fn add_tokens(&mut self, output_tokens: u64)
        requires
            old(self)@.cumulative + output_tokens <= u64::MAX,
            old(self)@.today + output_tokens <= u64::MAX,
        ensures
            final(self)@ == counted(old(self)@, output_tokens),
    {
        self.tokens.cumulative = self.tokens.cumulative + output_tokens;
        self.tokens.today = self.tokens.today + output_tokens;
    }

    /// Seeds the counts from what was kept on disk. A count never falls, and a
    /// date that is known stays.
    pub fn set_initial_tokens(&mut self, cumulative: u64, today: u64, date: String)
        ensures
            final(self)@ == seeded(old(self)@, cumulative, today, date@),
    {
        if self.tokens.cumulative < cumulative {
            self.tokens.cumulative = cumulative;
        }
        if self.tokens.today < today {
            self.tokens.today = today;
        }
        if self.tokens.date.as_str().is_empty() {
            self.tokens.date = date;
        }
    }

    /// A new day begins.
    pub fn reset_day(&mut self, date: String)
        ensures
            final(self)@ == new_day(old(self)@, date@),
    {
        self.tokens.today = 0;
        self.tokens.date = date;
    }

    /// Takes one message.
    pub fn apply(&mut self, msg: AggregatorMsg) -> (r: Reaction)
        requires
            message_ok(old(self)@, msg),
        ensures
            reacted_of(r, final(self)@) == reaction_to(old(self)@, msg),
            old(self)@.wf() ==> final(self)@.wf(),
    {
        proof {
            laws::law_reaction_keeps_wf(self@, msg);
        }
        match msg {
            AggregatorMsg::HookEvent { event, allowlist } => {
                let step = self.handle_hook_event(event, &allowlist);
                Reaction {
                    outcome: Some(step.outcome),
                    broadcast: step.broadcast,
                    gate: step.gate,
                    ..Reaction::quiet()
                }
            },
            AggregatorMsg::PermissionDecision { tool_use_id, decision } => {
                let (result, fire) = self.handle_permission_decision(tool_use_id.as_str(), decision);
                Reaction {
                    result: Some(result),
                    broadcast: fire.is_some(),
                    fire,
                    ..Reaction::quiet()
                }
            },
            AggregatorMsg::GetHeartbeat => {
                Reaction { heartbeat: Some(self.snapshot()), ..Reaction::quiet() }
            },
            AggregatorMsg::TokensUpdate { output_tokens } => {
                self.add_tokens(output_tokens);
                Reaction { broadcast: true, ..Reaction::quiet() }
            },
            AggregatorMsg::SetInitialTokens { cumulative, today, date } => {
                self.set_initial_tokens(cumulative, today, date);
                Reaction { broadcast: true, ..Reaction::quiet() }
            },
            AggregatorMsg::DailyReset { date } => {
                self.reset_day(date);
                Reaction { broadcast: true, ..Reaction::quiet() }
            },
            AggregatorMsg::AddEntry { text } => {
                self.push_entry(text);
                Reaction { broadcast: true, ..Reaction::quiet() }
            },
            AggregatorMsg::ApprovalTimedOut { tool_use_id } => {
                self.handle_approval_timed_out(tool_use_id.as_str());
                Reaction { broadcast: true, ..Reaction::quiet() }
            },
            AggregatorMsg::AllowlistAlways { tool_use_id } => {
                match self.handle_allowlist_always(tool_use_id.as_str()) {
                    None => Reaction::quiet(),
                    Some(step) => Reaction {
                        broadcast: true,
                        fire: Some(step.decision),
                        write: step.write,
                        ..Reaction::quiet()
                    },
                }
            },
            AggregatorMsg::CheckTurnDone { session_id, activity_serial, snapshot } => {
                let turn_done = self.handle_check_turn_done(session_id, activity_serial, snapshot);
                Reaction { turn_done, ..Reaction::quiet() }
            },
        }
    }

    /// Whether [`Aggregator::handle_hook_event`] can take an event.
    pub fn accepts_event(&self, event: &HookEvent, allowlist: &Allowlist) -> (r: bool)
        ensures
            r == event_ok(self@, *event, allowlist@),
    {
        match event {
            HookEvent::PreToolUse(e) => {
                if has_clean_hint(&e.tool_input) || self.pending.contains_key(
                    e.tool_use_id.as_str(),
                ) {
                    return true;
                }
                match evaluate(e, allowlist) {
                    Decision::Allow { .. } => true,
                    Decision::Deny { .. } => true,
                    Decision::AskAnnotated(_) => false,
                    Decision::Intercept => false,
                }
            },
            HookEvent::PostToolUse(e) => has_clean_hint(&e.tool_input),
            _ => true,
        }
    }

    /// Whether [`Aggregator::apply`] can take a message.
    pub fn accepts(&self, msg: &AggregatorMsg) -> (r: bool)
        ensures
            r == message_ok(self@, *msg),
    {
        match msg {
            AggregatorMsg::HookEvent { event, allowlist } => self.accepts_event(event, allowlist),
            AggregatorMsg::TokensUpdate { output_tokens } => self.tokens.cumulative <= u64::MAX
                - *output_tokens && self.tokens.today <= u64::MAX - *output_tokens,
            _ => true,
        }
    }

    /// Applies a message that can be taken. One that cannot changes nothing.
    pub fn try_apply(&mut self, msg: AggregatorMsg) -> (r: Option<Reaction>)
        ensures
            match r {
                Some(reaction) => message_ok(old(self)@, msg) && reacted_of(reaction, final(self)@)
                    == reaction_to(old(self)@, msg),
                None => !message_ok(old(self)@, msg) && *final(self) == *old(self),
            },
            old(self)@.wf() ==> final(self)@.wf(),
    {
        if self.accepts(&msg) {
            Some(self.apply(msg))
        } else {
            None
        }
    }
}

/// A decision is applied exactly if its call waits.
pub open spec fn decision_result(state: StateValue, id: Seq<char>) -> PermissionDecisionResult {
    if has_key(state.pending, id) {
        PermissionDecisionResult::Applied
    } else {
        PermissionDecisionResult::UnknownId
    }
}

/// The state after a decision on `id`.
pub open spec fn decided(state: StateValue, id: Seq<char>) -> StateValue {
    if has_key(state.pending, id) {
        state.without_pending(id)
    } else {
        state
    }
}

pub open spec fn still_idle(state: StateValue, id: Seq<char>, serial: u64) -> bool {
    serial_or(state, id, serial) == serial
}

pub open spec fn counted(state: StateValue, tokens: u64) -> StateValue {
    StateValue {
        cumulative: (state.cumulative + tokens) as u64,
        today: (state.today + tokens) as u64,
        ..state
    }
}

pub open spec fn larger(a: u64, b: u64) -> u64 {
    if a < b {
        b
    } else {
        a
    }
}

pub open spec fn seeded(state: StateValue, cumulative: u64, today: u64, date: Seq<char>) -> StateValue {
    StateValue {
        cumulative: larger(state.cumulative, cumulative),
        today: larger(state.today, today),
        date: if state.date.len() == 0 {
            date
        } else {
            state.date
        },
        ..state
    }
}

pub open spec fn new_day(state: StateValue, date: Seq<char>) -> StateValue {
    StateValue { today: 0, date, ..state }
}

/// A pattern that is to be written to the settings of the project of `cwd`.
#[derive(Debug, PartialEq, Eq)]
pub struct AllowWrite {
    pub pattern: String,
    pub cwd: String,
    pub metadata: AdditionMetadata,
}

/// What an approval for good leads to.
#[derive(Debug, PartialEq, Eq)]
pub struct AlwaysStep {
    pub decision: WireDecision,
    pub write: Option<AllowWrite>,
}

/// What an [`AllowWrite`] stands for.
pub struct WriteValue {
    pub pattern: Seq<char>,
    pub cwd: Seq<char>,
    pub tool_use_id: Seq<char>,
    pub session_id: Seq<char>,
    pub agent_type: Option<Seq<char>>,
}

pub open spec fn write_of(w: Option<AllowWrite>) -> Option<WriteValue> {
    match w {
        Some(w) => Some(
            WriteValue {
                pattern: w.pattern@,
                cwd: w.cwd@,
                tool_use_id: w.metadata.tool_use_id@,
                session_id: w.metadata.session_id@,
                agent_type: text_of(w.metadata.agent_type),
            },
        ),
        None => None,
    }
}

pub open spec fn always_of(step: Option<AlwaysStep>) -> Option<(WireDecision, Option<WriteValue>)> {
    match step {
        Some(s) => Some((s.decision, write_of(s.write))),
        None => None,
    }
}

/// The decision and the pattern to write when a call is approved for good;
/// nothing for a call that does not wait.
pub open spec fn always_step(state: StateValue, id: Seq<char>) -> Option<
    (WireDecision, Option<WriteValue>),
> {
    match lookup(state.pending, id) {
        None => None,
        Some(p) => match derived_text(p.call.tool_name, p.call.tool_input) {
            Some(pattern) => Some(
                (
                    WireDecision::Once,
                    Some(
                        WriteValue {
                            pattern,
                            cwd: p.call.cwd,
                            tool_use_id: id,
                            session_id: p.call.session_id,
                            agent_type: p.call.agent_type,
                        },
                    ),
                ),
            ),
            None => Some((WireDecision::Deny, None)),
        },
    }
}

/// A message to the state's owner.
#[derive(Debug)]
pub enum AggregatorMsg {
    /// A hook event, with the lists that hold for its directory.
    HookEvent { event: HookEvent, allowlist: Allowlist },
    PermissionDecision { tool_use_id: String, decision: WireDecision },
    GetHeartbeat,
    TokensUpdate { output_tokens: u64 },
    SetInitialTokens { cumulative: u64, today: u64, date: String },
    DailyReset { date: String },
    AddEntry { text: String },
    ApprovalTimedOut { tool_use_id: String },
    AllowlistAlways { tool_use_id: String },
    CheckTurnDone { session_id: String, activity_serial: u64, snapshot: TurnDoneSnapshot },
}

/// What a message leads to.
#[derive(Debug, PartialEq, Eq)]
pub struct Reaction {
    /// The answer to a hook event.
    pub outcome: Option<HookOutcome>,
    /// What became of a decision.
    pub result: Option<PermissionDecisionResult>,
    /// The heartbeat that was asked for.
    pub heartbeat: Option<Heartbeat>,
    /// A heartbeat is due to all emitters.
    pub broadcast: bool,
    /// The decision to hand to the waiting call.
    pub fire: Option<WireDecision>,
    pub gate: Option<TurnDoneGate>,
    pub turn_done: Option<TurnDoneEvent>,
    /// The pattern to write before the decision is handed on.
    pub write: Option<AllowWrite>,
}

impl Reaction {
    fn quiet() -> (r: Reaction)
        ensures
            r.outcome is None,
            r.result is None,
            r.heartbeat is None,
            !r.broadcast,
            r.fire is None,
            r.gate is None,
            r.turn_done is None,
            r.write is None,
    {
        Reaction {
            outcome: None,
            result: None,
            heartbeat: None,
            broadcast: false,
            fire: None,
            gate: None,
            turn_done: None,
            write: None,
        }
    }
}

/// What a [`Reaction`] stands for, with the state after it.
#[verifier::ext_equal]
pub struct Reacted {
    pub state: StateValue,
    pub outcome: Option<OutcomeValue>,
    pub result: Option<PermissionDecisionResult>,
    pub heartbeat: Option<HeartbeatValue>,
    pub broadcast: bool,
    pub fire: Option<WireDecision>,
    pub gate: Option<GateValue>,
    /// Session, snippet, directory and tokens of a finished turn.
    pub turn_done: Option<(Seq<char>, Seq<char>, Seq<char>, u64)>,
    pub write: Option<WriteValue>,
}

pub open spec fn reacted_of(r: Reaction, state: StateValue) -> Reacted {
    Reacted {
        state,
        outcome: match r.outcome {
            Some(o) => Some(o@),
            None => None,
        },
        result: r.result,
        heartbeat: match r.heartbeat {
            Some(h) => Some(h@),
            None => None,
        },
        broadcast: r.broadcast,
        fire: r.fire,
        gate: gate_of(r.gate),
        turn_done: match r.turn_done {
            Some(e) => Some((e.session_id@, e.response_snippet@, e.cwd@, e.tokens_cumulative)),
            None => None,
        },
        write: write_of(r.write),
    }
}

pub open spec fn no_reaction(state: StateValue) -> Reacted {
    Reacted {
        state,
        outcome: None,
        result: None,
        heartbeat: None,
        broadcast: false,
        fire: None,
        gate: None,
        turn_done: None,
        write: None,
    }
}

/// What a message changes and leads to.
pub open spec fn reaction_to(state: StateValue, msg: AggregatorMsg) -> Reacted {
    match msg {
        AggregatorMsg::HookEvent { event, allowlist } => {
            let step = hook_step(state, event, allowlist@);
            Reacted {
                outcome: Some(step.outcome),
                broadcast: step.broadcast,
                gate: step.gate,
                ..no_reaction(step.state)
            }
        },
        AggregatorMsg::PermissionDecision { tool_use_id, decision } => {
            let waits = has_key(state.pending, tool_use_id@);
            Reacted {
                result: Some(decision_result(state, tool_use_id@)),
                broadcast: waits,
                fire: if waits {
                    Some(decision)
                } else {
                    None
                },
                ..no_reaction(decided(state, tool_use_id@))
            }
        },
        AggregatorMsg::GetHeartbeat => Reacted {
            heartbeat: Some(heartbeat_of(state)),
            ..no_reaction(state)
        },
        AggregatorMsg::TokensUpdate { output_tokens } => Reacted {
            broadcast: true,
            ..no_reaction(counted(state, output_tokens))
        },
        AggregatorMsg::SetInitialTokens { cumulative, today, date } => Reacted {
            broadcast: true,
            ..no_reaction(seeded(state, cumulative, today, date@))
        },
        AggregatorMsg::DailyReset { date } => Reacted {
            broadcast: true,
            ..no_reaction(new_day(state, date@))
        },
        AggregatorMsg::AddEntry { text } => Reacted {
            broadcast: true,
            ..no_reaction(state.with_entry(text@))
        },
        AggregatorMsg::ApprovalTimedOut { tool_use_id } => Reacted {
            broadcast: true,
            ..no_reaction(state.without_pending(tool_use_id@))
        },
        AggregatorMsg::AllowlistAlways { tool_use_id } => match always_step(state, tool_use_id@) {
            None => no_reaction(state),
            Some((decision, write)) => Reacted {
                broadcast: true,
                fire: Some(decision),
                write,
                ..no_reaction(decided(state, tool_use_id@))
            },
        },
        AggregatorMsg::CheckTurnDone { session_id, activity_serial, snapshot } => Reacted {
            turn_done: if still_idle(state, session_id@, activity_serial) {
                Some(
                    (
                        session_id@,
                        snapshot.response_snippet@,
                        snapshot.cwd@,
                        snapshot.tokens_cumulative,
                    ),
                )
            } else {
                None
            },
            ..no_reaction(state)
        },
    }
}

/// What a message has to meet: hints can be cut, and counts do not overflow.
pub open spec fn message_ok(state: StateValue, msg: AggregatorMsg) -> bool {
    match msg {
        AggregatorMsg::HookEvent { event, allowlist } => event_ok(state, event, allowlist@),
        AggregatorMsg::TokensUpdate { output_tokens } => state.cumulative + output_tokens <= u64::MAX
            && state.today + output_tokens <= u64::MAX,
        _ => true,
    }
}

} // verus!
