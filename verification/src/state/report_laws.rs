//! Laws of the reports: what a heartbeat counts and names, and what each event
//! and each message does to the state that it reports.

use vstd::prelude::*;
use vstd::utf8::{encode_utf8, encode_utf8_decode_utf8};
use crate::assoc::{erase, lemma_erase, lemma_index_of, lemma_put, lookup, put};
use crate::config::nanos;
use crate::ingest::jsonl::offsets::lemma_encode_concat;
use crate::json::JsonValue;
use crate::permission::{AllowOrDeny, DecisionValue};
use crate::permission::allowlist::{no_patterns, AllowlistValue};
use crate::permission::laws::is_asking;
use crate::proto::buddy::{MatchSource, WireDecision};
use crate::proto::hook::{
    event_in, text_of, HookEvent, NotificationEvent, PostToolUseEvent, SessionEndEvent,
    SessionStartEvent, StopEvent, ToolCall, UserPromptSubmitEvent,
};
use crate::proto::laws::has_call;
use crate::state::{
    counted, event_ok, heartbeat_of, hint_cuts_cleanly, hook_step, message_ok, prompts_of,
    reaction_to, running_count, snippet_of, tool_call_step, tool_hint, waiting_count, AggregatorMsg,
    OutcomeValue, PendingValue, PermissionDecisionResult, PromptValue, SessionValue, StateValue,
};
use crate::text::decimal;
use crate::text_laws::{all_white, is_tight, law_first_line, law_trim_takes_what_is_around};

verus! {

type Sessions = Seq<(Seq<char>, SessionValue)>;

// ---------------------------------------------------------------------------
// Heartbeats.

/// The sessions that run, and those that wait, are counted one by one.
pub proof fn law_counts_are_of_sessions(sessions: Sessions)
    ensures
        running_count(sessions) == sessions.filter(|p: (Seq<char>, SessionValue)| p.1.running).len(),
        waiting_count(sessions) == sessions.filter(|p: (Seq<char>, SessionValue)| p.1.waiting).len(),
    decreases sessions.len(),
{
    let runs = |p: (Seq<char>, SessionValue)| p.1.running;
    let waits = |p: (Seq<char>, SessionValue)| p.1.waiting;
    reveal(Seq::filter);
    if sessions.len() > 0 {
        law_counts_are_of_sessions(sessions.drop_last());
    }
}

/// One session more that runs raises that count by one, and one more that waits
/// the other; where a session stands among the others does not matter.
pub proof fn law_one_more_is_counted(sessions: Sessions, i: int, s: SessionValue)
    requires
        0 <= i < sessions.len(),
    ensures
        ({
            let after = sessions.update(i, (sessions[i].0, s));
            let old = sessions[i].1;
            &&& s.running && !old.running ==> running_count(after) == running_count(sessions) + 1
            &&& !s.running && old.running ==> running_count(after) + 1 == running_count(sessions)
            &&& s.running == old.running ==> running_count(after) == running_count(sessions)
            &&& s.waiting && !old.waiting ==> waiting_count(after) == waiting_count(sessions) + 1
            &&& !s.waiting && old.waiting ==> waiting_count(after) + 1 == waiting_count(sessions)
            &&& s.waiting == old.waiting ==> waiting_count(after) == waiting_count(sessions)
        }),
    decreases sessions.len(),
{
    let after = sessions.update(i, (sessions[i].0, s));
    let n = sessions.len() - 1;
    if i == n {
        assert(after.drop_last() =~= sessions.drop_last());
    } else {
        law_one_more_is_counted(sessions.drop_last(), i, s);
        assert(after.drop_last() =~= sessions.drop_last().update(i, (sessions[i].0, s)));
        assert(after.last() == sessions.last());
    }
}

/// A heartbeat tells how many sessions there are, how many of them run and how
/// many wait; the lines and the tokens as they stand; and no one's prompt but that
/// of a session that waits.
pub proof fn law_heartbeat_counts(state: StateValue)
    requires
        state.sessions.len() <= u32::MAX,
    ensures
        ({
            let h = heartbeat_of(state);
            &&& h.total == state.sessions.len()
            &&& h.running == state.sessions.filter(
                |p: (Seq<char>, SessionValue)| p.1.running,
            ).len()
            &&& h.waiting == state.sessions.filter(
                |p: (Seq<char>, SessionValue)| p.1.waiting,
            ).len()
            &&& h.entries == state.entries
            &&& h.tokens == state.cumulative
            &&& h.tokens_today == state.today
        }),
{
    law_counts_are_of_sessions(state.sessions);
    lemma_count_bound(state.sessions);
}

proof fn lemma_count_bound(sessions: Sessions)
    ensures
        running_count(sessions) <= sessions.len(),
        waiting_count(sessions) <= sessions.len(),
    decreases sessions.len(),
{
    if sessions.len() > 0 {
        lemma_count_bound(sessions.drop_last());
    }
}

/// The line of a heartbeat speaks of what is most urgent: of the one call that
/// waits, by its tool; of several, by their number; else of the sessions that
/// run, by theirs; else of those there are; else of none.
pub proof fn law_heartbeat_line(state: StateValue)
    requires
        state.sessions.len() <= u32::MAX,
    ensures
        ({
            let h = heartbeat_of(state);
            let run = state.sessions.filter(|p: (Seq<char>, SessionValue)| p.1.running).len();
            &&& h.prompts.len() == 1 ==> h.msg == "approve: "@ + h.prompts[0].tool
            &&& h.prompts.len() > 1 ==> h.msg == "approve: "@ + decimal(h.prompts.len())
                + " pending"@
            &&& h.prompts.len() == 0 && run > 0 ==> h.msg == "running ("@ + decimal(run) + ")"@
            &&& h.prompts.len() == 0 && run == 0 && state.sessions.len() > 0 ==> h.msg == "idle ("@
                + decimal(state.sessions.len()) + ")"@
            &&& state.sessions.len() == 0 ==> h.msg == "no sessions"@
        }),
{
    law_heartbeat_counts(state);
    if state.sessions.len() == 0 {
        assert(state.sessions.filter(|p: (Seq<char>, SessionValue)| p.1.running).len() == 0) by {
            law_counts_are_of_sessions(state.sessions);
        }
    }
}

/// What a prompt says of a session that waits for a call.
pub open spec fn shows(p: PromptValue, s: SessionValue, waiting: PendingValue) -> bool {
    &&& Some(p.id) == s.pending
    &&& p.tool == waiting.tool_name
    &&& p.hint == waiting.tool_hint
    &&& p.matched_pattern == waiting.matched_pattern
    &&& p.matched_source is None <==> waiting.match_source is None
    &&& p.matched_source == Some(MatchSource::Allow) <==> waiting.match_source == Some(
        AllowOrDeny::Allow,
    )
    &&& p.matched_source == Some(MatchSource::Deny) <==> waiting.match_source == Some(
        AllowOrDeny::Deny,
    )
    &&& p.session_id == Some(s.id)
    &&& p.cwd == Some(s.cwd)
    &&& p.agent_type == waiting.call.agent_type
}

/// One session more has its prompt behind the others, if it waits for a call that
/// is known, and leaves them as they are if not.
pub proof fn law_prompts_in_order(
    sessions: Sessions,
    pending: Seq<(Seq<char>, PendingValue)>,
    id: Seq<char>,
    s: SessionValue,
)
    ensures
        prompts_of(Seq::empty(), pending).len() == 0,
        ({
            let before = prompts_of(sessions, pending);
            let after = prompts_of(sessions.push((id, s)), pending);
            let known = s.waiting && s.pending is Some && lookup(pending, s.pending->0) is Some;
            &&& !known ==> after == before
            &&& known ==> {
                &&& after.len() == before.len() + 1
                &&& after.take(before.len() as int) == before
                &&& shows(after.last(), s, lookup(pending, s.pending->0)->0)
            }
        }),
{
    let all = sessions.push((id, s));
    assert(all.drop_last() =~= sessions);
    let before = prompts_of(sessions, pending);
    let after = prompts_of(all, pending);
    if after.len() > before.len() {
        assert(after.take(before.len() as int) =~= before);
    }
}

/// Every session that waits is shown, with its call.
pub proof fn law_waiting_session_is_shown(
    sessions: Sessions,
    pending: Seq<(Seq<char>, PendingValue)>,
    i: int,
) -> (j: int)
    requires
        0 <= i < sessions.len(),
        sessions[i].1.waiting,
        sessions[i].1.pending is Some,
        lookup(pending, sessions[i].1.pending->0) is Some,
    ensures
        0 <= j < prompts_of(sessions, pending).len(),
        shows(
            prompts_of(sessions, pending)[j],
            sessions[i].1,
            lookup(pending, sessions[i].1.pending->0)->0,
        ),
    decreases sessions.len(),
{
    let rest = sessions.drop_last();
    let last = sessions.last();
    law_prompts_in_order(rest, pending, last.0, last.1);
    assert(rest.push((last.0, last.1)) =~= sessions);
    let all = prompts_of(sessions, pending);
    if i == sessions.len() - 1 {
        all.len() - 1
    } else {
        let j = law_waiting_session_is_shown(rest, pending, i);
        let before = prompts_of(rest, pending);
        assert(all.take(before.len() as int)[j] == all[j]);
        j
    }
}

// ---------------------------------------------------------------------------
// Events.

/// Whether nothing but the sessions and the lines differs.
pub open spec fn same_but_sessions(a: StateValue, b: StateValue) -> bool {
    &&& a.pending == b.pending
    &&& a.cumulative == b.cumulative
    &&& a.today == b.today
    &&& a.date == b.date
    &&& a.approval_timeout == b.approval_timeout
    &&& a.fallback == b.fallback
    &&& a.grace == b.grace
}

/// Whether all sessions but one are the same.
pub open spec fn others_stay(a: Sessions, b: Sessions, id: Seq<char>) -> bool {
    forall|other: Seq<char>| other != id ==> #[trigger] lookup(a, other) == lookup(b, other)
}

/// One activity more, as far as the count goes.
pub open spec fn next_serial(n: u64) -> int {
    if n == u64::MAX {
        n as int
    } else {
        n + 1
    }
}

/// Whether a session is the earlier one at work, or a new one in a directory.
pub open spec fn is_at_work(
    before: Option<SessionValue>,
    after: SessionValue,
    id: Seq<char>,
    cwd: Seq<char>,
) -> bool {
    match before {
        Some(s) => {
            &&& after.id == s.id
            &&& after.cwd == s.cwd
            &&& after.waiting == s.waiting
            &&& after.pending == s.pending
            &&& after.serial == next_serial(s.serial)
        },
        None => {
            &&& after.id == id
            &&& after.cwd == cwd
            &&& !after.waiting
            &&& after.pending is None
            &&& after.serial == 1
        },
    }
}

proof fn lemma_others_stay(sessions: Sessions, id: Seq<char>, s: SessionValue)
    ensures
        others_stay(put(sessions, id, s), sessions, id),
        lookup(put(sessions, id, s), id) == Some(s),
{
    assert forall|other: Seq<char>| other != id implies #[trigger] lookup(
        put(sessions, id, s),
        other,
    ) == lookup(sessions, other) by {
        lemma_put(sessions, id, s, other);
    }
    lemma_put(sessions, id, s, id);
}

/// A session that starts is known from then on, with its directory, and does not
/// run by that alone. A line tells of it.
pub proof fn law_start_makes_a_session(
    state: StateValue,
    e: SessionStartEvent,
    lists: AllowlistValue,
)
    ensures
        ({
            let after = hook_step(state, HookEvent::SessionStart(e), lists);
            let id = e.base.session_id@;
            let before = lookup(state.sessions, id);
            let s = lookup(after.state.sessions, id);
            &&& s is Some
            &&& is_at_work(before, s->0, id, e.base.cwd@)
            &&& s->0.running == (before is Some && before->0.running)
            &&& others_stay(after.state.sessions, state.sessions, id)
            &&& same_but_sessions(after.state, state)
            &&& after.state.entries[0] == "session: "@ + e.base.cwd@
            &&& after.outcome is Passthrough
            &&& after.broadcast
            &&& after.gate is None
        }),
{
    let id = e.base.session_id@;
    lemma_others_stay(state.sessions, id, state.session_or_new(id, e.base.cwd@).bumped());
}

/// A prompt of the user sets its session running, and makes the session if it is
/// not known.
pub proof fn law_prompt_sets_running(
    state: StateValue,
    e: UserPromptSubmitEvent,
    lists: AllowlistValue,
)
    ensures
        ({
            let after = hook_step(state, HookEvent::UserPromptSubmit(e), lists);
            let id = e.base.session_id@;
            let s = lookup(after.state.sessions, id);
            &&& s is Some
            &&& is_at_work(lookup(state.sessions, id), s->0, id, e.base.cwd@)
            &&& s->0.running
            &&& others_stay(after.state.sessions, state.sessions, id)
            &&& same_but_sessions(after.state, state)
            &&& after.state.entries == state.entries
            &&& after.outcome is Passthrough
            &&& after.broadcast
            &&& after.gate is None
        }),
{
    let id = e.base.session_id@;
    lemma_others_stay(
        state.sessions,
        id,
        state.session_or_new(id, e.base.cwd@).with_running(true).bumped(),
    );
}

/// A session that ends is forgotten, and no other.
pub proof fn law_end_forgets_the_session(
    state: StateValue,
    e: SessionEndEvent,
    lists: AllowlistValue,
)
    requires
        state.wf(),
    ensures
        ({
            let after = hook_step(state, HookEvent::SessionEnd(e), lists);
            let id = e.base.session_id@;
            &&& lookup(after.state.sessions, id) is None
            &&& others_stay(after.state.sessions, state.sessions, id)
            &&& lookup(state.sessions, id) is Some ==> after.state.sessions.len() + 1
                == state.sessions.len()
            &&& same_but_sessions(after.state, state)
            &&& after.state.entries[0] == "session ended"@
            &&& after.outcome is Passthrough
            &&& after.broadcast
            &&& after.gate is None
        }),
{
    let id = e.base.session_id@;
    lemma_erase(state.sessions, id, id);
    lemma_index_of(state.sessions, id);
    assert forall|other: Seq<char>| other != id implies #[trigger] lookup(
        erase(state.sessions, id),
        other,
    ) == lookup(state.sessions, other) by {
        lemma_erase(state.sessions, id, other);
    }
}

/// A tool that has run ends the running and the waiting of its session, if that
/// is known, and a line tells the tool and its hint.
pub proof fn law_tool_report_clears(
    state: StateValue,
    e: PostToolUseEvent,
    lists: AllowlistValue,
)
    ensures
        ({
            let after = hook_step(state, HookEvent::PostToolUse(e), lists);
            let id = e.base.session_id@;
            let before = lookup(state.sessions, id);
            let s = lookup(after.state.sessions, id);
            &&& before is None ==> after.state.sessions == state.sessions
            &&& before is Some ==> {
                &&& s is Some
                &&& s->0.id == before->0.id
                &&& s->0.cwd == before->0.cwd
                &&& !s->0.running
                &&& !s->0.waiting
                &&& s->0.pending is None
                &&& s->0.serial == next_serial(before->0.serial)
            }
            &&& others_stay(after.state.sessions, state.sessions, id)
            &&& same_but_sessions(after.state, state)
            &&& after.state.entries[0] == e.tool_name@ + ": "@ + tool_hint(e.tool_input@)
            &&& after.outcome is Passthrough
            &&& after.broadcast
            &&& after.gate is None
        }),
{
    let id = e.base.session_id@;
    if let Some(s) = lookup(state.sessions, id) {
        lemma_others_stay(state.sessions, id, s.with_running(false).cleared().bumped());
    }
}

/// A stop ends the running and the waiting of its session, if that is known, and
/// is no activity. Where a grace period is set it opens a gate that carries the
/// session, its count, the start of the response, and the tokens.
pub proof fn law_stop_opens_the_gate(state: StateValue, e: StopEvent, lists: AllowlistValue)
    ensures
        ({
            let after = hook_step(state, HookEvent::Stop(e), lists);
            let id = e.base.session_id@;
            let before = lookup(state.sessions, id);
            let s = lookup(after.state.sessions, id);
            &&& before is None ==> after.state.sessions == state.sessions
            &&& before is Some ==> {
                &&& s is Some
                &&& s->0.id == before->0.id
                &&& s->0.cwd == before->0.cwd
                &&& !s->0.running
                &&& !s->0.waiting
                &&& s->0.pending is None
                &&& s->0.serial == before->0.serial
            }
            &&& others_stay(after.state.sessions, state.sessions, id)
            &&& same_but_sessions(after.state, state)
            &&& after.state.entries == state.entries
            &&& after.outcome is Passthrough
            &&& after.broadcast
            &&& after.gate is Some <==> nanos(state.grace) > 0
            &&& after.gate matches Some(gate) ==> {
                &&& gate.session_id == id
                &&& gate.cwd == e.base.cwd@
                &&& gate.serial == (if before is Some {
                    before->0.serial
                } else {
                    0
                })
                &&& gate.tokens == state.cumulative
                &&& gate.grace == state.grace
                &&& text_of(e.response) is None ==> gate.snippet.len() == 0
                &&& text_of(e.response) matches Some(text) ==> gate.snippet == snippet_of(text)
            }
        }),
{
    let id = e.base.session_id@;
    if let Some(s) = lookup(state.sessions, id) {
        lemma_others_stay(state.sessions, id, s.with_running(false).cleared());
    }
}

/// A notification is told in a line, and changes nothing else; an event that is
/// not known changes nothing at all.
pub proof fn law_notification_is_a_line(
    state: StateValue,
    e: NotificationEvent,
    lists: AllowlistValue,
)
    ensures
        ({
            let after = hook_step(state, HookEvent::Notification(e), lists);
            &&& after.state.sessions == state.sessions
            &&& same_but_sessions(after.state, state)
            &&& after.state.entries[0] == "notif: "@ + e.message@
            &&& after.outcome is Passthrough
            &&& after.broadcast
            &&& after.gate is None
        }),
        ({
            let after = hook_step(state, HookEvent::Unknown, lists);
            &&& after.state == state
            &&& after.outcome is Passthrough
            &&& !after.broadcast
            &&& after.gate is None
        }),
{
}

/// A tool call is answered by its decision: allowed at once; denied at once, with
/// the reason; or, where the user has to be asked, held until somebody decides.
/// A call that waits is kept with all that a prompt shows of it, and its answer
/// waits as long as is configured.
pub proof fn law_decision_is_carried_out(
    state: StateValue,
    call: ToolCall,
    decision: DecisionValue,
)
    ensures
        ({
            let after = tool_call_step(state, call, decision);
            let waits = lookup(after.state.pending, call.tool_use_id);
            let asks = decision is AskAnnotated || decision is Intercept;
            let new = lookup(state.pending, call.tool_use_id) is None;
            &&& decision is Allow ==> after.outcome == OutcomeValue::Decided(WireDecision::Once)
            &&& decision matches DecisionValue::Deny { reason } ==> after.outcome
                == (OutcomeValue::HardDeny { reason })
            &&& !asks ==> after.state.pending == state.pending && !after.broadcast
            &&& asks && new ==> {
                &&& after.outcome == (OutcomeValue::Await {
                    tool_use_id: call.tool_use_id,
                    session_id: call.session_id,
                    approval_timeout: state.approval_timeout,
                    fallback: state.fallback,
                })
                &&& after.broadcast
                &&& waits is Some
                &&& waits->0.call == call
                &&& waits->0.tool_name == call.tool_name
                &&& waits->0.tool_hint == tool_hint(call.tool_input)
                &&& decision is Intercept ==> waits->0.matched_pattern is None
                    && waits->0.match_source is None
                &&& decision matches DecisionValue::AskAnnotated { matched_pattern, source }
                    ==> waits->0.matched_pattern == Some(matched_pattern) && waits->0.match_source
                    == Some(source)
                &&& forall|other: Seq<char>|
                    other != call.tool_use_id ==> #[trigger] lookup(after.state.pending, other)
                        == lookup(state.pending, other)
            }
            &&& others_stay(after.state.sessions, state.sessions, call.session_id)
            &&& after.state.entries == state.entries
            &&& after.state.cumulative == state.cumulative
            &&& after.state.today == state.today
            &&& after.state.date == state.date
            &&& after.gate is None
        }),
        ({
            let after = tool_call_step(state, call, decision);
            let before = lookup(state.sessions, call.session_id);
            let s = lookup(after.state.sessions, call.session_id);
            let held = (decision is AskAnnotated || decision is Intercept) && lookup(
                state.pending,
                call.tool_use_id,
            ) is None;
            &&& s is Some
            &&& !held ==> is_at_work(before, s->0, call.session_id, call.cwd)
            &&& held ==> s->0.waiting && s->0.pending == Some(call.tool_use_id)
            &&& s->0.running == (before is Some && before->0.running)
            &&& s->0.serial == (if before is Some {
                next_serial(before->0.serial)
            } else {
                1
            })
            &&& s->0.cwd == (if before is Some {
                before->0.cwd
            } else {
                call.cwd
            })
        }),
{
    let id = call.session_id;
    let s = state.session_or_new(id, call.cwd).bumped();
    let touched = state.with_session(id, s);
    lemma_others_stay(state.sessions, id, s);
    lemma_others_stay(touched.sessions, id, touched.session_or_new(id, call.cwd).holding(call.tool_use_id));
    let after = tool_call_step(state, call, decision);
    lemma_index_of(state.pending, call.tool_use_id);
    if lookup(state.pending, call.tool_use_id) is None && (decision is AskAnnotated || decision
        is Intercept) {
        let entry = after.state.pending.last().1;
        assert(after.state.pending =~= put(state.pending, call.tool_use_id, entry));
        lemma_put(state.pending, call.tool_use_id, entry, call.tool_use_id);
        assert forall|other: Seq<char>| other != call.tool_use_id implies #[trigger] lookup(
            after.state.pending,
            other,
        ) == lookup(state.pending, other) by {
            lemma_put(state.pending, call.tool_use_id, entry, other);
        }
    }
    assert forall|other: Seq<char>| other != id implies #[trigger] lookup(
        after.state.sessions,
        other,
    ) == lookup(state.sessions, other) by {
        assert(lookup(touched.sessions, other) == lookup(state.sessions, other));
    }
}

/// From the words of a tool call to its answer: without any entry in the lists, a
/// call in the mode `default` or `plan` is held for the user, and one in the mode
/// `acceptEdits`, `auto`, `dontAsk` or `bypassPermissions` is allowed at once.
pub proof fn law_mode_on_the_wire_decides(v: JsonValue, event: HookEvent, state: StateValue)
    requires
        v.get_str("hook_event_name"@) == Some("PreToolUse"@),
        has_call(v),
        event_in(v) == Some(event@),
        lookup(state.pending, v.get_str("tool_use_id"@)->0) is None,
    ensures
        ({
            let mode = v.get_str("permission_mode"@)->0;
            let after = hook_step(state, event, no_patterns());
            &&& mode == "default"@ || mode == "plan"@ ==> after.outcome is Await
                && after.state.pending.len() == state.pending.len() + 1
            &&& mode == "acceptEdits"@ || mode == "auto"@ || mode == "dontAsk"@ || mode
                == "bypassPermissions"@ ==> after.outcome == OutcomeValue::Decided(
                WireDecision::Once,
            ) && after.state.pending == state.pending
        }),
{
    crate::proto::laws::law_tool_call_is_read(v);
    lemma_index_of(state.pending, v.get_str("tool_use_id"@)->0);
    match event {
        HookEvent::PreToolUse(e) => {
            let mode = e.permission_mode;
            if is_asking(mode) {
                crate::permission::laws::law_lists_decide_in_order(
                    mode,
                    e.tool_name@,
                    e.tool_input@,
                    no_patterns(),
                    0,
                );
            } else {
                crate::permission::laws::law_permissive_mode_is_the_reason(
                    e.tool_name@,
                    e.tool_input@,
                    no_patterns(),
                );
            }
        },
        _ => {},
    }
}

// ---------------------------------------------------------------------------
// Messages.

/// A decision reaches the call that waits under its id, as it was made, and the
/// sender is told so; without such a call nothing happens but that the sender is
/// told the id is unknown.
pub proof fn law_decision_reaches_its_call(
    state: StateValue,
    tool_use_id: String,
    decision: WireDecision,
)
    ensures
        ({
            let r = reaction_to(state, AggregatorMsg::PermissionDecision { tool_use_id, decision });
            let waits = lookup(state.pending, tool_use_id@) is Some;
            &&& waits ==> r.fire == Some(decision) && r.result == Some(
                PermissionDecisionResult::Applied,
            ) && r.broadcast
            &&& !waits ==> r.fire is None && r.result == Some(PermissionDecisionResult::UnknownId)
                && !r.broadcast && r.state == state
            &&& r.write is None
            &&& r.turn_done is None
            &&& r.state.entries == state.entries
            &&& r.state.cumulative == state.cumulative
            &&& r.state.today == state.today
        }),
{
}

/// Without a decision in time the call waits no more, and everybody is told.
pub proof fn law_timeout_ends_waiting(state: StateValue, tool_use_id: String, i: int)
    requires
        state.wf(),
        0 <= i < state.sessions.len(),
    ensures
        ({
            let r = reaction_to(state, AggregatorMsg::ApprovalTimedOut { tool_use_id });
            let before = state.sessions[i].1;
            let after = r.state.sessions[i].1;
            &&& lookup(r.state.pending, tool_use_id@) is None
            &&& before.pending == Some(tool_use_id@) ==> !after.waiting && after.pending is None
                && after.running == before.running && after.serial == before.serial
            &&& before.pending != Some(tool_use_id@) ==> after == before
            &&& r.state.sessions.len() == state.sessions.len()
            &&& r.state.sessions[i].0 == state.sessions[i].0
            &&& r.broadcast
            &&& r.fire is None
        }),
{
    lemma_erase(state.pending, tool_use_id@, tool_use_id@);
}

/// Tokens are added to the total and to the day, all of them, and everybody is
/// told.
pub proof fn law_tokens_add_up(state: StateValue, output_tokens: u64, more: u64)
    requires
        state.cumulative + output_tokens + more <= u64::MAX,
        state.today + output_tokens + more <= u64::MAX,
    ensures
        ({
            let once = reaction_to(state, AggregatorMsg::TokensUpdate { output_tokens });
            &&& once.state.cumulative == state.cumulative + output_tokens
            &&& once.state.today == state.today + output_tokens
            &&& once.state.date == state.date
            &&& once.state.sessions == state.sessions
            &&& once.state.pending == state.pending
            &&& once.state.entries == state.entries
            &&& once.broadcast
            &&& counted(counted(state, output_tokens), more) == counted(
                state,
                (output_tokens + more) as u64,
            )
        }),
{
}

/// Counts from disk are taken where they are larger, and a date where none is
/// known; a new day clears the day's count alone.
pub proof fn law_seeding_takes_the_larger(
    state: StateValue,
    cumulative: u64,
    today: u64,
    date: String,
)
    ensures
        ({
            let s = reaction_to(
                state,
                AggregatorMsg::SetInitialTokens { cumulative, today, date },
            ).state;
            &&& s.cumulative == cumulative || s.cumulative == state.cumulative
            &&& s.cumulative >= cumulative && s.cumulative >= state.cumulative
            &&& s.today == today || s.today == state.today
            &&& s.today >= today && s.today >= state.today
            &&& state.date.len() == 0 ==> s.date == date@
            &&& state.date.len() > 0 ==> s.date == state.date
            &&& s.sessions == state.sessions && s.pending == state.pending
        }),
        ({
            let s = reaction_to(state, AggregatorMsg::DailyReset { date });
            &&& s.state.today == 0
            &&& s.state.cumulative == state.cumulative
            &&& s.state.date == date@
            &&& s.state.sessions == state.sessions && s.state.pending == state.pending
            &&& s.broadcast
        }),
{
}

/// A heartbeat that is asked for is that of the state, which stays as it is; and a
/// line that is added stands first.
pub proof fn law_asking_changes_nothing(state: StateValue, text: String)
    requires
        state.wf(),
    ensures
        ({
            let r = reaction_to(state, AggregatorMsg::GetHeartbeat);
            &&& r.state == state
            &&& r.heartbeat == Some(heartbeat_of(state))
            &&& !r.broadcast
        }),
        ({
            let r = reaction_to(state, AggregatorMsg::AddEntry { text });
            &&& r.state.entries[0] == text@
            &&& r.state.entries.len() <= 8
            &&& state.entries.len() < 8 ==> r.state.entries.len() == state.entries.len() + 1
            &&& forall|i: int|
                1 <= i < r.state.entries.len() ==> #[trigger] r.state.entries[i]
                    == state.entries[i - 1]
            &&& r.state.sessions == state.sessions && r.state.pending == state.pending
            &&& r.broadcast
        }),
{
}

/// An approval for good allows the call and writes its pattern, for its directory
/// and in its name; a call without a pattern of its own is denied instead.
pub proof fn law_always_is_for_its_call(state: StateValue, tool_use_id: String)
    ensures
        ({
            let r = reaction_to(state, AggregatorMsg::AllowlistAlways { tool_use_id });
            let p = lookup(state.pending, tool_use_id@);
            &&& p is None ==> r.fire is None && r.write is None && r.state == state && !r.broadcast
            &&& p is Some ==> {
                let call = p->0.call;
                let pattern = crate::permission::additions::derive::derived_text(
                    call.tool_name,
                    call.tool_input,
                );
                &&& r.broadcast
                &&& pattern is None ==> r.fire == Some(WireDecision::Deny) && r.write is None
                &&& pattern is Some ==> {
                    &&& r.fire == Some(WireDecision::Once)
                    &&& r.write is Some
                    &&& r.write->0.pattern == pattern->0
                    &&& r.write->0.cwd == call.cwd
                    &&& r.write->0.tool_use_id == tool_use_id@
                    &&& r.write->0.session_id == call.session_id
                    &&& r.write->0.agent_type == call.agent_type
                }
            }
        }),
{
}

// ---------------------------------------------------------------------------
// Short texts.

/// The start of a response is its first line, without the white space around it,
/// and at most eighty letters of it.
pub proof fn law_snippet_is_the_first_line(
    before: Seq<char>,
    line: Seq<char>,
    after: Seq<char>,
    rest: Seq<char>,
)
    requires
        is_tight(line),
        all_white(before),
        all_white(after),
        !(before + line + after).contains('\n'),
        (before + line + after).len() == 0 || (before + line + after).last() != '\r',
    ensures
        line.len() <= 80 ==> snippet_of(before + line + after + seq!['\n'] + rest) == line,
        line.len() > 80 ==> snippet_of(before + line + after + seq!['\n'] + rest)
            == line.subrange(0, 80).push('…'),
{
    law_first_line(before + line + after, rest);
    law_trim_takes_what_is_around(before, line, after);
}

/// The hint of a call is its command, or else its file, its path, its query or its
/// address, whichever is there first; without any it is empty.
pub proof fn law_hint_takes_the_first(input: JsonValue)
    ensures
        ({
            let command = input.get_str("command"@);
            let file = input.get_str("file_path"@);
            let path = input.get_str("path"@);
            let query = input.get_str("query"@);
            let url = input.get_str("url"@);
            let h = tool_hint(input);
            &&& command is Some ==> is_hint_of(h, command->0)
            &&& command is None && file is Some ==> is_hint_of(h, file->0)
            &&& command is None && file is None && path is Some ==> is_hint_of(h, path->0)
            &&& command is None && file is None && path is None && query is Some ==> is_hint_of(
                h,
                query->0,
            )
            &&& command is None && file is None && path is None && query is None && url is Some
                ==> is_hint_of(h, url->0)
            &&& command is None && file is None && path is None && query is None && url is None
                ==> h.len() == 0
        }),
{
    if let Some(text) = crate::state::hint_source(input) {
        assert forall|head: Seq<char>, tail: Seq<char>|
            encode_utf8(text).len() > 60 && text == head + tail && encode_utf8(head).len()
                == 60 implies crate::state::hint_text(text) == #[trigger] (head + seq!['…'])
            || text != #[trigger] (head + tail) by {
            lemma_encode_concat(head, tail);
            assert(encode_utf8(text).subrange(0, 60) =~= encode_utf8(head));
            encode_utf8_decode_utf8(head);
            assert(head.push('…') =~= head + seq!['…']);
        }
    }
}

/// Whether a hint is a text of at most sixty bytes, or the sixty bytes at its
/// start with an ellipsis.
pub open spec fn is_hint_of(hint: Seq<char>, text: Seq<char>) -> bool {
    &&& encode_utf8(text).len() <= 60 ==> hint == text
    &&& encode_utf8(text).len() > 60 ==> forall|head: Seq<char>, tail: Seq<char>|
        text == #[trigger] (head + tail) && encode_utf8(head).len() == 60 ==> hint == head + seq![
            '…',
        ]
}

/// An event can be taken unless its hint would be cut inside a letter: a hint of
/// at most sixty bytes is always right, and so is an event without one.
pub proof fn law_events_that_can_be_taken(
    state: StateValue,
    event: HookEvent,
    lists: AllowlistValue,
    input: JsonValue,
)
    ensures
        (crate::state::hint_source(input) matches Some(text) ==> encode_utf8(text).len() <= 60)
            ==> hint_cuts_cleanly(input),
        !(event is PreToolUse) && !(event is PostToolUse) ==> event_ok(state, event, lists),
        event matches HookEvent::PreToolUse(e) ==> (hint_cuts_cleanly(e.tool_input@) ==> event_ok(
            state,
            event,
            lists,
        )),
        event matches HookEvent::PostToolUse(e) ==> event_ok(state, event, lists)
            == hint_cuts_cleanly(e.tool_input@),
{
}

/// A message can be taken unless it brings an event that cannot, or more tokens
/// than can be counted.
pub proof fn law_messages_that_can_be_taken(state: StateValue, msg: AggregatorMsg)
    ensures
        msg matches AggregatorMsg::HookEvent { event, allowlist } ==> message_ok(state, msg)
            == event_ok(state, event, allowlist@),
        msg matches AggregatorMsg::TokensUpdate { output_tokens } ==> message_ok(state, msg) == (
        state.cumulative + output_tokens <= u64::MAX && state.today + output_tokens <= u64::MAX),
        !(msg is HookEvent) && !(msg is TokensUpdate) ==> message_ok(state, msg),
{
}

} // verus!
