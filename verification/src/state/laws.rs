//! Laws of the state: what every message keeps, and what messages do to each
//! other.

use vstd::prelude::*;
use crate::assoc::{
    erase, has_key, index_of, keys_distinct, lemma_erase, lemma_index_of, lemma_put,
    lemma_put_distinct, lookup, put,
};
use crate::config::nanos;
use crate::permission::{decision_of, permissive_name, AllowOrDeny, DecisionValue};
use crate::permission::additions::derive::derived_text;
use crate::permission::allowlist::AllowlistValue;
use crate::proto::buddy::WireDecision;
use crate::proto::hook::{HookEvent, PreToolUseEvent, StopEvent, ToolCall};
use crate::state::{
    always_step, decided, decision_result, heartbeat_of, hook_step, intercepted, new_day,
    prompts_of, reaction_to, running_count, seeded, serial_or, still_idle, tool_call_step,
    tool_hint, waiting_count, AggregatorMsg, OutcomeValue, PendingValue, PermissionDecisionResult,
    SessionValue, StateValue, ENTRIES_CAP,
};
use crate::text::has_prefix;

verus! {

proof fn lemma_with_session_wf(state: StateValue, id: Seq<char>, s: SessionValue)
    requires
        state.wf(),
        s.id == id,
        s.waiting == (s.pending is Some),
        s.pending is Some ==> has_key(state.pending, s.pending->0),
        s.pending is Some ==> forall|i: int|
            0 <= i < state.sessions.len() && state.sessions[i].0 != id ==> (
            #[trigger] state.sessions[i]).1.pending != s.pending,
    ensures
        state.with_session(id, s).wf(),
{
    lemma_put_distinct(state.sessions, id, s);
    lemma_index_of(state.sessions, id);
    let t = state.with_session(id, s);
    let k = index_of(state.sessions, id);
    assert forall|i: int, j: int|
        0 <= i < j < t.sessions.len() && (#[trigger] t.sessions[i]).1.pending is Some implies (
    #[trigger] t.sessions[j]).1.pending != t.sessions[i].1.pending by {
        if i == k {
            assert(state.sessions[j].0 != id) by {
                assert(state.sessions[i].0 == id);
            }
        } else if j == k && j < state.sessions.len() {
            assert(state.sessions[i].0 != id) by {
                assert(state.sessions[j].0 == id);
            }
        } else if j == state.sessions.len() {
            assert(state.sessions[i].0 != id);
        } else {
            assert(t.sessions[i] == state.sessions[i]);
            assert(t.sessions[j] == state.sessions[j]);
        }
    }
}

/// A session that was found holds what every session holds.
proof fn lemma_found_session(state: StateValue, id: Seq<char>, cwd: Seq<char>)
    requires
        state.wf(),
    ensures
        ({
            let s = state.session_or_new(id, cwd);
            &&& s.id == id
            &&& s.waiting == (s.pending is Some)
            &&& s.pending is Some ==> has_key(state.pending, s.pending->0)
            &&& s.pending is Some ==> forall|i: int|
                0 <= i < state.sessions.len() && state.sessions[i].0 != id ==> (
                #[trigger] state.sessions[i]).1.pending != s.pending
        }),
{
    lemma_index_of(state.sessions, id);
    let k = index_of(state.sessions, id) as int;
    if k < state.sessions.len() {
        let s = state.sessions[k].1;
        assert forall|i: int|
            0 <= i < state.sessions.len() && state.sessions[i].0 != id && s.pending is Some implies (
        #[trigger] state.sessions[i]).1.pending != s.pending by {
            if i < k {
                assert(state.sessions[i].1.pending is Some ==> state.sessions[k].1.pending
                    != state.sessions[i].1.pending);
            } else {
                assert(i > k);
            }
        }
    }
}

proof fn lemma_without_pending_wf(state: StateValue, id: Seq<char>)
    requires
        state.wf(),
    ensures
        state.without_pending(id).wf(),
{
    let t = state.without_pending(id);
    lemma_erase(state.pending, id, id);
    lemma_index_of(state.pending, id);
    assert(forall|i: int|
        0 <= i < t.sessions.len() ==> (#[trigger] t.sessions[i]).0 == state.sessions[i].0);
    assert forall|i: int, j: int| 0 <= i < j < t.sessions.len() implies #[trigger] t.sessions[i].0
        != #[trigger] t.sessions[j].0 by {
        assert(state.sessions[i].0 != state.sessions[j].0);
    }
    assert forall|i: int|
        0 <= i < t.sessions.len() && (#[trigger] t.sessions[i]).1.pending is Some implies has_key(
        t.pending,
        t.sessions[i].1.pending->0,
    ) by {
        let p = state.sessions[i].1.pending->0;
        assert(state.sessions[i].1.pending is Some);
        lemma_erase(state.pending, id, p);
        assert(lookup(t.pending, p) is Some);
    }
    assert forall|i: int, j: int|
        0 <= i < j < t.sessions.len() && (#[trigger] t.sessions[i]).1.pending is Some implies (
    #[trigger] t.sessions[j]).1.pending != t.sessions[i].1.pending by {
        assert(state.sessions[j].1.pending != state.sessions[i].1.pending);
    }
    assert forall|i: int| 0 <= i < t.pending.len() implies (
    #[trigger] t.pending[i]).1.call.tool_use_id == t.pending[i].0 by {
        let k = index_of(state.pending, id) as int;
        if k < state.pending.len() {
            if i < k {
                assert(t.pending[i] == state.pending[i]);
            } else {
                assert(t.pending[i] == state.pending[i + 1]);
            }
        }
    }
}

proof fn lemma_intercepted_wf(
    state: StateValue,
    call: ToolCall,
    matched_pattern: Option<Seq<char>>,
    match_source: Option<AllowOrDeny>,
)
    requires
        state.wf(),
    ensures
        intercepted(state, call, matched_pattern, match_source).state.wf(),
{
    let id = call.tool_use_id;
    if !has_key(state.pending, id) {
        let entry = PendingValue {
            call,
            tool_name: call.tool_name,
            tool_hint: tool_hint(call.tool_input),
            matched_pattern,
            match_source,
        };
        let middle = StateValue { pending: put(state.pending, id, entry), ..state };
        lemma_put_distinct(state.pending, id, entry);
        assert forall|i: int|
            0 <= i < middle.sessions.len() && (#[trigger] middle.sessions[i]).1.pending
                is Some implies has_key(middle.pending, middle.sessions[i].1.pending->0) by {
            let p = state.sessions[i].1.pending->0;
            assert(has_key(state.pending, p));
            lemma_put(state.pending, id, entry, p);
            assert(lookup(middle.pending, p) is Some);
        }
        assert(middle.wf());
        let session = state.session_or_new(call.session_id, call.cwd);
        lemma_found_session(middle, call.session_id, call.cwd);
        lemma_put(state.pending, id, entry, id);
        assert(lookup(middle.pending, id) is Some);
        assert forall|i: int| 0 <= i < middle.sessions.len() implies (
        #[trigger] middle.sessions[i]).1.pending != Some(id) by {
            assert(state.sessions[i].1.pending is Some ==> has_key(
                state.pending,
                state.sessions[i].1.pending->0,
            ));
        }
        lemma_with_session_wf(middle, call.session_id, session.holding(id));
    }
}

/// Every hook event keeps what holds of every state.
pub proof fn law_hook_keeps_wf(state: StateValue, event: HookEvent, lists: AllowlistValue)
    requires
        state.wf(),
    ensures
        hook_step(state, event, lists).state.wf(),
{
    match event {
        HookEvent::SessionStart(e) => {
            let id = e.base.session_id@;
            let cwd = e.base.cwd@;
            lemma_found_session(state, id, cwd);
            lemma_with_session_wf(state, id, state.session_or_new(id, cwd).bumped());
        },
        HookEvent::SessionEnd(e) => {
            let id = e.base.session_id@;
            lemma_erase(state.sessions, id, id);
            lemma_index_of(state.sessions, id);
            let k = index_of(state.sessions, id) as int;
            let t = erase(state.sessions, id);
            if k < state.sessions.len() {
                assert forall|i: int| 0 <= i < t.len() implies #[trigger] t[i] == state.sessions[if i
                    < k {
                    i
                } else {
                    i + 1
                }] by {}
            }
        },
        HookEvent::PreToolUse(e) => {
            let id = e.base.session_id@;
            let cwd = e.base.cwd@;
            lemma_found_session(state, id, cwd);
            let touched = state.with_session(id, state.session_or_new(id, cwd).bumped());
            lemma_with_session_wf(state, id, state.session_or_new(id, cwd).bumped());
            match decision_of(e.permission_mode, e.tool_name@, e.tool_input@, lists) {
                DecisionValue::AskAnnotated { matched_pattern, source } => {
                    lemma_intercepted_wf(touched, e@, Some(matched_pattern), Some(source));
                },
                DecisionValue::Intercept => {
                    lemma_intercepted_wf(touched, e@, None, None);
                },
                _ => {},
            }
        },
        HookEvent::PostToolUse(e) => {
            let id = e.base.session_id@;
            lemma_found_session(state, id, e.base.cwd@);
            if let Some(s) = lookup(state.sessions, id) {
                lemma_with_session_wf(state, id, s.with_running(false).cleared().bumped());
            }
        },
        HookEvent::Stop(e) => {
            let id = e.base.session_id@;
            lemma_found_session(state, id, e.base.cwd@);
            if let Some(s) = lookup(state.sessions, id) {
                lemma_with_session_wf(state, id, s.with_running(false).cleared());
            }
        },
        HookEvent::UserPromptSubmit(e) => {
            let id = e.base.session_id@;
            let cwd = e.base.cwd@;
            lemma_found_session(state, id, cwd);
            lemma_with_session_wf(
                state,
                id,
                state.session_or_new(id, cwd).with_running(true).bumped(),
            );
        },
        _ => {},
    }
}

/// Every message keeps what holds of every state.
pub proof fn law_reaction_keeps_wf(state: StateValue, msg: AggregatorMsg)
    ensures
        state.wf() ==> reaction_to(state, msg).state.wf(),
{
    if state.wf() {
        match msg {
            AggregatorMsg::HookEvent { event, allowlist } => {
                law_hook_keeps_wf(state, event, allowlist@);
            },
            AggregatorMsg::PermissionDecision { tool_use_id, .. } => {
                lemma_without_pending_wf(state, tool_use_id@);
            },
            AggregatorMsg::ApprovalTimedOut { tool_use_id } => {
                lemma_without_pending_wf(state, tool_use_id@);
            },
            AggregatorMsg::AllowlistAlways { tool_use_id } => {
                lemma_without_pending_wf(state, tool_use_id@);
            },
            _ => {},
        }
    }
}

/// A heartbeat has one prompt for each session that waits.
pub proof fn law_one_prompt_per_waiting_session(state: StateValue)
    requires
        state.wf(),
    ensures
        prompts_of(state.sessions, state.pending).len() == waiting_count(state.sessions),
{
    lemma_prompts_count(state.sessions, state.pending);
}

proof fn lemma_prompts_count(
    sessions: Seq<(Seq<char>, SessionValue)>,
    pending: Seq<(Seq<char>, PendingValue)>,
)
    requires
        forall|i: int|
            0 <= i < sessions.len() ==> ((#[trigger] sessions[i]).1.waiting
                <==> sessions[i].1.pending is Some),
        forall|i: int|
            0 <= i < sessions.len() && (#[trigger] sessions[i]).1.pending is Some ==> has_key(
                pending,
                sessions[i].1.pending->0,
            ),
    ensures
        prompts_of(sessions, pending).len() == waiting_count(sessions),
    decreases sessions.len(),
{
    if sessions.len() > 0 {
        let rest = sessions.drop_last();
        assert(forall|i: int| 0 <= i < rest.len() ==> #[trigger] rest[i] == sessions[i]);
        lemma_prompts_count(rest, pending);
        assert(sessions[sessions.len() - 1] == sessions.last());
    }
}

proof fn lemma_counts(sessions: Seq<(Seq<char>, SessionValue)>)
    ensures
        running_count(sessions) <= sessions.len(),
        waiting_count(sessions) <= sessions.len(),
    decreases sessions.len(),
{
    if sessions.len() > 0 {
        lemma_counts(sessions.drop_last());
    }
}

proof fn lemma_prompt_sessions(
    sessions: Seq<(Seq<char>, SessionValue)>,
    pending: Seq<(Seq<char>, PendingValue)>,
)
    requires
        keys_distinct(sessions),
        forall|i: int| 0 <= i < sessions.len() ==> (#[trigger] sessions[i]).1.id == sessions[i].0,
    ensures
        ({
            let prompts = prompts_of(sessions, pending);
            &&& forall|i: int|
                0 <= i < prompts.len() ==> exists|k: int|
                    0 <= k < sessions.len() && (#[trigger] prompts[i]).session_id == Some(
                        (#[trigger] sessions[k]).0,
                    )
            &&& forall|i: int, j: int|
                0 <= i < j < prompts.len() ==> (#[trigger] prompts[i]).session_id != (
                #[trigger] prompts[j]).session_id
        }),
    decreases sessions.len(),
{
    if sessions.len() > 0 {
        let rest = sessions.drop_last();
        let n = sessions.len() - 1;
        assert(forall|i: int| 0 <= i < rest.len() ==> #[trigger] rest[i] == sessions[i]);
        assert(sessions[n] == sessions.last());
        lemma_prompt_sessions(rest, pending);
        let before = prompts_of(rest, pending);
        let prompts = prompts_of(sessions, pending);
        assert forall|i: int| 0 <= i < prompts.len() implies exists|k: int|
            0 <= k < sessions.len() && (#[trigger] prompts[i]).session_id == Some(
                (#[trigger] sessions[k]).0,
            ) by {
            if i < before.len() {
                assert(prompts[i] == before[i]);
                let k = choose|k: int|
                    0 <= k < rest.len() && before[i].session_id == Some((#[trigger] rest[k]).0);
                assert(prompts[i].session_id == Some(sessions[k].0));
            } else {
                assert(prompts[i].session_id == Some(sessions[n].0));
            }
        }
        assert forall|i: int, j: int| 0 <= i < j < prompts.len() implies (
        #[trigger] prompts[i]).session_id != (#[trigger] prompts[j]).session_id by {
            assert(prompts[i] == before[i]);
            if j < before.len() {
                assert(prompts[j] == before[j]);
            } else {
                let k = choose|k: int|
                    0 <= k < rest.len() && before[i].session_id == Some((#[trigger] rest[k]).0);
                assert(sessions[k].0 != sessions[n].0);
            }
        }
    }
}

/// What a heartbeat tells fits together: no more sessions run or wait than there
/// are; each session that waits has one prompt, under its own id; at most eight
/// lines are told; and the summary asks for approval exactly if there is a
/// prompt, and speaks of no sessions exactly if there are none.
pub proof fn law_heartbeat_fits_together(state: StateValue)
    requires
        state.wf(),
        state.sessions.len() <= u32::MAX,
    ensures
        ({
            let h = heartbeat_of(state);
            &&& h.total == state.sessions.len()
            &&& h.running <= h.total
            &&& h.waiting <= h.total
            &&& h.prompts.len() == h.waiting
            &&& forall|i: int| 0 <= i < h.prompts.len() ==> (#[trigger] h.prompts[i]).session_id is Some
            &&& forall|i: int, j: int|
                0 <= i < j < h.prompts.len() ==> (#[trigger] h.prompts[i]).session_id != (
                #[trigger] h.prompts[j]).session_id
            &&& h.entries.len() <= ENTRIES_CAP
            &&& has_prefix(h.msg, "approve: "@) <==> h.prompts.len() > 0
            &&& h.msg == "no sessions"@ <==> h.total == 0
        }),
{
    let h = heartbeat_of(state);
    lemma_counts(state.sessions);
    law_one_prompt_per_waiting_session(state);
    lemma_prompt_sessions(state.sessions, state.pending);
    assert forall|i: int| 0 <= i < h.prompts.len() implies (
    #[trigger] h.prompts[i]).session_id is Some by {
        let k = choose|k: int|
            0 <= k < state.sessions.len() && h.prompts[i].session_id == Some(
                (#[trigger] state.sessions[k]).0,
            );
    }
    reveal_strlit("approve: ");
    reveal_strlit("running (");
    reveal_strlit("idle (");
    reveal_strlit("no sessions");
    let head = "approve: "@;
    if h.prompts.len() > 0 {
        assert(h.msg.subrange(0, head.len() as int) =~= head);
        assert(h.msg[0] == 'a');
        assert("no sessions"@[0] == 'n');
    } else {
        assert(h.msg[0] != 'a') by {
            assert("running ("@[0] == 'r' && "idle ("@[0] == 'i' && "no sessions"@[0] == 'n');
        }
        if has_prefix(h.msg, head) {
            assert(h.msg.subrange(0, head.len() as int)[0] == 'a');
        }
        if h.total > 0 {
            assert(h.msg[0] != 'n');
            assert("no sessions"@[0] == 'n');
        }
    }
}

/// A second call under an id that waits already is handed back to its session,
/// and the first call's approval stays as it was.
pub proof fn law_duplicate_call_changes_no_approval(
    state: StateValue,
    call: ToolCall,
    decision: DecisionValue,
)
    requires
        has_key(state.pending, call.tool_use_id),
        decision is Intercept || decision is AskAnnotated,
    ensures
        tool_call_step(state, call, decision).outcome is Passthrough,
        !tool_call_step(state, call, decision).broadcast,
        tool_call_step(state, call, decision).state.pending == state.pending,
        forall|other: Seq<char>|
            other != call.session_id ==> #[trigger] lookup(
                tool_call_step(state, call, decision).state.sessions,
                other,
            ) == lookup(state.sessions, other),
{
    let s = state.session_or_new(call.session_id, call.cwd).bumped();
    assert forall|other: Seq<char>| other != call.session_id implies #[trigger] lookup(
        tool_call_step(state, call, decision).state.sessions,
        other,
    ) == lookup(state.sessions, other) by {
        lemma_put(state.sessions, call.session_id, s, other);
    }
}

/// A call that waits can be decided, and its prompt is in the heartbeat's state:
/// its session waits for it and its approval is found.
pub proof fn law_intercepted_call_waits(state: StateValue, call: ToolCall, decision: DecisionValue)
    requires
        !has_key(state.pending, call.tool_use_id),
        decision is Intercept || decision is AskAnnotated,
    ensures
        ({
            let after = tool_call_step(state, call, decision);
            &&& after.outcome is Await
            &&& decision_result(after.state, call.tool_use_id) == PermissionDecisionResult::Applied
            &&& lookup(after.state.pending, call.tool_use_id) is Some
            &&& lookup(after.state.pending, call.tool_use_id)->0.call == call
            &&& lookup(after.state.sessions, call.session_id) is Some
            &&& lookup(after.state.sessions, call.session_id)->0.waiting
            &&& lookup(after.state.sessions, call.session_id)->0.pending == Some(call.tool_use_id)
        }),
{
    let after = tool_call_step(state, call, decision);
    let touched = state.with_session(
        call.session_id,
        state.session_or_new(call.session_id, call.cwd).bumped(),
    );
    let p = after.state.pending;
    lemma_put(
        state.pending,
        call.tool_use_id,
        p[index_of(state.pending, call.tool_use_id) as int].1,
        call.tool_use_id,
    );
    lemma_index_of(state.pending, call.tool_use_id);
    lemma_put(
        touched.sessions,
        call.session_id,
        touched.session_or_new(call.session_id, call.cwd).holding(call.tool_use_id),
        call.session_id,
    );
}

/// A decision is applied at most once: after it, as after a timeout, the id is
/// unknown, no session waits for it, and every other call waits as before.
pub proof fn law_decided_once(state: StateValue, id: Seq<char>)
    requires
        state.wf(),
    ensures
        decision_result(state.without_pending(id), id) == PermissionDecisionResult::UnknownId,
        decided(state.without_pending(id), id) == state.without_pending(id),
        forall|i: int|
            0 <= i < state.sessions.len() ==> (#[trigger] state.without_pending(
                id,
            ).sessions[i]).1.pending != Some(id),
        forall|other: Seq<char>|
            other != id ==> #[trigger] lookup(state.without_pending(id).pending, other) == lookup(
                state.pending,
                other,
            ),
        forall|i: int|
            0 <= i < state.sessions.len() && state.sessions[i].1.pending != Some(id) ==> (
            #[trigger] state.without_pending(id).sessions[i]) == state.sessions[i],
{
    lemma_erase(state.pending, id, id);
    assert(lookup(state.without_pending(id).pending, id) is None);
    assert forall|other: Seq<char>| other != id implies #[trigger] lookup(
        state.without_pending(id).pending,
        other,
    ) == lookup(state.pending, other) by {
        lemma_erase(state.pending, id, other);
    }
}

/// In a permissive mode a tool call is approved at once: nothing waits, nothing
/// is shown.
pub proof fn law_permissive_call_never_waits(
    state: StateValue,
    e: PreToolUseEvent,
    lists: AllowlistValue,
)
    requires
        permissive_name(e.permission_mode) is Some,
    ensures
        ({
            let after = hook_step(state, HookEvent::PreToolUse(e), lists);
            &&& after.outcome == OutcomeValue::Decided(WireDecision::Once)
            &&& after.state.pending == state.pending
            &&& !after.broadcast
        }),
{
}

/// A stop ends the running and the waiting of its session.
pub proof fn law_stop_ends_turn(state: StateValue, e: StopEvent, lists: AllowlistValue)
    requires
        has_key(state.sessions, e.base.session_id@),
    ensures
        ({
            let s = lookup(
                hook_step(state, HookEvent::Stop(e), lists).state.sessions,
                e.base.session_id@,
            );
            s is Some && !s->0.running && !s->0.waiting && s->0.pending is None
        }),
{
    let id = e.base.session_id@;
    let s = lookup(state.sessions, id)->0;
    lemma_put(state.sessions, id, s.with_running(false).cleared(), id);
}

/// A session that works again after its stop is not reported as done: a prompt,
/// a tool call or a session start closes the idle gate, and so does the end of a
/// tool call of a session that is known. The activity count must not have
/// reached its largest value.
pub proof fn law_activity_cancels_turn_done(
    state: StateValue,
    event: HookEvent,
    lists: AllowlistValue,
)
    requires
        event is SessionStart || event is UserPromptSubmit || event is PreToolUse || (event
            is PostToolUse && has_key(state.sessions, event.base()->0.session_id@)),
        serial_or(state, event.base()->0.session_id@, 0) < u64::MAX,
    ensures
        !still_idle(
            hook_step(state, event, lists).state,
            event.base()->0.session_id@,
            serial_or(state, event.base()->0.session_id@, 0),
        ),
{
    let id = event.base()->0.session_id@;
    let cwd = event.base()->0.cwd@;
    let s = state.session_or_new(id, cwd);
    match event {
        HookEvent::SessionStart(e) => {
            lemma_put(state.sessions, id, s.bumped(), id);
        },
        HookEvent::UserPromptSubmit(e) => {
            lemma_put(state.sessions, id, s.with_running(true).bumped(), id);
        },
        HookEvent::PostToolUse(e) => {
            lemma_put(state.sessions, id, s.with_running(false).cleared().bumped(), id);
        },
        HookEvent::PreToolUse(e) => {
            lemma_put(state.sessions, id, s.bumped(), id);
            let touched = state.with_session(id, s.bumped());
            lemma_put(
                touched.sessions,
                id,
                touched.session_or_new(id, cwd).holding(e.tool_use_id@),
                id,
            );
        },
        _ => {},
    }
}

/// A session is reported as done if nothing came after its stop: the idle gate
/// that the stop opened finds it idle.
pub proof fn law_quiet_turn_is_done(state: StateValue, e: StopEvent, lists: AllowlistValue)
    requires
        nanos(state.grace) > 0,
    ensures
        ({
            let after = hook_step(state, HookEvent::Stop(e), lists);
            &&& after.gate is Some
            &&& still_idle(after.state, after.gate->0.session_id, after.gate->0.serial)
        }),
{
}

/// Without a grace period no gate is ever opened.
pub proof fn law_no_grace_no_gate(state: StateValue, event: HookEvent, lists: AllowlistValue)
    requires
        nanos(state.grace) == 0,
    ensures
        hook_step(state, event, lists).gate is None,
{
}

/// The newest line stands first, at most eight are kept, and the lines that stay
/// keep their order.
pub proof fn law_entries_newest_first(state: StateValue, entry: Seq<char>)
    requires
        state.wf(),
    ensures
        ({
            let after = state.with_entry(entry).entries;
            &&& after.len() <= ENTRIES_CAP
            &&& after[0] == entry
            &&& forall|i: int| 1 <= i < after.len() ==> #[trigger] after[i] == state.entries[i - 1]
            &&& after.len() == (if state.entries.len() < ENTRIES_CAP {
                state.entries.len() + 1
            } else {
                ENTRIES_CAP as nat
            })
        }),
{
}

/// Seeding never lowers a count, and seeding twice is seeding once.
pub proof fn law_seeding_never_regresses(
    state: StateValue,
    cumulative: u64,
    today: u64,
    date: Seq<char>,
)
    ensures
        seeded(state, cumulative, today, date).cumulative >= state.cumulative,
        seeded(state, cumulative, today, date).cumulative >= cumulative,
        seeded(state, cumulative, today, date).today >= state.today,
        seeded(state, cumulative, today, date).today >= today,
        seeded(seeded(state, cumulative, today, date), cumulative, today, date) == seeded(
            state,
            cumulative,
            today,
            date,
        ),
{
}

/// A new day sets the day's count to zero and keeps the total.
pub proof fn law_new_day_keeps_total(state: StateValue, date: Seq<char>)
    ensures
        new_day(state, date).today == 0,
        new_day(state, date).cumulative == state.cumulative,
        new_day(state, date).date == date,
{
}

/// An approval for good writes a pattern exactly if the call has one of its own;
/// otherwise the call is denied. A call that does not wait leads to nothing.
pub proof fn law_always_never_writes_bare_tool(state: StateValue, id: Seq<char>)
    ensures
        always_step(state, id) is Some <==> has_key(state.pending, id),
        always_step(state, id) matches Some((decision, write)) ==> {
            let call = lookup(state.pending, id)->0.call;
            &&& (write is Some <==> derived_text(call.tool_name, call.tool_input) is Some)
            &&& (write is Some <==> decision == WireDecision::Once)
            &&& (write is None <==> decision == WireDecision::Deny)
        },
{
}

} // verus!
