//! Laws of the calls: what comes out of the library for what goes in, from one
//! end to the other.

use vstd::prelude::*;
use vstd::utf8::encode_utf8;
use crate::agent::AgentNames;
use crate::assoc::lookup;
use crate::cli::{subcommand, watchdog_interval, Subcommand};
use crate::config::{nanos, Approvals, Config, ConfigError, Fallback, TurnDoneConfig};
use crate::emit::ble::{handle_inbound, matches_service, starts_session, DeviceStep};
use crate::emit::ctrl::{handle_command, line_too_long, resolve_owner, CtrlStep, Subscriptions};
use crate::emit::http::{bind_allowed, handle, route, BindAddress, HttpReply, StateReply};
use crate::emit::notify::{ClickOutcome, NotifyState, TurnDonePost};
use crate::ingest::hooks::{awaited_response, immediate_response, parse_hook_line, WaitEnd};
use crate::ingest::jsonl::dates::secs_until_next_local_midnight;
use crate::ingest::jsonl::laws::{is_assistant, reported};
use crate::ingest::jsonl::parse::{parse_document, parse_jsonl_line, ParsedAssistantLine};
use crate::ingest::jsonl::reset::{catch_up_to_local_date, CatchUp};
use crate::ingest::jsonl::tokens::PersistedTokens;
use crate::ingest::jsonl::watcher::{LineNews, TokenTally};
use crate::ingest::relay::printed_reply;
use crate::json::{Json, JsonValue};
use crate::lines::line_content;
use crate::outside::json_text;
use crate::permission::{evaluate, Decision};
use crate::permission::additions::audit_log::{last_standing, log_entries, stands, AuditEntry};
use crate::permission::additions::derive::{derive_pattern, derived_text, DerivedPattern};
use crate::permission::additions::undo::{
    find_addition, undo_last_allow, validate_audit_root, UndoError, UndoOutcome,
};
use crate::permission::additions::write::{write_allow_pattern, AddError, AddOutcome};
use crate::permission::allowlist::{no_patterns, Allowlist};
use crate::permission::laws::{
    call_text, is_asking, is_first, judged, law_bash_prefix_means_the_start, none_is,
};
use crate::permission::pattern::{raw_of, MatchResult, Pattern};
use crate::proto::buddy::{Heartbeat, WireDecision};
use crate::proto::hook::{
    text_of, HookEvent, PermissionDecision, PermissionMode, PreToolUseEvent, PreToolUseResponse,
};
use crate::proto::laws::{has_call, is_mode};
use crate::setup::{merge_hooks, HookMergeResult, ShapeError};
use crate::setup_laws::{is_ours, is_own_group};
use crate::state::{
    Aggregator, AggregatorMsg, HookOutcome, HookResponse, HookStep, PermissionDecisionResult,
    Reaction, SessionValue, TurnDoneEvent,
};
use crate::text::{decimal, text_before};
use crate::text_laws::{all_white, is_tight};

verus! {

// ---------------------------------------------------------------------------
// Tool calls.

/// An entry `Bash(p:*)`, read and held against a call of `Bash`, surely means it
/// exactly if the command starts with `p`.
pub proof fn law_prefix_entry_on_a_call(
    entry: &str,
    pattern: Pattern,
    prefix: Seq<char>,
    gap: Seq<char>,
    event: PreToolUseEvent,
    r: MatchResult,
)
    requires
        call_ensures(Pattern::parse, (entry,), pattern),
        call_ensures(Pattern::matches, (&pattern, &event), r),
        entry@ == call_text("Bash"@, prefix + gap + seq![':', '*']),
        is_tight(prefix),
        all_white(gap),
        prefix.len() == 0 ==> gap.len() == 0,
        event.tool_name@ == "Bash"@,
        event.tool_input@.get_str("command"@) is Some,
    ensures
        ({
            let command = event.tool_input@.get_str("command"@)->0;
            &&& r == MatchResult::Confident <==> prefix.len() <= command.len() && command.take(
                prefix.len() as int,
            ) == prefix
            &&& r == MatchResult::NoMatch <==> !(prefix.len() <= command.len() && command.take(
                prefix.len() as int,
            ) == prefix)
        }),
{
    law_bash_prefix_means_the_start(prefix, gap, event.tool_input@);
}

/// The name of a tool, read and held against a call, surely means it exactly if
/// it is a call of that tool.
pub proof fn law_bare_entry_on_a_call(
    entry: &str,
    pattern: Pattern,
    event: PreToolUseEvent,
    r: MatchResult,
)
    requires
        call_ensures(Pattern::parse, (entry,), pattern),
        call_ensures(Pattern::matches, (&pattern, &event), r),
        crate::permission::laws::is_tool_name(entry@),
        entry@.len() < 5 || entry@.take(5) != seq!['m', 'c', 'p', '_', '_'],
    ensures
        r == MatchResult::Confident <==> event.tool_name@ == entry@,
        r == MatchResult::NoMatch <==> event.tool_name@ != entry@,
{
    crate::permission::laws::law_bare_name_means_the_tool(
        Seq::empty(),
        entry@,
        Seq::empty(),
        event.tool_name@,
        event.tool_input@,
    );
    assert(Seq::empty() + entry@ + Seq::empty() =~= entry@);
}

/// Without any entry a call is asked about in the modes that ask, and allowed in
/// the others.
pub proof fn law_empty_lists_on_a_call(event: PreToolUseEvent, lists: Allowlist, r: Decision)
    requires
        call_ensures(evaluate, (&event, &lists), r),
        lists.allow@.len() == 0,
        lists.deny@.len() == 0,
    ensures
        event.permission_mode == PermissionMode::Default || event.permission_mode
            == PermissionMode::Plan || event.permission_mode == PermissionMode::Unknown <==> r
            is Intercept,
        event.permission_mode == PermissionMode::AcceptEdits || event.permission_mode
            == PermissionMode::Auto || event.permission_mode == PermissionMode::DontAsk
            || event.permission_mode == PermissionMode::BypassPermissions <==> r is Allow,
        !(r is Deny) && !(r is AskAnnotated),
{
    assert(lists@.allow =~= Seq::empty());
    assert(lists@.deny =~= Seq::empty());
    if is_asking(event.permission_mode) {
        crate::permission::laws::law_lists_decide_in_order(
            event.permission_mode,
            event.tool_name@,
            event.tool_input@,
            lists@,
            0,
        );
    } else {
        crate::permission::laws::law_permissive_mode_is_the_reason(
            event.tool_name@,
            event.tool_input@,
            lists@,
        );
    }
}

/// One entry in the settings and none besides, held against a call in a mode that
/// asks: what is surely meant is allowed, what may be meant is asked about with
/// the entry, and what is not meant is asked about.
pub proof fn law_settings_on_a_call(
    settings: Json,
    entry: Seq<char>,
    lists: Allowlist,
    event: PreToolUseEvent,
    r: Decision,
)
    requires
        settings@ == crate::permission::laws::allowing(entry),
        call_ensures(Allowlist::from_settings_json, (&settings,), lists),
        call_ensures(evaluate, (&event, &lists), r),
        is_asking(event.permission_mode),
    ensures
        ({
            let m = judged(entry, event.tool_name@, event.tool_input@);
            &&& r is Allow <==> m == MatchResult::Confident
            &&& r is AskAnnotated <==> m == MatchResult::Ambiguous
            &&& r is Intercept <==> m == MatchResult::NoMatch
        }),
{
    crate::permission::laws::law_entry_decides(
        event.permission_mode,
        entry,
        event.tool_name@,
        event.tool_input@,
    );
}

/// The same for one entry that denies.
pub proof fn law_denials_on_a_call(
    settings: Json,
    entry: Seq<char>,
    lists: Allowlist,
    event: PreToolUseEvent,
    r: Decision,
)
    requires
        settings@ == crate::permission::laws::denying(entry),
        call_ensures(Allowlist::from_settings_json, (&settings,), lists),
        call_ensures(evaluate, (&event, &lists), r),
        is_asking(event.permission_mode),
    ensures
        ({
            let m = judged(entry, event.tool_name@, event.tool_input@);
            &&& r is Deny <==> m == MatchResult::Confident
            &&& r is AskAnnotated <==> m == MatchResult::Ambiguous
            &&& r is Intercept <==> m == MatchResult::NoMatch
        }),
{
    crate::permission::laws::law_entry_decides(
        event.permission_mode,
        entry,
        event.tool_name@,
        event.tool_input@,
    );
}

// ---------------------------------------------------------------------------
// Hooks.

/// A line with a tool call is read as that call, its mode by the mode's word.
pub proof fn law_line_is_read_as_its_call(line: &str, v: JsonValue, event: Option<HookEvent>)
    requires
        call_ensures(parse_hook_line, (line,), event),
        json_text(line_content(line@)) == Some(v),
        v.get_str("hook_event_name"@) == Some("PreToolUse"@),
        has_call(v),
    ensures
        event matches Some(HookEvent::PreToolUse(e)) && {
            &&& is_mode(v.get_str("permission_mode"@)->0, e.permission_mode)
            &&& Some(e.tool_name@) == v.get_str("tool_name"@)
            &&& Some(e.tool_input@) == v.get("tool_input"@)
            &&& Some(e.tool_use_id@) == v.get_str("tool_use_id"@)
            &&& Some(e.base.session_id@) == v.get_str("session_id"@)
            &&& Some(e.base.cwd@) == v.get_str("cwd"@)
        },
{
    crate::proto::laws::law_tool_call_is_read(v);
}

/// From the line of a hook to its outcome: without any entry, a call in the mode
/// `default` or `plan` waits for the user, and one in the mode `acceptEdits`,
/// `auto`, `dontAsk` or `bypassPermissions` is allowed at once.
pub proof fn law_line_leads_to_its_outcome(
    line: &str,
    v: JsonValue,
    event: HookEvent,
    state: &mut Aggregator,
    lists: Allowlist,
    step: HookStep,
)
    requires
        call_ensures(parse_hook_line, (line,), Some(event)),
        json_text(line_content(line@)) == Some(v),
        v.get_str("hook_event_name"@) == Some("PreToolUse"@),
        has_call(v),
        lookup(old(state)@.pending, v.get_str("tool_use_id"@)->0) is None,
        lists.allow@.len() == 0,
        lists.deny@.len() == 0,
        call_ensures(Aggregator::handle_hook_event, (state, event, &lists), step),
    ensures
        ({
            let mode = v.get_str("permission_mode"@)->0;
            &&& mode == "default"@ || mode == "plan"@ ==> step.outcome is Await
            &&& mode == "acceptEdits"@ || mode == "auto"@ || mode == "dontAsk"@ || mode
                == "bypassPermissions"@ ==> step.outcome == HookOutcome::Immediate(
                HookResponse::PermissionDecision(WireDecision::Once),
            )
        }),
{
    assert(lists@.allow =~= Seq::empty());
    assert(lists@.deny =~= Seq::empty());
    assert(lists@ == no_patterns());
    crate::state::report_laws::law_mode_on_the_wire_decides(v, event, old(state)@);
}

/// Whether an answer is a decision with a reason.
pub open spec fn says(
    r: Option<PreToolUseResponse>,
    decision: PermissionDecision,
    reason: Option<Seq<char>>,
) -> bool {
    &&& r is Some
    &&& r->0.hook_specific_output.hook_event_name@ == "PreToolUse"@
    &&& r->0.hook_specific_output.permission_decision == decision
    &&& text_of(r->0.hook_specific_output.permission_decision_reason) == reason
    &&& r->0.hook_specific_output.updated_input is None
}

/// What is decided at once is answered as it was decided: allowed, denied, or
/// denied with the reason. Where the bridge has nothing to say, nothing is said.
pub proof fn law_outcome_is_answered(response: HookResponse, r: Option<PreToolUseResponse>)
    requires
        call_ensures(immediate_response, (&response,), r),
    ensures
        response is Passthrough ==> r is None,
        response == HookResponse::PermissionDecision(WireDecision::Once) ==> says(
            r,
            PermissionDecision::Allow,
            None,
        ),
        response == HookResponse::PermissionDecision(WireDecision::Deny) ==> says(
            r,
            PermissionDecision::Deny,
            None,
        ),
        response matches HookResponse::HardDeny { reason } ==> says(
            r,
            PermissionDecision::Deny,
            Some(reason@),
        ),
{
}

/// What was waited for is answered as it ended: by the user's decision, by the
/// configuration after the time is up, or not at all when the bridge goes.
pub proof fn law_waiting_is_answered(end: WaitEnd, fallback: Fallback, r: Option<PreToolUseResponse>)
    requires
        call_ensures(awaited_response, (end, fallback), r),
    ensures
        end == WaitEnd::Decided(WireDecision::Once) ==> says(r, PermissionDecision::Allow, None),
        end == WaitEnd::Decided(WireDecision::Deny) ==> says(r, PermissionDecision::Deny, None),
        end == WaitEnd::Dropped ==> r is None,
        end == WaitEnd::TimedOut ==> {
            &&& fallback == Fallback::Passthrough ==> says(
                r,
                PermissionDecision::Ask,
                Some("ccbridge: approval timeout — falling back to interactive prompt"@),
            )
            &&& fallback == Fallback::Deny ==> says(
                r,
                PermissionDecision::Deny,
                Some("ccbridge: approval timeout — denying per config"@),
            )
            &&& fallback == Fallback::Allow ==> says(r, PermissionDecision::Allow, None)
        },
{
}

/// The reply of the bridge is printed as a line, and an empty one not at all.
pub proof fn law_reply_is_printed(reply: &str, r: Option<String>)
    requires
        call_ensures(printed_reply, (Some(reply),), r),
        reply@.len() > 0 ==> reply@.last() != '\n' && reply@.last() != '\r',
    ensures
        reply@.len() == 0 ==> r is None,
        reply@.len() > 0 ==> text_of(r) == Some(reply@.push('\n')),
{
    crate::proto::laws::law_line_without_its_end(reply@);
}

// ---------------------------------------------------------------------------
// The state.

/// A heartbeat counts the sessions, those that run and those that wait, and tells
/// the number of those that run where nothing waits.
pub proof fn law_heartbeat_of_the_state(state: Aggregator, h: Heartbeat)
    requires
        call_ensures(Aggregator::snapshot, (&state,), h),
        state@.sessions.len() <= u32::MAX,
    ensures
        h.total == state@.sessions.len(),
        h.running == state@.sessions.filter(|p: (Seq<char>, SessionValue)| p.1.running).len(),
        h.waiting == state@.sessions.filter(|p: (Seq<char>, SessionValue)| p.1.waiting).len(),
        h.tokens == state@.cumulative,
        h.tokens_today == state@.today,
        h.prompts@.len() == 0 && h.running > 0 ==> h.msg@ == "running ("@ + decimal(
            h.running as nat,
        ) + ")"@,
        h.prompts@.len() == 1 ==> h.msg@ == "approve: "@ + h.prompts@[0].tool@,
{
    crate::state::report_laws::law_heartbeat_counts(state@);
    crate::state::report_laws::law_heartbeat_line(state@);
    assert(crate::state::prompt_values(h.prompts@) == h@.prompts);
    if h.prompts@.len() == 1 {
        assert(h@.prompts[0].tool == h.prompts@[0].tool@);
    }
}

/// A decision is handed on exactly if its call waits, and as it was made.
pub proof fn law_decision_is_handed_on(
    state: &mut Aggregator,
    id: &str,
    decision: WireDecision,
    r: (PermissionDecisionResult, Option<WireDecision>),
)
    requires
        call_ensures(Aggregator::handle_permission_decision, (state, id, decision), r),
    ensures
        lookup(old(state)@.pending, id@) is Some ==> r == (
            PermissionDecisionResult::Applied,
            Some(decision),
        ),
        lookup(old(state)@.pending, id@) is None ==> r == (
            PermissionDecisionResult::UnknownId,
            None::<WireDecision>,
        ) && final(state)@ == old(state)@,
{
}

/// A finished turn is told exactly if its session did nothing since, with what
/// was kept of it.
pub proof fn law_finished_turn_is_told(
    state: Aggregator,
    session_id: String,
    serial: u64,
    snapshot: crate::state::TurnDoneSnapshot,
    r: Option<TurnDoneEvent>,
)
    requires
        call_ensures(
            Aggregator::handle_check_turn_done,
            (&state, session_id, serial, snapshot),
            r,
        ),
    ensures
        ({
            let s = lookup(state@.sessions, session_id@);
            &&& r is Some <==> s is None || s->0.serial == serial
            &&& r matches Some(e) ==> e.session_id@ == session_id@ && e.response_snippet@
                == snapshot.response_snippet@ && e.cwd@ == snapshot.cwd@ && e.tokens_cumulative
                == snapshot.tokens_cumulative
        }),
{
}

/// Tokens are added to both counts.
pub proof fn law_tokens_are_added(state: &mut Aggregator, n: u64)
    requires
        call_ensures(Aggregator::add_tokens, (state, n), ()),
        old(state)@.cumulative + n <= u64::MAX,
        old(state)@.today + n <= u64::MAX,
    ensures
        final(state)@.cumulative == old(state)@.cumulative + n,
        final(state)@.today == old(state)@.today + n,
        final(state)@.sessions == old(state)@.sessions,
        final(state)@.pending == old(state)@.pending,
{
}

// ---------------------------------------------------------------------------
// Transcripts.

/// A message of the assistant is counted by what its usage reports, whatever its
/// content is; anything else is not counted.
pub proof fn law_document_is_counted(doc: Json, r: Option<ParsedAssistantLine>)
    requires
        call_ensures(parse_document, (&doc,), r),
    ensures
        r is Some <==> is_assistant(doc@),
        r matches Some(line) ==> {
            let n = reported(doc@.get("message"@)->0);
            &&& n matches Some(JsonValue::Unsigned(k)) ==> line.output_tokens == k
            &&& !(n is Some && n->0 is Unsigned) ==> line.output_tokens == 0
        },
{
}

/// So is a line that holds it.
pub proof fn law_line_is_counted(text: &str, r: Option<ParsedAssistantLine>)
    requires
        call_ensures(parse_jsonl_line, (text,), r),
        is_tight(text@),
        text@.len() > 0,
    ensures
        json_text(text@) is None ==> r is None,
        json_text(text@) matches Some(doc) ==> {
            &&& r is Some <==> is_assistant(doc)
            &&& r matches Some(line) ==> (reported(doc.get("message"@)->0) matches Some(
                JsonValue::Unsigned(k),
            ) ==> line.output_tokens == k)
        },
{
    crate::text::lemma_trim_idle(text@);
}

/// A line that was counted is in both counts and is told; one without tokens
/// changes nothing.
pub proof fn law_counted_line_is_told(
    tally: &mut TokenTally,
    line: ParsedAssistantLine,
    r: LineNews,
)
    requires
        call_ensures(TokenTally::take_line, (tally, line), r),
        old(tally).counts.today + line.output_tokens <= u64::MAX,
        old(tally).counts.cumulative + line.output_tokens <= u64::MAX,
    ensures
        final(tally).counts.today == old(tally).counts.today + line.output_tokens,
        final(tally).counts.cumulative == old(tally).counts.cumulative + line.output_tokens,
        line.output_tokens > 0 ==> final(tally).dirty && r.tokens == Some(line.output_tokens),
        line.output_tokens == 0 ==> final(tally).dirty == old(tally).dirty && r.tokens is None,
        text_of(r.entry) == text_of(line.entry_text),
{
}

/// On a later day the day's count starts from zero, and the total stays.
pub proof fn law_new_day_is_counted_anew(counts: &mut PersistedTokens, today: &str, r: CatchUp)
    requires
        call_ensures(catch_up_to_local_date, (counts, today), r),
    ensures
        final(counts).cumulative == old(counts).cumulative,
        old(counts).date@.len() > 0 && text_before(old(counts).date@, today@) ==> {
            &&& r == CatchUp::Rolled
            &&& final(counts).today == 0
            &&& final(counts).date@ == today@
        },
        old(counts).date@.len() > 0 && !text_before(old(counts).date@, today@) ==> {
            &&& r == CatchUp::UpToDate
            &&& final(counts).today == old(counts).today
            &&& final(counts).date@ == old(counts).date@
        },
{
}

/// The whole seconds to midnight are what is left of the day.
pub proof fn law_midnight_comes(hour: u8, minute: u8, second: u8, r: u64)
    requires
        call_ensures(secs_until_next_local_midnight, (hour, minute, second, 0u32), r),
        hour < 24,
        minute < 60,
        second < 60,
    ensures
        r == 86_400 - 3600 * hour - 60 * minute - second,
{
}

// ---------------------------------------------------------------------------
// Setup and settings.

/// Registering the hooks keeps every group of every event, in its place, and adds
/// at most the bridge's own group behind them.
pub proof fn law_merge_keeps_every_group(
    settings: &mut Json,
    r: Result<Vec<HookMergeResult>, ShapeError>,
    event: Seq<char>,
    groups: Seq<JsonValue>,
)
    requires
        call_ensures(merge_hooks, (settings,), r),
        old(settings)@.get("hooks"@) is Some,
        old(settings)@.get("hooks"@)->0.get(event) == Some(JsonValue::Array(groups)),
    ensures
        final(settings)@.get("hooks"@) is Some,
        final(settings)@.get("hooks"@)->0.get(event) matches Some(JsonValue::Array(after)) && {
            &&& groups.len() <= after.len() <= groups.len() + 1
            &&& after.take(groups.len() as int) == groups
            &&& after.len() > groups.len() ==> is_own_group(after.last())
            &&& (exists|i: int| 0 <= i < groups.len() && is_ours(#[trigger] groups[i])) ==> after
                == groups
        },
{
    crate::setup_laws::law_setup_succeeds_on_right_shapes(old(settings)@);
    crate::setup_laws::law_setup_keeps_every_group(old(settings)@, event);
}

/// A pattern that is added stands last on the list of what is allowed, and all
/// other settings stay.
pub proof fn law_pattern_is_written(
    settings: Json,
    pattern: &str,
    r: Result<AddOutcome, AddError>,
    key: Seq<char>,
)
    requires
        call_ensures(write_allow_pattern, (settings, pattern), r),
    ensures
        r matches Ok(AddOutcome::Added(after)) ==> {
            &&& key != "permissions"@ ==> after@.get(key) == settings@.get(key)
            &&& after@.get("permissions"@) is Some
            &&& after@.get("permissions"@)->0.get("allow"@) matches Some(JsonValue::Array(items))
                && items.len() > 0 && items.last() == JsonValue::Str(pattern@)
        },
        settings@ == JsonValue::Object(Seq::empty()) ==> r is Ok && r->Ok_0 is Added,
{
    crate::permission::additions::laws::law_when_a_pattern_is_added(settings@, pattern@);
    if let Ok(AddOutcome::Added(after)) = r {
        crate::permission::additions::laws::law_adding_keeps_the_rest(settings@, pattern@, key);
    }
    if settings@ == JsonValue::Object(Seq::empty()) {
        crate::json_laws::law_members_of_an_object(settings@, "permissions"@, 0);
        assert(settings@.get("permissions"@) is None);
    }
}

/// A project's directory that an undo may touch is absolute, is not the root, and
/// is not the user's own.
pub proof fn law_undo_is_careful(
    root: &str,
    root_on_disk: Option<&str>,
    dir: &str,
    dir_on_disk: Option<&str>,
    r: Result<(), UndoError>,
)
    requires
        call_ensures(validate_audit_root, (root, root_on_disk, dir, dir_on_disk), r),
    ensures
        r is Ok ==> root@.len() > 0 && root@[0] == '/',
        r is Ok ==> root@ != seq!['/'],
        r is Ok && root_on_disk is Some && dir_on_disk is Some ==> !crate::paths::same_path(
            root_on_disk->0@,
            dir_on_disk->0@,
        ),
        root_on_disk is None && dir_on_disk is None && root@ == dir@ ==> r is Err,
{
    let name = seq!['a'];
    assert(name[0] == 'a' && seq!['.'][0] == '.');
    crate::permission::additions::laws::law_root_of_the_file_system(Seq::empty(), name);
}

// ---------------------------------------------------------------------------
// Clients, devices and the screen.

/// A client that asks for heartbeats gets them from then on, and one that does
/// not is told none.
pub proof fn law_client_line(
    line: &str,
    v: JsonValue,
    topics: &mut Subscriptions,
    r: CtrlStep,
)
    requires
        call_ensures(handle_command, (line, topics), r),
        json_text(line@) == Some(v),
        v is Object,
    ensures
        ({
            let cmd = v.get_str("cmd"@);
            &&& cmd is None ==> r is Silent
            &&& cmd == Some("status"@) ==> r is ReplyStatus
            &&& cmd == Some("permission"@) && v.get_str("id"@) is Some && v.get_str("decision"@)
                == Some("once"@) ==> (r matches CtrlStep::Decide { id, decision } && Some(id@)
                == v.get_str("id"@) && decision == WireDecision::Once)
            &&& cmd == Some("permission"@) && v.get_str("id"@) is Some && v.get_str("decision"@)
                == Some("deny"@) ==> (r matches CtrlStep::Decide { id, decision } && Some(id@)
                == v.get_str("id"@) && decision == WireDecision::Deny)
        }),
{
    crate::emit::laws::law_client_is_answered(v);
}

/// A device's decision is handed on as it was made.
pub proof fn law_device_line(line: &str, v: JsonValue, r: DeviceStep)
    requires
        call_ensures(handle_inbound, (line,), r),
        json_text(line@) == Some(v),
        v is Object,
    ensures
        ({
            let cmd = v.get_str("cmd"@);
            &&& cmd is None ==> r is Silent
            &&& cmd == Some("status"@) ==> r is ReplyStatus
            &&& cmd == Some("permission"@) && v.get_str("id"@) is Some && v.get_str("decision"@)
                == Some("once"@) ==> (r matches DeviceStep::Decide { id, decision } && Some(id@)
                == v.get_str("id"@) && decision == WireDecision::Once)
            &&& cmd == Some("permission"@) && v.get_str("id"@) is Some && v.get_str("decision"@)
                == Some("deny"@) ==> (r matches DeviceStep::Decide { id, decision } && Some(id@)
                == v.get_str("id"@) && decision == WireDecision::Deny)
        }),
{
    crate::emit::laws::law_device_is_answered(v);
}

/// A click on a prompt decides the call that it asks about, as its button says.
pub proof fn law_click_decides(
    state: &mut NotifyState,
    id: u32,
    action: &str,
    r: ClickOutcome,
    call: Seq<char>,
)
    requires
        call_ensures(NotifyState::handle_action, (state, id, action), r),
        lookup(old(state)@.active, id) is Some,
        lookup(old(state)@.active, id)->0.asks_about == Some(call),
    ensures
        action@ == "default"@ || action@ == "once"@ ==> (r
            matches ClickOutcome::Decide { tool_use_id, decision } && tool_use_id@ == call
            && decision == WireDecision::Once),
        action@ == "deny"@ ==> (r matches ClickOutcome::Decide { tool_use_id, decision }
            && tool_use_id@ == call && decision == WireDecision::Deny),
        action@ == "always"@ ==> (r matches ClickOutcome::Always { tool_use_id } && tool_use_id@
            == call),
{
    crate::emit::laws::law_click_means_its_button(old(state)@, id, call);
}

/// The page of the state is served on this machine alone, and under one name.
pub proof fn law_page_is_for_this_machine(
    addr: BindAddress,
    allowed: bool,
    method: &str,
    path: &str,
    reply: StateReply,
    to: crate::emit::http::Route,
    r: HttpReply,
)
    requires
        call_ensures(bind_allowed, (addr,), allowed),
        call_ensures(route, (method, path), to),
        call_ensures(handle, (to, &reply), r),
    ensures
        allowed ==> (addr matches BindAddress::V4 { a, b, c, d } ==> a == 127 && b == 0 && c == 0
            && d == 1),
        allowed ==> (addr matches BindAddress::V6 { high, low } ==> high == 0 && low == 1),
        addr == (BindAddress::V4 { a: 127, b: 0, c: 0, d: 1 }) ==> allowed,
        addr == (BindAddress::V6 { high: 0, low: 1 }) ==> allowed,
        method@ != "GET"@ || path@ != "/status"@ ==> r.status == 404,
        method@ == "GET"@ && path@ == "/status"@ ==> {
            &&& r.status == 200 <==> reply is Heartbeat
            &&& r.status == 503 <==> !(reply is Heartbeat)
        },
{
}

/// A line is too long beyond a mebibyte.
pub proof fn law_long_lines(line: &str, r: bool)
    requires
        call_ensures(line_too_long, (line,), r),
    ensures
        r <==> encode_utf8(line@).len() > 1_048_576,
{
}

/// The owner is the name in the version control's settings, or else the user's,
/// or else unknown.
pub proof fn law_owner(git: Option<&str>, user: Option<&str>, r: String)
    requires
        call_ensures(resolve_owner, (git, user), r),
    ensures
        git is Some && is_tight(git->0@) && git->0@.len() > 0 ==> r@ == git->0@,
        git is None && user is Some && user->0@.len() > 0 ==> r@ == user->0@,
        git is None && user is None ==> r@ == "unknown"@,
{
    if let Some(name) = git {
        if is_tight(name@) {
            crate::text::lemma_trim_idle(name@);
        }
    }
}

/// A device is used if it is paired and offers the service, and gets one session,
/// unless it is switched off.
pub proof fn law_device_is_used(
    paired: bool,
    uuids: Vec<u128>,
    service: u128,
    used: bool,
    device: crate::config::BleDeviceOverride,
    has_session: bool,
    starts: bool,
)
    requires
        call_ensures(matches_service, (paired, Some(&uuids), service), used),
        call_ensures(starts_session, (Some(&device), has_session), starts),
    ensures
        used <==> paired && uuids@.contains(service),
        starts <==> !has_session && !device.disabled,
{
}

// ---------------------------------------------------------------------------
// Configuration and the command line.

/// Without a file the defaults hold.
pub proof fn law_no_file_no_change(r: Result<Config, ConfigError>)
    requires
        call_ensures(Config::load_from, (None::<&str>,), r),
    ensures
        r matches Ok(c) && {
            &&& c.approvals.timeout_ms == 30_000
            &&& c.approvals.fallback == Fallback::Passthrough
            &&& c.emit.notify.enabled
            &&& c.emit.ctrl.enabled
            &&& !c.emit.ctrl.allow_simulate
            &&& !c.emit.http.enabled
            &&& c.emit.http.addr@ == "127.0.0.1:9876"@
            &&& !c.emit.ble.enabled
            &&& c.tokens.state_path is None
        },
{
}

/// Times are configured in milliseconds; a turn that is not to be told has no
/// grace.
pub proof fn law_times_are_in_milliseconds(
    a: Approvals,
    t: TurnDoneConfig,
    timeout: std::time::Duration,
    grace: std::time::Duration,
)
    requires
        call_ensures(Approvals::timeout, (&a,), timeout),
        call_ensures(TurnDoneConfig::idle_grace, (&t,), grace),
    ensures
        nanos(timeout) == a.timeout_ms * 1_000_000,
        t.enabled ==> nanos(grace) == t.idle_grace_ms * 1_000_000,
        !t.enabled ==> nanos(grace) == 0,
{
}

/// The first argument names the task.
pub proof fn law_task_of_the_argument(arg: &str, r: Subcommand, without: Subcommand)
    requires
        call_ensures(subcommand, (Some(arg),), r),
        call_ensures(subcommand, (None::<&str>,), without),
    ensures
        without is Daemon,
        arg@ == "setup"@ <==> r is Setup,
        arg@ == "undo-last-allow"@ <==> r is UndoLastAllow,
        !(r is Daemon),
{
    reveal_strlit("setup");
    reveal_strlit("undo-last-allow");
    assert("setup"@.len() == 5 && "undo-last-allow"@.len() == 15);
}

/// A sign of life comes twice in the time that is waited for one.
pub proof fn law_signs_of_life(usec: u64, on: Option<u64>, off: Option<u64>)
    requires
        call_ensures(watchdog_interval, (true, usec), on),
        call_ensures(watchdog_interval, (false, usec), off),
    ensures
        off is None,
        usec == 0 ==> on is None,
        usec > 0 ==> on is Some && 2 * on->0 <= usec < 2 * on->0 + 2,
{
}

// ---------------------------------------------------------------------------
// Messages to the state.

/// A decision that is sent to the state reaches the call that waits for it.
pub proof fn law_decision_message(
    state: &mut Aggregator,
    tool_use_id: String,
    decision: WireDecision,
    r: Reaction,
)
    requires
        call_ensures(
            Aggregator::apply,
            (state, AggregatorMsg::PermissionDecision { tool_use_id, decision }),
            r,
        ),
    ensures
        lookup(old(state)@.pending, tool_use_id@) is Some ==> {
            &&& r.fire == Some(decision)
            &&& r.result == Some(PermissionDecisionResult::Applied)
            &&& r.broadcast
        },
        lookup(old(state)@.pending, tool_use_id@) is None ==> {
            &&& r.fire is None
            &&& r.result == Some(PermissionDecisionResult::UnknownId)
            &&& !r.broadcast
        },
        r.write is None && r.heartbeat is None && r.turn_done is None && r.outcome is None,
{
}

/// A heartbeat that is asked for is that of the state.
pub proof fn law_heartbeat_message(state: &mut Aggregator, r: Reaction)
    requires
        call_ensures(Aggregator::apply, (state, AggregatorMsg::GetHeartbeat), r),
        old(state)@.sessions.len() <= u32::MAX,
    ensures
        final(state)@ == old(state)@,
        !r.broadcast,
        r.fire is None,
        r.heartbeat matches Some(h) && {
            &&& h.total == old(state)@.sessions.len()
            &&& h.running == old(state)@.sessions.filter(
                |p: (Seq<char>, SessionValue)| p.1.running,
            ).len()
            &&& h.waiting == old(state)@.sessions.filter(
                |p: (Seq<char>, SessionValue)| p.1.waiting,
            ).len()
        },
{
    crate::state::report_laws::law_heartbeat_counts(old(state)@);
}

/// An approval for good hands on that the call may go, and its pattern for its
/// directory; a call without a pattern of its own may not go.
pub proof fn law_always_message(state: &mut Aggregator, tool_use_id: String, r: Reaction)
    requires
        call_ensures(Aggregator::apply, (state, AggregatorMsg::AllowlistAlways { tool_use_id }), r),
    ensures
        lookup(old(state)@.pending, tool_use_id@) is None ==> r.fire is None && r.write is None,
        lookup(old(state)@.pending, tool_use_id@) matches Some(p) ==> {
            let pattern = derived_text(p.call.tool_name, p.call.tool_input);
            &&& pattern is None ==> r.fire == Some(WireDecision::Deny) && r.write is None
            &&& pattern is Some ==> r.fire == Some(WireDecision::Once) && (r.write matches Some(w)
                && w.pattern@ == pattern->0 && w.cwd@ == p.call.cwd && w.metadata.tool_use_id@
                == tool_use_id@ && w.metadata.session_id@ == p.call.session_id)
            &&& r.broadcast
        },
{
}

/// A hook event that is sent to the state is answered by its outcome, and opens a
/// gate only if it is a stop.
pub proof fn law_event_message(
    state: &mut Aggregator,
    event: HookEvent,
    allowlist: Allowlist,
    r: Reaction,
)
    requires
        call_ensures(
            Aggregator::apply,
            (state, AggregatorMsg::HookEvent { event, allowlist }),
            r,
        ),
    ensures
        r.outcome is Some,
        !(event is PreToolUse) ==> r.outcome == Some(
            HookOutcome::Immediate(HookResponse::Passthrough),
        ),
        !(event is Stop) ==> r.gate is None,
        event is SessionStart || event is SessionEnd || event is PostToolUse || event is Stop
            || event is Notification || event is UserPromptSubmit ==> r.broadcast,
        event is Unknown ==> !r.broadcast && final(state)@ == old(state)@,
        event matches HookEvent::Stop(e) ==> (r.gate is Some <==> nanos(old(state)@.grace) > 0) && (
        r.gate matches Some(g) ==> g.session_id@ == e.base.session_id@ && g.snapshot.cwd@
            == e.base.cwd@ && g.snapshot.tokens_cumulative == old(state)@.cumulative && g.grace
            == old(state)@.grace),
        r.fire is None && r.write is None && r.result is None && r.heartbeat is None,
{
    if let HookEvent::Stop(e) = event {
        crate::state::report_laws::law_stop_opens_the_gate(old(state)@, e, allowlist@);
    }
}

/// What a call gets as its own pattern is that of its tool and its argument, or
/// none.
pub proof fn law_pattern_of_a_call(event: PreToolUseEvent, r: DerivedPattern, command: Seq<char>)
    requires
        call_ensures(derive_pattern, (&event,), r),
        event.tool_name@ == "Bash"@,
        event.tool_input@.get_str("command"@) == Some(command),
    ensures
        is_tight(command) && (command.len() < 2 || command[command.len() - 2] != ':'
            || command.last() != '*') ==> (r matches DerivedPattern::Specific(s) && s@
            == call_text("Bash"@, command)),
        !is_tight(command) ==> r is BareToolNeedsConfirmation,
{
    crate::permission::additions::laws::law_pattern_for_a_command(event.tool_input@);
}

/// A finished turn is shown without buttons, with normal urgency, as long as is
/// configured, and in the place of what its session shows.
pub proof fn law_finished_turn_is_shown(
    state: NotifyState,
    evt: TurnDoneEvent,
    tokens: u64,
    expire_ms: i32,
    home: &str,
    names: AgentNames,
    r: TurnDonePost,
)
    requires
        call_ensures(
            NotifyState::handle_turn_done,
            (&state, &evt, tokens, expire_ms, home, &names),
            r,
        ),
    ensures
        r.session_id@ == evt.session_id@,
        r.actions@.len() == 0,
        r.urgency == 1,
        r.expire_ms == expire_ms,
        lookup(state@.session_notif, evt.session_id@) matches Some(id) ==> r.replaces_id == id,
        lookup(state@.session_notif, evt.session_id@) is None ==> r.replaces_id == 0,
        evt.cwd@.len() == 0 ==> r.summary@ == names.product@ + ": done"@,
{
}

/// The last addition that stands is the one that an undo finds.
pub proof fn law_undo_finds_the_last_addition(log: &str, r: Result<AuditEntry, UndoError>)
    requires
        call_ensures(find_addition, (Some(log),), r),
    ensures
        r matches Ok(e) ==> e.op@ == "added"@ && !(e.target@ is Unknown),
        log_entries(log@).len() == 0 ==> r == Err::<AuditEntry, UndoError>(UndoError::NothingToUndo),
{
    if let Ok(e) = r {
        let i = choose|i: int| #[trigger]
            last_standing(log_entries(log@), i) && log_entries(log@)[i] == e@;
        assert(stands(log_entries(log@), i));
    }
}

/// An undo saves the settings without the pattern if it was there, and saves
/// nothing if it was not or if there is no file.
pub proof fn law_undo_takes_the_pattern_out(
    entry: AuditEntry,
    file: &str,
    settings: Option<Json>,
    r: (UndoOutcome, Option<Json>),
)
    requires
        call_ensures(undo_last_allow, (&entry, file, settings), r),
    ensures
        settings is None ==> r.0 is FileMissing && r.1 is None,
        settings matches Some(s) ==> {
            let permissions = s@.get("permissions"@);
            let listed = permissions is Some && permissions->0.get("allow"@) is Some
                && permissions->0.get("allow"@)->0 is Array && permissions->0.get(
                "allow"@,
            )->0->Array_0.contains(JsonValue::Str(entry.pattern@));
            &&& listed ==> r.0 is Removed && r.1 is Some
            &&& !listed ==> r.0 is AlreadyGone && r.1 is None
        },
{
    if let Some(s) = settings {
        crate::permission::additions::laws::law_removing_keeps_the_rest(
            s@,
            entry.pattern@,
            Seq::empty(),
        );
    }
}

/// A call that a deny entry surely means is refused at once, with the first such
/// entry as the reason; one that an allow entry surely means, and no deny entry
/// may mean, is allowed at once.
pub proof fn law_lists_lead_to_the_outcome(
    state: &mut Aggregator,
    e: PreToolUseEvent,
    lists: Allowlist,
    step: HookStep,
    i: int,
)
    requires
        call_ensures(
            Aggregator::handle_hook_event,
            (state, HookEvent::PreToolUse(e), &lists),
            step,
        ),
        is_asking(e.permission_mode),
    ensures
        is_first(lists@.deny, e.tool_name@, e.tool_input@, MatchResult::Confident, i) ==> (
        step.outcome matches HookOutcome::Immediate(HookResponse::HardDeny { reason }) && reason@
            == "permissions.deny: "@ + raw_of(lists@.deny[i])),
        none_is(lists@.deny, e.tool_name@, e.tool_input@, MatchResult::Confident) && none_is(
            lists@.deny,
            e.tool_name@,
            e.tool_input@,
            MatchResult::Ambiguous,
        ) && is_first(lists@.allow, e.tool_name@, e.tool_input@, MatchResult::Confident, i)
            ==> step.outcome == HookOutcome::Immediate(
            HookResponse::PermissionDecision(WireDecision::Once),
        ),
{
    crate::permission::laws::law_lists_decide_in_order(
        e.permission_mode,
        e.tool_name@,
        e.tool_input@,
        lists@,
        i,
    );
}

} // verus!
