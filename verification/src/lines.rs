//! Messages as lines: one JSON document and a line feed.

use vstd::prelude::*;
use crate::json::{
    is_canonical, is_shallow, lemma_fields_printable, lemma_items_printable, opt_str, present, Json,
    JsonValue,
};
use crate::outside::{json_print, json_text, print_json, MAX_DEPTH};
use crate::proto::buddy::{
    heartbeat_json, owner_fields, owner_json, prompt_json, source_json, status_json, time_fields,
    time_json, Heartbeat, OwnerMessage, PromptInfo, StatusAck, TimeSync,
};
use crate::proto::ctrl::{ack_json, hello_fields, hello_json, int_json, Ack, HelloMessage};
use crate::proto::hook::{output_fields, response_json, PreToolUseResponse};
use crate::text::{join2, trim_end_char, trim_end_char_of};

verus! {

/// The line of a document.
pub open spec fn line_of(doc: JsonValue) -> Seq<char> {
    json_print(doc).push('\n')
}

fn canonical_line(doc: &Json) -> (r: String)
    requires
        is_canonical(doc@),
    ensures
        r@ == line_of(doc@),
        !r@.drop_last().contains('\n'),
        is_shallow(doc@, MAX_DEPTH as nat) ==> json_text(r@.drop_last()) == Some(doc@),
{
    let text = print_json(doc);
    proof {
        reveal_strlit("\n");
        assert(text@ + "\n"@ =~= text@.push('\n'));
        assert(text@.push('\n').drop_last() =~= text@);
    }
    join2(text.as_str(), "\n")
}

/// What a line holds: the text before its line feed and carriage returns.
pub open spec fn line_content(line: Seq<char>) -> Seq<char> {
    trim_end_char_of(trim_end_char_of(line, '\n'), '\r')
}

/// What a line holds.
pub fn strip_line<'a>(line: &'a str) -> (r: &'a str)
    ensures
        r@ == line_content(line@),
{
    trim_end_char(trim_end_char(line, '\n'), '\r')
}

proof fn lemma_ack(a: Ack)
    ensures
        is_canonical(ack_json(a)),
        is_shallow(ack_json(a), MAX_DEPTH as nat),
{
    reveal_strlit("ack");
    reveal_strlit("ok");
    reveal_strlit("error");
    assert("ack"@.len() == 3 && "ok"@.len() == 2 && "error"@.len() == 5);
    let f = seq![
        ("ack"@, Some(JsonValue::Str(a.ack@))),
        ("ok"@, Some(JsonValue::Bool(a.ok))),
        ("error"@, opt_str(a.error)),
    ];
    assert(f[0].0 == "ack"@ && f[1].0 == "ok"@ && f[2].0 == "error"@);
    lemma_fields_printable(f, (MAX_DEPTH - 1) as nat);
}

/// The line of a reply.
pub fn ack_line(a: &Ack) -> (r: String)
    ensures
        r@ == line_of(ack_json(*a)),
        json_text(r@.drop_last()) == Some(ack_json(*a)),
{
    proof {
        lemma_ack(*a);
    }
    canonical_line(&a.to_json())
}

proof fn lemma_status(s: StatusAck)
    ensures
        is_canonical(status_json(s)),
        is_shallow(status_json(s), MAX_DEPTH as nat),
{
    reveal_strlit("ack");
    reveal_strlit("ok");
    reveal_strlit("data");
    assert("ack"@.len() == 3 && "ok"@.len() == 2 && "data"@.len() == 4);
    let inner = seq![("name"@, opt_str(s.name))];
    lemma_fields_printable(inner, (MAX_DEPTH - 2) as nat);
    let f = seq![
        ("ack"@, Some(JsonValue::Str(s.ack@))),
        ("ok"@, Some(JsonValue::Bool(s.ok))),
        ("data"@, Some(JsonValue::Object(present(inner)))),
    ];
    assert(f[0].0 == "ack"@ && f[1].0 == "ok"@ && f[2].0 == "data"@);
    lemma_fields_printable(f, (MAX_DEPTH - 1) as nat);
}

/// The line of a status reply.
pub fn status_line(s: &StatusAck) -> (r: String)
    ensures
        r@ == line_of(status_json(*s)),
        json_text(r@.drop_last()) == Some(status_json(*s)),
{
    proof {
        lemma_status(*s);
    }
    canonical_line(&s.to_json())
}

proof fn lemma_hello(m: HelloMessage)
    ensures
        is_canonical(hello_json(m)),
        is_shallow(hello_json(m), MAX_DEPTH as nat),
{
    reveal_strlit("version");
    reveal_strlit("owner");
    reveal_strlit("time");
    assert("version"@.len() == 7 && "owner"@.len() == 5 && "time"@.len() == 4);
    let f = hello_fields(m.hello);
    assert(f[0].0 == "version"@ && f[1].0 == "owner"@ && f[2].0 == "time"@);
    let time = seq![int_json(m.hello.time.0 as int), int_json(m.hello.time.1 as int)];
    assert(is_canonical(time[0]) && is_canonical(time[1]));
    assert(is_canonical(JsonValue::Array(time)));
    assert(is_shallow(time[0], (MAX_DEPTH - 3) as nat) && is_shallow(time[1], (MAX_DEPTH - 3) as nat));
    assert(is_shallow(JsonValue::Array(time), (MAX_DEPTH - 2) as nat));
    lemma_fields_printable(f, (MAX_DEPTH - 2) as nat);
    let outer = seq![("hello"@, Some(JsonValue::Object(present(f))))];
    lemma_fields_printable(outer, (MAX_DEPTH - 1) as nat);
}

/// The line of a greeting.
pub fn hello_line(m: &HelloMessage) -> (r: String)
    ensures
        r@ == line_of(hello_json(*m)),
        json_text(r@.drop_last()) == Some(hello_json(*m)),
{
    proof {
        lemma_hello(*m);
    }
    canonical_line(&m.to_json())
}

proof fn lemma_owner(m: OwnerMessage)
    ensures
        is_canonical(owner_json(m)),
        is_shallow(owner_json(m), MAX_DEPTH as nat),
{
    reveal_strlit("cmd");
    reveal_strlit("name");
    assert("cmd"@.len() == 3 && "name"@.len() == 4);
    let f = owner_fields(m.name@);
    assert(f[0].0 == "cmd"@ && f[1].0 == "name"@);
    lemma_fields_printable(f, (MAX_DEPTH - 1) as nat);
}

/// The line that tells a device whose bridge it is.
pub fn owner_line(m: &OwnerMessage) -> (r: String)
    ensures
        r@ == line_of(owner_json(*m)),
        json_text(r@.drop_last()) == Some(owner_json(*m)),
{
    proof {
        lemma_owner(*m);
    }
    canonical_line(&m.to_json())
}

proof fn lemma_time(m: TimeSync)
    ensures
        is_canonical(time_json(m)),
        is_shallow(time_json(m), MAX_DEPTH as nat),
{
    let time = seq![int_json(m.time.0 as int), int_json(m.time.1 as int)];
    assert(is_canonical(time[0]) && is_canonical(time[1]));
    assert(is_canonical(JsonValue::Array(time)));
    assert(is_shallow(time[0], (MAX_DEPTH - 2) as nat) && is_shallow(time[1], (MAX_DEPTH - 2) as nat));
    assert(is_shallow(JsonValue::Array(time), (MAX_DEPTH - 1) as nat));
    lemma_fields_printable(time_fields(m.time.0, m.time.1), (MAX_DEPTH - 1) as nat);
}

/// The line that tells a device the time.
pub fn time_line(m: &TimeSync) -> (r: String)
    ensures
        r@ == line_of(time_json(*m)),
        json_text(r@.drop_last()) == Some(time_json(*m)),
{
    proof {
        lemma_time(*m);
    }
    canonical_line(&m.to_json())
}

proof fn lemma_prompt(p: PromptInfo)
    ensures
        is_canonical(prompt_json(p)),
        is_shallow(prompt_json(p), (MAX_DEPTH - 2) as nat),
{
    reveal_strlit("id");
    reveal_strlit("tool");
    reveal_strlit("hint");
    reveal_strlit("matched_pattern");
    reveal_strlit("matched_source");
    reveal_strlit("session_id");
    reveal_strlit("cwd");
    reveal_strlit("agent_type");
    assert("id"@.len() == 2 && "tool"@.len() == 4 && "tool"@[0] == 't' && "hint"@.len() == 4
        && "hint"@[0] == 'h' && "matched_pattern"@.len() == 15 && "matched_source"@.len() == 14
        && "session_id"@.len() == 10 && "session_id"@[0] == 's' && "cwd"@.len() == 3
        && "agent_type"@.len() == 10 && "agent_type"@[0] == 'a');
    let f = seq![
        ("id"@, Some(JsonValue::Str(p.id@))),
        ("tool"@, Some(JsonValue::Str(p.tool@))),
        ("hint"@, Some(JsonValue::Str(p.hint@))),
        ("matched_pattern"@, opt_str(p.matched_pattern)),
        ("matched_source"@, source_json(p.matched_source)),
        ("session_id"@, opt_str(p.session_id)),
        ("cwd"@, opt_str(p.cwd)),
        ("agent_type"@, opt_str(p.agent_type)),
    ];
    assert(f[0].0 == "id"@ && f[1].0 == "tool"@ && f[2].0 == "hint"@ && f[3].0 == "matched_pattern"@
        && f[4].0 == "matched_source"@ && f[5].0 == "session_id"@ && f[6].0 == "cwd"@ && f[7].0
        == "agent_type"@);
    lemma_fields_printable(f, (MAX_DEPTH - 3) as nat);
}

proof fn lemma_heartbeat(h: Heartbeat)
    ensures
        is_canonical(heartbeat_json(h)),
        is_shallow(heartbeat_json(h), MAX_DEPTH as nat),
{
    reveal_strlit("total");
    reveal_strlit("running");
    reveal_strlit("waiting");
    reveal_strlit("msg");
    reveal_strlit("entries");
    reveal_strlit("tokens");
    reveal_strlit("tokens_today");
    reveal_strlit("prompts");
    assert("total"@.len() == 5 && "running"@.len() == 7 && "running"@[0] == 'r' && "waiting"@.len() == 7
        && "waiting"@[0] == 'w' && "msg"@.len() == 3 && "entries"@.len() == 7 && "entries"@[0] == 'e'
        && "tokens"@.len() == 6 && "tokens_today"@.len() == 12 && "prompts"@.len() == 7
        && "prompts"@[0] == 'p');
    let entries = h.entries@.map_values(|t: String| JsonValue::Str(t@));
    let prompts = h.prompts@.map_values(|p: PromptInfo| prompt_json(p));
    assert forall|i: int| 0 <= i < prompts.len() implies is_canonical(#[trigger] prompts[i])
        && is_shallow(prompts[i], (MAX_DEPTH - 2) as nat) by {
        lemma_prompt(h.prompts@[i]);
    }
    lemma_items_printable(entries, (MAX_DEPTH - 2) as nat);
    lemma_items_printable(prompts, (MAX_DEPTH - 2) as nat);
    let f = seq![
        ("total"@, Some(JsonValue::Unsigned(h.total as u64))),
        ("running"@, Some(JsonValue::Unsigned(h.running as u64))),
        ("waiting"@, Some(JsonValue::Unsigned(h.waiting as u64))),
        ("msg"@, Some(JsonValue::Str(h.msg@))),
        ("entries"@, Some(JsonValue::Array(entries))),
        ("tokens"@, Some(JsonValue::Unsigned(h.tokens))),
        ("tokens_today"@, Some(JsonValue::Unsigned(h.tokens_today))),
        ("prompts"@, Some(JsonValue::Array(prompts))),
    ];
    assert(f[0].0 == "total"@ && f[1].0 == "running"@ && f[2].0 == "waiting"@ && f[3].0 == "msg"@
        && f[4].0 == "entries"@ && f[5].0 == "tokens"@ && f[6].0 == "tokens_today"@ && f[7].0
        == "prompts"@);
    lemma_fields_printable(f, (MAX_DEPTH - 1) as nat);
}

/// The text of a heartbeat.
pub fn heartbeat_text(h: &Heartbeat) -> (r: String)
    ensures
        r@ == json_print(heartbeat_json(*h)),
        json_text(r@) == Some(heartbeat_json(*h)),
{
    proof {
        lemma_heartbeat(*h);
    }
    print_json(&h.to_json())
}

/// The line of a heartbeat.
pub fn heartbeat_line(h: &Heartbeat) -> (r: String)
    ensures
        r@ == line_of(heartbeat_json(*h)),
        json_text(r@.drop_last()) == Some(heartbeat_json(*h)),
{
    proof {
        lemma_heartbeat(*h);
    }
    canonical_line(&h.to_json())
}

proof fn lemma_response(p: PreToolUseResponse)
    requires
        p.hook_specific_output.updated_input matches Some(input) ==> is_canonical(input@),
    ensures
        is_canonical(response_json(p)),
        p.hook_specific_output.updated_input is None ==> is_shallow(
            response_json(p),
            MAX_DEPTH as nat,
        ),
{
    reveal_strlit("hookEventName");
    reveal_strlit("permissionDecision");
    reveal_strlit("permissionDecisionReason");
    reveal_strlit("updatedInput");
    reveal_strlit("additionalContext");
    assert("hookEventName"@.len() == 13 && "permissionDecision"@.len() == 18
        && "permissionDecisionReason"@.len() == 24 && "updatedInput"@.len() == 12
        && "additionalContext"@.len() == 17);
    let f = output_fields(p.hook_specific_output);
    assert(f[0].0 == "hookEventName"@ && f[1].0 == "permissionDecision"@ && f[2].0
        == "permissionDecisionReason"@ && f[3].0 == "updatedInput"@ && f[4].0 == "additionalContext"@);
    lemma_fields_printable(f, (MAX_DEPTH - 2) as nat);
    let outer = seq![("hookSpecificOutput"@, Some(JsonValue::Object(present(f))))];
    lemma_fields_printable(outer, (MAX_DEPTH - 1) as nat);
}

/// The line of an answer to a tool call.
pub fn response_line(p: &PreToolUseResponse) -> (r: String)
    requires
        p.hook_specific_output.updated_input matches Some(input) ==> is_canonical(input@),
    ensures
        r@ == line_of(response_json(*p)),
        p.hook_specific_output.updated_input is None || is_shallow(
            response_json(*p),
            MAX_DEPTH as nat,
        ) ==> json_text(r@.drop_last()) == Some(response_json(*p)),
{
    proof {
        lemma_response(*p);
    }
    canonical_line(&p.to_json())
}

} // verus!
