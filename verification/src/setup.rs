//! Registering the hook command in a settings file, and the report of a setup.

use vstd::prelude::*;
use crate::assoc::{index_of, lemma_index_of, lemma_put, lookup, put};
use crate::json::{
    is_canonical, is_shallow, json_items, json_members, lemma_array_view, lemma_object_view,
    member_position, put_member, take_value, Json, JsonValue,
};
use crate::json_order::{lemma_sorted_printable, sorted, sorted_value};
use crate::outside::{json_print_pretty, json_text, parse_json, print_json_pretty, MAX_DEPTH};
use crate::paths::{join_path, joined};
use crate::text::{join2, join3, str_eq, texts_of};

verus! {

/// The command that is registered.
pub open spec fn hook_command() -> Seq<char> {
    "ccbridge-hook"@
}

/// The events that the command is registered for.
pub open spec fn hook_events() -> Seq<Seq<char>> {
    seq![
        "PreToolUse"@,
        "PostToolUse"@,
        "UserPromptSubmit"@,
        "Notification"@,
        "Stop"@,
        "SessionStart"@,
        "SessionEnd"@,
    ]
}

/// How many events there are.
pub const HOOK_EVENT_COUNT: usize = 7;

/// The event at a position.
pub fn hook_event(i: usize) -> (r: &'static str)
    requires
        i < HOOK_EVENT_COUNT,
    ensures
        r@ == hook_events()[i as int],
{
    match i {
        0 => "PreToolUse",
        1 => "PostToolUse",
        2 => "UserPromptSubmit",
        3 => "Notification",
        4 => "Stop",
        5 => "SessionStart",
        _ => "SessionEnd",
    }
}

/// What was done for one event.
#[derive(Debug, Clone, Copy, PartialEq, Eq, Structural)]
pub enum HookAction {
    Added,
    AlreadyPresent,
}

#[derive(Debug, Clone, Copy, PartialEq, Eq)]
pub struct HookMergeResult {
    pub event: &'static str,
    pub action: HookAction,
}

/// A part of a settings document has a shape that cannot be changed safely.
#[derive(Debug, Clone, PartialEq, Eq)]
pub struct ShapeError {
    /// The place, such as `.hooks` or `.permissions.allow`; empty for the root.
    pub at: String,
    pub expected: &'static str,
    pub got: &'static str,
}

/// The name of a value's type.
pub open spec fn kind_name(v: JsonValue) -> Seq<char> {
    match v {
        JsonValue::Null => "null"@,
        JsonValue::Bool(_) => "boolean"@,
        JsonValue::Unsigned(_) => "number"@,
        JsonValue::Negative(_) => "number"@,
        JsonValue::Decimal(_) => "number"@,
        JsonValue::Str(_) => "string"@,
        JsonValue::Array(_) => "array"@,
        JsonValue::Object(_) => "object"@,
    }
}

pub fn json_type_name(v: &Json) -> (r: &'static str)
    ensures
        r@ == kind_name(v@),
{
    match v {
        Json::Null => "null",
        Json::Bool(_) => "boolean",
        Json::Unsigned(_) => "number",
        Json::Negative(_) => "number",
        Json::Decimal(_) => "number",
        Json::Str(_) => "string",
        Json::Array(_) => "array",
        Json::Object(_) => "object",
    }
}

impl ShapeError {
    pub open spec fn is(self, at: Seq<char>, expected: Seq<char>, got: Seq<char>) -> bool {
        self.at@ == at && self.expected@ == expected && self.got@ == got
    }

    /// The error as the setup command reports it.
    pub fn message(&self, agent_dir: &str) -> (r: String)
        ensures
            r@ == "~/"@ + agent_dir@ + "/settings.json has an unexpected shape at "@ + self.at@ + " (expected "@
                + self.expected@ + ", got "@ + self.got@
                + ") — please clean it up manually before running setup, or rename the file to start fresh"@,
    {
        let mut r = join3("~/", agent_dir, "/settings.json has an unexpected shape at ");
        r.append(self.at.as_str());
        r.append(" (expected ");
        r.append(self.expected);
        r.append(", got ");
        r.append(self.got);
        r.append(
            ") — please clean it up manually before running setup, or rename the file to start fresh",
        );
        r
    }
}

// ---------------------------------------------------------------------------
// Merging.

/// Whether a hook entry runs the command.
pub open spec fn runs_command(entry: JsonValue) -> bool {
    entry.get_str("command"@) == Some(hook_command())
}

pub open spec fn some_entry_runs(entries: Seq<JsonValue>) -> bool {
    exists|i: int| 0 <= i < entries.len() && runs_command(#[trigger] entries[i])
}

/// Whether a hook group has an entry that runs the command.
pub open spec fn group_runs_command(group: JsonValue) -> bool {
    match group.get("hooks"@) {
        Some(JsonValue::Array(entries)) => some_entry_runs(entries),
        _ => false,
    }
}

pub open spec fn some_group_runs(groups: Seq<JsonValue>) -> bool {
    exists|i: int| 0 <= i < groups.len() && group_runs_command(#[trigger] groups[i])
}

/// The group that is added.
pub open spec fn own_group() -> JsonValue {
    JsonValue::Object(
        seq![
            (
                "hooks"@,
                JsonValue::Array(
                    seq![
                        JsonValue::Object(
                            seq![
                                ("type"@, JsonValue::Str("command"@)),
                                ("command"@, JsonValue::Str(hook_command())),
                            ],
                        ),
                    ],
                ),
            ),
        ],
    )
}

/// The groups of an event, if they have the right shape; null counts as absent.
pub open spec fn groups_of(members: Seq<(Seq<char>, JsonValue)>, event: Seq<char>) -> Option<
    Seq<JsonValue>,
> {
    match lookup(members, event) {
        None => Some(Seq::empty()),
        Some(JsonValue::Null) => Some(Seq::empty()),
        Some(JsonValue::Array(groups)) => Some(groups),
        Some(_) => None,
    }
}

pub open spec fn action_for(groups: Seq<JsonValue>) -> HookAction {
    if some_group_runs(groups) {
        HookAction::AlreadyPresent
    } else {
        HookAction::Added
    }
}

/// The hooks with the command registered for one event.
pub open spec fn with_event(
    members: Seq<(Seq<char>, JsonValue)>,
    event: Seq<char>,
    groups: Seq<JsonValue>,
) -> Seq<(Seq<char>, JsonValue)> {
    put(
        members,
        event,
        JsonValue::Array(
            if some_group_runs(groups) {
                groups
            } else {
                groups.push(own_group())
            },
        ),
    )
}

/// The hooks after merging, what was done for each event, and the event whose
/// groups have a wrong shape. Merging stops there.
#[verifier::ext_equal]
pub struct Merged {
    pub members: Seq<(Seq<char>, JsonValue)>,
    pub actions: Seq<HookAction>,
    pub stopped_at: Option<Seq<char>>,
}

pub open spec fn merged(members: Seq<(Seq<char>, JsonValue)>, events: Seq<Seq<char>>) -> Merged
    decreases events.len(),
{
    if events.len() == 0 {
        Merged { members, actions: Seq::empty(), stopped_at: None }
    } else {
        match groups_of(members, events[0]) {
            None => Merged { members, actions: Seq::empty(), stopped_at: Some(events[0]) },
            Some(groups) => {
                let rest = merged(
                    with_event(members, events[0], groups),
                    events.subrange(1, events.len() as int),
                );
                Merged { actions: seq![action_for(groups)] + rest.actions, ..rest }
            },
        }
    }
}

/// The members of a settings document; a document that is no object counts as
/// empty.
pub open spec fn root_members(settings: JsonValue) -> Seq<(Seq<char>, JsonValue)> {
    match settings {
        JsonValue::Object(members) => members,
        _ => Seq::empty(),
    }
}

/// The hooks of a settings document, if they have the right shape; null counts
/// as absent.
pub open spec fn hooks_of(settings: JsonValue) -> Option<Seq<(Seq<char>, JsonValue)>> {
    match lookup(root_members(settings), "hooks"@) {
        None => Some(Seq::empty()),
        Some(JsonValue::Null) => Some(Seq::empty()),
        Some(JsonValue::Object(hooks)) => Some(hooks),
        Some(_) => None,
    }
}

/// A settings document with these hooks.
pub open spec fn with_hooks(settings: JsonValue, hooks: Seq<(Seq<char>, JsonValue)>) -> JsonValue {
    JsonValue::Object(put(root_members(settings), "hooks"@, JsonValue::Object(hooks)))
}

/// Whether a merge result reports these actions for all events, in order.
pub open spec fn reports(results: Seq<HookMergeResult>, actions: Seq<HookAction>) -> bool {
    &&& results.len() == actions.len()
    &&& forall|i: int|
        0 <= i < results.len() ==> (#[trigger] results[i]).action == actions[i]
            && results[i].event@ == hook_events()[i]
}

fn group_has_ccbridge_hook(group: &Json) -> (r: bool)
    ensures
        r == group_runs_command(group@),
{
    match group.get("hooks") {
        Some(Json::Array(entries)) => {
            proof {
                lemma_array_view(*entries);
            }
            let ghost all = json_items(entries@);
            let mut i: usize = 0;
            while i < entries.len()
                invariant
                    i <= entries@.len(),
                    all == json_items(entries@),
                    group@.get("hooks"@) == Some(JsonValue::Array(all)),
                    forall|j: int| 0 <= j < i ==> !runs_command(#[trigger] all[j]),
                decreases entries@.len() - i,
            {
                assert(all[i as int] == entries@[i as int]@);
                let runs = match entries[i].get_str("command") {
                    Some(command) => str_eq(command, "ccbridge-hook"),
                    None => false,
                };
                if runs {
                    assert(runs_command(all[i as int]));
                    assert(some_entry_runs(all));
                    return true;
                }
                i = i + 1;
            }
            false
        },
        _ => false,
    }
}

fn any_group_runs(groups: &Vec<Json>) -> (r: bool)
    ensures
        r == some_group_runs(json_items(groups@)),
{
    let ghost all = json_items(groups@);
    let mut i: usize = 0;
    while i < groups.len()
        invariant
            i <= groups@.len(),
            all == json_items(groups@),
            forall|j: int| 0 <= j < i ==> !group_runs_command(#[trigger] all[j]),
        decreases groups@.len() - i,
    {
        assert(all[i as int] == groups@[i as int]@);
        if group_has_ccbridge_hook(&groups[i]) {
            return true;
        }
        i = i + 1;
    }
    false
}

fn make_own_group() -> (r: Json)
    ensures
        r@ == own_group(),
{
    let mut entry: Vec<(String, Json)> = Vec::new();
    entry.push(("type".to_owned(), Json::Str("command".to_owned())));
    entry.push(("command".to_owned(), Json::Str("ccbridge-hook".to_owned())));
    proof {
        lemma_object_view(entry);
        assert(json_members(entry@) =~= seq![
            ("type"@, JsonValue::Str("command"@)),
            ("command"@, JsonValue::Str(hook_command())),
        ]);
    }
    let mut entries: Vec<Json> = Vec::new();
    let ghost entry_value = Json::Object(entry)@;
    entries.push(Json::Object(entry));
    proof {
        lemma_array_view(entries);
        assert(json_items(entries@) =~= seq![entry_value]);
    }
    let mut group: Vec<(String, Json)> = Vec::new();
    let ghost entries_value = Json::Array(entries)@;
    group.push(("hooks".to_owned(), Json::Array(entries)));
    proof {
        lemma_object_view(group);
        assert(json_members(group@) =~= seq![("hooks"@, entries_value)]);
    }
    Json::Object(group)
}

/// Registers the command for one event.
fn merge_event(members: &mut Vec<(String, Json)>, event: &'static str) -> (r: Result<
    HookAction,
    &'static str,
>)
    ensures
        match groups_of(json_members(old(members)@), event@) {
            Some(groups) => r == Ok::<HookAction, &'static str>(action_for(groups)) && json_members(
                final(members)@,
            ) == with_event(json_members(old(members)@), event@, groups),
            None => r is Err && r->Err_0@ == kind_name(
                lookup(json_members(old(members)@), event@)->0,
            ) && json_members(final(members)@) == json_members(old(members)@),
        },
{
    let ghost before = json_members(members@);
    let i = member_position(members, event);
    proof {
        lemma_index_of(before, event@);
    }
    if i == members.len() {
        let mut groups: Vec<Json> = Vec::new();
        groups.push(make_own_group());
        proof {
            lemma_array_view(groups);
            assert(json_items(groups@) =~= Seq::<JsonValue>::empty().push(own_group()));
            assert(!some_group_runs(Seq::<JsonValue>::empty()));
        }
        put_member(members, event.to_owned(), Json::Array(groups));
        return Ok(HookAction::Added);
    }
    let taken = take_value(members, i);
    let ghost middle = json_members(members@);
    match taken {
        Json::Null => {
            let mut groups: Vec<Json> = Vec::new();
            groups.push(make_own_group());
            proof {
                lemma_array_view(groups);
                assert(json_items(groups@) =~= Seq::<JsonValue>::empty().push(own_group()));
                assert(!some_group_runs(Seq::<JsonValue>::empty()));
                lemma_put_over(before, middle, i as int, event@, Json::Array(groups)@);
            }
            put_member(members, event.to_owned(), Json::Array(groups));
            Ok(HookAction::Added)
        },
        Json::Array(mut groups) => {
            let ghost held = json_items(groups@);
            proof {
                lemma_array_view(groups);
            }
            let present = any_group_runs(&groups);
            if !present {
                groups.push(make_own_group());
                assert(json_items(groups@) =~= held.push(own_group()));
            }
            proof {
                lemma_array_view(groups);
                lemma_put_over(before, middle, i as int, event@, Json::Array(groups)@);
            }
            put_member(members, event.to_owned(), Json::Array(groups));
            if present {
                Ok(HookAction::AlreadyPresent)
            } else {
                Ok(HookAction::Added)
            }
        },
        other => {
            let got = json_type_name(&other);
            proof {
                lemma_put_over(before, middle, i as int, event@, other@);
                assert(before.update(i as int, (event@, other@)) =~= before);
            }
            put_member(members, event.to_owned(), other);
            Err(got)
        },
    }
}

/// Putting a value over a cleared place is putting it over the old value.
proof fn lemma_put_over(
    before: Seq<(Seq<char>, JsonValue)>,
    middle: Seq<(Seq<char>, JsonValue)>,
    i: int,
    key: Seq<char>,
    value: JsonValue,
)
    requires
        i == index_of(before, key),
        i < before.len(),
        middle == before.update(i, (before[i].0, JsonValue::Null)),
    ensures
        put(middle, key, value) == put(before, key, value),
{
    lemma_index_of(before, key);
    assert forall|j: int| 0 <= j < i implies (#[trigger] middle[j]).0 != key by {
        assert(middle[j] == before[j]);
    }
    crate::assoc::lemma_index_unique(middle, key, i as nat);
    assert(put(middle, key, value) =~= put(before, key, value));
}

/// Registers the command for all events. Other settings, other events and other
/// groups stay as they are. Where a part has a wrong shape nothing behind it is
/// changed, and the error names it.
pub fn merge_hooks(settings: &mut Json) -> (r: Result<Vec<HookMergeResult>, ShapeError>)
    ensures
        match hooks_of(old(settings)@) {
            None => {
                &&& final(settings)@ == old(settings)@
                &&& r matches Err(e)
                &&& e.is(
                    ".hooks"@,
                    "object"@,
                    kind_name(lookup(root_members(old(settings)@), "hooks"@)->0),
                )
            },
            Some(hooks) => {
                let m = merged(hooks, hook_events());
                &&& final(settings)@ == with_hooks(old(settings)@, m.members)
                &&& match m.stopped_at {
                    None => r matches Ok(results) && reports(results@, m.actions),
                    Some(event) => r matches Err(e) && e.is(
                        ".hooks."@ + event,
                        "array"@,
                        kind_name(lookup(m.members, event)->0),
                    ),
                }
            },
        },
{
    let ghost given = settings@;
    let mut taken = Json::Null;
    std::mem::swap(settings, &mut taken);
    let mut members: Vec<(String, Json)> = match taken {
        Json::Object(members) => {
            proof {
                lemma_object_view(members);
            }
            members
        },
        _ => Vec::new(),
    };
    assert(json_members(members@) =~= root_members(given));
    let ghost root = json_members(members@);
    let i = member_position(&members, "hooks");
    proof {
        lemma_index_of(root, "hooks"@);
    }
    let mut hooks: Vec<(String, Json)> = Vec::new();
    let ghost mut middle = root;
    if i < members.len() {
        let held = take_value(&mut members, i);
        proof {
            middle = json_members(members@);
        }
        match held {
            Json::Null => {},
            Json::Object(inner) => {
                proof {
                    lemma_object_view(inner);
                }
                hooks = inner;
            },
            other => {
                let got = json_type_name(&other);
                proof {
                    lemma_put_over(root, middle, i as int, "hooks"@, other@);
                    assert(root.update(i as int, ("hooks"@, other@)) =~= root);
                }
                put_member(&mut members, "hooks".to_owned(), other);
                proof {
                    lemma_object_view(members);
                }
                *settings = Json::Object(members);
                return Err(ShapeError { at: ".hooks".to_owned(), expected: "object", got });
            },
        }
    }
    assert(hooks_of(given) is Some);
    assert(json_members(hooks@) =~= hooks_of(given)->0);
    let ghost start = json_members(hooks@);
    let ghost events = hook_events();
    let mut results: Vec<HookMergeResult> = Vec::new();
    let mut failed: Option<ShapeError> = None;
    let mut k: usize = 0;
    let ghost mut done: Seq<HookAction> = Seq::empty();
    assert(events.subrange(0, 7) =~= events);
    assert(merged(start, events).actions =~= done + merged(
        json_members(hooks@),
        events.subrange(0, 7),
    ).actions);
    while k < HOOK_EVENT_COUNT && failed.is_none()
        invariant
            k <= 7,
            events == hook_events(),
            events.len() == 7,
            done.len() == k,
            reports(results@, done),
            match failed {
                None => {
                    let rest = merged(json_members(hooks@), events.subrange(k as int, 7));
                    let all = merged(start, events);
                    &&& all.members == rest.members
                    &&& all.stopped_at == rest.stopped_at
                    &&& all.actions == done + rest.actions
                },
                Some(e) => {
                    let all = merged(start, events);
                    &&& all.members == json_members(hooks@)
                    &&& all.stopped_at matches Some(event) && e.is(
                        ".hooks."@ + event,
                        "array"@,
                        kind_name(lookup(all.members, event)->0),
                    )
                },
            },
        decreases HOOK_EVENT_COUNT - k, if failed is None {
            1int
        } else {
            0int
        },
    {
        let event = hook_event(k);
        let ghost rest_events = events.subrange(k as int, 7);
        assert(rest_events[0] == event@);
        assert(rest_events.subrange(1, rest_events.len() as int) =~= events.subrange(k + 1, 7));
        let ghost before = json_members(hooks@);
        let ghost rest = merged(before, rest_events);
        match merge_event(&mut hooks, event) {
            Ok(action) => {
                let ghost later = merged(json_members(hooks@), events.subrange(k + 1, 7));
                assert(rest.actions == seq![action] + later.actions);
                assert(done + rest.actions =~= done.push(action) + later.actions);
                results.push(HookMergeResult { event, action });
                proof {
                    done = done.push(action);
                }
                k = k + 1;
            },
            Err(got) => {
                failed = Some(ShapeError { at: join2(".hooks.", event), expected: "array", got });
            },
        }
    }
    let ghost final_hooks = json_members(hooks@);
    proof {
        lemma_object_view(hooks);
        if i < root.len() {
            lemma_put_over(root, middle, i as int, "hooks"@, Json::Object(hooks)@);
        }
        assert(events.subrange(7, 7) =~= Seq::<Seq<char>>::empty());
    }
    put_member(&mut members, "hooks".to_owned(), Json::Object(hooks));
    proof {
        lemma_object_view(members);
    }
    *settings = Json::Object(members);
    match failed {
        Some(e) => Err(e),
        None => {
            assert(done + Seq::<HookAction>::empty() =~= done);
            Ok(results)
        },
    }
}

// ---------------------------------------------------------------------------
// Laws of merging.

/// Whether the command is registered for an event.
pub open spec fn registered(members: Seq<(Seq<char>, JsonValue)>, event: Seq<char>) -> bool {
    match lookup(members, event) {
        Some(JsonValue::Array(groups)) => some_group_runs(groups),
        _ => false,
    }
}

proof fn lemma_own_group_runs()
    ensures
        group_runs_command(own_group()),
{
    let members = own_group()->Object_0;
    assert(members[0].0 == "hooks"@);
    assert(lookup(members, "hooks"@) == Some(members[0].1));
    let entries = members[0].1->Array_0;
    let entry = entries[0]->Object_0;
    reveal_strlit("type");
    reveal_strlit("command");
    assert("type"@[0] == 't' && "command"@[0] == 'c');
    assert(entry[1].0 == "command"@);
    crate::assoc::lemma_index_unique(entry, "command"@, 1);
    assert(runs_command(entries[0]));
    assert(some_entry_runs(entries));
}

proof fn lemma_with_event_registers(
    members: Seq<(Seq<char>, JsonValue)>,
    event: Seq<char>,
    groups: Seq<JsonValue>,
    other: Seq<char>,
)
    requires
        groups_of(members, event) == Some(groups),
    ensures
        registered(with_event(members, event, groups), event),
        registered(members, other) ==> registered(with_event(members, event, groups), other),
        other != event ==> lookup(with_event(members, event, groups), other) == lookup(members, other),
{
    let added = if some_group_runs(groups) {
        groups
    } else {
        groups.push(own_group())
    };
    lemma_put(members, event, JsonValue::Array(added), event);
    lemma_put(members, event, JsonValue::Array(added), other);
    if !some_group_runs(groups) {
        lemma_own_group_runs();
        assert(group_runs_command(added[added.len() - 1]));
    }
}

proof fn lemma_merged_registers(
    members: Seq<(Seq<char>, JsonValue)>,
    events: Seq<Seq<char>>,
    other: Seq<char>,
)
    requires
        merged(members, events).stopped_at is None,
    ensures
        registered(members, other) ==> registered(merged(members, events).members, other),
        forall|i: int|
            0 <= i < events.len() ==> registered(merged(members, events).members, #[trigger] events[i]),
    decreases events.len(),
{
    if events.len() > 0 {
        let groups = groups_of(members, events[0])->0;
        let next = with_event(members, events[0], groups);
        let rest = events.subrange(1, events.len() as int);
        lemma_with_event_registers(members, events[0], groups, other);
        lemma_merged_registers(next, rest, other);
        lemma_merged_registers(next, rest, events[0]);
        assert forall|i: int| 0 <= i < events.len() implies registered(
            merged(members, events).members,
            #[trigger] events[i],
        ) by {
            if i > 0 {
                assert(rest[i - 1] == events[i]);
            }
        }
    }
}

proof fn lemma_merged_fixed(members: Seq<(Seq<char>, JsonValue)>, events: Seq<Seq<char>>)
    requires
        forall|i: int| 0 <= i < events.len() ==> registered(members, #[trigger] events[i]),
    ensures
        merged(members, events).members == members,
        merged(members, events).stopped_at is None,
        merged(members, events).actions.len() == events.len(),
        forall|i: int|
            0 <= i < events.len() ==> #[trigger] merged(members, events).actions[i]
                == HookAction::AlreadyPresent,
    decreases events.len(),
{
    if events.len() > 0 {
        assert(registered(members, events[0]));
        let groups = groups_of(members, events[0])->0;
        let next = with_event(members, events[0], groups);
        lemma_index_of(members, events[0]);
        assert(next =~= members);
        let rest = events.subrange(1, events.len() as int);
        assert forall|i: int| 0 <= i < rest.len() implies registered(members, #[trigger] rest[i]) by {
            assert(rest[i] == events[i + 1]);
        }
        lemma_merged_fixed(members, rest);
        let all = merged(members, events).actions;
        let later = merged(members, rest).actions;
        assert forall|i: int| 0 <= i < events.len() implies #[trigger] all[i]
            == HookAction::AlreadyPresent by {
            if i > 0 {
                assert(all[i] == later[i - 1]);
            }
        }
    }
}

/// After a merge that succeeds, the command is registered for every event.
pub proof fn law_merge_registers_all(settings: JsonValue)
    requires
        hooks_of(settings) is Some,
        merged(hooks_of(settings)->0, hook_events()).stopped_at is None,
    ensures
        forall|i: int|
            0 <= i < hook_events().len() ==> registered(
                merged(hooks_of(settings)->0, hook_events()).members,
                #[trigger] hook_events()[i],
            ),
{
    lemma_merged_registers(hooks_of(settings)->0, hook_events(), hook_events()[0]);
}

/// Merging again changes nothing and reports every event as present.
pub proof fn law_merge_idempotent(settings: JsonValue)
    requires
        hooks_of(settings) is Some,
        merged(hooks_of(settings)->0, hook_events()).stopped_at is None,
    ensures
        ({
            let once = with_hooks(settings, merged(hooks_of(settings)->0, hook_events()).members);
            let again = merged(hooks_of(once)->0, hook_events());
            &&& hooks_of(once) is Some
            &&& with_hooks(once, again.members) == once
            &&& again.stopped_at is None
            &&& again.actions.len() == hook_events().len()
            &&& forall|i: int|
                0 <= i < again.actions.len() ==> #[trigger] again.actions[i]
                    == HookAction::AlreadyPresent
        }),
{
    let hooks = merged(hooks_of(settings)->0, hook_events()).members;
    let once = with_hooks(settings, hooks);
    lemma_put(root_members(settings), "hooks"@, JsonValue::Object(hooks), "hooks"@);
    law_merge_registers_all(settings);
    lemma_merged_fixed(hooks, hook_events());
    lemma_index_of(root_members(once), "hooks"@);
    assert(put(root_members(once), "hooks"@, JsonValue::Object(hooks)) =~= root_members(once));
}

proof fn lemma_merged_keeps(
    members: Seq<(Seq<char>, JsonValue)>,
    events: Seq<Seq<char>>,
    other: Seq<char>,
)
    requires
        forall|i: int| 0 <= i < events.len() ==> #[trigger] events[i] != other,
    ensures
        lookup(merged(members, events).members, other) == lookup(members, other),
    decreases events.len(),
{
    if events.len() > 0 {
        assert(events[0] != other);
        match groups_of(members, events[0]) {
            None => {},
            Some(groups) => {
                let rest = events.subrange(1, events.len() as int);
                lemma_with_event_registers(members, events[0], groups, other);
                assert forall|i: int| 0 <= i < rest.len() implies #[trigger] rest[i] != other by {
                    assert(rest[i] == events[i + 1]);
                }
                lemma_merged_keeps(with_event(members, events[0], groups), rest, other);
            },
        }
    }
}

/// Merging leaves other settings and other events as they are.
pub proof fn law_merge_keeps_the_rest(settings: JsonValue, setting: Seq<char>, event: Seq<char>)
    requires
        hooks_of(settings) is Some,
        setting != "hooks"@,
        !hook_events().contains(event),
    ensures
        ({
            let hooks = merged(hooks_of(settings)->0, hook_events()).members;
            &&& lookup(root_members(with_hooks(settings, hooks)), setting) == lookup(
                root_members(settings),
                setting,
            )
            &&& lookup(hooks, event) == lookup(hooks_of(settings)->0, event)
        }),
{
    let hooks = merged(hooks_of(settings)->0, hook_events()).members;
    lemma_put(root_members(settings), "hooks"@, JsonValue::Object(hooks), setting);
    assert forall|i: int| 0 <= i < hook_events().len() implies #[trigger] hook_events()[i]
        != event by {
        assert(hook_events().contains(hook_events()[i]));
    }
    lemma_merged_keeps(hooks_of(settings)->0, hook_events(), event);
}

// ---------------------------------------------------------------------------
// Files and reports.

/// Whether the settings changed and have to be saved.
pub fn any_added(results: &Vec<HookMergeResult>) -> (r: bool)
    ensures
        r == exists|i: int|
            0 <= i < results@.len() && (#[trigger] results@[i]).action == HookAction::Added,
{
    let mut i: usize = 0;
    while i < results.len()
        invariant
            i <= results@.len(),
            forall|j: int| 0 <= j < i ==> (#[trigger] results@[j]).action != HookAction::Added,
        decreases results@.len() - i,
    {
        if results[i].action == HookAction::Added {
            return true;
        }
        i = i + 1;
    }
    false
}

/// The settings in a file's text: an empty object for a file that does not
/// exist, and `None` for a text that is no JSON document.
pub fn load_settings(text: Option<&str>) -> (r: Option<Json>)
    ensures
        match text {
            None => r is Some && r->0@ == JsonValue::Object(Seq::empty()),
            Some(t) => match json_text(t@) {
                Some(value) => r is Some && r->0@ == value,
                None => r is None,
            },
        },
{
    match text {
        None => {
            let members: Vec<(String, Json)> = Vec::new();
            proof {
                lemma_object_view(members);
                assert(json_members(members@) =~= Seq::empty());
            }
            Some(Json::Object(members))
        },
        Some(t) => parse_json(t),
    }
}

/// The settings file: in the configured directory, or else in the
/// settings directory of the agent in the home directory.
pub open spec fn settings_file(
    config_dir: Option<Seq<char>>,
    home: Option<Seq<char>>,
    agent_dir: Seq<char>,
) -> Option<Seq<char>> {
    match config_dir {
        Some(dir) => Some(joined(dir, "settings.json"@)),
        None => match home {
            Some(h) => Some(joined(joined(h, agent_dir), "settings.json"@)),
            None => None,
        },
    }
}

pub open spec fn opt_text(t: Option<&str>) -> Option<Seq<char>> {
    match t {
        Some(s) => Some(s@),
        None => None,
    }
}

/// The path of the settings file, from the directory that is configured for the
/// agent and `HOME`.
pub fn settings_path(config_dir: Option<&str>, home: Option<&str>, agent_dir: &str) -> (r: Option<
    String,
>)
    ensures
        crate::proto::hook::text_of(r) == settings_file(
            opt_text(config_dir),
            opt_text(home),
            agent_dir@,
        ),
{
    match config_dir {
        Some(dir) => Some(join_path(dir, "settings.json")),
        None => match home {
            Some(h) => {
                let dir = join_path(h, agent_dir);
                Some(join_path(dir.as_str(), "settings.json"))
            },
            None => None,
        },
    }
}

/// The text that settings are saved as: one member or item to a line, and the
/// members of every object in the order of their keys.
pub fn settings_text(settings: &Json) -> (r: String)
    ensures
        is_canonical(settings@) ==> r@ == json_print_pretty(sorted_value(settings@)),
        is_canonical(settings@) && is_shallow(settings@, MAX_DEPTH as nat) ==> json_text(r@) == Some(
            sorted_value(settings@),
        ),
{
    let ordered = sorted(settings);
    proof {
        if is_canonical(settings@) {
            lemma_sorted_printable(settings@, MAX_DEPTH as nat);
        }
    }
    print_json_pretty(&ordered)
}

/// The configuration file that setup writes: every setting at its default.
pub const DEFAULT_CONFIG_TOML: &'static str = "\
# ccbridge configuration. Every setting below has its default value.

[approvals]
# How long a tool call waits for a decision.
timeout_ms = 30000
# What a call is answered after that: \"passthrough\", \"deny\" or \"allow\".
fallback = \"passthrough\"

[emit.notify]
enabled = true
# \"low\", \"normal\" or \"critical\".
urgency = \"critical\"

[emit.notify.turn_done]
enabled = true
idle_grace_ms = 10000
expire_ms = 5000

[emit.ctrl]
enabled = true
allow_simulate = false

[emit.http]
enabled = false
# Loopback only.
addr = \"127.0.0.1:9876\"

[emit.ble]
enabled = false
service_uuid = \"6e400001-b5a3-f393-e0a9-e50e24dcca9e\"

[tokens]
# state_path = \"/path/to/tokens.json\"
";

/// What was done about the default configuration file.
#[derive(Debug, Clone, PartialEq, Eq)]
pub enum ConfigAction {
    /// The file was not there, and holds this text now.
    Created { path: String, text: &'static str },
    /// The file was there and is left as it is.
    AlreadyPresent { path: String },
    /// No path could be found for it.
    Skipped { reason: String },
}

/// What to do about the default configuration file: nothing without a path,
/// nothing where it exists, and else to write it with the default text.
pub fn write_default_config_if_absent(path: Option<String>, exists_already: bool) -> (r: ConfigAction)
    ensures
        match path {
            None => r matches ConfigAction::Skipped { reason } && reason@
                == "neither $XDG_CONFIG_HOME nor $HOME is set"@,
            Some(p) => if exists_already {
                r matches ConfigAction::AlreadyPresent { path } && path@ == p@
            } else {
                r matches ConfigAction::Created { path, text } && path@ == p@ && text@
                    == DEFAULT_CONFIG_TOML@
            },
        },
{
    match path {
        None => ConfigAction::Skipped {
            reason: "neither $XDG_CONFIG_HOME nor $HOME is set".to_owned(),
        },
        Some(path) => {
            if exists_already {
                ConfigAction::AlreadyPresent { path }
            } else {
                ConfigAction::Created { path, text: DEFAULT_CONFIG_TOML }
            }
        },
    }
}

/// The events of one action, in order, with commas between them.
pub open spec fn listed(results: Seq<HookMergeResult>, action: HookAction) -> Seq<char>
    decreases results.len(),
{
    if results.len() == 0 {
        Seq::empty()
    } else {
        let before = listed(results.drop_last(), action);
        if results.last().action != action {
            before
        } else if before.len() == 0 {
            results.last().event@
        } else {
            before + ", "@ + results.last().event@
        }
    }
}

fn list_events(results: &Vec<HookMergeResult>, action: HookAction) -> (r: String)
    ensures
        r@ == listed(results@, action),
{
    let mut r = String::new();
    let mut i: usize = 0;
    while i < results.len()
        invariant
            i <= results@.len(),
            r@ == listed(results@.take(i as int), action),
        decreases results@.len() - i,
    {
        assert(results@.take(i + 1).drop_last() =~= results@.take(i as int));
        if results[i].action == action {
            if r.as_str().is_empty() {
                r = results[i].event.to_owned();
            } else {
                r = join3(r.as_str(), ", ", results[i].event);
            }
        }
        i = i + 1;
    }
    assert(results@.take(i as int) =~= results@);
    r
}

pub open spec fn config_line(config: ConfigAction) -> Seq<char> {
    match config {
        ConfigAction::Created { path, .. } => "ccbridged setup: wrote default config to "@ + path@,
        ConfigAction::AlreadyPresent { path } => "ccbridged setup: config already present at "@ + path@,
        ConfigAction::Skipped { reason } => "ccbridged setup: config not written ("@ + reason@ + ")"@,
    }
}

/// The lines that a finished setup prints.
pub open spec fn summary_lines(
    results: Seq<HookMergeResult>,
    config: ConfigAction,
    service_ok: bool,
    settings_path: Seq<char>,
) -> Seq<Seq<char>> {
    let added = listed(results, HookAction::Added);
    let present = listed(results, HookAction::AlreadyPresent);
    let first = if added.len() > 0 {
        seq!["ccbridged setup: registered hooks for: "@ + added]
    } else {
        Seq::empty()
    };
    let second = if present.len() > 0 {
        seq!["ccbridged setup: already configured: "@ + present]
    } else {
        Seq::empty()
    };
    first + second + seq![
        config_line(config),
        "ccbridged setup: service enabled: "@ + (if service_ok {
            "yes"@
        } else {
            "no (see above warning)"@
        }),
        "ccbridged setup: done — settings written to "@ + settings_path,
    ]
}

/// The lines that a finished setup prints.
pub fn setup_summary(
    results: &Vec<HookMergeResult>,
    config: &ConfigAction,
    service_ok: bool,
    settings_path: &str,
) -> (r: Vec<String>)
    ensures
        texts_of(r@) == summary_lines(results@, *config, service_ok, settings_path@),
{
    let mut r: Vec<String> = Vec::new();
    let added = list_events(results, HookAction::Added);
    if !added.as_str().is_empty() {
        r.push(join2("ccbridged setup: registered hooks for: ", added.as_str()));
    }
    let present = list_events(results, HookAction::AlreadyPresent);
    if !present.as_str().is_empty() {
        r.push(join2("ccbridged setup: already configured: ", present.as_str()));
    }
    let ghost head = texts_of(r@);
    let third = match config {
        ConfigAction::Created { path, .. } => join2(
            "ccbridged setup: wrote default config to ",
            path.as_str(),
        ),
        ConfigAction::AlreadyPresent { path } => join2(
            "ccbridged setup: config already present at ",
            path.as_str(),
        ),
        ConfigAction::Skipped { reason } => join3(
            "ccbridged setup: config not written (",
            reason.as_str(),
            ")",
        ),
    };
    r.push(third);
    let fourth = join2(
        "ccbridged setup: service enabled: ",
        if service_ok {
            "yes"
        } else {
            "no (see above warning)"
        },
    );
    r.push(fourth);
    let fifth = join2("ccbridged setup: done — settings written to ", settings_path);
    r.push(fifth);
    assert(texts_of(r@) =~= head + seq![third@, fourth@, fifth@]);
    assert(texts_of(r@) =~= summary_lines(results@, *config, service_ok, settings_path@));
    r
}

} // verus!
