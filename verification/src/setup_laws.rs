//! Laws of the setup: what registering the hooks adds to the settings, and what
//! it leaves alone.

use vstd::prelude::*;
use crate::assoc::{lemma_index_unique, lemma_put, lookup};
use crate::json::JsonValue;
use crate::setup::{
    action_for, config_line, group_runs_command, groups_of, hook_events, hooks_of, kind_name,
    listed, merged, own_group, registered, root_members, some_entry_runs, some_group_runs,
    summary_lines, with_event, with_hooks, ConfigAction, HookAction, HookMergeResult,
};

verus! {

type Members = Seq<(Seq<char>, JsonValue)>;

/// The settings after the hooks were registered.
pub open spec fn set_up(settings: JsonValue) -> JsonValue {
    with_hooks(settings, merged(hooks_of(settings)->0, hook_events()).members)
}

/// Whether a value is the hook group of the bridge: one hook, the command
/// `ccbridge-hook`.
pub open spec fn is_own_group(group: JsonValue) -> bool {
    group.get("hooks"@) matches Some(JsonValue::Array(entries)) && {
        &&& entries.len() == 1
        &&& entries[0].get_str("type"@) == Some("command"@)
        &&& entries[0].get_str("command"@) == Some("ccbridge-hook"@)
    }
}

/// Whether a hook group runs the command `ccbridge-hook` in one of its hooks.
pub open spec fn is_ours(group: JsonValue) -> bool {
    group.get("hooks"@) matches Some(JsonValue::Array(entries)) && exists|k: int|
        0 <= k < entries.len() && (#[trigger] entries[k]).get_str("command"@) == Some(
            "ccbridge-hook"@,
        )
}

/// Whether a list of groups is an earlier one, with at most the bridge's own
/// group behind it, which is there exactly if none of the earlier ones was ours.
pub open spec fn is_extended(before: Seq<JsonValue>, after: Seq<JsonValue>) -> bool {
    &&& before.len() <= after.len() <= before.len() + 1
    &&& after.take(before.len() as int) == before
    &&& after.len() == before.len() + 1 ==> is_own_group(after.last())
    &&& after.len() == before.len() <==> exists|i: int|
        0 <= i < before.len() && is_ours(#[trigger] before[i])
}

proof fn lemma_own_group()
    ensures
        is_own_group(own_group()),
        group_runs_command(own_group()),
{
    let members = own_group()->Object_0;
    assert(members[0].0 == "hooks"@);
    lemma_index_unique(members, "hooks"@, 0);
    let entries = members[0].1->Array_0;
    let entry = entries[0]->Object_0;
    reveal_strlit("type");
    reveal_strlit("command");
    assert("type"@.len() == 4 && "command"@.len() == 7);
    assert(entry[0].0 == "type"@);
    assert(entry[1].0 == "command"@);
    lemma_index_unique(entry, "type"@, 0);
    lemma_index_unique(entry, "command"@, 1);
    assert(crate::setup::runs_command(entries[0]));
    assert(some_entry_runs(entries));
}

proof fn lemma_extended(groups: Seq<JsonValue>)
    ensures
        is_extended(
            groups,
            if some_group_runs(groups) {
                groups
            } else {
                groups.push(own_group())
            },
        ),
{
    lemma_own_group();
    assert forall|g: JsonValue| is_ours(g) == #[trigger] group_runs_command(g) by {
        if let Some(JsonValue::Array(entries)) = g.get("hooks"@) {
            if is_ours(g) {
                let k = choose|k: int|
                    0 <= k < entries.len() && (#[trigger] entries[k]).get_str("command"@) == Some(
                        "ccbridge-hook"@,
                    );
                assert(crate::setup::runs_command(entries[k]));
            }
        }
    }
    if some_group_runs(groups) {
        let i = choose|i: int| 0 <= i < groups.len() && group_runs_command(#[trigger] groups[i]);
        assert(is_ours(groups[i]));
        assert(groups.take(groups.len() as int) =~= groups);
    } else {
        assert(groups.push(own_group()).take(groups.len() as int) =~= groups);
        if exists|i: int| 0 <= i < groups.len() && is_ours(#[trigger] groups[i]) {
            let i = choose|i: int| 0 <= i < groups.len() && is_ours(#[trigger] groups[i]);
            assert(group_runs_command(groups[i]));
        }
    }
}

proof fn lemma_extended_runs(groups: Seq<JsonValue>)
    ensures
        some_group_runs(groups.push(own_group())),
{
    lemma_own_group();
    let g = groups.push(own_group());
    assert(group_runs_command(g[g.len() - 1]));
}

proof fn lemma_registered_stays(members: Members, events: Seq<Seq<char>>, event: Seq<char>)
    requires
        registered(members, event),
    ensures
        lookup(merged(members, events).members, event) == lookup(members, event),
    decreases events.len(),
{
    if events.len() > 0 {
        if let Some(groups) = groups_of(members, events[0]) {
            let next = with_event(members, events[0], groups);
            let value = JsonValue::Array(
                if some_group_runs(groups) {
                    groups
                } else {
                    groups.push(own_group())
                },
            );
            lemma_put(members, events[0], value, event);
            lemma_registered_stays(next, events.subrange(1, events.len() as int), event);
        }
    }
}

proof fn lemma_merged_extends(members: Members, events: Seq<Seq<char>>, event: Seq<char>)
    requires
        lookup(members, event) is Some,
        lookup(members, event)->0 is Array,
    ensures
        lookup(merged(members, events).members, event) is Some,
        lookup(merged(members, events).members, event)->0 is Array,
        ({
            let before = lookup(members, event)->0->Array_0;
            let after = lookup(merged(members, events).members, event)->0->Array_0;
            after == before || is_extended(before, after)
        }),
        merged(members, events).stopped_at is None && events.contains(event) ==> is_extended(
            lookup(members, event)->0->Array_0,
            lookup(merged(members, events).members, event)->0->Array_0,
        ),
    decreases events.len(),
{
    if events.len() > 0 {
        if let Some(groups) = groups_of(members, events[0]) {
            let value = JsonValue::Array(
                if some_group_runs(groups) {
                    groups
                } else {
                    groups.push(own_group())
                },
            );
            let next = with_event(members, events[0], groups);
            let rest = events.subrange(1, events.len() as int);
            lemma_put(members, events[0], value, event);
            if events[0] == event {
                lemma_extended(groups);
                lemma_extended_runs(groups);
                lemma_registered_stays(next, rest, event);
            } else {
                lemma_merged_extends(next, rest, event);
                if events.contains(event) {
                    let k = choose|k: int| 0 <= k < events.len() && events[k] == event;
                    assert(rest[k - 1] == event);
                }
            }
        }
    }
}

proof fn lemma_merged_adds(members: Members, events: Seq<Seq<char>>, event: Seq<char>)
    requires
        lookup(members, event) is None || lookup(members, event) == Some(JsonValue::Null),
        events.contains(event),
        merged(members, events).stopped_at is None,
    ensures
        lookup(merged(members, events).members, event) is Some,
        lookup(merged(members, events).members, event)->0 is Array,
        is_extended(
            Seq::empty(),
            lookup(merged(members, events).members, event)->0->Array_0,
        ),
    decreases events.len(),
{
    let groups = groups_of(members, events[0])->0;
    let value = JsonValue::Array(
        if some_group_runs(groups) {
            groups
        } else {
            groups.push(own_group())
        },
    );
    let next = with_event(members, events[0], groups);
    let rest = events.subrange(1, events.len() as int);
    lemma_put(members, events[0], value, event);
    if events[0] == event {
        lemma_extended(groups);
        lemma_extended_runs(groups);
        lemma_registered_stays(next, rest, event);
    } else {
        let k = choose|k: int| 0 <= k < events.len() && events[k] == event;
        assert(rest[k - 1] == event);
        lemma_merged_adds(next, rest, event);
    }
}

proof fn lemma_set_up_hooks(settings: JsonValue)
    requires
        hooks_of(settings) is Some,
    ensures
        set_up(settings).get("hooks"@) == Some(
            JsonValue::Object(merged(hooks_of(settings)->0, hook_events()).members),
        ),
{
    lemma_put(
        root_members(settings),
        "hooks"@,
        JsonValue::Object(merged(hooks_of(settings)->0, hook_events()).members),
        "hooks"@,
    );
}

/// The events that the bridge registers for.
pub proof fn law_registered_events()
    ensures
        hook_events().len() == 7,
        hook_events().contains("PreToolUse"@),
        hook_events().contains("PostToolUse"@),
        hook_events().contains("UserPromptSubmit"@),
        hook_events().contains("Notification"@),
        hook_events().contains("Stop"@),
        hook_events().contains("SessionStart"@),
        hook_events().contains("SessionEnd"@),
{
    let e = hook_events();
    assert(e[0] == "PreToolUse"@ && e[1] == "PostToolUse"@ && e[2] == "UserPromptSubmit"@ && e[3]
        == "Notification"@ && e[4] == "Stop"@ && e[5] == "SessionStart"@ && e[6] == "SessionEnd"@);
}

/// Registering keeps every hook group that is there, in its place, under every
/// event; at most the bridge's own group comes behind them, and none where one of
/// them runs the bridge already.
pub proof fn law_setup_keeps_every_group(settings: JsonValue, event: Seq<char>)
    requires
        hooks_of(settings) is Some,
        settings.get("hooks"@) is Some,
        settings.get("hooks"@)->0.get(event) is Some,
        settings.get("hooks"@)->0.get(event)->0 is Array,
    ensures
        ({
            let groups = settings.get("hooks"@)->0.get(event)->0->Array_0;
            let hooks = set_up(settings).get("hooks"@);
            &&& hooks is Some
            &&& hooks->0.get(event) is Some
            &&& hooks->0.get(event)->0 is Array
            &&& hooks->0.get(event)->0->Array_0.len() >= groups.len()
            &&& hooks->0.get(event)->0->Array_0.take(groups.len() as int) == groups
            &&& hooks->0.get(event)->0->Array_0.len() <= groups.len() + 1
            &&& hooks->0.get(event)->0->Array_0.len() > groups.len() ==> is_own_group(
                hooks->0.get(event)->0->Array_0.last(),
            )
            &&& (exists|i: int| 0 <= i < groups.len() && is_ours(#[trigger] groups[i]))
                ==> hooks->0.get(event)->0->Array_0 == groups
        }),
{
    lemma_set_up_hooks(settings);
    let members = hooks_of(settings)->0;
    lemma_merged_extends(members, hook_events(), event);
    let groups = settings.get("hooks"@)->0.get(event)->0->Array_0;
    let after = lookup(merged(members, hook_events()).members, event)->0->Array_0;
    assert(groups.take(groups.len() as int) =~= groups);
    if after.len() == groups.len() {
        assert(after.take(groups.len() as int) =~= after);
    }
}

/// After a setup that succeeds each event has its groups from before and, where
/// none of them was ours, the bridge's own one behind them.
pub proof fn law_setup_registers_each_event(settings: JsonValue, event: Seq<char>)
    requires
        hooks_of(settings) is Some,
        merged(hooks_of(settings)->0, hook_events()).stopped_at is None,
        hook_events().contains(event),
    ensures
        ({
            let before = lookup(hooks_of(settings)->0, event);
            let after = set_up(settings).get("hooks"@)->0.get(event);
            &&& set_up(settings).get("hooks"@) is Some
            &&& after is Some
            &&& after->0 is Array
            &&& before matches Some(JsonValue::Array(groups)) ==> is_extended(
                groups,
                after->0->Array_0,
            )
            &&& before is None || before == Some(JsonValue::Null) ==> after->0->Array_0.len() == 1
                && is_own_group(after->0->Array_0[0])
        }),
{
    lemma_set_up_hooks(settings);
    let members = hooks_of(settings)->0;
    let before = lookup(members, event);
    if before is None || before == Some(JsonValue::Null) {
        lemma_merged_adds(members, hook_events(), event);
    } else {
        if !(before->0 is Array) {
            lemma_wrong_shape_stops(members, hook_events(), event);
        }
        lemma_merged_extends(members, hook_events(), event);
    }
}

/// Whether the value of an event can be a list of groups.
pub open spec fn is_list_or_nothing(v: Option<JsonValue>) -> bool {
    v is None || v == Some(JsonValue::Null) || v->0 is Array
}

proof fn lemma_wrong_shape_stops(members: Members, events: Seq<Seq<char>>, event: Seq<char>)
    requires
        !is_list_or_nothing(lookup(members, event)),
        events.contains(event),
    ensures
        merged(members, events).stopped_at is Some,
    decreases events.len(),
{
    if let Some(groups) = groups_of(members, events[0]) {
        let value = JsonValue::Array(
            if some_group_runs(groups) {
                groups
            } else {
                groups.push(own_group())
            },
        );
        lemma_put(members, events[0], value, event);
        let rest = events.subrange(1, events.len() as int);
        let k = choose|k: int| 0 <= k < events.len() && events[k] == event;
        assert(rest[k - 1] == event);
        lemma_wrong_shape_stops(with_event(members, events[0], groups), rest, event);
    }
}

proof fn lemma_right_shapes_go_on(members: Members, events: Seq<Seq<char>>)
    requires
        forall|i: int|
            0 <= i < events.len() ==> is_list_or_nothing(lookup(members, #[trigger] events[i])),
    ensures
        merged(members, events).stopped_at is None,
    decreases events.len(),
{
    if events.len() > 0 {
        assert(is_list_or_nothing(lookup(members, events[0])));
        let groups = groups_of(members, events[0])->0;
        let value = JsonValue::Array(
            if some_group_runs(groups) {
                groups
            } else {
                groups.push(own_group())
            },
        );
        let next = with_event(members, events[0], groups);
        let rest = events.subrange(1, events.len() as int);
        assert forall|i: int| 0 <= i < rest.len() implies is_list_or_nothing(
            lookup(next, #[trigger] rest[i]),
        ) by {
            assert(rest[i] == events[i + 1]);
            lemma_put(members, events[0], value, rest[i]);
        }
        lemma_right_shapes_go_on(next, rest);
    }
}

/// A setup succeeds exactly if the hooks are an object, null or absent, and the
/// value of each event is a list, null or absent.
pub proof fn law_setup_succeeds_on_right_shapes(settings: JsonValue)
    ensures
        settings is Object ==> (hooks_of(settings) is Some <==> {
            let hooks = settings.get("hooks"@);
            hooks is None || hooks == Some(JsonValue::Null) || hooks->0 is Object
        }),
        !(settings is Object) ==> hooks_of(settings) == Some(Seq::<(Seq<char>, JsonValue)>::empty()),
        hooks_of(settings) is Some ==> (merged(hooks_of(settings)->0, hook_events()).stopped_at
            is None <==> forall|i: int|
            0 <= i < hook_events().len() ==> is_list_or_nothing(
                lookup(hooks_of(settings)->0, #[trigger] hook_events()[i]),
            )),
{
    if hooks_of(settings) is Some {
        let members = hooks_of(settings)->0;
        if forall|i: int|
            0 <= i < hook_events().len() ==> is_list_or_nothing(
                lookup(members, #[trigger] hook_events()[i]),
            ) {
            lemma_right_shapes_go_on(members, hook_events());
        } else {
            let i = choose|i: int|
                0 <= i < hook_events().len() && !is_list_or_nothing(
                    lookup(members, #[trigger] hook_events()[i]),
                );
            assert(hook_events().contains(hook_events()[i]));
            lemma_wrong_shape_stops(members, hook_events(), hook_events()[i]);
        }
    }
}

/// An event is reported as registered already exactly if one of its groups runs
/// the bridge.
pub proof fn law_action_tells_what_was_there(groups: Seq<JsonValue>)
    ensures
        action_for(groups) == HookAction::AlreadyPresent <==> exists|i: int|
            0 <= i < groups.len() && is_ours(#[trigger] groups[i]),
        action_for(groups) == HookAction::Added <==> !exists|i: int|
            0 <= i < groups.len() && is_ours(#[trigger] groups[i]),
{
    lemma_extended(groups);
}

/// The kinds of values have the names that errors show.
pub proof fn law_kinds_have_names(v: JsonValue)
    ensures
        v is Null ==> kind_name(v) == "null"@,
        v is Bool ==> kind_name(v) == "boolean"@,
        v is Unsigned || v is Negative || v is Decimal ==> kind_name(v) == "number"@,
        v is Str ==> kind_name(v) == "string"@,
        v is Array ==> kind_name(v) == "array"@,
        v is Object ==> kind_name(v) == "object"@,
{
}

/// The events of an action are listed in order, with a comma between each two.
pub proof fn law_listing_goes_on(
    results: Seq<HookMergeResult>,
    r: HookMergeResult,
    action: HookAction,
)
    ensures
        listed(Seq::empty(), action).len() == 0,
        ({
            let before = listed(results, action);
            let after = listed(results.push(r), action);
            &&& r.action != action ==> after == before
            &&& r.action == action && before.len() == 0 ==> after == r.event@
            &&& r.action == action && before.len() > 0 ==> after == before + ", "@ + r.event@
        }),
{
    assert(results.push(r).drop_last() =~= results);
}

/// The last lines of a setup tell what became of the configuration, whether the
/// service runs, and where the settings are; those before tell which events were
/// registered and which were already, as far as there are any.
pub proof fn law_setup_is_summed_up(
    results: Seq<HookMergeResult>,
    config: ConfigAction,
    service_ok: bool,
    path: Seq<char>,
)
    ensures
        ({
            let lines = summary_lines(results, config, service_ok, path);
            let added = listed(results, HookAction::Added);
            let present = listed(results, HookAction::AlreadyPresent);
            let n = lines.len();
            &&& n == 3 + (if added.len() > 0 {
                1int
            } else {
                0
            }) + (if present.len() > 0 {
                1int
            } else {
                0
            })
            &&& added.len() > 0 ==> lines[0] == "ccbridged setup: registered hooks for: "@ + added
            &&& present.len() > 0 ==> lines[n - 4] == "ccbridged setup: already configured: "@ + present
            &&& lines[n - 3] == config_line(config)
            &&& service_ok ==> lines[n - 2] == "ccbridged setup: service enabled: "@ + "yes"@
            &&& !service_ok ==> lines[n - 2] == "ccbridged setup: service enabled: "@
                + "no (see above warning)"@
            &&& lines[n - 1] == "ccbridged setup: done — settings written to "@ + path
        }),
{
}

} // verus!
