//! Laws of the patterns and of the decision: which calls an entry of the lists
//! means, as it is written, and what follows from it.

use vstd::prelude::*;
use crate::assoc::lookup;
use crate::json::JsonValue;
use crate::outside::{glob_accepted, glob_match, is_plain};
use crate::permission::{decision_of, first_match, AllowOrDeny, DecisionValue};
use crate::permission::allowlist::{
    cascaded, no_patterns, patterns_in, settings_lists, AllowlistValue,
};
use crate::permission::cache::{lists_for, with_project, CacheValue, ProjectLists};
use crate::permission::pattern::{match_result, pattern_value, raw_of, MatchResult, PatternValue};
use crate::proto::hook::PermissionMode;
use crate::text::{
    has_block, has_prefix, is_white_space, lemma_first_index_unique, lemma_last_end_unique,
    lemma_trim_end, lemma_trim_idle, trim_of,
};
use crate::text_laws::{
    all_white, is_tight, law_prefix_letter_by_letter, law_suffix_letter_by_letter,
    law_trim_takes_what_is_around, law_white_space,
};

verus! {

/// `tool(args)`, as an entry of a list.
pub open spec fn call_text(tool: Seq<char>, args: Seq<char>) -> Seq<char> {
    tool + seq!['('] + args + seq![')']
}

/// Whether a text is the name of a tool: something without brackets, with no
/// white space at its ends.
pub open spec fn is_tool_name(tool: Seq<char>) -> bool {
    tool.len() > 0 && is_tight(tool) && !tool.contains('(')
}

/// How an entry of a list, as it is written, judges a call.
pub open spec fn judged(entry: Seq<char>, tool: Seq<char>, input: JsonValue) -> MatchResult {
    match_result(pattern_value(entry), tool, input)
}

proof fn lemma_call_text(tool: Seq<char>, args: Seq<char>)
    requires
        is_tool_name(tool),
        is_tight(args),
    ensures
        pattern_value(call_text(tool, args)) == (PatternValue::ToolWithArgs {
            tool,
            arg_matcher: crate::permission::pattern::arg_value(tool, args),
            raw: call_text(tool, args),
        }),
{
    let raw = call_text(tool, args);
    law_white_space('(');
    law_white_space(')');
    assert(raw[0] == tool[0]);
    assert(raw.last() == ')');
    lemma_trim_idle(raw);
    assert(raw[tool.len() as int] == '(');
    assert(raw.contains('('));
    assert forall|i: int| 0 <= i < tool.len() implies raw[i] != '(' by {
        assert(raw[i] == tool[i]);
        assert(tool.contains(tool[i]));
    }
    lemma_first_index_unique(raw, '(', tool.len());
    lemma_last_end_unique(raw, ')', raw.len());
    assert(raw.subrange(0, tool.len() as int) =~= tool);
    assert(raw.subrange(tool.len() as int + 1, raw.len() - 1) =~= args);
    lemma_trim_idle(tool);
    lemma_trim_idle(args);
}

proof fn lemma_tools()
    ensures
        is_tool_name("Bash"@),
        is_tool_name("Agent"@),
        is_tool_name("Read"@),
        is_tool_name("Edit"@),
        is_tool_name("Write"@),
        is_tool_name("MultiEdit"@),
        is_tool_name("Glob"@),
        is_tool_name("Grep"@),
        "Bash"@ != "Agent"@,
        "Bash"@ != "Read"@,
        "Bash"@ != "Edit"@,
        "Bash"@ != "Write"@,
        "Bash"@ != "MultiEdit"@,
        "Bash"@ != "Glob"@,
        "Bash"@ != "Grep"@,
        "Agent"@ != "Read"@,
        "Agent"@ != "Edit"@,
        "Agent"@ != "Write"@,
        "Agent"@ != "MultiEdit"@,
        "Agent"@ != "Glob"@,
        "Agent"@ != "Grep"@,
{
    reveal_strlit("Bash");
    reveal_strlit("Agent");
    reveal_strlit("Read");
    reveal_strlit("Edit");
    reveal_strlit("Write");
    reveal_strlit("MultiEdit");
    reveal_strlit("Glob");
    reveal_strlit("Grep");
    assert("Bash"@[0] == 'B' && "Agent"@[0] == 'A' && "Read"@[0] == 'R' && "Edit"@[0] == 'E'
        && "Write"@[0] == 'W' && "MultiEdit"@[0] == 'M' && "Glob"@[0] == 'G' && "Grep"@[0] == 'G');
    assert("Bash"@.last() == 'h' && "Agent"@.last() == 't' && "Read"@.last() == 'd' && "Edit"@.last()
        == 't' && "Write"@.last() == 'e' && "MultiEdit"@.last() == 't' && "Glob"@.last() == 'b'
        && "Grep"@.last() == 'p');
}

/// `Bash(p:*)` means the commands that start with `p`, letter by letter, and no
/// others; white space between `p` and the colon is not part of `p`. A call
/// without a command as text is left to the user.
pub proof fn law_bash_prefix_means_the_start(
    prefix: Seq<char>,
    gap: Seq<char>,
    input: JsonValue,
)
    requires
        is_tight(prefix),
        all_white(gap),
        prefix.len() == 0 ==> gap.len() == 0,
    ensures
        ({
            let entry = call_text("Bash"@, prefix + gap + seq![':', '*']);
            match input.get_str("command"@) {
                Some(command) => {
                    &&& judged(entry, "Bash"@, input) == MatchResult::Confident <==> {
                        &&& prefix.len() <= command.len()
                        &&& command.take(prefix.len() as int) == prefix
                    }
                    &&& judged(entry, "Bash"@, input) != MatchResult::Ambiguous
                    &&& prefix.len() > 0 && (command.len() == 0 || command[0] != prefix[0])
                        ==> judged(entry, "Bash"@, input) == MatchResult::NoMatch
                },
                None => judged(entry, "Bash"@, input) == MatchResult::Ambiguous,
            }
        }),
{
    lemma_tools();
    let args = prefix + gap + seq![':', '*'];
    law_white_space('*');
    law_white_space(':');
    assert(args.last() == '*');
    assert(args[0] == if prefix.len() > 0 {
        prefix[0]
    } else {
        ':'
    });
    lemma_call_text("Bash"@, args);
    reveal_strlit(":*");
    assert(":*"@ =~= seq![':', '*']);
    law_suffix_letter_by_letter(args, ":*"@);
    assert(args =~= (prefix + gap) + ":*"@);
    assert(args.subrange(0, args.len() - 2) =~= prefix + gap);
    lemma_trim_end(prefix + gap, prefix.len() as int);
    assert((prefix + gap).subrange(0, prefix.len() as int) =~= prefix);
    if let Some(command) = input.get_str("command"@) {
        law_prefix_letter_by_letter(command, prefix);
        if prefix.len() <= command.len() {
            if forall|i: int| 0 <= i < prefix.len() ==> #[trigger] command[i] == prefix[i] {
                assert(command.take(prefix.len() as int) =~= prefix);
            }
            if command.take(prefix.len() as int) == prefix {
                assert forall|i: int| 0 <= i < prefix.len() implies #[trigger] command[i]
                    == prefix[i] by {
                    assert(command.take(prefix.len() as int)[i] == command[i]);
                }
            }
        }
    }
}

/// `Bash(command)` without a star means that command and no other.
pub proof fn law_bash_command_means_itself(expected: Seq<char>, input: JsonValue)
    requires
        is_tight(expected),
        expected.len() < 2 || expected[expected.len() - 2] != ':' || expected.last() != '*',
    ensures
        judged(call_text("Bash"@, expected), "Bash"@, input) == match input.get_str("command"@) {
            Some(command) => if command == expected {
                MatchResult::Confident
            } else {
                MatchResult::NoMatch
            },
            None => MatchResult::Ambiguous,
        },
{
    lemma_tools();
    lemma_call_text("Bash"@, expected);
    reveal_strlit(":*");
    assert(":*"@ =~= seq![':', '*']);
    law_suffix_letter_by_letter(expected, ":*"@);
    assert(":*"@[0] == ':' && ":*"@[1] == '*');
}

/// `Agent(type)` means the calls of that type of sub-agent, and no others.
pub proof fn law_agent_means_its_type(kind: Seq<char>, input: JsonValue)
    requires
        is_tight(kind),
    ensures
        judged(call_text("Agent"@, kind), "Agent"@, input) == if input.get_str("subagent_type"@)
            == Some(kind) {
            MatchResult::Confident
        } else {
            MatchResult::NoMatch
        },
{
    lemma_tools();
    lemma_call_text("Agent"@, kind);
}

/// An entry with a glob for a tool that takes a path means the calls whose path
/// matches: the text under `file_path`, or under `path` where there is no
/// `file_path`. A glob that cannot be read, and a call without a path as text,
/// are left to the user.
pub proof fn law_path_entry_means_its_glob(tool: Seq<char>, glob: Seq<char>, input: JsonValue)
    requires
        tool == "Read"@ || tool == "Edit"@ || tool == "Write"@ || tool == "MultiEdit"@ || tool
            == "Glob"@ || tool == "Grep"@,
        is_tight(glob),
    ensures
        ({
            let r = judged(call_text(tool, glob), tool, input);
            let path = if input.get("file_path"@) is Some {
                input.get_str("file_path"@)
            } else {
                input.get_str("path"@)
            };
            &&& !glob_accepted(glob) ==> r == MatchResult::Ambiguous
            &&& path is None ==> r == MatchResult::Ambiguous
            &&& glob_accepted(glob) && path is Some ==> {
                &&& r == MatchResult::Confident <==> glob_match(glob, path->0) == Some(true)
                &&& r == MatchResult::NoMatch <==> glob_match(glob, path->0) == Some(false)
                &&& r == MatchResult::Ambiguous <==> glob_match(glob, path->0) is None
            }
        }),
{
    lemma_tools();
    lemma_call_text(tool, glob);
}

/// An argument of a tool whose calls are not understood is left to the user.
pub proof fn law_other_arguments_ask(tool: Seq<char>, args: Seq<char>, input: JsonValue)
    requires
        is_tool_name(tool),
        is_tight(args),
        tool != "Bash"@ && tool != "Agent"@ && tool != "Read"@ && tool != "Edit"@ && tool
            != "Write"@ && tool != "MultiEdit"@ && tool != "Glob"@ && tool != "Grep"@,
    ensures
        judged(call_text(tool, args), tool, input) == MatchResult::Ambiguous,
{
    lemma_call_text(tool, args);
}

/// An entry for one tool says nothing of the calls of another.
pub proof fn law_entry_is_for_its_tool(
    tool: Seq<char>,
    args: Seq<char>,
    called: Seq<char>,
    input: JsonValue,
)
    requires
        is_tool_name(tool),
        is_tight(args),
        called != tool,
    ensures
        judged(call_text(tool, args), called, input) == MatchResult::NoMatch,
{
    lemma_call_text(tool, args);
}

/// The name of a tool alone means every call of that tool and none of another.
/// White space around it does not count.
pub proof fn law_bare_name_means_the_tool(
    before: Seq<char>,
    name: Seq<char>,
    after: Seq<char>,
    called: Seq<char>,
    input: JsonValue,
)
    requires
        is_tool_name(name),
        name.len() < 5 || name.take(5) != seq!['m', 'c', 'p', '_', '_'],
        all_white(before),
        all_white(after),
    ensures
        judged(before + name + after, called, input) == if called == name {
            MatchResult::Confident
        } else {
            MatchResult::NoMatch
        },
{
    law_trim_takes_what_is_around(before, name, after);
    reveal_strlit("mcp__");
    assert("mcp__"@ =~= seq!['m', 'c', 'p', '_', '_']);
    if has_prefix(name, "mcp__"@) {
        assert(name.take(5) =~= "mcp__"@);
    }
}

/// `mcp__…` means the method of that id; with a star at its end it means the
/// methods whose id starts with what stands before the star.
pub proof fn law_mcp_entry(id: Seq<char>, called: Seq<char>, input: JsonValue)
    requires
        !id.contains('('),
        id.len() > 0 ==> !is_white_space(id.last()),
    ensures
        ({
            let full = seq!['m', 'c', 'p', '_', '_'] + id;
            &&& id.len() == 0 || id.last() != '*' ==> judged(full, called, input) == if called
                == full {
                MatchResult::Confident
            } else {
                MatchResult::NoMatch
            }
            &&& judged(full.push('*'), called, input) == if full.len() <= called.len()
                && called.take(full.len() as int) == full {
                MatchResult::Confident
            } else {
                MatchResult::NoMatch
            }
        }),
{
    let full = seq!['m', 'c', 'p', '_', '_'] + id;
    reveal_strlit("mcp__");
    reveal_strlit("*");
    assert("mcp__"@ =~= seq!['m', 'c', 'p', '_', '_']);
    assert("*"@ =~= seq!['*']);
    law_white_space('m');
    law_white_space('_');
    law_white_space('*');
    assert(full[0] == 'm');
    assert(full.last() == if id.len() > 0 {
        id.last()
    } else {
        '_'
    });
    lemma_trim_idle(full);
    assert forall|i: int| 0 <= i < full.len() implies full[i] != '(' by {
        if i >= 5 {
            assert(id.contains(id[i - 5]));
        }
    }
    law_prefix_letter_by_letter(full, "mcp__"@);
    law_suffix_letter_by_letter(full, "*"@);
    assert("*"@[0] == '*');
    let star = full.push('*');
    assert(star[0] == 'm');
    lemma_trim_idle(star);
    assert forall|i: int| 0 <= i < star.len() implies star[i] != '(' by {
        if i < full.len() {
            assert(star[i] == full[i]);
        }
    }
    law_prefix_letter_by_letter(star, "mcp__"@);
    law_suffix_letter_by_letter(star, "*"@);
    assert(star.subrange(0, star.len() - 1) =~= full);
    if full.len() <= called.len() {
        assert(called.subrange(0, full.len() as int) == called.take(full.len() as int));
    }
}

/// An entry that opens a bracket and does not close it behind, or that is blank,
/// is not understood: it may mean any tool whose name stands in it, and is never
/// sure.
pub proof fn law_broken_entry_is_never_sure(entry: Seq<char>, called: Seq<char>, input: JsonValue)
    requires
        trim_of(entry).len() == 0 || (trim_of(entry).contains('(') && !trim_of(entry).contains(')')),
    ensures
        judged(entry, called, input) == if has_block(entry, called) {
            MatchResult::Ambiguous
        } else {
            MatchResult::NoMatch
        },
{
    let t = trim_of(entry);
    if t.len() > 0 {
        assert forall|i: int| 0 <= i < t.len() implies t[i] != ')' by {
            assert(t.contains(t[i]));
        }
        lemma_last_end_unique(t, ')', 0);
    }
}

/// What an entry is shown as is what was written.
pub proof fn law_entry_is_shown_as_written(entry: Seq<char>)
    ensures
        raw_of(pattern_value(entry)) == entry,
{
}

// ---------------------------------------------------------------------------
// The decision.

/// The modes in which the lists are asked.
pub open spec fn is_asking(mode: PermissionMode) -> bool {
    mode == PermissionMode::Default || mode == PermissionMode::Plan || mode
        == PermissionMode::Unknown
}

/// Whether `i` is the first place in a list that judges the call like this.
pub open spec fn is_first(
    list: Seq<PatternValue>,
    tool: Seq<char>,
    input: JsonValue,
    wanted: MatchResult,
    i: int,
) -> bool {
    &&& 0 <= i < list.len()
    &&& match_result(list[i], tool, input) == wanted
    &&& forall|j: int| 0 <= j < i ==> match_result(#[trigger] list[j], tool, input) != wanted
}

/// Whether no pattern of a list judges the call like this.
pub open spec fn none_is(
    list: Seq<PatternValue>,
    tool: Seq<char>,
    input: JsonValue,
    unwanted: MatchResult,
) -> bool {
    forall|j: int| 0 <= j < list.len() ==> match_result(#[trigger] list[j], tool, input) != unwanted
}

proof fn lemma_first(
    list: Seq<PatternValue>,
    tool: Seq<char>,
    input: JsonValue,
    wanted: MatchResult,
    i: int,
)
    ensures
        is_first(list, tool, input, wanted, i) ==> first_match(list, tool, input, wanted) == Some(
            list[i],
        ),
        none_is(list, tool, input, wanted) ==> first_match(list, tool, input, wanted) is None,
    decreases list.len(),
{
    if list.len() > 0 && match_result(list[0], tool, input) != wanted {
        let rest = list.subrange(1, list.len() as int);
        assert(forall|j: int| 0 <= j < rest.len() ==> #[trigger] rest[j] == list[j + 1]);
        lemma_first(rest, tool, input, wanted, i - 1);
    }
}

/// Outside the permissive modes the lists decide, in this order: a sure deny
/// pattern denies; an unsure one asks; a sure allow pattern allows; an unsure one
/// asks; and without any the user is asked. The first pattern of its kind is the
/// one that is named.
pub proof fn law_lists_decide_in_order(
    mode: PermissionMode,
    tool: Seq<char>,
    input: JsonValue,
    lists: AllowlistValue,
    i: int,
)
    requires
        is_asking(mode),
    ensures
        ({
            let d = decision_of(mode, tool, input, lists);
            let no_deny = none_is(lists.deny, tool, input, MatchResult::Confident) && none_is(
                lists.deny,
                tool,
                input,
                MatchResult::Ambiguous,
            );
            &&& is_first(lists.deny, tool, input, MatchResult::Confident, i) ==> d
                == (DecisionValue::Deny { reason: "permissions.deny: "@ + raw_of(lists.deny[i]) })
            &&& none_is(lists.deny, tool, input, MatchResult::Confident) && is_first(
                lists.deny,
                tool,
                input,
                MatchResult::Ambiguous,
                i,
            ) ==> d == (DecisionValue::AskAnnotated {
                matched_pattern: raw_of(lists.deny[i]),
                source: AllowOrDeny::Deny,
            })
            &&& no_deny && is_first(lists.allow, tool, input, MatchResult::Confident, i) ==> d
                == (DecisionValue::Allow { reason: "permissions.allow: "@ + raw_of(lists.allow[i]) })
            &&& no_deny && none_is(lists.allow, tool, input, MatchResult::Confident) && is_first(
                lists.allow,
                tool,
                input,
                MatchResult::Ambiguous,
                i,
            ) ==> d == (DecisionValue::AskAnnotated {
                matched_pattern: raw_of(lists.allow[i]),
                source: AllowOrDeny::Allow,
            })
            &&& no_deny && none_is(lists.allow, tool, input, MatchResult::Confident) && none_is(
                lists.allow,
                tool,
                input,
                MatchResult::Ambiguous,
            ) ==> d == DecisionValue::Intercept
        }),
{
    lemma_first(lists.deny, tool, input, MatchResult::Confident, i);
    lemma_first(lists.deny, tool, input, MatchResult::Ambiguous, i);
    lemma_first(lists.allow, tool, input, MatchResult::Confident, i);
    lemma_first(lists.allow, tool, input, MatchResult::Ambiguous, i);
}

/// A permissive mode allows whatever the lists say, and is named as the reason.
pub proof fn law_permissive_mode_is_the_reason(
    tool: Seq<char>,
    input: JsonValue,
    lists: AllowlistValue,
)
    ensures
        decision_of(PermissionMode::AcceptEdits, tool, input, lists) == (DecisionValue::Allow {
            reason: "permission_mode="@ + "AcceptEdits"@,
        }),
        decision_of(PermissionMode::Auto, tool, input, lists) == (DecisionValue::Allow {
            reason: "permission_mode="@ + "Auto"@,
        }),
        decision_of(PermissionMode::DontAsk, tool, input, lists) == (DecisionValue::Allow {
            reason: "permission_mode="@ + "DontAsk"@,
        }),
        decision_of(PermissionMode::BypassPermissions, tool, input, lists) == (DecisionValue::Allow {
            reason: "permission_mode="@ + "BypassPermissions"@,
        }),
{
}

// ---------------------------------------------------------------------------
// Lists in settings.

/// Each text of a list in the settings is an entry, in its place; what is no text
/// is passed over.
pub proof fn law_list_grows_by_texts(items: Seq<JsonValue>, v: JsonValue)
    ensures
        patterns_in(Seq::empty()) == Seq::<PatternValue>::empty(),
        patterns_in(items.push(v)) == match v {
            JsonValue::Str(text) => patterns_in(items).push(pattern_value(text)),
            _ => patterns_in(items),
        },
{
    assert(items.push(v).drop_last() =~= items);
}

/// The lists of a settings document stand under `permissions`: `allow` and `deny`.
/// A list that is missing, or no list, is empty.
pub proof fn law_lists_stand_under_permissions(root: JsonValue)
    ensures
        ({
            let permissions = root.get("permissions"@);
            &&& permissions is None ==> settings_lists(root) == no_patterns()
            &&& permissions is Some ==> {
                let lists = settings_lists(root);
                &&& permissions->0.get("allow"@) matches Some(JsonValue::Array(items)) ==> lists.allow
                    == patterns_in(items)
                &&& permissions->0.get("deny"@) matches Some(JsonValue::Array(items)) ==> lists.deny
                    == patterns_in(items)
                &&& !(permissions->0.get("allow"@) is Some && permissions->0.get("allow"@)->0
                    is Array) ==> lists.allow.len() == 0
                &&& !(permissions->0.get("deny"@) is Some && permissions->0.get("deny"@)->0
                    is Array) ==> lists.deny.len() == 0
            }
        }),
{
}

/// The settings that allow one entry and deny nothing.
pub open spec fn allowing(entry: Seq<char>) -> JsonValue {
    JsonValue::Object(
        seq![
            (
                "permissions"@,
                JsonValue::Object(
                    seq![("allow"@, JsonValue::Array(seq![JsonValue::Str(entry)]))],
                ),
            ),
        ],
    )
}

/// The settings that deny one entry and allow nothing.
pub open spec fn denying(entry: Seq<char>) -> JsonValue {
    JsonValue::Object(
        seq![
            (
                "permissions"@,
                JsonValue::Object(
                    seq![("deny"@, JsonValue::Array(seq![JsonValue::Str(entry)]))],
                ),
            ),
        ],
    )
}

/// From the settings to the decision, for one entry: a call that it surely means
/// is allowed, or denied, without asking; one that it may mean is asked about; one
/// that it does not mean is asked about too.
pub proof fn law_entry_decides(
    mode: PermissionMode,
    entry: Seq<char>,
    tool: Seq<char>,
    input: JsonValue,
)
    requires
        is_asking(mode),
    ensures
        ({
            let r = judged(entry, tool, input);
            let allowed = decision_of(mode, tool, input, settings_lists(allowing(entry)));
            let denied = decision_of(mode, tool, input, settings_lists(denying(entry)));
            &&& r == MatchResult::Confident <==> allowed is Allow
            &&& r == MatchResult::Ambiguous <==> allowed is AskAnnotated
            &&& r == MatchResult::NoMatch <==> allowed is Intercept
            &&& r == MatchResult::Confident <==> denied is Deny
            &&& r == MatchResult::Ambiguous <==> denied is AskAnnotated
            &&& r == MatchResult::NoMatch <==> denied is Intercept
        }),
{
    let one = seq![JsonValue::Str(entry)];
    law_list_grows_by_texts(Seq::empty(), JsonValue::Str(entry));
    assert(one =~= Seq::empty().push(JsonValue::Str(entry)));
    reveal_strlit("allow");
    reveal_strlit("deny");
    assert("allow"@.len() == 5 && "deny"@.len() == 4);
    let a = settings_lists(allowing(entry));
    let d = settings_lists(denying(entry));
    assert(allowing(entry)->Object_0[0].0 == "permissions"@);
    assert(denying(entry)->Object_0[0].0 == "permissions"@);
    reveal_with_fuel(crate::assoc::index_of, 3);
    assert(a.allow =~= seq![pattern_value(entry)]);
    assert(a.deny =~= Seq::empty());
    assert(d.deny =~= seq![pattern_value(entry)]);
    assert(d.allow =~= Seq::empty());
    law_lists_decide_in_order(mode, tool, input, a, 0);
    law_lists_decide_in_order(mode, tool, input, d, 0);
}

/// Three sources together hold every entry of each, the local ones first, then
/// those of the project, then the user's, and nothing else.
pub proof fn law_cascade_holds_all(
    local: AllowlistValue,
    project: AllowlistValue,
    user: AllowlistValue,
    i: int,
)
    ensures
        ({
            let all = cascaded(local, project, user);
            &&& all.allow.len() == local.allow.len() + project.allow.len() + user.allow.len()
            &&& all.deny.len() == local.deny.len() + project.deny.len() + user.deny.len()
            &&& 0 <= i < local.allow.len() ==> all.allow[i] == local.allow[i]
            &&& 0 <= i < local.deny.len() ==> all.deny[i] == local.deny[i]
            &&& 0 <= i < project.allow.len() ==> all.allow[local.allow.len() + i] == project.allow[i]
            &&& 0 <= i < project.deny.len() ==> all.deny[local.deny.len() + i] == project.deny[i]
            &&& 0 <= i < user.allow.len() ==> all.allow[local.allow.len() + project.allow.len() + i]
                == user.allow[i]
            &&& 0 <= i < user.deny.len() ==> all.deny[local.deny.len() + project.deny.len() + i]
                == user.deny[i]
        }),
{
}

/// In a project that was added, its lists hold before the user's; elsewhere the
/// user's hold alone, and other projects keep theirs.
pub proof fn law_added_project_holds(
    cache: CacheValue,
    root: Seq<char>,
    lists: ProjectLists,
    other: Seq<char>,
)
    requires
        lookup(cache.projects, root) is None,
    ensures
        ({
            let after = with_project(cache, root, lists);
            &&& lists_for(after, Some(root)).allow == lists.local.allow + lists.project.allow
                + cache.user.allow
            &&& lists_for(after, Some(root)).deny == lists.local.deny + lists.project.deny
                + cache.user.deny
            &&& lists_for(after, None) == cache.user
            &&& lists_for(cache, Some(root)) == cache.user
            &&& other != root ==> lists_for(after, Some(other)) == lists_for(cache, Some(other))
        }),
{
    crate::assoc::lemma_put(cache.projects, root, lists, root);
    crate::assoc::lemma_put(cache.projects, root, lists, other);
}

/// Letters with a meaning in globs are not plain; letters, digits and what paths
/// are made of are.
pub proof fn law_plain_letters(text: Seq<char>)
    ensures
        text.contains('*') || text.contains('?') || text.contains('[') || text.contains('{')
            || text.contains('}') || text.contains('\\') ==> !is_plain(text),
        text.len() > 0 && (forall|i: int|
            0 <= i < text.len() ==> ('a' <= #[trigger] text[i] <= 'z' || 'A' <= text[i] <= 'Z' || '0'
                <= text[i] <= '9' || text[i] == '/' || text[i] == '.' || text[i] == '-' || text[i]
                == '_')) ==> is_plain(text),
{
}

/// White space around a tool and around its argument does not count.
pub proof fn law_blanks_do_not_count(
    a: Seq<char>,
    tool: Seq<char>,
    b: Seq<char>,
    c: Seq<char>,
    args: Seq<char>,
    d: Seq<char>,
    e: Seq<char>,
    called: Seq<char>,
    input: JsonValue,
)
    requires
        is_tool_name(tool),
        is_tight(args),
        all_white(a),
        all_white(b),
        all_white(c),
        all_white(d),
        all_white(e),
    ensures
        judged(a + (tool + b + seq!['('] + c + args + d + seq![')']) + e, called, input) == judged(
            call_text(tool, args),
            called,
            input,
        ),
{
    let core = tool + b + seq!['('] + c + args + d + seq![')'];
    law_white_space('(');
    law_white_space(')');
    assert(core[0] == tool[0]);
    assert(core.last() == ')');
    law_trim_takes_what_is_around(a, core, e);
    let open = (tool + b).len();
    assert(core[open as int] == '(');
    assert(core.contains('('));
    assert forall|i: int| 0 <= i < open implies core[i] != '(' by {
        if i < tool.len() {
            assert(core[i] == tool[i]);
            assert(tool.contains(tool[i]));
        } else {
            assert(core[i] == b[i - tool.len()]);
            assert(is_white_space(b[i - tool.len()]));
        }
    }
    lemma_first_index_unique(core, '(', open);
    lemma_last_end_unique(core, ')', core.len());
    assert(core.subrange(0, open as int) =~= Seq::empty() + tool + b);
    assert(core.subrange(open as int + 1, core.len() - 1) =~= c + args + d);
    law_trim_takes_what_is_around(Seq::empty(), tool, b);
    law_trim_takes_what_is_around(c, args, d);
    lemma_call_text(tool, args);
}

/// What stands behind the last closing bracket does not count.
pub proof fn law_behind_the_bracket(
    tool: Seq<char>,
    args: Seq<char>,
    rest: Seq<char>,
    called: Seq<char>,
    input: JsonValue,
)
    requires
        is_tool_name(tool),
        is_tight(args),
        rest.len() > 0,
        !is_white_space(rest.last()),
        !rest.contains(')'),
    ensures
        judged(call_text(tool, args) + rest, called, input) == judged(
            call_text(tool, args),
            called,
            input,
        ),
{
    let head = call_text(tool, args);
    let raw = head + rest;
    assert(raw[0] == tool[0]);
    assert(raw.last() == rest.last());
    lemma_trim_idle(raw);
    assert(raw[tool.len() as int] == '(');
    assert(raw.contains('('));
    assert forall|i: int| 0 <= i < tool.len() implies raw[i] != '(' by {
        assert(raw[i] == tool[i]);
        assert(tool.contains(tool[i]));
    }
    lemma_first_index_unique(raw, '(', tool.len());
    assert forall|i: int| head.len() <= i < raw.len() implies raw[i] != ')' by {
        assert(raw[i] == rest[i - head.len()]);
        assert(rest.contains(rest[i - head.len()]));
    }
    assert(raw[head.len() - 1] == ')');
    lemma_last_end_unique(raw, ')', head.len());
    assert(raw.subrange(0, tool.len() as int) =~= tool);
    assert(raw.subrange(tool.len() as int + 1, head.len() - 1) =~= args);
    lemma_trim_idle(tool);
    lemma_trim_idle(args);
    lemma_call_text(tool, args);
}

} // verus!
