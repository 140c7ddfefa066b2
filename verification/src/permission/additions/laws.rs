//! Laws of approvals for good: which pattern a call gets, what is written to the
//! settings and to the log, and what an undo takes back.

use vstd::prelude::*;
use crate::assoc::{lemma_put, lookup};
use crate::json::JsonValue;
use crate::json_form::positional;
use crate::outside::{is_plain, json_text};
use crate::path_laws::is_name;
use crate::paths::{components, normalized, same_path};
use crate::permission::additions::audit_log::{
    line_entries, line_entry, log_entries, logged_entry, open_undos, row_entry, row_json,
    same_addition, stands, target_json, target_value, tsv_entry, AdditionMetadata, EntryValue,
};
use crate::permission::additions::derive::{derived_text, quoted_field};
use crate::permission::additions::target::{local_settings, TargetValue};
use crate::permission::additions::undo::{collides, is_filesystem_root};
use crate::permission::additions::write::{
    added_to, holds_text, removed_from, with_allow, without_text, AddValue,
};
use crate::proto::hook::text_of;
use crate::proto::laws::{is_optional, may_be_text};
use crate::setup::{kind_name, settings_file};
use crate::text::{
    has_prefix, lemma_first_index_unique, lemma_trim_idle, pieces, pieces_up_to, trim_of,
};
use crate::text_laws::{
    is_tight, joined, law_prefix_letter_by_letter, law_suffix_letter_by_letter,
    law_trimmed_is_tight,
};

verus! {

// ---------------------------------------------------------------------------
// Derived patterns.

proof fn lemma_tight(s: Seq<char>)
    ensures
        trim_of(s) == s <==> is_tight(s),
{
    if is_tight(s) {
        lemma_trim_idle(s);
    } else {
        let parts = law_trimmed_is_tight(s);
    }
}

proof fn lemma_quoted_fields()
    ensures
        quoted_field("Bash"@) == Some("command"@),
        quoted_field("Read"@) == Some("file_path"@),
        quoted_field("Edit"@) == Some("file_path"@),
        quoted_field("Write"@) == Some("file_path"@),
        quoted_field("MultiEdit"@) == Some("file_path"@),
        quoted_field("Agent"@) == Some("subagent_type"@),
        "command"@ != "file_path"@,
        "subagent_type"@ != "file_path"@,
        "subagent_type"@ != "command"@,
        !has_prefix("Bash"@, "mcp__"@),
        !has_prefix("Read"@, "mcp__"@),
        !has_prefix("Edit"@, "mcp__"@),
        !has_prefix("Write"@, "mcp__"@),
        !has_prefix("MultiEdit"@, "mcp__"@),
        !has_prefix("Agent"@, "mcp__"@),
{
    reveal_strlit("Bash");
    reveal_strlit("Read");
    reveal_strlit("Edit");
    reveal_strlit("Write");
    reveal_strlit("MultiEdit");
    reveal_strlit("Agent");
    reveal_strlit("mcp__");
    reveal_strlit("command");
    reveal_strlit("file_path");
    reveal_strlit("subagent_type");
    assert("command"@.len() == 7 && "file_path"@.len() == 9 && "subagent_type"@.len() == 13);
    assert("Bash"@[0] == 'B' && "Read"@[0] == 'R' && "Edit"@[0] == 'E' && "Write"@[0] == 'W'
        && "MultiEdit"@[0] == 'M' && "Agent"@[0] == 'A' && "mcp__"@[0] == 'm');
    law_prefix_letter_by_letter("Bash"@, "mcp__"@);
    law_prefix_letter_by_letter("Read"@, "mcp__"@);
    law_prefix_letter_by_letter("Edit"@, "mcp__"@);
    law_prefix_letter_by_letter("Write"@, "mcp__"@);
    law_prefix_letter_by_letter("MultiEdit"@, "mcp__"@);
    law_prefix_letter_by_letter("Agent"@, "mcp__"@);
}

/// The pattern for a command quotes the whole command, unless blanks around it or
/// a `:*` at its end would make it mean another; then there is none.
pub proof fn law_pattern_for_a_command(input: JsonValue)
    ensures
        input.get_str("command"@) is None ==> derived_text("Bash"@, input) is None,
        input.get_str("command"@) matches Some(command) ==> {
            let exact = is_tight(command) && (command.len() < 2 || command[command.len() - 2] != ':'
                || command.last() != '*');
            &&& exact ==> derived_text("Bash"@, input) == Some("Bash"@ + seq!['('] + command + seq![
                ')',
            ])
            &&& !exact ==> derived_text("Bash"@, input) is None
        },
{
    lemma_quoted_fields();
    reveal_strlit("(");
    reveal_strlit(")");
    reveal_strlit(":*");
    assert("("@ =~= seq!['(']);
    assert(")"@ =~= seq![')']);
    assert(":*"@ =~= seq![':', '*']);
    if let Some(command) = input.get_str("command"@) {
        lemma_tight(command);
        law_suffix_letter_by_letter(command, ":*"@);
        assert(":*"@[0] == ':' && ":*"@[1] == '*');
        if command.len() >= 2 && command[command.len() - 2] == ':' && command.last() == '*' {
            assert forall|i: int| 0 <= i < 2 implies command[command.len() - 2 + i]
                == #[trigger] ":*"@[i] by {}
        }
    }
}

/// The pattern for a file quotes its path, unless blanks around it or a letter
/// with a meaning in globs would make it mean another.
pub proof fn law_pattern_for_a_file(tool: Seq<char>, input: JsonValue)
    requires
        tool == "Read"@ || tool == "Edit"@ || tool == "Write"@ || tool == "MultiEdit"@,
    ensures
        input.get_str("file_path"@) is None ==> derived_text(tool, input) is None,
        input.get_str("file_path"@) matches Some(path) ==> {
            &&& is_tight(path) && is_plain(path) ==> derived_text(tool, input) == Some(
                tool + seq!['('] + path + seq![')'],
            )
            &&& !is_tight(path) || !is_plain(path) ==> derived_text(tool, input) is None
        },
{
    lemma_quoted_fields();
    reveal_strlit("(");
    reveal_strlit(")");
    assert("("@ =~= seq!['(']);
    assert(")"@ =~= seq![')']);
    if let Some(path) = input.get_str("file_path"@) {
        lemma_tight(path);
    }
}

/// The pattern for a sub-agent quotes its type; that for an MCP method is its id,
/// unless a star or a bracket in it would make it mean another. Other tools have
/// none.
pub proof fn law_pattern_for_other_tools(tool: Seq<char>, input: JsonValue, id: Seq<char>)
    ensures
        input.get_str("subagent_type"@) matches Some(kind) ==> derived_text("Agent"@, input)
            == if is_tight(kind) {
            Some("Agent"@ + seq!['('] + kind + seq![')'])
        } else {
            None
        },
        input.get_str("subagent_type"@) is None ==> derived_text("Agent"@, input) is None,
        ({
            let full = seq!['m', 'c', 'p', '_', '_'] + id;
            derived_text(full, input) == if is_tight(full) && full.last() != '*' && !full.contains(
                '(',
            ) {
                Some(full)
            } else {
                None
            }
        }),
        tool != "Bash"@ && tool != "Read"@ && tool != "Edit"@ && tool != "Write"@ && tool
            != "MultiEdit"@ && tool != "Agent"@ && (tool.len() < 5 || tool.take(5) != seq![
            'm',
            'c',
            'p',
            '_',
            '_',
        ]) ==> derived_text(tool, input) is None,
{
    lemma_quoted_fields();
    reveal_strlit("(");
    reveal_strlit(")");
    reveal_strlit("*");
    reveal_strlit("mcp__");
    assert("("@ =~= seq!['(']);
    assert(")"@ =~= seq![')']);
    assert("*"@ =~= seq!['*']);
    let head = seq!['m', 'c', 'p', '_', '_'];
    assert("mcp__"@ =~= head);
    if let Some(kind) = input.get_str("subagent_type"@) {
        lemma_tight(kind);
    }
    let full = head + id;
    lemma_tight(full);
    law_prefix_letter_by_letter(full, head);
    law_suffix_letter_by_letter(full, "*"@);
    assert("*"@[0] == '*');
    if full.last() == '*' {
        assert forall|i: int| 0 <= i < 1 implies full[full.len() - 1 + i] == #[trigger] "*"@[i] by {}
    }
    if has_prefix(tool, head) {
        assert(tool.take(5) =~= head);
    }
}

// ---------------------------------------------------------------------------
// Settings.

/// When a pattern is added, when it is there already, and when the settings have
/// no place for it.
pub proof fn law_when_a_pattern_is_added(settings: JsonValue, pattern: Seq<char>)
    ensures
        ({
            let r = added_to(settings, pattern);
            let permissions = settings.get("permissions"@);
            let allow = permissions->0.get("allow"@);
            &&& !(settings is Object) ==> r == (AddValue::Root { got: kind_name(settings) })
            &&& settings is Object && permissions is None ==> r is Added
            &&& settings is Object && permissions is Some && !(permissions->0 is Object) ==> r
                is Permissions
            &&& settings is Object && permissions is Some && permissions->0 is Object ==> {
                &&& allow is None ==> r is Added
                &&& allow is Some && !(allow->0 is Array) ==> r == (AddValue::Allow {
                    got: kind_name(allow->0),
                })
                &&& allow matches Some(JsonValue::Array(items)) ==> {
                    &&& items.contains(JsonValue::Str(pattern)) ==> r is AlreadyPresent
                    &&& !items.contains(JsonValue::Str(pattern)) ==> r is Added
                }
            }
        }),
{
    if let Some(JsonValue::Array(items)) = settings.get("permissions"@)->0.get("allow"@) {
        lemma_holds(items, pattern);
    }
}

proof fn lemma_holds(items: Seq<JsonValue>, text: Seq<char>)
    ensures
        holds_text(items, text) <==> items.contains(JsonValue::Str(text)),
{
    if items.contains(JsonValue::Str(text)) {
        let i = choose|i: int| 0 <= i < items.len() && items[i] == JsonValue::Str(text);
        assert(items[i] == JsonValue::Str(text));
    }
}

/// Adding a pattern changes nothing but the list of what is allowed: every other
/// setting, and every other permission, stays.
pub proof fn law_adding_keeps_the_rest(settings: JsonValue, pattern: Seq<char>, key: Seq<char>)
    requires
        added_to(settings, pattern) is Added,
    ensures
        ({
            let after = added_to(settings, pattern)->Added_0;
            let permissions = after.get("permissions"@);
            &&& key != "permissions"@ ==> after.get(key) == settings.get(key)
            &&& permissions is Some
            &&& permissions->0 is Object
            &&& key != "allow"@ ==> permissions->0.get(key) == (match settings.get("permissions"@) {
                Some(old) => old.get(key),
                None => None,
            })
            &&& permissions->0.get("allow"@) matches Some(JsonValue::Array(items)) && {
                &&& items.len() > 0
                &&& items.last() == JsonValue::Str(pattern)
                &&& items.drop_last() == (match settings.get("permissions"@) {
                    Some(old) => match old.get("allow"@) {
                        Some(JsonValue::Array(before)) => before,
                        _ => Seq::empty(),
                    },
                    None => Seq::empty(),
                })
            }
        }),
{
    lemma_rewritten(settings, key);
    let one = seq![JsonValue::Str(pattern)];
    assert(one.drop_last() =~= Seq::empty());
    if let Some(JsonValue::Array(items)) = settings.get("permissions"@)->0.get("allow"@) {
        assert(items.push(JsonValue::Str(pattern)).drop_last() =~= items);
    }
}

proof fn lemma_rewritten(settings: JsonValue, key: Seq<char>)
    ensures
        settings matches JsonValue::Object(members) ==> forall|
            permissions: Seq<(Seq<char>, JsonValue)>,
            allow: Seq<JsonValue>,
        |
            #![trigger with_allow(members, permissions, allow)]
            {
                let after = with_allow(members, permissions, allow);
                &&& key != "permissions"@ ==> after.get(key) == settings.get(key)
                &&& after.get("permissions"@) is Some
                &&& after.get("permissions"@)->0 is Object
                &&& key != "allow"@ ==> after.get("permissions"@)->0.get(key) == lookup(
                    permissions,
                    key,
                )
                &&& after.get("permissions"@)->0.get("allow"@) == Some(JsonValue::Array(allow))
            },
{
    if let JsonValue::Object(members) = settings {
        assert forall|permissions: Seq<(Seq<char>, JsonValue)>, allow: Seq<JsonValue>|
            #![trigger with_allow(members, permissions, allow)]
            {
                let after = with_allow(members, permissions, allow);
                &&& key != "permissions"@ ==> after.get(key) == settings.get(key)
                &&& after.get("permissions"@) is Some
                &&& after.get("permissions"@)->0 is Object
                &&& key != "allow"@ ==> after.get("permissions"@)->0.get(key) == lookup(
                    permissions,
                    key,
                )
                &&& after.get("permissions"@)->0.get("allow"@) == Some(JsonValue::Array(allow))
            } by {
            let inner = crate::assoc::put(permissions, "allow"@, JsonValue::Array(allow));
            lemma_put(permissions, "allow"@, JsonValue::Array(allow), key);
            lemma_put(permissions, "allow"@, JsonValue::Array(allow), "allow"@);
            lemma_put(members, "permissions"@, JsonValue::Object(inner), key);
            lemma_put(members, "permissions"@, JsonValue::Object(inner), "permissions"@);
        }
    }
}

proof fn lemma_without_is_filter(items: Seq<JsonValue>, text: Seq<char>)
    ensures
        without_text(items, text) == items.filter(|v: JsonValue| v != JsonValue::Str(text)),
    decreases items.len(),
{
    reveal(Seq::filter);
    if items.len() > 0 {
        lemma_without_is_filter(items.drop_last(), text);
    }
}

/// A pattern is taken out exactly if it is on the list of what is allowed. Every
/// other entry of that list stays, in order, and so does every other setting and
/// every other permission.
pub proof fn law_removing_keeps_the_rest(settings: JsonValue, pattern: Seq<char>, key: Seq<char>)
    ensures
        ({
            let r = removed_from(settings, pattern);
            let permissions = settings.get("permissions"@);
            let listed = permissions is Some && permissions->0.get("allow"@) is Some
                && permissions->0.get("allow"@)->0 is Array && permissions->0.get(
                "allow"@,
            )->0->Array_0.contains(JsonValue::Str(pattern));
            &&& r is Some <==> listed
            &&& r matches Some(after) ==> {
                &&& key != "permissions"@ ==> after.get(key) == settings.get(key)
                &&& after.get("permissions"@) is Some
                &&& key != "allow"@ ==> after.get("permissions"@)->0.get(key)
                    == permissions->0.get(key)
                &&& after.get("permissions"@)->0.get("allow"@) == Some(
                    JsonValue::Array(
                        permissions->0.get("allow"@)->0->Array_0.filter(
                            |v: JsonValue| v != JsonValue::Str(pattern),
                        ),
                    ),
                )
            }
        }),
{
    lemma_rewritten(settings, key);
    if let Some(JsonValue::Array(items)) = settings.get("permissions"@)->0.get("allow"@) {
        lemma_holds(items, pattern);
        lemma_without_is_filter(items, pattern);
    }
}

/// Where settings stand: the user's in the configured directory, or else in the
/// agent's directory in the home directory; a project's local ones in the agent's
/// directory there.
pub proof fn law_where_settings_stand(
    config_dir: Seq<char>,
    home: Seq<char>,
    agent_dir: Seq<char>,
    root: Seq<char>,
)
    requires
        config_dir.len() > 0 && config_dir.last() != '/',
        home.len() > 0 && home.last() != '/',
        root.len() > 0 && root.last() != '/',
        is_name(agent_dir),
    ensures
        settings_file(Some(config_dir), Some(home), agent_dir) == Some(
            config_dir + seq!['/'] + "settings.json"@,
        ),
        settings_file(None, Some(home), agent_dir) == Some(
            home + seq!['/'] + agent_dir + seq!['/'] + "settings.json"@,
        ),
        settings_file(None, None, agent_dir) is None,
        local_settings(root, agent_dir) == root + seq!['/'] + agent_dir + seq!['/']
            + "settings.local.json"@,
{
    reveal_strlit("/");
    assert("/"@ =~= seq!['/']);
    assert(agent_dir.contains(agent_dir.last()));
    assert((home + seq!['/'] + agent_dir).last() == agent_dir.last());
    assert((root + seq!['/'] + agent_dir).last() == agent_dir.last());
}

// ---------------------------------------------------------------------------
// The log.

/// A row of the log carries each part under its own name, and a place by a word
/// of its own.
pub proof fn law_row_on_disk(ts: Seq<char>, e: EntryValue)
    ensures
        ({
            let v = row_json(ts, e);
            &&& v.get_str("ts"@) == Some(ts)
            &&& v.get_str("op"@) == Some(e.op)
            &&& v.get_str("pattern"@) == Some(e.pattern)
            &&& v.get_str("tool_use_id"@) == Some(e.tool_use_id)
            &&& v.get_str("session_id"@) == Some(e.session_id)
            &&& v.get_str("agent"@) == e.agent_type
            &&& e.target matches TargetValue::ProjectLocal { root } ==> v.get("target"@) is Some
                && v.get("target"@)->0.get("project_local"@) is Some && v.get("target"@)->0.get(
                "project_local"@,
            )->0.get_str("root"@) == Some(root)
            &&& e.target is UserGlobal ==> v.get_str("target"@) == Some("user_global"@)
        }),
{
    crate::permission::additions::audit_log::lemma_row_keys(ts, e);
    if let TargetValue::ProjectLocal { root } = e.target {
        let inner = seq![("root"@, JsonValue::Str(root))];
        assert(inner[0].0 == "root"@);
        let outer = seq![("project_local"@, JsonValue::Object(inner))];
        assert(outer[0].0 == "project_local"@);
        assert(lookup(inner, "root"@) == Some(JsonValue::Str(root)));
        assert(lookup(outer, "project_local"@) == Some(JsonValue::Object(inner)));
    }
}

/// A row is read from the names of its parts; without one of them it is none. A
/// place that is not known is kept as that.
pub proof fn law_row_is_read(v: JsonValue)
    requires
        v is Object,
    ensures
        ({
            let full = v.get_str("ts"@) is Some && v.get_str("op"@) is Some && v.get_str("pattern"@)
                is Some && v.get_str("tool_use_id"@) is Some && v.get_str("session_id"@) is Some
                && may_be_text(v, "agent"@) && v.get("target"@) is Some;
            let word = v.get_str("target"@);
            &&& !full ==> row_entry(v) is None
            &&& full && word is Some && word != Some("project_local"@) ==> row_entry(v) is Some
            &&& word == Some("user_global"@) ==> (row_entry(v) matches Some(e) ==> e.target
                is UserGlobal)
            &&& word is Some && word != Some("user_global"@) ==> (row_entry(v) matches Some(e)
                ==> e.target is Unknown)
            &&& row_entry(v) matches Some(e) ==> {
                &&& v.get_str("op"@) == Some(e.op)
                &&& v.get_str("pattern"@) == Some(e.pattern)
                &&& v.get_str("tool_use_id"@) == Some(e.tool_use_id)
                &&& v.get_str("session_id"@) == Some(e.session_id)
                &&& is_optional(v, "agent"@, e.agent_type)
            }
        }),
{
}

/// A place in a project is read from its directory.
pub proof fn law_project_place_is_read(root: Seq<char>)
    ensures
        target_value(target_json(TargetValue::ProjectLocal { root })) == Some(
            TargetValue::ProjectLocal { root },
        ),
        target_value(JsonValue::Str("user_global"@)) == Some(TargetValue::UserGlobal),
        target_value(JsonValue::Str("project_local"@)) is None,
        target_value(JsonValue::Null) is None,
{
    reveal_strlit("user_global");
    reveal_strlit("project_local");
    assert("user_global"@.len() == 11 && "project_local"@.len() == 13);
    let inner = seq![("root"@, JsonValue::Str(root))];
    assert(inner[0].0 == "root"@);
    assert(lookup(inner, "root"@) == Some(JsonValue::Str(root)));
}

/// An old line has its parts between tabs: the time, the deed, the pattern, the
/// call, the session, the agent and the place. Of these the last four may be
/// missing.
pub proof fn law_old_line_is_read(cols: Seq<Seq<char>>, line: Seq<char>)
    requires
        3 <= cols.len() <= 7,
        forall|i: int| 0 <= i < cols.len() ==> !(#[trigger] cols[i]).contains('\t'),
        line == joined(cols, '\t'),
    ensures
        tsv_entry(line) matches Some(e) && {
            &&& e.op == cols[1]
            &&& e.pattern == cols[2]
            &&& cols.len() > 3 ==> e.tool_use_id == cols[3]
            &&& cols.len() > 4 ==> e.session_id == cols[4]
            &&& cols.len() > 5 && cols[5].len() > 0 ==> e.agent_type == Some(cols[5])
            &&& cols.len() <= 5 || cols[5].len() == 0 ==> e.agent_type is None
            &&& cols.len() <= 6 ==> e.target is UserGlobal
            &&& cols.len() == 7 ==> {
                &&& forall|root: Seq<char>|
                    cols[6] == #[trigger] ("project:"@ + root) ==> e.target
                        == (TargetValue::ProjectLocal { root })
                &&& !has_prefix(cols[6], "project:"@) ==> e.target is UserGlobal
            }
        },
{
    lemma_columns(cols, 7);
    let e = tsv_entry(line)->0;
    if cols.len() == 7 {
        assert forall|root: Seq<char>|
            cols[6] == #[trigger] ("project:"@ + root) implies e.target
            == (TargetValue::ProjectLocal { root }) by {
            law_prefix_letter_by_letter(cols[6], "project:"@);
            assert(cols[6].subrange("project:"@.len() as int, cols[6].len() as int) =~= root);
        }
    }
}

/// Two parts do not make a line.
pub proof fn law_short_old_line_is_skipped(cols: Seq<Seq<char>>, line: Seq<char>)
    requires
        1 <= cols.len() < 3,
        forall|i: int| 0 <= i < cols.len() ==> !(#[trigger] cols[i]).contains('\t'),
        line == joined(cols, '\t'),
    ensures
        tsv_entry(line) is None,
{
    lemma_columns(cols, 7);
}

proof fn lemma_columns(cols: Seq<Seq<char>>, max: nat)
    requires
        1 <= cols.len() <= max,
        forall|i: int| 0 <= i < cols.len() ==> !(#[trigger] cols[i]).contains('\t'),
    ensures
        pieces_up_to(joined(cols, '\t'), '\t', max) == cols,
    decreases cols.len(),
{
    let s = joined(cols, '\t');
    let first = cols[0];
    assert forall|i: int| 0 <= i < first.len() implies first[i] != '\t' by {
        assert(first.contains(first[i]));
    }
    if cols.len() == 1 {
        lemma_first_index_unique(s, '\t', s.len());
        assert(seq![s] =~= cols);
    } else {
        let rest = cols.subrange(1, cols.len() as int);
        assert forall|i: int| 0 <= i < rest.len() implies !(#[trigger] rest[i]).contains('\t') by {
            assert(rest[i] == cols[i + 1]);
        }
        lemma_columns(rest, (max - 1) as nat);
        assert(s == first + seq!['\t'] + joined(rest, '\t'));
        assert forall|i: int| 0 <= i < first.len() implies s[i] != '\t' by {}
        lemma_first_index_unique(s, '\t', first.len());
        assert(s.subrange(0, first.len() as int) =~= first);
        assert(s.subrange(first.len() as int + 1, s.len() as int) =~= joined(rest, '\t'));
        assert(seq![first] + rest =~= cols);
    }
}

/// A line that starts with a brace is a row, and any other an old line; a blank
/// line is none.
pub proof fn law_line_of_the_log(line: Seq<char>)
    ensures
        ({
            let kept = trim_of(line);
            &&& kept.len() == 0 ==> line_entry(line) is None
            &&& kept.len() > 0 && kept[0] == '{' && json_text(kept) is Some ==> line_entry(line)
                == row_entry(json_text(kept)->0)
            &&& kept.len() > 0 && kept[0] == '{' && json_text(kept) is None ==> line_entry(line)
                is None
            &&& kept.len() > 0 && kept[0] != '{' ==> line_entry(line) == tsv_entry(kept)
        }),
{
}

/// The log is read line by line, in order; lines that cannot be read are left
/// out.
pub proof fn law_log_line_by_line(line: Seq<char>, rest: Seq<char>)
    requires
        !line.contains('\n'),
    ensures
        log_entries(line + seq!['\n'] + rest) == (match line_entry(line) {
            Some(e) => seq![e],
            None => Seq::empty(),
        }) + log_entries(rest),
        log_entries(line) == (match line_entry(line) {
            Some(e) => seq![e],
            None => Seq::empty(),
        }),
{
    assert forall|i: int| 0 <= i < line.len() implies line[i] != '\n' by {
        assert(line.contains(line[i]));
    }
    lemma_first_index_unique(line, '\n', line.len());
    assert(pieces(line, '\n') =~= seq![line]);
    let a = line + seq!['\n'] + rest;
    lemma_first_index_unique(a, '\n', line.len());
    assert(a.subrange(0, line.len() as int) =~= line);
    assert(a.subrange(line.len() as int + 1, a.len() as int) =~= rest);
    lemma_first_line_entry(line, pieces(rest, '\n'));
    lemma_first_line_entry(line, Seq::empty());
    assert(seq![line] + Seq::<Seq<char>>::empty() =~= seq![line]);
    assert(line_entries(Seq::<Seq<char>>::empty()) =~= Seq::<EntryValue>::empty());
    assert(log_entries(line) =~= (match line_entry(line) {
        Some(e) => seq![e],
        None => Seq::empty(),
    }));
}

proof fn lemma_first_line_entry(line: Seq<char>, lines: Seq<Seq<char>>)
    ensures
        line_entries(seq![line] + lines) == (match line_entry(line) {
            Some(e) => seq![e],
            None => Seq::empty(),
        }) + line_entries(lines),
    decreases lines.len(),
{
    let all = seq![line] + lines;
    let head = match line_entry(line) {
        Some(e) => seq![e],
        None => Seq::<EntryValue>::empty(),
    };
    if lines.len() == 0 {
        assert(all =~= seq![line]);
        assert(all.drop_last() =~= Seq::<Seq<char>>::empty());
        assert(all.last() == line);
        assert(line_entries(Seq::<Seq<char>>::empty()) =~= Seq::<EntryValue>::empty());
        assert(line_entries(lines) =~= Seq::<EntryValue>::empty());
        assert(line_entries(all) =~= head + line_entries(lines));
    } else {
        lemma_first_line_entry(line, lines.drop_last());
        assert(all.drop_last() =~= seq![line] + lines.drop_last());
        assert(all.last() == lines.last());
        assert(line_entries(all) =~= head + line_entries(lines));
    }
}

/// What is logged names the deed, the pattern, the call, the first six letters of
/// the session, the agent and the place.
pub proof fn law_what_is_logged(
    op: Seq<char>,
    pattern: Seq<char>,
    metadata: AdditionMetadata,
    target: TargetValue,
)
    ensures
        ({
            let e = logged_entry(op, pattern, metadata, target);
            let session = metadata.session_id@;
            &&& e.op == op
            &&& e.pattern == pattern
            &&& e.tool_use_id == metadata.tool_use_id@
            &&& session.len() <= 6 ==> e.session_id == session
            &&& session.len() > 6 ==> e.session_id == session.take(6)
            &&& e.agent_type == text_of(metadata.agent_type)
            &&& e.target == target
        }),
{
}

/// An undo of another pattern, or for another call, takes nothing back.
pub proof fn law_undo_is_for_its_addition(entries: Seq<EntryValue>, i: int, undone: EntryValue)
    requires
        0 <= i < entries.len(),
        undone.pattern != entries[i].pattern || undone.tool_use_id != entries[i].tool_use_id,
    ensures
        stands(entries.push(undone), i) == stands(entries, i),
{
    let tail = entries.subrange(i + 1, entries.len() as int);
    let longer = entries.push(undone);
    assert(longer.subrange(i + 1, longer.len() as int) =~= tail.push(undone));
    lemma_other_is_passed_over(tail, undone, entries[i]);
}

proof fn lemma_other_is_passed_over(tail: Seq<EntryValue>, other: EntryValue, e: EntryValue)
    requires
        !same_addition(other, e),
    ensures
        open_undos(tail.push(other), e) == open_undos(tail, e),
    decreases tail.len(),
{
    let all = tail.push(other);
    if tail.len() == 0 {
        assert(all.subrange(1, all.len() as int) =~= Seq::empty());
        assert(open_undos(Seq::empty(), e) == 0);
    } else {
        let rest = tail.subrange(1, tail.len() as int);
        assert(all.subrange(1, all.len() as int) =~= rest.push(other));
        lemma_other_is_passed_over(rest, other, e);
    }
}

/// An undo takes back the addition of its pattern for its call that stands last
/// before it, if there is nothing between the two.
pub proof fn law_undo_takes_its_addition_back(
    entries: Seq<EntryValue>,
    added: EntryValue,
    undone: EntryValue,
)
    requires
        undone.op == "undone"@,
        undone.pattern == added.pattern,
        undone.tool_use_id == added.tool_use_id,
    ensures
        !stands(entries.push(added).push(undone), entries.len() as int),
{
    let all = entries.push(added).push(undone);
    let tail = all.subrange(entries.len() as int + 1, all.len() as int);
    assert(tail =~= seq![undone]);
    assert(tail[0] == undone);
    assert(tail.subrange(1, tail.len() as int) =~= Seq::empty());
    assert(open_undos(Seq::empty(), added) == 0);
}

// ---------------------------------------------------------------------------
// Places that an undo refuses.

/// The root of the file system has no names; a path with one is not the root.
pub proof fn law_root_of_the_file_system(dir: Seq<char>, name: Seq<char>)
    requires
        is_name(name),
    ensures
        is_filesystem_root(seq!['/']),
        is_filesystem_root(seq!['/', '/']),
        !is_filesystem_root(dir + seq!['/'] + name),
        !is_filesystem_root(name),
{
    crate::path_laws::law_names_one_by_one(dir, name);
    crate::path_laws::law_names_one_by_one(Seq::empty(), name);
    crate::path_laws::law_names_one_by_one(seq!['/'], name);
    assert(Seq::empty() + seq!['/'] =~= seq!['/']);
    assert(seq!['/'] + seq!['/'] =~= seq!['/', '/']);
    crate::paths::lemma_whole_piece(Seq::empty(), '/');
    crate::paths::lemma_pieces_closed(Seq::empty(), '/');
    assert(Seq::empty().push('/') =~= seq!['/']);
    crate::paths::lemma_pieces_closed(seq!['/'], '/');
    assert(seq!['/'].push('/') =~= seq!['/', '/']);
    reveal_strlit(".");
    assert("."@.len() == 1);
    assert(pieces(seq!['/'], '/')[0] == Seq::<char>::empty());
    assert(pieces(seq!['/', '/'], '/')[0] == Seq::<char>::empty());
    assert(components(seq!['/']) =~= Seq::<Seq<char>>::empty());
    assert(components(seq!['/', '/']) =~= Seq::<Seq<char>>::empty());
    assert(components(dir + seq!['/'] + name).len() > 0);
    assert(components(name).len() > 0);
}

/// A project's directory is the user's own exactly if the file system says so, or
/// their texts do where they are not there.
pub proof fn law_collision(root: Seq<char>, dir: Seq<char>, a: Seq<char>, b: Seq<char>)
    ensures
        collides(root, Some(a), dir, Some(b)) == same_path(a, b),
        collides(root, None, dir, Some(b)) == same_path(normalized(root), b),
        collides(root, Some(a), dir, None) == same_path(a, normalized(dir)),
        collides(root, None, root, None),
{
}

/// A place may also be given as an object that holds nothing else, and a project's
/// directory as an array of it.
pub proof fn law_other_forms_of_places(word: Seq<char>, root: Seq<char>, v: JsonValue)
    ensures
        target_value(JsonValue::Object(seq![("user_global"@, JsonValue::Null)])) == Some(
            TargetValue::UserGlobal,
        ),
        word != "user_global"@ && word != "project_local"@ ==> target_value(
            JsonValue::Object(seq![(word, JsonValue::Null)]),
        ) == Some(TargetValue::Unknown),
        word != "project_local"@ && !(v is Null) ==> target_value(
            JsonValue::Object(seq![(word, v)]),
        ) is None,
        target_value(
            JsonValue::Object(
                seq![("project_local"@, JsonValue::Array(seq![JsonValue::Str(root)]))],
            ),
        ) == Some(TargetValue::ProjectLocal { root }),
{
    reveal_strlit("user_global");
    reveal_strlit("project_local");
    assert("user_global"@.len() == 11 && "project_local"@.len() == 13);
    assert(seq![("user_global"@, JsonValue::Null)][0].0 == "user_global"@);
    assert(seq![(word, JsonValue::Null)][0] == (word, JsonValue::Null));
    assert(seq![(word, v)][0] == (word, v));
    let items = seq![JsonValue::Str(root)];
    let outer = seq![("project_local"@, JsonValue::Array(items))];
    assert(outer[0] == ("project_local"@, JsonValue::Array(items)));
    let m = seq![("root"@, JsonValue::Str(root))];
    assert(positional(seq!["root"@], items) =~= m);
    assert(m[0].0 == "root"@);
    crate::assoc::lemma_index_unique(m, "root"@, 0);
}

/// A row may also be an array of its parts, in order: the time, the deed, the
/// pattern, the call, the session, the agent and the place.
pub proof fn law_row_as_an_array(items: Seq<JsonValue>)
    ensures
        items.len() == 7 ==> row_entry(JsonValue::Array(items)) == row_entry(
            JsonValue::Object(
                seq![
                    ("ts"@, items[0]),
                    ("op"@, items[1]),
                    ("pattern"@, items[2]),
                    ("tool_use_id"@, items[3]),
                    ("session_id"@, items[4]),
                    ("agent"@, items[5]),
                    ("target"@, items[6]),
                ],
            ),
        ),
        items.len() != 7 ==> row_entry(JsonValue::Array(items)) is None,
{
    let names = crate::permission::additions::audit_log::row_names();
    if items.len() == 7 {
        assert(positional(names, items) =~= seq![
            ("ts"@, items[0]),
            ("op"@, items[1]),
            ("pattern"@, items[2]),
            ("tool_use_id"@, items[3]),
            ("session_id"@, items[4]),
            ("agent"@, items[5]),
            ("target"@, items[6]),
        ]);
    }
}

} // verus!
