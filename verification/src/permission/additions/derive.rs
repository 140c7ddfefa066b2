//! From a tool call to the pattern that means this call and no other.
//!
//! | tool | input | derived pattern |
//! |---|---|---|
//! | `mcp__*` | any | the tool's own id |
//! | `Bash` | `command` is text | `Bash(<command>)` |
//! | `Read`, `Edit`, `Write`, `MultiEdit` | `file_path` is text | `<tool>(<path>)` |
//! | `Agent` | `subagent_type` is text | `Agent(<type>)` |
//! | anything else | | none without a second confirmation |
//!
//! A text that a pattern does not take letter by letter, such as a command that
//! ends in `:*`, a path with a star or a text with blanks around it, gives no
//! pattern either: what would be written is too broad, or misses the call.

use vstd::prelude::*;
use crate::json::{Json, JsonValue};
use crate::outside::{is_glob_special, is_plain};
use crate::permission::pattern::{
    match_result, path_argument, pattern_value, split_call, takes_file_path, with_args_value,
    MatchResult, Pattern, PatternValue,
};
use crate::proto::hook::{text_of, PreToolUseEvent};
use crate::text::{
    find_char, first_index, has_prefix, has_suffix, join2, join3, last_end, lemma_first_index,
    lemma_first_index_unique, lemma_last_end_unique, lemma_trim_idle, starts_with, str_eq,
    strip_suffix, to_chars, trim, trim_of,
};

verus! {

/// A pattern derived from a tool call.
#[derive(Debug, Clone, PartialEq, Eq)]
pub enum DerivedPattern {
    /// A pattern that means this call and no other; it can be written as it is.
    Specific(String),
    /// Only the tool's bare name would match. That allows all its calls, so it
    /// is not written without a second confirmation.
    BareToolNeedsConfirmation { tool: String },
}

/// The input field that a derived pattern of `tool` quotes.
pub open spec fn quoted_field(tool: Seq<char>) -> Option<Seq<char>> {
    if tool == "Bash"@ {
        Some("command"@)
    } else if tool == "Read"@ || tool == "Edit"@ || tool == "Write"@ || tool == "MultiEdit"@ {
        Some("file_path"@)
    } else if tool == "Agent"@ {
        Some("subagent_type"@)
    } else {
        None
    }
}

/// The text that a derived pattern of `tool` quotes.
pub open spec fn quoted_text(tool: Seq<char>, input: JsonValue) -> Option<Seq<char>> {
    match quoted_field(tool) {
        Some(field) => input.get_str(field),
        None => None,
    }
}

/// Whether a pattern takes `text`, quoted in it for `tool`, letter by letter. No
/// blanks stand around it, which are lost; a command does not end in `:*`, which
/// makes a prefix of it; and a path holds nothing that a glob gives a meaning.
pub open spec fn is_literal(tool: Seq<char>, text: Seq<char>) -> bool {
    &&& trim_of(text) == text
    &&& quoted_field(tool) == Some("command"@) ==> !has_suffix(text, ":*"@)
    &&& quoted_field(tool) == Some("file_path"@) ==> is_plain(text)
}

/// Whether the id of an MCP method is taken letter by letter: a star at its end
/// would stand for more ids, and a bracket would start an argument.
pub open spec fn is_literal_id(id: Seq<char>) -> bool {
    trim_of(id) == id && !has_suffix(id, "*"@) && !id.contains('(')
}

/// The text of the pattern for exactly this call, if there is one.
pub open spec fn derived_text(tool: Seq<char>, input: JsonValue) -> Option<Seq<char>> {
    if has_prefix(tool, "mcp__"@) {
        if is_literal_id(tool) {
            Some(tool)
        } else {
            None
        }
    } else {
        match quoted_text(tool, input) {
            Some(text) => if is_literal(tool, text) {
                Some(tool + "("@ + text + ")"@)
            } else {
                None
            },
            None => None,
        }
    }
}

fn has_plain_chars(text: &str) -> (r: bool)
    ensures
        r == is_plain(text@),
{
    let chars = to_chars(text);
    let mut i: usize = 0;
    while i < chars.len()
        invariant
            i <= chars@.len(),
            chars@ == text@,
            forall|j: int| 0 <= j < i ==> !is_glob_special(#[trigger] chars@[j]),
        decreases chars@.len() - i,
    {
        let c = chars[i];
        if c == '?' || c == '*' || c == '[' || c == '{' || c == '}' || c == '\\' {
            assert(is_glob_special(text@[i as int]));
            return false;
        }
        i = i + 1;
    }
    chars.len() > 0
}

/// `<tool>(<text>)` for the argument of a call, if a pattern takes that text
/// letter by letter.
fn quote_argument(tool: &str, input: &Json) -> (r: Option<String>)
    ensures
        text_of(r) == match quoted_text(tool@, input@) {
            Some(text) => if is_literal(tool@, text) {
                Some(tool@ + "("@ + text + ")"@)
            } else {
                None
            },
            None => None,
        },
{
    proof {
        lemma_fields_apart();
    }
    let is_command = str_eq(tool, "Bash");
    let is_path = str_eq(tool, "Read") || str_eq(tool, "Edit") || str_eq(tool, "Write") || str_eq(
        tool,
        "MultiEdit",
    );
    let field = if is_command {
        "command"
    } else if is_path {
        "file_path"
    } else if str_eq(tool, "Agent") {
        "subagent_type"
    } else {
        return None;
    };
    let text = match input.get_str(field) {
        Some(text) => text,
        None => {
            return None;
        },
    };
    if !str_eq(trim(text), text) {
        return None;
    }
    if is_command && strip_suffix(text, ":*").is_some() {
        return None;
    }
    if !is_command && is_path && !has_plain_chars(text) {
        return None;
    }
    let head = join2(tool, "(");
    Some(join3(head.as_str(), text, ")"))
}

/// The pattern that means exactly this call. It is read back before it is handed
/// out.
pub fn derive_pattern(event: &PreToolUseEvent) -> (r: DerivedPattern)
    ensures
        match derived_text(event.tool_name@, event.tool_input@) {
            Some(text) => r matches DerivedPattern::Specific(s) && s@ == text,
            None => r matches DerivedPattern::BareToolNeedsConfirmation { tool } && tool@
                == event.tool_name@,
        },
        r is Specific ==> reads_back(event.tool_name@, event.tool_input@),
        r is Specific && event.tool_name@ == "Bash"@ ==> means_one_command(event.tool_input@),
{
    let tool = event.tool_name.as_str();
    let text = if starts_with(tool, "mcp__") {
        if !str_eq(trim(tool), tool) || strip_suffix(tool, "*").is_some() || find_char(
            tool,
            '(',
        ).is_some() {
            None
        } else {
            Some(tool.to_owned())
        }
    } else {
        quote_argument(tool, &event.tool_input)
    };
    proof {
        lemma_first_index(tool@, '(');
    }
    match text {
        Some(text) => {
            let pattern = Pattern::parse(text.as_str());
            let result = pattern.matches(event);
            proof {
                if has_prefix(tool@, "mcp__"@) {
                    lemma_id(tool@);
                } else {
                    lemma_quoted(tool@, event.tool_input@);
                    if quoted_field(tool@) == Some("file_path"@) {
                        lemma_plain_path(tool@, event.tool_input@);
                    } else {
                        law_derived_pattern_reads_back(tool@, event.tool_input@);
                    }
                    if tool@ == "Bash"@ {
                        lemma_one_command(event.tool_input@);
                    }
                }
                lemma_tools();
            }
            match result {
                MatchResult::Confident => DerivedPattern::Specific(text),
                _ => DerivedPattern::BareToolNeedsConfirmation { tool: tool.to_owned() },
            }
        },
        None => DerivedPattern::BareToolNeedsConfirmation { tool: tool.to_owned() },
    }
}

/// Whether the pattern derived from a call, read back, surely means that call.
pub open spec fn reads_back(tool: Seq<char>, input: JsonValue) -> bool {
    match derived_text(tool, input) {
        Some(text) => match_result(pattern_value(text), tool, input) == MatchResult::Confident,
        None => false,
    }
}

/// Whether the pattern derived from a command surely means no other command.
pub open spec fn means_one_command(input: JsonValue) -> bool {
    forall|other: JsonValue|
        (#[trigger] other.get_str("command"@)) is Some && other.get_str("command"@)
            != input.get_str("command"@) ==> match_result(
            pattern_value(derived_text("Bash"@, input)->0),
            "Bash"@,
            other,
        ) != MatchResult::Confident
}

proof fn lemma_outer_kept(tool: Seq<char>, text: Seq<char>)
    requires
        quoted_field(tool) is Some,
    ensures
        ({
            let s = tool + "("@ + text + ")"@;
            &&& trim_of(s) == s
            &&& s.contains('(')
            &&& first_index(s, '(') == tool.len()
            &&& last_end(s, ')') == s.len()
            &&& s.subrange(0, tool.len() as int) == tool
            &&& s.subrange(tool.len() as int + 1, s.len() - 1) == text
            &&& trim_of(tool) == tool
        }),
{
    reveal_strlit("Bash");
    reveal_strlit("Read");
    reveal_strlit("Edit");
    reveal_strlit("Write");
    reveal_strlit("MultiEdit");
    reveal_strlit("Agent");
    reveal_strlit("(");
    reveal_strlit(")");
    let s = tool + "("@ + text + ")"@;
    assert(s[0] == tool[0]);
    assert(s.last() == ')');
    assert(s[tool.len() as int] == '(');
    assert forall|i: int| 0 <= i < tool.len() implies s[i] != '(' by {
        assert(s[i] == tool[i]);
    }
    lemma_first_index_unique(s, '(', tool.len());
    lemma_last_end_unique(s, ')', s.len());
    lemma_trim_idle(s);
    lemma_trim_idle(tool);
    assert(s.subrange(0, tool.len() as int) =~= tool);
    assert(s.subrange(tool.len() as int + 1, s.len() - 1) =~= text);
}

proof fn lemma_quoted(tool: Seq<char>, input: JsonValue)
    requires
        quoted_text(tool, input) is Some,
        !has_prefix(tool, "mcp__"@),
    ensures
        ({
            let text = quoted_text(tool, input)->0;
            let s = tool + "("@ + text + ")"@;
            pattern_value(s) == (PatternValue::ToolWithArgs {
                tool,
                arg_matcher: crate::permission::pattern::arg_value(tool, trim_of(text)),
                raw: s,
            })
        }),
{
    let text = quoted_text(tool, input)->0;
    lemma_outer_kept(tool, text);
    reveal_strlit("(");
    reveal_strlit(")");
    let s = tool + "("@ + text + ")"@;
    assert(s.len() == tool.len() + text.len() + 2);
    assert(with_args_value(s, s) == pattern_value(s));
}

proof fn lemma_id(tool: Seq<char>)
    requires
        has_prefix(tool, "mcp__"@),
        is_literal_id(tool),
    ensures
        pattern_value(tool) == (PatternValue::McpExact { full_id: tool, raw: tool }),
{
    reveal_strlit("mcp__");
}

/// A path that a pattern takes letter by letter is kept as it is.
proof fn lemma_plain_path(tool: Seq<char>, input: JsonValue)
    requires
        quoted_field(tool) == Some("file_path"@),
        quoted_text(tool, input) is Some,
        is_literal(tool, quoted_text(tool, input)->0),
    ensures
        ({
            let text = quoted_text(tool, input)->0;
            let s = tool + "("@ + text + ")"@;
            &&& takes_file_path(tool)
            &&& split_call(trim_of(s)) == Some((tool, text))
            &&& path_argument(input) == Some(text)
        }),
{
    let text = quoted_text(tool, input)->0;
    lemma_outer_kept(tool, text);
    lemma_tools();
    lemma_fields_apart();
    reveal_strlit("(");
    reveal_strlit(")");
}

proof fn lemma_one_command(input: JsonValue)
    requires
        derived_text("Bash"@, input) is Some,
    ensures
        means_one_command(input),
{
    lemma_tools();
    lemma_quoted("Bash"@, input);
}

/// A derived pattern, read back, surely means the call that it was derived from.
/// For a path this rests on what a glob is found to match, and [`derive_pattern`]
/// promises it.
pub proof fn law_derived_pattern_reads_back(tool: Seq<char>, input: JsonValue)
    requires
        derived_text(tool, input) is Some,
        quoted_field(tool) != Some("file_path"@),
    ensures
        reads_back(tool, input),
{
    lemma_tools();
    lemma_fields_apart();
    if has_prefix(tool, "mcp__"@) {
        lemma_id(tool);
    } else {
        lemma_quoted(tool, input);
    }
}

/// A derived pattern surely means no other call: one that it surely means has
/// the same tool, and the same command or sub-agent.
pub proof fn law_derived_pattern_means_one_call(
    tool: Seq<char>,
    input: JsonValue,
    other_tool: Seq<char>,
    other: JsonValue,
)
    requires
        derived_text(tool, input) is Some,
        quoted_field(tool) != Some("file_path"@),
        match_result(pattern_value(derived_text(tool, input)->0), other_tool, other)
            == MatchResult::Confident,
    ensures
        other_tool == tool,
        quoted_text(tool, other) == quoted_text(tool, input) || has_prefix(tool, "mcp__"@),
{
    lemma_tools();
    lemma_fields_apart();
    if has_prefix(tool, "mcp__"@) {
        lemma_id(tool);
    } else {
        lemma_quoted(tool, input);
    }
}

proof fn lemma_fields_apart()
    ensures
        "command"@ != "file_path"@,
        "subagent_type"@ != "file_path"@,
        "subagent_type"@ != "command"@,
{
    reveal_strlit("command");
    reveal_strlit("file_path");
    reveal_strlit("subagent_type");
    assert("command"@[0] == 'c' && "file_path"@[0] == 'f' && "subagent_type"@[0] == 's');
}

/// The tools with a quoted field have six names, none of them an MCP id.
proof fn lemma_tools()
    ensures
        quoted_field("Bash"@) == Some("command"@),
        quoted_field("Agent"@) == Some("subagent_type"@),
        forall|tool: Seq<char>|
            #![trigger quoted_field(tool)]
            quoted_field(tool) is Some ==> !has_prefix(tool, "mcp__"@),
        !takes_file_path("Bash"@),
        !takes_file_path("Agent"@),
        "Bash"@ != "Agent"@,
        forall|tool: Seq<char>|
            #![trigger quoted_field(tool)]
            tool == "Read"@ || tool == "Edit"@ || tool == "Write"@ || tool == "MultiEdit"@
                ==> quoted_field(tool) == Some("file_path"@) && tool != "Agent"@ && tool != "Bash"@,
{
    reveal_strlit("Bash");
    reveal_strlit("Read");
    reveal_strlit("Edit");
    reveal_strlit("Write");
    reveal_strlit("MultiEdit");
    reveal_strlit("Agent");
    reveal_strlit("Glob");
    reveal_strlit("Grep");
    reveal_strlit("mcp__");
    assert("Bash"@[0] == 'B' && "Agent"@[0] == 'A' && "Read"@[0] == 'R' && "Edit"@[0] == 'E'
        && "Write"@[0] == 'W' && "MultiEdit"@[0] == 'M' && "Glob"@[0] == 'G' && "Grep"@[0] == 'G');
    assert forall|tool: Seq<char>|
        #![trigger quoted_field(tool)]
        quoted_field(tool) is Some implies !has_prefix(tool, "mcp__"@) by {
        if has_prefix(tool, "mcp__"@) {
            assert(tool.subrange(0, 5)[0] == 'm');
            assert(tool[0] == 'm');
        }
    }
}

} // verus!
