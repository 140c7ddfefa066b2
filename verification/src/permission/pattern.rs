//! Entries of `permissions.allow` and `permissions.deny`, and how they match a
//! tool call.
//!
//! Parsing never fails. What is not understood matches ambiguously where it may
//! mean the tool at hand, so that the user is asked.

use vstd::prelude::*;
use crate::json::{Json, JsonValue};
use crate::outside::{accepts_glob, glob_accepted, glob_match, is_plain, matches_glob};
use crate::proto::hook::PreToolUseEvent;
use crate::text::{
    contains, find_char, first_index, has_block, has_prefix, has_suffix, last_end,
    lemma_first_index, lemma_last_end, rfind_char, starts_with, str_eq, strip_suffix, trim, trim_end,
    trim_end_of, trim_of,
};

verus! {

/// A parsed entry of an allow or deny list.
#[derive(Debug, PartialEq)]
pub enum Pattern {
    /// A tool by its name alone.
    BareTool { name: String, raw: String },
    /// One method of an MCP server.
    McpExact { full_id: String, raw: String },
    /// All methods whose id starts with `prefix`.
    McpPrefix { prefix: String, raw: String },
    /// A tool with a matcher for its argument.
    ToolWithArgs { tool: String, arg_matcher: ArgMatcher, raw: String },
    /// Text of no known form.
    Unparseable { raw: String },
}

/// How an argument is matched.
#[derive(Debug, PartialEq)]
pub enum ArgMatcher {
    /// The sub-agent's type, for `Agent`.
    Exact(String),
    /// A glob on the file path, for the tools that take one.
    PathGlob(String),
    /// A prefix of the command, for `Bash`.
    BashPrefix(String),
    /// The whole command, for `Bash`.
    BashExact(String),
    /// An argument of unknown meaning.
    Ambiguous,
}

#[derive(Debug, Clone, Copy, PartialEq, Eq, Structural)]
pub enum MatchResult {
    /// The pattern means this call.
    Confident,
    /// The pattern may mean this call.
    Ambiguous,
    NoMatch,
}

/// What a [`Pattern`] stands for.
pub enum PatternValue {
    BareTool { name: Seq<char>, raw: Seq<char> },
    McpExact { full_id: Seq<char>, raw: Seq<char> },
    McpPrefix { prefix: Seq<char>, raw: Seq<char> },
    ToolWithArgs { tool: Seq<char>, arg_matcher: ArgValue, raw: Seq<char> },
    Unparseable { raw: Seq<char> },
}

/// What an [`ArgMatcher`] stands for.
pub enum ArgValue {
    Exact(Seq<char>),
    PathGlob(Seq<char>),
    BashPrefix(Seq<char>),
    BashExact(Seq<char>),
    Ambiguous,
}

impl View for ArgMatcher {
    type V = ArgValue;

    open spec fn view(&self) -> ArgValue {
        match self {
            ArgMatcher::Exact(t) => ArgValue::Exact(t@),
            ArgMatcher::PathGlob(t) => ArgValue::PathGlob(t@),
            ArgMatcher::BashPrefix(t) => ArgValue::BashPrefix(t@),
            ArgMatcher::BashExact(t) => ArgValue::BashExact(t@),
            ArgMatcher::Ambiguous => ArgValue::Ambiguous,
        }
    }
}

impl View for Pattern {
    type V = PatternValue;

    open spec fn view(&self) -> PatternValue {
        match self {
            Pattern::BareTool { name, raw } => PatternValue::BareTool { name: name@, raw: raw@ },
            Pattern::McpExact { full_id, raw } => PatternValue::McpExact {
                full_id: full_id@,
                raw: raw@,
            },
            Pattern::McpPrefix { prefix, raw } => PatternValue::McpPrefix {
                prefix: prefix@,
                raw: raw@,
            },
            Pattern::ToolWithArgs { tool, arg_matcher, raw } => PatternValue::ToolWithArgs {
                tool: tool@,
                arg_matcher: arg_matcher@,
                raw: raw@,
            },
            Pattern::Unparseable { raw } => PatternValue::Unparseable { raw: raw@ },
        }
    }
}

/// The tools whose argument is a file path.
pub open spec fn takes_file_path(tool: Seq<char>) -> bool {
    ||| tool == "Read"@
    ||| tool == "Edit"@
    ||| tool == "Write"@
    ||| tool == "MultiEdit"@
    ||| tool == "Glob"@
    ||| tool == "Grep"@
}

/// How the argument text `args` of `tool` is to be matched.
pub open spec fn arg_value(tool: Seq<char>, args: Seq<char>) -> ArgValue {
    if tool == "Agent"@ {
        ArgValue::Exact(args)
    } else if takes_file_path(tool) {
        if glob_accepted(args) {
            ArgValue::PathGlob(args)
        } else {
            ArgValue::Ambiguous
        }
    } else if tool == "Bash"@ {
        if has_suffix(args, ":*"@) {
            ArgValue::BashPrefix(trim_end_of(args.subrange(0, args.len() - ":*"@.len())))
        } else {
            ArgValue::BashExact(args)
        }
    } else {
        ArgValue::Ambiguous
    }
}

/// `tool(args)`: the tool before the first opening bracket, the argument up to
/// the last closing one.
pub open spec fn with_args_value(trimmed: Seq<char>, raw: Seq<char>) -> PatternValue {
    let open = first_index(trimmed, '(');
    let end = last_end(trimmed, ')');
    if end <= open + 1 {
        PatternValue::Unparseable { raw }
    } else {
        let tool = trim_of(trimmed.subrange(0, open as int));
        let args = trim_of(trimmed.subrange(open as int + 1, end - 1));
        PatternValue::ToolWithArgs { tool, arg_matcher: arg_value(tool, args), raw }
    }
}

/// Whether a pattern for file paths kept its glob.
pub open spec fn keeps_glob(pattern: PatternValue, tool: Seq<char>, args: Seq<char>) -> bool {
    pattern matches PatternValue::ToolWithArgs { tool: t, arg_matcher, .. } && t == tool
        && arg_matcher == ArgValue::PathGlob(args)
}

/// The tool and the argument that `tool(args)` splits into.
pub open spec fn split_call(trimmed: Seq<char>) -> Option<(Seq<char>, Seq<char>)> {
    let open = first_index(trimmed, '(');
    let end = last_end(trimmed, ')');
    if open < trimmed.len() && open + 1 < end {
        Some(
            (
                trim_of(trimmed.subrange(0, open as int)),
                trim_of(trimmed.subrange(open as int + 1, end - 1)),
            ),
        )
    } else {
        None
    }
}

/// An id of an MCP method, with a star at its end for all that it starts.
pub open spec fn mcp_value(trimmed: Seq<char>, raw: Seq<char>) -> PatternValue {
    if has_suffix(trimmed, "*"@) {
        let prefix = trimmed.subrange(0, trimmed.len() - "*"@.len());
        if has_prefix(prefix, "mcp__"@) {
            PatternValue::McpPrefix { prefix, raw }
        } else {
            PatternValue::Unparseable { raw }
        }
    } else {
        PatternValue::McpExact { full_id: trimmed, raw }
    }
}

/// The pattern that an entry's text stands for.
pub open spec fn pattern_value(raw: Seq<char>) -> PatternValue {
    let trimmed = trim_of(raw);
    if trimmed.len() == 0 {
        PatternValue::Unparseable { raw }
    } else if trimmed.contains('(') {
        with_args_value(trimmed, raw)
    } else if has_prefix(trimmed, "mcp__"@) {
        mcp_value(trimmed, raw)
    } else {
        PatternValue::BareTool { name: trimmed, raw }
    }
}

pub open spec fn confident_if(b: bool) -> MatchResult {
    if b {
        MatchResult::Confident
    } else {
        MatchResult::NoMatch
    }
}

/// The path of a call: `file_path`, or `path` where there is no `file_path`.
pub open spec fn path_argument(input: JsonValue) -> Option<Seq<char>> {
    if input.get("file_path"@) is Some {
        input.get_str("file_path"@)
    } else {
        input.get_str("path"@)
    }
}

/// How an argument matcher of `tool` judges the input of a call.
pub open spec fn arg_result(tool: Seq<char>, matcher: ArgValue, input: JsonValue) -> MatchResult {
    match matcher {
        ArgValue::Exact(expected) => if tool == "Agent"@ {
            confident_if(input.get_str("subagent_type"@) == Some(expected))
        } else {
            MatchResult::Ambiguous
        },
        ArgValue::PathGlob(glob) => match path_argument(input) {
            Some(path) if takes_file_path(tool) => match glob_match(glob, path) {
                Some(hit) => confident_if(hit),
                None => MatchResult::Ambiguous,
            },
            _ => MatchResult::Ambiguous,
        },
        ArgValue::BashPrefix(prefix) => match input.get_str("command"@) {
            Some(command) if tool == "Bash"@ => confident_if(has_prefix(command, prefix)),
            _ => MatchResult::Ambiguous,
        },
        ArgValue::BashExact(expected) => match input.get_str("command"@) {
            Some(command) if tool == "Bash"@ => confident_if(command == expected),
            _ => MatchResult::Ambiguous,
        },
        ArgValue::Ambiguous => MatchResult::Ambiguous,
    }
}

/// How a pattern judges a call of `tool_name`.
pub open spec fn match_result(
    pattern: PatternValue,
    tool_name: Seq<char>,
    input: JsonValue,
) -> MatchResult {
    match pattern {
        PatternValue::BareTool { name, .. } => confident_if(tool_name == name),
        PatternValue::McpExact { full_id, .. } => confident_if(tool_name == full_id),
        PatternValue::McpPrefix { prefix, .. } => confident_if(has_prefix(tool_name, prefix)),
        PatternValue::ToolWithArgs { tool, arg_matcher, .. } => if tool_name == tool {
            arg_result(tool, arg_matcher, input)
        } else {
            MatchResult::NoMatch
        },
        PatternValue::Unparseable { raw } => if has_block(raw, tool_name) {
            MatchResult::Ambiguous
        } else {
            MatchResult::NoMatch
        },
    }
}

/// The path that an argument matcher of `tool` spells out letter by letter.
pub open spec fn plain_arg(matcher: ArgValue, tool: Seq<char>) -> Option<Seq<char>> {
    match matcher {
        ArgValue::PathGlob(glob) if is_plain(glob) && takes_file_path(tool) => Some(glob),
        _ => None,
    }
}

/// The path that a pattern for calls of `tool_name` spells out letter by letter.
pub open spec fn plain_path(pattern: PatternValue, tool_name: Seq<char>) -> Option<Seq<char>> {
    match pattern {
        PatternValue::ToolWithArgs { tool, arg_matcher, .. } if tool == tool_name => plain_arg(
            arg_matcher,
            tool,
        ),
        _ => None,
    }
}

/// A path spelled out letter by letter means that path and no other.
pub open spec fn plain_path_result(path: Seq<char>, input: JsonValue) -> MatchResult {
    match path_argument(input) {
        Some(actual) => confident_if(actual == path),
        None => MatchResult::Ambiguous,
    }
}

/// The text that a pattern was read from.
pub open spec fn raw_of(pattern: PatternValue) -> Seq<char> {
    match pattern {
        PatternValue::BareTool { raw, .. } => raw,
        PatternValue::McpExact { raw, .. } => raw,
        PatternValue::McpPrefix { raw, .. } => raw,
        PatternValue::ToolWithArgs { raw, .. } => raw,
        PatternValue::Unparseable { raw } => raw,
    }
}

fn is_file_path_tool(tool: &str) -> (r: bool)
    ensures
        r == takes_file_path(tool@),
{
    str_eq(tool, "Read") || str_eq(tool, "Edit") || str_eq(tool, "Write") || str_eq(
        tool,
        "MultiEdit",
    ) || str_eq(tool, "Glob") || str_eq(tool, "Grep")
}

fn sure_if(b: bool) -> (r: MatchResult)
    ensures
        r == confident_if(b),
{
    if b {
        MatchResult::Confident
    } else {
        MatchResult::NoMatch
    }
}

impl Clone for ArgMatcher {
    fn clone(&self) -> (r: ArgMatcher)
        ensures
            r@ == self@,
    {
        match self {
            ArgMatcher::Exact(t) => ArgMatcher::Exact(t.clone()),
            ArgMatcher::PathGlob(t) => ArgMatcher::PathGlob(t.clone()),
            ArgMatcher::BashPrefix(t) => ArgMatcher::BashPrefix(t.clone()),
            ArgMatcher::BashExact(t) => ArgMatcher::BashExact(t.clone()),
            ArgMatcher::Ambiguous => ArgMatcher::Ambiguous,
        }
    }
}

impl Clone for Pattern {
    fn clone(&self) -> (r: Pattern)
        ensures
            r@ == self@,
    {
        match self {
            Pattern::BareTool { name, raw } => Pattern::BareTool {
                name: name.clone(),
                raw: raw.clone(),
            },
            Pattern::McpExact { full_id, raw } => Pattern::McpExact {
                full_id: full_id.clone(),
                raw: raw.clone(),
            },
            Pattern::McpPrefix { prefix, raw } => Pattern::McpPrefix {
                prefix: prefix.clone(),
                raw: raw.clone(),
            },
            Pattern::ToolWithArgs { tool, arg_matcher, raw } => Pattern::ToolWithArgs {
                tool: tool.clone(),
                arg_matcher: arg_matcher.clone(),
                raw: raw.clone(),
            },
            Pattern::Unparseable { raw } => Pattern::Unparseable { raw: raw.clone() },
        }
    }
}

impl Pattern {
    /// Reads an entry. Text of no known form becomes [`Pattern::Unparseable`].
    pub fn parse(raw: &str) -> (pattern: Pattern)
        ensures
            pattern@ == pattern_value(raw@),
            split_call(trim_of(raw@)) matches Some((tool, args)) ==> takes_file_path(tool)
                && is_plain(args) ==> keeps_glob(pattern@, tool, args),
    {
        let trimmed = trim(raw);
        if trimmed.unicode_len() == 0 {
            return Pattern::Unparseable { raw: raw.to_owned() };
        }
        proof {
            lemma_first_index(trimmed@, '(');
        }
        match find_char(trimmed, '(') {
            Some(open) => {
                assert(trimmed@[open as int] == '(');
                Pattern::parse_tool_with_args(trimmed, open, raw)
            },
            None => {
                assert(!trimmed@.contains('('));
                if starts_with(trimmed, "mcp__") {
                    Pattern::parse_mcp(trimmed, raw)
                } else {
                    Pattern::BareTool { name: trimmed.to_owned(), raw: raw.to_owned() }
                }
            },
        }
    }

    fn parse_tool_with_args(trimmed: &str, open: usize, raw: &str) -> (pattern: Pattern)
        requires
            open == first_index(trimmed@, '('),
            open < trimmed@.len(),
        ensures
            pattern@ == with_args_value(trimmed@, raw@),
            split_call(trimmed@) matches Some((tool, args)) ==> takes_file_path(tool) && is_plain(
                args,
            ) ==> keeps_glob(pattern@, tool, args),
    {
        proof {
            lemma_last_end(trimmed@, ')');
        }
        let close: usize = match rfind_char(trimmed, ')') {
            Some(close) => close,
            None => {
                return Pattern::Unparseable { raw: raw.to_owned() };
            },
        };
        if close <= open {
            return Pattern::Unparseable { raw: raw.to_owned() };
        }
        let tool = trim(trimmed.substring_char(0, open));
        let args = trim(trimmed.substring_char(open + 1, close));
        Pattern::ToolWithArgs {
            tool: tool.to_owned(),
            arg_matcher: ArgMatcher::parse(tool, args),
            raw: raw.to_owned(),
        }
    }

    fn parse_mcp(trimmed: &str, raw: &str) -> (pattern: Pattern)
        ensures
            pattern@ == mcp_value(trimmed@, raw@),
    {
        match strip_suffix(trimmed, "*") {
            Some(prefix) => {
                if starts_with(prefix, "mcp__") {
                    Pattern::McpPrefix { prefix: prefix.to_owned(), raw: raw.to_owned() }
                } else {
                    Pattern::Unparseable { raw: raw.to_owned() }
                }
            },
            None => Pattern::McpExact { full_id: trimmed.to_owned(), raw: raw.to_owned() },
        }
    }

    /// Judges a tool call.
    pub fn matches(&self, event: &PreToolUseEvent) -> (r: MatchResult)
        ensures
            r == match_result(self@, event.tool_name@, event.tool_input@),
            plain_path(self@, event.tool_name@) matches Some(path) ==> r == plain_path_result(
                path,
                event.tool_input@,
            ),
    {
        let tool_name = event.tool_name.as_str();
        match self {
            Pattern::BareTool { name, .. } => sure_if(str_eq(tool_name, name.as_str())),
            Pattern::McpExact { full_id, .. } => sure_if(str_eq(tool_name, full_id.as_str())),
            Pattern::McpPrefix { prefix, .. } => sure_if(starts_with(tool_name, prefix.as_str())),
            Pattern::ToolWithArgs { tool, arg_matcher, .. } => {
                if str_eq(tool_name, tool.as_str()) {
                    arg_matcher.judge(tool_name, &event.tool_input)
                } else {
                    MatchResult::NoMatch
                }
            },
            Pattern::Unparseable { raw } => {
                if contains(raw.as_str(), tool_name) {
                    MatchResult::Ambiguous
                } else {
                    MatchResult::NoMatch
                }
            },
        }
    }

    /// The text that the pattern was read from.
    pub fn raw(&self) -> (r: &str)
        ensures
            r@ == raw_of(self@),
    {
        match self {
            Pattern::BareTool { raw, .. } => raw.as_str(),
            Pattern::McpExact { raw, .. } => raw.as_str(),
            Pattern::McpPrefix { raw, .. } => raw.as_str(),
            Pattern::ToolWithArgs { raw, .. } => raw.as_str(),
            Pattern::Unparseable { raw } => raw.as_str(),
        }
    }
}

impl ArgMatcher {
    fn parse(tool: &str, args: &str) -> (matcher: ArgMatcher)
        ensures
            matcher@ == arg_value(tool@, args@),
            takes_file_path(tool@) && is_plain(args@) ==> matcher@ == ArgValue::PathGlob(args@),
    {
        proof {
            reveal_strlit("Agent");
            reveal_strlit("Read");
            reveal_strlit("Edit");
            reveal_strlit("Write");
            reveal_strlit("MultiEdit");
            reveal_strlit("Glob");
            reveal_strlit("Grep");
            assert("Agent"@[0] == 'A' && "Read"@[0] == 'R' && "Edit"@[0] == 'E' && "Write"@[0] == 'W'
                && "MultiEdit"@[0] == 'M' && "Glob"@[0] == 'G' && "Grep"@[0] == 'G');
        }
        if str_eq(tool, "Agent") {
            ArgMatcher::Exact(args.to_owned())
        } else if is_file_path_tool(tool) {
            if accepts_glob(args) {
                ArgMatcher::PathGlob(args.to_owned())
            } else {
                ArgMatcher::Ambiguous
            }
        } else if str_eq(tool, "Bash") {
            match strip_suffix(args, ":*") {
                Some(prefix) => ArgMatcher::BashPrefix(trim_end(prefix).to_owned()),
                None => ArgMatcher::BashExact(args.to_owned()),
            }
        } else {
            ArgMatcher::Ambiguous
        }
    }

    fn judge(&self, tool: &str, input: &Json) -> (r: MatchResult)
        ensures
            r == arg_result(tool@, self@, input@),
            plain_arg(self@, tool@) matches Some(path) ==> r == plain_path_result(path, input@),
    {
        match self {
            ArgMatcher::Exact(expected) => {
                if str_eq(tool, "Agent") {
                    match input.get_str("subagent_type") {
                        Some(actual) => sure_if(str_eq(actual, expected.as_str())),
                        None => MatchResult::NoMatch,
                    }
                } else {
                    MatchResult::Ambiguous
                }
            },
            ArgMatcher::PathGlob(glob) => {
                if !is_file_path_tool(tool) {
                    return MatchResult::Ambiguous;
                }
                let found = match input.get("file_path") {
                    Some(v) => v.as_str(),
                    None => input.get_str("path"),
                };
                match found {
                    None => MatchResult::Ambiguous,
                    Some(path) => match matches_glob(glob.as_str(), path) {
                        Some(hit) => sure_if(hit),
                        None => MatchResult::Ambiguous,
                    },
                }
            },
            ArgMatcher::BashPrefix(prefix) => {
                if !str_eq(tool, "Bash") {
                    return MatchResult::Ambiguous;
                }
                match input.get_str("command") {
                    None => MatchResult::Ambiguous,
                    Some(command) => sure_if(starts_with(command, prefix.as_str())),
                }
            },
            ArgMatcher::BashExact(expected) => {
                if !str_eq(tool, "Bash") {
                    return MatchResult::Ambiguous;
                }
                match input.get_str("command") {
                    None => MatchResult::Ambiguous,
                    Some(command) => sure_if(str_eq(command, expected.as_str())),
                }
            },
            ArgMatcher::Ambiguous => MatchResult::Ambiguous,
        }
    }
}

} // verus!
