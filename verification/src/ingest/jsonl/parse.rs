//! Lines of a transcript.

use vstd::prelude::*;
use crate::json::{json_items, lemma_array_view, Json, JsonValue};
use crate::outside::{json_text, parse_json};
use crate::proto::hook::text_of;
use crate::text::{
    ellipsis_of, first_line, first_line_of, str_eq, trim, trim_of, truncate_chars,
};

verus! {

/// What a line of an assistant tells.
#[derive(Debug, Clone, PartialEq, Eq)]
pub struct ParsedAssistantLine {
    /// Zero where the line has no count.
    pub output_tokens: u64,
    /// The start of the first text, if there is one.
    pub entry_text: Option<String>,
}

/// What a [`ParsedAssistantLine`] stands for.
#[verifier::ext_equal]
pub struct LineValue {
    pub output_tokens: u64,
    pub entry_text: Option<Seq<char>>,
}

impl View for ParsedAssistantLine {
    type V = LineValue;

    open spec fn view(&self) -> LineValue {
        LineValue { output_tokens: self.output_tokens, entry_text: text_of(self.entry_text) }
    }
}

/// The tokens of a message: `usage.output_tokens`, where that is a number that
/// fits.
pub open spec fn message_tokens(message: JsonValue) -> u64 {
    match message.get("usage"@) {
        Some(usage) => match usage.get("output_tokens"@) {
            Some(JsonValue::Unsigned(n)) => n,
            _ => 0,
        },
        None => 0,
    }
}

/// The entry of a content block: the first line of its text, cut to eighty
/// characters. A block that is no text or is blank has none.
pub open spec fn block_entry(block: JsonValue) -> Option<Seq<char>> {
    if block.get_str("type"@) == Some("text"@) {
        match block.get_str("text"@) {
            Some(text) => if trim_of(text).len() == 0 {
                None
            } else {
                Some(ellipsis_of(first_line_of(trim_of(text)), 80))
            },
            None => None,
        }
    } else {
        None
    }
}

/// The entry of the first block that has one.
pub open spec fn first_entry(blocks: Seq<JsonValue>) -> Option<Seq<char>>
    decreases blocks.len(),
{
    if blocks.len() == 0 {
        None
    } else {
        match block_entry(blocks[0]) {
            Some(entry) => Some(entry),
            None => first_entry(blocks.subrange(1, blocks.len() as int)),
        }
    }
}

pub open spec fn message_entry(message: JsonValue) -> Option<Seq<char>> {
    match message.get("content"@) {
        Some(JsonValue::Array(blocks)) => first_entry(blocks),
        _ => None,
    }
}

/// What a document tells, if it is a message of the assistant.
pub open spec fn document_line(doc: JsonValue) -> Option<LineValue> {
    if doc.get_str("type"@) != Some("assistant"@) {
        None
    } else {
        match doc.get("message"@) {
            Some(message) => Some(
                LineValue {
                    output_tokens: message_tokens(message),
                    entry_text: message_entry(message),
                },
            ),
            None => None,
        }
    }
}

/// What a line tells, if it is a message of the assistant.
pub open spec fn line_value(line: Seq<char>) -> Option<LineValue> {
    let kept = trim_of(line);
    if kept.len() == 0 {
        None
    } else {
        match json_text(kept) {
            Some(doc) => document_line(doc),
            None => None,
        }
    }
}

fn find_entry(blocks: &Vec<Json>) -> (r: Option<String>)
    ensures
        text_of(r) == first_entry(json_items(blocks@)),
{
    let ghost all = json_items(blocks@);
    let mut i: usize = 0;
    assert(all.subrange(0, all.len() as int) =~= all);
    while i < blocks.len()
        invariant
            i <= blocks@.len(),
            all == json_items(blocks@),
            first_entry(all) == first_entry(all.subrange(i as int, all.len() as int)),
        decreases blocks@.len() - i,
    {
        let ghost rest = all.subrange(i as int, all.len() as int);
        assert(rest[0] == blocks@[i as int]@);
        assert(rest.subrange(1, rest.len() as int) =~= all.subrange(i + 1, all.len() as int));
        let is_text = match blocks[i].get_str("type") {
            Some(t) => str_eq(t, "text"),
            None => false,
        };
        if is_text {
            if let Some(text) = blocks[i].get_str("text") {
                let kept = trim(text);
                if !kept.is_empty() {
                    return Some(truncate_chars(first_line(kept), 80));
                }
            }
        }
        i = i + 1;
    }
    None
}

/// Reads a document of a transcript. Only messages of the assistant count; parts
/// that are missing count as zero and none.
pub fn parse_document(doc: &Json) -> (r: Option<ParsedAssistantLine>)
    ensures
        match r {
            Some(line) => document_line(doc@) == Some(line@),
            None => document_line(doc@) is None,
        },
{
    let by_assistant = match doc.get_str("type") {
        Some(t) => str_eq(t, "assistant"),
        None => false,
    };
    if !by_assistant {
        return None;
    }
    let message = match doc.get("message") {
        Some(message) => message,
        None => {
            return None;
        },
    };
    let output_tokens: u64 = match message.get("usage") {
        Some(usage) => match usage.get("output_tokens") {
            Some(Json::Unsigned(n)) => *n,
            _ => 0,
        },
        None => 0,
    };
    let entry_text = match message.get("content") {
        Some(Json::Array(blocks)) => {
            proof {
                lemma_array_view(*blocks);
            }
            find_entry(blocks)
        },
        _ => None,
    };
    Some(ParsedAssistantLine { output_tokens, entry_text })
}

/// Reads a line of a transcript. A line that is blank or no JSON tells nothing.
pub fn parse_jsonl_line(line: &str) -> (r: Option<ParsedAssistantLine>)
    ensures
        match r {
            Some(parsed) => line_value(line@) == Some(parsed@),
            None => line_value(line@) is None,
        },
{
    let kept = trim(line);
    if kept.is_empty() {
        return None;
    }
    match parse_json(kept) {
        Some(doc) => parse_document(&doc),
        None => None,
    }
}

/// An entry has at most eighty-one characters: eighty and the ellipsis.
pub proof fn law_entry_is_short(block: JsonValue)
    ensures
        block_entry(block) matches Some(entry) ==> entry.len() <= 81,
{
}

} // verus!
