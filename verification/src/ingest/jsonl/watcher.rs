//! What a new line of a transcript changes.

use vstd::prelude::*;
use crate::ingest::jsonl::parse::{LineValue, ParsedAssistantLine};
use crate::ingest::jsonl::tokens::{PersistedTokens, TokensValue};
use crate::proto::hook::text_of;

verus! {

/// The counts of the watcher, and whether they have to be saved.
#[derive(Debug)]
pub struct TokenTally {
    pub counts: PersistedTokens,
    pub dirty: bool,
}

/// What a line has to be told about: its tokens, and its text.
#[derive(Debug, PartialEq, Eq)]
pub struct LineNews {
    pub tokens: Option<u64>,
    pub entry: Option<String>,
}

/// The counts after a line.
pub open spec fn tallied(t: TokensValue, line: LineValue) -> TokensValue {
    TokensValue {
        date: t.date,
        today: (t.today + line.output_tokens) as u64,
        cumulative: (t.cumulative + line.output_tokens) as u64,
    }
}

impl TokenTally {
    /// Counts what a line tells. A line without tokens changes no count.
    pub fn take_line(&mut self, line: ParsedAssistantLine) -> (r: LineNews)
        requires
            old(self).counts.today + line.output_tokens <= u64::MAX,
            old(self).counts.cumulative + line.output_tokens <= u64::MAX,
        ensures
            final(self).counts@ == tallied(old(self).counts@, line@),
            final(self).dirty == (old(self).dirty || line.output_tokens > 0),
            r.tokens == (if line.output_tokens > 0 {
                Some(line.output_tokens)
            } else {
                None
            }),
            text_of(r.entry) == line@.entry_text,
    {
        let mut tokens: Option<u64> = None;
        if line.output_tokens > 0 {
            self.counts.cumulative = self.counts.cumulative + line.output_tokens;
            self.counts.today = self.counts.today + line.output_tokens;
            self.dirty = true;
            tokens = Some(line.output_tokens);
        }
        LineNews { tokens, entry: line.entry_text }
    }
}

} // verus!
