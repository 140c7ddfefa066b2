//! The token counts as they are kept on disk.

use vstd::prelude::*;
use crate::assoc::{keys_distinct, lemma_lookup_at};
use crate::json::{is_canonical, is_shallow, json_members, lemma_object_view, Json, JsonValue};
use crate::json_form::{names_of, read_record, record};
use crate::outside::{json_print_pretty, json_text, parse_json, print_json_pretty, MAX_DEPTH};
use crate::proto::hook::text_of;
use crate::setup::opt_text;
use crate::util::{base_dir, bridge_file, bridge_path, xdg_state_dir};

verus! {

/// Output tokens, in all and of one day.
#[derive(Debug, PartialEq, Eq)]
pub struct PersistedTokens {
    /// The day of `today`, as `YYYY-MM-DD`; empty before the first day.
    pub date: String,
    pub today: u64,
    pub cumulative: u64,
}

/// What a [`PersistedTokens`] stands for.
#[verifier::ext_equal]
pub struct TokensValue {
    pub date: Seq<char>,
    pub today: u64,
    pub cumulative: u64,
}

impl View for PersistedTokens {
    type V = TokensValue;

    open spec fn view(&self) -> TokensValue {
        TokensValue { date: self.date@, today: self.today, cumulative: self.cumulative }
    }
}

impl Clone for PersistedTokens {
    fn clone(&self) -> (r: PersistedTokens)
        ensures
            r@ == self@,
    {
        PersistedTokens {
            date: self.date.clone(),
            today: self.today,
            cumulative: self.cumulative,
        }
    }
}

pub open spec fn no_tokens() -> TokensValue {
    TokensValue { date: Seq::empty(), today: 0, cumulative: 0 }
}

impl Default for PersistedTokens {
    fn default() -> (r: PersistedTokens)
        ensures
            r@ == no_tokens(),
    {
        PersistedTokens { date: String::new(), today: 0, cumulative: 0 }
    }
}

pub open spec fn tokens_members(t: TokensValue) -> Seq<(Seq<char>, JsonValue)> {
    seq![
        ("date"@, JsonValue::Str(t.date)),
        ("today"@, JsonValue::Unsigned(t.today)),
        ("cumulative"@, JsonValue::Unsigned(t.cumulative)),
    ]
}

pub open spec fn tokens_json(t: TokensValue) -> JsonValue {
    JsonValue::Object(tokens_members(t))
}

/// The fields of the counts, in order.
pub open spec fn tokens_names() -> Seq<Seq<char>> {
    seq!["date"@, "today"@, "cumulative"@]
}

/// The counts that a document holds, if it has all three fields: under their
/// names, or in order.
pub open spec fn tokens_in(v: JsonValue) -> Option<TokensValue> {
    let doc = record(v, tokens_names());
    match (doc.get_str("date"@), doc.get("today"@), doc.get("cumulative"@)) {
        (Some(date), Some(JsonValue::Unsigned(today)), Some(JsonValue::Unsigned(cumulative))) => Some(
            TokensValue { date, today, cumulative },
        ),
        _ => None,
    }
}

impl PersistedTokens {
    /// The counts that a document holds, if it has all three fields: under their
    /// names, or in order.
    pub fn from_json(v: &Json) -> (r: Option<PersistedTokens>)
        ensures
            match r {
                Some(t) => tokens_in(v@) == Some(t@),
                None => tokens_in(v@) is None,
            },
    {
        let names = vec!["date", "today", "cumulative"];
        assert(names_of(names@) =~= tokens_names());
        let doc = read_record(v, &names);
        match (doc.get_str("date"), doc.get("today"), doc.get("cumulative")) {
            (Some(date), Some(Json::Unsigned(today)), Some(Json::Unsigned(cumulative))) => Some(
                PersistedTokens { date: date.to_owned(), today: *today, cumulative: *cumulative },
            ),
            _ => None,
        }
    }

    /// The counts in a file's text: none yet for a file that does not exist, and
    /// `None` for a text that does not hold them.
    pub fn load(text: Option<&str>) -> (r: Option<PersistedTokens>)
        ensures
            match text {
                None => r is Some && r->0@ == no_tokens(),
                Some(t) => match json_text(t@) {
                    Some(doc) => match tokens_in(doc) {
                        Some(tokens) => r is Some && r->0@ == tokens,
                        None => r is None,
                    },
                    None => r is None,
                },
            },
    {
        match text {
            None => Some(PersistedTokens::default()),
            Some(t) => match parse_json(t) {
                Some(doc) => PersistedTokens::from_json(&doc),
                None => None,
            },
        }
    }

    pub fn to_json(&self) -> (r: Json)
        ensures
            r@ == tokens_json(self@),
    {
        let mut members: Vec<(String, Json)> = Vec::new();
        members.push(("date".to_owned(), Json::Str(self.date.clone())));
        members.push(("today".to_owned(), Json::Unsigned(self.today)));
        members.push(("cumulative".to_owned(), Json::Unsigned(self.cumulative)));
        proof {
            lemma_object_view(members);
            assert(json_members(members@) =~= tokens_members(self@));
        }
        Json::Object(members)
    }

    /// The text that is kept on disk. Loading it gives the same counts.
    pub fn save(&self) -> (r: String)
        ensures
            r@ == json_print_pretty(tokens_json(self@)),
            json_text(r@) == Some(tokens_json(self@)),
            tokens_in(tokens_json(self@)) == Some(self@),
    {
        let doc = self.to_json();
        proof {
            law_tokens_read_back(self@);
            let m = tokens_members(self@);
            reveal_with_fuel(is_canonical, 2);
            reveal_with_fuel(is_shallow, 2);
            assert forall|i: int| 0 <= i < m.len() implies #[trigger] is_canonical(m[i].1) by {}
            assert forall|i: int| 0 <= i < m.len() implies #[trigger] is_shallow(
                m[i].1,
                (MAX_DEPTH - 1) as nat,
            ) by {}
        }
        print_json_pretty(&doc)
    }
}

/// Counts read back as they were written.
pub proof fn law_tokens_read_back(t: TokensValue)
    ensures
        tokens_in(tokens_json(t)) == Some(t),
        keys_distinct(tokens_members(t)),
{
    reveal_strlit("date");
    reveal_strlit("today");
    reveal_strlit("cumulative");
    assert("date"@.len() == 4 && "today"@.len() == 5 && "cumulative"@.len() == 10);
    let m = tokens_members(t);
    assert(m[0].0 == "date"@ && m[1].0 == "today"@ && m[2].0 == "cumulative"@);
    lemma_lookup_at(m, 0);
    lemma_lookup_at(m, 1);
    lemma_lookup_at(m, 2);
}

/// The path of the file, from `XDG_STATE_HOME` and `HOME`.
pub fn tokens_state_path(xdg_state_home: Option<&str>, home: Option<&str>) -> (r: Option<String>)
    ensures
        text_of(r) == bridge_file(
            base_dir(opt_text(xdg_state_home), opt_text(home), ".local/state"@),
            "tokens.json"@,
        ),
{
    bridge_path(xdg_state_dir(xdg_state_home, home), "tokens.json")
}

} // verus!
