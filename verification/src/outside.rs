//! The calls into `serde_json`, `toml`, `globset` and `uuid`, and those into std's
//! formatting and its reading of UTF-8, with what is relied on of each.

use vstd::prelude::*;
use vstd::utf8::{encode_utf8, valid_utf8};
use crate::json::{is_canonical, is_shallow, Json, JsonValue};

verus! {

/// A parsed JSON document of `serde_json`, as that crate holds it.
#[verifier::external_type_specification]
#[verifier::external_body]
pub struct ExValue(serde_json::Value);

/// A number of `serde_json`, as that crate holds it.
#[verifier::external_type_specification]
#[verifier::external_body]
pub struct ExNumber(serde_json::Number);

/// The `Clone` impl of `serde_json::Number`. It claims that the copy is the same
/// number.
pub assume_specification[ <serde_json::Number as Clone>::clone ](n: &serde_json::Number) -> (r:
    serde_json::Number)
    ensures
        r == *n,
;

/// A number that is no integer, or is beyond both integer types. It comes from
/// a document that was read, and no other number is held in one.
#[derive(Debug, PartialEq)]
pub struct Decimal {
    number: serde_json::Number,
}

impl Clone for Decimal {
    fn clone(&self) -> (r: Decimal)
        ensures
            r == *self,
    {
        Decimal { number: self.number.clone() }
    }
}

/// The document that a `serde_json::Value` holds.
pub uninterp spec fn value_content(value: serde_json::Value) -> JsonValue;

/// The document that `serde_json::from_str` reads in a text, if the text is one
/// JSON document.
pub uninterp spec fn json_text(text: Seq<char>) -> Option<JsonValue>;

/// `serde_json::from_str` into a `serde_json::Value`. It claims that whether
/// the text parses, and into which document, follows from the text alone, and
/// that the document holds each key of an object once.
#[verifier::external_body]
fn parse_value(text: &str) -> (r: Option<serde_json::Value>)
    ensures
        match r {
            Some(value) => json_text(text@) == Some(value_content(value)) && is_canonical(
                value_content(value),
            ),
            None => json_text(text@) is None,
        },
{
    serde_json::from_str(text).ok()
}

/// Takes a `serde_json::Value` apart by its variants, and a number by
/// `Number::as_u64` and `Number::as_i64`. It claims that the copy holds the
/// same document.
#[verifier::external_body]
fn value_to_json(value: serde_json::Value) -> (json: Json)
    ensures
        json@ == value_content(value),
{
    match value {
        serde_json::Value::Null => Json::Null,
        serde_json::Value::Bool(b) => Json::Bool(b),
        serde_json::Value::Number(n) => match (n.as_u64(), n.as_i64()) {
            (Some(u), _) => Json::Unsigned(u),
            (None, Some(i)) => Json::Negative(i),
            (None, None) => Json::Decimal(Decimal { number: n }),
        },
        serde_json::Value::String(s) => Json::Str(s),
        serde_json::Value::Array(a) => Json::Array(a.into_iter().map(value_to_json).collect()),
        serde_json::Value::Object(m) => Json::Object(
            m.into_iter().map(|(k, v)| (k, value_to_json(v))).collect(),
        ),
    }
}

/// Builds a `serde_json::Value` by its variants. It claims that the value holds
/// the same document, if no key of an object occurs twice and each number is
/// labelled as what it is.
#[verifier::external_body]
fn json_to_value(json: &Json) -> (value: serde_json::Value)
    ensures
        is_canonical(json@) ==> value_content(value) == json@,
{
    match json {
        Json::Null => serde_json::Value::Null,
        Json::Bool(b) => serde_json::Value::Bool(*b),
        Json::Unsigned(u) => serde_json::Value::from(*u),
        Json::Negative(i) => serde_json::Value::from(*i),
        Json::Decimal(d) => serde_json::Value::Number(d.number.clone()),
        Json::Str(s) => serde_json::Value::String(s.clone()),
        Json::Array(a) => serde_json::Value::Array(a.iter().map(json_to_value).collect()),
        Json::Object(m) => serde_json::Value::Object(
            m.iter().map(|(k, v)| (k.clone(), json_to_value(v))).collect(),
        ),
    }
}

/// The text that `serde_json::to_string` prints for a document.
pub uninterp spec fn json_print(value: JsonValue) -> Seq<char>;

/// The text that `serde_json::to_string_pretty` prints for a document.
pub uninterp spec fn json_print_pretty(value: JsonValue) -> Seq<char>;

/// Nesting up to here is printed and read back by `serde_json`, whose reader
/// stops at one hundred and twenty-eight levels.
pub const MAX_DEPTH: u64 = 100;

/// `serde_json::to_string`, through the `Display` of `serde_json::Value`. It
/// claims that the text follows from the document alone, that it holds no line
/// feed, that an object is printed in braces, and that reading the text gives
/// the document back.
#[verifier::external_body]
fn print_value(value: &serde_json::Value) -> (r: String)
    ensures
        r@ == json_print(value_content(*value)),
        !r@.contains('\n'),
        value_content(*value) is Object ==> r@.len() > 0 && r@[0] == '{' && r@.last() == '}',
        is_shallow(value_content(*value), MAX_DEPTH as nat) ==> json_text(r@) == Some(
            value_content(*value),
        ),
{
    value.to_string()
}

/// `serde_json::to_string_pretty`. It claims that the text follows from the
/// document alone, and that reading it gives the document back.
#[verifier::external_body]
fn print_value_pretty(value: &serde_json::Value) -> (r: String)
    ensures
        r@ == json_print_pretty(value_content(*value)),
        is_shallow(value_content(*value), MAX_DEPTH as nat) ==> json_text(r@) == Some(
            value_content(*value),
        ),
{
    serde_json::to_string_pretty(value).unwrap_or_default()
}

/// Prints a document on one line.
pub fn print_json(json: &Json) -> (r: String)
    ensures
        !r@.contains('\n'),
        is_canonical(json@) ==> r@ == json_print(json@),
        is_canonical(json@) && json@ is Object ==> r@.len() > 0 && r@[0] == '{' && r@.last() == '}',
        is_canonical(json@) && is_shallow(json@, MAX_DEPTH as nat) ==> json_text(r@) == Some(json@),
{
    let value = json_to_value(json);
    print_value(&value)
}

/// Prints a document with one member or item to a line.
pub fn print_json_pretty(json: &Json) -> (r: String)
    ensures
        is_canonical(json@) ==> r@ == json_print_pretty(json@),
        is_canonical(json@) && is_shallow(json@, MAX_DEPTH as nat) ==> json_text(r@) == Some(json@),
{
    let value = json_to_value(json);
    print_value_pretty(&value)
}

/// Reads a text that is one JSON document.
pub fn parse_json(text: &str) -> (r: Option<Json>)
    ensures
        match r {
            Some(json) => json_text(text@) == Some(json@) && is_canonical(json@),
            None => json_text(text@) is None,
        },
{
    match parse_value(text) {
        Some(value) => Some(value_to_json(value)),
        None => None,
    }
}

/// The document that `toml::from_str` reads in a text, if the text is one TOML
/// document.
pub uninterp spec fn toml_text(text: Seq<char>) -> Option<JsonValue>;

/// `toml::from_str` into a `serde_json::Value`. It claims that whether the text
/// parses, and into which document, follows from the text alone.
#[verifier::external_body]
fn parse_toml_value(text: &str) -> (r: Option<serde_json::Value>)
    ensures
        match r {
            Some(value) => toml_text(text@) == Some(value_content(value)),
            None => toml_text(text@) is None,
        },
{
    toml::from_str(text).ok()
}

/// Reads a text that is one TOML document.
pub fn parse_toml(text: &str) -> (r: Option<Json>)
    ensures
        match r {
            Some(json) => toml_text(text@) == Some(json@),
            None => toml_text(text@) is None,
        },
{
    match parse_toml_value(text) {
        Some(value) => Some(value_to_json(value)),
        None => None,
    }
}

/// Whether `c` has a meaning of its own in a glob.
pub open spec fn is_glob_special(c: char) -> bool {
    c == '?' || c == '*' || c == '[' || c == '{' || c == '}' || c == '\\'
}

/// Text that a glob takes letter by letter.
pub open spec fn is_plain(text: Seq<char>) -> bool {
    text.len() > 0 && forall|i: int| 0 <= i < text.len() ==> !is_glob_special(#[trigger] text[i])
}

/// Whether `globset::Glob::new` accepts a glob.
pub uninterp spec fn glob_accepted(glob: Seq<char>) -> bool;

/// Whether a path matches a glob by `globset`; `None` where the glob cannot be
/// compiled into a matcher.
pub uninterp spec fn glob_match(glob: Seq<char>, path: Seq<char>) -> Option<bool>;

/// `globset::Glob::new`. It claims that acceptance follows from the glob's text
/// alone, and that a text without special characters is accepted.
#[verifier::external_body]
pub(crate) fn accepts_glob(glob: &str) -> (r: bool)
    ensures
        r == glob_accepted(glob@),
        is_plain(glob@) ==> r,
{
    globset::Glob::new(glob).is_ok()
}

/// `globset::GlobSet::is_match` on the set of one glob, which reports a glob
/// too large to compile where `Glob::compile_matcher` panics. It claims that the
/// outcome follows from the two texts alone, and that a glob without special
/// characters matches its own text and no other. A path whose last component is
/// `..` has no base name for `GlobSet`, so a glob such as `**/..` misses it.
#[verifier::external_body]
pub(crate) fn matches_glob(glob: &str, path: &str) -> (r: Option<bool>)
    ensures
        r == glob_match(glob@, path@),
        is_plain(glob@) ==> r == Some(path@ == glob@),
{
    let parsed = globset::Glob::new(glob).ok()?;
    let set = globset::GlobSet::new([parsed]).ok()?;
    Some(set.is_match(path))
}

/// The UUID that `uuid::Uuid` reads in a text, as a number, if the text is one.
pub uninterp spec fn uuid_text(text: Seq<char>) -> Option<u128>;

/// The `FromStr` impl of `uuid::Uuid`, and `Uuid::as_u128`. It claims that whether
/// the text is a UUID, and which, follows from the text alone.
#[verifier::external_body]
pub(crate) fn parse_uuid(text: &str) -> (r: Option<u128>)
    ensures
        r == uuid_text(text@),
{
    text.parse::<uuid::Uuid>().ok().map(|u| u.as_u128())
}

/// `String::from_utf8`. It claims that bytes that are UTF-8 give the text that they
/// encode, and that others give none.
#[verifier::external_body]
pub(crate) fn text_from_bytes(bytes: Vec<u8>) -> (r: Option<String>)
    ensures
        match r {
            Some(text) => valid_utf8(bytes@) && encode_utf8(text@) == bytes@,
            None => !valid_utf8(bytes@),
        },
{
    String::from_utf8(bytes).ok()
}

/// The text in quotes, as `Debug` of `str` writes it.
pub uninterp spec fn quoted(text: Seq<char>) -> Seq<char>;

/// `format!` with `{:?}` on a `str`. It claims that the quoted text follows from
/// the text alone.
#[verifier::external_body]
pub(crate) fn quote(text: &str) -> (r: String)
    ensures
        r@ == quoted(text@),
{
    format!("{:?}", text)
}

} // verus!
