//! The allow and deny lists of a settings file.

use vstd::prelude::*;
use crate::json::{json_items, lemma_array_view, Json, JsonValue};
use crate::outside::{json_text, parse_json};
use crate::permission::pattern::{pattern_value, Pattern, PatternValue};

verus! {

/// The patterns of `permissions.allow` and `permissions.deny`.
#[derive(Debug, PartialEq)]
pub struct Allowlist {
    pub allow: Vec<Pattern>,
    pub deny: Vec<Pattern>,
}

/// What an [`Allowlist`] stands for.
#[verifier::ext_equal]
pub struct AllowlistValue {
    pub allow: Seq<PatternValue>,
    pub deny: Seq<PatternValue>,
}

pub open spec fn pattern_values(patterns: Seq<Pattern>) -> Seq<PatternValue> {
    patterns.map_values(|p: Pattern| p@)
}

impl View for Allowlist {
    type V = AllowlistValue;

    open spec fn view(&self) -> AllowlistValue {
        AllowlistValue { allow: pattern_values(self.allow@), deny: pattern_values(self.deny@) }
    }
}

/// No pattern on either side.
pub open spec fn no_patterns() -> AllowlistValue {
    AllowlistValue { allow: Seq::empty(), deny: Seq::empty() }
}

/// The patterns of the texts among `items`, in order; other items are skipped.
pub open spec fn patterns_in(items: Seq<JsonValue>) -> Seq<PatternValue>
    decreases items.len(),
{
    if items.len() == 0 {
        Seq::empty()
    } else {
        let before = patterns_in(items.drop_last());
        match items.last().as_str() {
            Some(text) => before.push(pattern_value(text)),
            None => before,
        }
    }
}

/// The array `permissions.<key>` of a settings document.
pub open spec fn permission_items(root: JsonValue, key: Seq<char>) -> Seq<JsonValue> {
    match root.get("permissions"@) {
        Some(permissions) => match permissions.get(key) {
            Some(JsonValue::Array(items)) => items,
            _ => Seq::empty(),
        },
        None => Seq::empty(),
    }
}

/// The lists of a settings document.
pub open spec fn settings_lists(root: JsonValue) -> AllowlistValue {
    AllowlistValue {
        allow: patterns_in(permission_items(root, "allow"@)),
        deny: patterns_in(permission_items(root, "deny"@)),
    }
}

/// The lists of three sources, the most specific first.
pub open spec fn cascaded(
    local: AllowlistValue,
    project: AllowlistValue,
    user: AllowlistValue,
) -> AllowlistValue {
    AllowlistValue {
        allow: local.allow + project.allow + user.allow,
        deny: local.deny + project.deny + user.deny,
    }
}

fn parse_pattern_array(root: &Json, key: &str) -> (patterns: Vec<Pattern>)
    ensures
        pattern_values(patterns@) == patterns_in(permission_items(root@, key@)),
{
    let mut patterns: Vec<Pattern> = Vec::new();
    assert(pattern_values(patterns@) =~= Seq::<PatternValue>::empty());
    let permissions = match root.get("permissions") {
        Some(permissions) => permissions,
        None => {
            return patterns;
        },
    };
    match permissions.get(key) {
        Some(Json::Array(items)) => {
            proof {
                lemma_array_view(*items);
            }
            let ghost all = json_items(items@);
            let mut i: usize = 0;
            while i < items.len()
                invariant
                    i <= items@.len(),
                    all == json_items(items@),
                    pattern_values(patterns@) == patterns_in(all.take(i as int)),
                decreases items@.len() - i,
            {
                assert(all.take(i + 1).drop_last() =~= all.take(i as int));
                assert(all.take(i + 1).last() == items@[i as int]@);
                let ghost before = patterns@;
                match items[i].as_str() {
                    Some(text) => {
                        let pattern = Pattern::parse(text);
                        patterns.push(pattern);
                        assert(pattern_values(patterns@) =~= pattern_values(before).push(pattern@));
                    },
                    None => {},
                }
                i = i + 1;
            }
            assert(all.take(i as int) =~= all);
            patterns
        },
        _ => patterns,
    }
}

fn append_patterns(to: &mut Vec<Pattern>, mut from: Vec<Pattern>)
    ensures
        pattern_values(final(to)@) == pattern_values(old(to)@) + pattern_values(from@),
{
    let ghost before = to@;
    let ghost added = from@;
    to.append(&mut from);
    assert(pattern_values(to@) =~= pattern_values(before) + pattern_values(added));
}

fn copy_patterns(from: &Vec<Pattern>) -> (r: Vec<Pattern>)
    ensures
        pattern_values(r@) == pattern_values(from@),
{
    let mut r: Vec<Pattern> = Vec::new();
    let mut i: usize = 0;
    while i < from.len()
        invariant
            i <= from@.len(),
            r@.len() == i,
            forall|j: int| 0 <= j < i ==> (#[trigger] r@[j])@ == from@[j]@,
        decreases from@.len() - i,
    {
        r.push(from[i].clone());
        i = i + 1;
    }
    assert(pattern_values(r@) =~= pattern_values(from@));
    r
}

impl Clone for Allowlist {
    fn clone(&self) -> (r: Allowlist)
        ensures
            r@ == self@,
    {
        Allowlist { allow: copy_patterns(&self.allow), deny: copy_patterns(&self.deny) }
    }
}

impl Allowlist {
    /// No patterns on either side.
    pub fn empty() -> (r: Allowlist)
        ensures
            r@ == no_patterns(),
    {
        let r = Allowlist { allow: Vec::new(), deny: Vec::new() };
        assert(r@ =~= no_patterns());
        r
    }

    /// The lists of a settings document. A missing or misshapen list is empty,
    /// and entries that are no text are skipped.
    pub fn from_settings_json(root: &Json) -> (r: Allowlist)
        ensures
            r@ == settings_lists(root@),
    {
        let allow = parse_pattern_array(root, "allow");
        let deny = parse_pattern_array(root, "deny");
        Allowlist { allow, deny }
    }

    /// The lists in the text of a settings file; `None` for a text that is no
    /// JSON document. A file that does not exist (`None`) has empty lists.
    pub fn from_text(text: Option<&str>) -> (r: Option<Allowlist>)
        ensures
            match text {
                None => r is Some && r->0@ == no_patterns(),
                Some(t) => match json_text(t@) {
                    Some(root) => r is Some && r->0@ == settings_lists(root),
                    None => r is None,
                },
            },
    {
        match text {
            None => Some(Allowlist::empty()),
            Some(t) => match parse_json(t) {
                Some(root) => Some(Allowlist::from_settings_json(&root)),
                None => None,
            },
        }
    }

    /// The lists of three sources, the most specific first, without removal of
    /// duplicates.
    pub fn cascade(local: Allowlist, project: Allowlist, user: Allowlist) -> (r: Allowlist)
        ensures
            r@ == cascaded(local@, project@, user@),
    {
        let mut allow = local.allow;
        append_patterns(&mut allow, project.allow);
        append_patterns(&mut allow, user.allow);
        let mut deny = local.deny;
        append_patterns(&mut deny, project.deny);
        append_patterns(&mut deny, user.deny);
        Allowlist { allow, deny }
    }
}

} // verus!
