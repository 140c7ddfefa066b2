//! Adding a pattern to the allow list of a settings document, and taking it out
//! again.

use vstd::prelude::*;
use crate::assoc::{
    has_key, index_of, lemma_index_of, lemma_index_unique, lemma_put, lemma_put_again,
    lemma_put_same, lookup, put,
};
use crate::json::{
    json_items, json_members, lemma_array_view, lemma_object_view, member_position, put_member,
    take_value, Json, JsonValue,
};
use crate::permission::additions::derive::{derived_text, reads_back};
use crate::permission::allowlist::{cascaded, permission_items, settings_lists, AllowlistValue};
use crate::permission::pattern::{match_result, pattern_value, MatchResult};
use crate::permission::{decision_of, law_allow_needs_sure_match, permissive_name};
use crate::proto::hook::PermissionMode;
use crate::setup::{json_type_name, kind_name};
use crate::text::{join3, str_eq};

verus! {

/// What adding a pattern leads to.
#[derive(Debug, PartialEq)]
pub enum AddOutcome {
    /// The settings to save.
    Added(Json),
    /// The pattern is there; nothing is to be saved or logged.
    AlreadyPresent,
}

/// A settings document has a shape that no pattern can be added to.
#[derive(Debug, Clone, Copy, PartialEq, Eq)]
pub enum AddError {
    /// The document is no object.
    Root { got: &'static str },
    /// `permissions` is no object.
    Permissions,
    /// `permissions.allow` is no array.
    Allow { got: &'static str },
}

/// What adding a pattern leads to, over values.
#[verifier::ext_equal]
pub enum AddValue {
    Added(JsonValue),
    AlreadyPresent,
    Root { got: Seq<char> },
    Permissions,
    Allow { got: Seq<char> },
}

pub open spec fn add_value(r: Result<AddOutcome, AddError>) -> AddValue {
    match r {
        Ok(AddOutcome::Added(settings)) => AddValue::Added(settings@),
        Ok(AddOutcome::AlreadyPresent) => AddValue::AlreadyPresent,
        Err(AddError::Root { got }) => AddValue::Root { got: got@ },
        Err(AddError::Permissions) => AddValue::Permissions,
        Err(AddError::Allow { got }) => AddValue::Allow { got: got@ },
    }
}

impl AddError {
    /// The error, naming the settings file.
    pub fn message(&self, path: &str) -> (r: String)
        ensures
            r@ == "settings file "@ + path@ + (match self {
                AddError::Root { got } =>
                    " has unexpected root shape (expected JSON object, got "@ + got@ + ")"@,
                AddError::Permissions => " has unexpected shape at .permissions (expected object)"@,
                AddError::Allow { got } =>
                    " has unexpected shape at .permissions.allow (expected array, got "@ + got@ + ")"@,
            }),
    {
        let what = match self {
            AddError::Root { got } => join3(
                " has unexpected root shape (expected JSON object, got ",
                got,
                ")",
            ),
            AddError::Permissions => " has unexpected shape at .permissions (expected object)".to_owned(),
            AddError::Allow { got } => join3(
                " has unexpected shape at .permissions.allow (expected array, got ",
                got,
                ")",
            ),
        };
        join3("settings file ", path, what.as_str())
    }
}

/// Whether a text is among the items.
pub open spec fn holds_text(items: Seq<JsonValue>, text: Seq<char>) -> bool {
    exists|i: int| 0 <= i < items.len() && #[trigger] items[i] == JsonValue::Str(text)
}

/// The settings with these allowed patterns.
pub open spec fn with_allow(
    members: Seq<(Seq<char>, JsonValue)>,
    permissions: Seq<(Seq<char>, JsonValue)>,
    allow: Seq<JsonValue>,
) -> JsonValue {
    JsonValue::Object(
        put(
            members,
            "permissions"@,
            JsonValue::Object(put(permissions, "allow"@, JsonValue::Array(allow))),
        ),
    )
}

/// What adding `pattern` to a settings document leads to. Parts that are absent
/// are made; parts of a wrong shape are refused.
pub open spec fn added_to(settings: JsonValue, pattern: Seq<char>) -> AddValue {
    match settings {
        JsonValue::Object(members) => match lookup(members, "permissions"@) {
            None => AddValue::Added(
                with_allow(members, Seq::empty(), seq![JsonValue::Str(pattern)]),
            ),
            Some(JsonValue::Object(permissions)) => match lookup(permissions, "allow"@) {
                None => AddValue::Added(
                    with_allow(members, permissions, seq![JsonValue::Str(pattern)]),
                ),
                Some(JsonValue::Array(allow)) => if holds_text(allow, pattern) {
                    AddValue::AlreadyPresent
                } else {
                    AddValue::Added(
                        with_allow(members, permissions, allow.push(JsonValue::Str(pattern))),
                    )
                },
                Some(other) => AddValue::Allow { got: kind_name(other) },
            },
            Some(_) => AddValue::Permissions,
        },
        other => AddValue::Root { got: kind_name(other) },
    }
}

fn contains_text(items: &Vec<Json>, text: &str) -> (r: bool)
    ensures
        r == holds_text(json_items(items@), text@),
{
    let ghost all = json_items(items@);
    let mut i: usize = 0;
    while i < items.len()
        invariant
            i <= items@.len(),
            all == json_items(items@),
            forall|j: int| 0 <= j < i ==> #[trigger] all[j] != JsonValue::Str(text@),
        decreases items@.len() - i,
    {
        assert(all[i as int] == items@[i as int]@);
        if let Json::Str(t) = &items[i] {
            if str_eq(t.as_str(), text) {
                return true;
            }
        }
        i = i + 1;
    }
    false
}

/// Puts `value` under `key` of members whose value there was taken out.
fn put_back(
    members: Vec<(String, Json)>,
    key: &str,
    value: Json,
    Ghost(before): Ghost<Seq<(Seq<char>, JsonValue)>>,
) -> (r: Json)
    requires
        json_members(members@) == before || (has_key(before, key@) && json_members(members@)
            == before.update(index_of(before, key@) as int, (key@, JsonValue::Null))),
    ensures
        r@ == JsonValue::Object(put(before, key@, value@)),
{
    let mut members = members;
    let ghost middle = json_members(members@);
    let ghost held = value@;
    proof {
        lemma_index_of(before, key@);
        if has_key(before, key@) {
            assert forall|j: int| 0 <= j < index_of(before, key@) implies (#[trigger] middle[j]).0
                != key@ by {
                assert(middle[j] == before[j]);
            }
            lemma_index_unique(middle, key@, index_of(before, key@));
            assert(put(middle, key@, held) =~= put(before, key@, held));
        }
    }
    put_member(&mut members, key.to_owned(), value);
    proof {
        lemma_object_view(members);
    }
    Json::Object(members)
}

/// Adds `pattern` to the allow list of a settings document.
pub fn write_allow_pattern(settings: Json, pattern: &str) -> (r: Result<AddOutcome, AddError>)
    ensures
        add_value(r) == added_to(settings@, pattern@),
{
    let mut members = match settings {
        Json::Object(members) => {
            proof {
                lemma_object_view(members);
            }
            members
        },
        other => {
            return Err(AddError::Root { got: json_type_name(&other) });
        },
    };
    let ghost root = json_members(members@);
    let i = member_position(&members, "permissions");
    proof {
        lemma_index_of(root, "permissions"@);
    }
    let mut permissions: Vec<(String, Json)> = Vec::new();
    if i < members.len() {
        match take_value(&mut members, i) {
            Json::Object(inner) => {
                proof {
                    lemma_object_view(inner);
                }
                permissions = inner;
            },
            _ => {
                return Err(AddError::Permissions);
            },
        }
    } else {
        assert(json_members(permissions@) =~= Seq::empty());
    }
    let ghost perms = json_members(permissions@);
    let k = member_position(&permissions, "allow");
    proof {
        lemma_index_of(perms, "allow"@);
    }
    let mut allow: Vec<Json> = Vec::new();
    if k < permissions.len() {
        match take_value(&mut permissions, k) {
            Json::Array(items) => {
                proof {
                    lemma_array_view(items);
                }
                allow = items;
            },
            other => {
                return Err(AddError::Allow { got: json_type_name(&other) });
            },
        }
    } else {
        assert(json_items(allow@) =~= Seq::empty());
    }
    let ghost listed = json_items(allow@);
    if contains_text(&allow, pattern) {
        return Ok(AddOutcome::AlreadyPresent);
    }
    allow.push(Json::Str(pattern.to_owned()));
    proof {
        assert(json_items(allow@) =~= listed.push(JsonValue::Str(pattern@)));
        lemma_array_view(allow);
        assert(Seq::<JsonValue>::empty().push(JsonValue::Str(pattern@)) =~= seq![
            JsonValue::Str(pattern@),
        ]);
    }
    let inner = put_back(permissions, "allow", Json::Array(allow), Ghost(perms));
    let whole = put_back(members, "permissions", inner, Ghost(root));
    Ok(AddOutcome::Added(whole))
}

/// The items without the text, wherever it stands.
pub open spec fn without_text(items: Seq<JsonValue>, text: Seq<char>) -> Seq<JsonValue>
    decreases items.len(),
{
    if items.len() == 0 {
        Seq::empty()
    } else if items.last() == JsonValue::Str(text) {
        without_text(items.drop_last(), text)
    } else {
        without_text(items.drop_last(), text).push(items.last())
    }
}

/// The settings without a pattern; `None` where the pattern is not there.
pub open spec fn removed_from(settings: JsonValue, pattern: Seq<char>) -> Option<JsonValue> {
    match settings {
        JsonValue::Object(members) => match lookup(members, "permissions"@) {
            Some(JsonValue::Object(permissions)) => match lookup(permissions, "allow"@) {
                Some(JsonValue::Array(allow)) => if holds_text(allow, pattern) {
                    Some(with_allow(members, permissions, without_text(allow, pattern)))
                } else {
                    None
                },
                _ => None,
            },
            _ => None,
        },
        _ => None,
    }
}

fn drop_text(items: Vec<Json>, text: &str) -> (r: Vec<Json>)
    ensures
        json_items(r@) == without_text(json_items(items@), text@),
{
    let ghost all = json_items(items@);
    let mut r: Vec<Json> = Vec::new();
    let mut i: usize = 0;
    assert(json_items(r@) =~= without_text(all.take(0), text@));
    while i < items.len()
        invariant
            i <= items@.len(),
            all == json_items(items@),
            json_items(r@) == without_text(all.take(i as int), text@),
        decreases items@.len() - i,
    {
        assert(all.take(i + 1).drop_last() =~= all.take(i as int));
        assert(all.take(i + 1).last() == items@[i as int]@);
        let same = match &items[i] {
            Json::Str(t) => str_eq(t.as_str(), text),
            _ => false,
        };
        if !same {
            let ghost before = r@;
            let kept = items[i].duplicate();
            r.push(kept);
            assert(json_items(r@) =~= json_items(before).push(items@[i as int]@));
        }
        i = i + 1;
    }
    assert(all.take(i as int) =~= all);
    r
}

/// Takes `pattern` out of the allow list of a settings document, wherever it
/// stands there.
pub fn remove_allow_pattern(settings: Json, pattern: &str) -> (r: Option<Json>)
    ensures
        match r {
            Some(changed) => removed_from(settings@, pattern@) == Some(changed@),
            None => removed_from(settings@, pattern@) is None,
        },
{
    let mut members = match settings {
        Json::Object(members) => {
            proof {
                lemma_object_view(members);
            }
            members
        },
        _ => {
            return None;
        },
    };
    let ghost root = json_members(members@);
    let i = member_position(&members, "permissions");
    proof {
        lemma_index_of(root, "permissions"@);
    }
    if i == members.len() {
        return None;
    }
    let mut permissions = match take_value(&mut members, i) {
        Json::Object(inner) => {
            proof {
                lemma_object_view(inner);
            }
            inner
        },
        _ => {
            return None;
        },
    };
    let ghost perms = json_members(permissions@);
    let k = member_position(&permissions, "allow");
    proof {
        lemma_index_of(perms, "allow"@);
    }
    if k == permissions.len() {
        return None;
    }
    let allow = match take_value(&mut permissions, k) {
        Json::Array(items) => {
            proof {
                lemma_array_view(items);
            }
            items
        },
        _ => {
            return None;
        },
    };
    if !contains_text(&allow, pattern) {
        return None;
    }
    let kept = drop_text(allow, pattern);
    proof {
        lemma_array_view(kept);
    }
    let inner = put_back(permissions, "allow", Json::Array(kept), Ghost(perms));
    let whole = put_back(members, "permissions", inner, Ghost(root));
    Some(whole)
}

// ---------------------------------------------------------------------------
// Laws of additions.

proof fn lemma_with_allow(
    members: Seq<(Seq<char>, JsonValue)>,
    permissions: Seq<(Seq<char>, JsonValue)>,
    allow: Seq<JsonValue>,
)
    ensures
        ({
            let s = with_allow(members, permissions, allow);
            &&& s.get("permissions"@) == Some(
                JsonValue::Object(put(permissions, "allow"@, JsonValue::Array(allow))),
            )
            &&& permission_items(s, "allow"@) == allow
            &&& permission_items(s, "deny"@) == match lookup(permissions, "deny"@) {
                Some(JsonValue::Array(items)) => items,
                _ => Seq::empty(),
            }
        }),
{
    let inner = put(permissions, "allow"@, JsonValue::Array(allow));
    lemma_put(members, "permissions"@, JsonValue::Object(inner), "permissions"@);
    lemma_put(permissions, "allow"@, JsonValue::Array(allow), "allow"@);
    lemma_put(permissions, "allow"@, JsonValue::Array(allow), "deny"@);
    reveal_strlit("allow");
    reveal_strlit("deny");
    assert("allow"@.len() == 5 && "deny"@.len() == 4);
}

/// Adding a pattern puts it at the end of the allow list and leaves the deny
/// list alone.
pub proof fn law_added_pattern_is_listed(settings: JsonValue, pattern: Seq<char>)
    requires
        added_to(settings, pattern) is Added,
    ensures
        ({
            let after = added_to(settings, pattern)->Added_0;
            &&& permission_items(after, "allow"@) == permission_items(settings, "allow"@).push(
                JsonValue::Str(pattern),
            )
            &&& permission_items(after, "deny"@) == permission_items(settings, "deny"@)
            &&& settings_lists(after).allow == settings_lists(settings).allow.push(
                pattern_value(pattern),
            )
            &&& settings_lists(after).deny == settings_lists(settings).deny
        }),
{
    let after = added_to(settings, pattern)->Added_0;
    let members = settings->Object_0;
    let listed = permission_items(settings, "allow"@);
    assert(Seq::<JsonValue>::empty().push(JsonValue::Str(pattern)) =~= seq![
        JsonValue::Str(pattern),
    ]);
    match lookup(members, "permissions"@) {
        Some(JsonValue::Object(permissions)) => {
            lemma_with_allow(members, permissions, listed.push(JsonValue::Str(pattern)));
        },
        _ => {
            lemma_with_allow(members, Seq::empty(), listed.push(JsonValue::Str(pattern)));
        },
    }
    assert(listed.push(JsonValue::Str(pattern)).drop_last() =~= listed);
}

/// Adding a pattern a second time changes nothing.
pub proof fn law_adding_idempotent(settings: JsonValue, pattern: Seq<char>)
    requires
        added_to(settings, pattern) is Added,
    ensures
        added_to(added_to(settings, pattern)->Added_0, pattern) is AlreadyPresent,
{
    law_added_pattern_is_listed(settings, pattern);
    let after = added_to(settings, pattern)->Added_0;
    let listed = permission_items(settings, "allow"@).push(JsonValue::Str(pattern));
    let members = settings->Object_0;
    match lookup(members, "permissions"@) {
        Some(JsonValue::Object(permissions)) => {
            lemma_with_allow(members, permissions, listed);
            lemma_put(permissions, "allow"@, JsonValue::Array(listed), "allow"@);
        },
        _ => {
            assert(Seq::<JsonValue>::empty().push(JsonValue::Str(pattern)) =~= seq![
                JsonValue::Str(pattern),
            ]);
            lemma_with_allow(members, Seq::empty(), listed);
            lemma_put(
                Seq::<(Seq<char>, JsonValue)>::empty(),
                "allow"@,
                JsonValue::Array(listed),
                "allow"@,
            );
        },
    }
    assert(listed[listed.len() - 1] == JsonValue::Str(pattern));
    assert(holds_text(listed, pattern));
}

proof fn lemma_without_absent(items: Seq<JsonValue>, text: Seq<char>)
    requires
        !holds_text(items, text),
    ensures
        without_text(items, text) == items,
    decreases items.len(),
{
    if items.len() > 0 {
        let rest = items.drop_last();
        assert(items[items.len() - 1] == items.last());
        assert(!holds_text(rest, text)) by {
            if holds_text(rest, text) {
                let i = choose|i: int| 0 <= i < rest.len() && #[trigger] rest[i] == JsonValue::Str(text);
                assert(items[i] == JsonValue::Str(text));
            }
        }
        lemma_without_absent(rest, text);
        assert(rest.push(items.last()) =~= items);
    } else {
        assert(without_text(items, text) =~= items);
    }
}

proof fn lemma_without_holds_not(items: Seq<JsonValue>, text: Seq<char>)
    ensures
        !holds_text(without_text(items, text), text),
    decreases items.len(),
{
    if items.len() > 0 {
        let rest = without_text(items.drop_last(), text);
        lemma_without_holds_not(items.drop_last(), text);
        let all = without_text(items, text);
        if holds_text(all, text) {
            let i = choose|i: int| 0 <= i < all.len() && #[trigger] all[i] == JsonValue::Str(text);
            if i < rest.len() {
                assert(rest[i] == all[i]);
            }
        }
    }
}

/// The `permissions` of a settings document; none where they are absent.
pub open spec fn permissions_of(settings: JsonValue) -> Seq<(Seq<char>, JsonValue)> {
    match settings.get("permissions"@) {
        Some(JsonValue::Object(permissions)) => permissions,
        _ => Seq::empty(),
    }
}

/// What was added is taken out again. Settings that had a list are as they were
/// before; others are left with an empty one, and are else as they were.
pub proof fn law_remove_undoes_add(settings: JsonValue, pattern: Seq<char>)
    requires
        added_to(settings, pattern) is Added,
    ensures
        ({
            let removed = removed_from(added_to(settings, pattern)->Added_0, pattern);
            &&& removed == Some(
                with_allow(
                    settings->Object_0,
                    permissions_of(settings),
                    permission_items(settings, "allow"@),
                ),
            )
            &&& lookup(permissions_of(settings), "allow"@) is Some ==> removed == Some(settings)
            &&& permission_items(removed->0, "allow"@) == permission_items(settings, "allow"@)
            &&& permission_items(removed->0, "deny"@) == permission_items(settings, "deny"@)
            &&& settings_lists(removed->0) == settings_lists(settings)
        }),
{
    law_adding_idempotent(settings, pattern);
    law_added_pattern_is_listed(settings, pattern);
    let after = added_to(settings, pattern)->Added_0;
    let before = permission_items(settings, "allow"@);
    let listed = before.push(JsonValue::Str(pattern));
    let members = after->Object_0;
    let permissions = lookup(members, "permissions"@)->0->Object_0;
    assert(listed[listed.len() - 1] == JsonValue::Str(pattern));
    assert(holds_text(listed, pattern));
    assert(!holds_text(before, pattern));
    lemma_without_absent(before, pattern);
    assert(listed.drop_last() =~= before);
    lemma_with_allow(members, permissions, without_text(listed, pattern));
    let inner = permissions_of(settings);
    assert(Seq::<JsonValue>::empty().push(JsonValue::Str(pattern)) =~= seq![
        JsonValue::Str(pattern),
    ]);
    assert(after == with_allow(settings->Object_0, inner, listed));
    lemma_with_allow(settings->Object_0, inner, listed);
    lemma_put(inner, "allow"@, JsonValue::Array(listed), "allow"@);
    let longer = JsonValue::Array(listed);
    let shorter = JsonValue::Array(before);
    lemma_put_again(inner, "allow"@, longer, shorter);
    lemma_put_again(
        settings->Object_0,
        "permissions"@,
        JsonValue::Object(put(inner, "allow"@, longer)),
        JsonValue::Object(put(inner, "allow"@, shorter)),
    );
    if lookup(inner, "allow"@) is Some {
        lemma_put_same(inner, "allow"@, shorter);
        lemma_put_same(settings->Object_0, "permissions"@, JsonValue::Object(inner));
    }
}

/// After a removal the pattern is on the list no more, however often it was.
pub proof fn law_removed_pattern_is_gone(settings: JsonValue, pattern: Seq<char>)
    requires
        removed_from(settings, pattern) is Some,
    ensures
        !holds_text(permission_items(removed_from(settings, pattern)->0, "allow"@), pattern),
        permission_items(removed_from(settings, pattern)->0, "deny"@) == permission_items(
            settings,
            "deny"@,
        ),
{
    let members = settings->Object_0;
    let permissions = lookup(members, "permissions"@)->0->Object_0;
    let allow = lookup(permissions, "allow"@)->0->Array_0;
    lemma_with_allow(members, permissions, without_text(allow, pattern));
    lemma_without_holds_not(allow, pattern);
}

/// A call that was approved for good is approved without asking from then on: if
/// its pattern was added to the local list and means the call, and no deny
/// pattern speaks of it, the decision is to allow.
pub proof fn law_always_approves_next_time(
    mode: PermissionMode,
    tool_name: Seq<char>,
    input: JsonValue,
    local_settings: JsonValue,
    project: AllowlistValue,
    user: AllowlistValue,
)
    requires
        reads_back(tool_name, input),
        added_to(local_settings, derived_text(tool_name, input)->0) is Added,
        forall|i: int|
            #![trigger cascaded(settings_lists(local_settings), project, user).deny[i]]
            0 <= i < cascaded(settings_lists(local_settings), project, user).deny.len()
                ==> match_result(
                cascaded(settings_lists(local_settings), project, user).deny[i],
                tool_name,
                input,
            ) == MatchResult::NoMatch,
    ensures
        decision_of(
            mode,
            tool_name,
            input,
            cascaded(
                settings_lists(added_to(local_settings, derived_text(tool_name, input)->0)->Added_0),
                project,
                user,
            ),
        ) is Allow,
{
    let pattern = derived_text(tool_name, input)->0;
    law_added_pattern_is_listed(local_settings, pattern);
    let after = settings_lists(added_to(local_settings, pattern)->Added_0);
    let all = cascaded(after, project, user);
    assert(all.deny == cascaded(settings_lists(local_settings), project, user).deny);
    if permissive_name(mode) is None {
        law_allow_needs_sure_match(mode, tool_name, input, all);
        let k = settings_lists(local_settings).allow.len() as int;
        assert(all.allow[k] == pattern_value(pattern));
    }
}

} // verus!
