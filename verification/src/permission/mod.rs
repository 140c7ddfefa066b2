//! The decision on a tool call: by permission mode, then by the deny and allow
//! lists.

use vstd::prelude::*;
use crate::json::JsonValue;
use crate::permission::allowlist::{pattern_values, Allowlist, AllowlistValue};
use crate::permission::pattern::{match_result, raw_of, MatchResult, Pattern, PatternValue};
use crate::proto::hook::{PermissionMode, PreToolUseEvent};
use crate::text::join2;

pub mod additions;
pub mod allowlist;
pub mod cache;
pub mod laws;
pub mod pattern;
pub mod project;

verus! {

/// What was decided about a tool call.
#[derive(Debug, Clone, PartialEq, Eq)]
pub enum Decision {
    /// Approved without asking.
    Allow { reason: String },
    /// Refused without asking.
    Deny { reason: String },
    /// The user is asked, and told of a pattern that may mean this call.
    AskAnnotated(PatternAnnotation),
    /// The user is asked.
    Intercept,
}

/// The pattern for which a call was not decided.
#[derive(Debug, Clone, PartialEq, Eq)]
pub struct PatternAnnotation {
    pub matched_pattern: String,
    pub source: AllowOrDeny,
}

/// The list that a pattern came from.
#[derive(Debug, Clone, Copy, PartialEq, Eq, Structural)]
pub enum AllowOrDeny {
    Allow,
    Deny,
}

/// What a [`Decision`] stands for.
pub enum DecisionValue {
    Allow { reason: Seq<char> },
    Deny { reason: Seq<char> },
    AskAnnotated { matched_pattern: Seq<char>, source: AllowOrDeny },
    Intercept,
}

impl View for Decision {
    type V = DecisionValue;

    open spec fn view(&self) -> DecisionValue {
        match self {
            Decision::Allow { reason } => DecisionValue::Allow { reason: reason@ },
            Decision::Deny { reason } => DecisionValue::Deny { reason: reason@ },
            Decision::AskAnnotated(a) => DecisionValue::AskAnnotated {
                matched_pattern: a.matched_pattern@,
                source: a.source,
            },
            Decision::Intercept => DecisionValue::Intercept,
        }
    }
}

/// The name of a mode in which tool calls are not asked about at all.
pub open spec fn permissive_name(mode: PermissionMode) -> Option<Seq<char>> {
    match mode {
        PermissionMode::AcceptEdits => Some("AcceptEdits"@),
        PermissionMode::Auto => Some("Auto"@),
        PermissionMode::DontAsk => Some("DontAsk"@),
        PermissionMode::BypassPermissions => Some("BypassPermissions"@),
        _ => None,
    }
}

/// The first pattern that judges the call as `wanted`.
pub open spec fn first_match(
    patterns: Seq<PatternValue>,
    tool_name: Seq<char>,
    input: JsonValue,
    wanted: MatchResult,
) -> Option<PatternValue>
    decreases patterns.len(),
{
    if patterns.len() == 0 {
        None
    } else if match_result(patterns[0], tool_name, input) == wanted {
        Some(patterns[0])
    } else {
        first_match(patterns.subrange(1, patterns.len() as int), tool_name, input, wanted)
    }
}

/// The decision on a call. A permissive mode allows. A sure match of a deny
/// pattern denies, and an unsure one asks. Then a sure match of an allow pattern
/// allows, and an unsure one asks. What no pattern speaks of is asked too.
pub open spec fn decision_of(
    mode: PermissionMode,
    tool_name: Seq<char>,
    input: JsonValue,
    lists: AllowlistValue,
) -> DecisionValue {
    match permissive_name(mode) {
        Some(name) => DecisionValue::Allow { reason: "permission_mode="@ + name },
        None => match first_match(lists.deny, tool_name, input, MatchResult::Confident) {
            Some(p) => DecisionValue::Deny { reason: "permissions.deny: "@ + raw_of(p) },
            None => match first_match(lists.deny, tool_name, input, MatchResult::Ambiguous) {
                Some(p) => DecisionValue::AskAnnotated {
                    matched_pattern: raw_of(p),
                    source: AllowOrDeny::Deny,
                },
                None => match first_match(lists.allow, tool_name, input, MatchResult::Confident) {
                    Some(p) => DecisionValue::Allow { reason: "permissions.allow: "@ + raw_of(p) },
                    None => match first_match(
                        lists.allow,
                        tool_name,
                        input,
                        MatchResult::Ambiguous,
                    ) {
                        Some(p) => DecisionValue::AskAnnotated {
                            matched_pattern: raw_of(p),
                            source: AllowOrDeny::Allow,
                        },
                        None => DecisionValue::Intercept,
                    },
                },
            },
        },
    }
}

/// The first pattern that judges the event as `wanted`.
fn find_match<'a>(
    patterns: &'a Vec<Pattern>,
    event: &PreToolUseEvent,
    wanted: MatchResult,
) -> (r: Option<&'a Pattern>)
    ensures
        match r {
            Some(p) => first_match(
                pattern_values(patterns@),
                event.tool_name@,
                event.tool_input@,
                wanted,
            ) == Some(p@),
            None => first_match(
                pattern_values(patterns@),
                event.tool_name@,
                event.tool_input@,
                wanted,
            ) is None,
        },
{
    let ghost all = pattern_values(patterns@);
    let ghost name = event.tool_name@;
    let ghost input = event.tool_input@;
    let mut i: usize = 0;
    assert(all.subrange(0, all.len() as int) =~= all);
    while i < patterns.len()
        invariant
            i <= patterns@.len(),
            all == pattern_values(patterns@),
            name == event.tool_name@,
            input == event.tool_input@,
            first_match(all, name, input, wanted) == first_match(
                all.subrange(i as int, all.len() as int),
                name,
                input,
                wanted,
            ),
        decreases patterns@.len() - i,
    {
        let ghost rest = all.subrange(i as int, all.len() as int);
        assert(rest[0] == patterns@[i as int]@);
        let r = patterns[i].matches(event);
        if r == wanted {
            return Some(&patterns[i]);
        }
        assert(rest.subrange(1, rest.len() as int) =~= all.subrange(i + 1, all.len() as int));
        i = i + 1;
    }
    None
}

/// Decides a tool call by its permission mode and the lists.
pub fn evaluate(event: &PreToolUseEvent, allowlist: &Allowlist) -> (r: Decision)
    ensures
        r@ == decision_of(
            event.permission_mode,
            event.tool_name@,
            event.tool_input@,
            allowlist@,
        ),
{
    let permissive = match event.permission_mode {
        PermissionMode::AcceptEdits => Some("AcceptEdits"),
        PermissionMode::Auto => Some("Auto"),
        PermissionMode::DontAsk => Some("DontAsk"),
        PermissionMode::BypassPermissions => Some("BypassPermissions"),
        _ => None,
    };
    if let Some(name) = permissive {
        return Decision::Allow { reason: join2("permission_mode=", name) };
    }
    if let Some(p) = find_match(&allowlist.deny, event, MatchResult::Confident) {
        return Decision::Deny { reason: join2("permissions.deny: ", p.raw()) };
    }
    if let Some(p) = find_match(&allowlist.deny, event, MatchResult::Ambiguous) {
        return Decision::AskAnnotated(
            PatternAnnotation { matched_pattern: p.raw().to_owned(), source: AllowOrDeny::Deny },
        );
    }
    if let Some(p) = find_match(&allowlist.allow, event, MatchResult::Confident) {
        return Decision::Allow { reason: join2("permissions.allow: ", p.raw()) };
    }
    if let Some(p) = find_match(&allowlist.allow, event, MatchResult::Ambiguous) {
        return Decision::AskAnnotated(
            PatternAnnotation { matched_pattern: p.raw().to_owned(), source: AllowOrDeny::Allow },
        );
    }
    Decision::Intercept
}

// ---------------------------------------------------------------------------
// Laws of the decision.

proof fn lemma_first_match(
    patterns: Seq<PatternValue>,
    tool_name: Seq<char>,
    input: JsonValue,
    wanted: MatchResult,
)
    ensures
        first_match(patterns, tool_name, input, wanted) is Some <==> exists|i: int|
            0 <= i < patterns.len() && match_result(#[trigger] patterns[i], tool_name, input) == wanted,
    decreases patterns.len(),
{
    if patterns.len() > 0 {
        let rest = patterns.subrange(1, patterns.len() as int);
        lemma_first_match(rest, tool_name, input, wanted);
        if match_result(patterns[0], tool_name, input) == wanted {
        } else {
            if first_match(rest, tool_name, input, wanted) is Some {
                let i = choose|i: int|
                    0 <= i < rest.len() && match_result(#[trigger] rest[i], tool_name, input) == wanted;
                assert(patterns[i + 1] == rest[i]);
            }
            if exists|i: int|
                0 <= i < patterns.len() && match_result(#[trigger] patterns[i], tool_name, input)
                    == wanted {
                let i = choose|i: int|
                    0 <= i < patterns.len() && match_result(#[trigger] patterns[i], tool_name, input)
                        == wanted;
                assert(rest[i - 1] == patterns[i]);
            }
        }
    }
}

/// Deny wins: outside the permissive modes, a call that some deny pattern surely
/// means is denied, whatever the allow list says.
pub proof fn law_deny_wins(
    mode: PermissionMode,
    tool_name: Seq<char>,
    input: JsonValue,
    lists: AllowlistValue,
    i: int,
)
    requires
        permissive_name(mode) is None,
        0 <= i < lists.deny.len(),
        match_result(lists.deny[i], tool_name, input) == MatchResult::Confident,
    ensures
        decision_of(mode, tool_name, input, lists) is Deny,
{
    lemma_first_match(lists.deny, tool_name, input, MatchResult::Confident);
}

/// Outside the permissive modes, a call is allowed without asking only if an
/// allow pattern surely means it and no deny pattern means it, surely or not.
pub proof fn law_allow_needs_sure_match(
    mode: PermissionMode,
    tool_name: Seq<char>,
    input: JsonValue,
    lists: AllowlistValue,
)
    requires
        permissive_name(mode) is None,
    ensures
        decision_of(mode, tool_name, input, lists) is Allow <==> {
            &&& exists|i: int|
                0 <= i < lists.allow.len() && match_result(
                    #[trigger] lists.allow[i],
                    tool_name,
                    input,
                ) == MatchResult::Confident
            &&& forall|i: int|
                0 <= i < lists.deny.len() ==> match_result(#[trigger] lists.deny[i], tool_name, input)
                    == MatchResult::NoMatch
        },
{
    lemma_first_match(lists.deny, tool_name, input, MatchResult::Confident);
    lemma_first_match(lists.deny, tool_name, input, MatchResult::Ambiguous);
    lemma_first_match(lists.allow, tool_name, input, MatchResult::Confident);
    assert(forall|i: int|
        0 <= i < lists.deny.len() && match_result(#[trigger] lists.deny[i], tool_name, input)
            != MatchResult::NoMatch ==> match_result(lists.deny[i], tool_name, input)
            == MatchResult::Confident || match_result(lists.deny[i], tool_name, input)
            == MatchResult::Ambiguous);
}

/// In a permissive mode nothing is asked and nothing is denied.
pub proof fn law_permissive_allows(
    mode: PermissionMode,
    tool_name: Seq<char>,
    input: JsonValue,
    lists: AllowlistValue,
)
    requires
        mode == PermissionMode::AcceptEdits || mode == PermissionMode::Auto || mode
            == PermissionMode::DontAsk || mode == PermissionMode::BypassPermissions,
    ensures
        decision_of(mode, tool_name, input, lists) is Allow,
{
}

/// Planning is no permissive mode: without patterns its calls are asked about,
/// as those of the default mode and of an unknown one are.
pub proof fn law_restrictive_asks(mode: PermissionMode, tool_name: Seq<char>, input: JsonValue)
    requires
        mode == PermissionMode::Plan || mode == PermissionMode::Default || mode
            == PermissionMode::Unknown,
    ensures
        decision_of(mode, tool_name, input, crate::permission::allowlist::no_patterns())
            is Intercept,
{
}

/// A deny pattern of the user's own file holds in every project: no project or
/// local list can lift it.
pub proof fn law_user_deny_holds(
    mode: PermissionMode,
    tool_name: Seq<char>,
    input: JsonValue,
    local: AllowlistValue,
    project: AllowlistValue,
    user: AllowlistValue,
    i: int,
)
    requires
        permissive_name(mode) is None,
        0 <= i < user.deny.len(),
        match_result(user.deny[i], tool_name, input) == MatchResult::Confident,
    ensures
        decision_of(
            mode,
            tool_name,
            input,
            crate::permission::allowlist::cascaded(local, project, user),
        ) is Deny,
{
    let all = crate::permission::allowlist::cascaded(local, project, user);
    let k = local.deny.len() + project.deny.len() + i;
    assert(all.deny[k] == user.deny[i]);
    law_deny_wins(mode, tool_name, input, all, k);
}

/// Among patterns that may mean a call, the annotation names one of the most
/// specific source: a local deny pattern stands before all others.
pub proof fn law_local_annotation_first(
    mode: PermissionMode,
    tool_name: Seq<char>,
    input: JsonValue,
    local: AllowlistValue,
    project: AllowlistValue,
    user: AllowlistValue,
    p: PatternValue,
)
    requires
        permissive_name(mode) is None,
        first_match(local.deny, tool_name, input, MatchResult::Ambiguous) == Some(p),
        first_match(
            local.deny + project.deny + user.deny,
            tool_name,
            input,
            MatchResult::Confident,
        ) is None,
    ensures
        decision_of(
            mode,
            tool_name,
            input,
            crate::permission::allowlist::cascaded(local, project, user),
        ) == (DecisionValue::AskAnnotated { matched_pattern: raw_of(p), source: AllowOrDeny::Deny }),
{
    lemma_first_match_prefix(
        local.deny,
        project.deny + user.deny,
        tool_name,
        input,
        MatchResult::Ambiguous,
    );
    assert(local.deny + (project.deny + user.deny) =~= local.deny + project.deny + user.deny);
}

proof fn lemma_first_match_prefix(
    a: Seq<PatternValue>,
    b: Seq<PatternValue>,
    tool_name: Seq<char>,
    input: JsonValue,
    wanted: MatchResult,
)
    requires
        first_match(a, tool_name, input, wanted) is Some,
    ensures
        first_match(a + b, tool_name, input, wanted) == first_match(a, tool_name, input, wanted),
    decreases a.len(),
{
    let c = a + b;
    assert(c[0] == a[0]);
    if match_result(a[0], tool_name, input) != wanted {
        let rest = a.subrange(1, a.len() as int);
        lemma_first_match_prefix(rest, b, tool_name, input, wanted);
        assert(c.subrange(1, c.len() as int) =~= rest + b);
    }
}

} // verus!
