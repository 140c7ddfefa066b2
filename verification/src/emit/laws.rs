//! Laws of what goes out: how a client's and a device's words are answered, and
//! what is shown.

use vstd::prelude::*;
use crate::agent::NamesValue;
use crate::assoc::{keys_distinct, lemma_erase, lemma_put, lookup};
use crate::emit::ble::{device_step, doubled, opening_lines, DeviceStepValue};
use crate::emit::ctrl::{
    document_step, greeting_fields, hello_text, permission_reply, subscribed_after_document,
    StepValue, Subscriptions,
};
use crate::emit::display::{rounds_up, short_cwd, tenths_of, token_count_text, with_tilde};
use crate::emit::http::{route_of, Route};
use crate::emit::notify::{
    approval_body, approval_buttons, approval_summary, click_outcome, clicked, gone, post_for,
    session_key, shown, turn_done_body, turn_done_summary, ClickValue, NotifyValue,
};
use crate::json::{lemma_field, present, JsonValue};
use crate::lines::line_of;
use crate::outside::quoted;
use crate::paths::components;
use crate::proto::buddy::{owner_fields, time_fields, MatchSource, WireDecision};
use crate::proto::ctrl::Topic;
use crate::proto::laws::{
    is_integer, law_command_is_read, law_device_command_is_read, lemma_command_words,
};
use crate::state::{PermissionDecisionResult, PromptValue};
use crate::text::{decimal, has_prefix};
use crate::text_laws::law_prefix_letter_by_letter;

verus! {

// ---------------------------------------------------------------------------
// Clients.

/// A client's words lead to what they say: a decision is handed on as it was
/// made, a status is told, subscriptions are acknowledged, and what is not known
/// or not offered is answered as unknown. Without a command nothing is answered.
pub proof fn law_client_is_answered(v: JsonValue)
    requires
        v is Object,
    ensures
        ({
            let cmd = v.get_str("cmd"@);
            let r = document_step(v);
            &&& cmd is None ==> r is Silent
            &&& cmd == Some("status"@) ==> r is ReplyStatus
            &&& cmd == Some("permission"@) && v.get_str("id"@) is Some && v.get_str("decision"@)
                == Some("once"@) ==> r == (StepValue::Decide {
                id: v.get_str("id"@)->0,
                decision: WireDecision::Once,
            })
            &&& cmd == Some("permission"@) && v.get_str("id"@) is Some && v.get_str("decision"@)
                == Some("deny"@) ==> r == (StepValue::Decide {
                id: v.get_str("id"@)->0,
                decision: WireDecision::Deny,
            })
            &&& cmd == Some("permission"@) && v.get_str("id"@) is None ==> is_unknown(
                r,
                "permission"@,
            )
            &&& (cmd == Some("replay"@) || cmd == Some("forget_device"@) || cmd == Some("simulate"@))
                ==> is_unknown(r, cmd->0)
            &&& (cmd is Some && cmd != Some("status"@) && cmd != Some("permission"@) && cmd != Some(
                "subscribe"@,
            ) && cmd != Some("unsubscribe"@)) ==> is_unknown(r, cmd->0)
        }),
{
    law_command_is_read(v);
    lemma_command_words();
}

/// Whether a reply says that a command is not known.
pub open spec fn is_unknown(r: StepValue, cmd: Seq<char>) -> bool {
    r matches StepValue::Reply(a) && a.ack == cmd && !a.ok && a.error == Some("unknown_command"@)
}

/// A subscription adds its topics and is acknowledged; an end of it takes them
/// away and is acknowledged; nothing else changes what a client is told.
pub proof fn law_subscriptions_follow_the_words(
    before: Subscriptions,
    v: JsonValue,
    topics: Seq<Topic>,
    t: Topic,
)
    requires
        v is Object,
        v.get("topics"@) is Some ==> v.get("topics"@)->0 is Array,
        v.get("topics"@) is Some ==> crate::proto::ctrl::topics_in(v.get("topics"@)->0->Array_0)
            == Some(topics),
    ensures
        ({
            let cmd = v.get_str("cmd"@);
            let r = document_step(v);
            let after = subscribed_after_document(before, v, t);
            &&& cmd == Some("subscribe"@) && v.get("topics"@) is Some ==> {
                &&& after == (before.has(t) || topics.contains(t))
                &&& r matches StepValue::Reply(a) && a.ack == "subscribe"@ && a.ok && a.error is None
            }
            &&& cmd == Some("unsubscribe"@) && v.get("topics"@) is Some ==> {
                &&& after == (before.has(t) && !topics.contains(t))
                &&& r matches StepValue::Reply(a) && a.ack == "unsubscribe"@ && a.ok && a.error is None
            }
            &&& cmd != Some("subscribe"@) && cmd != Some("unsubscribe"@) ==> after == before.has(t)
        }),
{
    law_command_is_read(v);
    lemma_command_words();
}

/// A topic is told of exactly if it is switched on.
pub proof fn law_topics_are_apart(s: Subscriptions)
    ensures
        s.has(Topic::Heartbeat) == s.heartbeat,
        s.has(Topic::Turn) == s.turn,
        s.has(Topic::Log) == s.log,
{
}

/// A decision that reached its call is acknowledged; one for a call that does not
/// wait is not, and neither is one that reached nobody.
pub proof fn law_decision_is_acknowledged(result: Option<PermissionDecisionResult>)
    ensures
        ({
            let r = permission_reply(result);
            &&& r.ack == "permission"@
            &&& r.ok <==> result == Some(PermissionDecisionResult::Applied)
            &&& result == Some(PermissionDecisionResult::Applied) ==> r.error is None
            &&& result == Some(PermissionDecisionResult::UnknownId) ==> r.error == Some("unknown_id"@)
            &&& result is None ==> r.error == Some("aggregator_gone"@)
        }),
{
}

/// The greeting is one line: a version of one, the owner, and the time with its
/// offset.
pub proof fn law_greeting_says(owner: Seq<char>, epoch: i64, offset: i32) -> (v: JsonValue)
    ensures
        hello_text(owner, epoch, offset) == line_of(v),
        v.get("hello"@) is Some,
        v.get("hello"@)->0.get("version"@) == Some(JsonValue::Unsigned(1)),
        v.get("hello"@)->0.get_str("owner"@) == Some(owner),
        v.get("hello"@)->0.get("time"@) matches Some(JsonValue::Array(time)) && time.len() == 2
            && is_integer(time[0], epoch as int) && is_integer(time[1], offset as int),
{
    let f = greeting_fields(owner, epoch, offset);
    reveal_strlit("version");
    reveal_strlit("owner");
    reveal_strlit("time");
    assert("version"@.len() == 7 && "owner"@.len() == 5 && "time"@.len() == 4);
    assert(f[0].0 == "version"@ && f[1].0 == "owner"@ && f[2].0 == "time"@);
    lemma_field(f, 0);
    lemma_field(f, 1);
    lemma_field(f, 2);
    let outer = seq![("hello"@, Some(JsonValue::Object(present(f))))];
    assert(outer[0].0 == "hello"@);
    lemma_field(outer, 0);
    JsonValue::Object(present(outer))
}

// ---------------------------------------------------------------------------
// Devices.

/// A device's words lead to what they say: a decision is handed on as it was
/// made, a status is told, a name is acknowledged, pairing is refused, and what is
/// not known is answered as that.
pub proof fn law_device_is_answered(v: JsonValue)
    requires
        v is Object,
    ensures
        ({
            let cmd = v.get_str("cmd"@);
            let r = device_step(v);
            &&& cmd is None ==> r is Silent
            &&& cmd == Some("status"@) ==> r is ReplyStatus
            &&& cmd == Some("permission"@) && v.get_str("id"@) is Some && v.get_str("decision"@)
                == Some("once"@) ==> r == (DeviceStepValue::Decide {
                id: v.get_str("id"@)->0,
                decision: WireDecision::Once,
            })
            &&& cmd == Some("permission"@) && v.get_str("id"@) is Some && v.get_str("decision"@)
                == Some("deny"@) ==> r == (DeviceStepValue::Decide {
                id: v.get_str("id"@)->0,
                decision: WireDecision::Deny,
            })
            &&& cmd == Some("name"@) && v.get_str("name"@) is Some ==> (r
                matches DeviceStepValue::Reply(a) && a.ack == "name"@ && a.ok && a.error is None)
            &&& cmd == Some("unpair"@) ==> (r matches DeviceStepValue::Reply(a) && a.ack
                == "unpair"@ && !a.ok && a.error == Some("manage_via_os"@))
            &&& (cmd is Some && cmd != Some("status"@) && cmd != Some("permission"@) && cmd != Some(
                "name"@,
            ) && cmd != Some("unpair"@)) ==> (r matches DeviceStepValue::Reply(a) && a.ack
                == cmd->0 && !a.ok && a.error == Some("unknown msg"@))
        }),
{
    law_device_command_is_read(v);
}

/// A device's session opens with two lines: the owner, and the time with its
/// offset.
pub proof fn law_session_opens(owner: Seq<char>, epoch: i64, offset: i32) -> (v: (
    JsonValue,
    JsonValue,
))
    ensures
        opening_lines(owner, epoch, offset) == seq![line_of(v.0), line_of(v.1)],
        v.0.get_str("cmd"@) == Some("owner"@),
        v.0.get_str("name"@) == Some(owner),
        v.1.get("time"@) matches Some(JsonValue::Array(time)) && time.len() == 2 && is_integer(
            time[0],
            epoch as int,
        ) && is_integer(time[1], offset as int),
{
    reveal_strlit("cmd");
    reveal_strlit("name");
    assert("cmd"@.len() == 3 && "name"@.len() == 4);
    let f = owner_fields(owner);
    assert(f[0].0 == "cmd"@ && f[1].0 == "name"@);
    lemma_field(f, 0);
    lemma_field(f, 1);
    let g = time_fields(epoch, offset);
    assert(g[0].0 == "time"@);
    lemma_field(g, 0);
    (JsonValue::Object(present(f)), JsonValue::Object(present(g)))
}

/// The pause between two sessions doubles, up to thirty seconds.
pub proof fn law_pause_doubles(secs: u64)
    requires
        1 <= secs <= 30,
    ensures
        2 * secs <= 30 ==> doubled(secs) == 2 * secs,
        2 * secs > 30 ==> doubled(secs) == 30,
{
}

/// Only `GET /status` is served.
pub proof fn law_one_page(method: Seq<char>, path: Seq<char>)
    ensures
        route_of(method, path) == Route::Status <==> method == "GET"@ && path == "/status"@,
        route_of(method, path) == Route::NotFound <==> method != "GET"@ || path != "/status"@,
{
}

// ---------------------------------------------------------------------------
// Directories and numbers for display.

/// What is below the home directory is shown below `~`; what is elsewhere is
/// shown as it is, also where its text only starts like the home directory.
pub proof fn law_home_is_shown_as_tilde(home: Seq<char>, rest: Seq<char>, cwd: Seq<char>)
    requires
        home.len() > 0,
        home.last() != '/',
    ensures
        with_tilde(home, home) == seq!['~'],
        with_tilde(home + seq!['/'] + rest, home) == seq!['~', '/'] + rest,
        cwd != home && !has_prefix(cwd, home + seq!['/']) ==> with_tilde(cwd, home) == cwd,
        with_tilde(cwd, Seq::empty()) == cwd,
{
    reveal_strlit("~");
    reveal_strlit("/");
    assert("~"@ =~= seq!['~']);
    assert("/"@ =~= seq!['/']);
    crate::text_laws::law_suffix_letter_by_letter(home, "/"@);
    assert(!crate::text::has_suffix(home, "/"@)) by {
        assert("/"@[0] == '/');
    }
    let below = home + seq!['/'];
    let a = home + seq!['/'] + rest;
    law_prefix_letter_by_letter(a, below);
    assert(a =~= below + rest);
    assert(a.len() > home.len());
    assert("~"@ + a.subrange(home.len() as int, a.len() as int) =~= seq!['~', '/'] + rest);
}

/// A directory that is short, or has at most two names, is shown whole. A longer
/// one is shown by its last two names, behind an ellipsis that tells whether it is
/// below the home directory.
pub proof fn law_long_directory_is_cut(cwd: Seq<char>, home: Seq<char>)
    requires
        cwd.len() > 0,
    ensures
        ({
            let whole = with_tilde(cwd, home);
            let names = components(whole);
            let n = names.len();
            &&& whole.len() <= 30 || n <= 2 ==> short_cwd(cwd, home) == whole
            &&& whole.len() > 30 && n > 2 && whole[0] == '~' ==> short_cwd(cwd, home) == "~/…/"@
                + names[n - 2] + "/"@ + names[n - 1]
            &&& whole.len() > 30 && n > 2 && whole[0] != '~' ==> short_cwd(cwd, home) == "/…/"@
                + names[n - 2] + "/"@ + names[n - 1]
            &&& short_cwd(Seq::empty(), home).len() == 0
        }),
{
    reveal_strlit("~");
    assert("~"@ =~= seq!['~']);
    law_prefix_letter_by_letter(with_tilde(cwd, home), "~"@);
}

/// How many tenths of a unit are shown, and how: with one decimal.
pub proof fn law_tenths_are_nearest(n: int, unit: int)
    requires
        n >= 0,
        unit > 0,
    ensures
        2 * (10 * n - unit * tenths_of(n, unit)) <= unit,
        2 * (unit * tenths_of(n, unit) - 10 * n) <= unit,
        tenths_of(n, unit) >= 0,
{
    let t = (10 * n) / unit;
    let rest = (10 * n) % unit;
    vstd::arithmetic::div_mod::lemma_fundamental_div_mod(10 * n, unit);
    vstd::arithmetic::div_mod::lemma_div_pos_is_pos(10 * n, unit);
    vstd::arithmetic::div_mod::lemma_mod_bound(10 * n, unit);
    assert(unit * (t + 1) == unit * t + unit) by (nonlinear_arith);
}

/// Counts are shown in full below a thousand, then in thousands and in millions:
/// with one decimal below ten of them, and whole ones above, cut down.
pub proof fn law_counts_for_display(n: nat)
    ensures
        n < 1_000 ==> token_count_text(n) == decimal(n),
        1_000 <= n < 10_000 ==> shows_tenths(token_count_text(n), n as int, 1_000, 'k'),
        10_000 <= n < 1_000_000 ==> token_count_text(n) == decimal(n / 1_000) + seq!['k'],
        1_000_000 <= n < 10_000_000 ==> shows_tenths(token_count_text(n), n as int, 1_000_000, 'M'),
        10_000_000 <= n ==> token_count_text(n) == decimal(n / 1_000_000) + seq!['M'],
{
    reveal_strlit("k");
    reveal_strlit("M");
    reveal_strlit(".");
    assert("k"@ =~= seq!['k']);
    assert("M"@ =~= seq!['M']);
    assert("."@ =~= seq!['.']);
    if 1_000 <= n < 10_000 {
        law_tenths_are_nearest(n as int, 1_000);
        assert(is_tenths(tenths_of(n as int, 1_000), n as int, 1_000));
    }
    if 1_000_000 <= n < 10_000_000 {
        law_tenths_are_nearest(n as int, 1_000_000);
        assert(is_tenths(tenths_of(n as int, 1_000_000), n as int, 1_000_000));
    }
}

/// Whether `t` tenths of a unit are nearest to `n`.
pub open spec fn is_tenths(t: int, n: int, unit: int) -> bool {
    t >= 0 && 2 * (10 * n - unit * t) <= unit && 2 * (unit * t - 10 * n) <= unit
}

/// Whether a text shows a number in units with one decimal.
pub open spec fn shows_tenths(text: Seq<char>, n: int, unit: int, mark: char) -> bool {
    exists|t: int| #[trigger]
        is_tenths(t, n, unit) && text == decimal((t / 10) as nat) + seq!['.'] + decimal(
            (t % 10) as nat,
        ) + seq![mark]
}

/// The number of steps between one and two, two and four, and so on, in which
/// sixty-four-bit fractions count: `2^52`, `2^51`, `2^50` and `2^49`.
pub open spec fn fraction_steps(k: int) -> int {
    if k < 40 {
        4503599627370496
    } else if k < 80 {
        2251799813685248
    } else if k < 160 {
        1125899906842624
    } else {
        562949953421312
    }
}

/// Half a tenth is shown the way of the fraction that stands for it: up where the
/// nearest step lies above it, down where it lies below, and to the even digit
/// where it is a step itself.
pub proof fn law_half_tenths_follow_the_fraction(k: int)
    requires
        20 <= k < 200,
    ensures
        ({
            let rest = (k * fraction_steps(k)) % 20;
            &&& rest > 10 ==> rounds_up(k)
            &&& 0 < rest < 10 ==> !rounds_up(k)
            &&& rest == 0 ==> rounds_up(k) == ((k / 2) % 2 == 1)
        }),
{
    let p = fraction_steps(k);
    vstd::arithmetic::div_mod::lemma_mul_mod_noop_right(k, p, 20);
    assert(4503599627370496int % 20 == 16);
    assert(2251799813685248int % 20 == 8);
    assert(1125899906842624int % 20 == 4);
    assert(562949953421312int % 20 == 12);
}

// ---------------------------------------------------------------------------
// Notifications.

/// A prompt is titled by the product, by the directory where it is known, and by
/// the tool.
pub proof fn law_prompt_title(p: PromptValue, home: Seq<char>, names: NamesValue)
    ensures
        p.cwd is None || short_cwd(p.cwd->0, home).len() == 0 ==> approval_summary(p, home, names)
            == names.product + ": approve "@ + p.tool + "?"@,
        p.cwd is Some && short_cwd(p.cwd->0, home).len() > 0 ==> approval_summary(p, home, names)
            == names.product + " ["@ + short_cwd(p.cwd->0, home) + "]: approve "@ + p.tool + "?"@,
{
}

/// The text of a prompt is the hint; below it, where anything is known, the
/// directory, the agent and the start of the session's id; and below that the
/// pattern that may mean the call, with the list that it is from.
pub proof fn law_prompt_text(p: PromptValue, home: Seq<char>, names: NamesValue)
    ensures
        ({
            let cwd = if p.cwd is Some && short_cwd(p.cwd->0, home).len() > 0 {
                short_cwd(p.cwd->0, home)
            } else {
                "?"@
            };
            let agent = if p.agent_type is Some {
                p.agent_type->0
            } else {
                "main"@
            };
            let session = if p.session_id is Some {
                p.session_id->0.take(
                    if p.session_id->0.len() < 6 {
                        p.session_id->0.len() as int
                    } else {
                        6
                    },
                )
            } else {
                "?"@
            };
            let nowhere = (p.cwd is None || short_cwd(p.cwd->0, home).len() == 0) && p.session_id
                is None;
            let head = if nowhere {
                p.hint
            } else {
                p.hint + "\n"@ + ("["@ + cwd + " · "@ + agent + " · "@ + session + "]"@)
            };
            let body = approval_body(p, home, names);
            &&& p.matched_pattern is None || p.matched_source is None ==> body == head
            &&& p.matched_pattern is Some && p.matched_source == Some(MatchSource::Allow) ==> body
                == head + "\n["@ + names.short + " "@ + "allowlists"@ + " this with pattern "@
                + quoted(p.matched_pattern->0) + " — confirm to override]"@
            &&& p.matched_pattern is Some && p.matched_source == Some(MatchSource::Deny) ==> body
                == head + "\n["@ + names.short + " "@ + "denies"@ + " this with pattern "@ + quoted(
                p.matched_pattern->0,
            ) + " — confirm to override]"@
        }),
{
    if let Some(s) = p.session_id {
        let n = if s.len() < 6 {
            s.len() as int
        } else {
            6
        };
        assert(crate::text::take_of(s, 6) =~= s.take(n));
    }
}

/// A finished turn is titled by the product and the directory where it is known;
/// its text is the response, where it comes from, and the tokens.
pub proof fn law_turn_done_text(
    snippet: Seq<char>,
    cwd: Option<Seq<char>>,
    session: Option<Seq<char>>,
    tokens: nat,
    names: NamesValue,
)
    ensures
        cwd is None ==> turn_done_summary(cwd, names) == names.product + ": done"@,
        cwd is Some ==> turn_done_summary(cwd, names) == names.product + " ["@ + cwd->0 + "]: done"@,
        ({
            let body = turn_done_body(snippet, cwd, session, tokens);
            let count = token_count_text(tokens) + " tokens/turn"@;
            let place = "["@ + (if cwd is Some {
                cwd->0
            } else {
                "?"@
            }) + " · "@ + "main"@ + " · "@ + (if session is Some {
                session->0
            } else {
                "?"@
            }) + "]"@;
            let known = cwd is Some || session is Some;
            &&& !known && snippet.len() == 0 ==> body == count
            &&& !known && snippet.len() > 0 ==> body == snippet + "\n"@ + count
            &&& known && snippet.len() == 0 ==> body == place + "\n"@ + count
            &&& known && snippet.len() > 0 ==> body == snippet + "\n"@ + place + "\n"@ + count
        }),
{
    let count = token_count_text(tokens) + " tokens/turn"@;
    let body = turn_done_body(snippet, cwd, session, tokens);
    let place = crate::emit::notify::context_line(cwd, "main"@, session);
    reveal_strlit("[");
    if let Some(line) = place {
        assert(line.len() > 0) by {
            assert("["@.len() == 1);
        }
        if snippet.len() == 0 {
            assert(body =~= line + "\n"@ + count);
        } else {
            assert(body =~= snippet + "\n"@ + line + "\n"@ + count);
        }
    } else if snippet.len() > 0 {
        assert(body =~= snippet + "\n"@ + count);
    } else {
        assert(body =~= count);
    }
}

/// A prompt can be approved once, approved for good, and denied; a click on the
/// notification itself approves once.
pub proof fn law_buttons()
    ensures
        approval_buttons() == seq![
            "default"@,
            "Approve once"@,
            "once"@,
            "Approve once"@,
            "always"@,
            "Always"@,
            "deny"@,
            "Deny"@,
        ],
{
}

/// A click means what its button says, for the call that the notification asks
/// about: once, for good, or not. Any other click means nothing, and neither does
/// one on a finished turn.
pub proof fn law_click_means_its_button(state: NotifyValue, id: u32, call: Seq<char>)
    requires
        lookup(state.active, id) is Some,
    ensures
        lookup(state.active, id)->0.asks_about == Some(call) ==> {
            &&& click_outcome(state, id, "default"@) == (ClickValue::Decide {
                call,
                decision: WireDecision::Once,
            })
            &&& click_outcome(state, id, "once"@) == (ClickValue::Decide {
                call,
                decision: WireDecision::Once,
            })
            &&& click_outcome(state, id, "always"@) == (ClickValue::Always { call })
            &&& click_outcome(state, id, "deny"@) == (ClickValue::Decide {
                call,
                decision: WireDecision::Deny,
            })
        },
        forall|action: Seq<char>|
            action != "default"@ && action != "once"@ && action != "always"@ && action != "deny"@
                ==> #[trigger] click_outcome(state, id, action) == ClickValue::Ignored,
        lookup(state.active, id)->0.asks_about is None ==> forall|action: Seq<char>| #[trigger]
            click_outcome(state, id, action) == ClickValue::Ignored && clicked(state, id, action)
                == state,
{
    reveal_strlit("default");
    reveal_strlit("once");
    reveal_strlit("always");
    reveal_strlit("deny");
    assert("default"@.len() == 7 && "once"@.len() == 4 && "always"@.len() == 6 && "deny"@.len() == 4
        && "once"@[0] == 'o' && "deny"@[0] == 'd');
}

/// A notification that goes is forgotten, and its call is not asked about again
/// by itself; the others stay.
pub proof fn law_gone_is_forgotten(state: NotifyValue, id: u32, other: u32)
    requires
        keys_distinct(state.active),
    ensures
        lookup(gone(state, id).active, id) is None,
        other != id ==> lookup(gone(state, id).active, other) == lookup(state.active, other),
        lookup(state.active, id) is None ==> gone(state, id) == state,
        lookup(state.active, id) matches Some(n) ==> gone(state, id).dismissed == (match n.asks_about {
            Some(call) => state.dismissed.insert(call),
            None => state.dismissed,
        }),
        gone(state, id).last_prompt_ids == state.last_prompt_ids,
        gone(state, id).stale_seen == state.stale_seen,
{
    lemma_erase(state.active, id, id);
    lemma_erase(state.active, id, other);
}

/// A notification that is shown is on the screen for its session, in the place of
/// the one that it replaces; the others stay.
pub proof fn law_shown_is_on_the_screen(
    state: NotifyValue,
    key: Seq<char>,
    replaced: u32,
    id: u32,
    asks_about: Option<Seq<char>>,
    other: u32,
    session: Seq<char>,
)
    requires
        keys_distinct(state.active),
    ensures
        ({
            let after = shown(state, key, replaced, id, asks_about);
            &&& lookup(after.active, id) is Some
            &&& lookup(after.active, id)->0.session_id == key
            &&& lookup(after.active, id)->0.asks_about == asks_about
            &&& lookup(after.session_notif, key) == Some(id)
            &&& replaced != 0 && replaced != id ==> lookup(after.active, replaced) is None
            &&& other != id && other != replaced ==> lookup(after.active, other) == lookup(
                state.active,
                other,
            )
            &&& session != key ==> lookup(after.session_notif, session) == lookup(
                state.session_notif,
                session,
            )
            &&& after.dismissed == state.dismissed
            &&& after.last_prompt_ids == state.last_prompt_ids
        }),
{
    let rest = if replaced != 0 && replaced != id {
        crate::assoc::erase(state.active, replaced)
    } else {
        state.active
    };
    let n = crate::emit::notify::ActiveValue { session_id: key, asks_about };
    lemma_erase(state.active, replaced, replaced);
    lemma_erase(state.active, replaced, other);
    lemma_put(rest, id, n, id);
    lemma_put(rest, id, n, replaced);
    lemma_put(rest, id, n, other);
    lemma_put(state.session_notif, key, id, key);
    lemma_put(state.session_notif, key, id, session);
}

/// What is posted for a prompt is that prompt: its call, its session, its texts
/// and the buttons, urgent and until it is answered, in the place of what the
/// session shows.
pub proof fn law_post_is_for_its_prompt(
    state: NotifyValue,
    key: Seq<char>,
    p: PromptValue,
    home: Seq<char>,
    names: NamesValue,
)
    ensures
        ({
            let post = post_for(state, key, p, home, names);
            &&& post.session_key == key
            &&& post.prompt_id == p.id
            &&& lookup(state.session_notif, key) matches Some(id) ==> post.replaces_id == id
            &&& lookup(state.session_notif, key) is None ==> post.replaces_id == 0
            &&& post.summary == approval_summary(p, home, names)
            &&& post.body == approval_body(p, home, names)
            &&& post.actions == approval_buttons()
            &&& post.urgency == 2
            &&& post.expire_ms == 0
        }),
        p.session_id is Some ==> session_key(p) == p.session_id->0,
        p.session_id is None ==> session_key(p) == p.id,
{
}

} // verus!
