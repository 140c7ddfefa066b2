//! Laws of the configuration: which word of the file sets what, and what holds
//! without it.

use vstd::prelude::*;
use crate::config::{
    approvals_in, ble_in, config_in, ctrl_in, default_config, device_in, devices_in, http_in,
    notify_in, stray_key, tokens_in, turn_done_in, Approvals, CtrlConfig, ErrorValue, Fallback,
    NotifyUrgency, OverrideValue, TurnDoneConfig,
};
use crate::json::JsonValue;
use crate::json_form::positional;

verus! {

type Members = Seq<(Seq<char>, JsonValue)>;

/// Whether all keys of a section are among some names.
pub open spec fn only(m: Members, known: Seq<Seq<char>>) -> bool {
    forall|i: int| 0 <= i < m.len() ==> known.contains((#[trigger] m[i]).0)
}

/// A section has a stray key exactly if one of its keys is not known; the first of
/// them is named.
pub proof fn law_first_stray_key_is_named(m: Members, known: Seq<Seq<char>>, i: int)
    ensures
        only(m, known) ==> stray_key(m, known) is None,
        0 <= i < m.len() && !known.contains(m[i].0) && (forall|j: int|
            0 <= j < i ==> known.contains((#[trigger] m[j]).0)) ==> stray_key(m, known) == Some(
            m[i].0,
        ),
    decreases m.len(),
{
    if m.len() > 0 {
        let rest = m.subrange(1, m.len() as int);
        assert(forall|j: int| 0 <= j < rest.len() ==> #[trigger] rest[j] == m[j + 1]);
        if known.contains(m[0].0) {
            law_first_stray_key_is_named(rest, known, i - 1);
        }
    }
}

/// What holds without a section, and without a configuration at all.
pub proof fn law_defaults()
    ensures
        approvals_in(None) == Ok::<Approvals, ErrorValue>(
            Approvals { timeout_ms: 30_000, fallback: Fallback::Passthrough },
        ),
        turn_done_in(None) == Ok::<TurnDoneConfig, ErrorValue>(
            TurnDoneConfig { enabled: true, idle_grace_ms: 10_000, expire_ms: 5_000 },
        ),
        notify_in(None) is Ok && notify_in(None)->Ok_0.enabled && notify_in(None)->Ok_0.urgency
            == NotifyUrgency::Critical,
        ctrl_in(None) == Ok::<CtrlConfig, ErrorValue>(
            CtrlConfig { enabled: true, allow_simulate: false },
        ),
        http_in(None) is Ok && !http_in(None)->Ok_0.0 && http_in(None)->Ok_0.1 == "127.0.0.1:9876"@,
        ble_in(None) is Ok && !ble_in(None)->Ok_0.enabled && ble_in(None)->Ok_0.service_uuid
            == "6e400001-b5a3-f393-e0a9-e50e24dcca9e"@ && ble_in(None)->Ok_0.device.len() == 0,
        tokens_in(None) is Ok && tokens_in(None)->Ok_0 is None,
        default_config().approvals == (Approvals {
            timeout_ms: 30_000,
            fallback: Fallback::Passthrough,
        }),
        default_config().notify.enabled && default_config().notify.urgency == NotifyUrgency::Critical,
        default_config().notify.turn_done == (TurnDoneConfig {
            enabled: true,
            idle_grace_ms: 10_000,
            expire_ms: 5_000,
        }),
        default_config().ctrl == (CtrlConfig { enabled: true, allow_simulate: false }),
        !default_config().http_enabled && default_config().http_addr == "127.0.0.1:9876"@,
        !default_config().ble.enabled && default_config().state_path is None,
{
}

/// How long a call waits, and what happens then, is set by these words. A number
/// that is no number and a word that is not known are refused.
pub proof fn law_approvals_are_set(m: Members)
    requires
        only(m, seq!["timeout_ms"@, "fallback"@]),
    ensures
        ({
            let r = approvals_in(Some(JsonValue::Object(m)));
            let ms = JsonValue::Object(m).get("timeout_ms"@);
            let word = JsonValue::Object(m).get("fallback"@);
            &&& ms is Some && !(ms->0 is Unsigned) ==> r is Err
            &&& word matches Some(JsonValue::Str(w)) ==> (w != "passthrough"@ && w != "deny"@ && w
                != "allow"@ ==> r is Err)
            &&& (ms is None || ms->0 is Unsigned) && (word is None || word == Some(
                JsonValue::Str("passthrough"@),
            ) || word == Some(JsonValue::Str("deny"@)) || word == Some(JsonValue::Str("allow"@)))
                ==> r is Ok
            &&& r matches Ok(a) ==> {
                &&& ms is None ==> a.timeout_ms == 30_000
                &&& ms matches Some(JsonValue::Unsigned(n)) ==> a.timeout_ms == n
                &&& word is None ==> a.fallback == Fallback::Passthrough
                &&& word == Some(JsonValue::Str("passthrough"@)) ==> a.fallback
                    == Fallback::Passthrough
                &&& word == Some(JsonValue::Str("deny"@)) ==> a.fallback == Fallback::Deny
                &&& word == Some(JsonValue::Str("allow"@)) ==> a.fallback == Fallback::Allow
            }
        }),
{
    law_first_stray_key_is_named(m, seq!["timeout_ms"@, "fallback"@], 0);
    reveal_strlit("passthrough");
    reveal_strlit("deny");
    reveal_strlit("allow");
    assert("passthrough"@.len() == 11 && "deny"@.len() == 4 && "allow"@.len() == 5);
}

/// Whether an optional value is a truth, or absent.
pub open spec fn is_flag(v: Option<JsonValue>) -> bool {
    v is None || v->0 is Bool
}

/// A truth, or what holds without it.
pub open spec fn flag_or(v: Option<JsonValue>, other: bool) -> bool {
    match v {
        Some(JsonValue::Bool(b)) => b,
        _ => other,
    }
}

/// The notification of a finished turn is set by these words.
pub proof fn law_turn_done_is_set(m: Members)
    requires
        only(m, seq!["enabled"@, "idle_grace_ms"@, "expire_ms"@]),
    ensures
        ({
            let r = turn_done_in(Some(JsonValue::Object(m)));
            let on = JsonValue::Object(m).get("enabled"@);
            let grace = JsonValue::Object(m).get("idle_grace_ms"@);
            let expire = JsonValue::Object(m).get("expire_ms"@);
            &&& !is_flag(on) || (grace is Some && !(grace->0 is Unsigned)) || (expire is Some
                && !(expire->0 is Unsigned) && !(expire->0 is Negative)) ==> r is Err
            &&& r matches Ok(t) ==> {
                &&& t.enabled == flag_or(on, true)
                &&& grace is None ==> t.idle_grace_ms == 10_000
                &&& grace matches Some(JsonValue::Unsigned(n)) ==> t.idle_grace_ms == n
                &&& expire is None ==> t.expire_ms == 5_000
                &&& expire matches Some(JsonValue::Unsigned(n)) ==> t.expire_ms == n
                &&& expire matches Some(JsonValue::Negative(n)) ==> t.expire_ms == n
            }
            &&& is_flag(on) && (grace is None || grace->0 is Unsigned) && expire is None ==> r is Ok
            &&& is_flag(on) && (grace is None || grace->0 is Unsigned) ==> (expire matches Some(
                JsonValue::Unsigned(n),
            ) ==> (r is Ok <==> n <= i32::MAX))
            &&& is_flag(on) && (grace is None || grace->0 is Unsigned) ==> (expire matches Some(
                JsonValue::Negative(n),
            ) ==> (r is Ok <==> i32::MIN <= n <= i32::MAX))
        }),
{
    law_first_stray_key_is_named(m, seq!["enabled"@, "idle_grace_ms"@, "expire_ms"@], 0);
}

/// Notifications are set by these words.
pub proof fn law_notifications_are_set(m: Members)
    requires
        only(m, seq!["enabled"@, "urgency"@, "turn_done"@]),
    ensures
        ({
            let r = notify_in(Some(JsonValue::Object(m)));
            let on = JsonValue::Object(m).get("enabled"@);
            let word = JsonValue::Object(m).get("urgency"@);
            let done = turn_done_in(JsonValue::Object(m).get("turn_done"@));
            &&& !is_flag(on) || done is Err ==> r is Err
            &&& word matches Some(JsonValue::Str(w)) ==> (w != "low"@ && w != "normal"@ && w
                != "critical"@ ==> r is Err)
            &&& is_flag(on) && done is Ok && (word is None || word == Some(JsonValue::Str("low"@))
                || word == Some(JsonValue::Str("normal"@)) || word == Some(
                JsonValue::Str("critical"@),
            )) ==> r is Ok
            &&& r matches Ok(n) ==> {
                &&& n.enabled == flag_or(on, true)
                &&& word is None ==> n.urgency == NotifyUrgency::Critical
                &&& word == Some(JsonValue::Str("low"@)) ==> n.urgency == NotifyUrgency::Low
                &&& word == Some(JsonValue::Str("normal"@)) ==> n.urgency == NotifyUrgency::Normal
                &&& word == Some(JsonValue::Str("critical"@)) ==> n.urgency == NotifyUrgency::Critical
                &&& done == Ok::<TurnDoneConfig, ErrorValue>(n.turn_done)
            }
        }),
{
    law_first_stray_key_is_named(m, seq!["enabled"@, "urgency"@, "turn_done"@], 0);
    reveal_strlit("low");
    reveal_strlit("normal");
    reveal_strlit("critical");
    assert("low"@.len() == 3 && "normal"@.len() == 6 && "critical"@.len() == 8);
}

/// The control socket and the status page are set by these words.
pub proof fn law_sockets_are_set(ctrl: Members, http: Members)
    requires
        only(ctrl, seq!["enabled"@, "allow_simulate"@]),
        only(http, seq!["enabled"@, "addr"@]),
    ensures
        ({
            let r = ctrl_in(Some(JsonValue::Object(ctrl)));
            let on = JsonValue::Object(ctrl).get("enabled"@);
            let simulate = JsonValue::Object(ctrl).get("allow_simulate"@);
            &&& r is Ok <==> is_flag(on) && is_flag(simulate)
            &&& r matches Ok(c) ==> c.enabled == flag_or(on, true) && c.allow_simulate == flag_or(
                simulate,
                false,
            )
        }),
        ({
            let r = http_in(Some(JsonValue::Object(http)));
            let on = JsonValue::Object(http).get("enabled"@);
            let addr = JsonValue::Object(http).get("addr"@);
            &&& r is Ok <==> is_flag(on) && (addr is None || addr->0 is Str)
            &&& r matches Ok(h) ==> {
                &&& h.0 == flag_or(on, false)
                &&& addr is None ==> h.1 == "127.0.0.1:9876"@
                &&& addr matches Some(JsonValue::Str(a)) ==> h.1 == a
            }
        }),
{
    law_first_stray_key_is_named(ctrl, seq!["enabled"@, "allow_simulate"@], 0);
    law_first_stray_key_is_named(http, seq!["enabled"@, "addr"@], 0);
}

/// A device is set by its address, which it must have, its nickname, and whether
/// it is switched off.
pub proof fn law_device_is_set(m: Members)
    requires
        only(m, seq!["address"@, "nickname"@, "disabled"@]),
    ensures
        ({
            let r = device_in(JsonValue::Object(m));
            let address = JsonValue::Object(m).get("address"@);
            let nickname = JsonValue::Object(m).get("nickname"@);
            let off = JsonValue::Object(m).get("disabled"@);
            &&& r is Ok <==> address is Some && address->0 is Str && (nickname is None || nickname->0
                is Str) && is_flag(off)
            &&& r matches Ok(d) ==> {
                &&& address == Some(JsonValue::Str(d.address))
                &&& nickname is None ==> d.nickname is None
                &&& nickname matches Some(JsonValue::Str(n)) ==> d.nickname == Some(n)
                &&& d.disabled == flag_or(off, false)
            }
        }),
{
    law_first_stray_key_is_named(m, seq!["address"@, "nickname"@, "disabled"@], 0);
}

/// Devices are listed in order, each of them right.
pub proof fn law_devices_in_order(items: Seq<JsonValue>, v: JsonValue)
    ensures
        devices_in(Seq::empty()) == Ok::<Seq<OverrideValue>, ErrorValue>(Seq::empty()),
        devices_in(items) is Ok && device_in(v) is Ok ==> devices_in(items.push(v)) == Ok::<
            Seq<OverrideValue>,
            ErrorValue,
        >(devices_in(items)->Ok_0.push(device_in(v)->Ok_0)),
        devices_in(items) is Err || device_in(v) is Err ==> devices_in(items.push(v)) is Err,
{
    assert(items.push(v).drop_last() =~= items);
}

/// Bluetooth is set by these words.
pub proof fn law_bluetooth_is_set(m: Members)
    requires
        only(m, seq!["enabled"@, "service_uuid"@, "device"@]),
    ensures
        ({
            let r = ble_in(Some(JsonValue::Object(m)));
            let on = JsonValue::Object(m).get("enabled"@);
            let uuid = JsonValue::Object(m).get("service_uuid"@);
            let list = JsonValue::Object(m).get("device"@);
            &&& r is Ok <==> is_flag(on) && (uuid is None || uuid->0 is Str) && (list is None || (
            list->0 is Array && devices_in(list->0->Array_0) is Ok))
            &&& r matches Ok(b) ==> {
                &&& b.enabled == flag_or(on, false)
                &&& uuid is None ==> b.service_uuid == "6e400001-b5a3-f393-e0a9-e50e24dcca9e"@
                &&& uuid matches Some(JsonValue::Str(u)) ==> b.service_uuid == u
                &&& list is None ==> b.device.len() == 0
                &&& list matches Some(JsonValue::Array(items)) ==> devices_in(items) == Ok::<
                    Seq<OverrideValue>,
                    ErrorValue,
                >(b.device)
            }
        }),
{
    law_first_stray_key_is_named(m, seq!["enabled"@, "service_uuid"@, "device"@], 0);
}

/// The sections of a document are its `approvals`, its `tokens` and, under
/// `emit`, its `notify`, `ctrl`, `http` and `ble`. A document is right exactly if
/// they are.
pub proof fn law_sections_of_a_document(doc: Members, emit: Members)
    requires
        only(doc, seq!["approvals"@, "emit"@, "tokens"@]),
        only(emit, seq!["notify"@, "ctrl"@, "http"@, "ble"@]),
        JsonValue::Object(doc).get("emit"@) == Some(JsonValue::Object(emit)),
    ensures
        ({
            let r = config_in(JsonValue::Object(doc));
            let approvals = approvals_in(JsonValue::Object(doc).get("approvals"@));
            let tokens = tokens_in(JsonValue::Object(doc).get("tokens"@));
            let notify = notify_in(JsonValue::Object(emit).get("notify"@));
            let ctrl = ctrl_in(JsonValue::Object(emit).get("ctrl"@));
            let http = http_in(JsonValue::Object(emit).get("http"@));
            let ble = ble_in(JsonValue::Object(emit).get("ble"@));
            &&& r is Ok <==> approvals is Ok && tokens is Ok && notify is Ok && ctrl is Ok && http
                is Ok && ble is Ok
            &&& r matches Ok(c) ==> {
                &&& c.approvals == approvals->Ok_0
                &&& c.state_path == tokens->Ok_0
                &&& c.notify == notify->Ok_0
                &&& c.ctrl == ctrl->Ok_0
                &&& c.http_enabled == http->Ok_0.0
                &&& c.http_addr == http->Ok_0.1
                &&& c.ble == ble->Ok_0
            }
        }),
{
    law_first_stray_key_is_named(doc, seq!["approvals"@, "emit"@, "tokens"@], 0);
    law_first_stray_key_is_named(emit, seq!["notify"@, "ctrl"@, "http"@, "ble"@], 0);
}

/// The file of the counts is set by its path.
pub proof fn law_state_path_is_set(m: Members)
    requires
        only(m, seq!["state_path"@]),
    ensures
        ({
            let r = tokens_in(Some(JsonValue::Object(m)));
            let path = JsonValue::Object(m).get("state_path"@);
            &&& r is Ok <==> path is None || path->0 is Str
            &&& path is None ==> r == Ok::<Option<Seq<char>>, ErrorValue>(None)
            &&& path matches Some(JsonValue::Str(p)) ==> r == Ok::<Option<Seq<char>>, ErrorValue>(
                Some(p),
            )
        }),
{
    law_first_stray_key_is_named(m, seq!["state_path"@], 0);
}

proof fn lemma_positions_are_known(known: Seq<Seq<char>>, items: Seq<JsonValue>)
    ensures
        stray_key(positional(known, items), known) is None,
{
    let m = positional(known, items);
    assert forall|i: int| 0 <= i < m.len() implies known.contains((#[trigger] m[i]).0) by {
        assert(m[i].0 == known[i]);
    }
    law_first_stray_key_is_named(m, known, 0);
}

/// A section may be an array of its fields in order. It then says what the section
/// says that names them; what it does not reach has its default, and what is
/// behind the last field is passed over.
pub proof fn law_section_as_an_array(items: Seq<JsonValue>)
    ensures
        approvals_in(Some(JsonValue::Array(items))) == approvals_in(
            Some(JsonValue::Object(positional(seq!["timeout_ms"@, "fallback"@], items))),
        ),
        turn_done_in(Some(JsonValue::Array(items))) == turn_done_in(
            Some(
                JsonValue::Object(
                    positional(seq!["enabled"@, "idle_grace_ms"@, "expire_ms"@], items),
                ),
            ),
        ),
        notify_in(Some(JsonValue::Array(items))) == notify_in(
            Some(JsonValue::Object(positional(seq!["enabled"@, "urgency"@, "turn_done"@], items))),
        ),
        ctrl_in(Some(JsonValue::Array(items))) == ctrl_in(
            Some(JsonValue::Object(positional(seq!["enabled"@, "allow_simulate"@], items))),
        ),
        http_in(Some(JsonValue::Array(items))) == http_in(
            Some(JsonValue::Object(positional(seq!["enabled"@, "addr"@], items))),
        ),
        device_in(JsonValue::Array(items)) == device_in(
            JsonValue::Object(positional(seq!["address"@, "nickname"@, "disabled"@], items)),
        ),
        ble_in(Some(JsonValue::Array(items))) == ble_in(
            Some(JsonValue::Object(positional(seq!["enabled"@, "service_uuid"@, "device"@], items))),
        ),
        tokens_in(Some(JsonValue::Array(items))) == tokens_in(
            Some(JsonValue::Object(positional(seq!["state_path"@], items))),
        ),
{
    lemma_positions_are_known(seq!["timeout_ms"@, "fallback"@], items);
    lemma_positions_are_known(seq!["enabled"@, "idle_grace_ms"@, "expire_ms"@], items);
    lemma_positions_are_known(seq!["enabled"@, "urgency"@, "turn_done"@], items);
    lemma_positions_are_known(seq!["enabled"@, "allow_simulate"@], items);
    lemma_positions_are_known(seq!["enabled"@, "addr"@], items);
    lemma_positions_are_known(seq!["address"@, "nickname"@, "disabled"@], items);
    lemma_positions_are_known(seq!["enabled"@, "service_uuid"@, "device"@], items);
    lemma_positions_are_known(seq!["state_path"@], items);
}

/// A section that is neither a table nor an array is refused.
pub proof fn law_other_sections_are_refused(v: JsonValue)
    requires
        !(v is Object) && !(v is Array),
    ensures
        approvals_in(Some(v)) is Err,
        turn_done_in(Some(v)) is Err,
        notify_in(Some(v)) is Err,
        ctrl_in(Some(v)) is Err,
        http_in(Some(v)) is Err,
        device_in(v) is Err,
        ble_in(Some(v)) is Err,
        tokens_in(Some(v)) is Err,
        config_in(v) is Err,
{
}

} // verus!
