//! Bluetooth devices: which of them get a session, when a session tries again,
//! and what a device's message leads to.

use vstd::prelude::*;
use crate::config::{BleConfig, BleDeviceOverride};
use crate::json::{present, Json, JsonValue};
use crate::lines::{heartbeat_line, line_of, owner_line, time_line};
use crate::outside::{json_text, parse_json, parse_uuid, uuid_text};
use crate::proto::buddy::{
    device_command_in, heartbeat_json, owner_fields, time_fields, DeviceCommand, DeviceValue,
    Heartbeat, OwnerMessage, StatusAck, TimeSync, WireDecision,
};
use crate::proto::ctrl::{ack_err, ack_ok, Ack, AckValue};
use crate::proto::hook::text_of;
use crate::text::texts_of;

verus! {

/// The Nordic UART service.
pub const NUS_SERVICE_UUID: u128 = 0x6e400001_b5a3_f393_e0a9_e50e24dcca9e;

/// The characteristic that the bridge writes to.
pub const NUS_RX_CHAR_UUID: u128 = 0x6e400002_b5a3_f393_e0a9_e50e24dcca9e;

/// The characteristic that the bridge is told by.
pub const NUS_TX_CHAR_UUID: u128 = 0x6e400003_b5a3_f393_e0a9_e50e24dcca9e;

/// Whether a device is to be used: it is paired and offers the service.
pub fn matches_service(paired: bool, uuids: Option<&Vec<u128>>, service: u128) -> (r: bool)
    ensures
        r == (paired && uuids is Some && uuids->0@.contains(service)),
{
    if !paired {
        return false;
    }
    match uuids {
        None => false,
        Some(list) => {
            let mut i: usize = 0;
            while i < list.len()
                invariant
                    i <= list@.len(),
                    uuids == Some(list),
                    paired,
                    forall|j: int| 0 <= j < i ==> list@[j] != service,
                decreases list@.len() - i,
            {
                if list[i] == service {
                    assert(list@.contains(service));
                    return true;
                }
                i = i + 1;
            }
            false
        },
    }
}

/// Whether a device that appeared gets a session: not if it is switched off in
/// the configuration, and not if it has one.
pub fn starts_session(configured: Option<&BleDeviceOverride>, has_session: bool) -> (r: bool)
    ensures
        r == (!has_session && (configured is None || !configured->0.disabled)),
{
    match configured {
        Some(o) => !o.disabled && !has_session,
        None => !has_session,
    }
}

/// How often a device is asked whether its services are known, before the session
/// goes on without an answer.
pub const RESOLVE_POLLS: u32 = 30;

/// The pause between two such questions, in milliseconds.
pub const RESOLVE_PAUSE_MS: u64 = 200;

/// What a device is told when its session starts: whose bridge it is, the time,
/// and then how things stand, if that is known.
pub fn session_opening(
    owner: &str,
    epoch_secs: i64,
    tz_offset_secs: i32,
    hb: Option<&Heartbeat>,
) -> (r: Vec<String>)
    ensures
        texts_of(r@) == opening_lines(owner@, epoch_secs, tz_offset_secs) + (match hb {
            Some(h) => seq![line_of(heartbeat_json(*h))],
            None => Seq::empty(),
        }),
{
    let mut r: Vec<String> = Vec::new();
    r.push(owner_line(&OwnerMessage::new(owner)));
    r.push(time_line(&TimeSync { time: (epoch_secs, tz_offset_secs) }));
    let ghost head = opening_lines(owner@, epoch_secs, tz_offset_secs);
    assert(texts_of(r@) =~= head);
    if let Some(h) = hb {
        r.push(heartbeat_line(h));
        assert(texts_of(r@) =~= head + seq![line_of(heartbeat_json(*h))]);
    } else {
        assert(texts_of(r@) =~= head + Seq::<Seq<char>>::empty());
    }
    r
}

/// The first two lines to a device.
pub open spec fn opening_lines(owner: Seq<char>, epoch_secs: i64, tz_offset_secs: i32) -> Seq<
    Seq<char>,
> {
    seq![
        line_of(JsonValue::Object(present(owner_fields(owner)))),
        line_of(JsonValue::Object(present(time_fields(epoch_secs, tz_offset_secs)))),
    ]
}

/// Whether `i` is the last of the configured addresses that is `address`.
pub open spec fn is_last_override(configured: Seq<Option<u64>>, address: u64, i: int) -> bool {
    &&& 0 <= i < configured.len()
    &&& configured[i] == Some(address)
    &&& forall|j: int| i < j < configured.len() ==> configured[j] != Some(address)
}

/// The place of a device among the configured ones, whose addresses are given as
/// numbers, and as `None` where they could not be read. Of two entries for an
/// address the later one counts.
pub fn find_override(configured: &Vec<Option<u64>>, address: u64) -> (r: Option<usize>)
    ensures
        match r {
            Some(i) => is_last_override(configured@, address, i as int),
            None => !configured@.contains(Some(address)),
        },
{
    let mut i: usize = configured.len();
    while i > 0
        invariant
            i <= configured@.len(),
            forall|j: int| i <= j < configured@.len() ==> configured@[j] != Some(address),
        decreases i,
    {
        if let Some(found) = configured[i - 1] {
            if found == address {
                return Some(i - 1);
            }
        }
        i = i - 1;
    }
    None
}

/// The service that a device has to offer; `None` where the configured text is no
/// UUID.
pub fn service_uuid(config: &BleConfig) -> (r: Option<u128>)
    ensures
        r == uuid_text(config.service_uuid@),
{
    parse_uuid(config.service_uuid.as_str())
}

/// Whether `i` is the last place of `uuid`.
pub open spec fn is_last_place(uuids: Seq<u128>, uuid: u128, i: int) -> bool {
    0 <= i < uuids.len() && uuids[i] == uuid && forall|j: int| i < j < uuids.len() ==> uuids[j] != uuid
}

/// The places of the two characteristics of the service among its
/// characteristics, if it has both.
pub fn find_nus_chars(uuids: &Vec<u128>) -> (r: Option<(usize, usize)>)
    ensures
        match r {
            Some((rx, tx)) => is_last_place(uuids@, NUS_RX_CHAR_UUID, rx as int) && is_last_place(
                uuids@,
                NUS_TX_CHAR_UUID,
                tx as int,
            ),
            None => !uuids@.contains(NUS_RX_CHAR_UUID) || !uuids@.contains(NUS_TX_CHAR_UUID),
        },
{
    let mut rx: Option<usize> = None;
    let mut tx: Option<usize> = None;
    let mut i: usize = 0;
    while i < uuids.len()
        invariant
            i <= uuids@.len(),
            match rx {
                Some(k) => k < i && uuids@[k as int] == NUS_RX_CHAR_UUID && forall|j: int|
                    k < j < i ==> uuids@[j] != NUS_RX_CHAR_UUID,
                None => forall|j: int| 0 <= j < i ==> uuids@[j] != NUS_RX_CHAR_UUID,
            },
            match tx {
                Some(k) => k < i && uuids@[k as int] == NUS_TX_CHAR_UUID && forall|j: int|
                    k < j < i ==> uuids@[j] != NUS_TX_CHAR_UUID,
                None => forall|j: int| 0 <= j < i ==> uuids@[j] != NUS_TX_CHAR_UUID,
            },
        decreases uuids@.len() - i,
    {
        if uuids[i] == NUS_RX_CHAR_UUID {
            rx = Some(i);
        } else if uuids[i] == NUS_TX_CHAR_UUID {
            tx = Some(i);
        }
        i = i + 1;
    }
    match (rx, tx) {
        (Some(r), Some(t)) => Some((r, t)),
        _ => None,
    }
}

/// The pause before the next try, in seconds.
#[derive(Debug, Clone, Copy, PartialEq, Eq, Structural)]
pub struct Backoff {
    pub secs: u64,
}

pub open spec fn doubled(secs: u64) -> u64 {
    if secs >= 15 {
        30
    } else {
        (2 * secs) as u64
    }
}

impl Backoff {
    pub fn new() -> (r: Backoff)
        ensures
            r.secs == 1,
    {
        Backoff { secs: 1 }
    }

    /// The pause after a session ended. It starts at one second, doubles up to
    /// thirty, and starts over after a session that ended well.
    pub fn pause(&mut self, ended_well: bool) -> (r: u64)
        requires
            1 <= old(self).secs <= 30,
        ensures
            r == if ended_well {
                1
            } else {
                old(self).secs
            },
            final(self).secs == doubled(r),
            1 <= final(self).secs <= 30,
    {
        if ended_well {
            self.secs = 1;
        }
        let r: u64 = self.secs;
        self.secs = if r >= 15 {
            30
        } else {
            2 * r
        };
        r
    }
}

/// What a device's message leads to.
#[derive(Debug)]
pub enum DeviceStep {
    Silent,
    Reply(Ack),
    ReplyStatus(StatusAck),
    /// The decision is to be handed to the state.
    Decide { id: String, decision: WireDecision },
}

/// What a [`DeviceStep`] stands for.
pub enum DeviceStepValue {
    Silent,
    Reply(AckValue),
    ReplyStatus,
    Decide { id: Seq<char>, decision: WireDecision },
}

impl View for DeviceStep {
    type V = DeviceStepValue;

    open spec fn view(&self) -> DeviceStepValue {
        match self {
            DeviceStep::Silent => DeviceStepValue::Silent,
            DeviceStep::Reply(a) => DeviceStepValue::Reply(a@),
            DeviceStep::ReplyStatus(_) => DeviceStepValue::ReplyStatus,
            DeviceStep::Decide { id, decision } => DeviceStepValue::Decide {
                id: id@,
                decision: *decision,
            },
        }
    }
}

/// What a device's document leads to. A name is acknowledged and not taken over,
/// for names are configured; pairing is left to the system.
pub open spec fn device_step(v: JsonValue) -> DeviceStepValue {
    match device_command_in(v) {
        Some(DeviceValue::Permission { id, decision }) => DeviceStepValue::Decide { id, decision },
        Some(DeviceValue::Status) => DeviceStepValue::ReplyStatus,
        Some(DeviceValue::Name { .. }) => DeviceStepValue::Reply(ack_ok("name"@)),
        Some(DeviceValue::Unpair) => DeviceStepValue::Reply(ack_err("unpair"@, "manage_via_os"@)),
        None => match v.get_str("cmd"@) {
            Some(cmd) => DeviceStepValue::Reply(ack_err(cmd, "unknown msg"@)),
            None => DeviceStepValue::Silent,
        },
    }
}

/// Takes a document that a device sent.
pub fn handle_device_document(doc: &Json) -> (r: DeviceStep)
    ensures
        r@ == device_step(doc@),
        r matches DeviceStep::ReplyStatus(s) ==> s.ack@ == "status"@ && s.ok && text_of(s.name) == Some(
            "ccbridge"@,
        ),
{
    match DeviceCommand::from_json(doc) {
        Some(DeviceCommand::Permission { id, decision }) => DeviceStep::Decide { id, decision },
        Some(DeviceCommand::Status) => DeviceStep::ReplyStatus(StatusAck::of_bridge()),
        Some(DeviceCommand::Name { name: _ }) => DeviceStep::Reply(Ack::ok("name")),
        Some(DeviceCommand::Unpair) => DeviceStep::Reply(Ack::err("unpair", "manage_via_os")),
        None => match doc.get_str("cmd") {
            Some(cmd) => DeviceStep::Reply(Ack::err(cmd, "unknown msg")),
            None => DeviceStep::Silent,
        },
    }
}

/// Takes a line that a device sent. A line that is empty or no JSON is passed
/// over.
pub fn handle_inbound(line: &str) -> (r: DeviceStep)
    ensures
        match json_text(line@) {
            Some(v) => r@ == device_step(v),
            None => r is Silent,
        },
        r matches DeviceStep::ReplyStatus(s) ==> s.ack@ == "status"@ && s.ok && text_of(s.name) == Some(
            "ccbridge"@,
        ),
{
    match parse_json(line) {
        Some(doc) => handle_device_document(&doc),
        None => DeviceStep::Silent,
    }
}

} // verus!
