//! Heartbeats and device messages.

use vstd::prelude::*;
use crate::json::{
    json_items, lemma_array_view, opt_str, present, Fields, Json, JsonValue,
};
use crate::json_form::{name_under, names_of, read_name_under, read_record, record};
use crate::proto::ctrl::{int_json, make_int};
use crate::proto::hook::text_of;
use crate::text::str_eq;

verus! {

/// Which list the pattern of an annotated prompt came from.
#[derive(Debug, Clone, Copy, PartialEq, Eq, Structural)]
pub enum MatchSource {
    Allow,
    Deny,
}

/// A decision on a tool call, as emitters send it.
#[derive(Debug, Clone, Copy, PartialEq, Eq, Structural)]
pub enum WireDecision {
    Once,
    Deny,
}

/// One tool call that waits for a decision.
#[derive(Debug, Clone, PartialEq, Eq)]
pub struct PromptInfo {
    pub id: String,
    pub tool: String,
    pub hint: String,
    pub matched_pattern: Option<String>,
    pub matched_source: Option<MatchSource>,
    pub session_id: Option<String>,
    pub cwd: Option<String>,
    pub agent_type: Option<String>,
}

/// The bridge's state, as every emitter shows it.
#[derive(Debug, Clone, PartialEq, Eq)]
pub struct Heartbeat {
    pub total: u32,
    pub running: u32,
    pub waiting: u32,
    pub msg: String,
    pub entries: Vec<String>,
    pub tokens: u64,
    pub tokens_today: u64,
    pub prompts: Vec<PromptInfo>,
}

pub open spec fn wire_name(d: WireDecision) -> Seq<char> {
    match d {
        WireDecision::Once => "once"@,
        WireDecision::Deny => "deny"@,
    }
}

pub open spec fn wire_named(name: Seq<char>) -> Option<WireDecision> {
    if name == "once"@ {
        Some(WireDecision::Once)
    } else if name == "deny"@ {
        Some(WireDecision::Deny)
    } else {
        None
    }
}

impl WireDecision {
    pub fn name(self) -> (r: &'static str)
        ensures
            r@ == wire_name(self),
    {
        match self {
            WireDecision::Once => "once",
            WireDecision::Deny => "deny",
        }
    }

    pub fn from_name(name: &str) -> (r: Option<WireDecision>)
        ensures
            r == wire_named(name@),
    {
        if str_eq(name, "once") {
            Some(WireDecision::Once)
        } else if str_eq(name, "deny") {
            Some(WireDecision::Deny)
        } else {
            None
        }
    }
}

pub open spec fn source_json(source: Option<MatchSource>) -> Option<JsonValue> {
    match source {
        Some(MatchSource::Allow) => Some(JsonValue::Str("allow"@)),
        Some(MatchSource::Deny) => Some(JsonValue::Str("deny"@)),
        None => None,
    }
}

/// A prompt as JSON.
pub open spec fn prompt_json(p: PromptInfo) -> JsonValue {
    JsonValue::Object(
        present(
            seq![
                ("id"@, Some(JsonValue::Str(p.id@))),
                ("tool"@, Some(JsonValue::Str(p.tool@))),
                ("hint"@, Some(JsonValue::Str(p.hint@))),
                ("matched_pattern"@, opt_str(p.matched_pattern)),
                ("matched_source"@, source_json(p.matched_source)),
                ("session_id"@, opt_str(p.session_id)),
                ("cwd"@, opt_str(p.cwd)),
                ("agent_type"@, opt_str(p.agent_type)),
            ],
        ),
    )
}

/// A heartbeat as JSON.
pub open spec fn heartbeat_json(h: Heartbeat) -> JsonValue {
    JsonValue::Object(
        present(
            seq![
                ("total"@, Some(JsonValue::Unsigned(h.total as u64))),
                ("running"@, Some(JsonValue::Unsigned(h.running as u64))),
                ("waiting"@, Some(JsonValue::Unsigned(h.waiting as u64))),
                ("msg"@, Some(JsonValue::Str(h.msg@))),
                (
                    "entries"@,
                    Some(JsonValue::Array(h.entries@.map_values(|t: String| JsonValue::Str(t@)))),
                ),
                ("tokens"@, Some(JsonValue::Unsigned(h.tokens))),
                ("tokens_today"@, Some(JsonValue::Unsigned(h.tokens_today))),
                (
                    "prompts"@,
                    Some(JsonValue::Array(h.prompts@.map_values(|p: PromptInfo| prompt_json(p)))),
                ),
            ],
        ),
    )
}

impl PromptInfo {
    /// The prompt as JSON.
    pub fn to_json(&self) -> (r: Json)
        ensures
            r@ == prompt_json(*self),
    {
        let source = match self.matched_source {
            Some(MatchSource::Allow) => Some(Json::Str("allow".to_owned())),
            Some(MatchSource::Deny) => Some(Json::Str("deny".to_owned())),
            None => None,
        };
        let f = Fields::new().text("id", self.id.as_str()).text("tool", self.tool.as_str()).text(
            "hint",
            self.hint.as_str(),
        ).opt_text("matched_pattern", &self.matched_pattern).add_opt(
            "matched_source",
            source,
        ).opt_text("session_id", &self.session_id).opt_text("cwd", &self.cwd).opt_text(
            "agent_type",
            &self.agent_type,
        );
        assert(f@ =~= seq![
            ("id"@, Some(JsonValue::Str(self.id@))),
            ("tool"@, Some(JsonValue::Str(self.tool@))),
            ("hint"@, Some(JsonValue::Str(self.hint@))),
            ("matched_pattern"@, opt_str(self.matched_pattern)),
            ("matched_source"@, source_json(self.matched_source)),
            ("session_id"@, opt_str(self.session_id)),
            ("cwd"@, opt_str(self.cwd)),
            ("agent_type"@, opt_str(self.agent_type)),
        ]);
        f.object()
    }
}

impl Heartbeat {
    /// The heartbeat as JSON.
    pub fn to_json(&self) -> (r: Json)
        ensures
            r@ == heartbeat_json(*self),
    {
        let mut entries: Vec<Json> = Vec::new();
        let mut i: usize = 0;
        while i < self.entries.len()
            invariant
                i <= self.entries@.len(),
                entries@.len() == i,
                forall|j: int|
                    0 <= j < i ==> (#[trigger] entries@[j])@ == JsonValue::Str(self.entries@[j]@),
            decreases self.entries@.len() - i,
        {
            entries.push(Json::Str(self.entries[i].clone()));
            i = i + 1;
        }
        let mut prompts: Vec<Json> = Vec::new();
        let mut k: usize = 0;
        while k < self.prompts.len()
            invariant
                k <= self.prompts@.len(),
                prompts@.len() == k,
                forall|j: int| 0 <= j < k ==> (#[trigger] prompts@[j])@ == prompt_json(self.prompts@[j]),
            decreases self.prompts@.len() - k,
        {
            prompts.push(self.prompts[k].to_json());
            k = k + 1;
        }
        proof {
            lemma_array_view(entries);
            lemma_array_view(prompts);
            assert(json_items(entries@) =~= self.entries@.map_values(
                |t: String| JsonValue::Str(t@),
            ));
            assert(json_items(prompts@) =~= self.prompts@.map_values(|p: PromptInfo| prompt_json(p)));
        }
        let f = Fields::new().add("total", Json::Unsigned(self.total as u64)).add(
            "running",
            Json::Unsigned(self.running as u64),
        ).add("waiting", Json::Unsigned(self.waiting as u64)).text("msg", self.msg.as_str()).add(
            "entries",
            Json::Array(entries),
        ).add("tokens", Json::Unsigned(self.tokens)).add(
            "tokens_today",
            Json::Unsigned(self.tokens_today),
        ).add("prompts", Json::Array(prompts));
        assert(f@ =~= seq![
            ("total"@, Some(JsonValue::Unsigned(self.total as u64))),
            ("running"@, Some(JsonValue::Unsigned(self.running as u64))),
            ("waiting"@, Some(JsonValue::Unsigned(self.waiting as u64))),
            ("msg"@, Some(JsonValue::Str(self.msg@))),
            (
                "entries"@,
                Some(JsonValue::Array(self.entries@.map_values(|t: String| JsonValue::Str(t@)))),
            ),
            ("tokens"@, Some(JsonValue::Unsigned(self.tokens))),
            ("tokens_today"@, Some(JsonValue::Unsigned(self.tokens_today))),
            (
                "prompts"@,
                Some(JsonValue::Array(self.prompts@.map_values(|p: PromptInfo| prompt_json(p)))),
            ),
        ]);
        f.object()
    }
}

// ---------------------------------------------------------------------------
// Device messages.

/// The first message to a device: whose bridge it is.
#[derive(Debug, Clone, PartialEq, Eq)]
pub struct OwnerMessage {
    pub name: String,
}

pub open spec fn owner_fields(name: Seq<char>) -> Seq<(Seq<char>, Option<JsonValue>)> {
    seq![("cmd"@, Some(JsonValue::Str("owner"@))), ("name"@, Some(JsonValue::Str(name)))]
}

pub open spec fn owner_json(m: OwnerMessage) -> JsonValue {
    JsonValue::Object(present(owner_fields(m.name@)))
}

impl OwnerMessage {
    pub fn new(name: &str) -> (r: OwnerMessage)
        ensures
            r.name@ == name@,
    {
        OwnerMessage { name: name.to_owned() }
    }

    pub fn to_json(&self) -> (r: Json)
        ensures
            r@ == owner_json(*self),
    {
        let f = Fields::new().text("cmd", "owner").text("name", self.name.as_str());
        assert(f@ =~= owner_fields(self.name@));
        f.object()
    }
}

/// The second message to a device: seconds since the epoch, and the offset of the
/// local time in seconds.
#[derive(Debug, PartialEq, Eq)]
pub struct TimeSync {
    pub time: (i64, i32),
}

pub open spec fn time_fields(epoch: i64, offset: i32) -> Seq<(Seq<char>, Option<JsonValue>)> {
    seq![("time"@, Some(JsonValue::Array(seq![int_json(epoch as int), int_json(offset as int)])))]
}

pub open spec fn time_json(m: TimeSync) -> JsonValue {
    JsonValue::Object(present(time_fields(m.time.0, m.time.1)))
}

impl TimeSync {
    pub fn to_json(&self) -> (r: Json)
        ensures
            r@ == time_json(*self),
    {
        let mut time: Vec<Json> = Vec::new();
        time.push(make_int(self.time.0));
        time.push(make_int(self.time.1 as i64));
        proof {
            lemma_array_view(time);
            assert(json_items(time@) =~= seq![
                int_json(self.time.0 as int),
                int_json(self.time.1 as int),
            ]);
        }
        let f = Fields::new().add("time", Json::Array(time));
        assert(f@ =~= time_fields(self.time.0, self.time.1));
        f.object()
    }
}

/// The reply to a status request. A bridge in software has a name and nothing
/// else to report.
#[derive(Debug, Clone, PartialEq, Eq)]
pub struct StatusAck {
    pub ack: String,
    pub ok: bool,
    pub name: Option<String>,
}

pub open spec fn status_json(s: StatusAck) -> JsonValue {
    JsonValue::Object(
        present(
            seq![
                ("ack"@, Some(JsonValue::Str(s.ack@))),
                ("ok"@, Some(JsonValue::Bool(s.ok))),
                ("data"@, Some(JsonValue::Object(present(seq![("name"@, opt_str(s.name))])))),
            ],
        ),
    )
}

impl StatusAck {
    /// The reply of this bridge.
    pub fn of_bridge() -> (r: StatusAck)
        ensures
            r.ack@ == "status"@,
            r.ok,
            text_of(r.name) == Some("ccbridge"@),
    {
        StatusAck { ack: "status".to_owned(), ok: true, name: Some("ccbridge".to_owned()) }
    }

    pub fn to_json(&self) -> (r: Json)
        ensures
            r@ == status_json(*self),
    {
        let data = Fields::new().opt_text("name", &self.name);
        assert(data@ =~= seq![("name"@, opt_str(self.name))]);
        let f = Fields::new().text("ack", self.ack.as_str()).add("ok", Json::Bool(self.ok)).add(
            "data",
            data.object(),
        );
        assert(f@ =~= seq![
            ("ack"@, Some(JsonValue::Str(self.ack@))),
            ("ok"@, Some(JsonValue::Bool(self.ok))),
            ("data"@, Some(JsonValue::Object(present(seq![("name"@, opt_str(self.name))])))),
        ]);
        f.object()
    }
}

/// What a device asks for.
#[derive(Debug, Clone, PartialEq, Eq)]
pub enum DeviceCommand {
    Permission { id: String, decision: WireDecision },
    Status,
    Name { name: String },
    Unpair,
}

/// What a [`DeviceCommand`] stands for.
pub enum DeviceValue {
    Permission { id: Seq<char>, decision: WireDecision },
    Status,
    Name { name: Seq<char> },
    Unpair,
}

impl View for DeviceCommand {
    type V = DeviceValue;

    open spec fn view(&self) -> DeviceValue {
        match self {
            DeviceCommand::Permission { id, decision } => DeviceValue::Permission {
                id: id@,
                decision: *decision,
            },
            DeviceCommand::Status => DeviceValue::Status,
            DeviceCommand::Name { name } => DeviceValue::Name { name: name@ },
            DeviceCommand::Unpair => DeviceValue::Unpair,
        }
    }
}

/// The id and the decision of a permission command.
pub open spec fn permission_in(v: JsonValue) -> Option<(Seq<char>, WireDecision)> {
    match (v.get_str("id"@), name_under(v, "decision"@)) {
        (Some(id), Some(name)) => match wire_named(name) {
            Some(decision) => Some((id, decision)),
            None => None,
        },
        _ => None,
    }
}

pub fn read_permission(v: &Json) -> (r: Option<(String, WireDecision)>)
    ensures
        match r {
            Some((id, decision)) => permission_in(v@) == Some((id@, decision)),
            None => permission_in(v@) is None,
        },
{
    match (v.get_str("id"), read_name_under(v, "decision")) {
        (Some(id), Some(name)) => match WireDecision::from_name(name) {
            Some(decision) => Some((id.to_owned(), decision)),
            None => None,
        },
        _ => None,
    }
}

/// The fields of the command `cmd`, in order.
pub open spec fn device_names(cmd: Seq<char>) -> Seq<Seq<char>> {
    if cmd == "permission"@ {
        seq!["cmd"@, "id"@, "decision"@]
    } else if cmd == "name"@ {
        seq!["cmd"@, "name"@]
    } else {
        seq!["cmd"@]
    }
}

/// The command of a device's message, if it is one: an object with the command's
/// name under `cmd` and its fields, or an array of the name and the fields in
/// order.
pub open spec fn device_command_in(doc: JsonValue) -> Option<DeviceValue> {
    match doc {
        JsonValue::Array(items) => if items.len() == 0 {
            None
        } else {
            match items[0] {
                JsonValue::Str(cmd) => device_record(record(doc, device_names(cmd))),
                _ => None,
            }
        },
        _ => device_record(doc),
    }
}

/// The command that an object stands for.
pub open spec fn device_record(v: JsonValue) -> Option<DeviceValue> {
    match v.get_str("cmd"@) {
        None => None,
        Some(cmd) => if cmd == "permission"@ {
            match permission_in(v) {
                Some((id, decision)) => Some(DeviceValue::Permission { id, decision }),
                None => None,
            }
        } else if cmd == "status"@ {
            Some(DeviceValue::Status)
        } else if cmd == "name"@ {
            match v.get_str("name"@) {
                Some(name) => Some(DeviceValue::Name { name }),
                None => None,
            }
        } else if cmd == "unpair"@ {
            Some(DeviceValue::Unpair)
        } else {
            None
        },
    }
}

/// The fields of the command `cmd`, in order.
fn fields_of_device_command(cmd: &str) -> (r: Vec<&'static str>)
    ensures
        names_of(r@) == device_names(cmd@),
{
    let r = if str_eq(cmd, "permission") {
        vec!["cmd", "id", "decision"]
    } else if str_eq(cmd, "name") {
        vec!["cmd", "name"]
    } else {
        vec!["cmd"]
    };
    assert(names_of(r@) =~= device_names(cmd@));
    r
}

impl DeviceCommand {
    pub fn from_json(doc: &Json) -> (r: Option<DeviceCommand>)
        ensures
            match r {
                Some(c) => device_command_in(doc@) == Some(c@),
                None => device_command_in(doc@) is None,
            },
    {
        match doc {
            Json::Array(items) => {
                proof {
                    lemma_array_view(*items);
                }
                if items.len() == 0 {
                    return None;
                }
                assert(json_items(items@)[0] == items@[0]@);
                match &items[0] {
                    Json::Str(cmd) => DeviceCommand::from_record(
                        &read_record(doc, &fields_of_device_command(cmd.as_str())),
                    ),
                    _ => None,
                }
            },
            _ => DeviceCommand::from_record(doc),
        }
    }

    fn from_record(v: &Json) -> (r: Option<DeviceCommand>)
        ensures
            match r {
                Some(c) => device_record(v@) == Some(c@),
                None => device_record(v@) is None,
            },
    {
        let cmd = match v.get_str("cmd") {
            Some(cmd) => cmd,
            None => {
                return None;
            },
        };
        if str_eq(cmd, "permission") {
            match read_permission(v) {
                Some((id, decision)) => Some(DeviceCommand::Permission { id, decision }),
                None => None,
            }
        } else if str_eq(cmd, "status") {
            Some(DeviceCommand::Status)
        } else if str_eq(cmd, "name") {
            match v.get_str("name") {
                Some(name) => Some(DeviceCommand::Name { name: name.to_owned() }),
                None => None,
            }
        } else if str_eq(cmd, "unpair") {
            Some(DeviceCommand::Unpair)
        } else {
            None
        }
    }
}

} // verus!
