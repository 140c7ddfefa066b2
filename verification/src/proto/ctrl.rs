//! The control protocol: what is said on connecting, commands, and replies.

use vstd::prelude::*;
use crate::json::{
    json_items, lemma_array_view, lemma_field, opt_str, present, Fields, Json, JsonValue,
};
use crate::json_form::{name_in, names_of, read_name, read_record, record};
use crate::proto::buddy::{permission_in, read_permission, wire_name, WireDecision};
use crate::proto::hook::text_of;
use crate::text::str_eq;

verus! {

/// The first message of a connection.
#[derive(Debug, PartialEq, Eq)]
pub struct HelloMessage {
    pub hello: Hello,
}

#[derive(Debug, PartialEq, Eq)]
pub struct Hello {
    pub version: u32,
    pub owner: String,
    /// Seconds since 1970, and the offset of the local time in seconds.
    pub time: (i64, i32),
}

/// An integer as JSON.
pub open spec fn int_json(n: int) -> JsonValue {
    if n < 0 {
        JsonValue::Negative(n as i64)
    } else {
        JsonValue::Unsigned(n as u64)
    }
}

/// The integer that a value stands for, if it is one.
pub open spec fn int_in(v: JsonValue) -> Option<int> {
    match v {
        JsonValue::Unsigned(n) => Some(n as int),
        JsonValue::Negative(n) => Some(n as int),
        _ => None,
    }
}

pub(crate) fn make_int(n: i64) -> (r: Json)
    ensures
        r@ == int_json(n as int),
{
    if n < 0 {
        Json::Negative(n)
    } else {
        Json::Unsigned(n as u64)
    }
}

/// The integer that a value stands for, if it is one that fits.
fn read_int(v: &Json) -> (r: Option<i64>)
    ensures
        match r {
            Some(n) => int_in(v@) == Some(n as int),
            None => int_in(v@) is None || int_in(v@)->0 > i64::MAX,
        },
{
    match v {
        Json::Unsigned(n) => {
            if *n <= 0x7fff_ffff_ffff_ffff {
                Some(*n as i64)
            } else {
                None
            }
        },
        Json::Negative(n) => Some(*n),
        _ => None,
    }
}

pub open spec fn hello_fields(h: Hello) -> Seq<(Seq<char>, Option<JsonValue>)> {
    seq![
        ("version"@, Some(JsonValue::Unsigned(h.version as u64))),
        ("owner"@, Some(JsonValue::Str(h.owner@))),
        ("time"@, Some(JsonValue::Array(seq![int_json(h.time.0 as int), int_json(h.time.1 as int)]))),
    ]
}

pub open spec fn hello_json(m: HelloMessage) -> JsonValue {
    JsonValue::Object(
        present(seq![("hello"@, Some(JsonValue::Object(present(hello_fields(m.hello)))))]),
    )
}

/// The fields of what a greeting says, in order.
pub open spec fn hello_names() -> Seq<Seq<char>> {
    seq!["version"@, "owner"@, "time"@]
}

/// What a greeting says: the version, the owner, the time and its offset.
pub open spec fn hello_in(v: JsonValue) -> Option<(int, Seq<char>, int, int)> {
    match record(v, seq!["hello"@]).get("hello"@) {
        None => None,
        Some(inner) => hello_record(record(inner, hello_names())),
    }
}

/// What the inner record of a greeting says.
pub open spec fn hello_record(h: JsonValue) -> Option<(int, Seq<char>, int, int)> {
    match (h.get("version"@), h.get_str("owner"@), h.get("time"@)) {
        (Some(JsonValue::Unsigned(version)), Some(owner), Some(JsonValue::Array(time))) => if version
            <= u32::MAX && time.len() == 2 && int_in(time[0]) is Some && int_in(time[0])->0 <= i64::MAX
            && int_in(time[1]) is Some && i32::MIN <= int_in(time[1])->0 <= i32::MAX {
            Some((version as int, owner, int_in(time[0])->0, int_in(time[1])->0))
        } else {
            None
        },
        _ => None,
    }
}

impl HelloMessage {
    pub fn to_json(&self) -> (r: Json)
        ensures
            r@ == hello_json(*self),
    {
        let mut time: Vec<Json> = Vec::new();
        time.push(make_int(self.hello.time.0));
        time.push(make_int(self.hello.time.1 as i64));
        proof {
            lemma_array_view(time);
            assert(json_items(time@) =~= seq![
                int_json(self.hello.time.0 as int),
                int_json(self.hello.time.1 as int),
            ]);
        }
        let inner = Fields::new().add("version", Json::Unsigned(self.hello.version as u64)).text(
            "owner",
            self.hello.owner.as_str(),
        ).add("time", Json::Array(time));
        assert(inner@ =~= hello_fields(self.hello));
        let outer = Fields::new().add("hello", inner.object());
        assert(outer@ =~= seq![
            ("hello"@, Some(JsonValue::Object(present(hello_fields(self.hello))))),
        ]);
        outer.object()
    }

    pub fn from_json(v: &Json) -> (r: Option<HelloMessage>)
        ensures
            match r {
                Some(m) => hello_in(v@) == Some(
                    (
                        m.hello.version as int,
                        m.hello.owner@,
                        m.hello.time.0 as int,
                        m.hello.time.1 as int,
                    ),
                ),
                None => hello_in(v@) is None,
            },
    {
        let outer_names = vec!["hello"];
        assert(names_of(outer_names@) =~= seq!["hello"@]);
        let outer = read_record(v, &outer_names);
        let names = vec!["version", "owner", "time"];
        assert(names_of(names@) =~= hello_names());
        let h = match outer.get("hello") {
            Some(inner) => read_record(inner, &names),
            None => {
                return None;
            },
        };
        match (h.get("version"), h.get_str("owner"), h.get("time")) {
            (Some(Json::Unsigned(version)), Some(owner), Some(Json::Array(time))) => {
                proof {
                    lemma_array_view(*time);
                }
                if *version > 0xffff_ffff || time.len() != 2 {
                    return None;
                }
                assert(json_items(time@)[0] == time@[0]@ && json_items(time@)[1] == time@[1]@);
                match (read_int(&time[0]), read_int(&time[1])) {
                    (Some(epoch), Some(offset)) => {
                        if offset < -0x8000_0000 || offset > 0x7fff_ffff {
                            return None;
                        }
                        Some(
                            HelloMessage {
                                hello: Hello {
                                    version: *version as u32,
                                    owner: owner.to_owned(),
                                    time: (epoch, offset as i32),
                                },
                            },
                        )
                    },
                    _ => None,
                }
            },
            _ => None,
        }
    }
}

/// A greeting reads back as it was written.
pub proof fn law_hello_reads_back(m: HelloMessage)
    ensures
        hello_in(hello_json(m)) == Some(
            (m.hello.version as int, m.hello.owner@, m.hello.time.0 as int, m.hello.time.1 as int),
        ),
{
    reveal_strlit("version");
    reveal_strlit("owner");
    reveal_strlit("time");
    assert("version"@.len() == 7 && "owner"@.len() == 5 && "time"@.len() == 4);
    let outer = seq![("hello"@, Some(JsonValue::Object(present(hello_fields(m.hello)))))];
    assert(outer[0].0 == "hello"@);
    lemma_field(outer, 0);
    let f = hello_fields(m.hello);
    assert(f[0].0 == "version"@ && f[1].0 == "owner"@ && f[2].0 == "time"@);
    lemma_field(f, 0);
    lemma_field(f, 1);
    lemma_field(f, 2);
}

/// What a client can subscribe to.
#[derive(Debug, Clone, Copy, PartialEq, Eq, Hash, Structural)]
pub enum Topic {
    Heartbeat,
    Turn,
    Log,
}

pub open spec fn topic_name(t: Topic) -> Seq<char> {
    match t {
        Topic::Heartbeat => "heartbeat"@,
        Topic::Turn => "turn"@,
        Topic::Log => "log"@,
    }
}

pub open spec fn topic_named(name: Seq<char>) -> Option<Topic> {
    if name == "heartbeat"@ {
        Some(Topic::Heartbeat)
    } else if name == "turn"@ {
        Some(Topic::Turn)
    } else if name == "log"@ {
        Some(Topic::Log)
    } else {
        None
    }
}

/// The topics of a list, if all its items name one.
pub open spec fn topics_in(items: Seq<JsonValue>) -> Option<Seq<Topic>>
    decreases items.len(),
{
    if items.len() == 0 {
        Some(Seq::empty())
    } else {
        match (topics_in(items.drop_last()), name_in(items.last())) {
            (Some(before), Some(name)) => match topic_named(name) {
                Some(t) => Some(before.push(t)),
                None => None,
            },
            _ => None,
        }
    }
}

pub open spec fn topics_json(topics: Seq<Topic>) -> JsonValue {
    JsonValue::Array(topics.map_values(|t: Topic| JsonValue::Str(topic_name(t))))
}

fn read_topics(v: &Json) -> (r: Option<Vec<Topic>>)
    ensures
        match r {
            Some(topics) => v@ is Array && topics_in(v@->Array_0) == Some(topics@),
            None => !(v@ is Array) || topics_in(v@->Array_0) is None,
        },
{
    match v {
        Json::Array(items) => {
            proof {
                lemma_array_view(*items);
            }
            let ghost all = json_items(items@);
            let mut r: Vec<Topic> = Vec::new();
            let mut i: usize = 0;
            assert(topics_in(all.take(0)) == Some(r@));
            while i < items.len()
                invariant
                    i <= items@.len(),
                    all == json_items(items@),
                    v@ == JsonValue::Array(all),
                    topics_in(all.take(i as int)) == Some(r@),
                decreases items@.len() - i,
            {
                assert(all.take(i + 1).drop_last() =~= all.take(i as int));
                assert(all.take(i + 1).last() == items@[i as int]@);
                let topic = match read_name(&items[i]) {
                    Some(name) => {
                        if str_eq(name, "heartbeat") {
                            Some(Topic::Heartbeat)
                        } else if str_eq(name, "turn") {
                            Some(Topic::Turn)
                        } else if str_eq(name, "log") {
                            Some(Topic::Log)
                        } else {
                            None
                        }
                    },
                    None => None,
                };
                match topic {
                    Some(t) => {
                        r.push(t);
                    },
                    None => {
                        proof {
                            assert(topics_in(all.take(i + 1)) is None);
                            lemma_bad_topic(all, i + 1);
                        }
                        return None;
                    },
                }
                i = i + 1;
            }
            assert(all.take(i as int) =~= all);
            Some(r)
        },
        _ => None,
    }
}

proof fn lemma_bad_topic(items: Seq<JsonValue>, n: int)
    requires
        0 <= n <= items.len(),
        topics_in(items.take(n)) is None,
    ensures
        topics_in(items) is None,
    decreases items.len() - n,
{
    if n < items.len() {
        assert(items.take(n + 1).drop_last() =~= items.take(n));
        lemma_bad_topic(items, n + 1);
    } else {
        assert(items.take(n) =~= items);
    }
}

fn make_topics(topics: &Vec<Topic>) -> (r: Json)
    ensures
        r@ == topics_json(topics@),
{
    let mut items: Vec<Json> = Vec::new();
    let mut i: usize = 0;
    while i < topics.len()
        invariant
            i <= topics@.len(),
            items@.len() == i,
            forall|j: int|
                0 <= j < i ==> (#[trigger] items@[j])@ == JsonValue::Str(topic_name(topics@[j])),
        decreases topics@.len() - i,
    {
        let name = match topics[i] {
            Topic::Heartbeat => "heartbeat",
            Topic::Turn => "turn",
            Topic::Log => "log",
        };
        items.push(Json::Str(name.to_owned()));
        i = i + 1;
    }
    proof {
        lemma_array_view(items);
        assert(json_items(items@) =~= topics@.map_values(|t: Topic| JsonValue::Str(topic_name(t))));
    }
    Json::Array(items)
}

/// What a client asks for.
#[derive(Debug, Clone, PartialEq)]
pub enum Command {
    Subscribe { topics: Vec<Topic> },
    Unsubscribe { topics: Vec<Topic> },
    Permission { id: String, decision: WireDecision },
    Status,
    Replay { n: u32 },
    ForgetDevice { addr: String },
    Simulate { event: Json },
}

/// What a [`Command`] stands for.
#[verifier::ext_equal]
pub enum CommandValue {
    Subscribe { topics: Seq<Topic> },
    Unsubscribe { topics: Seq<Topic> },
    Permission { id: Seq<char>, decision: WireDecision },
    Status,
    Replay { n: u32 },
    ForgetDevice { addr: Seq<char> },
    Simulate { event: JsonValue },
}

impl View for Command {
    type V = CommandValue;

    open spec fn view(&self) -> CommandValue {
        match self {
            Command::Subscribe { topics } => CommandValue::Subscribe { topics: topics@ },
            Command::Unsubscribe { topics } => CommandValue::Unsubscribe { topics: topics@ },
            Command::Permission { id, decision } => CommandValue::Permission {
                id: id@,
                decision: *decision,
            },
            Command::Status => CommandValue::Status,
            Command::Replay { n } => CommandValue::Replay { n: *n },
            Command::ForgetDevice { addr } => CommandValue::ForgetDevice { addr: addr@ },
            Command::Simulate { event } => CommandValue::Simulate { event: event@ },
        }
    }
}

pub open spec fn topics_field(v: JsonValue) -> Option<Seq<Topic>> {
    match v.get("topics"@) {
        Some(JsonValue::Array(items)) => topics_in(items),
        _ => None,
    }
}

/// The fields of the command `cmd`, in order.
pub open spec fn command_names(cmd: Seq<char>) -> Seq<Seq<char>> {
    if cmd == "subscribe"@ || cmd == "unsubscribe"@ {
        seq!["cmd"@, "topics"@]
    } else if cmd == "permission"@ {
        seq!["cmd"@, "id"@, "decision"@]
    } else if cmd == "replay"@ {
        seq!["cmd"@, "n"@]
    } else if cmd == "forget_device"@ {
        seq!["cmd"@, "addr"@]
    } else if cmd == "simulate"@ {
        seq!["cmd"@, "event"@]
    } else {
        seq!["cmd"@]
    }
}

/// The command that a document stands for, if it is one: an object with the
/// command's name under `cmd` and its fields, or an array of the name and the
/// fields in order.
pub open spec fn command_in(doc: JsonValue) -> Option<CommandValue> {
    match doc {
        JsonValue::Array(items) => if items.len() == 0 {
            None
        } else {
            match items[0] {
                JsonValue::Str(cmd) => command_record(record(doc, command_names(cmd))),
                _ => None,
            }
        },
        _ => command_record(doc),
    }
}

/// The command that an object stands for.
pub open spec fn command_record(v: JsonValue) -> Option<CommandValue> {
    match v.get_str("cmd"@) {
        None => None,
        Some(cmd) => if cmd == "subscribe"@ {
            match topics_field(v) {
                Some(topics) => Some(CommandValue::Subscribe { topics }),
                None => None,
            }
        } else if cmd == "unsubscribe"@ {
            match topics_field(v) {
                Some(topics) => Some(CommandValue::Unsubscribe { topics }),
                None => None,
            }
        } else if cmd == "permission"@ {
            match permission_in(v) {
                Some((id, decision)) => Some(CommandValue::Permission { id, decision }),
                None => None,
            }
        } else if cmd == "status"@ {
            Some(CommandValue::Status)
        } else if cmd == "replay"@ {
            match v.get("n"@) {
                Some(JsonValue::Unsigned(n)) => if n <= u32::MAX {
                    Some(CommandValue::Replay { n: n as u32 })
                } else {
                    None
                },
                _ => None,
            }
        } else if cmd == "forget_device"@ {
            match v.get_str("addr"@) {
                Some(addr) => Some(CommandValue::ForgetDevice { addr }),
                None => None,
            }
        } else if cmd == "simulate"@ {
            match v.get("event"@) {
                Some(event) => Some(CommandValue::Simulate { event }),
                None => None,
            }
        } else {
            None
        },
    }
}

/// The fields of a command.
pub open spec fn command_fields(c: CommandValue) -> Seq<(Seq<char>, Option<JsonValue>)> {
    match c {
        CommandValue::Subscribe { topics } => seq![
            ("cmd"@, Some(JsonValue::Str("subscribe"@))),
            ("topics"@, Some(topics_json(topics))),
        ],
        CommandValue::Unsubscribe { topics } => seq![
            ("cmd"@, Some(JsonValue::Str("unsubscribe"@))),
            ("topics"@, Some(topics_json(topics))),
        ],
        CommandValue::Permission { id, decision } => seq![
            ("cmd"@, Some(JsonValue::Str("permission"@))),
            ("id"@, Some(JsonValue::Str(id))),
            ("decision"@, Some(JsonValue::Str(wire_name(decision)))),
        ],
        CommandValue::Status => seq![("cmd"@, Some(JsonValue::Str("status"@)))],
        CommandValue::Replay { n } => seq![
            ("cmd"@, Some(JsonValue::Str("replay"@))),
            ("n"@, Some(JsonValue::Unsigned(n as u64))),
        ],
        CommandValue::ForgetDevice { addr } => seq![
            ("cmd"@, Some(JsonValue::Str("forget_device"@))),
            ("addr"@, Some(JsonValue::Str(addr))),
        ],
        CommandValue::Simulate { event } => seq![
            ("cmd"@, Some(JsonValue::Str("simulate"@))),
            ("event"@, Some(event)),
        ],
    }
}

/// A command as JSON.
pub open spec fn command_json(c: CommandValue) -> JsonValue {
    JsonValue::Object(present(command_fields(c)))
}

/// The fields of the command `cmd`, in order.
fn fields_of_command(cmd: &str) -> (r: Vec<&'static str>)
    ensures
        names_of(r@) == command_names(cmd@),
{
    let r = if str_eq(cmd, "subscribe") || str_eq(cmd, "unsubscribe") {
        vec!["cmd", "topics"]
    } else if str_eq(cmd, "permission") {
        vec!["cmd", "id", "decision"]
    } else if str_eq(cmd, "replay") {
        vec!["cmd", "n"]
    } else if str_eq(cmd, "forget_device") {
        vec!["cmd", "addr"]
    } else if str_eq(cmd, "simulate") {
        vec!["cmd", "event"]
    } else {
        vec!["cmd"]
    };
    assert(names_of(r@) =~= command_names(cmd@));
    r
}

impl Command {
    /// Reads a command.
    pub fn from_json(doc: &Json) -> (r: Option<Command>)
        ensures
            match r {
                Some(c) => command_in(doc@) == Some(c@),
                None => command_in(doc@) is None,
            },
    {
        match doc {
            Json::Array(items) => {
                proof {
                    lemma_array_view(*items);
                }
                if items.len() == 0 {
                    return None;
                }
                assert(json_items(items@)[0] == items@[0]@);
                match &items[0] {
                    Json::Str(cmd) => Command::from_record(
                        &read_record(doc, &fields_of_command(cmd.as_str())),
                    ),
                    _ => None,
                }
            },
            _ => Command::from_record(doc),
        }
    }

    fn from_record(v: &Json) -> (r: Option<Command>)
        ensures
            match r {
                Some(c) => command_record(v@) == Some(c@),
                None => command_record(v@) is None,
            },
    {
        let cmd = match v.get_str("cmd") {
            Some(cmd) => cmd,
            None => {
                return None;
            },
        };
        let topics = match v.get("topics") {
            Some(t) => read_topics(t),
            None => None,
        };
        if str_eq(cmd, "subscribe") {
            match topics {
                Some(topics) => Some(Command::Subscribe { topics }),
                None => None,
            }
        } else if str_eq(cmd, "unsubscribe") {
            match topics {
                Some(topics) => Some(Command::Unsubscribe { topics }),
                None => None,
            }
        } else if str_eq(cmd, "permission") {
            match read_permission(v) {
                Some((id, decision)) => Some(Command::Permission { id, decision }),
                None => None,
            }
        } else if str_eq(cmd, "status") {
            Some(Command::Status)
        } else if str_eq(cmd, "replay") {
            match v.get("n") {
                Some(Json::Unsigned(n)) => {
                    if *n <= 0xffff_ffff {
                        Some(Command::Replay { n: *n as u32 })
                    } else {
                        None
                    }
                },
                _ => None,
            }
        } else if str_eq(cmd, "forget_device") {
            match v.get_str("addr") {
                Some(addr) => Some(Command::ForgetDevice { addr: addr.to_owned() }),
                None => None,
            }
        } else if str_eq(cmd, "simulate") {
            match v.get("event") {
                Some(event) => Some(Command::Simulate { event: event.duplicate() }),
                None => None,
            }
        } else {
            None
        }
    }

    /// The command as JSON.
    pub fn to_json(&self) -> (r: Json)
        ensures
            r@ == command_json(self@),
    {
        let f = match self {
            Command::Subscribe { topics } => Fields::new().text("cmd", "subscribe").add(
                "topics",
                make_topics(topics),
            ),
            Command::Unsubscribe { topics } => Fields::new().text("cmd", "unsubscribe").add(
                "topics",
                make_topics(topics),
            ),
            Command::Permission { id, decision } => Fields::new().text("cmd", "permission").text(
                "id",
                id.as_str(),
            ).text("decision", decision.name()),
            Command::Status => Fields::new().text("cmd", "status"),
            Command::Replay { n } => Fields::new().text("cmd", "replay").add(
                "n",
                Json::Unsigned(*n as u64),
            ),
            Command::ForgetDevice { addr } => Fields::new().text("cmd", "forget_device").text(
                "addr",
                addr.as_str(),
            ),
            Command::Simulate { event } => Fields::new().text("cmd", "simulate").add(
                "event",
                event.duplicate(),
            ),
        };
        assert(f@ =~= command_fields(self@));
        f.object()
    }
}

proof fn lemma_topics_read_back(topics: Seq<Topic>)
    ensures
        topics_in(topics_json(topics)->Array_0) == Some(topics),
    decreases topics.len(),
{
    let items = topics_json(topics)->Array_0;
    if topics.len() > 0 {
        lemma_topics_read_back(topics.drop_last());
        assert(items.drop_last() =~= topics_json(topics.drop_last())->Array_0);
        reveal_strlit("heartbeat");
        reveal_strlit("turn");
        reveal_strlit("log");
        assert("heartbeat"@.len() == 9 && "turn"@.len() == 4 && "log"@.len() == 3);
        assert(topics.drop_last().push(topics.last()) =~= topics);
    } else {
        assert(topics =~= Seq::empty());
    }
}

/// A command reads back as it was written.
pub proof fn law_command_reads_back(c: CommandValue)
    ensures
        command_in(command_json(c)) == Some(c),
{
    reveal_strlit("cmd");
    reveal_strlit("topics");
    reveal_strlit("id");
    reveal_strlit("decision");
    reveal_strlit("n");
    reveal_strlit("addr");
    reveal_strlit("event");
    reveal_strlit("subscribe");
    reveal_strlit("unsubscribe");
    reveal_strlit("permission");
    reveal_strlit("status");
    reveal_strlit("replay");
    reveal_strlit("forget_device");
    reveal_strlit("simulate");
    reveal_strlit("once");
    reveal_strlit("deny");
    assert("cmd"@.len() == 3 && "topics"@.len() == 6 && "id"@.len() == 2 && "decision"@.len() == 8
        && "n"@.len() == 1 && "addr"@.len() == 4 && "event"@.len() == 5);
    assert("subscribe"@.len() == 9 && "unsubscribe"@.len() == 11 && "permission"@.len() == 10
        && "status"@.len() == 6 && "status"@[0] == 's' && "replay"@.len() == 6 && "replay"@[0] == 'r'
        && "forget_device"@.len() == 13 && "simulate"@.len() == 8);
    assert("once"@[0] == 'o' && "deny"@[0] == 'd');
    let f = command_fields(c);
    assert(f[0].0 == "cmd"@);
    match c {
        CommandValue::Subscribe { topics } => {
            assert(f[1].0 == "topics"@ && f.len() == 2);
            lemma_topics_read_back(topics);
            lemma_field(f, 1);
        },
        CommandValue::Unsubscribe { topics } => {
            assert(f[1].0 == "topics"@ && f.len() == 2);
            lemma_topics_read_back(topics);
            lemma_field(f, 1);
        },
        CommandValue::Permission { .. } => {
            assert(f[1].0 == "id"@ && f[2].0 == "decision"@ && f.len() == 3);
            lemma_field(f, 1);
            lemma_field(f, 2);
        },
        CommandValue::Status => {},
        CommandValue::Replay { .. } => {
            assert(f[1].0 == "n"@ && f.len() == 2);
            lemma_field(f, 1);
        },
        CommandValue::ForgetDevice { .. } => {
            assert(f[1].0 == "addr"@ && f.len() == 2);
            lemma_field(f, 1);
        },
        CommandValue::Simulate { .. } => {
            assert(f[1].0 == "event"@ && f.len() == 2);
            lemma_field(f, 1);
        },
    }
    lemma_field(f, 0);
}

/// The reply to a command.
#[derive(Debug, Clone, PartialEq, Eq)]
pub struct Ack {
    pub ack: String,
    pub ok: bool,
    pub error: Option<String>,
}

/// What an [`Ack`] stands for.
#[verifier::ext_equal]
pub struct AckValue {
    pub ack: Seq<char>,
    pub ok: bool,
    pub error: Option<Seq<char>>,
}

impl View for Ack {
    type V = AckValue;

    open spec fn view(&self) -> AckValue {
        AckValue { ack: self.ack@, ok: self.ok, error: text_of(self.error) }
    }
}

pub open spec fn ack_ok(cmd: Seq<char>) -> AckValue {
    AckValue { ack: cmd, ok: true, error: None }
}

pub open spec fn ack_err(cmd: Seq<char>, error: Seq<char>) -> AckValue {
    AckValue { ack: cmd, ok: false, error: Some(error) }
}

pub open spec fn ack_unknown(cmd: Seq<char>) -> AckValue {
    ack_err(cmd, "unknown_command"@)
}

pub open spec fn ack_json(a: Ack) -> JsonValue {
    JsonValue::Object(
        present(
            seq![
                ("ack"@, Some(JsonValue::Str(a.ack@))),
                ("ok"@, Some(JsonValue::Bool(a.ok))),
                ("error"@, opt_str(a.error)),
            ],
        ),
    )
}

impl Ack {
    pub fn ok(cmd: &str) -> (r: Ack)
        ensures
            r@ == ack_ok(cmd@),
    {
        Ack { ack: cmd.to_owned(), ok: true, error: None }
    }

    pub fn err(cmd: &str, error: &str) -> (r: Ack)
        ensures
            r@ == ack_err(cmd@, error@),
    {
        Ack { ack: cmd.to_owned(), ok: false, error: Some(error.to_owned()) }
    }

    pub fn unknown(cmd: &str) -> (r: Ack)
        ensures
            r@ == ack_unknown(cmd@),
    {
        Ack::err(cmd, "unknown_command")
    }

    pub fn to_json(&self) -> (r: Json)
        ensures
            r@ == ack_json(*self),
    {
        let f = Fields::new().text("ack", self.ack.as_str()).add("ok", Json::Bool(self.ok)).opt_text(
            "error",
            &self.error,
        );
        assert(f@ =~= seq![
            ("ack"@, Some(JsonValue::Str(self.ack@))),
            ("ok"@, Some(JsonValue::Bool(self.ok))),
            ("error"@, opt_str(self.error)),
        ]);
        f.object()
    }
}

} // verus!
