//! The control socket: what a client's line leads to.

use vstd::prelude::*;
use vstd::utf8::encode_utf8;
use crate::json::{present, Json, JsonValue};
use crate::lines::{heartbeat_line, hello_line, line_of};
use crate::outside::{json_text, parse_json};
use crate::proto::buddy::{heartbeat_json, Heartbeat, StatusAck, WireDecision};
use crate::proto::ctrl::{
    ack_err, ack_ok, ack_unknown, command_in, hello_fields, int_json, Ack, AckValue, Command,
    CommandValue, Hello, HelloMessage, Topic,
};
use crate::proto::hook::text_of;
use crate::state::PermissionDecisionResult;
use crate::text::{texts_of, trim, trim_of};

verus! {

/// The longest line that is read, in bytes.
pub const MAX_LINE_BYTES: usize = 1_048_576;

/// What a client has subscribed to.
#[derive(Debug, Clone, Copy, PartialEq, Eq, Structural)]
pub struct Subscriptions {
    pub heartbeat: bool,
    pub turn: bool,
    pub log: bool,
}

impl Subscriptions {
    pub open spec fn has(self, t: Topic) -> bool {
        match t {
            Topic::Heartbeat => self.heartbeat,
            Topic::Turn => self.turn,
            Topic::Log => self.log,
        }
    }

    /// Nothing: a client that wants heartbeats has to ask for them.
    pub fn none() -> (r: Subscriptions)
        ensures
            forall|t: Topic| !r.has(t),
    {
        Subscriptions { heartbeat: false, turn: false, log: false }
    }

    pub fn contains(&self, t: Topic) -> (r: bool)
        ensures
            r == self.has(t),
    {
        match t {
            Topic::Heartbeat => self.heartbeat,
            Topic::Turn => self.turn,
            Topic::Log => self.log,
        }
    }

    fn set(&mut self, t: Topic, on: bool)
        ensures
            forall|other: Topic|
                #[trigger] final(self).has(other) == if other == t {
                    on
                } else {
                    old(self).has(other)
                },
    {
        match t {
            Topic::Heartbeat => {
                self.heartbeat = on;
            },
            Topic::Turn => {
                self.turn = on;
            },
            Topic::Log => {
                self.log = on;
            },
        }
    }

    fn set_all(&mut self, topics: &Vec<Topic>, on: bool)
        ensures
            forall|t: Topic|
                #[trigger] final(self).has(t) == if topics@.contains(t) {
                    on
                } else {
                    old(self).has(t)
                },
    {
        let ghost start = *self;
        let mut i: usize = 0;
        while i < topics.len()
            invariant
                i <= topics@.len(),
                forall|t: Topic|
                    #[trigger] self.has(t) == if topics@.take(i as int).contains(t) {
                        on
                    } else {
                        start.has(t)
                    },
            decreases topics@.len() - i,
        {
            let ghost before = *self;
            self.set(topics[i], on);
            proof {
                let shorter = topics@.take(i as int);
                let longer = topics@.take(i + 1);
                assert(longer =~= shorter.push(topics@[i as int]));
                assert forall|t: Topic| #[trigger] self.has(t) == if longer.contains(t) {
                    on
                } else {
                    start.has(t)
                } by {
                    assert(before.has(t) == if shorter.contains(t) {
                        on
                    } else {
                        start.has(t)
                    });
                    if t == topics@[i as int] {
                        assert(longer[i as int] == t);
                    } else if longer.contains(t) {
                        let k = choose|k: int| 0 <= k < longer.len() && longer[k] == t;
                        assert(shorter[k] == t);
                    } else if shorter.contains(t) {
                        let k = choose|k: int| 0 <= k < shorter.len() && shorter[k] == t;
                        assert(longer[k] == t);
                    }
                }
            }
            i = i + 1;
        }
        assert(topics@.take(i as int) =~= topics@);
    }
}

/// What a client's line leads to.
#[derive(Debug)]
pub enum CtrlStep {
    /// Nothing is said.
    Silent,
    Reply(Ack),
    ReplyStatus(StatusAck),
    /// The decision is to be handed to the state; [`permission_ack`] makes the
    /// reply of its result.
    Decide { id: String, decision: WireDecision },
}

/// What a [`CtrlStep`] stands for.
pub enum StepValue {
    Silent,
    Reply(AckValue),
    ReplyStatus,
    Decide { id: Seq<char>, decision: WireDecision },
}

impl View for CtrlStep {
    type V = StepValue;

    open spec fn view(&self) -> StepValue {
        match self {
            CtrlStep::Silent => StepValue::Silent,
            CtrlStep::Reply(a) => StepValue::Reply(a@),
            CtrlStep::ReplyStatus(_) => StepValue::ReplyStatus,
            CtrlStep::Decide { id, decision } => StepValue::Decide { id: id@, decision: *decision },
        }
    }
}

/// What a command leads to. What is not offered is answered like what is not
/// known.
pub open spec fn command_step(c: CommandValue) -> StepValue {
    match c {
        CommandValue::Subscribe { .. } => StepValue::Reply(ack_ok("subscribe"@)),
        CommandValue::Unsubscribe { .. } => StepValue::Reply(ack_ok("unsubscribe"@)),
        CommandValue::Permission { id, decision } => StepValue::Decide { id, decision },
        CommandValue::Status => StepValue::ReplyStatus,
        CommandValue::Replay { .. } => StepValue::Reply(ack_unknown("replay"@)),
        CommandValue::ForgetDevice { .. } => StepValue::Reply(ack_unknown("forget_device"@)),
        CommandValue::Simulate { .. } => StepValue::Reply(ack_unknown("simulate"@)),
    }
}

/// Whether a topic is subscribed to after a command.
pub open spec fn subscribed_after(before: Subscriptions, c: CommandValue, t: Topic) -> bool {
    match c {
        CommandValue::Subscribe { topics } => before.has(t) || topics.contains(t),
        CommandValue::Unsubscribe { topics } => before.has(t) && !topics.contains(t),
        _ => before.has(t),
    }
}

/// What a document leads to: a command is carried out; anything else with a name
/// is answered as unknown.
pub open spec fn document_step(v: JsonValue) -> StepValue {
    match command_in(v) {
        Some(c) => command_step(c),
        None => match v.get_str("cmd"@) {
            Some(cmd) => StepValue::Reply(ack_unknown(cmd)),
            None => StepValue::Silent,
        },
    }
}

/// Carries out a command.
pub fn dispatch_command(cmd: Command, topics: &mut Subscriptions) -> (r: CtrlStep)
    ensures
        r@ == command_step(cmd@),
        r matches CtrlStep::ReplyStatus(s) ==> s.ack@ == "status"@ && s.ok && text_of(s.name) == Some(
            "ccbridge"@,
        ),
        forall|t: Topic| #[trigger] final(topics).has(t) == subscribed_after(*old(topics), cmd@, t),
{
    match cmd {
        Command::Subscribe { topics: new_topics } => {
            topics.set_all(&new_topics, true);
            CtrlStep::Reply(Ack::ok("subscribe"))
        },
        Command::Unsubscribe { topics: old_topics } => {
            topics.set_all(&old_topics, false);
            CtrlStep::Reply(Ack::ok("unsubscribe"))
        },
        Command::Permission { id, decision } => CtrlStep::Decide { id, decision },
        Command::Status => CtrlStep::ReplyStatus(StatusAck::of_bridge()),
        Command::Replay { .. } => CtrlStep::Reply(Ack::unknown("replay")),
        Command::ForgetDevice { .. } => CtrlStep::Reply(Ack::unknown("forget_device")),
        Command::Simulate { .. } => CtrlStep::Reply(Ack::unknown("simulate")),
    }
}

/// Whether a topic is subscribed to after a document.
pub open spec fn subscribed_after_document(before: Subscriptions, v: JsonValue, t: Topic) -> bool {
    match command_in(v) {
        Some(c) => subscribed_after(before, c, t),
        None => before.has(t),
    }
}

/// Takes a document that a client sent.
pub fn handle_document(doc: &Json, topics: &mut Subscriptions) -> (r: CtrlStep)
    ensures
        r@ == document_step(doc@),
        r matches CtrlStep::ReplyStatus(s) ==> s.ack@ == "status"@ && s.ok && text_of(s.name) == Some(
            "ccbridge"@,
        ),
        forall|t: Topic|
            #[trigger] final(topics).has(t) == subscribed_after_document(*old(topics), doc@, t),
{
    match Command::from_json(doc) {
        Some(cmd) => dispatch_command(cmd, topics),
        None => match doc.get_str("cmd") {
            Some(cmd) => CtrlStep::Reply(Ack::unknown(cmd)),
            None => CtrlStep::Silent,
        },
    }
}

/// Takes a line that a client sent. What is no JSON is passed over.
pub fn handle_command(line: &str, topics: &mut Subscriptions) -> (r: CtrlStep)
    ensures
        match json_text(line@) {
            Some(v) => {
                &&& r@ == document_step(v)
                &&& forall|t: Topic|
                    #[trigger] final(topics).has(t) == subscribed_after_document(*old(topics), v, t)
            },
            None => r is Silent && *final(topics) == *old(topics),
        },
        r matches CtrlStep::ReplyStatus(s) ==> s.ack@ == "status"@ && s.ok && text_of(s.name) == Some(
            "ccbridge"@,
        ),
{
    match parse_json(line) {
        Some(doc) => handle_document(&doc, topics),
        None => CtrlStep::Silent,
    }
}

/// What is said of a decision that was handed to the state; `None` where the
/// state is gone.
pub open spec fn permission_reply(result: Option<PermissionDecisionResult>) -> AckValue {
    match result {
        Some(PermissionDecisionResult::Applied) => ack_ok("permission"@),
        Some(PermissionDecisionResult::UnknownId) => ack_err("permission"@, "unknown_id"@),
        None => ack_err("permission"@, "aggregator_gone"@),
    }
}

/// The reply to a decision.
pub fn permission_ack(result: Option<PermissionDecisionResult>) -> (r: Ack)
    ensures
        r@ == permission_reply(result),
{
    match result {
        Some(PermissionDecisionResult::Applied) => Ack::ok("permission"),
        Some(PermissionDecisionResult::UnknownId) => Ack::err("permission", "unknown_id"),
        None => Ack::err("permission", "aggregator_gone"),
    }
}

/// Whether a line is too long, so that its connection is dropped.
pub fn line_too_long(line: &str) -> (r: bool)
    ensures
        r == (encode_utf8(line@).len() > MAX_LINE_BYTES),
{
    line.as_bytes().len() > MAX_LINE_BYTES
}

/// The greeting of a connection.
pub fn build_hello(owner: &str, epoch_secs: i64, tz_offset_secs: i32) -> (r: HelloMessage)
    ensures
        r.hello.version == 1,
        r.hello.owner@ == owner@,
        r.hello.time == (epoch_secs, tz_offset_secs),
{
    HelloMessage {
        hello: Hello {
            version: 1,
            owner: owner.to_owned(),
            time: (epoch_secs, tz_offset_secs),
        },
    }
}

/// What a client is told when it connects: the greeting, and then how things
/// stand, if that is known. Where it is not, the connection ends there.
pub fn greeting_lines(
    owner: &str,
    epoch_secs: i64,
    tz_offset_secs: i32,
    hb: Option<&Heartbeat>,
) -> (r: Vec<String>)
    ensures
        texts_of(r@) == seq![hello_text(owner@, epoch_secs, tz_offset_secs)] + (match hb {
            Some(h) => seq![line_of(heartbeat_json(*h))],
            None => Seq::empty(),
        }),
{
    let hello = build_hello(owner, epoch_secs, tz_offset_secs);
    let ghost first = hello_text(owner@, epoch_secs, tz_offset_secs);
    let mut r: Vec<String> = Vec::new();
    r.push(hello_line(&hello));
    assert(hello_fields(hello.hello) =~= greeting_fields(owner@, epoch_secs, tz_offset_secs));
    match hb {
        Some(h) => {
            r.push(heartbeat_line(h));
            assert(texts_of(r@) =~= seq![first] + seq![line_of(heartbeat_json(*h))]);
        },
        None => {
            assert(texts_of(r@) =~= seq![first] + Seq::<Seq<char>>::empty());
        },
    }
    r
}

/// What a greeting holds.
pub open spec fn greeting_fields(owner: Seq<char>, epoch_secs: i64, tz_offset_secs: i32) -> Seq<
    (Seq<char>, Option<JsonValue>),
> {
    seq![
        ("version"@, Some(JsonValue::Unsigned(1))),
        ("owner"@, Some(JsonValue::Str(owner))),
        (
            "time"@,
            Some(
                JsonValue::Array(
                    seq![int_json(epoch_secs as int), int_json(tz_offset_secs as int)],
                ),
            ),
        ),
    ]
}

/// The line of a greeting.
pub open spec fn hello_text(owner: Seq<char>, epoch_secs: i64, tz_offset_secs: i32) -> Seq<char> {
    line_of(
        JsonValue::Object(
            present(
                seq![
                    (
                        "hello"@,
                        Some(
                            JsonValue::Object(
                                present(greeting_fields(owner, epoch_secs, tz_offset_secs)),
                            ),
                        ),
                    ),
                ],
            ),
        ),
    )
}

/// What a client is told of a heartbeat after that: its line, while it is
/// subscribed to heartbeats.
pub fn streamed_line(topics: &Subscriptions, hb: &Heartbeat) -> (r: Option<String>)
    ensures
        r is Some <==> topics.has(Topic::Heartbeat),
        r matches Some(line) ==> line@ == line_of(heartbeat_json(*hb)),
{
    if topics.contains(Topic::Heartbeat) {
        Some(heartbeat_line(hb))
    } else {
        None
    }
}

/// The owner that a greeting names: the name in the version control's settings,
/// or else the user's, or else `unknown`.
pub fn resolve_owner(git_user_name: Option<&str>, user: Option<&str>) -> (r: String)
    ensures
        r@ == (match git_user_name {
            Some(name) if trim_of(name@).len() > 0 => trim_of(name@),
            _ => match user {
                Some(u) if u@.len() > 0 => u@,
                _ => "unknown"@,
            },
        }),
{
    if let Some(name) = git_user_name {
        let kept = trim(name);
        if !kept.is_empty() {
            return kept.to_owned();
        }
    }
    if let Some(u) = user {
        if !u.is_empty() {
            return u.to_owned();
        }
    }
    "unknown".to_owned()
}

// ---------------------------------------------------------------------------
// Laws of subscriptions.

/// After subscribing to topics they are subscribed to, and the others are as
/// before; doing so twice is doing so once.
pub proof fn law_subscribe_adds(before: Subscriptions, topics: Seq<Topic>, t: Topic)
    ensures
        topics.contains(t) ==> subscribed_after(before, CommandValue::Subscribe { topics }, t),
        !topics.contains(t) ==> subscribed_after(before, CommandValue::Subscribe { topics }, t)
            == before.has(t),
{
}

/// Unsubscribing takes back what subscribing added.
pub proof fn law_unsubscribe_takes_back(
    before: Subscriptions,
    between: Subscriptions,
    topics: Seq<Topic>,
    t: Topic,
)
    requires
        forall|u: Topic|
            #[trigger] between.has(u) == subscribed_after(before, CommandValue::Subscribe { topics }, u),
        topics.contains(t),
    ensures
        !subscribed_after(between, CommandValue::Unsubscribe { topics }, t),
{
}

} // verus!
