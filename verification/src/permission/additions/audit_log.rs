//! The log of additions: one JSON object to a line, behind older lines of
//! tab-separated columns.

use vstd::prelude::*;
use crate::assoc::{keys_distinct, lemma_index_unique, lemma_lookup_at};
use crate::json::{
    is_canonical, is_shallow, json_members, lemma_object_view, Json, JsonValue,
};
use crate::json_form::{names_of, read_record, record};
use crate::outside::{json_print, json_text, parse_json, print_json, MAX_DEPTH};
use crate::permission::additions::target::{AuditTarget, TargetValue};
use crate::proto::hook::{copy_text, optional_text, text_of};
use crate::setup::opt_text;
use crate::text::{
    has_prefix, join2, lemma_first_index_unique, lemma_pieces_append, lemma_trim_idle, pieces,
    pieces_up_to, split, split_up_to, str_eq, strip_prefix, take_of, texts_of, trim, trim_of,
};
use crate::util::{base_dir, bridge_file, bridge_path, short_session_id, xdg_state_dir};

verus! {

/// Where an addition came from.
#[derive(Debug, Clone, PartialEq, Eq)]
pub struct AdditionMetadata {
    pub tool_use_id: String,
    pub session_id: String,
    pub agent_type: Option<String>,
}

/// One entry of the log, whatever its form on disk.
#[derive(Debug, PartialEq, Eq)]
pub struct AuditEntry {
    /// `added` or `undone`.
    pub op: String,
    pub pattern: String,
    pub tool_use_id: String,
    pub session_id: String,
    pub agent_type: Option<String>,
    pub target: AuditTarget,
}

/// What an [`AuditEntry`] stands for.
#[verifier::ext_equal]
pub struct EntryValue {
    pub op: Seq<char>,
    pub pattern: Seq<char>,
    pub tool_use_id: Seq<char>,
    pub session_id: Seq<char>,
    pub agent_type: Option<Seq<char>>,
    pub target: TargetValue,
}

impl View for AuditEntry {
    type V = EntryValue;

    open spec fn view(&self) -> EntryValue {
        EntryValue {
            op: self.op@,
            pattern: self.pattern@,
            tool_use_id: self.tool_use_id@,
            session_id: self.session_id@,
            agent_type: text_of(self.agent_type),
            target: self.target@,
        }
    }
}

impl AuditEntry {
    pub fn op_str(&self) -> (r: &str)
        ensures
            r@ == self.op@,
    {
        self.op.as_str()
    }
}

/// A line of the log as it is written today.
#[derive(Debug, PartialEq, Eq)]
pub struct AuditLogRow {
    pub ts: String,
    pub op: String,
    pub pattern: String,
    pub tool_use_id: String,
    pub session_id: String,
    pub agent: Option<String>,
    pub target: AuditTarget,
}

/// The path of the log, from `XDG_STATE_HOME` and `HOME`.
pub fn audit_log_path(xdg_state_home: Option<&str>, home: Option<&str>) -> (r: Option<String>)
    ensures
        text_of(r) == bridge_file(
            base_dir(opt_text(xdg_state_home), opt_text(home), ".local/state"@),
            "allowlist-additions.log"@,
        ),
{
    bridge_path(xdg_state_dir(xdg_state_home, home), "allowlist-additions.log")
}

// ---------------------------------------------------------------------------
// JSON rows.

/// A target as JSON.
pub open spec fn target_json(target: TargetValue) -> JsonValue {
    match target {
        TargetValue::ProjectLocal { root } => JsonValue::Object(
            seq![("project_local"@, JsonValue::Object(seq![("root"@, JsonValue::Str(root))]))],
        ),
        TargetValue::UserGlobal => JsonValue::Str("user_global"@),
        TargetValue::Unknown => JsonValue::Str("unknown"@),
    }
}

/// The target that JSON stands for. Names that are not known stand for an
/// unknown target, so that a log of a newer version can still be read.
pub open spec fn target_value(v: JsonValue) -> Option<TargetValue> {
    match v {
        JsonValue::Str(name) => if name == "project_local"@ {
            None
        } else if name == "user_global"@ {
            Some(TargetValue::UserGlobal)
        } else {
            Some(TargetValue::Unknown)
        },
        JsonValue::Object(members) => if members.len() != 1 {
            None
        } else if members[0].0 == "project_local"@ {
            match record(members[0].1, seq!["root"@]).get_str("root"@) {
                Some(root) => Some(TargetValue::ProjectLocal { root }),
                None => None,
            }
        } else if members[0].1 != JsonValue::Null {
            None
        } else if members[0].0 == "user_global"@ {
            Some(TargetValue::UserGlobal)
        } else {
            Some(TargetValue::Unknown)
        },
        _ => None,
    }
}

/// The members of a row.
pub open spec fn row_members(ts: Seq<char>, e: EntryValue) -> Seq<(Seq<char>, JsonValue)> {
    let head = seq![
        ("ts"@, JsonValue::Str(ts)),
        ("op"@, JsonValue::Str(e.op)),
        ("pattern"@, JsonValue::Str(e.pattern)),
        ("tool_use_id"@, JsonValue::Str(e.tool_use_id)),
        ("session_id"@, JsonValue::Str(e.session_id)),
    ];
    let tail = seq![("target"@, target_json(e.target))];
    match e.agent_type {
        Some(agent) => head.push(("agent"@, JsonValue::Str(agent))) + tail,
        None => head + tail,
    }
}

/// A row as JSON.
pub open spec fn row_json(ts: Seq<char>, e: EntryValue) -> JsonValue {
    JsonValue::Object(row_members(ts, e))
}

/// The fields of a row, in order.
pub open spec fn row_names() -> Seq<Seq<char>> {
    seq!["ts"@, "op"@, "pattern"@, "tool_use_id"@, "session_id"@, "agent"@, "target"@]
}

/// The entry that a JSON row stands for, if it has all its fields: under their
/// names, or in order.
pub open spec fn row_entry(row: JsonValue) -> Option<EntryValue> {
    let v = record(row, row_names());
    if v.get_str("ts"@) is Some && v.get_str("op"@) is Some && v.get_str("pattern"@) is Some
        && v.get_str("tool_use_id"@) is Some && v.get_str("session_id"@) is Some && optional_text(
        v,
        "agent"@,
    ) is Some && v.get("target"@) is Some && target_value(v.get("target"@)->0) is Some {
        Some(
            EntryValue {
                op: v.get_str("op"@)->0,
                pattern: v.get_str("pattern"@)->0,
                tool_use_id: v.get_str("tool_use_id"@)->0,
                session_id: v.get_str("session_id"@)->0,
                agent_type: optional_text(v, "agent"@)->0,
                target: target_value(v.get("target"@)->0)->0,
            },
        )
    } else {
        None
    }
}

fn target_from_json(v: &Json) -> (r: Option<AuditTarget>)
    ensures
        match r {
            Some(t) => target_value(v@) == Some(t@),
            None => target_value(v@) is None,
        },
{
    match v {
        Json::Str(name) => {
            if str_eq(name.as_str(), "project_local") {
                None
            } else if str_eq(name.as_str(), "user_global") {
                Some(AuditTarget::UserGlobal)
            } else {
                Some(AuditTarget::Unknown)
            }
        },
        Json::Object(members) => {
            proof {
                lemma_object_view(*members);
            }
            if members.len() != 1 {
                return None;
            }
            assert(v@->Object_0[0] == (members@[0].0@, members@[0].1@));
            let name = members[0].0.as_str();
            if str_eq(name, "project_local") {
                let names = vec!["root"];
                assert(names_of(names@) =~= seq!["root"@]);
                let content = read_record(&members[0].1, &names);
                match content.get_str("root") {
                    Some(root) => Some(AuditTarget::ProjectLocal { root: root.to_owned() }),
                    None => None,
                }
            } else {
                match &members[0].1 {
                    Json::Null => {
                        if str_eq(name, "user_global") {
                            Some(AuditTarget::UserGlobal)
                        } else {
                            Some(AuditTarget::Unknown)
                        }
                    },
                    _ => None,
                }
            }
        },
        _ => None,
    }
}

fn target_to_json(target: &AuditTarget) -> (r: Json)
    ensures
        r@ == target_json(target@),
{
    match target {
        AuditTarget::ProjectLocal { root } => {
            let mut inner: Vec<(String, Json)> = Vec::new();
            inner.push(("root".to_owned(), Json::Str(root.clone())));
            proof {
                lemma_object_view(inner);
                assert(json_members(inner@) =~= seq![("root"@, JsonValue::Str(root@))]);
            }
            let mut outer: Vec<(String, Json)> = Vec::new();
            let ghost held = Json::Object(inner)@;
            outer.push(("project_local".to_owned(), Json::Object(inner)));
            proof {
                lemma_object_view(outer);
                assert(json_members(outer@) =~= seq![("project_local"@, held)]);
            }
            Json::Object(outer)
        },
        AuditTarget::UserGlobal => Json::Str("user_global".to_owned()),
        AuditTarget::Unknown => Json::Str("unknown".to_owned()),
    }
}

impl AuditLogRow {
    pub open spec fn entry(self) -> EntryValue {
        EntryValue {
            op: self.op@,
            pattern: self.pattern@,
            tool_use_id: self.tool_use_id@,
            session_id: self.session_id@,
            agent_type: text_of(self.agent),
            target: self.target@,
        }
    }

    pub fn into_entry(self) -> (r: AuditEntry)
        ensures
            r@ == self.entry(),
    {
        AuditEntry {
            op: self.op,
            pattern: self.pattern,
            tool_use_id: self.tool_use_id,
            session_id: self.session_id,
            agent_type: self.agent,
            target: self.target,
        }
    }

    /// Reads a row from JSON, if it has all its fields.
    pub fn from_json(row: &Json) -> (r: Option<AuditLogRow>)
        ensures
            match r {
                Some(r) => row_entry(row@) == Some(r.entry()) && record(row@, row_names()).get_str(
                    "ts"@,
                ) == Some(r.ts@),
                None => row_entry(row@) is None,
            },
    {
        let names = vec!["ts", "op", "pattern", "tool_use_id", "session_id", "agent", "target"];
        assert(names_of(names@) =~= row_names());
        let v = read_record(row, &names);
        let agent = match v.get("agent") {
            None => None,
            Some(Json::Null) => None,
            Some(Json::Str(t)) => Some(t.clone()),
            Some(_) => {
                return None;
            },
        };
        let target = match v.get("target") {
            Some(t) => match target_from_json(t) {
                Some(target) => target,
                None => {
                    return None;
                },
            },
            None => {
                return None;
            },
        };
        match (
            v.get_str("ts"),
            v.get_str("op"),
            v.get_str("pattern"),
            v.get_str("tool_use_id"),
            v.get_str("session_id"),
        ) {
            (Some(ts), Some(op), Some(pattern), Some(tool_use_id), Some(session_id)) => Some(
                AuditLogRow {
                    ts: ts.to_owned(),
                    op: op.to_owned(),
                    pattern: pattern.to_owned(),
                    tool_use_id: tool_use_id.to_owned(),
                    session_id: session_id.to_owned(),
                    agent,
                    target,
                },
            ),
            _ => None,
        }
    }

    /// The row as JSON.
    pub fn to_json(&self) -> (r: Json)
        ensures
            r@ == row_json(self.ts@, self.entry()),
    {
        let mut members: Vec<(String, Json)> = Vec::new();
        members.push(("ts".to_owned(), Json::Str(self.ts.clone())));
        members.push(("op".to_owned(), Json::Str(self.op.clone())));
        members.push(("pattern".to_owned(), Json::Str(self.pattern.clone())));
        members.push(("tool_use_id".to_owned(), Json::Str(self.tool_use_id.clone())));
        members.push(("session_id".to_owned(), Json::Str(self.session_id.clone())));
        if let Some(agent) = &self.agent {
            members.push(("agent".to_owned(), Json::Str(agent.clone())));
        }
        members.push(("target".to_owned(), target_to_json(&self.target)));
        proof {
            lemma_object_view(members);
            assert(json_members(members@) =~= row_members(self.ts@, self.entry()));
        }
        Json::Object(members)
    }
}

// ---------------------------------------------------------------------------
// Old lines.

/// The entry of an old line, if it has at least three columns.
pub open spec fn tsv_entry(line: Seq<char>) -> Option<EntryValue> {
    let cols = pieces_up_to(line, '\t', 7);
    if cols.len() < 3 {
        None
    } else {
        Some(
            EntryValue {
                op: cols[1],
                pattern: cols[2],
                tool_use_id: if cols.len() > 3 {
                    cols[3]
                } else {
                    Seq::empty()
                },
                session_id: if cols.len() > 4 {
                    cols[4]
                } else {
                    Seq::empty()
                },
                agent_type: if cols.len() > 5 && cols[5].len() > 0 {
                    Some(cols[5])
                } else {
                    None
                },
                target: if cols.len() > 6 && has_prefix(cols[6], "project:"@) {
                    TargetValue::ProjectLocal {
                        root: cols[6].subrange("project:"@.len() as int, cols[6].len() as int),
                    }
                } else {
                    TargetValue::UserGlobal
                },
            },
        )
    }
}

/// Reads an old line.
pub fn parse_tsv_audit_line(line: &str) -> (r: Option<AuditEntry>)
    ensures
        match r {
            Some(e) => tsv_entry(line@) == Some(e@),
            None => tsv_entry(line@) is None,
        },
{
    let cols = split_up_to(line, '\t', 7);
    let ghost all = texts_of(cols@);
    assert(forall|i: int| 0 <= i < cols@.len() ==> all[i] == (#[trigger] cols@[i])@);
    if cols.len() < 3 {
        return None;
    }
    let tool_use_id = if cols.len() > 3 {
        cols[3].clone()
    } else {
        String::new()
    };
    let session_id = if cols.len() > 4 {
        cols[4].clone()
    } else {
        String::new()
    };
    let agent_type = if cols.len() > 5 && !cols[5].as_str().is_empty() {
        Some(cols[5].clone())
    } else {
        None
    };
    let target = if cols.len() > 6 {
        match strip_prefix(cols[6].as_str(), "project:") {
            Some(root) => AuditTarget::ProjectLocal { root: root.to_owned() },
            None => AuditTarget::UserGlobal,
        }
    } else {
        AuditTarget::UserGlobal
    };
    Some(
        AuditEntry {
            op: cols[1].clone(),
            pattern: cols[2].clone(),
            tool_use_id,
            session_id,
            agent_type,
            target,
        },
    )
}

// ---------------------------------------------------------------------------
// The log as a whole.

/// The entry of a line; lines that cannot be read are skipped.
pub open spec fn line_entry(line: Seq<char>) -> Option<EntryValue> {
    let kept = trim_of(line);
    if kept.len() == 0 {
        None
    } else if kept[0] == '{' {
        match json_text(kept) {
            Some(v) => row_entry(v),
            None => None,
        }
    } else {
        tsv_entry(kept)
    }
}

pub open spec fn line_entries(lines: Seq<Seq<char>>) -> Seq<EntryValue>
    decreases lines.len(),
{
    if lines.len() == 0 {
        Seq::empty()
    } else {
        let before = line_entries(lines.drop_last());
        match line_entry(lines.last()) {
            Some(e) => before.push(e),
            None => before,
        }
    }
}

/// The entries of the log's text, in order.
pub open spec fn log_entries(text: Seq<char>) -> Seq<EntryValue> {
    line_entries(pieces(text, '\n'))
}

/// Whether two entries speak of the same addition.
pub open spec fn same_addition(a: EntryValue, b: EntryValue) -> bool {
    a.pattern == b.pattern && a.tool_use_id == b.tool_use_id
}

/// How many of the undos among `entries` still wait for an earlier addition like
/// `e` to take back.
pub open spec fn open_undos(entries: Seq<EntryValue>, e: EntryValue) -> nat
    decreases entries.len(),
{
    if entries.len() == 0 {
        0
    } else {
        let later = open_undos(entries.subrange(1, entries.len() as int), e);
        let first = entries[0];
        if !same_addition(first, e) {
            later
        } else if first.op == "undone"@ {
            later + 1
        } else if first.op == "added"@ && later > 0 {
            (later - 1) as nat
        } else {
            later
        }
    }
}

/// Whether the entry at `i` is an addition that nothing behind it takes back,
/// and that was written to a known place.
pub open spec fn stands(entries: Seq<EntryValue>, i: int) -> bool {
    &&& 0 <= i < entries.len()
    &&& entries[i].op == "added"@
    &&& entries[i].target != TargetValue::Unknown
    &&& open_undos(entries.subrange(i + 1, entries.len() as int), entries[i]) == 0
}

/// Whether `i` is the last addition that stands.
pub open spec fn last_standing(entries: Seq<EntryValue>, i: int) -> bool {
    stands(entries, i) && forall|j: int| i < j ==> !#[trigger] stands(entries, j)
}

pub open spec fn entry_values(entries: Seq<AuditEntry>) -> Seq<EntryValue> {
    entries.map_values(|e: AuditEntry| e@)
}

fn parse_line(line: &str) -> (r: Option<AuditEntry>)
    ensures
        match r {
            Some(e) => line_entry(line@) == Some(e@),
            None => line_entry(line@) is None,
        },
{
    let kept = trim(line);
    if kept.is_empty() {
        return None;
    }
    if kept.get_char(0) == '{' {
        match parse_json(kept) {
            Some(v) => match AuditLogRow::from_json(&v) {
                Some(row) => Some(row.into_entry()),
                None => None,
            },
            None => None,
        }
    } else {
        parse_tsv_audit_line(kept)
    }
}

/// The entries of the log's text, in order.
pub fn parse_log(text: &str) -> (r: Vec<AuditEntry>)
    ensures
        entry_values(r@) == log_entries(text@),
{
    let lines = split(text, '\n');
    let ghost all = texts_of(lines@);
    let mut r: Vec<AuditEntry> = Vec::new();
    let mut i: usize = 0;
    assert(entry_values(r@) =~= line_entries(all.take(0)));
    while i < lines.len()
        invariant
            i <= lines@.len(),
            all == texts_of(lines@),
            entry_values(r@) == line_entries(all.take(i as int)),
        decreases lines@.len() - i,
    {
        assert(all.take(i + 1).drop_last() =~= all.take(i as int));
        assert(all.take(i + 1).last() == lines@[i as int]@);
        let ghost before = r@;
        if let Some(e) = parse_line(lines[i].as_str()) {
            r.push(e);
            assert(entry_values(r@) =~= entry_values(before).push(e@));
        }
        i = i + 1;
    }
    assert(all.take(i as int) =~= all);
    r
}

/// Counts the undos behind position `from` that are still open for `e`.
fn count_open_undos(entries: &Vec<AuditEntry>, from: usize, e: &AuditEntry) -> (n: usize)
    requires
        from <= entries@.len(),
    ensures
        n == open_undos(entry_values(entries@).subrange(from as int, entries@.len() as int), e@),
{
    let ghost all = entry_values(entries@);
    let mut n: usize = 0;
    let mut i: usize = entries.len();
    assert(all.subrange(i as int, all.len() as int) =~= Seq::empty());
    while i > from
        invariant
            from <= i <= entries@.len(),
            all == entry_values(entries@),
            entries.len() == entries@.len(),
            n <= entries@.len() - i,
            n == open_undos(all.subrange(i as int, all.len() as int), e@),
        decreases i,
    {
        let ghost rest = all.subrange(i - 1, all.len() as int);
        assert(rest.subrange(1, rest.len() as int) =~= all.subrange(i as int, all.len() as int));
        assert(rest[0] == entries@[i - 1]@);
        let first = &entries[i - 1];
        if str_eq(first.pattern.as_str(), e.pattern.as_str()) && str_eq(
            first.tool_use_id.as_str(),
            e.tool_use_id.as_str(),
        ) {
            if str_eq(first.op_str(), "undone") {
                n = n + 1;
            } else if str_eq(first.op_str(), "added") && n > 0 {
                n = n - 1;
            }
        }
        i = i - 1;
    }
    n
}

/// The last addition of these entries that nothing behind it takes back.
pub fn last_addition(entries: Vec<AuditEntry>) -> (r: Option<AuditEntry>)
    ensures
        match r {
            Some(e) => exists|i: int|
                #[trigger] last_standing(entry_values(entries@), i) && entry_values(entries@)[i] == e@,
            None => forall|i: int| !#[trigger] stands(entry_values(entries@), i),
        },
{
    let ghost all = entry_values(entries@);
    let mut left = entries;
    let mut i: usize = left.len();
    while i > 0
        invariant
            i <= left@.len(),
            all == entry_values(left@),
            all == entry_values(entries@),
            forall|j: int| i <= j ==> !#[trigger] stands(all, j),
        decreases i,
    {
        let k: usize = i - 1;
        let known = match &left[k].target {
            AuditTarget::Unknown => false,
            _ => true,
        };
        assert(all[k as int] == left@[k as int]@);
        if str_eq(left[k].op_str(), "added") && known && count_open_undos(&left, i, &left[k])
            == 0 {
            assert(stands(all, k as int));
            assert(last_standing(all, k as int));
            let e = left.remove(k);
            return Some(e);
        }
        assert(!stands(all, k as int));
        i = i - 1;
    }
    None
}

/// The last addition of the log that nothing behind it takes back. An addition
/// that was taken back and then made again is found. Without a log there is
/// none.
pub fn find_last_undone_addition(log: Option<&str>) -> (r: Option<AuditEntry>)
    ensures
        match log {
            None => r is None,
            Some(text) => match r {
                Some(e) => exists|i: int|
                    #[trigger] last_standing(log_entries(text@), i) && log_entries(text@)[i] == e@,
                None => forall|i: int| !#[trigger] stands(log_entries(text@), i),
            },
        },
{
    match log {
        None => None,
        Some(text) => last_addition(parse_log(text)),
    }
}

// ---------------------------------------------------------------------------
// Writing.

/// The entry that is logged for an addition or an undo.
pub open spec fn logged_entry(
    op: Seq<char>,
    pattern: Seq<char>,
    metadata: AdditionMetadata,
    target: TargetValue,
) -> EntryValue {
    EntryValue {
        op,
        pattern,
        tool_use_id: metadata.tool_use_id@,
        session_id: take_of(metadata.session_id@, 6),
        agent_type: text_of(metadata.agent_type),
        target,
    }
}

/// Whether a log that gets `line` appended reads as before, with `e` at its end.
pub open spec fn appends(line: Seq<char>, e: EntryValue) -> bool {
    forall|text: Seq<char>|
        text.len() == 0 || text.last() == '\n' ==> #[trigger] log_entries(text + line) == log_entries(
            text,
        ).push(e)
}

pub proof fn lemma_row_keys(ts: Seq<char>, e: EntryValue)
    ensures
        keys_distinct(row_members(ts, e)),
        ({
            let v = row_json(ts, e);
            &&& v.get("ts"@) == Some(JsonValue::Str(ts))
            &&& v.get("op"@) == Some(JsonValue::Str(e.op))
            &&& v.get("pattern"@) == Some(JsonValue::Str(e.pattern))
            &&& v.get("tool_use_id"@) == Some(JsonValue::Str(e.tool_use_id))
            &&& v.get("session_id"@) == Some(JsonValue::Str(e.session_id))
            &&& v.get("target"@) == Some(target_json(e.target))
            &&& v.get("agent"@) == match e.agent_type {
                Some(agent) => Some(JsonValue::Str(agent)),
                None => None,
            }
        }),
{
    reveal_strlit("ts");
    reveal_strlit("op");
    reveal_strlit("pattern");
    reveal_strlit("tool_use_id");
    reveal_strlit("session_id");
    reveal_strlit("agent");
    reveal_strlit("target");
    assert("ts"@[0] == 't' && "op"@[0] == 'o');
    assert("ts"@.len() == 2 && "op"@.len() == 2 && "pattern"@.len() == 7 && "tool_use_id"@.len() == 11
        && "session_id"@.len() == 10 && "agent"@.len() == 5 && "target"@.len() == 6);
    let m = row_members(ts, e);
    assert(m[0].0 == "ts"@ && m[1].0 == "op"@ && m[2].0 == "pattern"@ && m[3].0 == "tool_use_id"@
        && m[4].0 == "session_id"@);
    match e.agent_type {
        Some(agent) => {
            assert(m[5].0 == "agent"@ && m[6].0 == "target"@ && m.len() == 7);
            lemma_lookup_at(m, 5);
            lemma_lookup_at(m, 6);
        },
        None => {
            assert(m[5].0 == "target"@ && m.len() == 6);
            lemma_lookup_at(m, 5);
            lemma_index_unique(m, "agent"@, 6);
        },
    }
    lemma_lookup_at(m, 0);
    lemma_lookup_at(m, 1);
    lemma_lookup_at(m, 2);
    lemma_lookup_at(m, 3);
    lemma_lookup_at(m, 4);
}

/// A row reads back as the entry it was written for.
pub proof fn law_row_reads_back(ts: Seq<char>, e: EntryValue)
    ensures
        row_entry(row_json(ts, e)) == Some(e),
{
    lemma_row_keys(ts, e);
    reveal_strlit("user_global");
    reveal_strlit("project_local");
    reveal_strlit("unknown");
    assert("user_global"@.len() == 11 && "project_local"@.len() == 13 && "unknown"@.len() == 7);
    match e.target {
        TargetValue::ProjectLocal { root } => {
            let outer = target_json(e.target)->Object_0;
            let inner = outer[0].1->Object_0;
            assert(inner[0].0 == "root"@);
            lemma_index_unique(inner, "root"@, 0);
            assert(outer.len() == 1);
            assert(outer[0].1.get_str("root"@) == Some(root));
            assert(target_value(target_json(e.target)) == Some(e.target));
        },
        _ => {},
    }
}

proof fn lemma_row_printable(ts: Seq<char>, e: EntryValue)
    ensures
        is_canonical(row_json(ts, e)),
        is_shallow(row_json(ts, e), MAX_DEPTH as nat),
{
    lemma_row_keys(ts, e);
    reveal_with_fuel(is_canonical, 4);
    reveal_with_fuel(is_shallow, 4);
    let m = row_members(ts, e);
    assert(is_canonical(target_json(e.target)));
    assert forall|i: int| 0 <= i < m.len() implies #[trigger] is_canonical(m[i].1) by {}
    assert(is_shallow(target_json(e.target), (MAX_DEPTH - 1) as nat));
    assert forall|i: int| 0 <= i < m.len() implies #[trigger] is_shallow(
        m[i].1,
        (MAX_DEPTH - 1) as nat,
    ) by {}
}

proof fn lemma_appends(line: Seq<char>, e: EntryValue)
    requires
        line.len() > 0,
        !line.contains('\n'),
        line_entry(line) == Some(e),
    ensures
        appends(line.push('\n'), e),
{
    let full = line.push('\n');
    assert forall|text: Seq<char>| text.len() == 0 || text.last() == '\n' implies #[trigger] log_entries(
        text + full,
    ) == log_entries(text).push(e) by {
        lemma_pieces_append(text, full, '\n');
        assert forall|i: int| 0 <= i < line.len() implies full[i] != '\n' by {
            assert(full[i] == line[i]);
            assert(line.contains(line[i]));
        }
        lemma_first_index_unique(full, '\n', line.len());
        let rest = full.subrange(line.len() as int + 1, full.len() as int);
        assert(rest =~= Seq::<char>::empty());
        assert(pieces(rest, '\n') =~= seq![rest]);
        assert(full.subrange(0, line.len() as int) =~= line);
        assert(pieces(full, '\n') =~= seq![line, rest]);
        let before = pieces(text, '\n').drop_last();
        let all = pieces(text + full, '\n');
        assert(all =~= before + seq![line, rest]);
        // The empty piece behind the last line feed has no entry.
        assert(trim_of(rest).len() == 0) by {
            lemma_trim_idle(rest);
        }
        assert(line_entry(rest) is None);
        assert(all.drop_last() =~= before.push(line));
        assert(all.drop_last().drop_last() =~= before);
        assert(line_entries(all) == line_entries(all.drop_last()));
        assert(line_entries(all.drop_last()) == line_entries(before).push(e));
        assert(pieces(text, '\n').last() == rest);
        assert(line_entries(pieces(text, '\n')) == line_entries(before));
    }
}

/// The line that is appended to the log for an addition or an undo.
pub fn audit_line(
    ts: &str,
    op: &str,
    pattern: &str,
    metadata: &AdditionMetadata,
    target: &AuditTarget,
) -> (r: String)
    ensures
        r@ == json_print(row_json(ts@, logged_entry(op@, pattern@, *metadata, target@))).push('\n'),
        appends(r@, logged_entry(op@, pattern@, *metadata, target@)),
{
    let row = AuditLogRow {
        ts: ts.to_owned(),
        op: op.to_owned(),
        pattern: pattern.to_owned(),
        tool_use_id: metadata.tool_use_id.clone(),
        session_id: short_session_id(metadata.session_id.as_str()),
        agent: copy_text(&metadata.agent_type),
        target: target.clone(),
    };
    let ghost e = logged_entry(op@, pattern@, *metadata, target@);
    assert(row.entry() == e);
    let json = row.to_json();
    proof {
        lemma_row_printable(ts@, e);
        law_row_reads_back(ts@, e);
    }
    let line = print_json(&json);
    proof {
        lemma_trim_idle(line@);
        assert(line_entry(line@) == Some(e));
        lemma_appends(line@, e);
        reveal_strlit("\n");
        assert(line@ + "\n"@ =~= line@.push('\n'));
    }
    join2(line.as_str(), "\n")
}

// ---------------------------------------------------------------------------
// Laws of the log.

/// An addition that was just logged is the last one that stands.
pub proof fn law_added_is_found(entries: Seq<EntryValue>, e: EntryValue)
    requires
        e.op == "added"@,
        e.target != TargetValue::Unknown,
    ensures
        last_standing(entries.push(e), entries.len() as int),
{
    let all = entries.push(e);
    let i = entries.len() as int;
    assert(all.subrange(i + 1, all.len() as int) =~= Seq::empty());
    assert(stands(all, i));
}

/// Taking back the addition that was just logged leaves the additions that stood
/// before it, and no other.
pub proof fn law_undo_takes_back_last(
    entries: Seq<EntryValue>,
    added: EntryValue,
    undone: EntryValue,
    i: int,
)
    requires
        added.op == "added"@,
        undone.op == "undone"@,
        same_addition(added, undone),
    ensures
        stands(entries.push(added).push(undone), i) <==> stands(entries, i),
{
    let all = entries.push(added).push(undone);
    reveal_strlit("added");
    reveal_strlit("undone");
    assert("added"@[0] == 'a' && "undone"@[0] == 'u');
    if 0 <= i < entries.len() {
        let e = entries[i];
        let before = entries.subrange(i + 1, entries.len() as int);
        assert(all.subrange(i + 1, all.len() as int) =~= before.push(added).push(undone));
        lemma_balanced_tail(before, added, undone, e);
    } else if i == entries.len() {
        let tail = all.subrange(i + 1, all.len() as int);
        assert(tail =~= seq![undone]);
        assert(tail.subrange(1, 1) =~= Seq::empty());
        assert(open_undos(tail.subrange(1, 1), added) == 0);
        assert(open_undos(tail, added) == 1);
    }
}

proof fn lemma_balanced_tail(
    before: Seq<EntryValue>,
    added: EntryValue,
    undone: EntryValue,
    e: EntryValue,
)
    requires
        added.op == "added"@,
        undone.op == "undone"@,
        "added"@ != "undone"@,
        same_addition(added, undone),
    ensures
        open_undos(before.push(added).push(undone), e) == open_undos(before, e),
    decreases before.len(),
{
    let all = before.push(added).push(undone);
    if before.len() == 0 {
        let tail = all.subrange(1, 2);
        assert(tail =~= seq![undone]);
        assert(tail.subrange(1, 1) =~= Seq::empty());
        assert(open_undos(tail.subrange(1, 1), e) == 0);
        assert(open_undos(tail, e) == if same_addition(undone, e) {
            1nat
        } else {
            0nat
        });
        assert(all.subrange(1, all.len() as int) =~= tail);
        assert(all[0] == added);
    } else {
        let rest = before.subrange(1, before.len() as int);
        assert(all.subrange(1, all.len() as int) =~= rest.push(added).push(undone));
        lemma_balanced_tail(rest, added, undone, e);
    }
}

/// Undos are counted by pattern and call alone.
proof fn lemma_same_undos(entries: Seq<EntryValue>, a: EntryValue, b: EntryValue)
    requires
        same_addition(a, b),
    ensures
        open_undos(entries, a) == open_undos(entries, b),
    decreases entries.len(),
{
    if entries.len() > 0 {
        lemma_same_undos(entries.subrange(1, entries.len() as int), a, b);
    }
}

/// An undo behind entries that take back all additions like it is one more that
/// waits; it does not count for other additions.
proof fn lemma_extra_undo(entries: Seq<EntryValue>, undone: EntryValue, e: EntryValue)
    requires
        undone.op == "undone"@,
        "added"@ != "undone"@,
        same_addition(undone, e) ==> forall|k: int|
            0 <= k < entries.len() && same_addition(#[trigger] entries[k], e) && entries[k].op
                == "added"@ ==> open_undos(
                entries.subrange(k + 1, entries.len() as int),
                entries[k],
            ) > 0,
    ensures
        open_undos(entries.push(undone), e) == open_undos(entries, e) + if same_addition(undone, e) {
            1nat
        } else {
            0nat
        },
    decreases entries.len(),
{
    let all = entries.push(undone);
    if entries.len() == 0 {
        assert(all.subrange(1, 1) =~= Seq::empty());
        assert(open_undos(all.subrange(1, all.len() as int), e) == 0);
    } else {
        let rest = entries.subrange(1, entries.len() as int);
        assert(all.subrange(1, all.len() as int) =~= rest.push(undone));
        assert forall|k: int|
            same_addition(undone, e) && 0 <= k < rest.len() && same_addition(#[trigger] rest[k], e)
                && rest[k].op == "added"@ implies open_undos(
            rest.subrange(k + 1, rest.len() as int),
            rest[k],
        ) > 0 by {
            assert(rest[k] == entries[k + 1]);
            assert(rest.subrange(k + 1, rest.len() as int) =~= entries.subrange(
                k + 2,
                entries.len() as int,
            ));
        }
        lemma_extra_undo(rest, undone, e);
        if same_addition(undone, e) && same_addition(entries[0], e) {
            lemma_same_undos(rest, entries[0], e);
        }
    }
}

/// In front of an addition, it and the undo that takes it back even out.
proof fn lemma_undo_evens_out(
    before: Seq<EntryValue>,
    added: EntryValue,
    behind: Seq<EntryValue>,
    undone: EntryValue,
    e: EntryValue,
)
    requires
        added.op == "added"@,
        undone.op == "undone"@,
        "added"@ != "undone"@,
        same_addition(added, undone),
        open_undos(behind, added) == 0,
        forall|k: int|
            0 <= k < behind.len() && same_addition(#[trigger] behind[k], added) && behind[k].op
                == "added"@ ==> open_undos(behind.subrange(k + 1, behind.len() as int), behind[k])
                > 0,
    ensures
        open_undos((before.push(added) + behind).push(undone), e) == open_undos(
            before.push(added) + behind,
            e,
        ),
    decreases before.len(),
{
    let old_log = before.push(added) + behind;
    let all = old_log.push(undone);
    if before.len() == 0 {
        assert(old_log.subrange(1, old_log.len() as int) =~= behind);
        assert(all.subrange(1, all.len() as int) =~= behind.push(undone));
        assert forall|k: int|
            same_addition(undone, e) && 0 <= k < behind.len() && same_addition(
                #[trigger] behind[k],
                e,
            ) && behind[k].op == "added"@ implies open_undos(
            behind.subrange(k + 1, behind.len() as int),
            behind[k],
        ) > 0 by {
            assert(same_addition(behind[k], added));
        }
        lemma_extra_undo(behind, undone, e);
        if same_addition(added, e) {
            lemma_same_undos(behind, added, e);
        }
    } else {
        let rest = before.subrange(1, before.len() as int);
        assert(old_log.subrange(1, old_log.len() as int) =~= rest.push(added) + behind);
        assert(all.subrange(1, all.len() as int) =~= (rest.push(added) + behind).push(undone));
        lemma_undo_evens_out(rest, added, behind, undone, e);
    }
}

/// Taking back the last addition that stands, wherever it is in the log, leaves
/// the other additions that stood, and no more: the next undo passes it over. The
/// log must not hold a later addition of the same pattern for the same call to a
/// place that is not known and was not taken back, for the undo is counted
/// against that one.
pub proof fn law_undo_passes_over_addition(
    entries: Seq<EntryValue>,
    i: int,
    undone: EntryValue,
    j: int,
)
    requires
        last_standing(entries, i),
        undone.op == "undone"@,
        same_addition(entries[i], undone),
        forall|k: int|
            i < k < entries.len() && same_addition(#[trigger] entries[k], entries[i])
                && entries[k].op == "added"@ ==> open_undos(
                entries.subrange(k + 1, entries.len() as int),
                entries[k],
            ) > 0,
    ensures
        stands(entries.push(undone), j) <==> stands(entries, j) && j != i,
{
    let all = entries.push(undone);
    let added = entries[i];
    let behind = entries.subrange(i + 1, entries.len() as int);
    reveal_strlit("added");
    reveal_strlit("undone");
    assert("added"@[0] == 'a' && "undone"@[0] == 'u');
    assert forall|k: int|
        0 <= k < behind.len() && same_addition(#[trigger] behind[k], added) && behind[k].op
            == "added"@ implies open_undos(behind.subrange(k + 1, behind.len() as int), behind[k])
        > 0 by {
        assert(behind[k] == entries[i + 1 + k]);
        assert(behind.subrange(k + 1, behind.len() as int) =~= entries.subrange(
            i + 1 + k + 1,
            entries.len() as int,
        ));
    }
    if j == i {
        assert(all.subrange(i + 1, all.len() as int) =~= behind.push(undone));
        lemma_extra_undo(behind, undone, added);
    } else if 0 <= j < i {
        let before = entries.subrange(j + 1, i);
        assert(entries.subrange(j + 1, entries.len() as int) =~= before.push(added) + behind);
        assert(all.subrange(j + 1, all.len() as int) =~= (before.push(added) + behind).push(undone));
        lemma_undo_evens_out(before, added, behind, undone, entries[j]);
    } else if i < j < entries.len() {
        assert(!stands(entries, j));
        let e = entries[j];
        let tail = entries.subrange(j + 1, entries.len() as int);
        assert(all.subrange(j + 1, all.len() as int) =~= tail.push(undone));
        assert forall|k: int|
            same_addition(undone, e) && 0 <= k < tail.len() && same_addition(#[trigger] tail[k], e)
                && tail[k].op == "added"@ implies open_undos(
            tail.subrange(k + 1, tail.len() as int),
            tail[k],
        ) > 0 by {
            assert(tail[k] == entries[j + 1 + k]);
            assert(same_addition(entries[j + 1 + k], entries[i]));
            assert(tail.subrange(k + 1, tail.len() as int) =~= entries.subrange(
                j + 1 + k + 1,
                entries.len() as int,
            ));
        }
        lemma_extra_undo(tail, undone, e);
    }
}

/// An addition that was taken back and made again stands again.
pub proof fn law_added_again_is_found(
    entries: Seq<EntryValue>,
    added: EntryValue,
    undone: EntryValue,
)
    requires
        added.op == "added"@,
        undone.op == "undone"@,
        added.target != TargetValue::Unknown,
    ensures
        last_standing(
            entries.push(added).push(undone).push(added),
            entries.len() as int + 2,
        ),
{
    law_added_is_found(entries.push(added).push(undone), added);
}

/// An addition to an unknown place never stands.
pub proof fn law_unknown_target_never_stands(entries: Seq<EntryValue>, i: int)
    requires
        0 <= i < entries.len(),
        entries[i].target == TargetValue::Unknown,
    ensures
        !stands(entries, i),
{
}

} // verus!
