//! Desktop notifications: one for each session that waits, replaced in place,
//! and what the user's clicks mean.

use vstd::prelude::*;
use crate::agent::{AgentNames, NamesValue};
use crate::assoc::{
    erase, has_key, index_of, keys_distinct, lemma_erase, lemma_index_of, lemma_put, lookup, put,
    IdTable, Table, TextSet,
};
use crate::emit::display::{format_token_count, short_cwd, shorten_cwd_with_home, token_count_text};
use crate::outside::{quote, quoted};
use crate::proto::buddy::{Heartbeat, MatchSource, PromptInfo, WireDecision};
use crate::proto::hook::{copy_text, text_of};
use crate::state::{prompt_values, PromptValue, TurnDoneEvent};
use crate::text::{join2, join3, str_eq, take_of, texts_of};
use crate::util::short_session_id;

verus! {

/// A notification on the screen.
#[derive(Debug)]
pub struct ActiveNotif {
    pub session_id: String,
    pub kind: ActiveKind,
}

#[derive(Debug)]
pub enum ActiveKind {
    /// A prompt with buttons, for this tool call.
    Approval { tool_use_id: String },
    /// A finished turn, without buttons.
    TurnDone,
}

/// What an [`ActiveNotif`] stands for: its session, and the call it asks about.
#[verifier::ext_equal]
pub struct ActiveValue {
    pub session_id: Seq<char>,
    pub asks_about: Option<Seq<char>>,
}

impl View for ActiveNotif {
    type V = ActiveValue;

    open spec fn view(&self) -> ActiveValue {
        ActiveValue {
            session_id: self.session_id@,
            asks_about: match self.kind {
                ActiveKind::Approval { tool_use_id } => Some(tool_use_id@),
                ActiveKind::TurnDone => None,
            },
        }
    }
}

/// What is on the screen, and what the user has dismissed.
#[derive(Debug)]
pub struct NotifyState {
    /// The notifications on the screen, by their number.
    pub active: IdTable<ActiveNotif>,
    /// The notification of each session; a new one takes its place.
    pub session_notif: Table<u32>,
    /// The calls whose prompt is not to be shown again.
    pub dismissed: TextSet,
    /// The call that each session was last asked about.
    pub last_prompt_ids: Table<String>,
    /// A click on an unknown notification was explained once.
    pub first_stale_click_seen: bool,
}

/// What a [`NotifyState`] stands for.
#[verifier::ext_equal]
pub struct NotifyValue {
    pub active: Seq<(u32, ActiveValue)>,
    pub session_notif: Seq<(Seq<char>, u32)>,
    pub dismissed: Set<Seq<char>>,
    pub last_prompt_ids: Seq<(Seq<char>, Seq<char>)>,
    pub stale_seen: bool,
}

impl View for NotifyState {
    type V = NotifyValue;

    open spec fn view(&self) -> NotifyValue {
        NotifyValue {
            active: self.active@,
            session_notif: self.session_notif@,
            dismissed: self.dismissed@,
            last_prompt_ids: self.last_prompt_ids@,
            stale_seen: self.first_stale_click_seen,
        }
    }
}

impl NotifyValue {
    /// What holds of every state while the server hands out a number that is not
    /// in use for each new notification: whatever a session shows is on the
    /// screen, and is its own.
    pub open spec fn wf(self) -> bool {
        &&& keys_distinct(self.active)
        &&& keys_distinct(self.session_notif)
        &&& keys_distinct(self.last_prompt_ids)
        &&& forall|session: Seq<char>|
            (#[trigger] lookup(self.session_notif, session)) matches Some(id) ==> self.owns(
                session,
                id,
            )
    }

    /// Whether the notification `id` is on the screen and is the session's.
    pub open spec fn owns(self, session: Seq<char>, id: u32) -> bool {
        lookup(self.active, id) matches Some(n) && n.session_id == session
    }
}

// ---------------------------------------------------------------------------
// Texts.

/// The optional text, if it is not empty.
pub open spec fn non_empty(t: Option<Seq<char>>) -> Option<Seq<char>> {
    match t {
        Some(s) if s.len() > 0 => Some(s),
        _ => None,
    }
}

pub open spec fn or_else(t: Option<Seq<char>>, other: Seq<char>) -> Seq<char> {
    match t {
        Some(s) => s,
        None => other,
    }
}

/// The directory of a prompt for display.
pub open spec fn shown_cwd(cwd: Option<Seq<char>>, home: Seq<char>) -> Option<Seq<char>> {
    match cwd {
        Some(c) => non_empty(Some(short_cwd(c, home))),
        None => None,
    }
}

pub open spec fn shown_session(session: Option<Seq<char>>) -> Option<Seq<char>> {
    match session {
        Some(s) => Some(take_of(s, 6)),
        None => None,
    }
}

pub open spec fn approval_summary(p: PromptValue, home: Seq<char>, names: NamesValue) -> Seq<char> {
    match shown_cwd(p.cwd, home) {
        Some(c) => names.product + " ["@ + c + "]: approve "@ + p.tool + "?"@,
        None => names.product + ": approve "@ + p.tool + "?"@,
    }
}

/// The line that tells where a notification comes from, if anything is known.
pub open spec fn context_line(
    cwd: Option<Seq<char>>,
    agent: Seq<char>,
    session: Option<Seq<char>>,
) -> Option<Seq<char>> {
    if cwd is Some || session is Some {
        Some(
            "["@ + or_else(cwd, "?"@) + " · "@ + agent + " · "@ + or_else(session, "?"@) + "]"@,
        )
    } else {
        None
    }
}

pub open spec fn source_label(source: MatchSource) -> Seq<char> {
    match source {
        MatchSource::Allow => "allowlists"@,
        MatchSource::Deny => "denies"@,
    }
}

/// The body of a prompt: the hint, where it comes from, and the pattern that may
/// mean the call.
pub open spec fn approval_body(p: PromptValue, home: Seq<char>, names: NamesValue) -> Seq<char> {
    let context = context_line(
        shown_cwd(p.cwd, home),
        or_else(p.agent_type, "main"@),
        shown_session(p.session_id),
    );
    let head = match context {
        Some(line) => p.hint + "\n"@ + line,
        None => p.hint,
    };
    match (p.matched_pattern, p.matched_source) {
        (Some(pattern), Some(source)) => head + "\n["@ + names.short + " "@ + source_label(source)
            + " this with pattern "@ + quoted(pattern) + " — confirm to override]"@,
        _ => head,
    }
}

pub open spec fn turn_done_summary(cwd: Option<Seq<char>>, names: NamesValue) -> Seq<char> {
    match cwd {
        Some(c) => names.product + " ["@ + c + "]: done"@,
        None => names.product + ": done"@,
    }
}

/// The body of a finished turn: the response, where it comes from, the tokens.
pub open spec fn turn_done_body(
    snippet: Seq<char>,
    cwd: Option<Seq<char>>,
    session: Option<Seq<char>>,
    tokens: nat,
) -> Seq<char> {
    let first = match context_line(cwd, "main"@, session) {
        Some(line) => if snippet.len() > 0 {
            snippet + "\n"@ + line
        } else {
            line
        },
        None => snippet,
    };
    let second = if first.len() > 0 {
        first + "\n"@
    } else {
        first
    };
    second + token_count_text(tokens) + " tokens/turn"@
}

fn display_cwd(cwd: Option<&str>, home: &str) -> (r: Option<String>)
    ensures
        text_of(r) == shown_cwd(crate::setup::opt_text(cwd), home@),
{
    match cwd {
        Some(c) => {
            let s = shorten_cwd_with_home(c, home);
            if s.as_str().is_empty() {
                None
            } else {
                Some(s)
            }
        },
        None => None,
    }
}

fn as_text(t: &Option<String>) -> (r: Option<&str>)
    ensures
        crate::setup::opt_text(r) == text_of(*t),
{
    match t {
        Some(s) => Some(s.as_str()),
        None => None,
    }
}

fn make_context(cwd: Option<&str>, agent: &str, session: Option<&str>) -> (r: Option<String>)
    ensures
        text_of(r) == context_line(
            crate::setup::opt_text(cwd),
            agent@,
            crate::setup::opt_text(session),
        ),
{
    if cwd.is_none() && session.is_none() {
        return None;
    }
    let c = match cwd {
        Some(c) => c,
        None => "?",
    };
    let s = match session {
        Some(s) => s,
        None => "?",
    };
    let mut r = join3("[", c, " · ");
    r.append(agent);
    r.append(" · ");
    r.append(s);
    r.append("]");
    Some(r)
}

fn make_approval_summary(p: &PromptInfo, home: &str, names: &AgentNames) -> (r: String)
    ensures
        r@ == approval_summary(p@, home@, names@),
{
    match display_cwd(as_text(&p.cwd), home) {
        Some(c) => {
            let mut r = join3(names.product.as_str(), " [", c.as_str());
            r.append("]: approve ");
            r.append(p.tool.as_str());
            r.append("?");
            r
        },
        None => {
            let mut r = join3(names.product.as_str(), ": approve ", p.tool.as_str());
            r.append("?");
            r
        },
    }
}

fn make_approval_body(p: &PromptInfo, home: &str, names: &AgentNames) -> (r: String)
    ensures
        r@ == approval_body(p@, home@, names@),
{
    let cwd = display_cwd(as_text(&p.cwd), home);
    let session = match &p.session_id {
        Some(s) => Some(short_session_id(s.as_str())),
        None => None,
    };
    let agent = match &p.agent_type {
        Some(a) => a.as_str(),
        None => "main",
    };
    let mut body = p.hint.clone();
    if let Some(line) = make_context(as_text(&cwd), agent, as_text(&session)) {
        body.append("\n");
        body.append(line.as_str());
    }
    if let Some(pattern) = &p.matched_pattern {
        if let Some(source) = &p.matched_source {
            let label = match source {
                MatchSource::Allow => "allowlists",
                MatchSource::Deny => "denies",
            };
            body.append("\n[");
            body.append(names.short.as_str());
            body.append(" ");
            body.append(label);
            body.append(" this with pattern ");
            body.append(quote(pattern.as_str()).as_str());
            body.append(" — confirm to override]");
        }
    }
    body
}

// ---------------------------------------------------------------------------
// How a notification is shown.

/// The urgency of what the user may pass over.
pub const NORMAL_URGENCY: u8 = 1;

/// The urgency of what the user has to see.
pub const CRITICAL_URGENCY: u8 = 2;

/// The time after which a notification goes that stays until it is closed.
pub const NEVER_EXPIRES: i32 = 0;

/// The buttons of a prompt: for each the key that a click gives, and its label.
/// A click on the notification itself gives `default`.
pub open spec fn approval_buttons() -> Seq<Seq<char>> {
    seq![
        "default"@,
        "Approve once"@,
        "once"@,
        "Approve once"@,
        "always"@,
        "Always"@,
        "deny"@,
        "Deny"@,
    ]
}

pub open spec fn labels_of(labels: Seq<&'static str>) -> Seq<Seq<char>> {
    labels.map_values(|l: &'static str| l@)
}

/// The buttons of a prompt.
pub fn approval_actions() -> (r: Vec<&'static str>)
    ensures
        labels_of(r@) == approval_buttons(),
{
    let r: Vec<&'static str> = vec![
        "default", "Approve once", "once", "Approve once", "always", "Always", "deny", "Deny",
    ];
    assert(labels_of(r@) =~= approval_buttons());
    r
}

/// A notification that belongs to no session.
#[derive(Debug)]
pub struct Notice {
    pub summary: &'static str,
    pub body: &'static str,
    pub actions: Vec<&'static str>,
    pub urgency: u8,
    pub expire_ms: i32,
}

/// The notice after a click on a notification from before a restart.
pub fn restart_notice() -> (r: Notice)
    ensures
        r.summary@ == "ccbridge restarted"@,
        r.body@
            == "Please re-trigger the action you were approving. The previous approval window expired when the daemon restarted."@,
        r.actions@.len() == 0,
        r.urgency == CRITICAL_URGENCY,
        r.expire_ms == NEVER_EXPIRES,
{
    Notice {
        summary: "ccbridge restarted",
        body: "Please re-trigger the action you were approving. The previous approval window expired when the daemon restarted.",
        actions: Vec::new(),
        urgency: CRITICAL_URGENCY,
        expire_ms: NEVER_EXPIRES,
    }
}

// ---------------------------------------------------------------------------
// Heartbeats.

/// A prompt to show.
#[derive(Debug)]
pub struct ApprovalPost {
    pub session_key: String,
    pub prompt_id: String,
    /// The notification whose place it takes; zero for a new one.
    pub replaces_id: u32,
    pub summary: String,
    pub body: String,
    /// For each button the key that a click gives, and its label.
    pub actions: Vec<&'static str>,
    pub urgency: u8,
    /// The time after which it goes, in milliseconds.
    pub expire_ms: i32,
}

/// What an [`ApprovalPost`] stands for.
#[verifier::ext_equal]
pub struct PostValue {
    pub session_key: Seq<char>,
    pub prompt_id: Seq<char>,
    pub replaces_id: u32,
    pub summary: Seq<char>,
    pub body: Seq<char>,
    pub actions: Seq<Seq<char>>,
    pub urgency: u8,
    pub expire_ms: i32,
}

impl View for ApprovalPost {
    type V = PostValue;

    open spec fn view(&self) -> PostValue {
        PostValue {
            session_key: self.session_key@,
            prompt_id: self.prompt_id@,
            replaces_id: self.replaces_id,
            summary: self.summary@,
            body: self.body@,
            actions: labels_of(self.actions@),
            urgency: self.urgency,
            expire_ms: self.expire_ms,
        }
    }
}

pub open spec fn post_values(posts: Seq<ApprovalPost>) -> Seq<PostValue> {
    posts.map_values(|p: ApprovalPost| p@)
}

/// What a heartbeat leads to: notifications to close, then prompts to show.
#[derive(Debug)]
pub struct HeartbeatPlan {
    pub close: Vec<u32>,
    pub posts: Vec<ApprovalPost>,
}

/// The session that a prompt belongs to; a prompt without one stands for itself.
pub open spec fn session_key(p: PromptValue) -> Seq<char> {
    or_else(p.session_id, p.id)
}

/// The prompts by session; of two prompts of a session the later one counts.
pub open spec fn by_session(prompts: Seq<PromptValue>) -> Seq<(Seq<char>, PromptValue)>
    decreases prompts.len(),
{
    if prompts.len() == 0 {
        Seq::empty()
    } else {
        put(by_session(prompts.drop_last()), session_key(prompts.last()), prompts.last())
    }
}

/// The calls that a heartbeat asks about.
pub open spec fn live_ids(prompts: Seq<PromptValue>) -> Set<Seq<char>> {
    Set::new(|t: Seq<char>| exists|i: int| 0 <= i < prompts.len() && (#[trigger] prompts[i]).id == t)
}

/// Whether a session shows a prompt although it does not wait.
pub open spec fn is_stale(
    state: NotifyValue,
    waiting: Seq<(Seq<char>, PromptValue)>,
    session: Seq<char>,
    notif: u32,
) -> bool {
    !has_key(waiting, session) && (match lookup(state.active, notif) {
        Some(n) => n.asks_about is Some,
        None => false,
    })
}

/// The sessions among `slots` that show a prompt although they do not wait.
pub open spec fn stale_sessions(
    state: NotifyValue,
    waiting: Seq<(Seq<char>, PromptValue)>,
    slots: Seq<(Seq<char>, u32)>,
) -> Seq<Seq<char>>
    decreases slots.len(),
{
    if slots.len() == 0 {
        Seq::empty()
    } else {
        let before = stale_sessions(state, waiting, slots.drop_last());
        if is_stale(state, waiting, slots.last().0, slots.last().1) {
            before.push(slots.last().0)
        } else {
            before
        }
    }
}

/// A state and the notifications closed on the way to it.
#[verifier::ext_equal]
pub struct Closed {
    pub state: NotifyValue,
    pub ids: Seq<u32>,
}

/// Closes the prompt of one session and forgets what was known of it.
pub open spec fn close_session(before: Closed, session: Seq<char>) -> Closed {
    let s = before.state;
    let rest = NotifyValue {
        session_notif: erase(s.session_notif, session),
        last_prompt_ids: erase(s.last_prompt_ids, session),
        ..s
    };
    match lookup(s.session_notif, session) {
        None => Closed { state: rest, ..before },
        Some(id) => match lookup(s.active, id) {
            None => Closed { state: rest, ..before },
            Some(n) => Closed {
                state: NotifyValue {
                    active: erase(s.active, id),
                    dismissed: match n.asks_about {
                        Some(call) => s.dismissed.remove(call),
                        None => s.dismissed,
                    },
                    ..rest
                },
                ids: before.ids.push(id),
            },
        },
    }
}

pub open spec fn close_sessions(state: NotifyValue, sessions: Seq<Seq<char>>) -> Closed
    decreases sessions.len(),
{
    if sessions.len() == 0 {
        Closed { state, ids: Seq::empty() }
    } else {
        close_session(close_sessions(state, sessions.drop_last()), sessions.last())
    }
}

/// The state before prompts are shown: stale ones closed, and dismissals kept
/// only of calls that are still asked about.
pub open spec fn cleared(state: NotifyValue, prompts: Seq<PromptValue>) -> Closed {
    let waiting = by_session(prompts);
    let closed = close_sessions(state, stale_sessions(state, waiting, state.session_notif));
    Closed {
        state: NotifyValue {
            dismissed: closed.state.dismissed.intersect(live_ids(prompts)),
            ..closed.state
        },
        ..closed
    }
}

/// The dismissals after a session's prompt was looked at: a new prompt of the
/// session ends the dismissal of its last one.
pub open spec fn dismissed_after(
    dismissed: Set<Seq<char>>,
    last_prompt_ids: Seq<(Seq<char>, Seq<char>)>,
    key: Seq<char>,
    id: Seq<char>,
) -> Set<Seq<char>> {
    match lookup(last_prompt_ids, key) {
        Some(old_id) if old_id != id => dismissed.remove(old_id),
        _ => dismissed,
    }
}

/// Whether a session's prompt is to be shown: not if the user dismissed it, and
/// not if it is on the screen already.
pub open spec fn shows(state: NotifyValue, dismissed: Set<Seq<char>>, key: Seq<char>, id: Seq<char>) -> bool {
    !dismissed.contains(id) && !(lookup(state.last_prompt_ids, key) == Some(id) && has_key(
        state.session_notif,
        key,
    ))
}

pub open spec fn slot_or_zero(state: NotifyValue, key: Seq<char>) -> u32 {
    match lookup(state.session_notif, key) {
        Some(id) => id,
        None => 0,
    }
}

pub open spec fn post_for(
    state: NotifyValue,
    key: Seq<char>,
    p: PromptValue,
    home: Seq<char>,
    names: NamesValue,
) -> PostValue {
    PostValue {
        session_key: key,
        prompt_id: p.id,
        replaces_id: slot_or_zero(state, key),
        summary: approval_summary(p, home, names),
        body: approval_body(p, home, names),
        actions: approval_buttons(),
        urgency: CRITICAL_URGENCY,
        expire_ms: NEVER_EXPIRES,
    }
}

/// Dismissals and prompts to show after looking at these sessions.
#[verifier::ext_equal]
pub struct Planned {
    pub dismissed: Set<Seq<char>>,
    pub posts: Seq<PostValue>,
}

pub open spec fn planned(
    state: NotifyValue,
    waiting: Seq<(Seq<char>, PromptValue)>,
    home: Seq<char>,
    names: NamesValue,
) -> Planned
    decreases waiting.len(),
{
    if waiting.len() == 0 {
        Planned { dismissed: state.dismissed, posts: Seq::empty() }
    } else {
        let before = planned(state, waiting.drop_last(), home, names);
        let (key, p) = waiting.last();
        let dismissed = dismissed_after(before.dismissed, state.last_prompt_ids, key, p.id);
        Planned {
            dismissed,
            posts: if shows(state, dismissed, key, p.id) {
                before.posts.push(post_for(state, key, p, home, names))
            } else {
                before.posts
            },
        }
    }
}

/// The state after a heartbeat, and what is to be closed and shown.
#[verifier::ext_equal]
pub struct HeartbeatStep {
    pub state: NotifyValue,
    pub close: Seq<u32>,
    pub posts: Seq<PostValue>,
}

pub open spec fn heartbeat_step(
    state: NotifyValue,
    prompts: Seq<PromptValue>,
    home: Seq<char>,
    names: NamesValue,
) -> HeartbeatStep {
    let closed = cleared(state, prompts);
    let plan = planned(closed.state, by_session(prompts), home, names);
    HeartbeatStep {
        state: NotifyValue { dismissed: plan.dismissed, ..closed.state },
        close: closed.ids,
        posts: plan.posts,
    }
}

/// A notification `id` took the place of `replaced` for a session.
pub open spec fn shown(
    state: NotifyValue,
    key: Seq<char>,
    replaced: u32,
    id: u32,
    asks_about: Option<Seq<char>>,
) -> NotifyValue {
    let rest = if replaced != 0 && replaced != id {
        erase(state.active, replaced)
    } else {
        state.active
    };
    NotifyValue {
        active: put(rest, id, ActiveValue { session_id: key, asks_about }),
        session_notif: put(state.session_notif, key, id),
        ..state
    }
}

/// A prompt was shown as the notification `id`.
pub open spec fn posted(state: NotifyValue, post: PostValue, id: u32) -> NotifyValue {
    let after = shown(state, post.session_key, post.replaces_id, id, Some(post.prompt_id));
    NotifyValue {
        last_prompt_ids: put(after.last_prompt_ids, post.session_key, post.prompt_id),
        ..after
    }
}

fn copy_prompt(p: &PromptInfo) -> (r: PromptInfo)
    ensures
        r@ == p@,
{
    PromptInfo {
        id: p.id.clone(),
        tool: p.tool.clone(),
        hint: p.hint.clone(),
        matched_pattern: copy_text(&p.matched_pattern),
        matched_source: p.matched_source,
        session_id: copy_text(&p.session_id),
        cwd: copy_text(&p.cwd),
        agent_type: copy_text(&p.agent_type),
    }
}

fn index_prompts(prompts: &Vec<PromptInfo>) -> (r: Table<PromptInfo>)
    ensures
        r@ == by_session(prompt_values(prompts@)),
{
    let ghost all = prompt_values(prompts@);
    let mut r: Table<PromptInfo> = Table::new();
    let mut i: usize = 0;
    while i < prompts.len()
        invariant
            i <= prompts@.len(),
            all == prompt_values(prompts@),
            r@ == by_session(all.take(i as int)),
        decreases prompts@.len() - i,
    {
        assert(all.take(i + 1).drop_last() =~= all.take(i as int));
        assert(all.take(i + 1).last() == prompts@[i as int]@);
        let key = match &prompts[i].session_id {
            Some(s) => s.clone(),
            None => prompts[i].id.clone(),
        };
        r.insert(key, copy_prompt(&prompts[i]));
        i = i + 1;
    }
    assert(all.take(i as int) =~= all);
    r
}

fn ids_of(prompts: &Vec<PromptInfo>) -> (r: TextSet)
    ensures
        r@ == live_ids(prompt_values(prompts@)),
{
    let ghost all = prompt_values(prompts@);
    let mut r = TextSet::new();
    let mut i: usize = 0;
    assert(r@ =~= live_ids(all.take(0)));
    while i < prompts.len()
        invariant
            i <= prompts@.len(),
            all == prompt_values(prompts@),
            r@ == live_ids(all.take(i as int)),
        decreases prompts@.len() - i,
    {
        let ghost before = r@;
        let ghost shorter = all.take(i as int);
        let ghost longer = all.take(i + 1);
        assert(all[i as int] == prompts@[i as int]@);
        r.insert(prompts[i].id.clone());
        proof {
            let id = prompts@[i as int].id@;
            assert forall|t: Seq<char>| before.insert(id).contains(t) <==> live_ids(longer).contains(
                t,
            ) by {
                if live_ids(shorter).contains(t) {
                    let j = choose|j: int| 0 <= j < shorter.len() && (#[trigger] shorter[j]).id == t;
                    assert(longer[j].id == t);
                }
                if t == id {
                    assert(longer[i as int].id == t);
                }
                if live_ids(longer).contains(t) && t != id {
                    let j = choose|j: int| 0 <= j < longer.len() && (#[trigger] longer[j]).id == t;
                    assert(shorter[j].id == t);
                }
            }
            assert(r@ =~= live_ids(longer));
        }
        i = i + 1;
    }
    assert(all.take(i as int) =~= all);
    r
}

impl NotifyState {
    pub fn new() -> (r: NotifyState)
        ensures
            r@.active.len() == 0,
            r@.session_notif.len() == 0,
            r@.dismissed == Set::<Seq<char>>::empty(),
            r@.last_prompt_ids.len() == 0,
            !r@.stale_seen,
            r@.wf(),
    {
        NotifyState {
            active: IdTable::new(),
            session_notif: Table::new(),
            dismissed: TextSet::new(),
            last_prompt_ids: Table::new(),
            first_stale_click_seen: false,
        }
    }

    fn find_stale(&self, waiting: &Table<PromptInfo>) -> (r: Vec<String>)
        ensures
            texts_of(r@) == stale_sessions(self@, waiting@, self@.session_notif),
    {
        let ghost slots = self@.session_notif;
        let mut r: Vec<String> = Vec::new();
        let mut i: usize = 0;
        assert(texts_of(r@) =~= stale_sessions(self@, waiting@, slots.take(0)));
        while i < self.session_notif.len()
            invariant
                i <= slots.len(),
                slots == self@.session_notif,
                texts_of(r@) == stale_sessions(self@, waiting@, slots.take(i as int)),
            decreases slots.len() - i,
        {
            assert(slots.take(i + 1).drop_last() =~= slots.take(i as int));
            assert(slots.take(i + 1).last() == slots[i as int]);
            let session = self.session_notif.key_at(i);
            let id: u32 = *self.session_notif.value_at(i);
            let asks = match self.active.get(id) {
                Some(n) => match n.kind {
                    ActiveKind::Approval { .. } => true,
                    ActiveKind::TurnDone => false,
                },
                None => false,
            };
            if asks && !waiting.contains_key(session.as_str()) {
                let ghost before = r@;
                r.push(session.clone());
                assert(texts_of(r@) =~= texts_of(before).push(session@));
            }
            i = i + 1;
        }
        assert(slots.take(i as int) =~= slots);
        r
    }

    fn close_stale(&mut self, sessions: &Vec<String>) -> (r: Vec<u32>)
        ensures
            (Closed { state: final(self)@, ids: r@ }) == close_sessions(old(self)@, texts_of(sessions@)),
    {
        let ghost start = self@;
        let ghost all = texts_of(sessions@);
        let mut r: Vec<u32> = Vec::new();
        let mut i: usize = 0;
        assert(r@ =~= close_sessions(start, all.take(0)).ids);
        while i < sessions.len()
            invariant
                i <= sessions@.len(),
                all == texts_of(sessions@),
                (Closed { state: self@, ids: r@ }) == close_sessions(start, all.take(i as int)),
            decreases sessions@.len() - i,
        {
            let ghost before = Closed { state: self@, ids: r@ };
            assert(all.take(i + 1).drop_last() =~= all.take(i as int));
            assert(all.take(i + 1).last() == sessions@[i as int]@);
            let session = sessions[i].as_str();
            if let Some(id) = self.session_notif.remove(session) {
                if let Some(n) = self.active.remove(id) {
                    r.push(id);
                    if let ActiveKind::Approval { tool_use_id } = &n.kind {
                        self.dismissed.remove(tool_use_id.as_str());
                    }
                }
            }
            let _ = self.last_prompt_ids.remove(session);
            proof {
                let after = close_session(before, session@);
                assert(self@.session_notif == after.state.session_notif);
                assert(self@.active =~= after.state.active);
                assert(self@.dismissed =~= after.state.dismissed);
                assert(r@ =~= after.ids);
                assert(Closed { state: self@, ids: r@ } =~= after);
            }
            i = i + 1;
        }
        assert(all.take(i as int) =~= all);
        r
    }

    /// Takes a heartbeat: which notifications to close, and which prompts to show
    /// then.
    pub fn handle_heartbeat(&mut self, hb: &Heartbeat, home: &str, names: &AgentNames) -> (r: HeartbeatPlan)
        ensures
            (HeartbeatStep {
                state: final(self)@,
                close: r.close@,
                posts: post_values(r.posts@),
            }) == heartbeat_step(old(self)@, hb@.prompts, home@, names@),
    {
        let ghost start = self@;
        let waiting = index_prompts(&hb.prompts);
        let stale = self.find_stale(&waiting);
        let close = self.close_stale(&stale);
        let live = ids_of(&hb.prompts);
        self.dismissed.keep_only(&live);
        let ghost base = self@;
        proof {
            let c = cleared(start, hb@.prompts);
            assert(base =~= c.state);
            assert(close@ =~= c.ids);
        }
        let ghost all = waiting@;
        let mut posts: Vec<ApprovalPost> = Vec::new();
        let mut i: usize = 0;
        assert(post_values(posts@) =~= planned(base, all.take(0), home@, names@).posts);
        while i < waiting.len()
            invariant
                i <= all.len(),
                all == waiting@,
                self@ == (NotifyValue {
                    dismissed: planned(base, all.take(i as int), home@, names@).dismissed,
                    ..base
                }),
                post_values(posts@) == planned(base, all.take(i as int), home@, names@).posts,
            decreases all.len() - i,
        {
            assert(all.take(i + 1).drop_last() =~= all.take(i as int));
            assert(all.take(i + 1).last() == all[i as int]);
            let ghost before = planned(base, all.take(i as int), home@, names@);
            let key = waiting.key_at(i);
            let p = waiting.value_at(i);
            let mut unchanged = false;
            if let Some(old_id) = self.last_prompt_ids.get(key.as_str()) {
                if str_eq(old_id.as_str(), p.id.as_str()) {
                    unchanged = true;
                } else {
                    self.dismissed.remove(old_id.as_str());
                }
            }
            assert(self@.dismissed =~= dismissed_after(
                before.dismissed,
                base.last_prompt_ids,
                key@,
                p@.id,
            ));
            let hidden = self.dismissed.contains(p.id.as_str()) || (unchanged
                && self.session_notif.contains_key(key.as_str()));
            if !hidden {
                let replaces_id: u32 = match self.session_notif.get(key.as_str()) {
                    Some(id) => *id,
                    None => 0,
                };
                let post = ApprovalPost {
                    session_key: key.clone(),
                    prompt_id: p.id.clone(),
                    replaces_id,
                    summary: make_approval_summary(p, home, names),
                    body: make_approval_body(p, home, names),
                    actions: approval_actions(),
                    urgency: CRITICAL_URGENCY,
                    expire_ms: NEVER_EXPIRES,
                };
                let ghost earlier = posts@;
                posts.push(post);
                assert(post_values(posts@) =~= post_values(earlier).push(post@));
                assert(post@ =~= post_for(base, key@, p@, home@, names@));
            }
            i = i + 1;
        }
        assert(all.take(i as int) =~= all);
        HeartbeatPlan { close, posts }
    }

    fn record(&mut self, key: &str, replaced: u32, id: u32, kind: ActiveKind)
        ensures
            final(self)@ == shown(
                old(self)@,
                key@,
                replaced,
                id,
                match kind {
                    ActiveKind::Approval { tool_use_id } => Some(tool_use_id@),
                    ActiveKind::TurnDone => None,
                },
            ),
    {
        if replaced != 0 && replaced != id {
            let _ = self.active.remove(replaced);
        }
        self.active.insert(id, ActiveNotif { session_id: key.to_owned(), kind });
        self.session_notif.insert(key.to_owned(), id);
    }

    /// A prompt was shown as the notification `id`. A prompt that could not be
    /// shown changes nothing, so that the next heartbeat tries again.
    pub fn approval_posted(&mut self, post: &ApprovalPost, id: u32)
        ensures
            final(self)@ == posted(old(self)@, post@, id),
    {
        self.record(
            post.session_key.as_str(),
            post.replaces_id,
            id,
            ActiveKind::Approval { tool_use_id: post.prompt_id.clone() },
        );
        self.last_prompt_ids.insert(post.session_key.clone(), post.prompt_id.clone());
    }
}

// ---------------------------------------------------------------------------
// Finished turns.

/// The notification of a finished turn.
#[derive(Debug)]
pub struct TurnDonePost {
    pub session_id: String,
    /// The notification whose place it takes; zero for a new one.
    pub replaces_id: u32,
    pub summary: String,
    pub body: String,
    /// For each button the key that a click gives, and its label.
    pub actions: Vec<&'static str>,
    pub urgency: u8,
    /// The time after which it goes, in milliseconds.
    pub expire_ms: i32,
}

impl NotifyState {
    /// The notification of a finished turn. It takes the place of whatever its
    /// session shows. It is of normal urgency, has no buttons, and goes after
    /// `expire_ms`.
    pub fn handle_turn_done(
        &self,
        evt: &TurnDoneEvent,
        tokens_this_turn: u64,
        expire_ms: i32,
        home: &str,
        names: &AgentNames,
    ) -> (r: TurnDonePost)
        ensures
            r.session_id@ == evt.session_id@,
            r.replaces_id == slot_or_zero(self@, evt.session_id@),
            r.summary@ == turn_done_summary(shown_cwd(non_empty(Some(evt.cwd@)), home@), names@),
            r.body@ == turn_done_body(
                evt.response_snippet@,
                shown_cwd(non_empty(Some(evt.cwd@)), home@),
                shown_session(non_empty(Some(evt.session_id@))),
                tokens_this_turn as nat,
            ),
            r.actions@.len() == 0,
            r.urgency == NORMAL_URGENCY,
            r.expire_ms == expire_ms,
    {
        let cwd = if evt.cwd.as_str().is_empty() {
            None
        } else {
            display_cwd(Some(evt.cwd.as_str()), home)
        };
        let session = if evt.session_id.as_str().is_empty() {
            None
        } else {
            Some(short_session_id(evt.session_id.as_str()))
        };
        let summary = match &cwd {
            Some(c) => {
                let mut r = join3(names.product.as_str(), " [", c.as_str());
                r.append("]: done");
                r
            },
            None => join2(names.product.as_str(), ": done"),
        };
        let mut body = evt.response_snippet.clone();
        if let Some(line) = make_context(as_text(&cwd), "main", as_text(&session)) {
            if body.as_str().is_empty() {
                body = line;
            } else {
                body.append("\n");
                body.append(line.as_str());
            }
        }
        if !body.as_str().is_empty() {
            body.append("\n");
        }
        body.append(format_token_count(tokens_this_turn).as_str());
        body.append(" tokens/turn");
        let replaces_id: u32 = match self.session_notif.get(evt.session_id.as_str()) {
            Some(id) => *id,
            None => 0,
        };
        TurnDonePost {
            session_id: evt.session_id.clone(),
            replaces_id,
            summary,
            body,
            actions: Vec::new(),
            urgency: NORMAL_URGENCY,
            expire_ms,
        }
    }

    /// The notification of a finished turn was shown as `id`.
    pub fn turn_done_posted(&mut self, post: &TurnDonePost, id: u32)
        ensures
            final(self)@ == shown(old(self)@, post.session_id@, post.replaces_id, id, None),
    {
        self.record(post.session_id.as_str(), post.replaces_id, id, ActiveKind::TurnDone);
    }
}

// ---------------------------------------------------------------------------
// Clicks and closings.

/// What a click leads to.
#[derive(Debug, PartialEq, Eq)]
pub enum ClickOutcome {
    /// The notification is not known; `explain` asks for the one
    /// [`restart_notice`].
    Stale { explain: bool },
    /// The click means nothing.
    Ignored,
    /// A decision on a call.
    Decide { tool_use_id: String, decision: WireDecision },
    /// An approval for good.
    Always { tool_use_id: String },
}

/// What a [`ClickOutcome`] stands for.
pub enum ClickValue {
    Stale { explain: bool },
    Ignored,
    Decide { call: Seq<char>, decision: WireDecision },
    Always { call: Seq<char> },
}

impl View for ClickOutcome {
    type V = ClickValue;

    open spec fn view(&self) -> ClickValue {
        match self {
            ClickOutcome::Stale { explain } => ClickValue::Stale { explain: *explain },
            ClickOutcome::Ignored => ClickValue::Ignored,
            ClickOutcome::Decide { tool_use_id, decision } => ClickValue::Decide {
                call: tool_use_id@,
                decision: *decision,
            },
            ClickOutcome::Always { tool_use_id } => ClickValue::Always { call: tool_use_id@ },
        }
    }
}

/// What a click on a prompt for `call` means.
pub open spec fn click_meaning(action: Seq<char>, call: Seq<char>) -> ClickValue {
    if action == "default"@ || action == "once"@ {
        ClickValue::Decide { call, decision: WireDecision::Once }
    } else if action == "always"@ {
        ClickValue::Always { call }
    } else if action == "deny"@ {
        ClickValue::Decide { call, decision: WireDecision::Deny }
    } else {
        ClickValue::Ignored
    }
}

/// The state without the notification `id`. A prompt that goes is not shown
/// again while its call is asked about.
pub open spec fn gone(state: NotifyValue, id: u32) -> NotifyValue {
    match lookup(state.active, id) {
        None => state,
        Some(n) => NotifyValue {
            active: erase(state.active, id),
            session_notif: if lookup(state.session_notif, n.session_id) == Some(id) {
                erase(state.session_notif, n.session_id)
            } else {
                state.session_notif
            },
            dismissed: match n.asks_about {
                Some(call) => state.dismissed.insert(call),
                None => state.dismissed,
            },
            ..state
        },
    }
}

/// What a click on the notification `id` leads to.
pub open spec fn click_outcome(state: NotifyValue, id: u32, action: Seq<char>) -> ClickValue {
    match lookup(state.active, id) {
        None => ClickValue::Stale { explain: !state.stale_seen },
        Some(n) => match n.asks_about {
            None => ClickValue::Ignored,
            Some(call) => click_meaning(action, call),
        },
    }
}

/// The state after a click on the notification `id`.
pub open spec fn clicked(state: NotifyValue, id: u32, action: Seq<char>) -> NotifyValue {
    match click_outcome(state, id, action) {
        ClickValue::Stale { .. } => NotifyValue { stale_seen: true, ..state },
        ClickValue::Ignored => state,
        _ => gone(state, id),
    }
}

impl NotifyState {
    fn forget(&mut self, id: u32)
        ensures
            final(self)@ == gone(old(self)@, id),
    {
        let ghost before = self@;
        if let Some(n) = self.active.remove(id) {
            let points_here = match self.session_notif.get(n.session_id.as_str()) {
                Some(slot) => *slot == id,
                None => false,
            };
            if points_here {
                let _ = self.session_notif.remove(n.session_id.as_str());
            }
            if let ActiveKind::Approval { tool_use_id } = n.kind {
                self.dismissed.insert(tool_use_id);
            }
            assert(self@ =~= gone(before, id));
        } else {
            assert(self@.active =~= before.active);
        }
    }

    /// The user clicked a button of the notification `notif_id`.
    pub fn handle_action(&mut self, notif_id: u32, action_key: &str) -> (r: ClickOutcome)
        ensures
            r@ == click_outcome(old(self)@, notif_id, action_key@),
            final(self)@ == clicked(old(self)@, notif_id, action_key@),
    {
        let call = match self.active.get(notif_id) {
            None => {
                let explain = !self.first_stale_click_seen;
                self.first_stale_click_seen = true;
                return ClickOutcome::Stale { explain };
            },
            Some(n) => match &n.kind {
                ActiveKind::TurnDone => {
                    return ClickOutcome::Ignored;
                },
                ActiveKind::Approval { tool_use_id } => tool_use_id.clone(),
            },
        };
        let outcome = if str_eq(action_key, "default") || str_eq(action_key, "once") {
            ClickOutcome::Decide { tool_use_id: call, decision: WireDecision::Once }
        } else if str_eq(action_key, "always") {
            ClickOutcome::Always { tool_use_id: call }
        } else if str_eq(action_key, "deny") {
            ClickOutcome::Decide { tool_use_id: call, decision: WireDecision::Deny }
        } else {
            return ClickOutcome::Ignored;
        };
        self.forget(notif_id);
        outcome
    }

    /// The notification `notif_id` was closed.
    pub fn handle_closed(&mut self, notif_id: u32)
        ensures
            final(self)@ == gone(old(self)@, notif_id),
    {
        self.forget(notif_id);
    }

    /// All notifications go; their numbers are to be closed.
    pub fn close_all(&mut self) -> (r: Vec<u32>)
        ensures
            r@ == old(self)@.active.map_values(|p: (u32, ActiveValue)| p.0),
            final(self)@ == (NotifyValue {
                active: Seq::empty(),
                session_notif: Seq::empty(),
                ..old(self)@
            }),
    {
        let ghost all = self@.active;
        let ghost start = self@;
        let mut r: Vec<u32> = Vec::new();
        let mut i: usize = 0;
        while i < self.active.len()
            invariant
                i <= all.len(),
                self@ == start,
                all == self@.active,
                r@.len() == i,
                forall|j: int| 0 <= j < i ==> #[trigger] r@[j] == all[j].0,
            decreases all.len() - i,
        {
            r.push(self.active.key_at(i));
            i = i + 1;
        }
        self.active.clear();
        self.session_notif.clear();
        assert(r@ =~= all.map_values(|p: (u32, ActiveValue)| p.0));
        r
    }
}

// ---------------------------------------------------------------------------
// Laws of notifications.

pub proof fn lemma_by_session_distinct(prompts: Seq<PromptValue>)
    ensures
        keys_distinct(by_session(prompts)),
    decreases prompts.len(),
{
    if prompts.len() > 0 {
        lemma_by_session_distinct(prompts.drop_last());
        crate::assoc::lemma_put_distinct(
            by_session(prompts.drop_last()),
            session_key(prompts.last()),
            prompts.last(),
        );
    }
}

proof fn lemma_closing_keeps_dismissal(state: NotifyValue, sessions: Seq<Seq<char>>, x: Seq<char>)
    requires
        state.dismissed.contains(x),
        forall|i: int| 0 <= i < state.active.len() ==> (#[trigger] state.active[i]).1.asks_about != Some(x),
    ensures
        close_sessions(state, sessions).state.dismissed.contains(x),
        forall|i: int|
            0 <= i < close_sessions(state, sessions).state.active.len() ==> (
            #[trigger] close_sessions(state, sessions).state.active[i]).1.asks_about != Some(x),
        forall|k: Seq<char>|
            #[trigger] lookup(close_sessions(state, sessions).state.last_prompt_ids, k) == Some(x)
                ==> keys_distinct(state.last_prompt_ids) ==> lookup(state.last_prompt_ids, k) == Some(x),
        keys_distinct(state.last_prompt_ids) ==> keys_distinct(
            close_sessions(state, sessions).state.last_prompt_ids,
        ),
    decreases sessions.len(),
{
    if sessions.len() > 0 {
        lemma_closing_keeps_dismissal(state, sessions.drop_last(), x);
        let before = close_sessions(state, sessions.drop_last());
        let after = close_sessions(state, sessions);
        let session = sessions.last();
        match lookup(before.state.session_notif, session) {
            Some(id) => {
                lemma_index_of(before.state.active, id);
                let k = index_of(before.state.active, id) as int;
                if k < before.state.active.len() {
                    assert(before.state.active[k].1.asks_about != Some(x));
                    assert forall|i: int| 0 <= i < after.state.active.len() implies (
                    #[trigger] after.state.active[i]).1.asks_about != Some(x) by {
                        if i < k {
                            assert(after.state.active[i] == before.state.active[i]);
                        } else {
                            assert(after.state.active[i] == before.state.active[i + 1]);
                        }
                    }
                }
            },
            None => {},
        }
        if keys_distinct(state.last_prompt_ids) {
            lemma_erase(before.state.last_prompt_ids, session, session);
            assert forall|k: Seq<char>| #[trigger] lookup(after.state.last_prompt_ids, k) == Some(
                x,
            ) implies lookup(state.last_prompt_ids, k) == Some(x) by {
                lemma_erase(before.state.last_prompt_ids, session, k);
            }
        }
    }
}

proof fn lemma_planned_hides(
    state: NotifyValue,
    waiting: Seq<(Seq<char>, PromptValue)>,
    home: Seq<char>,
    names: NamesValue,
    x: Seq<char>,
)
    requires
        state.dismissed.contains(x),
        forall|i: int|
            0 <= i < waiting.len() && lookup(state.last_prompt_ids, (#[trigger] waiting[i]).0) == Some(x)
                ==> waiting[i].1.id == x,
    ensures
        planned(state, waiting, home, names).dismissed.contains(x),
        forall|i: int|
            0 <= i < planned(state, waiting, home, names).posts.len() ==> (
            #[trigger] planned(state, waiting, home, names).posts[i]).prompt_id != x,
    decreases waiting.len(),
{
    if waiting.len() > 0 {
        let rest = waiting.drop_last();
        assert(forall|i: int| 0 <= i < rest.len() ==> #[trigger] rest[i] == waiting[i]);
        lemma_planned_hides(state, rest, home, names, x);
        assert(waiting[waiting.len() - 1] == waiting.last());
        let before = planned(state, rest, home, names).posts;
        let after = planned(state, waiting, home, names).posts;
        assert forall|i: int| 0 <= i < after.len() implies (#[trigger] after[i]).prompt_id != x by {
            if i < before.len() {
                assert(after[i] == before[i]);
            }
        }
    }
}

/// A prompt that the user dismissed or acted on is not shown again while the
/// heartbeat still asks about its call: as long as no notification of it is on
/// the screen, and the session that was asked about it is still asked about it.
pub proof fn law_dismissed_prompt_stays_hidden(
    state: NotifyValue,
    prompts: Seq<PromptValue>,
    home: Seq<char>,
    names: NamesValue,
    x: Seq<char>,
)
    requires
        keys_distinct(state.last_prompt_ids),
        state.dismissed.contains(x),
        live_ids(prompts).contains(x),
        forall|i: int|
            0 <= i < state.active.len() ==> (#[trigger] state.active[i]).1.asks_about != Some(x),
        forall|i: int|
            0 <= i < by_session(prompts).len() && lookup(
                state.last_prompt_ids,
                (#[trigger] by_session(prompts)[i]).0,
            ) == Some(x) ==> by_session(prompts)[i].1.id == x,
    ensures
        heartbeat_step(state, prompts, home, names).state.dismissed.contains(x),
        forall|i: int|
            0 <= i < heartbeat_step(state, prompts, home, names).posts.len() ==> (
            #[trigger] heartbeat_step(state, prompts, home, names).posts[i]).prompt_id != x,
{
    let waiting = by_session(prompts);
    let sessions = stale_sessions(state, waiting, state.session_notif);
    lemma_closing_keeps_dismissal(state, sessions, x);
    let base = cleared(state, prompts).state;
    assert(base.dismissed.contains(x));
    assert forall|i: int|
        0 <= i < waiting.len() && lookup(base.last_prompt_ids, (#[trigger] waiting[i]).0) == Some(
            x,
        ) implies waiting[i].1.id == x by {
        assert(lookup(close_sessions(state, sessions).state.last_prompt_ids, waiting[i].0) == Some(x));
        assert(lookup(state.last_prompt_ids, waiting[i].0) == Some(x));
    }
    lemma_planned_hides(base, waiting, home, names, x);
}

/// A call that was dismissed is forgotten once no heartbeat asks about it.
pub proof fn law_dismissal_ends_with_prompt(
    state: NotifyValue,
    prompts: Seq<PromptValue>,
    home: Seq<char>,
    names: NamesValue,
    x: Seq<char>,
)
    requires
        !live_ids(prompts).contains(x),
    ensures
        !heartbeat_step(state, prompts, home, names).state.dismissed.contains(x),
{
    let base = cleared(state, prompts).state;
    assert(!base.dismissed.contains(x));
    lemma_planned_shrinks(base, by_session(prompts), home, names, x);
}

pub proof fn lemma_planned_shrinks(
    state: NotifyValue,
    waiting: Seq<(Seq<char>, PromptValue)>,
    home: Seq<char>,
    names: NamesValue,
    x: Seq<char>,
)
    ensures
        planned(state, waiting, home, names).dismissed.contains(x) ==> state.dismissed.contains(x),
    decreases waiting.len(),
{
    if waiting.len() > 0 {
        lemma_planned_shrinks(state, waiting.drop_last(), home, names, x);
    }
}

/// A heartbeat shows at most one prompt for each session.
pub proof fn law_one_prompt_per_session(
    state: NotifyValue,
    prompts: Seq<PromptValue>,
    home: Seq<char>,
    names: NamesValue,
    i: int,
    j: int,
)
    requires
        0 <= i < j < heartbeat_step(state, prompts, home, names).posts.len(),
    ensures
        heartbeat_step(state, prompts, home, names).posts[i].session_key != heartbeat_step(
            state,
            prompts,
            home,
            names,
        ).posts[j].session_key,
{
    lemma_by_session_distinct(prompts);
    let base = cleared(state, prompts).state;
    lemma_planned_keys(base, by_session(prompts), home, names);
}

pub proof fn lemma_planned_keys(
    state: NotifyValue,
    waiting: Seq<(Seq<char>, PromptValue)>,
    home: Seq<char>,
    names: NamesValue,
)
    requires
        keys_distinct(waiting),
    ensures
        ({
            let posts = planned(state, waiting, home, names).posts;
            &&& forall|i: int|
                0 <= i < posts.len() ==> exists|k: int|
                    0 <= k < waiting.len() && (#[trigger] waiting[k]).0 == (
                    #[trigger] posts[i]).session_key
            &&& forall|i: int, j: int|
                0 <= i < j < posts.len() ==> (#[trigger] posts[i]).session_key != (
                #[trigger] posts[j]).session_key
        }),
    decreases waiting.len(),
{
    if waiting.len() > 0 {
        let rest = waiting.drop_last();
        assert(forall|i: int| 0 <= i < rest.len() ==> #[trigger] rest[i] == waiting[i]);
        lemma_planned_keys(state, rest, home, names);
        let before = planned(state, rest, home, names).posts;
        let posts = planned(state, waiting, home, names).posts;
        let last = waiting.last();
        assert forall|i: int| 0 <= i < posts.len() implies exists|k: int|
            0 <= k < waiting.len() && (#[trigger] waiting[k]).0 == (#[trigger] posts[i]).session_key by {
            if i < before.len() {
                assert(posts[i] == before[i]);
                let k = choose|k: int|
                    0 <= k < rest.len() && (#[trigger] rest[k]).0 == before[i].session_key;
                assert(waiting[k].0 == posts[i].session_key);
            } else {
                assert(waiting[waiting.len() - 1].0 == posts[i].session_key);
            }
        }
        assert forall|i: int, j: int| 0 <= i < j < posts.len() implies (
        #[trigger] posts[i]).session_key != (#[trigger] posts[j]).session_key by {
            assert(posts[i] == before[i]);
            if j < before.len() {
                assert(posts[j] == before[j]);
            } else {
                let k = choose|k: int|
                    0 <= k < rest.len() && (#[trigger] rest[k]).0 == before[i].session_key;
                assert(waiting[k].0 != waiting[waiting.len() - 1].0);
            }
        }
    }
}

/// A prompt that is on the screen is not shown a second time.
pub proof fn law_shown_prompt_is_not_repeated(
    state: NotifyValue,
    waiting: Seq<(Seq<char>, PromptValue)>,
    home: Seq<char>,
    names: NamesValue,
    i: int,
)
    requires
        keys_distinct(waiting),
        0 <= i < planned(state, waiting, home, names).posts.len(),
    ensures
        ({
            let post = planned(state, waiting, home, names).posts[i];
            !(lookup(state.last_prompt_ids, post.session_key) == Some(post.prompt_id) && has_key(
                state.session_notif,
                post.session_key,
            ))
        }),
    decreases waiting.len(),
{
    let rest = waiting.drop_last();
    let before = planned(state, rest, home, names).posts;
    let posts = planned(state, waiting, home, names).posts;
    assert(forall|k: int| 0 <= k < rest.len() ==> #[trigger] rest[k] == waiting[k]);
    if i < before.len() {
        assert(posts[i] == before[i]);
        law_shown_prompt_is_not_repeated(state, rest, home, names, i);
    }
}

/// After a prompt was shown, it counts as on the screen: its session has the
/// notification, and a click on it decides the call.
pub proof fn law_posted_prompt_can_be_clicked(state: NotifyValue, post: PostValue, id: u32)
    ensures
        lookup(posted(state, post, id).session_notif, post.session_key) == Some(id),
        lookup(posted(state, post, id).last_prompt_ids, post.session_key) == Some(post.prompt_id),
        click_outcome(posted(state, post, id), id, "once"@) == (ClickValue::Decide {
            call: post.prompt_id,
            decision: WireDecision::Once,
        }),
{
    let rest = if post.replaces_id != 0 && post.replaces_id != id {
        erase(state.active, post.replaces_id)
    } else {
        state.active
    };
    let value = ActiveValue {
        session_id: post.session_key,
        asks_about: Some(post.prompt_id),
    };
    lemma_put(rest, id, value, id);
    lemma_put(state.session_notif, post.session_key, id, post.session_key);
    lemma_put(state.last_prompt_ids, post.session_key, post.prompt_id, post.session_key);
}

/// A notification is clicked at most once: after a click that decides, the same
/// click is stale, and the call is dismissed.
pub proof fn law_click_decides_once(state: NotifyValue, id: u32, action: Seq<char>)
    requires
        keys_distinct(state.active),
        click_outcome(state, id, action) is Decide || click_outcome(state, id, action) is Always,
    ensures
        click_outcome(clicked(state, id, action), id, action) is Stale,
        lookup(state.active, id)->0.asks_about is Some,
        clicked(state, id, action).dismissed.contains(lookup(state.active, id)->0.asks_about->0),
{
    lemma_erase(state.active, id, id);
}

/// A click on an unknown notification is explained once and no more.
pub proof fn law_stale_click_explained_once(state: NotifyValue, id: u32, action: Seq<char>)
    requires
        lookup(state.active, id) is None,
    ensures
        click_outcome(state, id, action) == (ClickValue::Stale { explain: !state.stale_seen }),
        click_outcome(clicked(state, id, action), id, action) == (ClickValue::Stale {
            explain: false,
        }),
{
}

} // verus!
