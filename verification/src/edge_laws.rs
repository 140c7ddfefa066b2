//! Laws of the calls at the edges: files that are read and written, lines that
//! are sent, devices and notifications that come and go.

use vstd::prelude::*;
use vstd::utf8::encode_utf8;
use crate::assoc::{lemma_put, lookup};
use crate::cli::seed_message;
use crate::emit::ble::{
    find_nus_chars, find_override, session_opening, Backoff, NUS_RX_CHAR_UUID, NUS_TX_CHAR_UUID,
};
use crate::emit::ctrl::{greeting_lines, streamed_line, Subscriptions};
use crate::emit::http::{handle, HttpReply, Route, StateReply};
use crate::emit::notify::{ActiveValue, ApprovalPost, NotifyState};
use crate::ingest::hooks::event_name_str;
use crate::ingest::jsonl::offsets::{FileOffsetEntry, FileOffsets};
use crate::ingest::jsonl::tokens::PersistedTokens;
use crate::ingest::relay::{outgoing_line, STDIN_MAX_BYTES, STDIN_TIMEOUT_DEFAULT_MS};
use crate::json::{Json, JsonValue};
use crate::lines::{heartbeat_line, line_of};
use crate::outside::{json_print, json_text};
use crate::permission::additions::target::{
    local_settings, resolve_write_target, AuditTarget, TargetValue, WriteTarget,
};
use crate::permission::additions::undo::{undo_file, UndoError};
use crate::permission::allowlist::{settings_lists, Allowlist};
use crate::permission::cache::{lists_for, ProjectAllowlistCache};
use crate::proto::buddy::{heartbeat_json, Heartbeat};
use crate::proto::hook::{text_of, HookEvent};
use crate::setup::{
    any_added, load_settings, write_default_config_if_absent, ConfigAction, HookAction,
    HookMergeResult, DEFAULT_CONFIG_TOML,
};
use crate::state::AggregatorMsg;
use crate::text::texts_of;
use crate::util::short_session_id;

verus! {

// ---------------------------------------------------------------------------
// Files.

/// Settings that are not there are empty; those that cannot be read are refused,
/// and the others are what they say.
pub proof fn law_settings_are_loaded(text: &str, r: Option<Json>, missing: Option<Json>)
    requires
        call_ensures(load_settings, (Some(text),), r),
        call_ensures(load_settings, (None::<&str>,), missing),
    ensures
        missing is Some && missing->0@ == JsonValue::Object(Seq::empty()),
        r is Some <==> json_text(text@) is Some,
        r matches Some(v) ==> json_text(text@) == Some(v@),
{
}

/// Lists whose file is not there are empty; one that cannot be read is refused.
pub proof fn law_lists_are_loaded(text: &str, r: Option<Allowlist>, missing: Option<Allowlist>)
    requires
        call_ensures(Allowlist::from_text, (Some(text),), r),
        call_ensures(Allowlist::from_text, (None::<&str>,), missing),
    ensures
        missing is Some && missing->0.allow@.len() == 0 && missing->0.deny@.len() == 0,
        r is Some <==> json_text(text@) is Some,
        r matches Some(lists) ==> lists@ == settings_lists(json_text(text@)->0),
{
    assert(missing->0@.allow.len() == missing->0.allow@.len());
    assert(missing->0@.deny.len() == missing->0.deny@.len());
}

/// Counts whose file is not there are zero; a file without them is refused; and
/// what was saved is loaded.
pub proof fn law_counts_are_loaded(
    counts: PersistedTokens,
    saved: String,
    text: &str,
    r: Option<PersistedTokens>,
    missing: Option<PersistedTokens>,
)
    requires
        call_ensures(PersistedTokens::save, (&counts,), saved),
        text@ == saved@,
        call_ensures(PersistedTokens::load, (Some(text),), r),
        call_ensures(PersistedTokens::load, (None::<&str>,), missing),
    ensures
        missing matches Some(m) && m.today == 0 && m.cumulative == 0 && m.date@.len() == 0,
        r matches Some(c) && c.today == counts.today && c.cumulative == counts.cumulative && c.date@
            == counts.date@,
{
}

/// A default configuration is written only where there is a place for it and
/// nothing stands there.
pub proof fn law_configuration_is_not_overwritten(path: String, present: bool, r: ConfigAction)
    requires
        call_ensures(write_default_config_if_absent, (Some(path), present), r),
    ensures
        present <==> r is AlreadyPresent,
        !present <==> r is Created,
        r matches ConfigAction::Created { path: p, text } ==> p@ == path@ && text@
            == DEFAULT_CONFIG_TOML@,
{
}

/// Settings are saved after a setup exactly if something was added.
pub proof fn law_saved_if_added(results: Vec<HookMergeResult>, r: bool)
    requires
        call_ensures(any_added, (&results,), r),
    ensures
        r <==> exists|i: int|
            0 <= i < results@.len() && (#[trigger] results@[i]).action == HookAction::Added,
{
}

/// A pattern is written for the project, or for the directory itself where there
/// is none.
pub proof fn law_place_of_an_addition(cwd: &str, root: Option<String>, r: WriteTarget)
    requires
        call_ensures(resolve_write_target, (cwd, root), r),
    ensures
        root matches Some(p) ==> r.root@ == p@,
        root is None ==> r.root@ == cwd@,
{
}

/// An undo goes to the file that the addition went to: the user's, or the local
/// one of the project; and to none whose place is not known.
pub proof fn law_file_of_an_undo(
    target: AuditTarget,
    user_settings: &str,
    user_dir: &str,
    agent_dir: &str,
    r: Result<String, UndoError>,
)
    requires
        call_ensures(
            undo_file,
            (&target, None::<&str>, user_settings, user_dir, None::<&str>, agent_dir),
            r,
        ),
    ensures
        target@ is UserGlobal ==> r is Ok && r->Ok_0@ == user_settings@,
        target@ is Unknown ==> r is Err,
        target@ matches TargetValue::ProjectLocal { root } ==> {
            &&& r matches Ok(file) ==> file@ == local_settings(root, agent_dir@)
            &&& root.len() == 0 || root[0] != '/' ==> r is Err
            &&& root == user_dir@ ==> r is Err
        },
{
}

/// Lists that were read again take the place of the old ones, and of no others.
pub proof fn law_reloaded_lists_hold(
    cache: &mut ProjectAllowlistCache,
    root: &str,
    project: Allowlist,
    other: Seq<char>,
)
    requires
        call_ensures(ProjectAllowlistCache::reload_project, (cache, root, project), ()),
        lookup(old(cache)@.projects, root@) is Some,
    ensures
        ({
            let before = lookup(old(cache)@.projects, root@)->0;
            let after = lookup(final(cache)@.projects, root@);
            &&& after is Some
            &&& after->0.project == project@
            &&& after->0.local == before.local
            &&& final(cache)@.user == old(cache)@.user
            &&& other != root@ ==> lookup(final(cache)@.projects, other) == lookup(
                old(cache)@.projects,
                other,
            )
        }),
{
    let p = lookup(old(cache)@.projects, root@)->0;
    let now = crate::permission::cache::ProjectLists { project: project@, ..p };
    lemma_put(old(cache)@.projects, root@, now, root@);
    lemma_put(old(cache)@.projects, root@, now, other);
}

/// The same for the local lists of a project.
pub proof fn law_reloaded_local_lists_hold(
    cache: &mut ProjectAllowlistCache,
    root: &str,
    local: Allowlist,
    other: Seq<char>,
)
    requires
        call_ensures(ProjectAllowlistCache::reload_local, (cache, root, local), ()),
        lookup(old(cache)@.projects, root@) is Some,
    ensures
        ({
            let before = lookup(old(cache)@.projects, root@)->0;
            let after = lookup(final(cache)@.projects, root@);
            &&& after is Some
            &&& after->0.local == local@
            &&& after->0.project == before.project
            &&& final(cache)@.user == old(cache)@.user
            &&& other != root@ ==> lookup(final(cache)@.projects, other) == lookup(
                old(cache)@.projects,
                other,
            )
        }),
{
    let p = lookup(old(cache)@.projects, root@)->0;
    let now = crate::permission::cache::ProjectLists { local: local@, ..p };
    lemma_put(old(cache)@.projects, root@, now, root@);
    lemma_put(old(cache)@.projects, root@, now, other);
}

/// The same for the user's lists, which hold everywhere.
pub proof fn law_reloaded_user_lists_hold(cache: &mut ProjectAllowlistCache, user: Allowlist)
    requires
        call_ensures(ProjectAllowlistCache::reload_user, (cache, user), ()),
    ensures
        final(cache)@.user == user@,
        final(cache)@.projects == old(cache)@.projects,
        lists_for(final(cache)@, None) == user@,
{
}

/// What was read of a file is counted in bytes, and reading goes on behind it.
pub proof fn law_reading_goes_on(
    offsets: &mut FileOffsets,
    path: &str,
    text: &str,
    lines: Vec<String>,
    other: Seq<char>,
)
    requires
        call_ensures(FileOffsets::drain_new_lines, (offsets, path, text), lines),
        lookup(old(offsets)@, path@) is Some,
        lookup(old(offsets)@, path@)->0.offset + encode_utf8(text@).len() <= u64::MAX,
    ensures
        ({
            let before = lookup(old(offsets)@, path@)->0;
            let after = lookup(final(offsets)@, path@);
            &&& after is Some
            &&& after->0.offset == before.offset + encode_utf8(text@).len()
            &&& after->0.dev == before.dev
            &&& after->0.inode == before.inode
            &&& other != path@ ==> lookup(final(offsets)@, other) == lookup(old(offsets)@, other)
            &&& !text@.contains('\n') && text@.len() > 0 ==> texts_of(lines@) == seq![text@]
            &&& text@.len() == 0 ==> lines@.len() == 0
        }),
{
    let before = lookup(old(offsets)@, path@)->0;
    let now = FileOffsetEntry {
        offset: (before.offset + encode_utf8(text@).len()) as u64,
        ..before
    };
    lemma_put(old(offsets)@, path@, now, path@);
    lemma_put(old(offsets)@, path@, now, other);
    if !text@.contains('\n') {
        crate::ingest::jsonl::laws::law_lines_are_read_one_by_one(text@, Seq::empty());
    }
    assert(texts_of(lines@).len() == lines@.len());
}

/// A file that is known goes on where it was; a new one, and one that took the
/// place of another, starts from its start.
pub proof fn law_reading_resumes(
    offsets: &mut FileOffsets,
    path: &str,
    dev: u64,
    inode: u64,
    r: u64,
)
    requires
        call_ensures(FileOffsets::resume, (offsets, path, dev, inode), r),
    ensures
        lookup(old(offsets)@, path@) is None ==> r == 0,
        lookup(old(offsets)@, path@) matches Some(e) ==> r == if e.dev == dev && e.inode == inode {
            e.offset
        } else {
            0
        },
        lookup(final(offsets)@, path@) == Some(FileOffsetEntry { offset: r, dev, inode }),
{
}

// ---------------------------------------------------------------------------
// Lines.

/// A line is a document and a line feed.
pub proof fn law_line_of_a_document(doc: JsonValue)
    ensures
        line_of(doc).len() > 0,
        line_of(doc).last() == '\n',
        line_of(doc).drop_last() == json_print(doc),
{
    assert(line_of(doc).drop_last() =~= json_print(doc));
}

/// A client is told of heartbeats exactly while it wants to be, and each as it is.
pub proof fn law_heartbeats_for_subscribers(
    topics: Subscriptions,
    hb: Heartbeat,
    r: Option<String>,
    line: String,
)
    requires
        call_ensures(streamed_line, (&topics, &hb), r),
        call_ensures(heartbeat_line, (&hb,), line),
    ensures
        r is Some <==> topics.heartbeat,
        r matches Some(t) ==> t@ == line@,
{
}

/// A client is greeted first, and then told how things stand, if that is known.
pub proof fn law_greeting_comes_first(
    owner: &str,
    epoch: i64,
    offset: i32,
    hb: Heartbeat,
    known: Vec<String>,
    unknown: Vec<String>,
)
    requires
        call_ensures(greeting_lines, (owner, epoch, offset, Some(&hb)), known),
        call_ensures(greeting_lines, (owner, epoch, offset, None::<&Heartbeat>), unknown),
    ensures
        unknown@.len() == 1,
        known@.len() == 2,
        known@[0]@ == unknown@[0]@,
        known@[1]@ == line_of(heartbeat_json(hb)),
{
    assert(texts_of(known@).len() == known@.len());
    assert(texts_of(unknown@).len() == unknown@.len());
    assert(texts_of(known@)[0] == known@[0]@);
    assert(texts_of(unknown@)[0] == unknown@[0]@);
    assert(texts_of(known@)[1] == known@[1]@);
}

/// So is a device, with two lines first.
pub proof fn law_opening_comes_first(
    owner: &str,
    epoch: i64,
    offset: i32,
    hb: Heartbeat,
    known: Vec<String>,
    unknown: Vec<String>,
)
    requires
        call_ensures(session_opening, (owner, epoch, offset, Some(&hb)), known),
        call_ensures(session_opening, (owner, epoch, offset, None::<&Heartbeat>), unknown),
    ensures
        unknown@.len() == 2,
        known@.len() == 3,
        known@[0]@ == unknown@[0]@,
        known@[1]@ == unknown@[1]@,
        known@[2]@ == line_of(heartbeat_json(hb)),
{
    assert(texts_of(known@).len() == known@.len());
    assert(texts_of(unknown@).len() == unknown@.len());
    assert(texts_of(known@)[0] == known@[0]@);
    assert(texts_of(unknown@)[0] == unknown@[0]@);
    assert(texts_of(known@)[1] == known@[1]@);
    assert(texts_of(unknown@)[1] == unknown@[1]@);
    assert(texts_of(known@)[2] == known@[2]@);
}

/// An event is handed on as one line; nothing is handed on where nothing was read.
pub proof fn law_event_is_handed_on(text: &str, r: Option<String>, nothing: Option<String>)
    requires
        call_ensures(outgoing_line, (Some(text), STDIN_MAX_BYTES), r),
        call_ensures(outgoing_line, (None::<&str>, STDIN_MAX_BYTES), nothing),
        text@.len() > 0,
        text@.last() != '\n' && text@.last() != '\r',
    ensures
        nothing is None,
        encode_utf8(text@).len() <= 1_048_576 ==> text_of(r) == Some(text@.push('\n')),
        encode_utf8(text@).len() > 1_048_576 ==> r is None,
        STDIN_TIMEOUT_DEFAULT_MS == 5_000,
{
    crate::ingest::relay::law_event_is_sent_as_a_line(text@, STDIN_MAX_BYTES as int);
}

/// The page of the state is its heartbeat as JSON.
pub proof fn law_page_is_the_heartbeat(hb: Heartbeat, r: HttpReply)
    requires
        call_ensures(handle, (Route::Status, &StateReply::Heartbeat(hb)), r),
    ensures
        r.status == 200,
        r.content_type@ == "application/json"@,
        r.body@ == json_print(heartbeat_json(hb)),
{
}

/// Events are named by their own names.
pub proof fn law_event_names(event: HookEvent, r: &'static str)
    requires
        call_ensures(event_name_str, (&event,), r),
    ensures
        event is PreToolUse ==> r@ == "PreToolUse"@,
        event is PostToolUse ==> r@ == "PostToolUse"@,
        event is Notification ==> r@ == "Notification"@,
        event is Stop ==> r@ == "Stop"@,
        event is SessionStart ==> r@ == "SessionStart"@,
        event is UserPromptSubmit ==> r@ == "UserPromptSubmit"@,
        event is SessionEnd ==> r@ == "SessionEnd"@,
{
}

/// Of a session's id the first six letters are shown.
pub proof fn law_short_id(id: &str, r: String)
    requires
        call_ensures(short_session_id, (id,), r),
    ensures
        id@.len() <= 6 ==> r@ == id@,
        id@.len() > 6 ==> r@ == id@.take(6),
{
}

// ---------------------------------------------------------------------------
// Devices, notifications and counts.

/// Of two entries for a device the later one counts.
pub proof fn law_last_entry_counts(configured: Vec<Option<u64>>, address: u64, r: Option<usize>)
    requires
        call_ensures(find_override, (&configured, address), r),
    ensures
        r is Some <==> configured@.contains(Some(address)),
        r matches Some(i) ==> i < configured@.len() && configured@[i as int] == Some(address)
            && forall|j: int|
            i < j < configured@.len() ==> #[trigger] configured@[j] != Some(address),
{
    if let Some(i) = r {
        assert(configured@[i as int] == Some(address));
    }
}

/// The two characteristics are found by their own numbers, or none is.
pub proof fn law_characteristics_by_number(uuids: Vec<u128>, r: Option<(usize, usize)>)
    requires
        call_ensures(find_nus_chars, (&uuids,), r),
    ensures
        r is Some <==> uuids@.contains(NUS_RX_CHAR_UUID) && uuids@.contains(NUS_TX_CHAR_UUID),
        r matches Some((rx, tx)) ==> uuids@[rx as int] == NUS_RX_CHAR_UUID && uuids@[tx as int]
            == NUS_TX_CHAR_UUID,
{
    if let Some((rx, tx)) = r {
        assert(uuids@[rx as int] == NUS_RX_CHAR_UUID);
        assert(uuids@[tx as int] == NUS_TX_CHAR_UUID);
    }
}

/// After a session that ended well the pause is one second; after others it is
/// twice as long each time, up to thirty.
pub proof fn law_pauses(backoff: &mut Backoff, ended_well: bool, r: u64)
    requires
        call_ensures(Backoff::pause, (backoff, ended_well), r),
        1 <= old(backoff).secs <= 30,
    ensures
        ended_well ==> r == 1,
        !ended_well ==> r == old(backoff).secs,
        2 * r <= 30 ==> final(backoff).secs == 2 * r,
        2 * r > 30 ==> final(backoff).secs == 30,
{
}

/// A prompt that was shown can be clicked, and is not asked again for its session.
pub proof fn law_shown_prompt_is_known(state: &mut NotifyState, post: ApprovalPost, id: u32)
    requires
        call_ensures(NotifyState::approval_posted, (state, &post, id), ()),
    ensures
        lookup(final(state)@.session_notif, post.session_key@) == Some(id),
        lookup(final(state)@.last_prompt_ids, post.session_key@) == Some(post.prompt_id@),
        lookup(final(state)@.active, id) == Some(
            ActiveValue { session_id: post.session_key@, asks_about: Some(post.prompt_id@) },
        ),
{
    crate::emit::notify::law_posted_prompt_can_be_clicked(old(state)@, post@, id);
    let rest = if post.replaces_id != 0 && post.replaces_id != id {
        crate::assoc::erase(old(state)@.active, post.replaces_id)
    } else {
        old(state)@.active
    };
    lemma_put(
        rest,
        id,
        ActiveValue { session_id: post.session_key@, asks_about: Some(post.prompt_id@) },
        id,
    );
}

/// When all notifications go, each of them is closed, and none is left.
pub proof fn law_all_go(state: &mut NotifyState, r: Vec<u32>, i: int)
    requires
        call_ensures(NotifyState::close_all, (state,), r),
        0 <= i < old(state)@.active.len(),
    ensures
        r@.len() == old(state)@.active.len(),
        r@[i] == old(state)@.active[i].0,
        final(state)@.active.len() == 0,
        final(state)@.session_notif.len() == 0,
{
}

/// Counts from disk are told to the state exactly if there are any.
pub proof fn law_counts_are_seeded(tokens: PersistedTokens, r: Option<AggregatorMsg>)
    requires
        call_ensures(seed_message, (tokens,), r),
    ensures
        tokens.cumulative == 0 && tokens.today == 0 && tokens.date@.len() == 0 <==> r is None,
        r matches Some(AggregatorMsg::SetInitialTokens { cumulative, today, date }) ==> cumulative
            == tokens.cumulative && today == tokens.today && date@ == tokens.date@,
{
}

} // verus!
