//! Laws of the prompts on the screen: which of them a heartbeat brings up, and
//! which it takes down.

use vstd::prelude::*;
use crate::agent::NamesValue;
use crate::assoc::{
    has_key, index_of, keys_distinct, lemma_erase, lemma_index_of, lemma_lookup_at, lemma_put,
    lookup,
};
use crate::emit::notify::{
    approval_body, approval_summary, by_session, cleared, close_session, close_sessions,
    heartbeat_step, is_stale, lemma_by_session_distinct, lemma_planned_shrinks, planned, post_for,
    session_key, stale_sessions, Closed, NotifyValue, PostValue,
};
use crate::emit::notify_laws::{lemma_cleared, lemma_close_sessions, lemma_stale};
use crate::state::PromptValue;

verus! {

type Waiting = Seq<(Seq<char>, PromptValue)>;

/// Whether a prompt is the last one of its session.
pub open spec fn is_last_of_session(prompts: Seq<PromptValue>, i: int) -> bool {
    &&& 0 <= i < prompts.len()
    &&& forall|j: int|
        i < j < prompts.len() ==> session_key(#[trigger] prompts[j]) != session_key(prompts[i])
}

/// Of the prompts of a session the last one counts.
pub proof fn law_last_prompt_of_a_session_counts(prompts: Seq<PromptValue>, i: int)
    requires
        is_last_of_session(prompts, i),
    ensures
        lookup(by_session(prompts), session_key(prompts[i])) == Some(prompts[i]),
    decreases prompts.len(),
{
    let rest = prompts.drop_last();
    let last = prompts.last();
    let key = session_key(prompts[i]);
    let n = prompts.len() - 1;
    assert(prompts[n] == last);
    lemma_put(by_session(rest), session_key(last), last, key);
    if i < n {
        assert(session_key(prompts[n]) != key);
        assert(forall|k: int| 0 <= k < rest.len() ==> #[trigger] rest[k] == prompts[k]);
        law_last_prompt_of_a_session_counts(rest, i);
    }
}

/// A session counts as asked only if there is a prompt for it: its last one.
pub proof fn law_asked_session_has_a_prompt(prompts: Seq<PromptValue>, key: Seq<char>) -> (i: int)
    requires
        lookup(by_session(prompts), key) is Some,
    ensures
        is_last_of_session(prompts, i),
        lookup(by_session(prompts), key) == Some(prompts[i]),
        session_key(prompts[i]) == key,
    decreases prompts.len(),
{
    let rest = prompts.drop_last();
    let last = prompts.last();
    let n = prompts.len() - 1;
    if n < 0 {
        assert(by_session(prompts) =~= Seq::empty());
        0
    } else {
        assert(prompts[n] == last);
        lemma_put(by_session(rest), session_key(last), last, key);
        if session_key(last) == key {
            n
        } else {
            let i = law_asked_session_has_a_prompt(rest, key);
            assert forall|j: int| i < j < prompts.len() implies session_key(#[trigger] prompts[j])
                != session_key(prompts[i]) by {
                assert(rest[i] == prompts[i]);
                if j < n {
                    assert(rest[j] == prompts[j]);
                }
            }
            i
        }
    }
}

proof fn lemma_comes_up(
    base: NotifyValue,
    waiting: Waiting,
    home: Seq<char>,
    names: NamesValue,
    k: int,
) -> (j: int)
    requires
        0 <= k < waiting.len(),
        !base.dismissed.contains(waiting[k].1.id),
        !(lookup(base.last_prompt_ids, waiting[k].0) == Some(waiting[k].1.id) && has_key(
            base.session_notif,
            waiting[k].0,
        )),
    ensures
        0 <= j < planned(base, waiting, home, names).posts.len(),
        planned(base, waiting, home, names).posts[j] == post_for(
            base,
            waiting[k].0,
            waiting[k].1,
            home,
            names,
        ),
    decreases waiting.len(),
{
    let rest = waiting.drop_last();
    let all = planned(base, waiting, home, names).posts;
    lemma_planned_shrinks(base, waiting, home, names, waiting[k].1.id);
    if k == waiting.len() - 1 {
        assert(waiting[k] == waiting.last());
        all.len() - 1
    } else {
        assert(rest[k] == waiting[k]);
        let j = lemma_comes_up(base, rest, home, names, k);
        assert(all[j] == planned(base, rest, home, names).posts[j]);
        j
    }
}

proof fn lemma_comes_from(
    base: NotifyValue,
    waiting: Waiting,
    home: Seq<char>,
    names: NamesValue,
    j: int,
) -> (k: int)
    requires
        0 <= j < planned(base, waiting, home, names).posts.len(),
    ensures
        0 <= k < waiting.len(),
        planned(base, waiting, home, names).posts[j] == post_for(
            base,
            waiting[k].0,
            waiting[k].1,
            home,
            names,
        ),
    decreases waiting.len(),
{
    let rest = waiting.drop_last();
    let before = planned(base, rest, home, names).posts;
    if j < before.len() {
        let k = lemma_comes_from(base, rest, home, names, j);
        assert(rest[k] == waiting[k]);
        k
    } else {
        assert(waiting[waiting.len() - 1] == waiting.last());
        waiting.len() - 1
    }
}

/// What is known of a session that waits is not touched when others are closed.
proof fn lemma_kept(state: NotifyValue, prompts: Seq<PromptValue>, key: Seq<char>)
    requires
        state.wf(),
        has_key(by_session(prompts), key),
    ensures
        lookup(cleared(state, prompts).state.session_notif, key) == lookup(
            state.session_notif,
            key,
        ),
        lookup(cleared(state, prompts).state.last_prompt_ids, key) == lookup(
            state.last_prompt_ids,
            key,
        ),
{
    let waiting = by_session(prompts);
    let stale = stale_sessions(state, waiting, state.session_notif);
    lemma_cleared(state, prompts);
    lemma_stale(state, waiting, state.session_notif);
    lemma_close_sessions(state, stale);
    if stale.contains(key) {
        let j = choose|j: int| 0 <= j < stale.len() && stale[j] == key;
        assert(!has_key(waiting, stale[j]));
    }
}

/// Whether a notification is that of a prompt.
pub open spec fn is_post_of(
    post: PostValue,
    p: PromptValue,
    state: NotifyValue,
    home: Seq<char>,
    names: NamesValue,
) -> bool {
    &&& post.prompt_id == p.id
    &&& post.session_key == session_key(p)
    &&& post.summary == approval_summary(p, home, names)
    &&& post.body == approval_body(p, home, names)
    &&& post.replaces_id == (match lookup(state.session_notif, session_key(p)) {
        Some(id) => id,
        None => 0,
    })
}

/// A prompt that was not dismissed and is not on the screen comes up with the
/// heartbeat that tells of it, in the place of what its session shows.
pub proof fn law_new_prompt_comes_up(
    state: NotifyValue,
    prompts: Seq<PromptValue>,
    home: Seq<char>,
    names: NamesValue,
    i: int,
) -> (j: int)
    requires
        state.wf(),
        is_last_of_session(prompts, i),
        !state.dismissed.contains(prompts[i].id),
        lookup(state.session_notif, session_key(prompts[i])) is None || lookup(
            state.last_prompt_ids,
            session_key(prompts[i]),
        ) != Some(prompts[i].id),
    ensures
        0 <= j < heartbeat_step(state, prompts, home, names).posts.len(),
        is_post_of(
            heartbeat_step(state, prompts, home, names).posts[j],
            prompts[i],
            state,
            home,
            names,
        ),
{
    let key = session_key(prompts[i]);
    let waiting = by_session(prompts);
    law_last_prompt_of_a_session_counts(prompts, i);
    lemma_index_of(waiting, key);
    let k = index_of(waiting, key) as int;
    let base = cleared(state, prompts).state;
    lemma_kept(state, prompts, key);
    lemma_cleared(state, prompts);
    assert(!base.dismissed.contains(prompts[i].id));
    lemma_comes_up(base, waiting, home, names, k)
}

/// What comes up with a heartbeat is the last prompt of a session that it tells
/// of, as it tells it.
pub proof fn law_only_told_prompts_come_up(
    state: NotifyValue,
    prompts: Seq<PromptValue>,
    home: Seq<char>,
    names: NamesValue,
    j: int,
) -> (i: int)
    requires
        state.wf(),
        0 <= j < heartbeat_step(state, prompts, home, names).posts.len(),
    ensures
        is_last_of_session(prompts, i),
        is_post_of(
            heartbeat_step(state, prompts, home, names).posts[j],
            prompts[i],
            state,
            home,
            names,
        ),
{
    let waiting = by_session(prompts);
    let base = cleared(state, prompts).state;
    let k = lemma_comes_from(base, waiting, home, names, j);
    lemma_by_session_distinct(prompts);
    lemma_lookup_at(waiting, k);
    lemma_kept(state, prompts, waiting[k].0);
    law_asked_session_has_a_prompt(prompts, waiting[k].0)
}

proof fn lemma_stale_is(
    state: NotifyValue,
    waiting: Waiting,
    slots: Seq<(Seq<char>, u32)>,
    j: int,
) -> (i: int)
    requires
        0 <= j < stale_sessions(state, waiting, slots).len(),
    ensures
        0 <= i < slots.len(),
        slots[i].0 == stale_sessions(state, waiting, slots)[j],
        is_stale(state, waiting, slots[i].0, slots[i].1),
    decreases slots.len(),
{
    let rest = slots.drop_last();
    let before = stale_sessions(state, waiting, rest);
    if j < before.len() {
        let i = lemma_stale_is(state, waiting, rest, j);
        assert(rest[i] == slots[i]);
        i
    } else {
        assert(slots[slots.len() - 1] == slots.last());
        slots.len() - 1
    }
}

proof fn lemma_closed_numbers(state: NotifyValue, sessions: Seq<Seq<char>>)
    requires
        state.wf(),
    ensures
        forall|s: Seq<char>, id: u32|
            #![trigger sessions.contains(s), close_sessions(state, sessions).ids.contains(id)]
            sessions.contains(s) && lookup(state.session_notif, s) == Some(id) ==> close_sessions(
                state,
                sessions,
            ).ids.contains(id),
        forall|j: int|
            0 <= j < close_sessions(state, sessions).ids.len() ==> exists|s: Seq<char>|
                #![trigger sessions.contains(s)]
                sessions.contains(s) && lookup(state.session_notif, s) == Some(
                    #[trigger] close_sessions(state, sessions).ids[j],
                ),
    decreases sessions.len(),
{
    if sessions.len() > 0 {
        let rest = sessions.drop_last();
        let last = sessions.last();
        lemma_closed_numbers(state, rest);
        lemma_close_sessions(state, rest);
        let before = close_sessions(state, rest);
        let after = close_sessions(state, sessions);
        assert(sessions[sessions.len() - 1] == last);
        assert(sessions.contains(last));
        assert forall|s: Seq<char>| #[trigger] sessions.contains(s) implies rest.contains(s) || s
            == last by {
            let i = choose|i: int| 0 <= i < sessions.len() && sessions[i] == s;
            if i < rest.len() {
                assert(rest[i] == s);
            }
        }
        assert forall|s: Seq<char>| #[trigger] rest.contains(s) implies sessions.contains(s) by {
            let i = choose|i: int| 0 <= i < rest.len() && rest[i] == s;
            assert(sessions[i] == s);
        }
        if lookup(before.state.session_notif, last) is Some {
            assert(!rest.contains(last));
            let slot = lookup(before.state.session_notif, last)->0;
            assert(before.state.owns(last, slot));
            assert(after.ids == before.ids.push(slot));
            assert(lookup(state.session_notif, last) == Some(slot));
        } else {
            assert(after.ids == before.ids);
        }
        assert forall|s: Seq<char>, id: u32|
            #![trigger sessions.contains(s), after.ids.contains(id)]
            sessions.contains(s) && lookup(state.session_notif, s) == Some(
                id,
            ) implies after.ids.contains(id) by {
            if rest.contains(s) {
                assert(before.ids.contains(id));
                let j = choose|j: int| 0 <= j < before.ids.len() && before.ids[j] == id;
                assert(after.ids[j] == id);
            } else {
                assert(s == last);
                assert(lookup(before.state.session_notif, last) == Some(id));
                assert(after.ids[before.ids.len() as int] == id);
            }
        }
        assert forall|j: int| 0 <= j < after.ids.len() implies exists|s: Seq<char>|
            #![trigger sessions.contains(s)]
            sessions.contains(s) && lookup(state.session_notif, s) == Some(#[trigger] after.ids[j]) by {
            if j < before.ids.len() {
                assert(after.ids[j] == before.ids[j]);
                let s = choose|s: Seq<char>|
                    #![trigger rest.contains(s)]
                    rest.contains(s) && lookup(state.session_notif, s) == Some(before.ids[j]);
                assert(sessions.contains(s));
            } else {
                assert(sessions.contains(last));
            }
        }
    }
}

/// Whether no prompt is for a session.
pub open spec fn is_not_asked(prompts: Seq<PromptValue>, session: Seq<char>) -> bool {
    forall|i: int| 0 <= i < prompts.len() ==> session_key(#[trigger] prompts[i]) != session
}

/// A prompt goes from the screen with the first heartbeat that does not tell of
/// its session any more.
pub proof fn law_answered_prompt_goes(
    state: NotifyValue,
    prompts: Seq<PromptValue>,
    home: Seq<char>,
    names: NamesValue,
    session: Seq<char>,
    id: u32,
)
    requires
        state.wf(),
        lookup(state.session_notif, session) == Some(id),
        lookup(state.active, id)->0.asks_about is Some,
        is_not_asked(prompts, session),
    ensures
        heartbeat_step(state, prompts, home, names).close.contains(id),
        lookup(heartbeat_step(state, prompts, home, names).state.session_notif, session) is None,
{
    let waiting = by_session(prompts);
    if has_key(waiting, session) {
        let k = law_asked_session_has_a_prompt(prompts, session);
        assert(session_key(prompts[k]) == session);
    }
    lemma_index_of(state.session_notif, session);
    let i = index_of(state.session_notif, session) as int;
    assert(state.owns(session, id));
    assert(is_stale(state, waiting, state.session_notif[i].0, state.session_notif[i].1));
    let stale = stale_sessions(state, waiting, state.session_notif);
    lemma_stale(state, waiting, state.session_notif);
    assert(stale.contains(session));
    lemma_closed_numbers(state, stale);
    lemma_close_sessions(state, stale);
    assert(close_sessions(state, stale).ids.contains(id));
}

/// Nothing else goes: what a heartbeat closes is a prompt on the screen, of a
/// session that it does not tell of.
pub proof fn law_only_answered_prompts_go(
    state: NotifyValue,
    prompts: Seq<PromptValue>,
    home: Seq<char>,
    names: NamesValue,
    j: int,
) -> (session: Seq<char>)
    requires
        state.wf(),
        0 <= j < heartbeat_step(state, prompts, home, names).close.len(),
    ensures
        ({
            let id = heartbeat_step(state, prompts, home, names).close[j];
            &&& lookup(state.session_notif, session) == Some(id)
            &&& lookup(state.active, id) is Some
            &&& lookup(state.active, id)->0.asks_about is Some
            &&& is_not_asked(prompts, session)
        }),
{
    let waiting = by_session(prompts);
    let stale = stale_sessions(state, waiting, state.session_notif);
    lemma_closed_numbers(state, stale);
    let ids = close_sessions(state, stale).ids;
    let id = ids[j];
    let session = choose|s: Seq<char>|
        #![trigger stale.contains(s)]
        stale.contains(s) && lookup(state.session_notif, s) == Some(ids[j]);
    let k = choose|k: int| 0 <= k < stale.len() && stale[k] == session;
    let i = lemma_stale_is(state, waiting, state.session_notif, k);
    lemma_lookup_at(state.session_notif, i);
    assert forall|m: int| 0 <= m < prompts.len() implies session_key(#[trigger] prompts[m])
        != session by {
        if session_key(prompts[m]) == session {
            lemma_some_last(prompts, m);
        }
    }
    session
}

proof fn lemma_some_last(prompts: Seq<PromptValue>, m: int)
    requires
        0 <= m < prompts.len(),
    ensures
        has_key(by_session(prompts), session_key(prompts[m])),
    decreases prompts.len(),
{
    let rest = prompts.drop_last();
    let last = prompts.last();
    let key = session_key(prompts[m]);
    lemma_put(by_session(rest), session_key(last), last, key);
    if m < prompts.len() - 1 {
        assert(rest[m] == prompts[m]);
        lemma_some_last(rest, m);
        assert(lookup(by_session(rest), key) is Some);
    }
    assert(lookup(by_session(prompts), key) is Some);
}

proof fn lemma_old_one_forgotten(
    base: NotifyValue,
    waiting: Waiting,
    home: Seq<char>,
    names: NamesValue,
    k: int,
    old_id: Seq<char>,
)
    requires
        0 <= k < waiting.len(),
        lookup(base.last_prompt_ids, waiting[k].0) == Some(old_id),
        waiting[k].1.id != old_id,
    ensures
        !planned(base, waiting, home, names).dismissed.contains(old_id),
    decreases waiting.len(),
{
    if k == waiting.len() - 1 {
        assert(waiting[k] == waiting.last());
    } else {
        assert(waiting.drop_last()[k] == waiting[k]);
        lemma_old_one_forgotten(base, waiting.drop_last(), home, names, k, old_id);
    }
}

/// A new call of a session ends the dismissal of the one before it.
pub proof fn law_new_call_ends_dismissal(
    state: NotifyValue,
    prompts: Seq<PromptValue>,
    home: Seq<char>,
    names: NamesValue,
    i: int,
    old_id: Seq<char>,
)
    requires
        state.wf(),
        is_last_of_session(prompts, i),
        lookup(state.last_prompt_ids, session_key(prompts[i])) == Some(old_id),
        prompts[i].id != old_id,
    ensures
        !heartbeat_step(state, prompts, home, names).state.dismissed.contains(old_id),
{
    let key = session_key(prompts[i]);
    let waiting = by_session(prompts);
    law_last_prompt_of_a_session_counts(prompts, i);
    lemma_index_of(waiting, key);
    let k = index_of(waiting, key) as int;
    lemma_kept(state, prompts, key);
    lemma_old_one_forgotten(cleared(state, prompts).state, waiting, home, names, k, old_id);
}

/// Closing a session's prompt takes its notification down, and what was known of
/// it with it: its call is not kept as dismissed.
pub proof fn law_closed_prompt_is_forgotten(before: Closed, session: Seq<char>, id: u32)
    requires
        keys_distinct(before.state.active),
        keys_distinct(before.state.session_notif),
        keys_distinct(before.state.last_prompt_ids),
        lookup(before.state.session_notif, session) == Some(id),
        lookup(before.state.active, id) is Some,
    ensures
        ({
            let after = close_session(before, session);
            &&& after.ids == before.ids.push(id)
            &&& lookup(after.state.active, id) is None
            &&& lookup(after.state.session_notif, session) is None
            &&& lookup(after.state.last_prompt_ids, session) is None
            &&& lookup(before.state.active, id)->0.asks_about matches Some(call)
                ==> after.state.dismissed == before.state.dismissed.remove(call)
            &&& lookup(before.state.active, id)->0.asks_about is None ==> after.state.dismissed
                == before.state.dismissed
        }),
{
    lemma_erase(before.state.active, id, id);
    lemma_erase(before.state.session_notif, session, session);
    lemma_erase(before.state.last_prompt_ids, session, session);
}

} // verus!
