//! Laws of notifications over several steps: what every step keeps, and that a
//! heartbeat taken twice is a heartbeat taken once.

use vstd::prelude::*;
use crate::agent::NamesValue;
use crate::assoc::{
    erase, has_key, lemma_erase, lemma_index_of, lemma_lookup_at, lemma_put, lemma_put_distinct,
    lookup,
};
use crate::emit::notify::{
    by_session, cleared, clicked, close_session, close_sessions, dismissed_after, gone,
    heartbeat_step, is_stale, lemma_by_session_distinct, lemma_planned_keys, live_ids, planned,
    posted, shown, shows, slot_or_zero, stale_sessions, ActiveValue, Closed, NotifyValue, PostValue,
};
use crate::state::PromptValue;

verus! {

/// Whether `id` can be the number of a notification that takes the place of
/// `replaced`: one that is not in use, or the one of what it replaces.
pub open spec fn is_fresh(state: NotifyValue, replaced: u32, id: u32) -> bool {
    lookup(state.active, id) is None || (replaced != 0 && id == replaced)
}

/// Showing a notification of a session in the place of its last one keeps what
/// holds of every state, and what the other sessions show.
pub proof fn law_shown_keeps_wf(
    state: NotifyValue,
    key: Seq<char>,
    id: u32,
    asks_about: Option<Seq<char>>,
)
    requires
        state.wf(),
        is_fresh(state, slot_or_zero(state, key), id),
    ensures
        ({
            let after = shown(state, key, slot_or_zero(state, key), id, asks_about);
            &&& after.wf()
            &&& lookup(after.session_notif, key) == Some(id)
            &&& forall|k: Seq<char>|
                k != key ==> (#[trigger] lookup(after.session_notif, k)) == lookup(
                    state.session_notif,
                    k,
                )
            &&& forall|k: Seq<char>|
                k != key ==> ((#[trigger] lookup(state.session_notif, k)) matches Some(slot)
                    ==> lookup(after.active, slot) == lookup(state.active, slot))
        }),
{
    let replaced = slot_or_zero(state, key);
    let after = shown(state, key, replaced, id, asks_about);
    let rest = if replaced != 0 && replaced != id {
        erase(state.active, replaced)
    } else {
        state.active
    };
    let value = ActiveValue { session_id: key, asks_about };
    lemma_erase(state.active, replaced, replaced);
    lemma_put_distinct(rest, id, value);
    lemma_put_distinct(state.session_notif, key, id);
    lemma_put(state.session_notif, key, id, key);
    lemma_put(rest, id, value, id);
    if replaced != 0 {
        assert(lookup(state.session_notif, key) == Some(replaced));
        assert(state.owns(key, replaced));
    }
    assert forall|k: Seq<char>| k != key implies (#[trigger] lookup(after.session_notif, k))
        == lookup(state.session_notif, k) by {
        lemma_put(state.session_notif, key, id, k);
    }
    assert forall|k: Seq<char>| k != key implies (
    (#[trigger] lookup(state.session_notif, k)) matches Some(slot) ==> lookup(after.active, slot)
        == lookup(state.active, slot)) by {
        if let Some(slot) = lookup(state.session_notif, k) {
            assert(state.owns(k, slot));
            assert(slot != id);
            lemma_erase(state.active, replaced, slot);
            lemma_put(rest, id, value, slot);
        }
    }
    assert forall|k: Seq<char>| (
    (#[trigger] lookup(after.session_notif, k)) matches Some(slot) ==> after.owns(k, slot)) by {
        if k != key {
            assert(lookup(after.session_notif, k) == lookup(state.session_notif, k));
            if let Some(slot) = lookup(state.session_notif, k) {
                assert(state.owns(k, slot));
            }
        }
    }
}

/// A notification that goes, closed or clicked, keeps what holds of every state.
pub proof fn law_gone_keeps_wf(state: NotifyValue, id: u32, action: Seq<char>)
    requires
        state.wf(),
    ensures
        gone(state, id).wf(),
        clicked(state, id, action).wf(),
{
    let after = gone(state, id);
    if let Some(n) = lookup(state.active, id) {
        lemma_erase(state.active, id, id);
        lemma_erase(state.session_notif, n.session_id, n.session_id);
        assert forall|k: Seq<char>| (
        (#[trigger] lookup(after.session_notif, k)) matches Some(slot) ==> after.owns(k, slot)) by {
            lemma_erase(state.session_notif, n.session_id, k);
            if let Some(slot) = lookup(after.session_notif, k) {
                assert(lookup(state.session_notif, k) == Some(slot));
                assert(state.owns(k, slot));
                lemma_erase(state.active, id, slot);
            }
        }
    }
}

proof fn lemma_close_session(before: Closed, session: Seq<char>)
    requires
        before.state.wf(),
    ensures
        ({
            let after = close_session(before, session).state;
            &&& after.wf()
            &&& after.stale_seen == before.state.stale_seen
            &&& lookup(after.session_notif, session) is None
            &&& forall|k: Seq<char>|
                k != session ==> (#[trigger] lookup(after.session_notif, k)) == lookup(
                    before.state.session_notif,
                    k,
                )
            &&& forall|k: Seq<char>|
                k != session ==> (#[trigger] lookup(after.last_prompt_ids, k)) == lookup(
                    before.state.last_prompt_ids,
                    k,
                )
            &&& forall|k: Seq<char>|
                k != session ==> ((#[trigger] lookup(before.state.session_notif, k)) matches Some(
                    slot,
                ) ==> lookup(after.active, slot) == lookup(before.state.active, slot))
        }),
{
    let s = before.state;
    let after = close_session(before, session).state;
    lemma_erase(s.session_notif, session, session);
    lemma_erase(s.last_prompt_ids, session, session);
    if let Some(id) = lookup(s.session_notif, session) {
        assert(s.owns(session, id));
        lemma_erase(s.active, id, id);
    }
    assert forall|k: Seq<char>| k != session implies (#[trigger] lookup(after.session_notif, k))
        == lookup(s.session_notif, k) by {
        lemma_erase(s.session_notif, session, k);
    }
    assert forall|k: Seq<char>| k != session implies (#[trigger] lookup(after.last_prompt_ids, k))
        == lookup(s.last_prompt_ids, k) by {
        lemma_erase(s.last_prompt_ids, session, k);
    }
    assert forall|k: Seq<char>| k != session implies (
    (#[trigger] lookup(s.session_notif, k)) matches Some(slot) ==> lookup(after.active, slot)
        == lookup(s.active, slot)) by {
        if let Some(slot) = lookup(s.session_notif, k) {
            assert(s.owns(k, slot));
            if let Some(id) = lookup(s.session_notif, session) {
                lemma_erase(s.active, id, slot);
            }
        }
    }
    assert forall|k: Seq<char>| (
    (#[trigger] lookup(after.session_notif, k)) matches Some(slot) ==> after.owns(k, slot)) by {
        if k != session {
            if let Some(slot) = lookup(s.session_notif, k) {
                assert(s.owns(k, slot));
            }
        }
    }
}

pub proof fn lemma_close_sessions(state: NotifyValue, sessions: Seq<Seq<char>>)
    requires
        state.wf(),
    ensures
        ({
            let after = close_sessions(state, sessions).state;
            &&& after.wf()
            &&& after.stale_seen == state.stale_seen
            &&& forall|k: Seq<char>|
                sessions.contains(k) ==> (#[trigger] lookup(after.session_notif, k)) is None
            &&& forall|k: Seq<char>|
                !sessions.contains(k) ==> (#[trigger] lookup(after.session_notif, k)) == lookup(
                    state.session_notif,
                    k,
                )
            &&& forall|k: Seq<char>|
                !sessions.contains(k) ==> (#[trigger] lookup(after.last_prompt_ids, k)) == lookup(
                    state.last_prompt_ids,
                    k,
                )
            &&& forall|k: Seq<char>|
                !sessions.contains(k) ==> ((#[trigger] lookup(state.session_notif, k)) matches Some(
                    slot,
                ) ==> lookup(after.active, slot) == lookup(state.active, slot))
        }),
    decreases sessions.len(),
{
    if sessions.len() > 0 {
        let rest = sessions.drop_last();
        let last = sessions.last();
        lemma_close_sessions(state, rest);
        let before = close_sessions(state, rest);
        lemma_close_session(before, last);
        let after = close_sessions(state, sessions).state;
        assert(sessions[sessions.len() - 1] == last);
        assert forall|k: Seq<char>| sessions.contains(k) == (rest.contains(k) || k == last) by {
            if sessions.contains(k) && k != last {
                let i = choose|i: int| 0 <= i < sessions.len() && sessions[i] == k;
                assert(rest[i] == k);
            }
            if rest.contains(k) {
                let i = choose|i: int| 0 <= i < rest.len() && rest[i] == k;
                assert(sessions[i] == k);
            }
        }
        assert forall|k: Seq<char>| sessions.contains(k) implies (
        #[trigger] lookup(after.session_notif, k)) is None by {
            if k != last {
                assert(lookup(before.state.session_notif, k) is None);
            }
        }
        assert forall|k: Seq<char>| !sessions.contains(k) implies (
        (#[trigger] lookup(state.session_notif, k)) matches Some(slot) ==> lookup(after.active, slot)
            == lookup(state.active, slot)) by {
            assert(lookup(before.state.session_notif, k) == lookup(state.session_notif, k));
        }
    }
}

pub proof fn lemma_stale(
    state: NotifyValue,
    waiting: Seq<(Seq<char>, PromptValue)>,
    slots: Seq<(Seq<char>, u32)>,
)
    ensures
        ({
            let stale = stale_sessions(state, waiting, slots);
            &&& forall|i: int|
                0 <= i < slots.len() && is_stale(state, waiting, (#[trigger] slots[i]).0, slots[i].1)
                    ==> stale.contains(slots[i].0)
            &&& forall|j: int| 0 <= j < stale.len() ==> !has_key(waiting, #[trigger] stale[j])
            &&& stale.len() > 0 ==> exists|i: int|
                0 <= i < slots.len() && is_stale(state, waiting, (#[trigger] slots[i]).0, slots[i].1)
        }),
    decreases slots.len(),
{
    if slots.len() > 0 {
        let rest = slots.drop_last();
        let last = slots.last();
        lemma_stale(state, waiting, rest);
        let before = stale_sessions(state, waiting, rest);
        let stale = stale_sessions(state, waiting, slots);
        assert(slots[slots.len() - 1] == last);
        if is_stale(state, waiting, last.0, last.1) {
            assert(stale[before.len() as int] == last.0);
        }
        assert forall|i: int|
            0 <= i < slots.len() && is_stale(
                state,
                waiting,
                (#[trigger] slots[i]).0,
                slots[i].1,
            ) implies stale.contains(slots[i].0) by {
            if i < rest.len() {
                assert(rest[i] == slots[i]);
                let j = choose|j: int| 0 <= j < before.len() && before[j] == slots[i].0;
                assert(stale[j] == slots[i].0);
            }
        }
        if before.len() > 0 {
            let i = choose|i: int|
                0 <= i < rest.len() && is_stale(state, waiting, (#[trigger] rest[i]).0, rest[i].1);
            assert(slots[i] == rest[i]);
        }
    }
}

/// Whether no session shows a prompt without waiting.
pub open spec fn no_stale(state: NotifyValue, waiting: Seq<(Seq<char>, PromptValue)>) -> bool {
    forall|k: Seq<char>|
        (#[trigger] lookup(state.session_notif, k)) matches Some(slot) ==> !is_stale(
            state,
            waiting,
            k,
            slot,
        )
}

pub proof fn lemma_cleared(state: NotifyValue, prompts: Seq<PromptValue>)
    requires
        state.wf(),
    ensures
        ({
            let c = cleared(state, prompts).state;
            let waiting = by_session(prompts);
            &&& c.wf()
            &&& no_stale(c, waiting)
            &&& c.dismissed.subset_of(live_ids(prompts))
            &&& c.dismissed.subset_of(state.dismissed)
            &&& c.stale_seen == state.stale_seen
            &&& forall|k: Seq<char>|
                has_key(waiting, k) ==> (#[trigger] lookup(c.last_prompt_ids, k)) == lookup(
                    state.last_prompt_ids,
                    k,
                )
        }),
{
    let waiting = by_session(prompts);
    let slots = state.session_notif;
    let stale = stale_sessions(state, waiting, slots);
    lemma_stale(state, waiting, slots);
    lemma_close_sessions(state, stale);
    lemma_closing_shrinks(state, stale);
    let c = cleared(state, prompts).state;
    let closed = close_sessions(state, stale).state;
    assert(c.active == closed.active && c.session_notif == closed.session_notif);
    assert forall|k: Seq<char>| (
    (#[trigger] lookup(c.session_notif, k)) matches Some(slot) ==> c.owns(k, slot)) by {
        assert(lookup(closed.session_notif, k) matches Some(slot) ==> closed.owns(k, slot));
    }
    assert forall|k: Seq<char>| (
    (#[trigger] lookup(c.session_notif, k)) matches Some(slot) ==> !is_stale(c, waiting, k, slot)) by {
        if let Some(slot) = lookup(c.session_notif, k) {
            assert(!stale.contains(k));
            assert(lookup(slots, k) == Some(slot));
            lemma_index_of(slots, k);
            let i = crate::assoc::index_of(slots, k) as int;
            assert(slots[i].0 == k && slots[i].1 == slot);
            assert(!is_stale(state, waiting, slots[i].0, slots[i].1));
        }
    }
    assert forall|k: Seq<char>| has_key(waiting, k) implies (#[trigger] lookup(c.last_prompt_ids, k))
        == lookup(state.last_prompt_ids, k) by {
        if stale.contains(k) {
            let j = choose|j: int| 0 <= j < stale.len() && stale[j] == k;
            assert(!has_key(waiting, stale[j]));
        }
        assert(lookup(closed.last_prompt_ids, k) == lookup(state.last_prompt_ids, k));
    }
}

proof fn lemma_closing_shrinks(state: NotifyValue, sessions: Seq<Seq<char>>)
    ensures
        close_sessions(state, sessions).state.dismissed.subset_of(state.dismissed),
    decreases sessions.len(),
{
    if sessions.len() > 0 {
        lemma_closing_shrinks(state, sessions.drop_last());
    }
}

/// A heartbeat keeps what holds of every state.
pub proof fn law_heartbeat_keeps_wf(
    state: NotifyValue,
    prompts: Seq<PromptValue>,
    home: Seq<char>,
    names: NamesValue,
)
    requires
        state.wf(),
    ensures
        heartbeat_step(state, prompts, home, names).state.wf(),
{
    lemma_cleared(state, prompts);
    let c = cleared(state, prompts).state;
    let after = heartbeat_step(state, prompts, home, names).state;
    assert forall|k: Seq<char>| (
    (#[trigger] lookup(after.session_notif, k)) matches Some(slot) ==> after.owns(k, slot)) by {
        assert(lookup(c.session_notif, k) matches Some(slot) ==> c.owns(k, slot));
    }
}

/// The state after all the prompts were shown, each under its number.
pub open spec fn posted_all(state: NotifyValue, posts: Seq<PostValue>, ids: Seq<u32>) -> NotifyValue
    decreases posts.len(),
{
    if posts.len() == 0 {
        state
    } else {
        posted(posted_all(state, posts.drop_last(), ids.drop_last()), posts.last(), ids.last())
    }
}

/// Whether each prompt was shown under a number that was not in use, or under
/// that of the notification it replaced.
pub open spec fn all_fresh(state: NotifyValue, posts: Seq<PostValue>, ids: Seq<u32>) -> bool
    decreases posts.len(),
{
    if posts.len() == 0 {
        true
    } else {
        &&& all_fresh(state, posts.drop_last(), ids.drop_last())
        &&& is_fresh(
            posted_all(state, posts.drop_last(), ids.drop_last()),
            posts.last().replaces_id,
            ids.last(),
        )
    }
}

/// Whether one of the prompts is for the session.
spec fn is_posted(posts: Seq<PostValue>, key: Seq<char>) -> bool {
    exists|i: int| 0 <= i < posts.len() && (#[trigger] posts[i]).session_key == key
}

proof fn lemma_posted_all(state: NotifyValue, posts: Seq<PostValue>, ids: Seq<u32>)
    requires
        state.wf(),
        posts.len() == ids.len(),
        all_fresh(state, posts, ids),
        forall|i: int|
            0 <= i < posts.len() ==> (#[trigger] posts[i]).replaces_id == slot_or_zero(
                state,
                posts[i].session_key,
            ),
        forall|i: int, j: int|
            0 <= i < j < posts.len() ==> (#[trigger] posts[i]).session_key != (
            #[trigger] posts[j]).session_key,
    ensures
        ({
            let after = posted_all(state, posts, ids);
            &&& after.wf()
            &&& after.dismissed == state.dismissed
            &&& after.stale_seen == state.stale_seen
            &&& forall|i: int|
                0 <= i < posts.len() ==> lookup(
                    after.session_notif,
                    (#[trigger] posts[i]).session_key,
                ) is Some && lookup(after.last_prompt_ids, posts[i].session_key) == Some(
                    posts[i].prompt_id,
                )
            &&& forall|k: Seq<char>|
                !is_posted(posts, k) ==> (#[trigger] lookup(after.session_notif, k)) == lookup(
                    state.session_notif,
                    k,
                )
            &&& forall|k: Seq<char>|
                !is_posted(posts, k) ==> (#[trigger] lookup(after.last_prompt_ids, k)) == lookup(
                    state.last_prompt_ids,
                    k,
                )
            &&& forall|k: Seq<char>|
                !is_posted(posts, k) ==> ((#[trigger] lookup(state.session_notif, k)) matches Some(
                    slot,
                ) ==> lookup(after.active, slot) == lookup(state.active, slot))
        }),
    decreases posts.len(),
{
    if posts.len() > 0 {
        let rest = posts.drop_last();
        let post = posts.last();
        let id = ids.last();
        let key = post.session_key;
        let n = posts.len() - 1;
        assert(posts[n] == post);
        assert(forall|i: int| 0 <= i < rest.len() ==> #[trigger] rest[i] == posts[i]);
        lemma_posted_all(state, rest, ids.drop_last());
        let before = posted_all(state, rest, ids.drop_last());
        let after = posted_all(state, posts, ids);
        if is_posted(rest, key) {
            let i = choose|i: int| 0 <= i < rest.len() && (#[trigger] rest[i]).session_key == key;
            assert(posts[i].session_key != posts[n].session_key);
        }
        assert(lookup(before.session_notif, key) == lookup(state.session_notif, key));
        assert(post.replaces_id == slot_or_zero(before, key));
        law_shown_keeps_wf(before, key, id, Some(post.prompt_id));
        let middle = shown(before, key, post.replaces_id, id, Some(post.prompt_id));
        lemma_put_distinct(middle.last_prompt_ids, key, post.prompt_id);
        lemma_put(middle.last_prompt_ids, key, post.prompt_id, key);
        assert forall|k: Seq<char>| (
        (#[trigger] lookup(after.session_notif, k)) matches Some(slot) ==> after.owns(k, slot)) by {
            assert(lookup(middle.session_notif, k) matches Some(slot) ==> middle.owns(k, slot));
        }
        assert forall|k: Seq<char>| is_posted(posts, k) == (is_posted(rest, k) || k == key) by {
            if is_posted(posts, k) && k != key {
                let i = choose|i: int| 0 <= i < posts.len() && (#[trigger] posts[i]).session_key == k;
                assert(rest[i].session_key == k);
            }
            if is_posted(rest, k) {
                let i = choose|i: int| 0 <= i < rest.len() && (#[trigger] rest[i]).session_key == k;
                assert(posts[i].session_key == k);
            }
        }
        assert forall|i: int| 0 <= i < posts.len() implies lookup(
            after.session_notif,
            (#[trigger] posts[i]).session_key,
        ) is Some && lookup(after.last_prompt_ids, posts[i].session_key) == Some(
            posts[i].prompt_id,
        ) by {
            if i < n {
                assert(rest[i] == posts[i]);
                assert(posts[i].session_key != posts[n].session_key);
                let k = posts[i].session_key;
                assert(lookup(after.session_notif, k) == lookup(before.session_notif, k));
                lemma_put(middle.last_prompt_ids, key, post.prompt_id, k);
            }
        }
        assert forall|k: Seq<char>| !is_posted(posts, k) implies (
        #[trigger] lookup(after.last_prompt_ids, k)) == lookup(state.last_prompt_ids, k) by {
            lemma_put(middle.last_prompt_ids, key, post.prompt_id, k);
            assert(lookup(before.last_prompt_ids, k) == lookup(state.last_prompt_ids, k));
        }
        assert forall|k: Seq<char>| !is_posted(posts, k) implies (
        #[trigger] lookup(after.session_notif, k)) == lookup(state.session_notif, k) by {
            assert(lookup(before.session_notif, k) == lookup(state.session_notif, k));
        }
        assert forall|k: Seq<char>| !is_posted(posts, k) implies (
        (#[trigger] lookup(state.session_notif, k)) matches Some(slot) ==> lookup(after.active, slot)
            == lookup(state.active, slot)) by {
            assert(lookup(before.session_notif, k) == lookup(state.session_notif, k));
        }
    }
}

/// Whether the prompt for the call `id` of the session is among the posts.
spec fn is_posted_as(posts: Seq<PostValue>, key: Seq<char>, id: Seq<char>) -> bool {
    exists|i: int|
        0 <= i < posts.len() && (#[trigger] posts[i]).session_key == key && posts[i].prompt_id == id
}

/// Whether no session that is now asked about another call was last asked about
/// a dismissed one that an earlier session is asked about now. Calls have ids of
/// their own, so this holds of what sessions send.
pub open spec fn no_shared_call(state: NotifyValue, waiting: Seq<(Seq<char>, PromptValue)>) -> bool {
    forall|i: int, j: int|
        0 <= j < i < waiting.len() && state.dismissed.contains((#[trigger] waiting[j]).1.id)
            && lookup(state.last_prompt_ids, (#[trigger] waiting[i]).0) == Some(waiting[j].1.id)
            ==> waiting[i].1.id == waiting[j].1.id
}

proof fn lemma_planned(
    base: NotifyValue,
    waiting: Seq<(Seq<char>, PromptValue)>,
    home: Seq<char>,
    names: NamesValue,
)
    requires
        no_shared_call(base, waiting),
    ensures
        ({
            let plan = planned(base, waiting, home, names);
            &&& plan.dismissed.subset_of(base.dismissed)
            &&& forall|i: int|
                0 <= i < plan.posts.len() ==> (#[trigger] plan.posts[i]).replaces_id == slot_or_zero(
                    base,
                    plan.posts[i].session_key,
                )
            &&& forall|j: int|
                0 <= j < waiting.len() ==> is_posted_as(
                    plan.posts,
                    (#[trigger] waiting[j]).0,
                    waiting[j].1.id,
                ) || (lookup(base.last_prompt_ids, waiting[j].0) == Some(waiting[j].1.id) && has_key(
                    base.session_notif,
                    waiting[j].0,
                )) || plan.dismissed.contains(waiting[j].1.id)
            &&& forall|j: int|
                0 <= j < waiting.len() ==> (lookup(
                    base.last_prompt_ids,
                    (#[trigger] waiting[j]).0,
                ) matches Some(old_id) ==> old_id != waiting[j].1.id ==> !plan.dismissed.contains(
                    old_id,
                ))
        }),
    decreases waiting.len(),
{
    if waiting.len() > 0 {
        let rest = waiting.drop_last();
        let n = waiting.len() - 1;
        assert(forall|i: int| 0 <= i < rest.len() ==> #[trigger] rest[i] == waiting[i]);
        lemma_planned(base, rest, home, names);
        let before = planned(base, rest, home, names);
        let plan = planned(base, waiting, home, names);
        let (key, p) = waiting.last();
        assert(waiting[n] == waiting.last());
        assert(forall|i: int| 0 <= i < before.posts.len() ==> plan.posts[i] == before.posts[i]);
        assert forall|j: int| 0 <= j < waiting.len() implies is_posted_as(
            plan.posts,
            (#[trigger] waiting[j]).0,
            waiting[j].1.id,
        ) || (lookup(base.last_prompt_ids, waiting[j].0) == Some(waiting[j].1.id) && has_key(
            base.session_notif,
            waiting[j].0,
        )) || plan.dismissed.contains(waiting[j].1.id) by {
            let id = waiting[j].1.id;
            if j < n {
                assert(rest[j] == waiting[j]);
                if is_posted_as(before.posts, rest[j].0, id) {
                    let i = choose|i: int|
                        0 <= i < before.posts.len() && (#[trigger] before.posts[i]).session_key
                            == rest[j].0 && before.posts[i].prompt_id == id;
                    assert(plan.posts[i] == before.posts[i]);
                } else if before.dismissed.contains(id) {
                    assert(base.dismissed.contains(waiting[j].1.id));
                    assert(lookup(base.last_prompt_ids, waiting[n].0) == Some(waiting[j].1.id)
                        ==> waiting[n].1.id == waiting[j].1.id);
                }
            } else if shows(base, plan.dismissed, key, p.id) {
                let last = plan.posts[plan.posts.len() - 1];
                assert(last.session_key == key && last.prompt_id == p.id);
            }
        }
        assert forall|j: int| 0 <= j < waiting.len() implies (lookup(
            base.last_prompt_ids,
            (#[trigger] waiting[j]).0,
        ) matches Some(old_id) ==> old_id != waiting[j].1.id ==> !plan.dismissed.contains(old_id)) by {
            if j < n {
                assert(rest[j] == waiting[j]);
            }
        }
    }
}

proof fn lemma_nothing_new(
    state: NotifyValue,
    waiting: Seq<(Seq<char>, PromptValue)>,
    home: Seq<char>,
    names: NamesValue,
)
    requires
        forall|j: int|
            0 <= j < waiting.len() ==> (lookup(
                state.last_prompt_ids,
                (#[trigger] waiting[j]).0,
            ) matches Some(old_id) ==> old_id != waiting[j].1.id ==> !state.dismissed.contains(
                old_id,
            )),
        forall|j: int|
            0 <= j < waiting.len() ==> state.dismissed.contains((#[trigger] waiting[j]).1.id) || (
            lookup(state.last_prompt_ids, waiting[j].0) == Some(waiting[j].1.id) && has_key(
                state.session_notif,
                waiting[j].0,
            )),
    ensures
        planned(state, waiting, home, names).dismissed == state.dismissed,
        planned(state, waiting, home, names).posts.len() == 0,
    decreases waiting.len(),
{
    if waiting.len() > 0 {
        let rest = waiting.drop_last();
        assert(forall|i: int| 0 <= i < rest.len() ==> #[trigger] rest[i] == waiting[i]);
        lemma_nothing_new(state, rest, home, names);
        assert(waiting[waiting.len() - 1] == waiting.last());
        let (key, p) = waiting.last();
        assert(dismissed_after(state.dismissed, state.last_prompt_ids, key, p.id)
            =~= state.dismissed);
    }
}

/// A heartbeat taken again, after its prompts were shown and with nothing in
/// between, closes nothing, shows nothing and changes nothing.
pub proof fn law_heartbeat_again_changes_nothing(
    state: NotifyValue,
    prompts: Seq<PromptValue>,
    home: Seq<char>,
    names: NamesValue,
    ids: Seq<u32>,
)
    requires
        state.wf(),
        no_shared_call(state, by_session(prompts)),
        ids.len() == heartbeat_step(state, prompts, home, names).posts.len(),
        all_fresh(
            heartbeat_step(state, prompts, home, names).state,
            heartbeat_step(state, prompts, home, names).posts,
            ids,
        ),
    ensures
        ({
            let first = heartbeat_step(state, prompts, home, names);
            let between = posted_all(first.state, first.posts, ids);
            let again = heartbeat_step(between, prompts, home, names);
            &&& again.close.len() == 0
            &&& again.posts.len() == 0
            &&& again.state == between
        }),
{
    let first = heartbeat_step(state, prompts, home, names);
    let waiting = by_session(prompts);
    let base = cleared(state, prompts).state;
    lemma_cleared(state, prompts);
    law_heartbeat_keeps_wf(state, prompts, home, names);
    lemma_by_session_distinct(prompts);
    assert forall|j: int| 0 <= j < waiting.len() implies has_key(waiting, (#[trigger] waiting[j]).0) by {
        lemma_lookup_at(waiting, j);
    }
    assert(no_shared_call(base, waiting)) by {
        assert forall|i: int, j: int|
            0 <= j < i < waiting.len() && base.dismissed.contains((#[trigger] waiting[j]).1.id)
                && lookup(base.last_prompt_ids, (#[trigger] waiting[i]).0) == Some(
                waiting[j].1.id,
            ) implies waiting[i].1.id == waiting[j].1.id by {
            assert(has_key(waiting, waiting[i].0));
            assert(lookup(state.last_prompt_ids, waiting[i].0) == Some(waiting[j].1.id));
        }
    }
    lemma_planned(base, waiting, home, names);
    lemma_planned_keys(base, waiting, home, names);
    assert(forall|k: Seq<char>| slot_or_zero(first.state, k) == slot_or_zero(base, k));
    lemma_posted_all(first.state, first.posts, ids);
    let between = posted_all(first.state, first.posts, ids);

    // Nothing is stale.
    let slots = between.session_notif;
    lemma_stale(between, waiting, slots);
    assert forall|i: int| 0 <= i < slots.len() implies !is_stale(
        between,
        waiting,
        (#[trigger] slots[i]).0,
        slots[i].1,
    ) by {
        let k = slots[i].0;
        lemma_lookup_at(slots, i);
        if !has_key(waiting, k) {
            if is_posted(first.posts, k) {
                let m = choose|m: int|
                    0 <= m < first.posts.len() && (#[trigger] first.posts[m]).session_key == k;
                let j = choose|j: int|
                    0 <= j < waiting.len() && (#[trigger] waiting[j]).0
                        == first.posts[m].session_key;
                assert(has_key(waiting, waiting[j].0));
            }
            assert(lookup(first.state.session_notif, k) == Some(slots[i].1));
            assert(lookup(base.session_notif, k) == Some(slots[i].1));
            assert(!is_stale(base, waiting, k, slots[i].1));
        }
    }
    assert(stale_sessions(between, waiting, slots).len() == 0);
    let still = cleared(between, prompts).state;
    assert(between.dismissed.intersect(live_ids(prompts)) =~= between.dismissed);
    assert(still =~= between);

    // Every prompt is on the screen or dismissed.
    assert forall|j: int| 0 <= j < waiting.len() implies ((lookup(
        between.last_prompt_ids,
        (#[trigger] waiting[j]).0,
    ) matches Some(old_id) ==> old_id != waiting[j].1.id ==> !between.dismissed.contains(old_id))
        && (between.dismissed.contains(waiting[j].1.id) || (lookup(
        between.last_prompt_ids,
        waiting[j].0,
    ) == Some(waiting[j].1.id) && has_key(between.session_notif, waiting[j].0)))) by {
        let key = waiting[j].0;
        let id = waiting[j].1.id;
        if is_posted_as(first.posts, key, id) {
            let m = choose|m: int|
                0 <= m < first.posts.len() && (#[trigger] first.posts[m]).session_key == key
                    && first.posts[m].prompt_id == id;
            assert(lookup(between.session_notif, first.posts[m].session_key) is Some);
        } else if is_posted(first.posts, key) {
            lemma_post_ids(base, waiting, home, names);
            let m = choose|m: int|
                0 <= m < first.posts.len() && (#[trigger] first.posts[m]).session_key == key;
            let i = choose|i: int|
                0 <= i < waiting.len() && (#[trigger] waiting[i]).0 == first.posts[m].session_key
                    && waiting[i].1.id == first.posts[m].prompt_id;
            assert(i == j);
            assert(false);
        } else {
            assert(lookup(between.last_prompt_ids, key) == lookup(base.last_prompt_ids, key));
            assert(lookup(between.session_notif, key) == lookup(base.session_notif, key));
        }
    }
    lemma_nothing_new(between, waiting, home, names);
    let again = heartbeat_step(between, prompts, home, names);
    assert(again.state =~= between);
}

proof fn lemma_post_ids(
    base: NotifyValue,
    waiting: Seq<(Seq<char>, PromptValue)>,
    home: Seq<char>,
    names: NamesValue,
)
    ensures
        forall|m: int|
            0 <= m < planned(base, waiting, home, names).posts.len() ==> exists|i: int|
                0 <= i < waiting.len() && (#[trigger] waiting[i]).0 == (
                #[trigger] planned(base, waiting, home, names).posts[m]).session_key
                    && waiting[i].1.id == planned(base, waiting, home, names).posts[m].prompt_id,
    decreases waiting.len(),
{
    if waiting.len() > 0 {
        let rest = waiting.drop_last();
        lemma_post_ids(base, rest, home, names);
        let before = planned(base, rest, home, names).posts;
        let posts = planned(base, waiting, home, names).posts;
        assert forall|m: int| 0 <= m < posts.len() implies exists|i: int|
            0 <= i < waiting.len() && (#[trigger] waiting[i]).0 == (#[trigger] posts[m]).session_key
                && waiting[i].1.id == posts[m].prompt_id by {
            if m < before.len() {
                assert(posts[m] == before[m]);
                let i = choose|i: int|
                    0 <= i < rest.len() && (#[trigger] rest[i]).0 == before[m].session_key
                        && rest[i].1.id == before[m].prompt_id;
                assert(waiting[i] == rest[i]);
            } else {
                assert(waiting[waiting.len() - 1].0 == posts[m].session_key);
            }
        }
    }
}

} // verus!
