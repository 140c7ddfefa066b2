//! Moving the day's count on to a new day.

use vstd::prelude::*;
use crate::ingest::jsonl::tokens::{PersistedTokens, TokensValue};
use crate::text::{comes_before, lemma_not_before_itself, text_before};

verus! {

/// Whether the day had to be moved on.
#[derive(Debug, Clone, Copy, PartialEq, Eq, Structural)]
pub enum CatchUp {
    UpToDate,
    /// The day's count was set to zero; the counts are to be saved, and the
    /// change of the day is to be told.
    Rolled,
}

/// Whether counts are of a day before `today`. Days are written as `YYYY-MM-DD`,
/// so that they are ordered as their texts are.
pub open spec fn must_roll(t: TokensValue, today: Seq<char>) -> bool {
    t.date.len() > 0 && text_before(t.date, today)
}

/// The counts on the day `today`. Counts of a later day, as after the clock was
/// set back, stay as they are and keep their day.
pub open spec fn caught_up(t: TokensValue, today: Seq<char>) -> TokensValue {
    if must_roll(t, today) {
        TokensValue { date: today, today: 0, cumulative: t.cumulative }
    } else if t.date.len() == 0 {
        TokensValue { date: today, ..t }
    } else {
        t
    }
}

/// Moves the counts on to the day `today`. Counts without a day take this one
/// and keep their values; counts of this day or a later one stay as they are.
pub fn catch_up_to_local_date(state: &mut PersistedTokens, today: &str) -> (r: CatchUp)
    ensures
        final(state)@ == caught_up(old(state)@, today@),
        r == if must_roll(old(state)@, today@) {
            CatchUp::Rolled
        } else {
            CatchUp::UpToDate
        },
{
    if state.date.as_str().is_empty() {
        state.date = today.to_owned();
        return CatchUp::UpToDate;
    }
    if !comes_before(state.date.as_str(), today) {
        return CatchUp::UpToDate;
    }
    state.date = today.to_owned();
    state.today = 0;
    CatchUp::Rolled
}

/// The counts to save at midnight: those caught up with `today`, with a total that is
/// not below what has been counted since the start.
pub open spec fn at_midnight(t: TokensValue, total: u64, today: Seq<char>) -> TokensValue {
    let moved = caught_up(t, today);
    TokensValue {
        cumulative: if moved.cumulative < total {
            total
        } else {
            moved.cumulative
        },
        ..moved
    }
}

/// Moves the saved counts on to the day `today`, and their total on to `total`,
/// the one that is being counted.
pub fn perform_midnight_reset(state: &mut PersistedTokens, total: u64, today: &str) -> (r: CatchUp)
    ensures
        final(state)@ == at_midnight(old(state)@, total, today@),
        r == if must_roll(old(state)@, today@) {
            CatchUp::Rolled
        } else {
            CatchUp::UpToDate
        },
{
    let outcome = catch_up_to_local_date(state, today);
    if state.cumulative < total {
        state.cumulative = total;
    }
    outcome
}

/// Midnight never takes anything from the total, saved or counted.
pub proof fn law_midnight_keeps_total(t: TokensValue, total: u64, today: Seq<char>)
    ensures
        at_midnight(t, total, today).cumulative >= t.cumulative,
        at_midnight(t, total, today).cumulative >= total,
        at_midnight(t, total, today).cumulative == t.cumulative || at_midnight(
            t,
            total,
            today,
        ).cumulative == total,
{
}

/// A new day never changes the total, and after it there is nothing to catch up.
/// The day is then `today`, unless the counts were of a later one.
pub proof fn law_catch_up_keeps_total(t: TokensValue, today: Seq<char>)
    ensures
        caught_up(t, today).cumulative == t.cumulative,
        caught_up(t, today).date == if t.date.len() > 0 && !text_before(t.date, today) {
            t.date
        } else {
            today
        },
        !must_roll(t, today) ==> caught_up(t, today).today == t.today,
        !must_roll(caught_up(t, today), today),
        caught_up(caught_up(t, today), today) == caught_up(t, today),
{
    lemma_not_before_itself(today);
}

} // verus!
