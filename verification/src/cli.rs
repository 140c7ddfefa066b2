//! What the daemon is asked to do on its command line, and at its start.

use vstd::prelude::*;
use crate::ingest::jsonl::tokens::PersistedTokens;
use crate::outside::{quote, quoted};
use crate::permission::additions::undo::UndoOutcome;
use crate::state::AggregatorMsg;
use crate::text::{join3, str_eq};

verus! {

/// What the daemon is asked to do.
#[derive(Debug, Clone, PartialEq, Eq)]
pub enum Subcommand {
    Daemon,
    Setup,
    UndoLastAllow,
    Unknown { name: String },
}

/// The task of the first argument; without one the daemon runs.
pub fn subcommand(arg: Option<&str>) -> (r: Subcommand)
    ensures
        match arg {
            None => r is Daemon,
            Some(a) => if a@ == "setup"@ {
                r is Setup
            } else if a@ == "undo-last-allow"@ {
                r is UndoLastAllow
            } else {
                r matches Subcommand::Unknown { name } && name@ == a@
            },
        },
{
    match arg {
        None => Subcommand::Daemon,
        Some(a) => {
            if str_eq(a, "setup") {
                proof {
                    reveal_strlit("setup");
                    reveal_strlit("undo-last-allow");
                }
                Subcommand::Setup
            } else if str_eq(a, "undo-last-allow") {
                Subcommand::UndoLastAllow
            } else {
                Subcommand::Unknown { name: a.to_owned() }
            }
        },
    }
}

/// The report of an undo.
pub open spec fn undo_text(outcome: UndoOutcome) -> Seq<char> {
    match outcome {
        UndoOutcome::Removed { pattern, file } => "Removed pattern "@ + quoted(pattern@) + " from "@
            + file@ + "."@,
        UndoOutcome::AlreadyGone { pattern, file } => "Pattern "@ + quoted(pattern@)
            + " not present in "@ + file@ + " (already removed?)."@,
        UndoOutcome::FileMissing { pattern, file } => "Pattern "@ + quoted(pattern@)
            + ": settings file "@ + file@ + " not found (already removed?)."@,
    }
}

/// The report of an undo.
pub fn undo_report(outcome: &UndoOutcome) -> (r: String)
    ensures
        r@ == undo_text(*outcome),
{
    match outcome {
        UndoOutcome::Removed { pattern, file } => {
            let mut r = join3("Removed pattern ", quote(pattern.as_str()).as_str(), " from ");
            r.append(file.as_str());
            r.append(".");
            r
        },
        UndoOutcome::AlreadyGone { pattern, file } => {
            let mut r = join3("Pattern ", quote(pattern.as_str()).as_str(), " not present in ");
            r.append(file.as_str());
            r.append(" (already removed?).");
            r
        },
        UndoOutcome::FileMissing { pattern, file } => {
            let mut r = join3("Pattern ", quote(pattern.as_str()).as_str(), ": settings file ");
            r.append(file.as_str());
            r.append(" not found (already removed?).");
            r
        },
    }
}

/// The message that seeds the counts at the start, if there are any.
pub fn seed_message(tokens: PersistedTokens) -> (r: Option<AggregatorMsg>)
    ensures
        r is Some == (tokens.cumulative > 0 || tokens.today > 0 || tokens.date@.len() > 0),
        r matches Some(m) ==> (m matches AggregatorMsg::SetInitialTokens { cumulative, today, date }
            && cumulative == tokens.cumulative && today == tokens.today && date@ == tokens.date@),
{
    if tokens.cumulative > 0 || tokens.today > 0 || !tokens.date.as_str().is_empty() {
        Some(
            AggregatorMsg::SetInitialTokens {
                cumulative: tokens.cumulative,
                today: tokens.today,
                date: tokens.date,
            },
        )
    } else {
        None
    }
}

/// The pause between signs of life to the service manager, in microseconds: half
/// the time it waits for one. `None` where it does not wait.
pub fn watchdog_interval(enabled: bool, usec: u64) -> (r: Option<u64>)
    ensures
        r == if enabled && usec > 0 {
            Some((usec / 2) as u64)
        } else {
            None
        },
{
    if enabled && usec > 0 {
        Some(usec / 2)
    } else {
        None
    }
}

/// The report of an undo names the pattern and the file, and what became of the
/// pattern there.
pub proof fn law_undo_is_reported(pattern: String, file: String)
    ensures
        undo_text(UndoOutcome::Removed { pattern, file }) == "Removed pattern "@ + quoted(pattern@)
            + " from "@ + file@ + "."@,
        undo_text(UndoOutcome::AlreadyGone { pattern, file }) == "Pattern "@ + quoted(pattern@)
            + " not present in "@ + file@ + " (already removed?)."@,
        undo_text(UndoOutcome::FileMissing { pattern, file }) == "Pattern "@ + quoted(pattern@)
            + ": settings file "@ + file@ + " not found (already removed?)."@,
{
}

} // verus!
