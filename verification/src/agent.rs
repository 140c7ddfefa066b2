//! How the coding agent is called: its name for notifications, and the directory
//! that it keeps its settings in.

use vstd::prelude::*;

verus! {

/// The names of the coding agent that the bridge serves.
#[derive(Debug, Clone, PartialEq, Eq)]
pub struct AgentNames {
    /// The full name, which starts a notification's summary.
    pub product: String,
    /// The short name, for running text.
    pub short: String,
    /// The name of the settings directory, in the home directory and in a
    /// project.
    pub dir: String,
}

/// What [`AgentNames`] stand for.
#[verifier::ext_equal]
pub struct NamesValue {
    pub product: Seq<char>,
    pub short: Seq<char>,
    pub dir: Seq<char>,
}

impl View for AgentNames {
    type V = NamesValue;

    open spec fn view(&self) -> NamesValue {
        NamesValue { product: self.product@, short: self.short@, dir: self.dir@ }
    }
}

} // verus!
