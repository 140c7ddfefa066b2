//! Additions to a project's allow list: what is written when the user approves
//! a call for good, and how the last addition is taken back.

pub mod audit_log;
pub mod derive;
pub mod laws;
pub mod target;
pub mod undo;
pub mod write;
