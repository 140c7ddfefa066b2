//! Transcript files: their new lines, the tokens counted in them, and the day
//! that a count belongs to.

pub mod calendar_laws;
pub mod date_order;
pub mod dates;
pub mod laws;
pub mod offsets;
pub mod parse;
pub mod reset;
pub mod tokens;
pub mod watcher;
