//! What comes in: hook events and transcript lines.

pub mod hooks;
pub mod jsonl;
pub mod relay;
