//! Wire types: hook events, heartbeats and the control protocol.

pub mod buddy;
pub mod ctrl;
pub mod hook;
pub mod laws;
