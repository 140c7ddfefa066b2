//! What goes out: desktop notifications, the control socket, the status page
//! and Bluetooth devices.

pub mod ble;
pub mod ctrl;
pub mod display;
pub mod http;
pub mod laws;
pub mod notify;
pub mod notify_laws;
pub mod prompt_laws;
