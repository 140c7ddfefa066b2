//! Decision logic of a bridge between coding-agent hooks and the desktop.

pub mod agent;
pub mod assoc;
pub mod cli;
pub mod config;
pub mod config_laws;
pub mod edge_laws;
pub mod emit;
pub mod ingest;
pub mod json;
pub mod json_form;
pub mod json_laws;
pub mod json_order;
pub mod laws;
pub mod lines;
pub mod outside;
pub mod path_laws;
pub mod paths;
pub mod permission;
pub mod proto;
pub mod setup;
pub mod setup_laws;
pub mod state;
pub mod text;
pub mod text_laws;
pub mod util;
