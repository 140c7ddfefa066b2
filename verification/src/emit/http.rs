//! The status page: one path, and only on this machine.

use vstd::prelude::*;
use crate::lines::heartbeat_text;
use crate::outside::json_print;
use crate::proto::buddy::{heartbeat_json, Heartbeat};
use crate::text::str_eq;

verus! {

/// Where a request leads.
#[derive(Debug, Clone, Copy, PartialEq, Eq, Structural)]
pub enum Route {
    Status,
    NotFound,
}

pub open spec fn route_of(method: Seq<char>, path: Seq<char>) -> Route {
    if method == "GET"@ && path == "/status"@ {
        Route::Status
    } else {
        Route::NotFound
    }
}

/// Only `GET /status` is served.
pub fn route(method: &str, path: &str) -> (r: Route)
    ensures
        r == route_of(method@, path@),
{
    if str_eq(method, "GET") && str_eq(path, "/status") {
        Route::Status
    } else {
        Route::NotFound
    }
}

/// A response.
#[derive(Debug, PartialEq, Eq)]
pub struct HttpReply {
    pub status: u16,
    pub content_type: &'static str,
    pub body: String,
}

pub fn error_response(status: u16, msg: &str) -> (r: HttpReply)
    ensures
        r.status == status,
        r.content_type@ == "text/plain"@,
        r.body@ == msg@,
{
    HttpReply { status, content_type: "text/plain", body: msg.to_owned() }
}

/// What the state replied to a request for a heartbeat.
#[derive(Debug)]
pub enum StateReply {
    Heartbeat(Heartbeat),
    /// The request could not be sent.
    Unavailable,
    /// The request was not answered.
    Dropped,
}

/// The response to a request that leads to `route`.
pub fn handle(route: Route, reply: &StateReply) -> (r: HttpReply)
    ensures
        match (route, reply) {
            (Route::NotFound, _) => r.status == 404 && r.content_type@ == "text/plain"@ && r.body@
                == "not found"@,
            (Route::Status, StateReply::Heartbeat(hb)) => r.status == 200 && r.content_type@
                == "application/json"@ && r.body@ == json_print(heartbeat_json(*hb)),
            (Route::Status, StateReply::Unavailable) => r.status == 503 && r.content_type@
                == "text/plain"@ && r.body@ == "aggregator unavailable"@,
            (Route::Status, StateReply::Dropped) => r.status == 503 && r.content_type@
                == "text/plain"@ && r.body@ == "aggregator dropped response"@,
        },
{
    match route {
        Route::NotFound => error_response(404, "not found"),
        Route::Status => match reply {
            StateReply::Heartbeat(hb) => HttpReply {
                status: 200,
                content_type: "application/json",
                body: heartbeat_text(hb),
            },
            StateReply::Unavailable => error_response(503, "aggregator unavailable"),
            StateReply::Dropped => error_response(503, "aggregator dropped response"),
        },
    }
}

/// An address to listen on.
#[derive(Debug, Clone, Copy, PartialEq, Eq)]
pub enum BindAddress {
    V4 { a: u8, b: u8, c: u8, d: u8 },
    /// The two halves of the address.
    V6 { high: u64, low: u64 },
}

/// Whether the page may be served at an address: only at `127.0.0.1` and `::1`,
/// for it tells of directories and commands.
pub fn bind_allowed(addr: BindAddress) -> (r: bool)
    ensures
        r == (addr == (BindAddress::V4 { a: 127, b: 0, c: 0, d: 1 }) || addr == (BindAddress::V6 {
            high: 0,
            low: 1,
        })),
{
    match addr {
        BindAddress::V4 { a, b, c, d } => a == 127 && b == 0 && c == 0 && d == 1,
        BindAddress::V6 { high, low } => high == 0 && low == 1,
    }
}

} // verus!
