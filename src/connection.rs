//! The decisions of a connection's loop: answer one request, then either
//! wait for the next one or close.
use vstd::prelude::*;

use crate::fields::lookup;
use crate::request::Request;
use crate::response::Response;
use crate::route::{routed, Handler, Router};
use crate::text::{eq_ignore_ascii_case, str_eq_ignore_ascii_case};

verus! {

/// Where a connection stands after a response has been written.
#[derive(Clone, Copy, Debug, PartialEq, Eq, Structural)]
pub enum ConnectionState {
    AwaitRequest,
    Closed,
}

/// The response's `Connection` header says `close`, in any case.
pub open spec fn closes(h: Seq<(Seq<char>, Seq<char>)>) -> bool {
    match lookup(h, "Connection"@) {
        Some(v) => eq_ignore_ascii_case(v, "close"@),
        None => false,
    }
}

/// Where the connection goes once a response with headers `h` is written.
pub open spec fn state_after(h: Seq<(Seq<char>, Seq<char>)>) -> ConnectionState {
    if closes(h) {
        ConnectionState::Closed
    } else {
        ConnectionState::AwaitRequest
    }
}

/// Whether the connection closes once `response` is written.
pub fn should_close(response: &Response) -> (r: bool)
    ensures
        r == closes(response.head.headers@),
{
    match response.head.headers.get("Connection") {
        Some(v) => str_eq_ignore_ascii_case(v.as_str(), "close"),
        None => false,
    }
}

/// Where the connection goes once `response` is written.
pub fn next_state(response: &Response) -> (r: ConnectionState)
    ensures
        r == state_after(response.head.headers@),
{
    if should_close(response) {
        ConnectionState::Closed
    } else {
        ConnectionState::AwaitRequest
    }
}

/// Where the connection goes when reading a request or writing a response
/// fails, or the peer has closed its side.
pub fn on_transport_failure() -> (r: ConnectionState)
    ensures
        r == ConnectionState::Closed,
{
    ConnectionState::Closed
}

/// Answers one decoded request: the response to write, and where the
/// connection goes once it is written.
pub fn serve<H: Handler>(router: &Router<H>, request: &Request) -> (r: (Response, ConnectionState))
    ensures
        routed(router@, *request, r.0),
        r.1 == state_after(r.0.head.headers@),
{
    let response = router.route(request);
    let state = next_state(&response);
    (response, state)
}

} // verus!
