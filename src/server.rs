//! Route dispatch of one raw request, and the decision whether a
//! connection stays open after a response.
use vstd::prelude::*;

use crate::bytes::{bytes_eq, contains, contains_bytes};
use crate::files::{file_dispatch, file_response, Dispatch, DispatchView};
use crate::request::{get_request, parse};
use crate::response::{
    bad_request_response, not_found_response, response_200, response_200_spec, response_400,
    response_404, response_root, root_response,
};
use crate::structs::RequestView;
use crate::text::{
    connection_close, connection_close_vec, default_version, default_version_vec, echo_path,
    echo_path_vec, files_path, files_path_vec, root_path, root_path_vec,
    user_agent_path, user_agent_path_vec,
};

verus! {

/// The text that the user-agent route sends back: the header's value, or nothing.
pub open spec fn user_agent_text(q: RequestView) -> Seq<u8> {
    match q.headers.user_agent {
        Some(a) => a,
        None => seq![],
    }
}

/// What is done with request `q` under base directory `directory`.
pub open spec fn route(q: RequestView, directory: Option<Seq<u8>>) -> DispatchView {
    if q.target == root_path() {
        DispatchView::Respond(root_response(q.version))
    } else if q.target == echo_path() {
        DispatchView::Respond(response_200_spec(q, q.body))
    } else if q.target == user_agent_path() {
        DispatchView::Respond(response_200_spec(q, user_agent_text(q)))
    } else if q.target == files_path() {
        file_dispatch(q, directory)
    } else {
        DispatchView::Respond(not_found_response(q.version))
    }
}

/// What is done with the raw request `buf`. A buffer that does not parse gets a malformed-request response.
pub open spec fn dispatch(buf: Seq<u8>, directory: Option<Seq<u8>>) -> DispatchView {
    match parse(buf) {
        None => DispatchView::Respond(bad_request_response(default_version())),
        Some(q) => route(q, directory),
    }
}

/// The response closes the connection: it holds `Connection: close`.
pub open spec fn closes(response: Seq<u8>) -> bool {
    contains(response, connection_close())
}

/// State of one connection.
#[derive(Clone, Copy, Debug, PartialEq, Eq, Structural)]
pub enum ConnState {
    /// Waiting for the next request on the same connection.
    Reading,
    /// The connection is released.
    Closed,
}

/// Parses `buf` and routes it: the response to send, or the file to read or
/// write first. `directory` is the configured base directory of the file
/// routes.
pub fn extract_url(buf: &[u8], directory: &Option<Vec<u8>>) -> (r: Dispatch)
    ensures
        r@ == dispatch(buf@, directory.deep_view()),
{
    let request = match get_request(buf) {
        Some(q) => q,
        None => {
            let version = default_version_vec();
            return Dispatch::Respond(response_400(version.as_slice()));
        },
    };
    let target = request.target.as_slice();
    let root = root_path_vec();
    let echo = echo_path_vec();
    let agent = user_agent_path_vec();
    let files = files_path_vec();
    if bytes_eq(target, root.as_slice()) {
        Dispatch::Respond(response_root(request.version.as_slice()))
    } else if bytes_eq(target, echo.as_slice()) {
        Dispatch::Respond(response_200(&request, request.body.as_slice()))
    } else if bytes_eq(target, agent.as_slice()) {
        match &request.headers.user_agent {
            Some(a) => {
                assert(a.deep_view() =~= a@);
                Dispatch::Respond(response_200(&request, a.as_slice()))
            },
            None => {
                let empty: Vec<u8> = Vec::new();
                Dispatch::Respond(response_200(&request, empty.as_slice()))
            },
        }
    } else if bytes_eq(target, files.as_slice()) {
        file_response(request, directory)
    } else {
        Dispatch::Respond(response_404(request.version.as_slice()))
    }
}

/// Whether the connection stays open after `response`: it does unless the
/// response holds `Connection: close`.
pub fn keeps_alive(response: &[u8]) -> (r: bool)
    ensures
        r == !closes(response@),
{
    let close = connection_close_vec();
    !contains_bytes(response, close.as_slice())
}

/// The state of a connection after `response` was written (`write_ok`) or
/// failed to be written. The connection goes back to reading unless the write
/// failed or the response holds `Connection: close`.
pub fn next_state(write_ok: bool, response: &[u8]) -> (r: ConnState)
    ensures
        r == (if write_ok && !closes(response@) {
            ConnState::Reading
        } else {
            ConnState::Closed
        }),
{
    if write_ok && keeps_alive(response) {
        ConnState::Reading
    } else {
        ConnState::Closed
    }
}

} // verus!
