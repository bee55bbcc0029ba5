//! The file routes. Reading and writing the file is the caller's work: the
//! library says which file to read or write, and frames the response from
//! what the caller reports back.
use vstd::prelude::*;

use crate::bytes::append_bytes;
use crate::response::{
    created_response, not_found_response, response_200, response_200_spec, response_201,
    response_404, response_500, server_error_response,
};
use crate::structs::{HTTPMethod, HTTPRequest, RequestView};
use crate::text::{octet_stream, octet_stream_vec};

verus! {

/// What to do with one request.
pub enum Dispatch {
    /// Send these bytes.
    Respond(Vec<u8>),
    /// Read the whole file at `path`, then answer with [`get_file_response`].
    ReadFile { request: HTTPRequest, path: Vec<u8> },
    /// Create or truncate the file at `path` and write `request.content`
    /// into it, then answer with [`create_file_response`].
    WriteFile { request: HTTPRequest, path: Vec<u8> },
}

/// Mathematical model of [`Dispatch`].
pub enum DispatchView {
    Respond(Seq<u8>),
    ReadFile { request: RequestView, path: Seq<u8> },
    WriteFile { request: RequestView, path: Seq<u8> },
}

impl View for Dispatch {
    type V = DispatchView;

    open spec fn view(&self) -> DispatchView {
        match self {
            Dispatch::Respond(b) => DispatchView::Respond(b@),
            Dispatch::ReadFile { request, path } => DispatchView::ReadFile {
                request: request@,
                path: path@,
            },
            Dispatch::WriteFile { request, path } => DispatchView::WriteFile {
                request: request@,
                path: path@,
            },
        }
    }
}

/// What the file route does with `q` under base directory `directory`: the
/// file is `directory` followed by the file name; without a directory the
/// answer is not found.
pub open spec fn file_dispatch(q: RequestView, directory: Option<Seq<u8>>) -> DispatchView {
    match directory {
        None => DispatchView::Respond(not_found_response(q.version)),
        Some(d) => match q.method {
            HTTPMethod::Get => DispatchView::ReadFile { request: q, path: d + q.body },
            HTTPMethod::Post => DispatchView::WriteFile { request: q, path: d + q.body },
        },
    }
}

/// `q` with its response content type forced to `application/octet-stream`.
pub open spec fn as_octet_stream(q: RequestView) -> RequestView {
    RequestView { content_type: Some(octet_stream()), ..q }
}

/// The answer to a file read for `q`: the contents as an octet stream, or
/// not found when the file could not be read.
pub open spec fn file_read_response(q: RequestView, contents: Option<Seq<u8>>) -> Seq<u8> {
    match contents {
        Some(c) => response_200_spec(as_octet_stream(q), c),
        None => not_found_response(q.version),
    }
}

/// The answer to a file write for `q`: created, or a server error carrying
/// the reason.
pub open spec fn file_write_response(q: RequestView, outcome: Result<(), Seq<u8>>) -> Seq<u8> {
    match outcome {
        Ok(()) => created_response(q.version),
        Err(e) => server_error_response(q.version, q.connection, e),
    }
}

/// The file route: which file to read or write for `request`, or not found
/// when no base directory is configured.
pub fn file_response(request: HTTPRequest, directory: &Option<Vec<u8>>) -> (r: Dispatch)
    ensures
        r@ == file_dispatch(request@, directory.deep_view()),
{
    match directory {
        Some(dir) => {
            assert(dir.deep_view() =~= dir@);
            let mut path: Vec<u8> = Vec::new();
            append_bytes(&mut path, dir.as_slice());
            append_bytes(&mut path, request.body.as_slice());
            match request.method {
                HTTPMethod::Get => Dispatch::ReadFile { request, path },
                HTTPMethod::Post => Dispatch::WriteFile { request, path },
            }
        },
        None => Dispatch::Respond(response_404(request.version.as_slice())),
    }
}

/// The answer to a file read: `contents` is the whole file, or `None` when
/// it could not be opened or read.
pub fn get_file_response(request: HTTPRequest, contents: Option<Vec<u8>>) -> (r: Vec<u8>)
    ensures
        r@ == file_read_response(request@, contents.deep_view()),
{
    match contents {
        Some(bytes) => {
            assert(bytes.deep_view() =~= bytes@);
            let ghost q = request@;
            let mut request = request;
            let octet = octet_stream_vec();
            assert(octet.deep_view() =~= octet@);
            request.content_type = Some(octet);
            assert(request@ == as_octet_stream(q));
            response_200(&request, bytes.as_slice())
        },
        None => response_404(request.version.as_slice()),
    }
}

/// The answer to a file write: `outcome` is `Ok` when the file was written,
/// or the text of the error that stopped it.
pub fn create_file_response(request: &HTTPRequest, outcome: Result<(), Vec<u8>>) -> (r: Vec<u8>)
    ensures
        r@ == file_write_response(
            request@,
            match outcome {
                Ok(()) => Ok(()),
                Err(e) => Err(e@),
            },
        ),
{
    match outcome {
        Ok(()) => response_201(request.version.as_slice()),
        Err(e) => response_500(request.version.as_slice(), &request.connection, e.as_slice()),
    }
}

} // verus!
