//! Serialisation of responses: status line, headers, body, and gzip
//! compression of the body when the client asks for it.
use std::io::Write;

use flate2::write::GzEncoder;
use flate2::Compression;
use vstd::prelude::*;

use crate::bytes::{
    append_bytes, contains, contains_bytes, copy_range, decimal, to_decimal, trim_line_end,
    trim_line_end_exec,
};
use crate::structs::{HTTPRequest, RequestView};
use crate::text::{
    content_length_field, content_length_field_vec, content_type_field, content_type_field_vec,
    crlf, crlf_vec, gzip_encoding_line, gzip_encoding_line_vec, gzip_failure_prefix,
    gzip_failure_prefix_vec, gzip_word, gzip_word_vec, invalid_word, invalid_word_vec,
    status_200, status_200_vec, status_201, status_201_vec, status_400, status_400_vec, status_404,
    status_404_vec, status_500, status_500_vec, text_plain, text_plain_vec,
};
use crate::utils::{connection_line, get_connection_header};

verus! {

/// What flate2 gives for `data`: the gzip stream, or the text of the error
/// that stopped the encoder.
pub uninterp spec fn gzip_of(data: Seq<u8>) -> Result<Seq<u8>, Seq<u8>>;

/// Relies on flate2's `GzEncoder::new` (default level, default header),
/// `Write::write_all` and `GzEncoder::finish`, writing into a `Vec`: the
/// outcome depends on `data` alone (the header carries no time stamp and a
/// fixed system byte, and the encoder is deterministic). On failure, the
/// error's text.
#[verifier::external_body]
fn gzip_compress(data: &[u8]) -> (r: Result<Vec<u8>, Vec<u8>>)
    ensures
        gzip_of(data@) == match r {
            Ok(z) => Ok(z@),
            Err(e) => Err(e@),
        },
{
    let mut encoder = GzEncoder::new(Vec::new(), Compression::default());
    match encoder.write_all(data) {
        Ok(()) => match encoder.finish() {
            Ok(z) => Ok(z),
            Err(e) => Err(e.to_string().into_bytes()),
        },
        Err(e) => Err(e.to_string().into_bytes()),
    }
}

/// The client asked for gzip: `Accept-Encoding` contains `gzip` and not `invalid`.
pub open spec fn wants_gzip(encoding: Option<Seq<u8>>) -> bool {
    match encoding {
        Some(e) => contains(e, gzip_word()) && !contains(e, invalid_word()),
        None => false,
    }
}

/// Content type of a success response to `q`.
pub open spec fn content_type_of(q: RequestView) -> Seq<u8> {
    match q.content_type {
        Some(t) => t,
        None => text_plain(),
    }
}

/// A success response: status line, optional `Connection`, `Content-Type`,
/// optional `Content-Encoding: gzip`, `Content-Length` of `body`, blank line, `body`.
pub open spec fn ok_response(
    version: Seq<u8>,
    connection: Option<Seq<u8>>,
    content_type: Seq<u8>,
    gzipped: bool,
    body: Seq<u8>,
) -> Seq<u8> {
    version + status_200() + connection_line(connection) + crlf() + content_type_field()
        + content_type
        + crlf() + (if gzipped {
        gzip_encoding_line()
    } else {
        seq![]
    }) + content_length_field() + decimal(body.len()) + crlf() + crlf() + body
}

/// The body that a success response to `q` carries before compression:
/// text bodies (no content type set, so `text/plain`) lose their trailing
/// carriage returns and line feeds; other bodies pass untouched.
pub open spec fn payload(q: RequestView, body: Seq<u8>) -> Seq<u8> {
    if q.content_type is None {
        trim_line_end(body)
    } else {
        body
    }
}

/// The response to `q` once compression of `body` gave `compressed`: the
/// success response around the compressed bytes, or a server error that
/// carries the encoder's error text.
pub open spec fn compressed_response(q: RequestView, compressed: Result<Seq<u8>, Seq<u8>>) -> Seq<u8> {
    match compressed {
        Ok(z) => ok_response(q.version, q.connection, content_type_of(q), true, z),
        Err(e) => server_error_response(q.version, q.connection, gzip_failure_prefix() + e),
    }
}

/// The response to `q` with body `body`: the payload, compressed with gzip
/// when the client asked for it.
pub open spec fn response_200_spec(q: RequestView, body: Seq<u8>) -> Seq<u8> {
    if wants_gzip(q.encoding) {
        compressed_response(q, gzip_of(payload(q, body)))
    } else {
        ok_response(q.version, q.connection, content_type_of(q), false, payload(q, body))
    }
}

/// A server-error response carrying `error` as a plain-text body, with the
/// `Connection` header echoed when the request carried one.
pub open spec fn server_error_response(
    version: Seq<u8>,
    connection: Option<Seq<u8>>,
    error: Seq<u8>,
) -> Seq<u8> {
    version + status_500() + connection_line(connection) + crlf() + content_type_field()
        + text_plain()
        + crlf() + content_length_field() + decimal(error.len()) + crlf() + crlf() + error
}

/// The not-found response.
pub open spec fn not_found_response(version: Seq<u8>) -> Seq<u8> {
    version + status_404()
}

/// The response to a request whose first line could not be read.
pub open spec fn bad_request_response(version: Seq<u8>) -> Seq<u8> {
    version + status_400()
}

/// The response to a file that was written.
pub open spec fn created_response(version: Seq<u8>) -> Seq<u8> {
    version + status_201()
}

/// The bare success response of the root probe.
pub open spec fn root_response(version: Seq<u8>) -> Seq<u8> {
    version + status_200() + crlf() + crlf()
}

/// Not-found response: `<version> 404 Not Found`, no headers, no body.
pub fn response_404(version: &[u8]) -> (r: Vec<u8>)
    ensures
        r@ == not_found_response(version@),
{
    let mut r: Vec<u8> = Vec::new();
    append_bytes(&mut r, version);
    let tail = status_404_vec();
    append_bytes(&mut r, tail.as_slice());
    r
}

/// Malformed-request response: `<version> 400 Bad Request`, no headers, no body.
pub fn response_400(version: &[u8]) -> (r: Vec<u8>)
    ensures
        r@ == bad_request_response(version@),
{
    let mut r: Vec<u8> = Vec::new();
    append_bytes(&mut r, version);
    let tail = status_400_vec();
    append_bytes(&mut r, tail.as_slice());
    r
}

/// Creation response: `<version> 201 Created`, no headers, no body.
pub fn response_201(version: &[u8]) -> (r: Vec<u8>)
    ensures
        r@ == created_response(version@),
{
    let mut r: Vec<u8> = Vec::new();
    append_bytes(&mut r, version);
    let tail = status_201_vec();
    append_bytes(&mut r, tail.as_slice());
    r
}

/// Root probe response: `<version> 200 OK`, no headers, no body.
pub fn response_root(version: &[u8]) -> (r: Vec<u8>)
    ensures
        r@ == root_response(version@),
{
    let mut r: Vec<u8> = Vec::new();
    append_bytes(&mut r, version);
    let status = status_200_vec();
    append_bytes(&mut r, status.as_slice());
    let end = crlf_vec();
    append_bytes(&mut r, end.as_slice());
    append_bytes(&mut r, end.as_slice());
    r
}

/// Server-error response carrying `error` as a plain-text body, framed
/// like any other response, echoing the request's `connection` header.
pub fn response_500(version: &[u8], connection: &Option<Vec<u8>>, error: &[u8]) -> (r: Vec<u8>)
    ensures
        r@ == server_error_response(version@, connection.deep_view(), error@),
{
    let mut r: Vec<u8> = Vec::new();
    append_bytes(&mut r, version);
    let status = status_500_vec();
    append_bytes(&mut r, status.as_slice());
    let connection_header = get_connection_header(connection);
    append_bytes(&mut r, connection_header.as_slice());
    let end = crlf_vec();
    append_bytes(&mut r, end.as_slice());
    let field = content_type_field_vec();
    append_bytes(&mut r, field.as_slice());
    let plain = text_plain_vec();
    append_bytes(&mut r, plain.as_slice());
    append_bytes(&mut r, end.as_slice());
    let length_field = content_length_field_vec();
    append_bytes(&mut r, length_field.as_slice());
    let digits = to_decimal(error.len());
    append_bytes(&mut r, digits.as_slice());
    append_bytes(&mut r, end.as_slice());
    append_bytes(&mut r, end.as_slice());
    append_bytes(&mut r, error);
    r
}

/// Frames a success response to `request` around `body`, which is already
/// compressed when `gzipped` holds.
pub fn frame_200(request: &HTTPRequest, body: &[u8], gzipped: bool) -> (r: Vec<u8>)
    ensures
        r@ == ok_response(
            request@.version,
            request@.connection,
            content_type_of(request@),
            gzipped,
            body@,
        ),
{
    let mut r: Vec<u8> = Vec::new();
    append_bytes(&mut r, request.version.as_slice());
    let status = status_200_vec();
    append_bytes(&mut r, status.as_slice());
    let connection = get_connection_header(&request.connection);
    append_bytes(&mut r, connection.as_slice());
    let end = crlf_vec();
    append_bytes(&mut r, end.as_slice());
    let field = content_type_field_vec();
    append_bytes(&mut r, field.as_slice());
    match &request.content_type {
        Some(t) => append_bytes(&mut r, t.as_slice()),
        None => {
            let plain = text_plain_vec();
            append_bytes(&mut r, plain.as_slice());
        },
    }
    append_bytes(&mut r, end.as_slice());
    if gzipped {
        let encoding = gzip_encoding_line_vec();
        append_bytes(&mut r, encoding.as_slice());
    }
    let length_field = content_length_field_vec();
    append_bytes(&mut r, length_field.as_slice());
    let digits = to_decimal(body.len());
    append_bytes(&mut r, digits.as_slice());
    append_bytes(&mut r, end.as_slice());
    append_bytes(&mut r, end.as_slice());
    append_bytes(&mut r, body);
    assert(r@ =~= ok_response(
        request@.version,
        request@.connection,
        content_type_of(request@),
        gzipped,
        body@,
    ));
    r
}

/// Whether the client asked for gzip in `encoding`.
pub fn use_gzip(encoding: &Option<Vec<u8>>) -> (r: bool)
    ensures
        r == wants_gzip(encoding.deep_view()),
{
    match encoding {
        Some(e) => {
            assert(e.deep_view() =~= e@);
            let gzip = gzip_word_vec();
            let invalid = invalid_word_vec();
            contains_bytes(e.as_slice(), gzip.as_slice()) && !contains_bytes(
                e.as_slice(),
                invalid.as_slice(),
            )
        },
        None => false,
    }
}

/// The response to `request` once compression gave `compressed`: the
/// success response around the compressed bytes, or a server error that
/// carries the encoder's error text.
pub fn respond_compressed(request: &HTTPRequest, compressed: Result<Vec<u8>, Vec<u8>>) -> (r: Vec<u8>)
    ensures
        r@ == compressed_response(
            request@,
            match compressed {
                Ok(z) => Ok(z@),
                Err(e) => Err(e@),
            },
        ),
{
    match compressed {
        Ok(z) => frame_200(request, z.as_slice(), true),
        Err(e) => {
            let mut text = gzip_failure_prefix_vec();
            append_bytes(&mut text, e.as_slice());
            response_500(request.version.as_slice(), &request.connection, text.as_slice())
        },
    }
}

/// Success response to `request` with body `body`. A text body (no content
/// type set) loses its trailing carriage returns and line feeds first. The
/// body is compressed with gzip when the client asked for it; if compression
/// fails the result is a server error carrying the reason.
pub fn response_200(request: &HTTPRequest, body: &[u8]) -> (r: Vec<u8>)
    ensures
        r@ == response_200_spec(request@, body@),
{
    let text = match &request.content_type {
        Some(_) => copy_range(body, 0, body.len()),
        None => trim_line_end_exec(body),
    };
    assert(body@.subrange(0, body@.len() as int) =~= body@);
    if use_gzip(&request.encoding) {
        respond_compressed(request, gzip_compress(text.as_slice()))
    } else {
        frame_200(request, text.as_slice(), false)
    }
}

} // verus!
