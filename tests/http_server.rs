use std::io::Read;

use flate2::read::GzDecoder;
use http_server::bytes::to_decimal;
use http_server::files::{create_file_response, file_response, get_file_response, Dispatch};
use http_server::request::get_request;
use http_server::response::{response_200, response_404, response_500};
use http_server::server::{extract_url, keeps_alive, next_state, ConnState};
use http_server::structs::HTTPMethod;
use http_server::utils::{
    get_connection_header, get_directory, get_http_method, get_request_property,
};

fn respond(buf: &[u8], directory: Option<&[u8]>) -> Vec<u8> {
    match extract_url(buf, &directory.map(|d| d.to_vec())) {
        Dispatch::Respond(bytes) => bytes,
        _ => panic!("expected a direct response"),
    }
}

fn split_response(response: &[u8]) -> (String, Vec<u8>) {
    let at = response
        .windows(4)
        .position(|w| w == b"\r\n\r\n")
        .expect("a blank line ends the head");
    (
        String::from_utf8(response[..at + 4].to_vec()).unwrap(),
        response[at + 4..].to_vec(),
    )
}

fn gunzip(bytes: &[u8]) -> Vec<u8> {
    let mut out = Vec::new();
    GzDecoder::new(bytes).read_to_end(&mut out).unwrap();
    out
}

#[test]
fn root_probe_is_bare_ok() {
    assert_eq!(respond(b"GET / HTTP/1.1\r\n\r\n", None), b"HTTP/1.1 200 OK\r\n\r\n".to_vec());
}

#[test]
fn echo_plain_text() {
    let r = respond(b"GET /echo/abc HTTP/1.1\r\nHost: localhost\r\n\r\n", None);
    assert_eq!(
        r,
        b"HTTP/1.1 200 OK\r\nContent-Type: text/plain\r\nContent-Length: 3\r\n\r\nabc".to_vec()
    );
}

#[test]
fn echo_gzip_when_asked() {
    let r = respond(b"GET /echo/abc HTTP/1.1\r\nAccept-Encoding: gzip\r\n\r\n", None);
    let (head, body) = split_response(&r);
    assert!(head.starts_with("HTTP/1.1 200 OK\r\n"));
    assert!(head.contains("Content-Encoding: gzip\r\n"));
    assert!(head.contains(&format!("Content-Length: {}\r\n", body.len())));
    assert_eq!(&body[..2], &[0x1f, 0x8b]);
    assert_eq!(gunzip(&body), b"abc".to_vec());
}

#[test]
fn echo_not_compressed_when_invalid_listed() {
    let r = respond(
        b"GET /echo/abc HTTP/1.1\r\nAccept-Encoding: invalid, gzip, br\r\n\r\n",
        None,
    );
    assert_eq!(
        r,
        b"HTTP/1.1 200 OK\r\nContent-Type: text/plain\r\nContent-Length: 3\r\n\r\nabc".to_vec()
    );
}

#[test]
fn echo_not_compressed_for_other_encodings() {
    let r = respond(b"GET /echo/abc HTTP/1.1\r\nAccept-Encoding: br\r\n\r\n", None);
    let (head, body) = split_response(&r);
    assert!(!head.contains("Content-Encoding"));
    assert_eq!(body, b"abc".to_vec());
}

#[test]
fn echo_body_equals_text_for_many_texts() {
    for text in ["a", "hello", "x-y_z.123", "0123456789ab"] {
        let req = format!("GET /echo/{} HTTP/1.1\r\n\r\n", text);
        let (head, body) = split_response(&respond(req.as_bytes(), None));
        assert_eq!(body, text.as_bytes().to_vec());
        assert!(head.contains(&format!("Content-Length: {}\r\n", text.len())));
    }
}

#[test]
fn echo_gzip_length_is_compressed_length() {
    let req = b"GET /echo/hellohellohello HTTP/1.1\r\nAccept-Encoding: deflate, gzip\r\n\r\n";
    let (head, body) = split_response(&respond(req, None));
    assert!(head.contains(&format!("Content-Length: {}\r\n", body.len())));
    assert_eq!(gunzip(&body), b"hellohellohello".to_vec());
}

#[test]
fn echo_carries_connection_header() {
    let r = respond(b"GET /echo/hi HTTP/1.1\r\nConnection: close\r\n\r\n", None);
    assert_eq!(
        r,
        b"HTTP/1.1 200 OK\r\nConnection: close\r\nContent-Type: text/plain\r\nContent-Length: 2\r\n\r\nhi"
            .to_vec()
    );
    assert!(!keeps_alive(&r));
}

#[test]
fn user_agent_route_echoes_header() {
    let r = respond(
        b"GET /user-agent HTTP/1.1\r\nHost: localhost:4221\r\nUser-Agent: foobar/1.2.3\r\n\r\n",
        None,
    );
    assert_eq!(
        r,
        b"HTTP/1.1 200 OK\r\nContent-Type: text/plain\r\nContent-Length: 12\r\n\r\nfoobar/1.2.3"
            .to_vec()
    );
}

#[test]
fn user_agent_found_in_any_header_position() {
    let r = respond(
        b"GET /user-agent HTTP/1.1\r\nUser-Agent: curl\r\nHost: h\r\nAccept: */*\r\n\r\n",
        None,
    );
    let (_, body) = split_response(&r);
    assert_eq!(body, b"curl".to_vec());
}

#[test]
fn user_agent_trailing_line_end_trimmed() {
    let r = respond(b"GET /user-agent HTTP/1.1\r\nUser-Agent: agent\r\r\n\r\n", None);
    let (head, body) = split_response(&r);
    assert_eq!(body, b"agent".to_vec());
    assert!(head.contains("Content-Length: 5\r\n"));
}

#[test]
fn user_agent_missing_gives_empty_body() {
    let r = respond(b"GET /user-agent HTTP/1.1\r\n\r\n", None);
    assert_eq!(
        r,
        b"HTTP/1.1 200 OK\r\nContent-Type: text/plain\r\nContent-Length: 0\r\n\r\n".to_vec()
    );
}

#[test]
fn unknown_route_not_found() {
    assert_eq!(
        respond(b"GET /unknown HTTP/1.1\r\n\r\n", None),
        b"HTTP/1.1 404 Not Found\r\n\r\n".to_vec()
    );
}

#[test]
fn version_is_echoed() {
    assert_eq!(respond(b"GET / HTTP/1.0\r\n\r\n", None), b"HTTP/1.0 200 OK\r\n\r\n".to_vec());
    assert_eq!(
        respond(b"GET /nowhere HTTP/1.0\r\n\r\n", None),
        b"HTTP/1.0 404 Not Found\r\n\r\n".to_vec()
    );
}

#[test]
fn root_ignores_headers_and_method() {
    let plain = respond(b"GET / HTTP/1.1\r\n\r\n", None);
    let busy = respond(
        b"POST / HTTP/1.1\r\nAccept-Encoding: gzip\r\nConnection: keep-alive\r\nUser-Agent: x\r\n\r\nbody",
        Some(b"/tmp/"),
    );
    assert_eq!(plain, busy);
}

#[test]
fn malformed_requests_get_bad_request() {
    let bad = b"HTTP/1.1 400 Bad Request\r\n\r\n".to_vec();
    assert_eq!(respond(b"", None), bad);
    assert_eq!(respond(b"GET /\r\n\r\n", None), bad);
    assert_eq!(respond(b"GET / HTTP/1.1 extra\r\n\r\n", None), bad);
    assert_eq!(respond(b"\r\nGET / HTTP/1.1\r\n\r\n", None), bad);
}

#[test]
fn post_file_asks_for_write() {
    let buf = b"POST /files/note.txt HTTP/1.1\r\nContent-Type: application/octet-stream\r\nContent-Length: 5\r\n\r\nhello";
    match extract_url(buf, &Some(b"/srv/data/".to_vec())) {
        Dispatch::WriteFile { request, path } => {
            assert_eq!(path, b"/srv/data/note.txt".to_vec());
            assert_eq!(request.content, b"hello".to_vec());
            assert_eq!(
                create_file_response(&request, Ok(())),
                b"HTTP/1.1 201 Created\r\n\r\n".to_vec()
            );
        }
        _ => panic!("expected a file write"),
    }
}

#[test]
fn file_write_failure_is_server_error() {
    let request = get_request(b"POST /files/x HTTP/1.1\r\n\r\nabc").unwrap();
    assert_eq!(
        create_file_response(&request, Err(b"denied".to_vec())),
        b"HTTP/1.1 500 Internal Server Error\r\nContent-Type: text/plain\r\nContent-Length: 6\r\n\r\ndenied"
            .to_vec()
    );
}

#[test]
fn missing_file_not_found() {
    match extract_url(b"GET /files/missing.txt HTTP/1.1\r\n\r\n", &Some(b"/tmp/".to_vec())) {
        Dispatch::ReadFile { request, path } => {
            assert_eq!(path, b"/tmp/missing.txt".to_vec());
            assert_eq!(get_file_response(request, None), b"HTTP/1.1 404 Not Found\r\n\r\n".to_vec());
        }
        _ => panic!("expected a file read"),
    }
}

#[test]
fn files_without_directory_not_found() {
    assert_eq!(
        respond(b"GET /files/a.txt HTTP/1.1\r\n\r\n", None),
        b"HTTP/1.1 404 Not Found\r\n\r\n".to_vec()
    );
    assert_eq!(
        respond(b"POST /files/a.txt HTTP/1.1\r\n\r\nabc", None),
        b"HTTP/1.1 404 Not Found\r\n\r\n".to_vec()
    );
}

#[test]
fn file_round_trip_serves_posted_bytes() {
    let dir = Some(b"/tmp/store/".to_vec());
    let (written_path, written) =
        match extract_url(b"POST /files/rt.bin HTTP/1.1\r\n\r\nline one\r\nline two\r\n", &dir) {
            Dispatch::WriteFile { request, path } => (path, request.content),
            _ => panic!("expected a file write"),
        };
    assert_eq!(written, b"line one\r\nline two\r\n".to_vec());
    match extract_url(b"GET /files/rt.bin HTTP/1.1\r\n\r\n", &dir) {
        Dispatch::ReadFile { request, path } => {
            assert_eq!(path, written_path);
            let r = get_file_response(request, Some(written.clone()));
            let mut expected = format!(
                "HTTP/1.1 200 OK\r\nContent-Type: application/octet-stream\r\nContent-Length: {}\r\n\r\n",
                written.len()
            )
            .into_bytes();
            expected.extend_from_slice(&written);
            assert_eq!(r, expected);
        }
        _ => panic!("expected a file read"),
    }
}

#[test]
fn file_contents_gzip_when_asked() {
    let request = get_request(b"GET /files/f HTTP/1.1\r\nAccept-Encoding: gzip\r\n\r\n").unwrap();
    let r = get_file_response(request, Some(b"data\n".to_vec()));
    let (head, body) = split_response(&r);
    assert!(head.contains("Content-Type: application/octet-stream\r\n"));
    assert!(head.contains("Content-Encoding: gzip\r\n"));
    assert_eq!(gunzip(&body), b"data\n".to_vec());
}

#[test]
fn parse_fields() {
    let q = get_request(
        b"post /files/a.txt/deeper HTTP/1.1\r\nHost: example\r\nAccept-Encoding: gzip\r\nConnection: keep-alive\r\nContent-Type: text/html\r\n\r\nbody\r\nmore",
    )
    .unwrap();
    assert_eq!(q.method, HTTPMethod::Post);
    assert_eq!(q.target, b"/files".to_vec());
    assert_eq!(q.body, b"a.txt".to_vec());
    assert_eq!(q.version, b"HTTP/1.1".to_vec());
    assert_eq!(q.headers.host, Some(b"example".to_vec()));
    assert_eq!(q.headers.user_agent, None);
    assert_eq!(q.headers.content_type, Some(b"text/html".to_vec()));
    assert_eq!(q.encoding, Some(b"gzip".to_vec()));
    assert_eq!(q.connection, Some(b"keep-alive".to_vec()));
    assert_eq!(q.content, b"body\r\nmore".to_vec());
    assert_eq!(q.content_type, None);
}

#[test]
fn parse_root_and_unusual_targets() {
    let q = get_request(b"GET / HTTP/1.1").unwrap();
    assert_eq!(q.target, b"/".to_vec());
    assert_eq!(q.body, Vec::<u8>::new());
    assert_eq!(q.content, Vec::<u8>::new());
    let q = get_request(b"GET //echo//x HTTP/1.1\r\n\r\n").unwrap();
    assert_eq!(q.target, b"/echo".to_vec());
    assert_eq!(q.body, b"x".to_vec());
    assert!(get_request(b"").is_none());
    assert!(get_request(b"GET /").is_none());
}

#[test]
fn header_lookup_by_name() {
    let parts = vec![
        b"Host: h".to_vec(),
        b"Connection:close".to_vec(),
        b"Accept-Encoding: gzip, br".to_vec(),
        b"Accept-Encoding: second".to_vec(),
    ];
    assert_eq!(get_request_property(&parts, b"Accept-Encoding"), Some(b"gzip, br".to_vec()));
    assert_eq!(get_request_property(&parts, b"Connection"), Some(b"close".to_vec()));
    assert_eq!(get_request_property(&parts, b"User-Agent"), None);
    assert_eq!(get_request_property(&parts, b"Hos"), None);
}

#[test]
fn method_recognition() {
    assert_eq!(get_http_method(b"POST"), HTTPMethod::Post);
    assert_eq!(get_http_method(b"pOsT"), HTTPMethod::Post);
    assert_eq!(get_http_method(b"GET"), HTTPMethod::Get);
    assert_eq!(get_http_method(b"DELETE"), HTTPMethod::Get);
    assert_eq!(get_http_method(b"POSTS"), HTTPMethod::Get);
}

#[test]
fn directory_from_arguments() {
    let args = vec![b"server".to_vec(), b"--directory".to_vec(), b"/tmp/files/".to_vec()];
    assert_eq!(get_directory(&args), Some(b"/tmp/files/".to_vec()));
    assert_eq!(get_directory(&vec![b"server".to_vec(), b"--directory".to_vec()]), None);
    assert_eq!(get_directory(&vec![b"server".to_vec()]), None);
}

#[test]
fn connection_header_line() {
    assert_eq!(get_connection_header(&Some(b"close".to_vec())), b"\r\nConnection: close".to_vec());
    assert_eq!(get_connection_header(&None), Vec::<u8>::new());
}

#[test]
fn fixed_responses() {
    assert_eq!(response_404(b"HTTP/1.1"), b"HTTP/1.1 404 Not Found\r\n\r\n".to_vec());
    assert_eq!(
        response_500(b"HTTP/1.1", &None, b"oops"),
        b"HTTP/1.1 500 Internal Server Error\r\nContent-Type: text/plain\r\nContent-Length: 4\r\n\r\noops"
            .to_vec()
    );
}

#[test]
fn response_200_frames_body() {
    let q = get_request(b"GET /echo/x HTTP/1.1\r\nConnection: keep-alive\r\n\r\n").unwrap();
    assert_eq!(
        response_200(&q, b"0123456789"),
        b"HTTP/1.1 200 OK\r\nConnection: keep-alive\r\nContent-Type: text/plain\r\nContent-Length: 10\r\n\r\n0123456789"
            .to_vec()
    );
}

#[test]
fn decimal_digits() {
    assert_eq!(to_decimal(0), b"0".to_vec());
    assert_eq!(to_decimal(7), b"7".to_vec());
    assert_eq!(to_decimal(10), b"10".to_vec());
    assert_eq!(to_decimal(40321), b"40321".to_vec());
    assert_eq!(to_decimal(usize::MAX), usize::MAX.to_string().into_bytes());
}

#[test]
fn keep_alive_decision() {
    let open = b"HTTP/1.1 200 OK\r\nConnection: keep-alive\r\n\r\n";
    let closing = b"HTTP/1.1 200 OK\r\nConnection: close\r\n\r\n";
    assert!(keeps_alive(open));
    assert!(!keeps_alive(closing));
    assert_eq!(next_state(true, open), ConnState::Reading);
    assert_eq!(next_state(true, closing), ConnState::Closed);
    assert_eq!(next_state(false, open), ConnState::Closed);
}

#[test]
fn file_response_needs_directory() {
    let q = get_request(b"GET /files/a HTTP/1.1\r\n\r\n").unwrap();
    match file_response(q, &None) {
        Dispatch::Respond(r) => assert_eq!(r, b"HTTP/1.1 404 Not Found\r\n\r\n".to_vec()),
        _ => panic!("expected not found"),
    }
}

#[test]
fn response_200_trims_text_body() {
    let q = get_request(b"GET /echo/x HTTP/1.1\r\n\r\n").unwrap();
    assert_eq!(
        response_200(&q, b"abc\r\n\n"),
        b"HTTP/1.1 200 OK\r\nContent-Type: text/plain\r\nContent-Length: 3\r\n\r\nabc".to_vec()
    );
}

#[test]
fn response_200_trims_before_compressing() {
    let q = get_request(b"GET /echo/x HTTP/1.1\r\nAccept-Encoding: gzip\r\n\r\n").unwrap();
    let (head, body) = split_response(&response_200(&q, b"abc\r\n"));
    assert!(head.contains("Content-Encoding: gzip\r\n"));
    assert_eq!(gunzip(&body), b"abc".to_vec());
}

#[test]
fn file_bytes_keep_trailing_line_ends() {
    let request = get_request(b"GET /files/f HTTP/1.1\r\n\r\n").unwrap();
    let (head, body) = split_response(&get_file_response(request, Some(b"x\r\n\n".to_vec())));
    assert!(head.contains("Content-Length: 4\r\n"));
    assert_eq!(body, b"x\r\n\n".to_vec());
}

#[test]
fn missing_file_not_found_even_with_gzip() {
    let request = get_request(b"GET /files/nope HTTP/1.1\r\nAccept-Encoding: gzip\r\n\r\n").unwrap();
    assert_eq!(get_file_response(request, None), b"HTTP/1.1 404 Not Found\r\n\r\n".to_vec());
}

#[test]
fn server_error_echoes_connection() {
    let r = response_500(b"HTTP/1.1", &Some(b"close".to_vec()), b"disk full");
    assert_eq!(
        r,
        b"HTTP/1.1 500 Internal Server Error\r\nConnection: close\r\nContent-Type: text/plain\r\nContent-Length: 9\r\n\r\ndisk full"
            .to_vec()
    );
    assert!(!keeps_alive(&r));
}

#[test]
fn gzip_response_keeps_connection_close() {
    let r = respond(
        b"GET /echo/abc HTTP/1.1\r\nConnection: close\r\nAccept-Encoding: gzip\r\n\r\n",
        None,
    );
    let (head, body) = split_response(&r);
    assert!(head.contains("Connection: close\r\n"));
    assert_eq!(gunzip(&body), b"abc".to_vec());
    assert_eq!(next_state(true, &r), ConnState::Closed);
}

#[test]
fn echo_request_without_headers() {
    assert_eq!(
        respond(b"GET /echo/hello-world HTTP/1.1\r\n\r\n", None),
        b"HTTP/1.1 200 OK\r\nContent-Type: text/plain\r\nContent-Length: 11\r\n\r\nhello-world".to_vec()
    );
}

#[test]
fn echo_request_with_headers() {
    let r = respond(
        b"GET /echo/t0k3n HTTP/1.1\r\nHost: h\r\nUser-Agent: curl/8\r\nAccept: */*\r\n\r\n",
        None,
    );
    assert_eq!(
        r,
        b"HTTP/1.1 200 OK\r\nContent-Type: text/plain\r\nContent-Length: 5\r\n\r\nt0k3n".to_vec()
    );
    assert_eq!(next_state(true, &r), ConnState::Reading);
}

#[test]
fn root_with_any_headers_and_version() {
    assert_eq!(
        respond(b"GET / HTTP/2\r\nAccept-Encoding: gzip\r\nConnection: close\r\n\r\n", None),
        b"HTTP/2 200 OK\r\n\r\n".to_vec()
    );
}
