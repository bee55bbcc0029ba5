//! Parsing of one raw request buffer into an [`HTTPRequest`].
use vstd::prelude::*;

use crate::bytes::{append_bytes, copy_range};
use crate::structs::{HTTPHeaders, HTTPRequest, HeadersView, RequestView};
use crate::text::{
    accept_encoding_name, accept_encoding_name_vec, connection_name, connection_name_vec,
    content_type_name, content_type_name_vec, crlf, crlf_vec, host_name, host_name_vec, user_agent_name,
    user_agent_name_vec,
};
use crate::utils::{get_http_method, get_request_property, lookup, method_of};

verus! {

/// Lines of `s` split on CRLF, where the current line began at `start` and
/// the scan has reached `i`.
pub open spec fn lines_from(s: Seq<u8>, start: int, i: int) -> Seq<Seq<u8>>
    decreases s.len() - i,
{
    if i + 1 >= s.len() {
        seq![s.subrange(start, s.len() as int)]
    } else if s[i] == 13 && s[i + 1] == 10 {
        seq![s.subrange(start, i)] + lines_from(s, i + 2, i + 2)
    } else {
        lines_from(s, start, i + 1)
    }
}

/// `s` split into lines on each CRLF; there is always at least one line.
pub open spec fn split_lines(s: Seq<u8>) -> Seq<Seq<u8>> {
    lines_from(s, 0, 0)
}

/// What separates the pieces of a token list.
#[derive(Clone, Copy, Debug, PartialEq, Eq, Structural)]
pub enum Separator {
    /// Runs of ASCII whitespace, as between the words of the request line.
    Whitespace,
    /// `/`, as between the segments of a target.
    Slash,
}

/// `b` separates pieces under `k`.
pub open spec fn is_separator(k: Separator, b: u8) -> bool {
    match k {
        Separator::Whitespace => b == 32 || b == 9 || b == 10 || b == 11 || b == 12 || b == 13,
        Separator::Slash => b == 47,
    }
}

/// `s[a..b]` as a one-piece list when it is not empty, else no piece.
pub open spec fn piece(s: Seq<u8>, a: int, b: int) -> Seq<Seq<u8>> {
    if a < b {
        seq![s.subrange(a, b)]
    } else {
        seq![]
    }
}

/// Non-empty pieces of `s` between separators, where the current piece
/// began at `start` and the scan has reached `i`.
pub open spec fn pieces_from(s: Seq<u8>, k: Separator, start: int, i: int) -> Seq<Seq<u8>>
    decreases s.len() - i,
{
    if i >= s.len() {
        piece(s, start, s.len() as int)
    } else if is_separator(k, s[i]) {
        piece(s, start, i) + pieces_from(s, k, i + 1, i + 1)
    } else {
        pieces_from(s, k, start, i + 1)
    }
}

/// The non-empty pieces of `s` between separators of kind `k`.
pub open spec fn pieces(s: Seq<u8>, k: Separator) -> Seq<Seq<u8>> {
    pieces_from(s, k, 0, 0)
}

/// Index of the first empty line of `lines` at or after `i`, or the number of lines.
pub open spec fn first_empty_from(lines: Seq<Seq<u8>>, i: int) -> int
    decreases lines.len() - i,
{
    if i >= lines.len() {
        lines.len() as int
    } else if lines[i].len() == 0 {
        i
    } else {
        first_empty_from(lines, i + 1)
    }
}

/// Index of the blank line that ends the headers (the number of lines if none).
pub open spec fn header_end(lines: Seq<Seq<u8>>) -> int {
    first_empty_from(lines, 1)
}

/// The header lines: those between the request line and the blank line.
pub open spec fn header_lines(lines: Seq<Seq<u8>>) -> Seq<Seq<u8>> {
    lines.subrange(1, header_end(lines))
}

/// `lines` joined with CRLF between each two.
pub open spec fn join_lines(lines: Seq<Seq<u8>>) -> Seq<u8>
    decreases lines.len(),
{
    if lines.len() == 0 {
        seq![]
    } else if lines.len() == 1 {
        lines[0]
    } else {
        join_lines(lines.drop_last()) + crlf() + lines.last()
    }
}

/// The message body: every byte after the blank line that ends the headers.
pub open spec fn body_of(lines: Seq<Seq<u8>>) -> Seq<u8> {
    let e = header_end(lines);
    if e < lines.len() {
        join_lines(lines.subrange(e + 1, lines.len() as int))
    } else {
        seq![]
    }
}

/// The request that `buf` holds, or `None` when `buf` is empty or its first
/// line is not exactly three whitespace-separated words.
pub open spec fn parse(buf: Seq<u8>) -> Option<RequestView> {
    let lines = split_lines(buf);
    let words = pieces(lines[0], Separator::Whitespace);
    if buf.len() == 0 || words.len() != 3 {
        None
    } else {
        let segments = pieces(words[1], Separator::Slash);
        let headers = header_lines(lines);
        Some(
            RequestView {
                method: method_of(words[0]),
                target: if segments.len() > 0 {
                    seq![47u8] + segments[0]
                } else {
                    seq![47u8]
                },
                version: words[2],
                content_type: None,
                headers: HeadersView {
                    host: lookup(headers, host_name()),
                    user_agent: lookup(headers, user_agent_name()),
                    content_type: lookup(headers, content_type_name()),
                },
                body: if segments.len() > 1 {
                    segments[1]
                } else {
                    seq![]
                },
                content: body_of(lines),
                encoding: lookup(headers, accept_encoding_name()),
                connection: lookup(headers, connection_name()),
            },
        )
    }
}

/// Splits `s` into lines on each CRLF.
pub fn split_lines_exec(s: &[u8]) -> (r: Vec<Vec<u8>>)
    ensures
        r.deep_view() == split_lines(s@),
        r@.len() >= 1,
{
    let n: usize = s.len();
    let mut lines: Vec<Vec<u8>> = Vec::new();
    let mut start: usize = 0;
    let mut i: usize = 0;
    while i < n && n - i > 1
        invariant
            n == s@.len(),
            start <= i <= n,
            lines.deep_view() + lines_from(s@, start as int, i as int) == split_lines(s@),
        decreases n - i,
    {
        if s[i] == 13 && s[i + 1] == 10 {
            let line = copy_range(s, start, i);
            let ghost before = lines.deep_view();
            assert(line.deep_view() =~= line@);
            lines.push(line);
            assert(lines.deep_view() =~= before.push(line@));
            assert(before + lines_from(s@, start as int, i as int) =~= lines.deep_view()
                + lines_from(s@, i + 2, i + 2));
            i = i + 2;
            start = i;
        } else {
            i = i + 1;
        }
    }
    let line = copy_range(s, start, n);
    let ghost before = lines.deep_view();
    assert(line.deep_view() =~= line@);
    lines.push(line);
    assert(lines.deep_view() =~= before.push(line@));
    assert(before + lines_from(s@, start as int, i as int) =~= lines.deep_view());
    lines
}

/// Splits `s` into its non-empty pieces between separators of kind `k`.
pub fn split_pieces(s: &[u8], k: Separator) -> (r: Vec<Vec<u8>>)
    ensures
        r.deep_view() == pieces(s@, k),
{
    let n: usize = s.len();
    let mut out: Vec<Vec<u8>> = Vec::new();
    let mut start: usize = 0;
    let mut i: usize = 0;
    while i < n
        invariant
            n == s@.len(),
            start <= i <= n,
            out.deep_view() + pieces_from(s@, k, start as int, i as int) == pieces(s@, k),
        decreases n - i,
    {
        let b = s[i];
        let sep = match k {
            Separator::Whitespace => b == 32 || b == 9 || b == 10 || b == 11 || b == 12 || b == 13,
            Separator::Slash => b == 47,
        };
        if sep {
            let ghost before = out.deep_view();
            if start < i {
                let p = copy_range(s, start, i);
                assert(p.deep_view() =~= p@);
                out.push(p);
                assert(out.deep_view() =~= before.push(p@));
            }
            assert(before + pieces_from(s@, k, start as int, i as int) =~= out.deep_view()
                + pieces_from(s@, k, i + 1, i + 1));
            i = i + 1;
            start = i;
        } else {
            i = i + 1;
        }
    }
    let ghost before = out.deep_view();
    if start < n {
        let p = copy_range(s, start, n);
        assert(p.deep_view() =~= p@);
                out.push(p);
        assert(out.deep_view() =~= before.push(p@));
    }
    assert(before + pieces_from(s@, k, start as int, i as int) =~= out.deep_view());
    out
}

/// Index of the blank line that ends the headers.
fn find_header_end(lines: &Vec<Vec<u8>>) -> (r: usize)
    requires
        lines@.len() >= 1,
    ensures
        r as int == header_end(lines.deep_view()),
        1 <= r <= lines@.len(),
{
    let mut i: usize = 1;
    while i < lines.len()
        invariant
            1 <= i <= lines@.len(),
            first_empty_from(lines.deep_view(), i as int) == header_end(lines.deep_view()),
        decreases lines@.len() - i,
    {
        if lines[i].len() == 0 {
            return i;
        }
        i = i + 1;
    }
    i
}

/// A copy of `lines[a..b]`.
fn copy_lines(lines: &Vec<Vec<u8>>, a: usize, b: usize) -> (r: Vec<Vec<u8>>)
    requires
        a <= b <= lines@.len(),
    ensures
        r.deep_view() == lines.deep_view().subrange(a as int, b as int),
{
    let mut r: Vec<Vec<u8>> = Vec::new();
    let mut i: usize = a;
    while i < b
        invariant
            a <= i <= b,
            b <= lines@.len(),
            r.deep_view() =~= lines.deep_view().subrange(a as int, i as int),
        decreases b - i,
    {
        let line = copy_range(lines[i].as_slice(), 0, lines[i].len());
        assert(line@ =~= lines[i as int]@);
        assert(line.deep_view() =~= line@);
        assert(lines.deep_view()[i as int] =~= lines[i as int]@);
        let ghost before = r.deep_view();
        r.push(line);
        assert(r.deep_view() =~= before.push(line@));
        assert(lines.deep_view().subrange(a as int, i + 1) =~= before.push(line@));
        i = i + 1;
    }
    r
}

/// `lines[a..]` joined with CRLF between each two.
fn join_from(lines: &Vec<Vec<u8>>, a: usize) -> (r: Vec<u8>)
    requires
        a <= lines@.len(),
    ensures
        r@ == join_lines(lines.deep_view().subrange(a as int, lines@.len() as int)),
{
    let ghost all = lines.deep_view();
    let n: usize = lines.len();
    if a == n {
        assert(all.subrange(a as int, n as int) =~= Seq::<Seq<u8>>::empty());
        return Vec::new();
    }
    let mut r = copy_range(lines[a].as_slice(), 0, lines[a].len());
    assert(all[a as int] =~= lines[a as int]@);
    assert(all.subrange(a as int, a + 1)[0] == all[a as int]);
    let mut j: usize = a + 1;
    while j < n
        invariant
            n == lines@.len(),
            all == lines.deep_view(),
            a < j <= n,
            r@ == join_lines(all.subrange(a as int, j as int)),
        decreases n - j,
    {
        let sep = crlf_vec();
        append_bytes(&mut r, sep.as_slice());
        append_bytes(&mut r, lines[j].as_slice());
        assert(all[j as int] =~= lines[j as int]@);
        assert(all.subrange(a as int, j + 1).drop_last() =~= all.subrange(a as int, j as int));
        j = j + 1;
    }
    r
}

/// Parses one request from the raw bytes `buf`. Fails when `buf` is empty
/// or its first line is not exactly three whitespace-separated words.
pub fn get_request(buf: &[u8]) -> (r: Option<HTTPRequest>)
    ensures
        match r {
            Some(q) => parse(buf@) == Some(q@),
            None => parse(buf@) is None,
        },
{
    let lines = split_lines_exec(buf);
    let ghost ls = lines.deep_view();
    assert(ls[0] =~= lines[0]@);
    if buf.len() == 0 {
        return None;
    }
    let words = split_pieces(lines[0].as_slice(), Separator::Whitespace);
    if words.len() != 3 {
        return None;
    }
    let ghost ws = words.deep_view();
    assert(ws[0] =~= words[0]@);
    assert(ws[1] =~= words[1]@);
    assert(ws[2] =~= words[2]@);
    let segments = split_pieces(words[1].as_slice(), Separator::Slash);
    let ghost ss = segments.deep_view();
    let e = find_header_end(&lines);
    let headers = copy_lines(&lines, 1, e);
    let mut target: Vec<u8> = vec![47u8];
    if segments.len() > 0 {
        assert(ss[0] =~= segments[0]@);
        append_bytes(&mut target, segments[0].as_slice());
    }
    let body = if segments.len() > 1 {
        assert(ss[1] =~= segments[1]@);
        copy_range(segments[1].as_slice(), 0, segments[1].len())
    } else {
        Vec::new()
    };
    let content = if e < lines.len() {
        join_from(&lines, e + 1)
    } else {
        Vec::new()
    };
    let host_key = host_name_vec();
    let user_agent_key = user_agent_name_vec();
    let content_type_key = content_type_name_vec();
    let encoding_key = accept_encoding_name_vec();
    let connection_key = connection_name_vec();
    let request = HTTPRequest {
        method: get_http_method(words[0].as_slice()),
        target,
        version: copy_range(words[2].as_slice(), 0, words[2].len()),
        content_type: None,
        headers: HTTPHeaders {
            host: get_request_property(&headers, host_key.as_slice()),
            user_agent: get_request_property(&headers, user_agent_key.as_slice()),
            content_type: get_request_property(&headers, content_type_key.as_slice()),
        },
        body,
        content,
        encoding: get_request_property(&headers, encoding_key.as_slice()),
        connection: get_request_property(&headers, connection_key.as_slice()),
    };
    let ghost expected = parse(buf@).unwrap();
    assert(request@.target =~= expected.target);
    assert(request@.body =~= expected.body);
    assert(request@.content =~= expected.content);
    assert(request@.version =~= expected.version);
    assert(request@.method == expected.method);
    assert(request@.headers == expected.headers);
    assert(request@.encoding == expected.encoding);
    assert(request@.connection == expected.connection);
    assert(request@ == expected);
    Some(request)
}

} // verus!
