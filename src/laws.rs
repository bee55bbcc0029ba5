//! Properties that relate the parser, the router and the response builder.
use vstd::prelude::*;

use crate::files::{as_octet_stream, file_read_response, DispatchView};
use crate::request::{
    first_empty_from, header_lines, join_lines, is_separator, lines_from, parse, piece, pieces,
    pieces_from, split_lines, Separator,
};
use crate::response::{
    gzip_of, ok_response, payload, response_200_spec, root_response, server_error_response, wants_gzip,
};
use crate::server::{closes, dispatch};
use crate::structs::{HTTPMethod, RequestView};
use crate::utils::{connection_line, is_header_line, lookup_from};
use crate::bytes::{occurs_at, trim_line_end};
use crate::text::{
    accept_encoding_name, connection_close, connection_field, connection_name, crlf, default_version, echo_path, files_path, gzip_failure_prefix, octet_stream, root_path, status_200, status_500, text_plain, user_agent_path,
};

verus! {

/// Every byte of every piece satisfies `p` and is no separator, when every
/// byte of `s` satisfies `p` and the current piece holds no separator.
proof fn lemma_piece_bytes(s: Seq<u8>, k: Separator, start: int, i: int, p: spec_fn(u8) -> bool)
    requires
        0 <= start <= i <= s.len(),
        forall|m: int| 0 <= m < s.len() ==> p(#[trigger] s[m]),
        forall|m: int| start <= m < i ==> !is_separator(k, #[trigger] s[m]),
    ensures
        forall|j: int, m: int|
            0 <= j < pieces_from(s, k, start, i).len() && 0 <= m < pieces_from(
                s,
                k,
                start,
                i,
            )[j].len() ==> p(#[trigger] pieces_from(s, k, start, i)[j][m]) && !is_separator(
                k,
                pieces_from(s, k, start, i)[j][m],
            ),
    decreases s.len() - i,
{
    let r = pieces_from(s, k, start, i);
    if i >= s.len() {
        assert forall|j: int, m: int| 0 <= j < r.len() && 0 <= m < r[j].len() implies p(
            #[trigger] r[j][m],
        ) && !is_separator(k, r[j][m]) by {
            assert(r[j][m] == s[start + m]);
        }
    } else if is_separator(k, s[i]) {
        lemma_piece_bytes(s, k, i + 1, i + 1, p);
        let head = piece(s, start, i);
        let rest = pieces_from(s, k, i + 1, i + 1);
        assert(r == head + rest);
        assert forall|j: int, m: int| 0 <= j < r.len() && 0 <= m < r[j].len() implies p(
            #[trigger] r[j][m],
        ) && !is_separator(k, r[j][m]) by {
            if j < head.len() {
                assert(r[j][m] == s[start + m]);
            } else {
                assert(r[j] == rest[j - head.len()]);
                assert(rest[j - head.len()][m] == r[j][m]);
            }
        }
    } else {
        lemma_piece_bytes(s, k, start, i + 1, p);
        assert(r == pieces_from(s, k, start, i + 1));
    }
}

/// A text taken from the request target holds no carriage return or line
/// feed, so trimming leaves it as it is.
proof fn lemma_target_text_untrimmed(buf: Seq<u8>)
    requires
        parse(buf) is Some,
    ensures
        trim_line_end(parse(buf).unwrap().body) == parse(buf).unwrap().body,
{
    let lines = split_lines(buf);
    let words = pieces(lines[0], Separator::Whitespace);
    lemma_piece_bytes(lines[0], Separator::Whitespace, 0, 0, |b: u8| true);
    let word = words[1];
    assert forall|m: int| 0 <= m < word.len() implies !is_separator(
        Separator::Whitespace,
        #[trigger] word[m],
    ) by {
        assert(words[1][m] == word[m]);
    }
    let no_space = |b: u8| !is_separator(Separator::Whitespace, b);
    lemma_piece_bytes(word, Separator::Slash, 0, 0, no_space);
    let segments = pieces(word, Separator::Slash);
    let body = parse(buf).unwrap().body;
    if segments.len() > 1 && body.len() > 0 {
        assert(body == segments[1]);
        assert(no_space(segments[1][body.len() - 1]));
    }
}

/// An echo request is answered with exactly the text after `/echo/`, as a
/// plain-text body whose `Content-Length` is its length; when the client asks
/// for gzip, the body is that text compressed, marked `Content-Encoding: gzip`,
/// and `Content-Length` is the compressed length, or, if the encoder fails, a
/// server error carrying its reason.
pub proof fn echo_returns_text(buf: Seq<u8>, directory: Option<Seq<u8>>)
    requires
        parse(buf) matches Some(q) && q.target == echo_path(),
    ensures
        ({
            let q = parse(buf).unwrap();
            dispatch(buf, directory) == DispatchView::Respond(
                if wants_gzip(q.encoding) {
                    match gzip_of(q.body) {
                        Ok(z) => ok_response(q.version, q.connection, text_plain(), true, z),
                        Err(e) => server_error_response(
                            q.version,
                            q.connection,
                            gzip_failure_prefix() + e,
                        ),
                    }
                } else {
                    ok_response(q.version, q.connection, text_plain(), false, q.body)
                },
            )
        }),
{
    lemma_target_text_untrimmed(buf);
    assert(echo_path() != root_path());
}

/// A file posted under a name and then fetched under the same name is read
/// back from the path it was written to, and a successful read of what was
/// written is served as an octet stream holding exactly the posted body.
pub proof fn file_round_trip(post: Seq<u8>, get: Seq<u8>, directory: Seq<u8>)
    requires
        parse(post) matches Some(p) && p.target == files_path() && p.method == HTTPMethod::Post,
        parse(get) matches Some(g) && g.target == files_path() && g.method == HTTPMethod::Get,
        parse(post).unwrap().body == parse(get).unwrap().body,
    ensures
        ({
            let p = parse(post).unwrap();
            let g = parse(get).unwrap();
            let path = directory + p.body;
            &&& dispatch(post, Some(directory)) == DispatchView::WriteFile { request: p, path }
            &&& dispatch(get, Some(directory)) == DispatchView::ReadFile { request: g, path }
            &&& file_read_response(g, Some(p.content)) == response_200_spec(
                as_octet_stream(g),
                p.content,
            )
            &&& !wants_gzip(g.encoding) ==> file_read_response(g, Some(p.content)) == ok_response(
                g.version,
                g.connection,
                octet_stream(),
                false,
                p.content,
            )
        }),
{
    assert(files_path() != root_path());
    assert(files_path() != echo_path());
    assert(files_path() != user_agent_path());
}

/// The root probe gets the same bare success response whatever headers,
/// method or body come with it, for a given protocol version.
pub proof fn root_ignores_headers(
    a: Seq<u8>,
    b: Seq<u8>,
    directory_a: Option<Seq<u8>>,
    directory_b: Option<Seq<u8>>,
)
    requires
        parse(a) matches Some(p) && p.target == root_path(),
        parse(b) matches Some(q) && q.target == root_path(),
        parse(a).unwrap().version == parse(b).unwrap().version,
    ensures
        dispatch(a, directory_a) == dispatch(b, directory_b),
        dispatch(a, directory_a) == DispatchView::Respond(root_response(parse(a).unwrap().version)),
{
}

/// Scanning for line ends over bytes that hold no CRLF changes nothing.
proof fn lemma_lines_skip(s: Seq<u8>, start: int, i: int, j: int)
    requires
        0 <= start <= i <= j,
        j < s.len(),
        forall|m: int| i <= m < j ==> !(#[trigger] s[m] == 13 && s[m + 1] == 10),
    ensures
        lines_from(s, start, i) == lines_from(s, start, j),
    decreases j - i,
{
    if i < j {
        lemma_lines_skip(s, start, i + 1, j);
    }
}

/// Scanning for separators over bytes that are none changes nothing.
proof fn lemma_pieces_skip(s: Seq<u8>, k: Separator, start: int, i: int, j: int)
    requires
        0 <= start <= i <= j <= s.len(),
        forall|m: int| i <= m < j ==> !is_separator(k, #[trigger] s[m]),
    ensures
        pieces_from(s, k, start, i) == pieces_from(s, k, start, j),
    decreases j - i,
{
    if i < j {
        lemma_pieces_skip(s, k, start, i + 1, j);
    }
}

/// `text` can stand as one segment of a request target: it is not empty and
/// holds no `/` and no whitespace.
pub open spec fn is_segment_text(text: Seq<u8>) -> bool {
    text.len() > 0 && forall|m: int|
        0 <= m < text.len() ==> !is_separator(Separator::Whitespace, #[trigger] text[m])
            && text[m] != 47
}

/// The target `/echo/<text>`.
pub open spec fn echo_target(text: Seq<u8>) -> Seq<u8> {
    seq![47u8, 101, 99, 104, 111, 47] + text
}

/// The request line `GET /echo/<text> HTTP/1.1`.
pub open spec fn echo_line(text: Seq<u8>) -> Seq<u8> {
    seq![71u8, 69, 84, 32] + echo_target(text) + seq![32u8] + default_version()
}

/// Header lines that carry neither `Accept-Encoding` nor `Connection`, each
/// a non-empty line without CRLF.
pub open spec fn plain_headers(headers: Seq<Seq<u8>>) -> bool {
    forall|j: int|
        0 <= j < headers.len() ==> #[trigger] headers[j].len() > 0 && crlf_free(headers[j])
            && !is_header_line(headers[j], accept_encoding_name()) && !is_header_line(
            headers[j],
            connection_name(),
        )
}

/// The request `GET /echo/<text> HTTP/1.1` with header lines `headers` and no body.
pub open spec fn echo_request(text: Seq<u8>, headers: Seq<Seq<u8>>) -> Seq<u8> {
    join_lines(seq![echo_line(text)] + headers + seq![Seq::<u8>::empty(), Seq::<u8>::empty()])
}

/// The echo request line holds no carriage return, so no CRLF.
proof fn lemma_echo_line_crlf_free(text: Seq<u8>)
    requires
        is_segment_text(text),
    ensures
        crlf_free(echo_line(text)),
{
    let line = echo_line(text);
    let n = text.len() as int;
    assert forall|m: int| !#[trigger] crlf_at(line, m) by {
        if 10 <= m < 10 + n {
            assert(line[m] == text[m - 10]);
        }
        if 11 + n <= m < line.len() {
            assert(line[m] == default_version()[m - 11 - n]);
        }
    }
}

/// Over non-empty lines the search for the blank line moves on unchanged.
proof fn lemma_first_empty_skip(lines: Seq<Seq<u8>>, i: int, j: int)
    requires
        0 <= i <= j <= lines.len(),
        forall|m: int| i <= m < j ==> #[trigger] lines[m].len() > 0,
    ensures
        first_empty_from(lines, i) == first_empty_from(lines, j),
    decreases j - i,
{
    if i < j {
        lemma_first_empty_skip(lines, i + 1, j);
    }
}

/// No header line for `name` from `i` on: the lookup finds nothing.
proof fn lemma_lookup_none(lines: Seq<Seq<u8>>, name: Seq<u8>, i: int)
    requires
        0 <= i,
        forall|j: int| i <= j < lines.len() ==> !is_header_line(#[trigger] lines[j], name),
    ensures
        lookup_from(lines, name, i) is None,
    decreases lines.len() - i,
{
    if i < lines.len() {
        lemma_lookup_none(lines, name, i + 1);
    }
}

/// The echo request line holds three words: method, target, version.
proof fn lemma_echo_words(text: Seq<u8>)
    requires
        is_segment_text(text),
    ensures
        pieces(echo_line(text), Separator::Whitespace) == seq![
            seq![71u8, 69, 84],
            echo_target(text),
            default_version(),
        ],
{
    let n = text.len() as int;
    let line = echo_line(text);
    let n0 = line.len() as int;
    let w = Separator::Whitespace;
    assert(n0 == 19 + n);
    assert forall|m: int| 4 <= m < 10 + n implies !is_separator(w, #[trigger] line[m]) by {
        if 10 <= m {
            assert(line[m] == text[m - 10]);
        }
    }
    assert forall|m: int| 11 + n <= m < n0 implies !is_separator(w, #[trigger] line[m]) by {
        assert(line[m] == default_version()[m - 11 - n]);
    }
    lemma_pieces_skip(line, w, 0, 0, 3);
    lemma_pieces_skip(line, w, 4, 4, 10 + n);
    lemma_pieces_skip(line, w, 11 + n, 11 + n, n0);
    assert(line.subrange(0, 3) =~= seq![71u8, 69, 84]);
    assert(line.subrange(4, 10 + n) =~= echo_target(text));
    assert(line.subrange(11 + n, n0) =~= default_version());
    assert(pieces_from(line, w, 11 + n, 11 + n) =~= seq![default_version()]);
    assert(pieces_from(line, w, 4, 4) =~= seq![echo_target(text), default_version()]);
    assert(pieces(line, w) =~= seq![seq![71u8, 69, 84], echo_target(text), default_version()]);
}

/// The echo target holds two segments: `echo` and the text.
proof fn lemma_echo_segments(text: Seq<u8>)
    requires
        is_segment_text(text),
    ensures
        pieces(echo_target(text), Separator::Slash) == seq![seq![101u8, 99, 104, 111], text],
{
    let n = text.len() as int;
    let target = echo_target(text);
    let sl = Separator::Slash;
    assert forall|m: int| 6 <= m < 6 + n implies !is_separator(sl, #[trigger] target[m]) by {
        assert(target[m] == text[m - 6]);
    }
    lemma_pieces_skip(target, sl, 1, 1, 5);
    lemma_pieces_skip(target, sl, 6, 6, 6 + n);
    assert(target.subrange(0, 0) =~= Seq::<u8>::empty());
    assert(target.subrange(1, 5) =~= seq![101u8, 99, 104, 111]);
    assert(target.subrange(6, 6 + n) =~= text);
    assert(pieces_from(target, sl, 6, 6) =~= seq![text]);
    assert(pieces_from(target, sl, 1, 1) =~= seq![seq![101u8, 99, 104, 111], text]);
    assert(pieces(target, sl) =~= seq![seq![101u8, 99, 104, 111], text]);
}

/// `GET /echo/<text> HTTP/1.1`, whatever header lines other than
/// `Accept-Encoding` and `Connection` come with it, is answered with exactly
/// `text` as a plain-text body whose `Content-Length` is its length.
pub proof fn echo_request_returns_text(
    text: Seq<u8>,
    headers: Seq<Seq<u8>>,
    directory: Option<Seq<u8>>,
)
    requires
        is_segment_text(text),
        plain_headers(headers),
    ensures
        dispatch(echo_request(text, headers), directory) == DispatchView::Respond(
            ok_response(default_version(), None, text_plain(), false, text),
        ),
{
    let buf = echo_request(text, headers);
    let n = text.len() as int;
    let h = headers.len() as int;
    let empty = Seq::<u8>::empty();
    let lines = seq![echo_line(text)] + headers + seq![empty, empty];
    lemma_echo_line_crlf_free(text);
    assert(crlf_free(empty));
    assert forall|j: int| 0 <= j < lines.len() implies crlf_free(#[trigger] lines[j]) by {
        if 1 <= j < 1 + h {
            assert(lines[j] == headers[j - 1]);
        }
    }
    split_join_law(lines);
    assert(split_lines(buf) == lines);
    lemma_echo_words(text);
    lemma_echo_segments(text);
    assert forall|m: int| 1 <= m < 1 + h implies #[trigger] lines[m].len() > 0 by {
        assert(lines[m] == headers[m - 1]);
    }
    lemma_first_empty_skip(lines, 1, 1 + h);
    assert(lines[1 + h] == empty);
    assert(first_empty_from(lines, 1 + h) == 1 + h);
    assert(header_lines(lines) =~= headers);
    lemma_lookup_none(headers, accept_encoding_name(), 0);
    lemma_lookup_none(headers, connection_name(), 0);
    let q = parse(buf).unwrap();
    assert(q.target =~= echo_path());
    assert(q.body == text);
    assert(q.encoding is None);
    assert(q.connection is None);
    assert(!is_separator(Separator::Whitespace, text[n - 1]));
    assert(trim_line_end(text) == text);
    assert(echo_path() != root_path());
}

/// `s` holds a CRLF starting at index `m`.
pub open spec fn crlf_at(s: Seq<u8>, m: int) -> bool {
    0 <= m && m + 1 < s.len() && s[m] == 13 && s[m + 1] == 10
}

/// Joining a line in front of a non-empty list puts one CRLF between them.
proof fn lemma_join_prepend(a: Seq<u8>, rest: Seq<Seq<u8>>)
    requires
        rest.len() >= 1,
    ensures
        join_lines(seq![a] + rest) == a + crlf() + join_lines(rest),
    decreases rest.len(),
{
    let all = seq![a] + rest;
    if rest.len() == 1 {
        assert(all.drop_last() =~= seq![a]);
        assert(all.last() == rest[0]);
        assert(join_lines(seq![a]) == a);
        assert(join_lines(rest) == rest[0]);
        assert(join_lines(all) == join_lines(all.drop_last()) + crlf() + all.last());
    } else {
        lemma_join_prepend(a, rest.drop_last());
        assert(all.drop_last() =~= seq![a] + rest.drop_last());
        assert(all.last() == rest.last());
        assert(join_lines(all) == join_lines(all.drop_last()) + crlf() + all.last());
        assert(join_lines(rest) == join_lines(rest.drop_last()) + crlf() + rest.last());
        assert(join_lines(all) =~= a + crlf() + join_lines(rest));
    }
}

/// The lines found from `start`, scanning at `i`, join back to `s[start..]`
/// and hold no CRLF, when none starts in `s[start..i]`.
proof fn lemma_lines_from(s: Seq<u8>, start: int, i: int)
    requires
        0 <= start <= i <= s.len(),
        forall|m: int| start <= m < i ==> !#[trigger] crlf_at(s, m),
    ensures
        lines_from(s, start, i).len() >= 1,
        join_lines(lines_from(s, start, i)) == s.subrange(start, s.len() as int),
        forall|j: int, m: int|
            0 <= j < lines_from(s, start, i).len() ==> !#[trigger] crlf_at(
                lines_from(s, start, i)[j],
                m,
            ),
    decreases s.len() - i,
{
    let r = lines_from(s, start, i);
    if i + 1 >= s.len() {
        let line = s.subrange(start, s.len() as int);
        assert forall|j: int, m: int| 0 <= j < r.len() implies !#[trigger] crlf_at(r[j], m) by {
            if crlf_at(line, m) {
                assert(line[m] == s[start + m] && line[m + 1] == s[start + m + 1]);
                assert(crlf_at(s, start + m));
            }
        }
    } else if s[i] == 13 && s[i + 1] == 10 {
        lemma_lines_from(s, i + 2, i + 2);
        let line = s.subrange(start, i);
        let rest = lines_from(s, i + 2, i + 2);
        assert(r == seq![line] + rest);
        lemma_join_prepend(line, rest);
        assert(line + crlf() + s.subrange(i + 2, s.len() as int) =~= s.subrange(
            start,
            s.len() as int,
        ));
        assert forall|j: int, m: int| 0 <= j < r.len() implies !#[trigger] crlf_at(r[j], m) by {
            if j == 0 {
                if crlf_at(line, m) {
                    assert(line[m] == s[start + m] && line[m + 1] == s[start + m + 1]);
                    assert(crlf_at(s, start + m));
                }
            } else {
                assert(r[j] == rest[j - 1]);
            }
        }
    } else {
        assert(!crlf_at(s, i));
        lemma_lines_from(s, start, i + 1);
        assert(r == lines_from(s, start, i + 1));
    }
}

/// Splitting on CRLF loses nothing and leaves no CRLF inside a line: the
/// lines joined with CRLF give `s` back.
pub proof fn split_lines_law(s: Seq<u8>)
    ensures
        split_lines(s).len() >= 1,
        join_lines(split_lines(s)) == s,
        forall|j: int, m: int|
            0 <= j < split_lines(s).len() ==> !#[trigger] crlf_at(split_lines(s)[j], m),
{
    lemma_lines_from(s, 0, 0);
    assert(s.subrange(0, s.len() as int) =~= s);
}

/// The pieces found from `start`, scanning at `i`, are none of them empty.
proof fn lemma_pieces_nonempty(s: Seq<u8>, k: Separator, start: int, i: int)
    requires
        0 <= start <= i <= s.len(),
    ensures
        forall|j: int|
            0 <= j < pieces_from(s, k, start, i).len() ==> #[trigger] pieces_from(
                s,
                k,
                start,
                i,
            )[j].len() > 0,
    decreases s.len() - i,
{
    let r = pieces_from(s, k, start, i);
    if i >= s.len() {
    } else if is_separator(k, s[i]) {
        lemma_pieces_nonempty(s, k, i + 1, i + 1);
        let head = piece(s, start, i);
        let rest = pieces_from(s, k, i + 1, i + 1);
        assert(r == head + rest);
        assert forall|j: int| 0 <= j < r.len() implies #[trigger] r[j].len() > 0 by {
            if j >= head.len() {
                assert(r[j] == rest[j - head.len()]);
            }
        }
    } else {
        lemma_pieces_nonempty(s, k, start, i + 1);
        assert(r == pieces_from(s, k, start, i + 1));
    }
}

/// The pieces of `s` are never empty and never hold a separator.
pub proof fn pieces_law(s: Seq<u8>, k: Separator)
    ensures
        forall|j: int| 0 <= j < pieces(s, k).len() ==> #[trigger] pieces(s, k)[j].len() > 0,
        forall|j: int, m: int|
            0 <= j < pieces(s, k).len() && 0 <= m < pieces(s, k)[j].len() ==> !is_separator(
                k,
                #[trigger] pieces(s, k)[j][m],
            ),
{
    lemma_pieces_nonempty(s, k, 0, 0);
    lemma_piece_bytes(s, k, 0, 0, |b: u8| true);
}

/// No CRLF starts anywhere in `line`.
pub open spec fn crlf_free(line: Seq<u8>) -> bool {
    forall|m: int| !#[trigger] crlf_at(line, m)
}

/// Splitting `s[start..]`, which is `lines` joined with CRLF, gives `lines` back.
proof fn lemma_split_of_join(s: Seq<u8>, start: int, lines: Seq<Seq<u8>>)
    requires
        0 <= start <= s.len(),
        lines.len() >= 1,
        s.subrange(start, s.len() as int) == join_lines(lines),
        forall|j: int| 0 <= j < lines.len() ==> crlf_free(#[trigger] lines[j]),
    ensures
        lines_from(s, start, start) == lines,
    decreases lines.len(),
{
    let a = lines[0];
    let e = start + a.len();
    if lines.len() == 1 {
        assert(join_lines(lines) == a);
        if start < s.len() {
            assert forall|m: int| start <= m < s.len() - 1 implies !(#[trigger] s[m] == 13 && s[m
                + 1] == 10) by {
                assert(s[m] == a[m - start] && s[m + 1] == a[m + 1 - start]);
                assert(!crlf_at(a, m - start));
            }
            lemma_lines_skip(s, start, start, s.len() - 1);
        }
        assert(lines =~= seq![s.subrange(start, s.len() as int)]);
    } else {
        let rest = lines.subrange(1, lines.len() as int);
        assert(lines =~= seq![a] + rest);
        lemma_join_prepend(a, rest);
        let tail = s.subrange(start, s.len() as int);
        assert(tail =~= a + crlf() + join_lines(rest));
        assert(s[e] == tail[a.len() as int]);
        assert(s[e + 1] == tail[a.len() + 1int]);
        assert forall|m: int| start <= m < e implies !(#[trigger] s[m] == 13 && s[m + 1] == 10) by {
            assert(s[m] == tail[m - start]);
            assert(s[m + 1] == tail[m + 1 - start]);
            if m + 1 < e {
                assert(s[m] == a[m - start] && s[m + 1] == a[m + 1 - start]);
                assert(!crlf_at(a, m - start));
            }
        }
        lemma_lines_skip(s, start, start, e);
        assert(s.subrange(start, e) =~= a);
        assert(crlf().len() == 2);
        assert(tail.subrange(a.len() + 2int, tail.len() as int) =~= join_lines(rest));
        assert(s.subrange(e + 2, s.len() as int) =~= tail.subrange(
            a.len() + 2int,
            tail.len() as int,
        ));
        assert forall|j: int| 0 <= j < rest.len() implies crlf_free(#[trigger] rest[j]) by {
            assert(rest[j] == lines[j + 1]);
        }
        lemma_split_of_join(s, e + 2, rest);
    }
}

/// Lines that hold no CRLF, joined with CRLF and split again, come back as they were.
pub proof fn split_join_law(lines: Seq<Seq<u8>>)
    requires
        lines.len() >= 1,
        forall|j: int| 0 <= j < lines.len() ==> crlf_free(#[trigger] lines[j]),
    ensures
        split_lines(join_lines(lines)) == lines,
{
    let s = join_lines(lines);
    assert(s.subrange(0, s.len() as int) =~= s);
    lemma_split_of_join(s, 0, lines);
}

/// `v` is one word: not empty, no whitespace.
pub open spec fn is_word(v: Seq<u8>) -> bool {
    v.len() > 0 && forall|m: int|
        0 <= m < v.len() ==> !is_separator(Separator::Whitespace, #[trigger] v[m])
}

/// The request line `GET / <version>`.
pub open spec fn root_line(version: Seq<u8>) -> Seq<u8> {
    seq![71u8, 69, 84, 32, 47, 32] + version
}

/// The request `GET / <version>` with header lines `headers` and no body.
pub open spec fn root_request(version: Seq<u8>, headers: Seq<Seq<u8>>) -> Seq<u8> {
    join_lines(seq![root_line(version)] + headers + seq![Seq::<u8>::empty(), Seq::<u8>::empty()])
}

/// `GET / <version>` gets the bare success response `<version> 200 OK`,
/// whatever header lines come with it.
pub proof fn root_request_ignores_headers(
    version: Seq<u8>,
    headers: Seq<Seq<u8>>,
    directory: Option<Seq<u8>>,
)
    requires
        is_word(version),
        forall|j: int| 0 <= j < headers.len() ==> crlf_free(#[trigger] headers[j]),
    ensures
        dispatch(root_request(version, headers), directory) == DispatchView::Respond(
            root_response(version),
        ),
{
    let n = version.len() as int;
    let line = root_line(version);
    let h = headers.len() as int;
    let empty = Seq::<u8>::empty();
    let lines = seq![line] + headers + seq![empty, empty];
    assert forall|m: int| !#[trigger] crlf_at(line, m) by {
        if 6 <= m < 6 + n {
            assert(line[m] == version[m - 6]);
        }
    }
    assert(crlf_free(empty));
    assert forall|j: int| 0 <= j < lines.len() implies crlf_free(#[trigger] lines[j]) by {
        if 1 <= j < 1 + h {
            assert(lines[j] == headers[j - 1]);
        }
    }
    split_join_law(lines);
    let w = Separator::Whitespace;
    assert forall|m: int| 6 <= m < 6 + n implies !is_separator(w, #[trigger] line[m]) by {
        assert(line[m] == version[m - 6]);
    }
    lemma_pieces_skip(line, w, 0, 0, 3);
    lemma_pieces_skip(line, w, 6, 6, 6 + n);
    assert(line.subrange(0, 3) =~= seq![71u8, 69, 84]);
    assert(line.subrange(4, 5) =~= seq![47u8]);
    assert(line.subrange(6, 6 + n) =~= version);
    assert(pieces_from(line, w, 6, 6) =~= seq![version]);
    assert(pieces_from(line, w, 4, 5) =~= seq![seq![47u8], version]);
    assert(pieces_from(line, w, 4, 4) =~= seq![seq![47u8], version]);
    assert(pieces(line, w) =~= seq![seq![71u8, 69, 84], seq![47u8], version]);
    let slash = seq![47u8];
    assert(pieces_from(slash, Separator::Slash, 1, 1) =~= Seq::<Seq<u8>>::empty());
    assert(pieces(slash, Separator::Slash) =~= Seq::<Seq<u8>>::empty());
    let q = parse(root_request(version, headers)).unwrap();
    assert(q.target =~= root_path());
    assert(q.version == version);
}

/// The `Connection` value `close`.
pub open spec fn close_value() -> Seq<u8> {
    seq![99u8, 108, 111, 115, 101]
}

/// Bytes that begin with `head` and the `Connection: close` header hold
/// `Connection: close`.
proof fn lemma_close_after(head: Seq<u8>, rest: Seq<u8>)
    ensures
        closes(head + connection_line(Some(close_value())) + rest),
{
    let s = head + connection_line(Some(close_value())) + rest;
    let i = head.len() + 2int;
    assert(connection_field() + close_value() =~= connection_close());
    assert(s.subrange(i, i + connection_close().len()) =~= connection_close());
    assert(occurs_at(s, connection_close(), i));
}

/// A success response to a request whose `Connection` header is `close`,
/// or the server error that a failed compression gives in its place, holds
/// `Connection: close`: the connection is released after it.
pub proof fn close_is_echoed(q: RequestView, body: Seq<u8>)
    requires
        q.connection == Some(close_value()),
    ensures
        closes(response_200_spec(q, body)),
{
    let c = connection_line(q.connection);
    let r = response_200_spec(q, body);
    let ok_head = q.version + status_200();
    let err_head = q.version + status_500();
    if wants_gzip(q.encoding) {
        match gzip_of(payload(q, body)) {
            Ok(z) => {
                let tail = r.subrange((ok_head + c).len() as int, r.len() as int);
                assert(r =~= ok_head + c + tail);
                lemma_close_after(ok_head, tail);
            },
            Err(e) => {
                let tail = r.subrange((err_head + c).len() as int, r.len() as int);
                assert(r =~= err_head + c + tail);
                lemma_close_after(err_head, tail);
            },
        }
    } else {
        let tail = r.subrange((ok_head + c).len() as int, r.len() as int);
        assert(r =~= ok_head + c + tail);
        lemma_close_after(ok_head, tail);
    }
}

} // verus!
