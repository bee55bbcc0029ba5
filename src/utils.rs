//! Header lookup, method recognition, connection header and the
//! command-line lookup of the base directory.
use vstd::prelude::*;

use crate::bytes::{
    append_bytes, bytes_eq, copy_range, eq_ignore_case, eq_ignore_case_exec, starts_with,
    starts_with_bytes,
};
use crate::structs::HTTPMethod;
use crate::text::{
    connection_field, connection_field_vec, crlf, crlf_vec, directory_flag, directory_flag_vec,
    post_word, post_word_vec,
};

verus! {

/// `line` is a header line for `name`: it starts with `name` followed by `:`.
pub open spec fn is_header_line(line: Seq<u8>, name: Seq<u8>) -> bool {
    starts_with(line, name.push(58))
}

/// The value of header line `line` for `name`: what follows `name:`,
/// without the one space that usually follows the colon.
pub open spec fn header_value(line: Seq<u8>, name: Seq<u8>) -> Seq<u8> {
    let rest = line.subrange(name.len() + 1int, line.len() as int);
    if rest.len() > 0 && rest[0] == 32 {
        rest.drop_first()
    } else {
        rest
    }
}

/// The value of the first line of `lines` at or after `i` that is a header
/// line for `name`.
pub open spec fn lookup_from(lines: Seq<Seq<u8>>, name: Seq<u8>, i: int) -> Option<Seq<u8>>
    decreases lines.len() - i,
{
    if i < 0 || i >= lines.len() {
        None
    } else if is_header_line(lines[i], name) {
        Some(header_value(lines[i], name))
    } else {
        lookup_from(lines, name, i + 1)
    }
}

/// The value of header `name` in `lines`, the first line that carries it winning.
pub open spec fn lookup(lines: Seq<Seq<u8>>, name: Seq<u8>) -> Option<Seq<u8>> {
    lookup_from(lines, name, 0)
}

/// The method a method token stands for.
pub open spec fn method_of(token: Seq<u8>) -> HTTPMethod {
    if eq_ignore_case(token, post_word()) {
        HTTPMethod::Post
    } else {
        HTTPMethod::Get
    }
}

/// The `Connection` response header echoing `header`, preceded by the line
/// end of the status line before it, or nothing.
pub open spec fn connection_line(header: Option<Seq<u8>>) -> Seq<u8> {
    match header {
        Some(v) => crlf() + connection_field() + v,
        None => seq![],
    }
}

/// The argument after the first `--directory` in `args` at or after `i`.
pub open spec fn directory_from(args: Seq<Seq<u8>>, i: int) -> Option<Seq<u8>>
    decreases args.len() - i,
{
    if i < 0 || i >= args.len() {
        None
    } else if args[i] == directory_flag() {
        if i + 1 < args.len() {
            Some(args[i + 1])
        } else {
            None
        }
    } else {
        directory_from(args, i + 1)
    }
}

/// The base directory named on the command line `args`.
pub open spec fn directory_of(args: Seq<Seq<u8>>) -> Option<Seq<u8>> {
    directory_from(args, 0)
}

/// The value of header `property` in `parts`, taken from the first line that
/// starts with `property:`.
pub fn get_request_property(parts: &Vec<Vec<u8>>, property: &[u8]) -> (r: Option<Vec<u8>>)
    ensures
        r.deep_view() == lookup(parts.deep_view(), property@),
{
    let mut prefix = copy_range(property, 0, property.len());
    prefix.push(58);
    assert(prefix@ =~= property@.push(58));
    let mut i: usize = 0;
    while i < parts.len()
        invariant
            i <= parts@.len(),
            prefix@ == property@.push(58),
            lookup_from(parts.deep_view(), property@, i as int) == lookup(parts.deep_view(), property@),
        decreases parts@.len() - i,
    {
        let line = &parts[i];
        assert(parts.deep_view()[i as int] == line@);
        if starts_with_bytes(line.as_slice(), prefix.as_slice()) {
            let n: usize = line.len();
            let mut from: usize = property.len() + 1;
            if from < n && line[from] == 32 {
                from = from + 1;
            }
            let value = copy_range(line.as_slice(), from, n);
            assert(value@ =~= header_value(line@, property@));
            return Some(value);
        }
        i = i + 1;
    }
    None
}

/// The method named by `method`: POST when it reads `post` in any ASCII
/// case, GET otherwise.
pub fn get_http_method(method: &[u8]) -> (r: HTTPMethod)
    ensures
        r == method_of(method@),
{
    let post = post_word_vec();
    if eq_ignore_case_exec(method, post.as_slice()) {
        HTTPMethod::Post
    } else {
        HTTPMethod::Get
    }
}

/// The base directory: the argument that follows the first `--directory`
/// of `args`, if both are there.
pub fn get_directory(args: &Vec<Vec<u8>>) -> (r: Option<Vec<u8>>)
    ensures
        r.deep_view() == directory_of(args.deep_view()),
{
    let flag = directory_flag_vec();
    let mut i: usize = 0;
    while i < args.len()
        invariant
            i <= args@.len(),
            flag@ == directory_flag(),
            directory_from(args.deep_view(), i as int) == directory_of(args.deep_view()),
        decreases args@.len() - i,
    {
        assert(args.deep_view()[i as int] == args[i as int]@);
        if bytes_eq(args[i].as_slice(), flag.as_slice()) {
            if i + 1 < args.len() {
                let next = &args[i + 1];
                assert(args.deep_view()[i + 1] == next@);
                return Some(copy_range(next.as_slice(), 0, next.len()));
            }
            return None;
        }
        i = i + 1;
    }
    None
}

/// The `Connection` response header echoing `header`, preceded by a line
/// end (`\r\nConnection: <value>`), or nothing when the request carried none.
pub fn get_connection_header(header: &Option<Vec<u8>>) -> (r: Vec<u8>)
    ensures
        r@ == connection_line(header.deep_view()),
{
    match header {
        Some(status) => {
            let mut r = crlf_vec();
            let field = connection_field_vec();
            append_bytes(&mut r, field.as_slice());
            append_bytes(&mut r, status.as_slice());
            r
        },
        None => Vec::new(),
    }
}

} // verus!
