//! Fixed texts of the protocol, as bytes.
use vstd::prelude::*;

verus! {

/// `"post"`. The method name that selects POST, compared without regard to ASCII case.
pub open spec fn post_word() -> Seq<u8> {
    seq![112u8, 111, 115, 116]
}

/// `"post"` as a vector.
pub fn post_word_vec() -> (r: Vec<u8>)
    ensures
        r@ == post_word(),
{
    let r = vec![112u8, 111, 115, 116];
    assert(r@ =~= post_word());
    r
}

/// `"gzip"`. The encoding token that asks for gzip compression.
pub open spec fn gzip_word() -> Seq<u8> {
    seq![103u8, 122, 105, 112]
}

/// `"gzip"` as a vector.
pub fn gzip_word_vec() -> (r: Vec<u8>)
    ensures
        r@ == gzip_word(),
{
    let r = vec![103u8, 122, 105, 112];
    assert(r@ =~= gzip_word());
    r
}

/// `"invalid"`. The token by which a client opts out of compression.
pub open spec fn invalid_word() -> Seq<u8> {
    seq![105u8, 110, 118, 97, 108, 105, 100]
}

/// `"invalid"` as a vector.
pub fn invalid_word_vec() -> (r: Vec<u8>)
    ensures
        r@ == invalid_word(),
{
    let r = vec![105u8, 110, 118, 97, 108, 105, 100];
    assert(r@ =~= invalid_word());
    r
}

/// `"Accept-Encoding"`. Header name.
pub open spec fn accept_encoding_name() -> Seq<u8> {
    seq![65u8, 99, 99, 101, 112, 116, 45, 69, 110, 99, 111, 100, 105, 110, 103]
}

/// `"Accept-Encoding"` as a vector.
pub fn accept_encoding_name_vec() -> (r: Vec<u8>)
    ensures
        r@ == accept_encoding_name(),
{
    let r = vec![65u8, 99, 99, 101, 112, 116, 45, 69, 110, 99, 111, 100, 105, 110, 103];
    assert(r@ =~= accept_encoding_name());
    r
}

/// `"Connection"`. Header name.
pub open spec fn connection_name() -> Seq<u8> {
    seq![67u8, 111, 110, 110, 101, 99, 116, 105, 111, 110]
}

/// `"Connection"` as a vector.
pub fn connection_name_vec() -> (r: Vec<u8>)
    ensures
        r@ == connection_name(),
{
    let r = vec![67u8, 111, 110, 110, 101, 99, 116, 105, 111, 110];
    assert(r@ =~= connection_name());
    r
}

/// `"Content-Type"`. Header name.
pub open spec fn content_type_name() -> Seq<u8> {
    seq![67u8, 111, 110, 116, 101, 110, 116, 45, 84, 121, 112, 101]
}

/// `"Content-Type"` as a vector.
pub fn content_type_name_vec() -> (r: Vec<u8>)
    ensures
        r@ == content_type_name(),
{
    let r = vec![67u8, 111, 110, 116, 101, 110, 116, 45, 84, 121, 112, 101];
    assert(r@ =~= content_type_name());
    r
}

/// `"User-Agent"`. Header name.
pub open spec fn user_agent_name() -> Seq<u8> {
    seq![85u8, 115, 101, 114, 45, 65, 103, 101, 110, 116]
}

/// `"User-Agent"` as a vector.
pub fn user_agent_name_vec() -> (r: Vec<u8>)
    ensures
        r@ == user_agent_name(),
{
    let r = vec![85u8, 115, 101, 114, 45, 65, 103, 101, 110, 116];
    assert(r@ =~= user_agent_name());
    r
}

/// `"Host"`. Header name.
pub open spec fn host_name() -> Seq<u8> {
    seq![72u8, 111, 115, 116]
}

/// `"Host"` as a vector.
pub fn host_name_vec() -> (r: Vec<u8>)
    ensures
        r@ == host_name(),
{
    let r = vec![72u8, 111, 115, 116];
    assert(r@ =~= host_name());
    r
}

/// `"Connection: close"`. The header text that ends a persistent connection.
pub open spec fn connection_close() -> Seq<u8> {
    seq![67u8, 111, 110, 110, 101, 99, 116, 105, 111, 110, 58, 32, 99, 108, 111, 115, 101]
}

/// `"Connection: close"` as a vector.
pub fn connection_close_vec() -> (r: Vec<u8>)
    ensures
        r@ == connection_close(),
{
    let r = vec![67u8, 111, 110, 110, 101, 99, 116, 105, 111, 110, 58, 32, 99, 108, 111, 115, 101];
    assert(r@ =~= connection_close());
    r
}

/// `"\r\n"`. Carriage return, line feed.
pub open spec fn crlf() -> Seq<u8> {
    seq![13u8, 10]
}

/// `"\r\n"` as a vector.
pub fn crlf_vec() -> (r: Vec<u8>)
    ensures
        r@ == crlf(),
{
    let r = vec![13u8, 10];
    assert(r@ =~= crlf());
    r
}

/// `" 200 OK"`. Status text of a success response, after the version.
pub open spec fn status_200() -> Seq<u8> {
    seq![32u8, 50, 48, 48, 32, 79, 75]
}

/// `" 200 OK"` as a vector.
pub fn status_200_vec() -> (r: Vec<u8>)
    ensures
        r@ == status_200(),
{
    let r = vec![32u8, 50, 48, 48, 32, 79, 75];
    assert(r@ =~= status_200());
    r
}

/// `" 201 Created\r\n\r\n"`. Status text and end of head of a creation response, after the version.
pub open spec fn status_201() -> Seq<u8> {
    seq![32u8, 50, 48, 49, 32, 67, 114, 101, 97, 116, 101, 100, 13, 10, 13, 10]
}

/// `" 201 Created\r\n\r\n"` as a vector.
pub fn status_201_vec() -> (r: Vec<u8>)
    ensures
        r@ == status_201(),
{
    let r = vec![32u8, 50, 48, 49, 32, 67, 114, 101, 97, 116, 101, 100, 13, 10, 13, 10];
    assert(r@ =~= status_201());
    r
}

/// `" 400 Bad Request\r\n\r\n"`. Status text and end of head of a malformed-request response, after the version.
pub open spec fn status_400() -> Seq<u8> {
    seq![32u8, 52, 48, 48, 32, 66, 97, 100, 32, 82, 101, 113, 117, 101, 115, 116, 13, 10, 13, 10]
}

/// `" 400 Bad Request\r\n\r\n"` as a vector.
pub fn status_400_vec() -> (r: Vec<u8>)
    ensures
        r@ == status_400(),
{
    let r = vec![32u8, 52, 48, 48, 32, 66, 97, 100, 32, 82, 101, 113, 117, 101, 115, 116, 13, 10, 13, 10];
    assert(r@ =~= status_400());
    r
}

/// `" 404 Not Found\r\n\r\n"`. Status text and end of head of a not-found response, after the version.
pub open spec fn status_404() -> Seq<u8> {
    seq![32u8, 52, 48, 52, 32, 78, 111, 116, 32, 70, 111, 117, 110, 100, 13, 10, 13, 10]
}

/// `" 404 Not Found\r\n\r\n"` as a vector.
pub fn status_404_vec() -> (r: Vec<u8>)
    ensures
        r@ == status_404(),
{
    let r = vec![32u8, 52, 48, 52, 32, 78, 111, 116, 32, 70, 111, 117, 110, 100, 13, 10, 13, 10];
    assert(r@ =~= status_404());
    r
}

/// `" 500 Internal Server Error"`. Status text of a server-error response, after the version.
pub open spec fn status_500() -> Seq<u8> {
    seq![32u8, 53, 48, 48, 32, 73, 110, 116, 101, 114, 110, 97, 108, 32, 83, 101, 114, 118, 101, 114, 32, 69, 114, 114, 111, 114]
}

/// `" 500 Internal Server Error"` as a vector.
pub fn status_500_vec() -> (r: Vec<u8>)
    ensures
        r@ == status_500(),
{
    let r = vec![32u8, 53, 48, 48, 32, 73, 110, 116, 101, 114, 110, 97, 108, 32, 83, 101, 114, 118, 101, 114, 32, 69, 114, 114, 111, 114];
    assert(r@ =~= status_500());
    r
}

/// `"Connection: "`. Start of the `Connection` response header.
pub open spec fn connection_field() -> Seq<u8> {
    seq![67u8, 111, 110, 110, 101, 99, 116, 105, 111, 110, 58, 32]
}

/// `"Connection: "` as a vector.
pub fn connection_field_vec() -> (r: Vec<u8>)
    ensures
        r@ == connection_field(),
{
    let r = vec![67u8, 111, 110, 110, 101, 99, 116, 105, 111, 110, 58, 32];
    assert(r@ =~= connection_field());
    r
}

/// `"Content-Type: "`. Start of the `Content-Type` response header.
pub open spec fn content_type_field() -> Seq<u8> {
    seq![67u8, 111, 110, 116, 101, 110, 116, 45, 84, 121, 112, 101, 58, 32]
}

/// `"Content-Type: "` as a vector.
pub fn content_type_field_vec() -> (r: Vec<u8>)
    ensures
        r@ == content_type_field(),
{
    let r = vec![67u8, 111, 110, 116, 101, 110, 116, 45, 84, 121, 112, 101, 58, 32];
    assert(r@ =~= content_type_field());
    r
}

/// `"Content-Length: "`. Start of the `Content-Length` response header.
pub open spec fn content_length_field() -> Seq<u8> {
    seq![67u8, 111, 110, 116, 101, 110, 116, 45, 76, 101, 110, 103, 116, 104, 58, 32]
}

/// `"Content-Length: "` as a vector.
pub fn content_length_field_vec() -> (r: Vec<u8>)
    ensures
        r@ == content_length_field(),
{
    let r = vec![67u8, 111, 110, 116, 101, 110, 116, 45, 76, 101, 110, 103, 116, 104, 58, 32];
    assert(r@ =~= content_length_field());
    r
}

/// `"Content-Encoding: gzip\r\n"`. The whole `Content-Encoding` response header line.
pub open spec fn gzip_encoding_line() -> Seq<u8> {
    seq![67u8, 111, 110, 116, 101, 110, 116, 45, 69, 110, 99, 111, 100, 105, 110, 103, 58, 32, 103, 122, 105, 112, 13, 10]
}

/// `"Content-Encoding: gzip\r\n"` as a vector.
pub fn gzip_encoding_line_vec() -> (r: Vec<u8>)
    ensures
        r@ == gzip_encoding_line(),
{
    let r = vec![67u8, 111, 110, 116, 101, 110, 116, 45, 69, 110, 99, 111, 100, 105, 110, 103, 58, 32, 103, 122, 105, 112, 13, 10];
    assert(r@ =~= gzip_encoding_line());
    r
}

/// `"text/plain"`. Content type of text routes.
pub open spec fn text_plain() -> Seq<u8> {
    seq![116u8, 101, 120, 116, 47, 112, 108, 97, 105, 110]
}

/// `"text/plain"` as a vector.
pub fn text_plain_vec() -> (r: Vec<u8>)
    ensures
        r@ == text_plain(),
{
    let r = vec![116u8, 101, 120, 116, 47, 112, 108, 97, 105, 110];
    assert(r@ =~= text_plain());
    r
}

/// `"application/octet-stream"`. Content type of file contents.
pub open spec fn octet_stream() -> Seq<u8> {
    seq![97u8, 112, 112, 108, 105, 99, 97, 116, 105, 111, 110, 47, 111, 99, 116, 101, 116, 45, 115, 116, 114, 101, 97, 109]
}

/// `"application/octet-stream"` as a vector.
pub fn octet_stream_vec() -> (r: Vec<u8>)
    ensures
        r@ == octet_stream(),
{
    let r = vec![97u8, 112, 112, 108, 105, 99, 97, 116, 105, 111, 110, 47, 111, 99, 116, 101, 116, 45, 115, 116, 114, 101, 97, 109];
    assert(r@ =~= octet_stream());
    r
}

/// `"HTTP/1.1"`. Version used where the request carried none that could be read.
pub open spec fn default_version() -> Seq<u8> {
    seq![72u8, 84, 84, 80, 47, 49, 46, 49]
}

/// `"HTTP/1.1"` as a vector.
pub fn default_version_vec() -> (r: Vec<u8>)
    ensures
        r@ == default_version(),
{
    let r = vec![72u8, 84, 84, 80, 47, 49, 46, 49];
    assert(r@ =~= default_version());
    r
}

/// `"Failed to gzip body: "`. Start of the error text when compression fails.
pub open spec fn gzip_failure_prefix() -> Seq<u8> {
    seq![70u8, 97, 105, 108, 101, 100, 32, 116, 111, 32, 103, 122, 105, 112, 32, 98, 111, 100, 121, 58, 32]
}

/// `"Failed to gzip body: "` as a vector.
pub fn gzip_failure_prefix_vec() -> (r: Vec<u8>)
    ensures
        r@ == gzip_failure_prefix(),
{
    let r = vec![70u8, 97, 105, 108, 101, 100, 32, 116, 111, 32, 103, 122, 105, 112, 32, 98, 111, 100, 121, 58, 32];
    assert(r@ =~= gzip_failure_prefix());
    r
}

/// `"/"`. Route of the root probe.
pub open spec fn root_path() -> Seq<u8> {
    seq![47u8]
}

/// `"/"` as a vector.
pub fn root_path_vec() -> (r: Vec<u8>)
    ensures
        r@ == root_path(),
{
    let r = vec![47u8];
    assert(r@ =~= root_path());
    r
}

/// `"/echo"`. Route that echoes its subpath.
pub open spec fn echo_path() -> Seq<u8> {
    seq![47u8, 101, 99, 104, 111]
}

/// `"/echo"` as a vector.
pub fn echo_path_vec() -> (r: Vec<u8>)
    ensures
        r@ == echo_path(),
{
    let r = vec![47u8, 101, 99, 104, 111];
    assert(r@ =~= echo_path());
    r
}

/// `"/user-agent"`. Route that echoes the `User-Agent` header.
pub open spec fn user_agent_path() -> Seq<u8> {
    seq![47u8, 117, 115, 101, 114, 45, 97, 103, 101, 110, 116]
}

/// `"/user-agent"` as a vector.
pub fn user_agent_path_vec() -> (r: Vec<u8>)
    ensures
        r@ == user_agent_path(),
{
    let r = vec![47u8, 117, 115, 101, 114, 45, 97, 103, 101, 110, 116];
    assert(r@ =~= user_agent_path());
    r
}

/// `"/files"`. Route of the file store.
pub open spec fn files_path() -> Seq<u8> {
    seq![47u8, 102, 105, 108, 101, 115]
}

/// `"/files"` as a vector.
pub fn files_path_vec() -> (r: Vec<u8>)
    ensures
        r@ == files_path(),
{
    let r = vec![47u8, 102, 105, 108, 101, 115];
    assert(r@ =~= files_path());
    r
}

/// `"--directory"`. Command-line flag that precedes the base directory.
pub open spec fn directory_flag() -> Seq<u8> {
    seq![45u8, 45, 100, 105, 114, 101, 99, 116, 111, 114, 121]
}

/// `"--directory"` as a vector.
pub fn directory_flag_vec() -> (r: Vec<u8>)
    ensures
        r@ == directory_flag(),
{
    let r = vec![45u8, 45, 100, 105, 114, 101, 99, 116, 111, 114, 121];
    assert(r@ =~= directory_flag());
    r
}

} // verus!
