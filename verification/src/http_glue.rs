//! The glue between HTTP and the bridge: what of a request the bridge is
//! told, and what of a bridge response the client is told.

use vstd::prelude::*;
use vstd::string::StringSliceAdditionalSpecFns;
use vstd::slice::slice_to_vec;
use axum::http::StatusCode;
use crate::header::HeaderField;
use crate::header::HeaderModel;
use crate::header::header_value_is_text;
use crate::header::spec_header_value_is_text;
use crate::header::str_equal;
use crate::limits::HTTP_STATUS_BAD_GATEWAY;
use crate::request_reader::text_from_utf8;
use vstd::utf8::decode_utf8;
use vstd::utf8::encode_utf8;
use vstd::utf8::encode_utf8_decode_utf8;
use vstd::utf8::encode_utf8_valid_utf8;
use vstd::utf8::is_ascii_chars;
use vstd::utf8::is_ascii_chars_encode_utf8;
use vstd::utf8::valid_utf8;

verus! {

/// The HTTP versions that a request may come in.
#[derive(Clone, Copy, Debug, PartialEq, Eq, Structural)]
pub enum HttpVersion {
    Http09,
    Http10,
    Http11,
    Http2,
    Http3,
    /// A version this runtime has no name for.
    Other,
}

/// The name that the bridge gives an HTTP version.
pub open spec fn spec_protocol_name(version: HttpVersion) -> Seq<char> {
    match version {
        HttpVersion::Http09 => "0.9"@,
        HttpVersion::Http10 => "1.0"@,
        HttpVersion::Http11 => "1.1"@,
        HttpVersion::Http2 => "2"@,
        HttpVersion::Http3 => "3"@,
        HttpVersion::Other => "1.1"@,
    }
}

/// Maps an HTTP version to the protocol text that goes into request frames.
/// A version without a name of its own goes as 1.1.
pub fn http_version_to_protocol(version: HttpVersion) -> (protocol: &'static str)
    ensures
        protocol@ == spec_protocol_name(version),
{
    match version {
        HttpVersion::Http09 => "0.9",
        HttpVersion::Http10 => "1.0",
        HttpVersion::Http11 => "1.1",
        HttpVersion::Http2 => "2",
        HttpVersion::Http3 => "3",
        HttpVersion::Other => "1.1",
    }
}

/// Splits a text at the first `delimiter` with `str::split_once` of std,
/// which hands back what stands before the first occurrence and what stands
/// behind it, and nothing where the delimiter does not occur.
#[verifier::external_body]
pub(crate) fn split_once_at<'a>(text: &'a str, delimiter: char) -> (parts: Option<(&'a str, &'a str)>)
    ensures
        match parts {
            Some((before, after)) => {
                &&& text@ == before@ + seq![delimiter] + after@
                &&& !before@.contains(delimiter)
            },
            None => !text@.contains(delimiter),
        },
{
    text.split_once(delimiter)
}

/// Path and query of a request target: what stands before the first question
/// mark, and what stands behind it. A target without a question mark is all
/// path.
pub open spec fn spec_is_path_and_query(target: Seq<char>, path: Seq<char>, query: Seq<char>) -> bool {
    if target.contains('?') {
        &&& target == path + seq!['?'] + query
        &&& !path.contains('?')
    } else {
        &&& path == target
        &&& query.len() == 0
    }
}

/// Splits `path?query` into path and query without copying.
pub fn split_path_and_query_ref(path_and_query: &str) -> (parts: (&str, &str))
    ensures
        spec_is_path_and_query(path_and_query@, parts.0@, parts.1@),
{
    match split_once_at(path_and_query, '?') {
        Some((path, query)) => {
            proof {
                let whole = path@ + seq!['?'] + query@;
                assert(whole[path@.len() as int] == '?');
                assert(whole.contains('?'));
            }
            (path, query)
        },
        None => {
            proof {
                reveal_strlit("");
            }
            (path_and_query, "")
        },
    }
}

/// The lower-case form of an ASCII letter, and any other byte as it is.
pub open spec fn spec_ascii_lower(b: u8) -> u8 {
    if 65 <= b <= 90 {
        (b + 32) as u8
    } else {
        b
    }
}

/// Whether `word`, which is in lower case, stands somewhere in `text` in
/// any mix of upper and lower case.
pub open spec fn spec_contains_word(text: Seq<u8>, word: Seq<u8>) -> bool {
    exists|start: int|
        0 <= start && start + word.len() <= text.len() && #[trigger] spec_word_at(text, start, word)
}

/// Whether `word` stands in `text` from `start` on, in any mix of cases.
pub open spec fn spec_word_at(text: Seq<u8>, start: int, word: Seq<u8>) -> bool {
    forall|j: int| 0 <= j < word.len() ==> spec_ascii_lower(#[trigger] text[start + j]) == word[j]
}

/// The bytes of the word `upgrade`.
pub open spec fn spec_word_upgrade() -> Seq<u8> {
    seq![117u8, 112u8, 103u8, 114u8, 97u8, 100u8, 101u8]
}

/// The bytes of the word `websocket`.
pub open spec fn spec_word_websocket() -> Seq<u8> {
    seq![119u8, 101u8, 98u8, 115u8, 111u8, 99u8, 107u8, 101u8, 116u8]
}

/// The value of the first header called `name`, if there is one.
pub open spec fn spec_first_header(headers: Seq<HeaderModel>, name: Seq<char>) -> Option<Seq<u8>>
    decreases headers.len(),
{
    if headers.len() == 0 {
        None
    } else if headers.first().0 == name {
        Some(headers.first().1)
    } else {
        spec_first_header(headers.drop_first(), name)
    }
}

/// Whether a request asks for a WebSocket upgrade: its `connection` header
/// reads as text that holds the word `upgrade`, and its `upgrade` header
/// reads as the word `websocket`, each in any mix of cases.
pub open spec fn spec_is_websocket_upgrade(headers: Seq<HeaderModel>) -> bool {
    &&& spec_first_header(headers, "connection"@) matches Some(connection)
    &&& spec_header_value_is_text(connection)
    &&& spec_contains_word(connection, spec_word_upgrade())
    &&& spec_first_header(headers, "upgrade"@) matches Some(upgrade)
    &&& spec_header_value_is_text(upgrade)
    &&& upgrade.len() == spec_word_websocket().len()
    &&& spec_word_at(upgrade, 0, spec_word_websocket())
}

/// Turns an ASCII letter into lower case.
fn ascii_lower(b: u8) -> (lower: u8)
    ensures
        lower == spec_ascii_lower(b),
{
    if 65 <= b && b <= 90 {
        b + 32
    } else {
        b
    }
}

/// Whether `word` stands in `text` from `start` on, in any mix of cases.
fn word_at(text: &[u8], start: usize, word: &[u8]) -> (found: bool)
    requires
        start + word@.len() <= text@.len(),
    ensures
        found == spec_word_at(text@, start as int, word@),
{
    let mut j: usize = 0;
    let total = text.len();
    while j < word.len()
        invariant
            j <= word@.len(),
            total == text@.len(),
            start + word@.len() <= text@.len(),
            forall|k: int| 0 <= k < j ==> spec_ascii_lower(#[trigger] text@[start + k]) == word@[k],
        decreases word@.len() - j,
    {
        if ascii_lower(text[start + j]) != word[j] {
            return false;
        }
        j += 1;
    }
    true
}

/// Whether `word` stands somewhere in `text`, in any mix of cases.
fn contains_word(text: &[u8], word: &[u8]) -> (found: bool)
    ensures
        found == spec_contains_word(text@, word@),
{
    if word.len() > text.len() {
        return false;
    }
    let last = text.len() - word.len();
    let mut start: usize = 0;
    loop
        invariant
            last == text@.len() - word@.len(),
            start <= last,
            forall|earlier: int| 0 <= earlier < start ==> !#[trigger] spec_word_at(
                text@,
                earlier,
                word@,
            ),
        decreases last - start,
    {
        if word_at(text, start, word) {
            return true;
        }
        if start == last {
            return false;
        }
        start += 1;
    }
}

/// Looks up the value of the first header called `name`.
pub fn first_header<'a>(headers: &'a [HeaderField], name: &str) -> (value: Option<&'a Vec<u8>>)
    ensures
        match value {
            Some(bytes) => spec_first_header(headers.deep_view(), name@) == Some(bytes@),
            None => spec_first_header(headers.deep_view(), name@) is None,
        },
{
    let ghost all = headers.deep_view();
    let mut index: usize = 0;
    assert(all.skip(0) =~= all);
    while index < headers.len()
        invariant
            index <= headers@.len(),
            all == headers.deep_view(),
            spec_first_header(all, name@) == spec_first_header(all.skip(index as int), name@),
        decreases headers@.len() - index,
    {
        let header = &headers[index];
        proof {
            let rest = all.skip(index as int);
            assert(rest.first() == (header.name@, header.value@));
            assert(rest.drop_first() =~= all.skip(index + 1));
        }
        if str_equal(header.name.as_str(), name) {
            return Some(&header.value);
        }
        index += 1;
    }
    None
}

/// The word `upgrade` as bytes.
fn word_upgrade() -> (word: Vec<u8>)
    ensures
        word@ == spec_word_upgrade(),
{
    let mut word: Vec<u8> = Vec::new();
    word.push(117);
    word.push(112);
    word.push(103);
    word.push(114);
    word.push(97);
    word.push(100);
    word.push(101);
    assert(word@ =~= spec_word_upgrade());
    word
}

/// The word `websocket` as bytes.
fn word_websocket() -> (word: Vec<u8>)
    ensures
        word@ == spec_word_websocket(),
{
    let mut word: Vec<u8> = Vec::new();
    word.push(119);
    word.push(101);
    word.push(98);
    word.push(115);
    word.push(111);
    word.push(99);
    word.push(107);
    word.push(101);
    word.push(116);
    assert(word@ =~= spec_word_websocket());
    word
}

/// Returns true when the request headers ask for a WebSocket upgrade.
pub fn is_websocket_upgrade(headers: &[HeaderField]) -> (upgrade: bool)
    ensures
        upgrade == spec_is_websocket_upgrade(headers.deep_view()),
{
    let has_upgrade = match first_header(headers, "connection") {
        Some(value) => header_value_is_text(value.as_slice()) && contains_word(
            value.as_slice(),
            word_upgrade().as_slice(),
        ),
        None => false,
    };
    let websocket = word_websocket();
    let websocket_upgrade = match first_header(headers, "upgrade") {
        Some(value) => header_value_is_text(value.as_slice()) && value.len() == websocket.len()
            && word_at(value.as_slice(), 0, websocket.as_slice()),
        None => false,
    };
    has_upgrade && websocket_upgrade
}

/// The characters that ASCII bytes stand for, one for each byte.
pub open spec fn spec_ascii_text(bytes: Seq<u8>) -> Seq<char> {
    Seq::new(bytes.len(), |i: int| bytes[i] as char)
}

/// Bytes that read as text are well-formed UTF-8 for one character each.
pub proof fn lemma_text_value_decodes(bytes: Seq<u8>)
    requires
        spec_header_value_is_text(bytes),
    ensures
        valid_utf8(bytes),
        decode_utf8(bytes) == spec_ascii_text(bytes),
{
    let chars = spec_ascii_text(bytes);
    assert(is_ascii_chars(chars)) by {
        assert forall|i: int| 0 <= i < chars.len() implies '\0' <= #[trigger] chars[i]
            <= '\u{7f}' by {
            assert(bytes[i] < 127);
        }
    }
    is_ascii_chars_encode_utf8(chars);
    assert(encode_utf8(chars) =~= bytes) by {
        assert forall|i: int| 0 <= i < bytes.len() implies encode_utf8(chars)[i] == bytes[i] by {
            assert(chars[i] as u8 == encode_utf8(chars)[i]);
            assert(bytes[i] < 127);
            assert((bytes[i] as char) as u8 == bytes[i]);
        }
    }
    encode_utf8_valid_utf8(chars);
    encode_utf8_decode_utf8(chars);
}

/// The authority that the bridge is told: the first `host` header if it
/// reads as text, and else the empty text.
pub open spec fn spec_request_authority(headers: Seq<HeaderModel>) -> Seq<char> {
    match spec_first_header(headers, "host"@) {
        Some(value) => if spec_header_value_is_text(value) {
            spec_ascii_text(value)
        } else {
            Seq::empty()
        },
        None => Seq::empty(),
    }
}

/// Reads the authority of a request off its headers.
pub fn request_authority(headers: &[HeaderField]) -> (authority: String)
    ensures
        authority@ == spec_request_authority(headers.deep_view()),
{
    match first_header(headers, "host") {
        Some(value) => {
            if header_value_is_text(value.as_slice()) {
                proof {
                    lemma_text_value_decodes(value@);
                }
                match text_from_utf8(value.as_slice()) {
                    Some(text) => text,
                    None => String::from_str(""),
                }
            } else {
                proof {
                    reveal_strlit("");
                }
                assert(""@ =~= Seq::<char>::empty());
                String::from_str("")
            }
        },
        None => {
            proof {
                reveal_strlit("");
            }
            assert(""@ =~= Seq::<char>::empty());
            String::from_str("")
        },
    }
}

/// The scheme that the bridge is told: that of the request target, and
/// `http` for a target without one.
pub fn request_scheme<'a>(target_scheme: Option<&'a str>) -> (scheme: &'a str)
    ensures
        scheme@ == match target_scheme {
            Some(given) => given@,
            None => "http"@,
        },
{
    match target_scheme {
        Some(given) => given,
        None => "http",
    }
}

/// Whether a body is known to be empty before it is read: its exact size
/// is known and is zero.
pub fn body_known_empty(exact_size: Option<u64>) -> (empty: bool)
    ensures
        empty == (exact_size == Some(0u64)),
{
    match exact_size {
        Some(size) => size == 0,
        None => false,
    }
}

/// Asks `StatusCode::from_u16` of the `http` crate whether a number is an
/// HTTP status. It accepts the numbers from 100 to 999.
#[verifier::external_body]
pub(crate) fn is_http_status(status: u16) -> (valid: bool)
    ensures
        valid == (100 <= status <= 999),
{
    StatusCode::from_u16(status).is_ok()
}

/// The status that the client is told for a status from the bridge: the
/// status itself if it is an HTTP status, and else 502.
pub open spec fn spec_client_status(status: u16) -> u16 {
    if 100 <= status <= 999 {
        status
    } else {
        HTTP_STATUS_BAD_GATEWAY
    }
}

/// Maps the status of a bridge response to the status sent to the client.
pub fn client_status(status: u16) -> (sent: u16)
    ensures
        sent == spec_client_status(status),
{
    if is_http_status(status) {
        status
    } else {
        HTTP_STATUS_BAD_GATEWAY
    }
}

/// A response as the client gets it: a status, headers in the order in
/// which they are sent, and a body.
#[derive(Clone, Debug)]
pub struct HttpReply {
    pub status: u16,
    pub headers: Vec<HeaderField>,
    pub body: Vec<u8>,
}

/// Creates the plain-text response that reports a failure.
pub fn text_response(status: u16, message: &str) -> (reply: HttpReply)
    ensures
        reply.status == status,
        reply.headers@.len() == 0,
        reply.body@ == message.spec_bytes(),
{
    HttpReply { status, headers: Vec::new(), body: message.as_bytes_vec() }
}

/// Puts a bridge response together for the client: the status that the
/// client is told, every header in the order of the bridge, duplicates
/// included, and the body.
pub fn assemble_reply(status: u16, headers: Vec<HeaderField>, body: Vec<u8>) -> (reply: HttpReply)
    ensures
        reply.status == spec_client_status(status),
        reply.headers == headers,
        reply.body == body,
{
    HttpReply { status: client_status(status), headers, body }
}

/// The benchmark mode that serves requests through the bridge.
pub const BENCHMARK_MODE_NONE: u8 = 0;

/// The benchmark mode that answers every request with a fixed body.
pub const BENCHMARK_MODE_STATIC_OK: u8 = 1;

/// The benchmark mode that answers like the first, in the shape of the
/// direct path.
pub const BENCHMARK_MODE_STATIC_OK_DIRECT_SHAPE: u8 = 2;

/// Where a request goes.
#[derive(Clone, Copy, Debug, PartialEq, Eq, Structural)]
pub enum RequestRoute {
    /// It is answered on the spot with the fixed benchmark body.
    Benchmark,
    /// It goes to the runtime through the direct callback.
    Direct,
    /// It goes to the runtime over a pooled connection.
    Socket,
}

/// Where a request goes: nowhere in a benchmark mode, through the callback
/// if one is configured, and else over the socket bridge.
pub open spec fn spec_request_route(benchmark_mode: u8, direct_configured: bool) -> RequestRoute {
    if benchmark_mode == BENCHMARK_MODE_STATIC_OK || benchmark_mode
        == BENCHMARK_MODE_STATIC_OK_DIRECT_SHAPE {
        RequestRoute::Benchmark
    } else if direct_configured {
        RequestRoute::Direct
    } else {
        RequestRoute::Socket
    }
}

/// Chooses where a request goes.
pub fn request_route(benchmark_mode: u8, direct_configured: bool) -> (route: RequestRoute)
    ensures
        route == spec_request_route(benchmark_mode, direct_configured),
{
    if benchmark_mode == BENCHMARK_MODE_STATIC_OK || benchmark_mode
        == BENCHMARK_MODE_STATIC_OK_DIRECT_SHAPE {
        RequestRoute::Benchmark
    } else if direct_configured {
        RequestRoute::Direct
    } else {
        RequestRoute::Socket
    }
}

/// The body that the benchmark modes answer with.
pub open spec fn spec_benchmark_body() -> Seq<u8> {
    "{\"ok\":true,\"label\":\"server_native_direct\"}".spec_bytes()
}

/// An answer of a benchmark mode: status 200, the content type
/// `application/json`, and the body given.
pub fn benchmark_static_response(body: &[u8]) -> (reply: HttpReply)
    ensures
        reply.status == 200,
        reply.headers@.len() == 1,
        reply.headers@[0].name@ == "content-type"@,
        reply.headers@[0].value@ == "application/json".spec_bytes(),
        reply.body@ == body@,
{
    let mut headers: Vec<HeaderField> = Vec::new();
    headers.push(
        HeaderField {
            name: String::from_str("content-type"),
            value: "application/json".as_bytes_vec(),
        },
    );
    HttpReply { status: 200, headers, body: slice_to_vec(body) }
}

/// The fixed answer of the benchmark modes.
pub fn benchmark_static_ok_response() -> (reply: HttpReply)
    ensures
        reply.status == 200,
        reply.headers@.len() == 1,
        reply.headers@[0].name@ == "content-type"@,
        reply.headers@[0].value@ == "application/json".spec_bytes(),
        reply.body@ == spec_benchmark_body(),
{
    let body = "{\"ok\":true,\"label\":\"server_native_direct\"}".as_bytes_vec();
    benchmark_static_response(body.as_slice())
}

} // verus!
