//! Header fields, their validity as HTTP sees it, and the header-name tokens.

use vstd::prelude::*;
use vstd::utf8::encode_utf8;
use vstd::utf8::encode_utf8_decode_utf8;
use axum::http::header::HeaderName;
use axum::http::header::HeaderValue;
use crate::limits::BRIDGE_HEADER_NAME_TOKEN_COUNT;
use crate::limits::BRIDGE_HEADER_NAME_LITERAL_TOKEN;
use crate::error::BridgeError;
use crate::wire::BridgeByteWriter;
use crate::wire::BridgeByteReader;
use crate::wire::spec_u16_be;
use crate::wire::spec_u16_from_be;
use crate::wire::spec_bytes_field;
use crate::wire::spec_field_range;

verus! {

/// One header: a lower-case name and a value of arbitrary bytes.
#[derive(Clone, Debug)]
pub struct HeaderField {
    pub name: String,
    pub value: Vec<u8>,
}

/// A header as contracts see it: the characters of its name and the bytes of its value.
pub type HeaderModel = (Seq<char>, Seq<u8>);

impl View for HeaderField {
    type V = HeaderModel;

    open spec fn view(&self) -> HeaderModel {
        (self.name@, self.value@)
    }
}

impl DeepView for HeaderField {
    type V = HeaderModel;

    open spec fn deep_view(&self) -> HeaderModel {
        (self.name@, self.value@)
    }
}

/// What a byte of a header name becomes once the name is normalized: itself for
/// a lower-case letter, a digit or one of the marks HTTP allows in a token, the
/// lower-case letter for an upper-case one, and 0 for a byte that no header
/// name may hold.
pub open spec fn spec_header_name_byte(b: u8) -> u8 {
    if 65 <= b <= 90 {
        (b + 32) as u8
    } else if (97 <= b <= 122) || (48 <= b <= 57) || b == 33 || (35 <= b <= 39) || b == 42 || b
        == 43 || b == 45 || b == 46 || b == 94 || b == 95 || b == 96 || b == 124 || b == 126 {
        b
    } else {
        0
    }
}

/// Whether `bytes` spell a header name: between 1 and 65535 bytes, each of
/// them allowed in a token.
pub open spec fn spec_valid_header_name(bytes: Seq<u8>) -> bool {
    &&& 1 <= bytes.len() <= 65535
    &&& forall|i: int| 0 <= i < bytes.len() ==> spec_header_name_byte(#[trigger] bytes[i]) != 0
}

/// The normalized, lower-case spelling of the header name in `bytes`.
pub open spec fn spec_normalized_header_name(bytes: Seq<u8>) -> Seq<char> {
    Seq::new(bytes.len(), |i: int| spec_header_name_byte(bytes[i]) as char)
}

/// The header name that `bytes` spell, if they spell one.
pub open spec fn spec_parse_header_name(bytes: Seq<u8>) -> Option<Seq<char>> {
    if spec_valid_header_name(bytes) {
        Some(spec_normalized_header_name(bytes))
    } else {
        None
    }
}

/// Whether `bytes` may stand as a header value: no control byte but the tab.
pub open spec fn spec_valid_header_value(bytes: Seq<u8>) -> bool {
    forall|i: int|
        0 <= i < bytes.len() ==> ((#[trigger] bytes[i] >= 32 && bytes[i] != 127) || bytes[i] == 9)
}

/// Whether `bytes` are a header value that reads as text: visible ASCII,
/// blanks and tabs only.
pub open spec fn spec_header_value_is_text(bytes: Seq<u8>) -> bool {
    forall|i: int| 0 <= i < bytes.len() ==> ((32 <= #[trigger] bytes[i] < 127) || bytes[i] == 9)
}

/// Parses a header name with `HeaderName::from_bytes` of the `http` crate and
/// hands back its spelling. The contract repeats what that function does: it
/// accepts 1 to 65535 token bytes and lower-cases the letters.
#[verifier::external_body]
pub(crate) fn parse_header_name(bytes: &[u8]) -> (name: Option<String>)
    ensures
        name is Some <==> spec_valid_header_name(bytes@),
        name matches Some(text) ==> text@ == spec_normalized_header_name(bytes@),
{
    match HeaderName::from_bytes(bytes) {
        Ok(name) => Some(name.as_str().to_string()),
        Err(_) => None,
    }
}

/// Asks `HeaderValue::from_bytes` of the `http` crate whether `bytes` make a
/// header value. It refuses every byte below 32 but the tab, and byte 127.
#[verifier::external_body]
pub(crate) fn header_value_is_valid(bytes: &[u8]) -> (valid: bool)
    ensures
        valid == spec_valid_header_value(bytes@),
{
    HeaderValue::from_bytes(bytes).is_ok()
}

/// Asks `HeaderValue::to_str` of the `http` crate whether the value `bytes`
/// reads as text. It does when every byte is visible ASCII, a blank or a tab;
/// bytes that make no header value at all are no text either.
#[verifier::external_body]
pub(crate) fn header_value_is_text(bytes: &[u8]) -> (text: bool)
    ensures
        text == spec_header_value_is_text(bytes@),
{
    match HeaderValue::from_bytes(bytes) {
        Ok(value) => value.to_str().is_ok(),
        Err(_) => false,
    }
}

/// Whether two byte strings are the same.
pub fn bytes_equal(a: &[u8], b: &[u8]) -> (same: bool)
    ensures
        same == (a@ == b@),
{
    if a.len() != b.len() {
        return false;
    }
    let mut i: usize = 0;
    while i < a.len()
        invariant
            a@.len() == b@.len(),
            i <= a@.len(),
            forall|k: int| 0 <= k < i ==> a@[k] == b@[k],
        decreases a@.len() - i,
    {
        if a[i] != b[i] {
            return false;
        }
        i += 1;
    }
    assert(a@ =~= b@);
    true
}

/// Whether two strings hold the same characters.
pub fn str_equal(a: &str, b: &str) -> (same: bool)
    ensures
        same == (a@ == b@),
{
    let same = bytes_equal(a.as_bytes(), b.as_bytes());
    proof {
        encode_utf8_decode_utf8(a@);
        encode_utf8_decode_utf8(b@);
    }
    same
}


/// The header name that `token` stands for. The table is part of the wire
/// format: a token keeps its name for as long as the protocol version stands.
pub open spec fn spec_token_name(token: u16) -> Seq<char>
    recommends
        token < BRIDGE_HEADER_NAME_TOKEN_COUNT,
{
    if token == 0 {
        "host"@
    } else if token == 1 {
        "connection"@
    } else if token == 2 {
        "user-agent"@
    } else if token == 3 {
        "accept"@
    } else if token == 4 {
        "accept-encoding"@
    } else if token == 5 {
        "accept-language"@
    } else if token == 6 {
        "content-type"@
    } else if token == 7 {
        "content-length"@
    } else if token == 8 {
        "transfer-encoding"@
    } else if token == 9 {
        "cookie"@
    } else if token == 10 {
        "set-cookie"@
    } else if token == 11 {
        "cache-control"@
    } else if token == 12 {
        "pragma"@
    } else if token == 13 {
        "upgrade"@
    } else if token == 14 {
        "authorization"@
    } else if token == 15 {
        "origin"@
    } else if token == 16 {
        "referer"@
    } else if token == 17 {
        "location"@
    } else if token == 18 {
        "server"@
    } else if token == 19 {
        "date"@
    } else if token == 20 {
        "x-forwarded-for"@
    } else if token == 21 {
        "x-forwarded-proto"@
    } else if token == 22 {
        "x-forwarded-host"@
    } else if token == 23 {
        "x-forwarded-port"@
    } else if token == 24 {
        "x-request-id"@
    } else if token == 25 {
        "sec-websocket-key"@
    } else if token == 26 {
        "sec-websocket-version"@
    } else if token == 27 {
        "sec-websocket-protocol"@
    } else {
        "sec-websocket-extensions"@
    }
}

/// The token of `name`, if the table holds the name.
pub open spec fn spec_header_name_token(name: Seq<char>) -> Option<u16> {
    if exists|token: u16|
        token < BRIDGE_HEADER_NAME_TOKEN_COUNT && #[trigger] spec_token_name(token) == name {
        Some(
            choose|token: u16|
                token < BRIDGE_HEADER_NAME_TOKEN_COUNT && #[trigger] spec_token_name(token) == name,
        )
    } else {
        None
    }
}

/// The name behind `token`, or nothing for a number outside the table.
pub open spec fn spec_header_name_from_token(token: u16) -> Option<Seq<char>> {
    if token < BRIDGE_HEADER_NAME_TOKEN_COUNT {
        Some(spec_token_name(token))
    } else {
        None
    }
}

/// A number that tells the names of the table apart: the length of the name
/// and three of its characters.
spec fn spec_name_mark(name: Seq<char>) -> (int, char, char, char) {
    (
        name.len() as int,
        if name.len() > 0 { name[0] } else { ' ' },
        if name.len() > 4 { name[4] } else { ' ' },
        if name.len() > 12 { name[12] } else { ' ' },
    )
}

/// The mark of each name of the table.
proof fn lemma_token_name_marks()
    ensures
        spec_name_mark(spec_token_name(0)) == (4int, 'h', ' ', ' '),
        spec_name_mark(spec_token_name(1)) == (10int, 'c', 'e', ' '),
        spec_name_mark(spec_token_name(2)) == (10int, 'u', '-', ' '),
        spec_name_mark(spec_token_name(3)) == (6int, 'a', 'p', ' '),
        spec_name_mark(spec_token_name(4)) == (15int, 'a', 'p', 'i'),
        spec_name_mark(spec_token_name(5)) == (15int, 'a', 'p', 'a'),
        spec_name_mark(spec_token_name(6)) == (12int, 'c', 'e', ' '),
        spec_name_mark(spec_token_name(7)) == (14int, 'c', 'e', 't'),
        spec_name_mark(spec_token_name(8)) == (17int, 't', 's', 'o'),
        spec_name_mark(spec_token_name(9)) == (6int, 'c', 'i', ' '),
        spec_name_mark(spec_token_name(10)) == (10int, 's', 'c', ' '),
        spec_name_mark(spec_token_name(11)) == (13int, 'c', 'e', 'l'),
        spec_name_mark(spec_token_name(12)) == (6int, 'p', 'm', ' '),
        spec_name_mark(spec_token_name(13)) == (7int, 'u', 'a', ' '),
        spec_name_mark(spec_token_name(14)) == (13int, 'a', 'o', 'n'),
        spec_name_mark(spec_token_name(15)) == (6int, 'o', 'i', ' '),
        spec_name_mark(spec_token_name(16)) == (7int, 'r', 'r', ' '),
        spec_name_mark(spec_token_name(17)) == (8int, 'l', 't', ' '),
        spec_name_mark(spec_token_name(18)) == (6int, 's', 'e', ' '),
        spec_name_mark(spec_token_name(19)) == (4int, 'd', ' ', ' '),
        spec_name_mark(spec_token_name(20)) == (15int, 'x', 'r', 'f'),
        spec_name_mark(spec_token_name(21)) == (17int, 'x', 'r', 'p'),
        spec_name_mark(spec_token_name(22)) == (16int, 'x', 'r', 'h'),
        spec_name_mark(spec_token_name(23)) == (16int, 'x', 'r', 'p'),
        spec_name_mark(spec_token_name(24)) == (12int, 'x', 'q', ' '),
        spec_name_mark(spec_token_name(25)) == (17int, 's', 'w', 't'),
        spec_name_mark(spec_token_name(26)) == (21int, 's', 'w', 't'),
        spec_name_mark(spec_token_name(27)) == (22int, 's', 'w', 't'),
        spec_name_mark(spec_token_name(28)) == (24int, 's', 'w', 't'),
{
    reveal_strlit("host");
    reveal_strlit("connection");
    reveal_strlit("user-agent");
    reveal_strlit("accept");
    reveal_strlit("accept-encoding");
    reveal_strlit("accept-language");
    reveal_strlit("content-type");
    reveal_strlit("content-length");
    reveal_strlit("transfer-encoding");
    reveal_strlit("cookie");
    reveal_strlit("set-cookie");
    reveal_strlit("cache-control");
    reveal_strlit("pragma");
    reveal_strlit("upgrade");
    reveal_strlit("authorization");
    reveal_strlit("origin");
    reveal_strlit("referer");
    reveal_strlit("location");
    reveal_strlit("server");
    reveal_strlit("date");
    reveal_strlit("x-forwarded-for");
    reveal_strlit("x-forwarded-proto");
    reveal_strlit("x-forwarded-host");
    reveal_strlit("x-forwarded-port");
    reveal_strlit("x-request-id");
    reveal_strlit("sec-websocket-key");
    reveal_strlit("sec-websocket-version");
    reveal_strlit("sec-websocket-protocol");
    reveal_strlit("sec-websocket-extensions");
}

/// No two tokens stand for the same name.
pub proof fn lemma_token_names_distinct(a: u16, b: u16)
    requires
        a < BRIDGE_HEADER_NAME_TOKEN_COUNT,
        b < BRIDGE_HEADER_NAME_TOKEN_COUNT,
        a != b,
    ensures
        spec_token_name(a) != spec_token_name(b),
{
    lemma_token_name_marks();
    assert(spec_name_mark(spec_token_name(a)) != spec_name_mark(spec_token_name(b)));
}

/// Maps header-name tokens to the names they stand for.
pub fn bridge_header_name_from_token_header_name(token: u16) -> (name: Option<&'static str>)
    ensures
        name is Some <==> token < BRIDGE_HEADER_NAME_TOKEN_COUNT,
        name matches Some(text) ==> text@ == spec_token_name(token),
{
    match token {
        0 => Some("host"),
        1 => Some("connection"),
        2 => Some("user-agent"),
        3 => Some("accept"),
        4 => Some("accept-encoding"),
        5 => Some("accept-language"),
        6 => Some("content-type"),
        7 => Some("content-length"),
        8 => Some("transfer-encoding"),
        9 => Some("cookie"),
        10 => Some("set-cookie"),
        11 => Some("cache-control"),
        12 => Some("pragma"),
        13 => Some("upgrade"),
        14 => Some("authorization"),
        15 => Some("origin"),
        16 => Some("referer"),
        17 => Some("location"),
        18 => Some("server"),
        19 => Some("date"),
        20 => Some("x-forwarded-for"),
        21 => Some("x-forwarded-proto"),
        22 => Some("x-forwarded-host"),
        23 => Some("x-forwarded-port"),
        24 => Some("x-request-id"),
        25 => Some("sec-websocket-key"),
        26 => Some("sec-websocket-version"),
        27 => Some("sec-websocket-protocol"),
        28 => Some("sec-websocket-extensions"),
        _ => None,
    }
}

/// Maps a lower-case header name to its token, if it has one.
pub fn bridge_header_name_token(name: &str) -> (token: Option<u16>)
    ensures
        token == spec_header_name_token(name@),
{
    let mut candidate: u16 = 0;
    while candidate < BRIDGE_HEADER_NAME_TOKEN_COUNT
        invariant
            candidate <= BRIDGE_HEADER_NAME_TOKEN_COUNT,
            forall|earlier: u16| earlier < candidate ==> #[trigger] spec_token_name(earlier) != name@,
        decreases BRIDGE_HEADER_NAME_TOKEN_COUNT - candidate,
    {
        if let Some(text) = bridge_header_name_from_token_header_name(candidate) {
            if str_equal(name, text) {
                proof {
                    let chosen = choose|token: u16|
                        token < BRIDGE_HEADER_NAME_TOKEN_COUNT && #[trigger] spec_token_name(token)
                            == name@;
                    if chosen != candidate {
                        lemma_token_names_distinct(chosen, candidate);
                    }
                }
                return Some(candidate);
            }
        }
        candidate += 1;
    }
    None
}

/// The bytes that stand for the header name `name` in a tokenized frame: its
/// token, or the literal token followed by the name as a field.
pub open spec fn spec_header_name_wire(name: Seq<char>) -> Seq<u8> {
    match spec_header_name_token(name) {
        Some(token) => spec_u16_be(token),
        None => spec_u16_be(BRIDGE_HEADER_NAME_LITERAL_TOKEN) + spec_bytes_field(encode_utf8(name)),
    }
}

/// Whether the header name `name` can be written: it has a token, or its
/// bytes fit a length-prefixed field.
pub open spec fn spec_header_name_fits(name: Seq<char>) -> bool {
    spec_header_name_token(name) is Some || encode_utf8(name).len() <= u32::MAX
}

/// Writes a header name as its token when it has one, else in literal form.
pub fn write_bridge_header_name(writer: &mut BridgeByteWriter, name: &str) -> (result: Result<
    (),
    BridgeError,
>)
    ensures
        spec_header_name_fits(name@) ==> result is Ok && final(writer)@ == old(writer)@
            + spec_header_name_wire(name@),
        !spec_header_name_fits(name@) ==> result == Err::<(), BridgeError>(
            BridgeError::FieldTooLong,
        ),
{
    if let Some(token) = bridge_header_name_token(name) {
        writer.put_u16(token);
        return Ok(());
    }
    writer.put_u16(BRIDGE_HEADER_NAME_LITERAL_TOKEN);
    let ghost with_token = writer@;
    let result = writer.put_string(name);
    proof {
        if result is Ok {
            assert(writer@ =~= old(writer)@ + spec_header_name_wire(name@));
        }
    }
    result
}

/// What stands at `pos` of `source` where a header name is due: the name (or
/// nothing, for bytes that spell no header name) and the position behind it.
/// A literal name is a field; a tokenized one is a token, followed by a field
/// when the token is the literal token.
#[verifier::opaque]
pub open spec fn spec_decode_header_name(source: Seq<u8>, pos: int, tokenized: bool) -> Result<
    (Option<Seq<char>>, int),
    BridgeError,
> {
    if !tokenized {
        spec_decode_literal_header_name(source, pos)
    } else if 0 <= pos && pos + 2 <= source.len() {
        let token = spec_u16_from_be(source[pos], source[pos + 1]);
        if token == BRIDGE_HEADER_NAME_LITERAL_TOKEN {
            spec_decode_literal_header_name(source, pos + 2)
        } else {
            match spec_header_name_from_token(token) {
                Some(name) => Ok((Some(name), pos + 2)),
                None => Err(BridgeError::InvalidHeaderNameToken(token)),
            }
        }
    } else {
        Err(BridgeError::TruncatedPayload)
    }
}

/// A header name spelled out as a field at `pos` of `source`.
pub open spec fn spec_decode_literal_header_name(source: Seq<u8>, pos: int) -> Result<
    (Option<Seq<char>>, int),
    BridgeError,
> {
    match spec_field_range(source, pos) {
        Ok((start, length)) => Ok(
            (spec_parse_header_name(source.subrange(start, start + length)), start + length),
        ),
        Err(error) => Err(error),
    }
}

/// Reads a header name in literal or tokenized form. A literal name that HTTP
/// does not accept is read over and reported as `None`.
pub fn decode_bridge_response_header_name(reader: &mut BridgeByteReader<'_>, tokenized: bool) -> (result:
    Result<Option<String>, BridgeError>)
    ensures
        final(reader).source() == old(reader).source(),
        0 <= old(reader).position() <= old(reader).source().len(),
        match result {
            Ok(name) => {
                &&& spec_decode_header_name(
                    old(reader).source(),
                    old(reader).position(),
                    tokenized,
                ) matches Ok((expected, next))
                &&& expected == spec_name_view(name)
                &&& final(reader).position() == next
            },
            Err(error) => spec_decode_header_name(
                old(reader).source(),
                old(reader).position(),
                tokenized,
            ) == Err::<(Option<Seq<char>>, int), BridgeError>(error),
        },
{
    reveal(spec_decode_header_name);
    if !tokenized {
        let name = reader.get_bytes()?;
        return Ok(parse_header_name(name));
    }
    let token = reader.get_u16()?;
    if token == BRIDGE_HEADER_NAME_LITERAL_TOKEN {
        let name = reader.get_bytes()?;
        return Ok(parse_header_name(name));
    }
    match bridge_header_name_from_token_header_name(token) {
        Some(text) => Ok(Some(String::from_str(text))),
        None => Err(BridgeError::InvalidHeaderNameToken(token)),
    }
}

/// The characters of an optional name.
pub open spec fn spec_name_view(name: Option<String>) -> Option<Seq<char>> {
    match name {
        Some(text) => Some(text@),
        None => None,
    }
}

} // verus!
