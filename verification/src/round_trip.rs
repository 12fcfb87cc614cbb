//! What encoders and decoders owe each other: a frame that was written reads
//! back as what was written, and a frame with a byte too many is refused.

use vstd::prelude::*;
use vstd::utf8::encode_utf8;
use vstd::utf8::encode_utf8_decode_utf8;
use vstd::utf8::encode_utf8_valid_utf8;
use vstd::utf8::is_ascii_chars;
use vstd::utf8::is_ascii_chars_encode_utf8;
use crate::error::BridgeError;
use crate::error::ExpectedFrame;
use crate::header::HeaderModel;
use crate::header::lemma_token_names_distinct;
use crate::header::spec_decode_header_name;
use crate::header::spec_header_name_byte;
use crate::header::spec_header_name_token;
use crate::header::spec_header_name_wire;
use crate::header::spec_header_value_is_text;
use crate::header::spec_normalized_header_name;
use crate::header::spec_parse_header_name;
use crate::header::spec_token_name;
use crate::header::spec_valid_header_name;
use crate::header::spec_valid_header_value;
use crate::limits::BRIDGE_HEADER_NAME_LITERAL_TOKEN;
use crate::limits::BRIDGE_HEADER_NAME_TOKEN_COUNT;
use crate::limits::BRIDGE_PROTOCOL_VERSION;
use crate::request::BridgeRequestModel;
use crate::request::spec_bare_payload;
use crate::request::spec_chunk_payload;
use crate::request::spec_encode_headers;
use crate::request::spec_encode_request;
use crate::request::spec_encode_request_front;
use crate::request::spec_encode_request_start;
use crate::request::spec_header_fits;
use crate::request::spec_header_name_wire_as;
use crate::request::spec_header_wire;
use crate::request::spec_headers_wire;
use crate::request::spec_request_head;
use crate::request::spec_request_head_fits;
use crate::request::spec_request_start_type;
use crate::request::spec_request_type;
use crate::request::spec_text_field;
use crate::request::spec_text_fits;
use crate::request::spec_text_headers;
use crate::request_reader::spec_decode_count;
use crate::request_reader::spec_decode_request;
use crate::request_reader::spec_decode_request_front;
use crate::request_reader::spec_decode_request_start;
use crate::request_reader::spec_decode_text;
use crate::response::spec_decode_bare;
use crate::response::spec_decode_chunk;
use crate::response::spec_decode_frame_type;
use crate::response::spec_decode_headers;
use crate::response::spec_decode_last_field;
use crate::response::spec_decode_response;
use crate::response::spec_decode_response_start;
use crate::response::spec_decode_status_and_headers;
use crate::response::spec_frame_type_matches;
use crate::response::spec_keep_header;
use crate::wire::lemma_u16_be_round_trip;
use crate::wire::lemma_u32_be_round_trip;
use crate::wire::spec_bytes_field;
use crate::wire::spec_field_range;
use crate::wire::spec_u16_be;
use crate::wire::spec_u16_from_be;
use crate::wire::spec_u32_be;
use crate::wire::spec_u32_from_be;

verus! {

/// Whether `piece` stands in `source` from `pos` on.
pub open spec fn spec_has_at(source: Seq<u8>, pos: int, piece: Seq<u8>) -> bool {
    &&& 0 <= pos
    &&& pos + piece.len() <= source.len()
    &&& source.subrange(pos, pos + piece.len()) == piece
}

/// Where two pieces stand one behind the other, each stands at its place.
pub proof fn lemma_has_at_split(source: Seq<u8>, pos: int, left: Seq<u8>, right: Seq<u8>)
    requires
        spec_has_at(source, pos, left + right),
    ensures
        spec_has_at(source, pos, left),
        spec_has_at(source, pos + left.len(), right),
{
    let both = left + right;
    assert(source.subrange(pos, pos + left.len()) =~= both.subrange(0, left.len() as int));
    assert(both.subrange(0, left.len() as int) =~= left);
    assert(source.subrange(pos + left.len(), pos + left.len() + right.len()) =~= both.subrange(
        left.len() as int,
        both.len() as int,
    ));
    assert(both.subrange(left.len() as int, both.len() as int) =~= right);
}

/// A sequence stands at its own start.
pub proof fn lemma_has_at_whole(source: Seq<u8>)
    ensures
        spec_has_at(source, 0, source),
{
    assert(source.subrange(0, source.len() as int) =~= source);
}

/// A 16-bit number that stands at `pos` is what a read at `pos` gives.
pub proof fn lemma_u16_at(source: Seq<u8>, pos: int, value: u16)
    requires
        spec_has_at(source, pos, spec_u16_be(value)),
    ensures
        pos + 2 <= source.len(),
        spec_u16_from_be(source[pos], source[pos + 1]) == value,
{
    lemma_u16_be_round_trip(value);
    let piece = source.subrange(pos, pos + 2);
    assert(piece[0] == source[pos]);
    assert(piece[1] == source[pos + 1]);
}

/// A 32-bit number that stands at `pos` is what a read at `pos` gives.
pub proof fn lemma_u32_at(source: Seq<u8>, pos: int, value: u32)
    requires
        spec_has_at(source, pos, spec_u32_be(value)),
    ensures
        pos + 4 <= source.len(),
        spec_u32_from_be(source[pos], source[pos + 1], source[pos + 2], source[pos + 3]) == value,
{
    lemma_u32_be_round_trip(value);
    let piece = source.subrange(pos, pos + 4);
    assert(piece[0] == source[pos]);
    assert(piece[1] == source[pos + 1]);
    assert(piece[2] == source[pos + 2]);
    assert(piece[3] == source[pos + 3]);
}

/// A field that stands at `pos` is found there with the bytes it was made of.
pub proof fn lemma_field_at(source: Seq<u8>, pos: int, bytes: Seq<u8>)
    requires
        spec_has_at(source, pos, spec_bytes_field(bytes)),
        bytes.len() <= u32::MAX,
    ensures
        spec_field_range(source, pos) == Ok::<(int, int), BridgeError>((pos + 4, bytes.len() as int)),
        source.subrange(pos + 4, pos + 4 + bytes.len()) == bytes,
{
    lemma_has_at_split(source, pos, spec_u32_be(bytes.len() as u32), bytes);
    lemma_u32_at(source, pos, bytes.len() as u32);
}

/// A text that stands at `pos` as a field reads back as the same text.
pub proof fn lemma_text_at(source: Seq<u8>, pos: int, text: Seq<char>)
    requires
        spec_has_at(source, pos, spec_text_field(text)),
        spec_text_fits(text),
    ensures
        spec_decode_text(source, pos) == Ok::<(Seq<char>, int), BridgeError>(
            (text, pos + spec_text_field(text).len()),
        ),
{
    lemma_field_at(source, pos, encode_utf8(text));
    encode_utf8_valid_utf8(text);
    encode_utf8_decode_utf8(text);
}

/// Each token is the token of the name it stands for.
pub proof fn lemma_token_of_token_name(token: u16)
    requires
        token < BRIDGE_HEADER_NAME_TOKEN_COUNT,
    ensures
        spec_header_name_token(spec_token_name(token)) == Some(token),
{
    let name = spec_token_name(token);
    let chosen = choose|other: u16|
        other < BRIDGE_HEADER_NAME_TOKEN_COUNT && #[trigger] spec_token_name(other) == name;
    if chosen != token {
        lemma_token_names_distinct(chosen, token);
    }
}

/// A name that has a token is the name that token stands for.
pub proof fn lemma_token_name_of_token(name: Seq<char>)
    requires
        spec_header_name_token(name) is Some,
    ensures
        spec_header_name_token(name)->Some_0 < BRIDGE_HEADER_NAME_TOKEN_COUNT,
        spec_token_name(spec_header_name_token(name)->Some_0) == name,
{
}

/// Whether `name` is a header name in the spelling HTTP normalizes to: 1 to
/// 65535 characters, each a lower-case letter, a digit or a mark that a token
/// may hold.
pub open spec fn spec_lower_header_name(name: Seq<char>) -> bool {
    &&& 1 <= name.len() <= 65535
    &&& forall|i: int|
        0 <= i < name.len() ==> {
            &&& '\0' < #[trigger] name[i] <= '\u{7f}'
            &&& spec_header_name_byte(name[i] as u8) == name[i] as u8
        }
}

/// The bytes of a header name in normalized spelling parse as that name.
pub proof fn lemma_parse_lower_header_name(name: Seq<char>)
    requires
        spec_lower_header_name(name),
    ensures
        spec_parse_header_name(encode_utf8(name)) == Some(name),
        encode_utf8(name).len() == name.len(),
{
    assert(is_ascii_chars(name));
    is_ascii_chars_encode_utf8(name);
    let bytes = encode_utf8(name);
    assert forall|i: int| 0 <= i < bytes.len() implies spec_header_name_byte(#[trigger] bytes[i])
        != 0 by {
        assert(bytes[i] == name[i] as u8);
    }
    assert(spec_valid_header_name(bytes));
    assert(spec_normalized_header_name(bytes) =~= name) by {
        assert forall|i: int| 0 <= i < bytes.len() implies spec_normalized_header_name(bytes)[i]
            == name[i] by {
            assert(bytes[i] == name[i] as u8);
            assert(spec_header_name_byte(bytes[i]) as char == name[i]);
        }
    }
}

/// A header name on the wire reads back as the name that was written: by its
/// token when it has one, and else in literal form behind the literal token.
pub proof fn lemma_header_name_at(source: Seq<u8>, pos: int, name: Seq<char>, tokenized: bool)
    requires
        spec_has_at(source, pos, spec_header_name_wire_as(name, tokenized)),
        (tokenized && spec_header_name_token(name) is Some) || (spec_lower_header_name(name)
            && spec_text_fits(name)),
    ensures
        spec_decode_header_name(source, pos, tokenized) == Ok::<
            (Option<Seq<char>>, int),
            BridgeError,
        >((Some(name), pos + spec_header_name_wire_as(name, tokenized).len())),
{
    reveal(spec_decode_header_name);
    if !tokenized {
        lemma_field_at(source, pos, encode_utf8(name));
        lemma_parse_lower_header_name(name);
    } else {
        match spec_header_name_token(name) {
            Some(token) => {
                lemma_token_name_of_token(name);
                lemma_u16_at(source, pos, token);
            },
            None => {
                let literal = spec_u16_be(BRIDGE_HEADER_NAME_LITERAL_TOKEN);
                lemma_has_at_split(source, pos, literal, spec_text_field(name));
                lemma_u16_at(source, pos, BRIDGE_HEADER_NAME_LITERAL_TOKEN);
                lemma_field_at(source, pos + 2, encode_utf8(name));
                lemma_parse_lower_header_name(name);
            },
        }
    }
}

/// Whether a header is one that the encoder writes and the decoder keeps as
/// it is: a normalized name that fits, and a text value that fits.
#[verifier::opaque]
pub open spec fn spec_plain_header(header: HeaderModel, tokenized: bool) -> bool {
    &&& spec_lower_header_name(header.0)
    &&& spec_header_value_is_text(header.1)
    &&& spec_header_fits(header, tokenized)
}

/// A value that reads as text is a value HTTP accepts.
pub proof fn lemma_text_value_is_valid(value: Seq<u8>)
    requires
        spec_header_value_is_text(value),
    ensures
        spec_valid_header_value(value),
{
}

/// One header on the wire reads back as the name and the value written.
pub proof fn lemma_header_at(source: Seq<u8>, pos: int, header: HeaderModel, tokenized: bool)
    requires
        spec_has_at(source, pos, spec_header_wire(header, tokenized)),
        spec_plain_header(header, tokenized),
    ensures
        spec_decode_header_name(source, pos, tokenized) == Ok::<
            (Option<Seq<char>>, int),
            BridgeError,
        >((Some(header.0), pos + spec_header_name_wire_as(header.0, tokenized).len())),
        spec_field_range(source, pos + spec_header_name_wire_as(header.0, tokenized).len()) == Ok::<
            (int, int),
            BridgeError,
        >(
            (
                pos + spec_header_name_wire_as(header.0, tokenized).len() + 4,
                header.1.len() as int,
            ),
        ),
        source.subrange(
            pos + spec_header_name_wire_as(header.0, tokenized).len() + 4,
            pos + spec_header_name_wire_as(header.0, tokenized).len() + 4 + header.1.len(),
        ) == header.1,
        spec_header_wire(header, tokenized).len() == spec_header_name_wire_as(
            header.0,
            tokenized,
        ).len() + 4 + header.1.len(),
        spec_keep_header(Some(header.0), header.1) == seq![header],
{
    reveal(spec_plain_header);
    let name_wire = spec_header_name_wire_as(header.0, tokenized);
    let value_wire = spec_bytes_field(header.1);
    lemma_has_at_split(source, pos, name_wire, value_wire);
    lemma_header_name_at(source, pos, header.0, tokenized);
    lemma_field_at(source, pos + name_wire.len(), header.1);
    lemma_text_value_is_valid(header.1);
}

/// Headers on the wire read back as the headers that were written, in the
/// order in which they were written.
pub proof fn lemma_headers_at(source: Seq<u8>, pos: int, headers: Seq<HeaderModel>, tokenized: bool)
    requires
        spec_has_at(source, pos, spec_headers_wire(headers, tokenized)),
        forall|i: int| 0 <= i < headers.len() ==> spec_plain_header(#[trigger] headers[i], tokenized),
    ensures
        spec_decode_headers(source, pos, headers.len(), tokenized) == Ok::<
            (Seq<HeaderModel>, int),
            BridgeError,
        >((headers, pos + spec_headers_wire(headers, tokenized).len())),
    decreases headers.len(),
{
    if headers.len() == 0 {
        assert(headers =~= Seq::<HeaderModel>::empty());
        assert(spec_headers_wire(headers, tokenized).len() == 0);
    } else {
        let first = headers.first();
        let rest = headers.drop_first();
        let first_wire = spec_header_wire(first, tokenized);
        let rest_wire = spec_headers_wire(rest, tokenized);
        assert(spec_plain_header(headers[0], tokenized));
        assert(spec_headers_wire(headers, tokenized) == first_wire + rest_wire);
        lemma_has_at_split(source, pos, first_wire, rest_wire);
        lemma_header_at(source, pos, first, tokenized);
        assert forall|i: int| 0 <= i < rest.len() implies spec_plain_header(
            #[trigger] rest[i],
            tokenized,
        ) by {
            assert(rest[i] == headers[i + 1]);
        }
        lemma_headers_at(source, pos + first_wire.len(), rest, tokenized);
        assert(seq![first] + rest =~= headers);
        let name_end = pos + spec_header_name_wire_as(first.0, tokenized).len();
        let value_end = name_end + 4 + first.1.len();
        assert(value_end == pos + first_wire.len());
        assert(spec_decode_headers(source, value_end, rest.len(), tokenized) == Ok::<
            (Seq<HeaderModel>, int),
            BridgeError,
        >((rest, value_end + rest_wire.len())));
        assert((headers.len() - 1) as nat == rest.len());
        assert(source.subrange(name_end + 4, name_end + 4 + first.1.len()) == first.1);
        assert(spec_decode_headers(source, pos, headers.len(), tokenized) == Ok::<
            (Seq<HeaderModel>, int),
            BridgeError,
        >((spec_keep_header(Some(first.0), first.1) + rest, value_end + rest_wire.len())));
    }
}

/// Every name of the token table is written as its token alone, and reads
/// back as the same name.
pub proof fn lemma_token_table_round_trip(token: u16, source: Seq<u8>, pos: int)
    requires
        token < BRIDGE_HEADER_NAME_TOKEN_COUNT,
        spec_has_at(source, pos, spec_header_name_wire(spec_token_name(token))),
    ensures
        spec_header_name_wire(spec_token_name(token)) == spec_u16_be(token),
        spec_decode_header_name(source, pos, true) == Ok::<(Option<Seq<char>>, int), BridgeError>(
            (Some(spec_token_name(token)), pos + 2),
        ),
{
    lemma_token_of_token_name(token);
    lemma_header_name_at(source, pos, spec_token_name(token), true);
}

/// A header name in normalized spelling that the token table does not hold is
/// written behind the literal token, and reads back as the same name.
pub proof fn lemma_unlisted_name_round_trip(name: Seq<char>, source: Seq<u8>, pos: int)
    requires
        spec_header_name_token(name) is None,
        spec_lower_header_name(name),
        spec_has_at(source, pos, spec_header_name_wire(name)),
    ensures
        spec_header_name_wire(name) == spec_u16_be(BRIDGE_HEADER_NAME_LITERAL_TOKEN)
            + spec_text_field(name),
        spec_decode_header_name(source, pos, true) == Ok::<(Option<Seq<char>>, int), BridgeError>(
            (Some(name), pos + 6 + name.len()),
        ),
{
    lemma_parse_lower_header_name(name);
    lemma_header_name_at(source, pos, name, true);
}

/// The headers that an encoder writes out of `headers`, when it can write
/// them all, are plain.
pub proof fn lemma_written_headers_are_plain(headers: Seq<HeaderModel>, tokenized: bool)
    requires
        spec_encode_headers(headers, tokenized) is Ok,
        forall|i: int| 0 <= i < headers.len() ==> spec_lower_header_name(#[trigger] headers[i].0),
    ensures
        spec_text_headers(headers).len() <= u32::MAX,
        spec_encode_headers(headers, tokenized) == Ok::<Seq<u8>, BridgeError>(
            spec_u32_be(spec_text_headers(headers).len() as u32) + spec_headers_wire(
                spec_text_headers(headers),
                tokenized,
            ),
        ),
        forall|j: int|
            0 <= j < spec_text_headers(headers).len() ==> spec_plain_header(
                #[trigger] spec_text_headers(headers)[j],
                tokenized,
            ),
{
    reveal(spec_encode_headers);
    reveal(spec_plain_header);
    let kept = spec_text_headers(headers);
    let keep = |header: HeaderModel| spec_header_value_is_text(header.1);
    assert forall|j: int| 0 <= j < kept.len() implies spec_plain_header(
        #[trigger] kept[j],
        tokenized,
    ) by {
        headers.lemma_filter_pred(keep, j);
        assert(kept.contains(kept[j]));
        headers.lemma_filter_contains_rev(keep, kept[j]);
        let i = choose|i: int| 0 <= i < headers.len() && headers[i] == kept[j];
        assert(spec_lower_header_name(headers[i].0));
        assert(j < u32::MAX);
        assert(spec_header_fits(kept[j], tokenized));
    }
}

/// What reading the front of a request frame gives when the frame was written
/// from `request`, of whose headers `kept` were written.
proof fn lemma_request_front_at(
    payload: Seq<u8>,
    request: BridgeRequestModel,
    frame_type: u8,
    tokenized: bool,
    kept: Seq<HeaderModel>,
)
    requires
        spec_request_head_fits(request),
        kept.len() <= u32::MAX,
        forall|j: int| 0 <= j < kept.len() ==> spec_plain_header(#[trigger] kept[j], tokenized),
        spec_has_at(
            payload,
            0,
            spec_request_head(request, frame_type) + (spec_u32_be(kept.len() as u32)
                + spec_headers_wire(kept, tokenized)),
        ),
    ensures
        payload.len() >= 2,
        payload[0] == BRIDGE_PROTOCOL_VERSION,
        payload[1] == frame_type,
        spec_decode_request_front(payload, tokenized) == Ok::<(BridgeRequestModel, int), BridgeError>(
            (
                BridgeRequestModel {
                    method: request.method,
                    scheme: request.scheme,
                    authority: request.authority,
                    path: request.path,
                    query: request.query,
                    protocol: request.protocol,
                    headers: kept,
                },
                (spec_request_head(request, frame_type).len() + 4 + spec_headers_wire(
                    kept,
                    tokenized,
                ).len()) as int,
            ),
        ),
{
    reveal(spec_request_head);
    reveal(spec_decode_request_front);
    let h0 = seq![BRIDGE_PROTOCOL_VERSION, frame_type];
    let f1 = spec_text_field(request.method);
    let f2 = spec_text_field(request.scheme);
    let f3 = spec_text_field(request.authority);
    let f4 = spec_text_field(request.path);
    let f5 = spec_text_field(request.query);
    let f6 = spec_text_field(request.protocol);
    let h1 = h0 + f1;
    let h2 = h1 + f2;
    let h3 = h2 + f3;
    let h4 = h3 + f4;
    let h5 = h4 + f5;
    let h6 = h5 + f6;
    let count = spec_u32_be(kept.len() as u32);
    let wire = spec_headers_wire(kept, tokenized);
    assert(h6 == spec_request_head(request, frame_type));
    lemma_has_at_split(payload, 0, h6, count + wire);
    lemma_has_at_split(payload, 0, h5, f6);
    lemma_has_at_split(payload, 0, h4, f5);
    lemma_has_at_split(payload, 0, h3, f4);
    lemma_has_at_split(payload, 0, h2, f3);
    lemma_has_at_split(payload, 0, h1, f2);
    lemma_has_at_split(payload, 0, h0, f1);
    assert(payload.subrange(0, 2)[0] == payload[0]);
    assert(payload.subrange(0, 2)[1] == payload[1]);
    assert(h0[0] == BRIDGE_PROTOCOL_VERSION && h0[1] == frame_type);
    lemma_text_at(payload, 2, request.method);
    lemma_text_at(payload, h1.len() as int, request.scheme);
    lemma_text_at(payload, h2.len() as int, request.authority);
    lemma_text_at(payload, h3.len() as int, request.path);
    lemma_text_at(payload, h4.len() as int, request.query);
    lemma_text_at(payload, h5.len() as int, request.protocol);
    lemma_has_at_split(payload, h6.len() as int, count, wire);
    lemma_u32_at(payload, h6.len() as int, kept.len() as u32);
    lemma_headers_at(payload, (h6.len() + 4) as int, kept, tokenized);
    assert(spec_decode_count(payload, h6.len() as int) == Ok::<(u32, int), BridgeError>(
        (kept.len() as u32, (h6.len() + 4) as int),
    ));
}

/// A request written in one frame reads back as the same request with the
/// same body: every text equal, and the headers that were written in the
/// order in which the request holds them.
pub proof fn lemma_request_round_trip(request: BridgeRequestModel, body: Seq<u8>, tokenized: bool)
    requires
        spec_encode_request(request, body, tokenized) is Ok,
        forall|i: int|
            0 <= i < request.headers.len() ==> spec_lower_header_name(#[trigger] request.headers[i].0),
    ensures
        spec_decode_request(spec_encode_request(request, body, tokenized)->Ok_0) == Ok::<
            (BridgeRequestModel, Seq<u8>),
            BridgeError,
        >(
            (
                BridgeRequestModel {
                    method: request.method,
                    scheme: request.scheme,
                    authority: request.authority,
                    path: request.path,
                    query: request.query,
                    protocol: request.protocol,
                    headers: spec_text_headers(request.headers),
                },
                body,
            ),
        ),
{
    let payload = spec_encode_request(request, body, tokenized)->Ok_0;
    let frame_type = spec_request_type(tokenized);
    let kept = spec_text_headers(request.headers);
    lemma_written_headers_are_plain(request.headers, tokenized);
    let head = spec_request_head(request, frame_type);
    let block = spec_u32_be(kept.len() as u32) + spec_headers_wire(kept, tokenized);
    let front = head + block;
    let field = spec_bytes_field(body);
    assert(body.len() <= u32::MAX);
    assert(spec_encode_request_front(request, frame_type, tokenized) == Ok::<Seq<u8>, BridgeError>(
        front,
    ));
    assert(payload == front + field);
    lemma_has_at_whole(payload);
    lemma_has_at_split(payload, 0, front, field);
    lemma_request_front_at(payload, request, frame_type, tokenized, kept);
    lemma_field_at(payload, front.len() as int, body);
    assert(front.len() == head.len() + 4 + spec_headers_wire(kept, tokenized).len());
    assert(payload.len() == front.len() + 4 + body.len());
    assert(spec_decode_last_field(payload, front.len() as int) == Ok::<Seq<u8>, BridgeError>(body));
    assert(spec_frame_type_matches(ExpectedFrame::Request, frame_type));
    assert(spec_decode_frame_type(payload, ExpectedFrame::Request) == Ok::<u8, BridgeError>(
        frame_type,
    ));
    assert((frame_type == crate::limits::BRIDGE_REQUEST_FRAME_TYPE_TOKENIZED) == tokenized);
}

/// A request start frame reads back as the request it was written from.
pub proof fn lemma_request_start_round_trip(request: BridgeRequestModel, tokenized: bool)
    requires
        spec_encode_request_start(request, tokenized) is Ok,
        forall|i: int|
            0 <= i < request.headers.len() ==> spec_lower_header_name(#[trigger] request.headers[i].0),
    ensures
        spec_decode_request_start(spec_encode_request_start(request, tokenized)->Ok_0) == Ok::<
            BridgeRequestModel,
            BridgeError,
        >(
            BridgeRequestModel {
                method: request.method,
                scheme: request.scheme,
                authority: request.authority,
                path: request.path,
                query: request.query,
                protocol: request.protocol,
                headers: spec_text_headers(request.headers),
            },
        ),
{
    let payload = spec_encode_request_start(request, tokenized)->Ok_0;
    let frame_type = spec_request_start_type(tokenized);
    let kept = spec_text_headers(request.headers);
    lemma_written_headers_are_plain(request.headers, tokenized);
    lemma_has_at_whole(payload);
    lemma_request_front_at(payload, request, frame_type, tokenized, kept);
    assert(spec_frame_type_matches(ExpectedFrame::RequestStart, frame_type));
}

/// A chunk frame reads back as the bytes it was written from.
pub proof fn lemma_chunk_round_trip(expected: ExpectedFrame, frame_type: u8, chunk: Seq<u8>)
    requires
        spec_frame_type_matches(expected, frame_type),
        chunk.len() <= u32::MAX,
    ensures
        spec_decode_chunk(spec_chunk_payload(frame_type, chunk), expected) == Ok::<
            Seq<u8>,
            BridgeError,
        >(chunk),
{
    let payload = spec_chunk_payload(frame_type, chunk);
    let head = seq![BRIDGE_PROTOCOL_VERSION, frame_type];
    lemma_has_at_whole(payload);
    lemma_has_at_split(payload, 0, head, spec_bytes_field(chunk));
    lemma_field_at(payload, 2, chunk);
    assert(payload[0] == BRIDGE_PROTOCOL_VERSION);
    assert(payload[1] == frame_type);
}

/// A frame that carries nothing is accepted as the frame it was written as.
pub proof fn lemma_bare_round_trip(expected: ExpectedFrame, frame_type: u8)
    requires
        spec_frame_type_matches(expected, frame_type),
    ensures
        spec_decode_bare(spec_bare_payload(frame_type), expected) == Ok::<(), BridgeError>(()),
{
    let payload = spec_bare_payload(frame_type);
    assert(payload[0] == BRIDGE_PROTOCOL_VERSION);
    assert(payload[1] == frame_type);
}

/// A field that was found stays where it is when bytes are appended.
pub proof fn lemma_field_range_extended(source: Seq<u8>, pos: int, extra: Seq<u8>)
    requires
        spec_field_range(source, pos) is Ok,
    ensures
        spec_field_range(source + extra, pos) == spec_field_range(source, pos),
        spec_field_range(source, pos)->Ok_0.0 == pos + 4,
        spec_field_range(source, pos)->Ok_0.0 + spec_field_range(source, pos)->Ok_0.1
            <= source.len(),
        spec_field_range(source, pos)->Ok_0.1 >= 0,
        (source + extra).subrange(
            spec_field_range(source, pos)->Ok_0.0,
            spec_field_range(source, pos)->Ok_0.0 + spec_field_range(source, pos)->Ok_0.1,
        ) == source.subrange(
            spec_field_range(source, pos)->Ok_0.0,
            spec_field_range(source, pos)->Ok_0.0 + spec_field_range(source, pos)->Ok_0.1,
        ),
{
    let longer = source + extra;
    assert(longer[pos] == source[pos]);
    assert(longer[pos + 1] == source[pos + 1]);
    assert(longer[pos + 2] == source[pos + 2]);
    assert(longer[pos + 3] == source[pos + 3]);
    let start = spec_field_range(source, pos)->Ok_0.0;
    let length = spec_field_range(source, pos)->Ok_0.1;
    assert(longer.subrange(start, start + length) =~= source.subrange(start, start + length));
}

/// A header name that was read is read the same when bytes are appended.
pub proof fn lemma_header_name_extended(source: Seq<u8>, pos: int, tokenized: bool, extra: Seq<u8>)
    requires
        spec_decode_header_name(source, pos, tokenized) is Ok,
    ensures
        spec_decode_header_name(source + extra, pos, tokenized) == spec_decode_header_name(
            source,
            pos,
            tokenized,
        ),
        spec_decode_header_name(source, pos, tokenized)->Ok_0.1 <= source.len(),
        spec_decode_header_name(source, pos, tokenized)->Ok_0.1 >= 0,
{
    reveal(spec_decode_header_name);
    let longer = source + extra;
    if !tokenized {
        lemma_field_range_extended(source, pos, extra);
    } else {
        assert(longer[pos] == source[pos]);
        assert(longer[pos + 1] == source[pos + 1]);
        let token = spec_u16_from_be(source[pos], source[pos + 1]);
        if token == BRIDGE_HEADER_NAME_LITERAL_TOKEN {
            lemma_field_range_extended(source, pos + 2, extra);
        }
    }
}

/// Headers that were read are read the same when bytes are appended.
pub proof fn lemma_headers_extended(
    source: Seq<u8>,
    pos: int,
    count: nat,
    tokenized: bool,
    extra: Seq<u8>,
)
    requires
        spec_decode_headers(source, pos, count, tokenized) is Ok,
        0 <= pos <= source.len(),
    ensures
        spec_decode_headers(source + extra, pos, count, tokenized) == spec_decode_headers(
            source,
            pos,
            count,
            tokenized,
        ),
        0 <= spec_decode_headers(source, pos, count, tokenized)->Ok_0.1 <= source.len(),
    decreases count,
{
    if count == 0 {
    } else {
        lemma_header_name_extended(source, pos, tokenized, extra);
        let value_pos = spec_decode_header_name(source, pos, tokenized)->Ok_0.1;
        lemma_field_range_extended(source, value_pos, extra);
        let start = spec_field_range(source, value_pos)->Ok_0.0;
        let length = spec_field_range(source, value_pos)->Ok_0.1;
        lemma_headers_extended(source, start + length, (count - 1) as nat, tokenized, extra);
    }
}

/// A text that was read is read the same when bytes are appended.
pub proof fn lemma_text_extended(source: Seq<u8>, pos: int, extra: Seq<u8>)
    requires
        spec_decode_text(source, pos) is Ok,
    ensures
        spec_decode_text(source + extra, pos) == spec_decode_text(source, pos),
        0 <= spec_decode_text(source, pos)->Ok_0.1 <= source.len(),
{
    lemma_field_range_extended(source, pos, extra);
}

/// The front of a request that was read is read the same when bytes are appended.
pub proof fn lemma_request_front_extended(payload: Seq<u8>, tokenized: bool, extra: Seq<u8>)
    requires
        spec_decode_request_front(payload, tokenized) is Ok,
    ensures
        spec_decode_request_front(payload + extra, tokenized) == spec_decode_request_front(
            payload,
            tokenized,
        ),
        0 <= spec_decode_request_front(payload, tokenized)->Ok_0.1 <= payload.len(),
{
    reveal(spec_decode_request_front);
    let longer = payload + extra;
    lemma_text_extended(payload, 2, extra);
    let scheme_at = spec_decode_text(payload, 2)->Ok_0.1;
    lemma_text_extended(payload, scheme_at, extra);
    let authority_at = spec_decode_text(payload, scheme_at)->Ok_0.1;
    lemma_text_extended(payload, authority_at, extra);
    let path_at = spec_decode_text(payload, authority_at)->Ok_0.1;
    lemma_text_extended(payload, path_at, extra);
    let query_at = spec_decode_text(payload, path_at)->Ok_0.1;
    lemma_text_extended(payload, query_at, extra);
    let protocol_at = spec_decode_text(payload, query_at)->Ok_0.1;
    lemma_text_extended(payload, protocol_at, extra);
    let count_at = spec_decode_text(payload, protocol_at)->Ok_0.1;
    assert(longer[count_at] == payload[count_at]);
    assert(longer[count_at + 1] == payload[count_at + 1]);
    assert(longer[count_at + 2] == payload[count_at + 2]);
    assert(longer[count_at + 3] == payload[count_at + 3]);
    let count = spec_decode_count(payload, count_at)->Ok_0.0;
    lemma_headers_extended(payload, count_at + 4, count as nat, tokenized, extra);
}

/// Status and headers that were read are read the same when bytes are appended.
pub proof fn lemma_status_and_headers_extended(payload: Seq<u8>, tokenized: bool, extra: Seq<u8>)
    requires
        spec_decode_status_and_headers(payload, tokenized) is Ok,
    ensures
        spec_decode_status_and_headers(payload + extra, tokenized)
            == spec_decode_status_and_headers(payload, tokenized),
        0 <= spec_decode_status_and_headers(payload, tokenized)->Ok_0.2 <= payload.len(),
{
    let longer = payload + extra;
    assert forall|i: int| 0 <= i < 8 implies longer[i] == payload[i] by {}
    let count = spec_u32_from_be(payload[4], payload[5], payload[6], payload[7]);
    lemma_headers_extended(payload, 8, count as nat, tokenized, extra);
}

/// The frame type that was read is read the same when bytes are appended.
pub proof fn lemma_frame_type_extended(payload: Seq<u8>, expected: ExpectedFrame, extra: Seq<u8>)
    requires
        spec_decode_frame_type(payload, expected) is Ok,
    ensures
        spec_decode_frame_type(payload + extra, expected) == spec_decode_frame_type(
            payload,
            expected,
        ),
        payload.len() >= 2,
{
    let longer = payload + extra;
    assert(longer[0] == payload[0]);
    assert(longer[1] == payload[1]);
}

/// Where a payload ended with a field, a longer payload has bytes left over.
proof fn lemma_last_field_extended(source: Seq<u8>, pos: int, extra: Seq<u8>)
    requires
        spec_decode_last_field(source, pos) is Ok,
        extra.len() > 0,
        source.len() + extra.len() <= usize::MAX,
    ensures
        spec_decode_last_field(source + extra, pos) == Err::<Seq<u8>, BridgeError>(
            BridgeError::TrailingBytes(extra.len() as usize),
        ),
{
    lemma_field_range_extended(source, pos, extra);
}

/// A response in one frame is refused once bytes are appended to it, and the
/// error counts the bytes that are too many.
pub proof fn lemma_response_rejects_trailing_bytes(payload: Seq<u8>, extra: Seq<u8>)
    requires
        spec_decode_response(payload) is Ok,
        extra.len() > 0,
        payload.len() + extra.len() <= usize::MAX,
    ensures
        spec_decode_response(payload + extra) == Err::<
            crate::response::BridgeResponseModel,
            BridgeError,
        >(BridgeError::TrailingBytes(extra.len() as usize)),
{
    lemma_frame_type_extended(payload, ExpectedFrame::Response, extra);
    let frame_type = spec_decode_frame_type(payload, ExpectedFrame::Response)->Ok_0;
    let tokenized = frame_type == crate::limits::BRIDGE_RESPONSE_FRAME_TYPE_TOKENIZED;
    lemma_status_and_headers_extended(payload, tokenized, extra);
    let next = spec_decode_status_and_headers(payload, tokenized)->Ok_0.2;
    lemma_last_field_extended(payload, next, extra);
}

/// A response start frame is refused once bytes are appended to it.
pub proof fn lemma_response_start_rejects_trailing_bytes(payload: Seq<u8>, extra: Seq<u8>)
    requires
        spec_decode_response_start(payload) is Ok,
        extra.len() > 0,
        payload.len() + extra.len() <= usize::MAX,
    ensures
        spec_decode_response_start(payload + extra) == Err::<(u16, Seq<HeaderModel>), BridgeError>(
            BridgeError::TrailingBytes(extra.len() as usize),
        ),
{
    lemma_frame_type_extended(payload, ExpectedFrame::ResponseStart, extra);
    let frame_type = spec_decode_frame_type(payload, ExpectedFrame::ResponseStart)->Ok_0;
    let tokenized = frame_type == crate::limits::BRIDGE_RESPONSE_START_FRAME_TYPE_TOKENIZED;
    lemma_status_and_headers_extended(payload, tokenized, extra);
}

/// A chunk frame is refused once bytes are appended to it.
pub proof fn lemma_chunk_rejects_trailing_bytes(
    payload: Seq<u8>,
    expected: ExpectedFrame,
    extra: Seq<u8>,
)
    requires
        spec_decode_chunk(payload, expected) is Ok,
        extra.len() > 0,
        payload.len() + extra.len() <= usize::MAX,
    ensures
        spec_decode_chunk(payload + extra, expected) == Err::<Seq<u8>, BridgeError>(
            BridgeError::TrailingBytes(extra.len() as usize),
        ),
{
    lemma_frame_type_extended(payload, expected, extra);
    lemma_last_field_extended(payload, 2, extra);
}

/// A frame that carries nothing is refused once bytes are appended to it.
pub proof fn lemma_bare_rejects_trailing_bytes(
    payload: Seq<u8>,
    expected: ExpectedFrame,
    extra: Seq<u8>,
)
    requires
        spec_decode_bare(payload, expected) is Ok,
        extra.len() > 0,
        payload.len() + extra.len() <= usize::MAX,
    ensures
        spec_decode_bare(payload + extra, expected) == Err::<(), BridgeError>(
            BridgeError::TrailingBytes(extra.len() as usize),
        ),
{
    lemma_frame_type_extended(payload, expected, extra);
}

/// A request in one frame is refused once bytes are appended to it.
pub proof fn lemma_request_rejects_trailing_bytes(payload: Seq<u8>, extra: Seq<u8>)
    requires
        spec_decode_request(payload) is Ok,
        extra.len() > 0,
        payload.len() + extra.len() <= usize::MAX,
    ensures
        spec_decode_request(payload + extra) == Err::<(BridgeRequestModel, Seq<u8>), BridgeError>(
            BridgeError::TrailingBytes(extra.len() as usize),
        ),
{
    lemma_frame_type_extended(payload, ExpectedFrame::Request, extra);
    let frame_type = spec_decode_frame_type(payload, ExpectedFrame::Request)->Ok_0;
    let tokenized = frame_type == crate::limits::BRIDGE_REQUEST_FRAME_TYPE_TOKENIZED;
    lemma_request_front_extended(payload, tokenized, extra);
    let next = spec_decode_request_front(payload, tokenized)->Ok_0.1;
    lemma_last_field_extended(payload, next, extra);
}

/// A request start frame is refused once bytes are appended to it.
pub proof fn lemma_request_start_rejects_trailing_bytes(payload: Seq<u8>, extra: Seq<u8>)
    requires
        spec_decode_request_start(payload) is Ok,
        extra.len() > 0,
        payload.len() + extra.len() <= usize::MAX,
    ensures
        spec_decode_request_start(payload + extra) == Err::<BridgeRequestModel, BridgeError>(
            BridgeError::TrailingBytes(extra.len() as usize),
        ),
{
    lemma_frame_type_extended(payload, ExpectedFrame::RequestStart, extra);
    let frame_type = spec_decode_frame_type(payload, ExpectedFrame::RequestStart)->Ok_0;
    let tokenized = frame_type == crate::limits::BRIDGE_REQUEST_START_FRAME_TYPE_TOKENIZED;
    lemma_request_front_extended(payload, tokenized, extra);
}

} // verus!
