//! Decoders of the frames that come back over the bridge: responses in one
//! frame, response start, chunk and end, and the two tunnel frames.

use vstd::prelude::*;
use vstd::slice::slice_to_vec;
use crate::error::BridgeError;
use crate::error::ExpectedFrame;
use crate::header::HeaderField;
use crate::header::HeaderModel;
use crate::header::decode_bridge_response_header_name;
use crate::header::header_value_is_valid;
use crate::header::spec_decode_header_name;
use crate::header::spec_valid_header_value;
use crate::limits::BRIDGE_PROTOCOL_VERSION;
use crate::limits::BRIDGE_PROTOCOL_VERSION_LEGACY;
use crate::limits::BRIDGE_REQUEST_CHUNK_FRAME_TYPE;
use crate::limits::BRIDGE_REQUEST_END_FRAME_TYPE;
use crate::limits::BRIDGE_REQUEST_FRAME_TYPE;
use crate::limits::BRIDGE_REQUEST_FRAME_TYPE_TOKENIZED;
use crate::limits::BRIDGE_REQUEST_START_FRAME_TYPE;
use crate::limits::BRIDGE_REQUEST_START_FRAME_TYPE_TOKENIZED;
use crate::limits::BRIDGE_RESPONSE_CHUNK_FRAME_TYPE;
use crate::limits::BRIDGE_RESPONSE_END_FRAME_TYPE;
use crate::limits::BRIDGE_RESPONSE_FRAME_TYPE;
use crate::limits::BRIDGE_RESPONSE_FRAME_TYPE_TOKENIZED;
use crate::limits::BRIDGE_RESPONSE_START_FRAME_TYPE;
use crate::limits::BRIDGE_RESPONSE_START_FRAME_TYPE_TOKENIZED;
use crate::limits::BRIDGE_TUNNEL_CHUNK_FRAME_TYPE;
use crate::limits::BRIDGE_TUNNEL_CLOSE_FRAME_TYPE;
use crate::wire::BridgeByteReader;
use crate::wire::spec_field_range;
use crate::wire::spec_u16_from_be;
use crate::wire::spec_u32_from_be;

verus! {

/// A response that came in one frame.
#[derive(Clone, Debug)]
pub struct BridgeResponse {
    pub status: u16,
    pub headers: Vec<HeaderField>,
    pub body_bytes: Vec<u8>,
}

/// A response as contracts see it.
pub struct BridgeResponseModel {
    pub status: u16,
    pub headers: Seq<HeaderModel>,
    pub body: Seq<u8>,
}

impl View for BridgeResponse {
    type V = BridgeResponseModel;

    open spec fn view(&self) -> BridgeResponseModel {
        BridgeResponseModel {
            status: self.status,
            headers: self.headers.deep_view(),
            body: self.body_bytes@,
        }
    }
}

/// Whether `version` is a protocol version this runtime accepts.
pub open spec fn spec_supported_version(version: u8) -> bool {
    version == BRIDGE_PROTOCOL_VERSION || version == BRIDGE_PROTOCOL_VERSION_LEGACY
}

/// Whether `frame_type` is a type of the frame `expected`.
pub open spec fn spec_frame_type_matches(expected: ExpectedFrame, frame_type: u8) -> bool {
    match expected {
        ExpectedFrame::Request => frame_type == BRIDGE_REQUEST_FRAME_TYPE || frame_type
            == BRIDGE_REQUEST_FRAME_TYPE_TOKENIZED,
        ExpectedFrame::RequestStart => frame_type == BRIDGE_REQUEST_START_FRAME_TYPE || frame_type
            == BRIDGE_REQUEST_START_FRAME_TYPE_TOKENIZED,
        ExpectedFrame::RequestChunk => frame_type == BRIDGE_REQUEST_CHUNK_FRAME_TYPE,
        ExpectedFrame::RequestEnd => frame_type == BRIDGE_REQUEST_END_FRAME_TYPE,
        ExpectedFrame::Response => frame_type == BRIDGE_RESPONSE_FRAME_TYPE || frame_type
            == BRIDGE_RESPONSE_FRAME_TYPE_TOKENIZED,
        ExpectedFrame::ResponseStart => frame_type == BRIDGE_RESPONSE_START_FRAME_TYPE
            || frame_type == BRIDGE_RESPONSE_START_FRAME_TYPE_TOKENIZED,
        ExpectedFrame::ResponseChunk => frame_type == BRIDGE_RESPONSE_CHUNK_FRAME_TYPE,
        ExpectedFrame::ResponseEnd => frame_type == BRIDGE_RESPONSE_END_FRAME_TYPE,
        ExpectedFrame::TunnelChunk => frame_type == BRIDGE_TUNNEL_CHUNK_FRAME_TYPE,
        ExpectedFrame::TunnelClose => frame_type == BRIDGE_TUNNEL_CLOSE_FRAME_TYPE,
    }
}

/// The frame type of `payload` as a look ahead sees it: the second byte of a
/// payload of at least two bytes whose first byte is a supported version.
pub open spec fn spec_peek_frame_type(payload: Seq<u8>) -> Result<u8, BridgeError> {
    if payload.len() < 2 {
        Err(BridgeError::TruncatedPayload)
    } else if !spec_supported_version(payload[0]) {
        Err(BridgeError::UnsupportedVersion(payload[0]))
    } else {
        Ok(payload[1])
    }
}

/// The frame type at the head of `payload` as the decoder of `expected`
/// frames reads it: version first, then a type that must be one of `expected`.
pub open spec fn spec_decode_frame_type(payload: Seq<u8>, expected: ExpectedFrame) -> Result<
    u8,
    BridgeError,
> {
    if payload.len() < 1 {
        Err(BridgeError::TruncatedPayload)
    } else if !spec_supported_version(payload[0]) {
        Err(BridgeError::UnsupportedVersion(payload[0]))
    } else if payload.len() < 2 {
        Err(BridgeError::TruncatedPayload)
    } else if !spec_frame_type_matches(expected, payload[1]) {
        Err(BridgeError::InvalidFrameType { expected, found: payload[1] })
    } else {
        Ok(payload[1])
    }
}

/// The last field of a payload: the field at `pos` must end where `source` ends.
pub open spec fn spec_decode_last_field(source: Seq<u8>, pos: int) -> Result<Seq<u8>, BridgeError> {
    match spec_field_range(source, pos) {
        Ok((start, length)) => if start + length == source.len() {
            Ok(source.subrange(start, start + length))
        } else {
            Err(BridgeError::TrailingBytes((source.len() - (start + length)) as usize))
        },
        Err(error) => Err(error),
    }
}

/// What a payload must end with when nothing more is due at `pos`.
pub open spec fn spec_decode_nothing_left(source: Seq<u8>, pos: int) -> Result<(), BridgeError> {
    if pos == source.len() {
        Ok(())
    } else {
        Err(BridgeError::TrailingBytes((source.len() - pos) as usize))
    }
}

/// The body slice carried by the chunk frame `payload` of kind `expected`:
/// version, type, then one field that ends the payload.
pub open spec fn spec_decode_chunk(payload: Seq<u8>, expected: ExpectedFrame) -> Result<
    Seq<u8>,
    BridgeError,
> {
    match spec_decode_frame_type(payload, expected) {
        Ok(_) => spec_decode_last_field(payload, 2),
        Err(error) => Err(error),
    }
}

/// Whether `payload` is a frame of kind `expected` that carries nothing:
/// version and type, and no byte more.
pub open spec fn spec_decode_bare(payload: Seq<u8>, expected: ExpectedFrame) -> Result<
    (),
    BridgeError,
> {
    match spec_decode_frame_type(payload, expected) {
        Ok(_) => spec_decode_nothing_left(payload, 2),
        Err(error) => Err(error),
    }
}

/// The headers kept out of `count` header entries that start at `pos`, and
/// the position behind the last entry. An entry is a name and a value field.
/// An entry whose name or value HTTP does not accept is read over and left out.
pub open spec fn spec_decode_headers(source: Seq<u8>, pos: int, count: nat, tokenized: bool) -> Result<
    (Seq<HeaderModel>, int),
    BridgeError,
>
    decreases count,
{
    if count == 0 {
        Ok((Seq::empty(), pos))
    } else {
        match spec_decode_header_name(source, pos, tokenized) {
            Err(error) => Err(error),
            Ok((name, value_pos)) => match spec_field_range(source, value_pos) {
                Err(error) => Err(error),
                Ok((start, length)) => {
                    let value = source.subrange(start, start + length);
                    match spec_decode_headers(
                        source,
                        start + length,
                        (count - 1) as nat,
                        tokenized,
                    ) {
                        Err(error) => Err(error),
                        Ok((rest, next)) => Ok((spec_keep_header(name, value) + rest, next)),
                    }
                },
            },
        }
    }
}

/// The header made of `name` and `value` if both are acceptable, as a list
/// of one or of no header.
pub open spec fn spec_keep_header(name: Option<Seq<char>>, value: Seq<u8>) -> Seq<HeaderModel> {
    match name {
        Some(text) => if spec_valid_header_value(value) {
            seq![(text, value)]
        } else {
            Seq::empty()
        },
        None => Seq::empty(),
    }
}

/// Status and headers at the head of a response payload whose frame type was
/// read: a 16-bit status, a 32-bit header count, then the headers. Gives the
/// position behind the headers as well.
pub open spec fn spec_decode_status_and_headers(payload: Seq<u8>, tokenized: bool) -> Result<
    (u16, Seq<HeaderModel>, int),
    BridgeError,
> {
    if payload.len() < 8 {
        Err(BridgeError::TruncatedPayload)
    } else {
        let status = spec_u16_from_be(payload[2], payload[3]);
        let count = spec_u32_from_be(payload[4], payload[5], payload[6], payload[7]);
        match spec_decode_headers(payload, 8, count as nat, tokenized) {
            Ok((headers, next)) => Ok((status, headers, next)),
            Err(error) => Err(error),
        }
    }
}

/// The response carried by the single frame `payload`.
pub open spec fn spec_decode_response(payload: Seq<u8>) -> Result<BridgeResponseModel, BridgeError> {
    match spec_decode_frame_type(payload, ExpectedFrame::Response) {
        Err(error) => Err(error),
        Ok(frame_type) => match spec_decode_status_and_headers(
            payload,
            frame_type == BRIDGE_RESPONSE_FRAME_TYPE_TOKENIZED,
        ) {
            Err(error) => Err(error),
            Ok((status, headers, next)) => match spec_decode_last_field(payload, next) {
                Err(error) => Err(error),
                Ok(body) => Ok(BridgeResponseModel { status, headers, body }),
            },
        },
    }
}

/// Status and headers carried by the response start frame `payload`.
pub open spec fn spec_decode_response_start(payload: Seq<u8>) -> Result<
    (u16, Seq<HeaderModel>),
    BridgeError,
> {
    match spec_decode_frame_type(payload, ExpectedFrame::ResponseStart) {
        Err(error) => Err(error),
        Ok(frame_type) => match spec_decode_status_and_headers(
            payload,
            frame_type == BRIDGE_RESPONSE_START_FRAME_TYPE_TOKENIZED,
        ) {
            Err(error) => Err(error),
            Ok((status, headers, next)) => match spec_decode_nothing_left(payload, next) {
                Err(error) => Err(error),
                Ok(_) => Ok((status, headers)),
            },
        },
    }
}

/// Returns true when `version` is accepted by this runtime.
pub fn is_supported_bridge_protocol_version(version: u8) -> (supported: bool)
    ensures
        supported == spec_supported_version(version),
{
    version == BRIDGE_PROTOCOL_VERSION || version == BRIDGE_PROTOCOL_VERSION_LEGACY
}

/// Whether `frame_type` is a single-frame response, literal or tokenized.
pub fn is_bridge_response_frame_type(frame_type: u8) -> (matches: bool)
    ensures
        matches == spec_frame_type_matches(ExpectedFrame::Response, frame_type),
{
    frame_type == BRIDGE_RESPONSE_FRAME_TYPE || frame_type == BRIDGE_RESPONSE_FRAME_TYPE_TOKENIZED
}

/// Whether `frame_type` is the tokenized single-frame response.
pub fn is_bridge_response_frame_type_tokenized(frame_type: u8) -> (tokenized: bool)
    ensures
        tokenized == (frame_type == BRIDGE_RESPONSE_FRAME_TYPE_TOKENIZED),
{
    frame_type == BRIDGE_RESPONSE_FRAME_TYPE_TOKENIZED
}

/// Whether `frame_type` is a response start, literal or tokenized.
pub fn is_bridge_response_start_frame_type(frame_type: u8) -> (matches: bool)
    ensures
        matches == spec_frame_type_matches(ExpectedFrame::ResponseStart, frame_type),
{
    frame_type == BRIDGE_RESPONSE_START_FRAME_TYPE || frame_type
        == BRIDGE_RESPONSE_START_FRAME_TYPE_TOKENIZED
}

/// Whether `frame_type` is the tokenized response start.
pub fn is_bridge_response_start_frame_type_tokenized(frame_type: u8) -> (tokenized: bool)
    ensures
        tokenized == (frame_type == BRIDGE_RESPONSE_START_FRAME_TYPE_TOKENIZED),
{
    frame_type == BRIDGE_RESPONSE_START_FRAME_TYPE_TOKENIZED
}

/// Looks at the frame type of `payload` after checking its version.
pub fn peek_bridge_frame_type(payload: &[u8]) -> (result: Result<u8, BridgeError>)
    ensures
        result == spec_peek_frame_type(payload@),
{
    if payload.len() < 2 {
        return Err(BridgeError::TruncatedPayload);
    }
    let version = payload[0];
    if !is_supported_bridge_protocol_version(version) {
        return Err(BridgeError::UnsupportedVersion(version));
    }
    Ok(payload[1])
}

/// Whether `frame_type` is a type of the frame `expected`.
pub fn frame_type_matches(expected: ExpectedFrame, frame_type: u8) -> (matches: bool)
    ensures
        matches == spec_frame_type_matches(expected, frame_type),
{
    match expected {
        ExpectedFrame::Request => frame_type == BRIDGE_REQUEST_FRAME_TYPE || frame_type
            == BRIDGE_REQUEST_FRAME_TYPE_TOKENIZED,
        ExpectedFrame::RequestStart => frame_type == BRIDGE_REQUEST_START_FRAME_TYPE || frame_type
            == BRIDGE_REQUEST_START_FRAME_TYPE_TOKENIZED,
        ExpectedFrame::RequestChunk => frame_type == BRIDGE_REQUEST_CHUNK_FRAME_TYPE,
        ExpectedFrame::RequestEnd => frame_type == BRIDGE_REQUEST_END_FRAME_TYPE,
        ExpectedFrame::Response => is_bridge_response_frame_type(frame_type),
        ExpectedFrame::ResponseStart => is_bridge_response_start_frame_type(frame_type),
        ExpectedFrame::ResponseChunk => frame_type == BRIDGE_RESPONSE_CHUNK_FRAME_TYPE,
        ExpectedFrame::ResponseEnd => frame_type == BRIDGE_RESPONSE_END_FRAME_TYPE,
        ExpectedFrame::TunnelChunk => frame_type == BRIDGE_TUNNEL_CHUNK_FRAME_TYPE,
        ExpectedFrame::TunnelClose => frame_type == BRIDGE_TUNNEL_CLOSE_FRAME_TYPE,
    }
}

/// Reads version and frame type at the head of a payload and checks both.
pub fn read_frame_type(reader: &mut BridgeByteReader<'_>, expected: ExpectedFrame) -> (result:
    Result<u8, BridgeError>)
    requires
        old(reader).position() == 0,
    ensures
        final(reader).source() == old(reader).source(),
        result == spec_decode_frame_type(old(reader).source(), expected),
        result is Ok ==> final(reader).position() == 2,
{
    let version = reader.get_u8()?;
    if !is_supported_bridge_protocol_version(version) {
        return Err(BridgeError::UnsupportedVersion(version));
    }
    let frame_type = reader.get_u8()?;
    if !frame_type_matches(expected, frame_type) {
        return Err(BridgeError::InvalidFrameType { expected, found: frame_type });
    }
    Ok(frame_type)
}

/// Reads the field that ends a payload.
pub fn read_last_field<'a>(reader: &mut BridgeByteReader<'a>) -> (result: Result<&'a [u8], BridgeError>)
    ensures
        match result {
            Ok(field) => spec_decode_last_field(old(reader).source(), old(reader).position())
                == Ok::<Seq<u8>, BridgeError>(field@),
            Err(error) => spec_decode_last_field(old(reader).source(), old(reader).position())
                == Err::<Seq<u8>, BridgeError>(error),
        },
{
    let field = reader.get_bytes()?;
    reader.ensure_done()?;
    Ok(field)
}

/// Decodes a chunk frame of kind `expected` and copies out the bytes it carries.
pub fn decode_chunk_frame(payload: &[u8], expected: ExpectedFrame) -> (result: Result<
    Vec<u8>,
    BridgeError,
>)
    ensures
        match result {
            Ok(chunk) => spec_decode_chunk(payload@, expected) == Ok::<Seq<u8>, BridgeError>(chunk@),
            Err(error) => spec_decode_chunk(payload@, expected) == Err::<Seq<u8>, BridgeError>(
                error,
            ),
        },
{
    let mut reader = BridgeByteReader::new(payload);
    let _ = read_frame_type(&mut reader, expected)?;
    let chunk = read_last_field(&mut reader)?;
    Ok(slice_to_vec(chunk))
}

/// Checks a frame of kind `expected` that carries nothing.
pub fn decode_bare_frame(payload: &[u8], expected: ExpectedFrame) -> (result: Result<(), BridgeError>)
    ensures
        result == spec_decode_bare(payload@, expected),
{
    let mut reader = BridgeByteReader::new(payload);
    let _ = read_frame_type(&mut reader, expected)?;
    reader.ensure_done()
}

/// Decodes one response chunk frame.
pub fn decode_bridge_response_chunk(payload: &[u8]) -> (result: Result<Vec<u8>, BridgeError>)
    ensures
        match result {
            Ok(chunk) => spec_decode_chunk(payload@, ExpectedFrame::ResponseChunk) == Ok::<
                Seq<u8>,
                BridgeError,
            >(chunk@),
            Err(error) => spec_decode_chunk(payload@, ExpectedFrame::ResponseChunk) == Err::<
                Seq<u8>,
                BridgeError,
            >(error),
        },
{
    decode_chunk_frame(payload, ExpectedFrame::ResponseChunk)
}

/// Checks a response end frame.
pub fn decode_bridge_response_end(payload: &[u8]) -> (result: Result<(), BridgeError>)
    ensures
        result == spec_decode_bare(payload@, ExpectedFrame::ResponseEnd),
{
    decode_bare_frame(payload, ExpectedFrame::ResponseEnd)
}

/// Decodes one tunnel chunk frame.
pub fn decode_bridge_tunnel_chunk(payload: &[u8]) -> (result: Result<Vec<u8>, BridgeError>)
    ensures
        match result {
            Ok(chunk) => spec_decode_chunk(payload@, ExpectedFrame::TunnelChunk) == Ok::<
                Seq<u8>,
                BridgeError,
            >(chunk@),
            Err(error) => spec_decode_chunk(payload@, ExpectedFrame::TunnelChunk) == Err::<
                Seq<u8>,
                BridgeError,
            >(error),
        },
{
    decode_chunk_frame(payload, ExpectedFrame::TunnelChunk)
}

/// Checks a tunnel close frame.
pub fn decode_bridge_tunnel_close(payload: &[u8]) -> (result: Result<(), BridgeError>)
    ensures
        result == spec_decode_bare(payload@, ExpectedFrame::TunnelClose),
{
    decode_bare_frame(payload, ExpectedFrame::TunnelClose)
}

/// What is known of a header list once `done` was read and the rest of the
/// entries gives `rest`.
pub open spec fn spec_headers_so_far(
    done: Seq<HeaderModel>,
    rest: Result<(Seq<HeaderModel>, int), BridgeError>,
) -> Result<(Seq<HeaderModel>, int), BridgeError> {
    match rest {
        Ok((more, next)) => Ok((done + more, next)),
        Err(error) => Err(error),
    }
}

/// Reads `count` header entries and keeps those that HTTP accepts.
pub fn decode_bridge_response_headers(
    reader: &mut BridgeByteReader<'_>,
    count: u32,
    tokenized: bool,
) -> (result: Result<Vec<HeaderField>, BridgeError>)
    ensures
        final(reader).source() == old(reader).source(),
        match result {
            Ok(headers) => {
                &&& spec_decode_headers(
                    old(reader).source(),
                    old(reader).position(),
                    count as nat,
                    tokenized,
                ) matches Ok((expected, next))
                &&& expected == headers.deep_view()
                &&& final(reader).position() == next
            },
            Err(error) => spec_decode_headers(
                old(reader).source(),
                old(reader).position(),
                count as nat,
                tokenized,
            ) == Err::<(Seq<HeaderModel>, int), BridgeError>(error),
        },
{
    let mut headers: Vec<HeaderField> = Vec::new();
    let mut index: u32 = 0;
    let ghost source = reader.source();
    let ghost whole = spec_decode_headers(source, reader.position(), count as nat, tokenized);
    assert(headers.deep_view() =~= Seq::<HeaderModel>::empty());
    assert(whole == spec_headers_so_far(headers.deep_view(), whole)) by {
        match whole {
            Ok((more, next)) => {
                assert(Seq::<HeaderModel>::empty() + more =~= more);
            },
            Err(_) => {},
        }
    }
    while index < count
        invariant
            index <= count,
            reader.source() == source,
            source == old(reader).source(),
            whole == spec_decode_headers(source, old(reader).position(), count as nat, tokenized),
            whole == spec_headers_so_far(
                headers.deep_view(),
                spec_decode_headers(source, reader.position(), (count - index) as nat, tokenized),
            ),
        decreases count - index,
    {
        let ghost before = reader.position();
        let ghost done = headers.deep_view();
        let ghost step = spec_decode_headers(source, before, (count - index) as nat, tokenized);
        let name = decode_bridge_response_header_name(reader, tokenized)?;
        let value = reader.get_bytes()?;
        let ghost after = reader.position();
        let ghost rest = spec_decode_headers(source, after, (count - index - 1) as nat, tokenized);
        index += 1;
        let keep_value = header_value_is_valid(value);
        proof {
            let kept = spec_keep_header(crate::header::spec_name_view(name), value@);
            assert(step == spec_headers_so_far(kept, rest));
            match rest {
                Ok((more, next)) => {
                    assert(done + (kept + more) =~= (done + kept) + more);
                },
                Err(_) => {},
            }
            assert(whole == spec_headers_so_far(done + kept, rest));
        }
        if let Some(text) = name {
            if keep_value {
                let field = HeaderField { name: text, value: slice_to_vec(value) };
                headers.push(field);
                assert(headers.deep_view() =~= done + seq![(text@, value@)]);
            } else {
                assert(headers.deep_view() =~= done + Seq::<HeaderModel>::empty());
            }
        } else {
            assert(headers.deep_view() =~= done + Seq::<HeaderModel>::empty());
        }
    }
    proof {
        assert(headers.deep_view() + Seq::<HeaderModel>::empty() =~= headers.deep_view());
    }
    Ok(headers)
}

/// Reads status, header count and headers behind the frame type.
fn read_status_and_headers(reader: &mut BridgeByteReader<'_>, tokenized: bool) -> (result: Result<
    (u16, Vec<HeaderField>),
    BridgeError,
>)
    requires
        old(reader).position() == 2,
    ensures
        final(reader).source() == old(reader).source(),
        match result {
            Ok((status, headers)) => spec_decode_status_and_headers(
                old(reader).source(),
                tokenized,
            ) == Ok::<(u16, Seq<HeaderModel>, int), BridgeError>(
                (status, headers.deep_view(), final(reader).position()),
            ),
            Err(error) => spec_decode_status_and_headers(old(reader).source(), tokenized) == Err::<
                (u16, Seq<HeaderModel>, int),
                BridgeError,
            >(error),
        },
{
    let status = reader.get_u16()?;
    let count = reader.get_u32()?;
    let headers = decode_bridge_response_headers(reader, count, tokenized)?;
    Ok((status, headers))
}

/// Decodes a response that came in one frame.
pub fn decode_bridge_response(payload: &[u8]) -> (result: Result<BridgeResponse, BridgeError>)
    ensures
        match result {
            Ok(response) => spec_decode_response(payload@) == Ok::<
                BridgeResponseModel,
                BridgeError,
            >(response@),
            Err(error) => spec_decode_response(payload@) == Err::<BridgeResponseModel, BridgeError>(
                error,
            ),
        },
{
    let mut reader = BridgeByteReader::new(payload);
    let frame_type = read_frame_type(&mut reader, ExpectedFrame::Response)?;
    let tokenized = is_bridge_response_frame_type_tokenized(frame_type);
    let (status, headers) = read_status_and_headers(&mut reader, tokenized)?;
    let body = read_last_field(&mut reader)?;
    Ok(BridgeResponse { status, headers, body_bytes: slice_to_vec(body) })
}

/// Decodes a response start frame into status and headers.
pub fn decode_bridge_response_start(payload: &[u8]) -> (result: Result<
    (u16, Vec<HeaderField>),
    BridgeError,
>)
    ensures
        match result {
            Ok((status, headers)) => spec_decode_response_start(payload@) == Ok::<
                (u16, Seq<HeaderModel>),
                BridgeError,
            >((status, headers.deep_view())),
            Err(error) => spec_decode_response_start(payload@) == Err::<
                (u16, Seq<HeaderModel>),
                BridgeError,
            >(error),
        },
{
    let mut reader = BridgeByteReader::new(payload);
    let frame_type = read_frame_type(&mut reader, ExpectedFrame::ResponseStart)?;
    let tokenized = is_bridge_response_start_frame_type_tokenized(frame_type);
    let (status, headers) = read_status_and_headers(&mut reader, tokenized)?;
    reader.ensure_done()?;
    Ok((status, headers))
}

} // verus!
