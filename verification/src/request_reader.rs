//! Decoders of request frames, as the runtime at the far end of the bridge
//! reads them.

use vstd::prelude::*;
use vstd::slice::slice_to_vec;
use vstd::utf8::decode_utf8;
use vstd::utf8::valid_utf8;
use crate::error::BridgeError;
use crate::error::ExpectedFrame;
use crate::header::HeaderField;
use crate::limits::BRIDGE_REQUEST_FRAME_TYPE_TOKENIZED;
use crate::limits::BRIDGE_REQUEST_START_FRAME_TYPE_TOKENIZED;
use crate::request::BridgeRequestModel;
use crate::response::decode_bridge_response_headers;
use crate::response::read_frame_type;
use crate::response::read_last_field;
use crate::response::spec_decode_frame_type;
use crate::response::spec_decode_headers;
use crate::response::spec_decode_last_field;
use crate::response::spec_decode_nothing_left;
use crate::wire::BridgeByteReader;
use crate::wire::spec_field_range;
use crate::wire::spec_u32_from_be;

verus! {

/// A decoded request: what stands in front of the body.
#[derive(Clone, Debug)]
pub struct BridgeRequest {
    pub method: String,
    pub scheme: String,
    pub authority: String,
    pub path: String,
    pub query: String,
    pub protocol: String,
    pub headers: Vec<HeaderField>,
}

impl View for BridgeRequest {
    type V = BridgeRequestModel;

    open spec fn view(&self) -> BridgeRequestModel {
        BridgeRequestModel {
            method: self.method@,
            scheme: self.scheme@,
            authority: self.authority@,
            path: self.path@,
            query: self.query@,
            protocol: self.protocol@,
            headers: self.headers.deep_view(),
        }
    }
}

/// Turns bytes into text with `std::str::from_utf8`, which accepts exactly the
/// well-formed UTF-8 sequences and reads them as the characters they encode.
#[verifier::external_body]
pub(crate) fn text_from_utf8(bytes: &[u8]) -> (text: Option<String>)
    ensures
        text is Some <==> valid_utf8(bytes@),
        text matches Some(decoded) ==> decoded@ == decode_utf8(bytes@),
{
    match std::str::from_utf8(bytes) {
        Ok(decoded) => Some(decoded.to_string()),
        Err(_) => None,
    }
}

/// The text in the field at `pos` of `source`, and the position behind it.
pub open spec fn spec_decode_text(source: Seq<u8>, pos: int) -> Result<(Seq<char>, int), BridgeError> {
    match spec_field_range(source, pos) {
        Ok((start, length)) => {
            let bytes = source.subrange(start, start + length);
            if valid_utf8(bytes) {
                Ok((decode_utf8(bytes), start + length))
            } else {
                Err(BridgeError::InvalidText)
            }
        },
        Err(error) => Err(error),
    }
}

/// The 32-bit number at `pos` of `source`, and the position behind it.
pub open spec fn spec_decode_count(source: Seq<u8>, pos: int) -> Result<(u32, int), BridgeError> {
    if 0 <= pos && pos + 4 <= source.len() {
        Ok((spec_u32_from_be(source[pos], source[pos + 1], source[pos + 2], source[pos + 3]), pos + 4))
    } else {
        Err(BridgeError::TruncatedPayload)
    }
}

/// What a request payload holds behind its frame type: six texts, the header
/// count and the headers. Gives the position behind the headers as well.
#[verifier::opaque]
pub open spec fn spec_decode_request_front(payload: Seq<u8>, tokenized: bool) -> Result<
    (BridgeRequestModel, int),
    BridgeError,
> {
    match spec_decode_text(payload, 2) {
        Err(error) => Err(error),
        Ok((method, scheme_at)) => match spec_decode_text(payload, scheme_at) {
            Err(error) => Err(error),
            Ok((scheme, authority_at)) => match spec_decode_text(payload, authority_at) {
                Err(error) => Err(error),
                Ok((authority, path_at)) => match spec_decode_text(payload, path_at) {
                    Err(error) => Err(error),
                    Ok((path, query_at)) => match spec_decode_text(payload, query_at) {
                        Err(error) => Err(error),
                        Ok((query, protocol_at)) => match spec_decode_text(payload, protocol_at) {
                            Err(error) => Err(error),
                            Ok((protocol, count_at)) => match spec_decode_count(payload, count_at) {
                                Err(error) => Err(error),
                                Ok((count, headers_at)) => match spec_decode_headers(
                                    payload,
                                    headers_at,
                                    count as nat,
                                    tokenized,
                                ) {
                                    Err(error) => Err(error),
                                    Ok((headers, next)) => Ok(
                                        (
                                            BridgeRequestModel {
                                                method,
                                                scheme,
                                                authority,
                                                path,
                                                query,
                                                protocol,
                                                headers,
                                            },
                                            next,
                                        ),
                                    ),
                                },
                            },
                        },
                    },
                },
            },
        },
    }
}

/// The request and the body carried by the single frame `payload`.
pub open spec fn spec_decode_request(payload: Seq<u8>) -> Result<
    (BridgeRequestModel, Seq<u8>),
    BridgeError,
> {
    match spec_decode_frame_type(payload, ExpectedFrame::Request) {
        Err(error) => Err(error),
        Ok(frame_type) => match spec_decode_request_front(
            payload,
            frame_type == BRIDGE_REQUEST_FRAME_TYPE_TOKENIZED,
        ) {
            Err(error) => Err(error),
            Ok((request, next)) => match spec_decode_last_field(payload, next) {
                Err(error) => Err(error),
                Ok(body) => Ok((request, body)),
            },
        },
    }
}

/// The request carried by the request start frame `payload`.
pub open spec fn spec_decode_request_start(payload: Seq<u8>) -> Result<
    BridgeRequestModel,
    BridgeError,
> {
    match spec_decode_frame_type(payload, ExpectedFrame::RequestStart) {
        Err(error) => Err(error),
        Ok(frame_type) => match spec_decode_request_front(
            payload,
            frame_type == BRIDGE_REQUEST_START_FRAME_TYPE_TOKENIZED,
        ) {
            Err(error) => Err(error),
            Ok((request, next)) => match spec_decode_nothing_left(payload, next) {
                Err(error) => Err(error),
                Ok(_) => Ok(request),
            },
        },
    }
}

/// Reads one text field.
fn read_text(reader: &mut BridgeByteReader<'_>) -> (result: Result<String, BridgeError>)
    ensures
        final(reader).source() == old(reader).source(),
        match result {
            Ok(text) => spec_decode_text(old(reader).source(), old(reader).position()) == Ok::<
                (Seq<char>, int),
                BridgeError,
            >((text@, final(reader).position())),
            Err(error) => spec_decode_text(old(reader).source(), old(reader).position()) == Err::<
                (Seq<char>, int),
                BridgeError,
            >(error),
        },
{
    let bytes = reader.get_bytes()?;
    match text_from_utf8(bytes) {
        Some(text) => Ok(text),
        None => Err(BridgeError::InvalidText),
    }
}

/// Reads the header count.
fn read_count(reader: &mut BridgeByteReader<'_>) -> (result: Result<u32, BridgeError>)
    ensures
        final(reader).source() == old(reader).source(),
        match result {
            Ok(count) => spec_decode_count(old(reader).source(), old(reader).position()) == Ok::<
                (u32, int),
                BridgeError,
            >((count, final(reader).position())),
            Err(error) => spec_decode_count(old(reader).source(), old(reader).position()) == Err::<
                (u32, int),
                BridgeError,
            >(error),
        },
{
    reader.get_u32()
}

/// Reads the six texts and the headers of a request.
fn read_request_front(reader: &mut BridgeByteReader<'_>, tokenized: bool) -> (result: Result<
    BridgeRequest,
    BridgeError,
>)
    requires
        old(reader).position() == 2,
    ensures
        final(reader).source() == old(reader).source(),
        match result {
            Ok(request) => spec_decode_request_front(old(reader).source(), tokenized) == Ok::<
                (BridgeRequestModel, int),
                BridgeError,
            >((request@, final(reader).position())),
            Err(error) => spec_decode_request_front(old(reader).source(), tokenized) == Err::<
                (BridgeRequestModel, int),
                BridgeError,
            >(error),
        },
{
    reveal(spec_decode_request_front);
    let method = read_text(reader)?;
    let scheme = read_text(reader)?;
    let authority = read_text(reader)?;
    let path = read_text(reader)?;
    let query = read_text(reader)?;
    let protocol = read_text(reader)?;
    let count = read_count(reader)?;
    let headers = decode_bridge_response_headers(reader, count, tokenized)?;
    Ok(BridgeRequest { method, scheme, authority, path, query, protocol, headers })
}

/// Decodes a request that came in one frame into the request and its body.
pub fn decode_bridge_request(payload: &[u8]) -> (result: Result<(BridgeRequest, Vec<u8>), BridgeError>)
    ensures
        match result {
            Ok((request, body)) => spec_decode_request(payload@) == Ok::<
                (BridgeRequestModel, Seq<u8>),
                BridgeError,
            >((request@, body@)),
            Err(error) => spec_decode_request(payload@) == Err::<
                (BridgeRequestModel, Seq<u8>),
                BridgeError,
            >(error),
        },
{
    let mut reader = BridgeByteReader::new(payload);
    let frame_type = read_frame_type(&mut reader, ExpectedFrame::Request)?;
    let request = read_request_front(&mut reader, frame_type == BRIDGE_REQUEST_FRAME_TYPE_TOKENIZED)?;
    let body = read_last_field(&mut reader)?;
    Ok((request, slice_to_vec(body)))
}

/// Decodes a request start frame.
pub fn decode_bridge_request_start(payload: &[u8]) -> (result: Result<BridgeRequest, BridgeError>)
    ensures
        match result {
            Ok(request) => spec_decode_request_start(payload@) == Ok::<
                BridgeRequestModel,
                BridgeError,
            >(request@),
            Err(error) => spec_decode_request_start(payload@) == Err::<
                BridgeRequestModel,
                BridgeError,
            >(error),
        },
{
    let mut reader = BridgeByteReader::new(payload);
    let frame_type = read_frame_type(&mut reader, ExpectedFrame::RequestStart)?;
    let request = read_request_front(
        &mut reader,
        frame_type == BRIDGE_REQUEST_START_FRAME_TYPE_TOKENIZED,
    )?;
    reader.ensure_done()?;
    Ok(request)
}

} // verus!
