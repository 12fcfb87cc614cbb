//! Encoders of the frames that go out over the bridge: requests in one frame,
//! request start, chunk and end, and the two tunnel frames.

use vstd::prelude::*;
use vstd::utf8::encode_utf8;
use crate::error::BridgeError;
use crate::header::HeaderField;
use crate::header::HeaderModel;
use crate::header::header_value_is_text;
use crate::header::spec_header_name_token;
use crate::header::spec_header_name_wire;
use crate::header::spec_header_value_is_text;
use crate::header::write_bridge_header_name;
use crate::limits::BRIDGE_PROTOCOL_VERSION;
use crate::limits::BRIDGE_REQUEST_CHUNK_FRAME_TYPE;
use crate::limits::BRIDGE_REQUEST_END_FRAME_TYPE;
use crate::limits::BRIDGE_REQUEST_FRAME_TYPE;
use crate::limits::BRIDGE_REQUEST_FRAME_TYPE_TOKENIZED;
use crate::limits::BRIDGE_REQUEST_START_FRAME_TYPE;
use crate::limits::BRIDGE_REQUEST_START_FRAME_TYPE_TOKENIZED;
use crate::limits::BRIDGE_TUNNEL_CHUNK_FRAME_TYPE;
use crate::limits::BRIDGE_TUNNEL_CLOSE_FRAME_TYPE;
use crate::wire::BridgeByteWriter;
use crate::wire::spec_bytes_field;
use crate::wire::spec_u32_be;

verus! {

/// A request as the encoders borrow it.
pub struct BridgeRequestRef<'a> {
    pub method: &'a str,
    pub scheme: &'a str,
    pub authority: &'a str,
    pub path: &'a str,
    pub query: &'a str,
    pub protocol: &'a str,
    pub headers: &'a [HeaderField],
}

/// A request as contracts see it.
pub struct BridgeRequestModel {
    pub method: Seq<char>,
    pub scheme: Seq<char>,
    pub authority: Seq<char>,
    pub path: Seq<char>,
    pub query: Seq<char>,
    pub protocol: Seq<char>,
    pub headers: Seq<HeaderModel>,
}

impl<'a> View for BridgeRequestRef<'a> {
    type V = BridgeRequestModel;

    open spec fn view(&self) -> BridgeRequestModel {
        BridgeRequestModel {
            method: self.method@,
            scheme: self.scheme@,
            authority: self.authority@,
            path: self.path@,
            query: self.query@,
            protocol: self.protocol@,
            headers: self.headers.deep_view(),
        }
    }
}

/// A text as it stands on the wire: its UTF-8 bytes as a field.
pub open spec fn spec_text_field(text: Seq<char>) -> Seq<u8> {
    spec_bytes_field(encode_utf8(text))
}

/// Whether the UTF-8 bytes of `text` fit a length-prefixed field.
pub open spec fn spec_text_fits(text: Seq<char>) -> bool {
    encode_utf8(text).len() <= u32::MAX
}

/// Whether each of the six texts in front of the headers fits its field.
pub open spec fn spec_request_head_fits(request: BridgeRequestModel) -> bool {
    &&& spec_text_fits(request.method)
    &&& spec_text_fits(request.scheme)
    &&& spec_text_fits(request.authority)
    &&& spec_text_fits(request.path)
    &&& spec_text_fits(request.query)
    &&& spec_text_fits(request.protocol)
}

/// The bytes of a request frame in front of its headers: version, frame type,
/// then method, scheme, authority, path, query and protocol.
#[verifier::opaque]
pub open spec fn spec_request_head(request: BridgeRequestModel, frame_type: u8) -> Seq<u8> {
    seq![BRIDGE_PROTOCOL_VERSION, frame_type] + spec_text_field(request.method) + spec_text_field(
        request.scheme,
    ) + spec_text_field(request.authority) + spec_text_field(request.path) + spec_text_field(
        request.query,
    ) + spec_text_field(request.protocol)
}

/// The headers of `headers` that are written: those whose value reads as text.
pub open spec fn spec_text_headers(headers: Seq<HeaderModel>) -> Seq<HeaderModel> {
    headers.filter(|header: HeaderModel| spec_header_value_is_text(header.1))
}

/// The bytes that stand for a header name: in a tokenized frame its token
/// form, in a literal one the name as a field.
pub open spec fn spec_header_name_wire_as(name: Seq<char>, tokenized: bool) -> Seq<u8> {
    if tokenized {
        spec_header_name_wire(name)
    } else {
        spec_text_field(name)
    }
}

/// Whether name and value of `header` can be written.
pub open spec fn spec_header_fits(header: HeaderModel, tokenized: bool) -> bool {
    &&& (tokenized && spec_header_name_token(header.0) is Some) || spec_text_fits(header.0)
    &&& header.1.len() <= u32::MAX
}

/// One header on the wire: its name, then its value as a field.
pub open spec fn spec_header_wire(header: HeaderModel, tokenized: bool) -> Seq<u8> {
    spec_header_name_wire_as(header.0, tokenized) + spec_bytes_field(header.1)
}

/// The headers of `headers` on the wire, one behind the other.
pub open spec fn spec_headers_wire(headers: Seq<HeaderModel>, tokenized: bool) -> Seq<u8>
    decreases headers.len(),
{
    if headers.len() == 0 {
        Seq::empty()
    } else {
        spec_header_wire(headers.first(), tokenized) + spec_headers_wire(
            headers.drop_first(),
            tokenized,
        )
    }
}

/// The header block of a request: the number of headers written, then the
/// headers. Headers whose value is no text are left out and not counted. The
/// block cannot be written when a header that is written does not fit, or
/// when more headers are written than 32 bits can count.
#[verifier::opaque]
pub open spec fn spec_encode_headers(headers: Seq<HeaderModel>, tokenized: bool) -> Result<
    Seq<u8>,
    BridgeError,
> {
    let kept = spec_text_headers(headers);
    if exists|j: int| 0 <= j < kept.len() && j < u32::MAX && !spec_header_fits(#[trigger] kept[j], tokenized) {
        Err(BridgeError::FieldTooLong)
    } else if kept.len() > u32::MAX {
        Err(BridgeError::TooManyHeaders)
    } else {
        Ok(spec_u32_be(kept.len() as u32) + spec_headers_wire(kept, tokenized))
    }
}

/// A request frame up to and with its headers.
pub open spec fn spec_encode_request_front(
    request: BridgeRequestModel,
    frame_type: u8,
    tokenized: bool,
) -> Result<Seq<u8>, BridgeError> {
    if !spec_request_head_fits(request) {
        Err(BridgeError::FieldTooLong)
    } else {
        match spec_encode_headers(request.headers, tokenized) {
            Ok(block) => Ok(spec_request_head(request, frame_type) + block),
            Err(error) => Err(error),
        }
    }
}

/// The frame type of a request start frame.
pub open spec fn spec_request_start_type(tokenized: bool) -> u8 {
    if tokenized {
        BRIDGE_REQUEST_START_FRAME_TYPE_TOKENIZED
    } else {
        BRIDGE_REQUEST_START_FRAME_TYPE
    }
}

/// The frame type of a request in one frame.
pub open spec fn spec_request_type(tokenized: bool) -> u8 {
    if tokenized {
        BRIDGE_REQUEST_FRAME_TYPE_TOKENIZED
    } else {
        BRIDGE_REQUEST_FRAME_TYPE
    }
}

/// The payload of the request start frame for `request`.
pub open spec fn spec_encode_request_start(request: BridgeRequestModel, tokenized: bool) -> Result<
    Seq<u8>,
    BridgeError,
> {
    spec_encode_request_front(request, spec_request_start_type(tokenized), tokenized)
}

/// The payload of the single frame that carries `request` and `body`.
pub open spec fn spec_encode_request(
    request: BridgeRequestModel,
    body: Seq<u8>,
    tokenized: bool,
) -> Result<Seq<u8>, BridgeError> {
    match spec_encode_request_front(request, spec_request_type(tokenized), tokenized) {
        Ok(front) => if body.len() <= u32::MAX {
            Ok(front + spec_bytes_field(body))
        } else {
            Err(BridgeError::FieldTooLong)
        },
        Err(error) => Err(error),
    }
}

/// The payload of a chunk frame of type `frame_type` that carries `chunk`.
pub open spec fn spec_chunk_payload(frame_type: u8, chunk: Seq<u8>) -> Seq<u8> {
    seq![BRIDGE_PROTOCOL_VERSION, frame_type] + spec_bytes_field(chunk)
}

/// The payload of a frame of type `frame_type` that carries nothing.
pub open spec fn spec_bare_payload(frame_type: u8) -> Seq<u8> {
    seq![BRIDGE_PROTOCOL_VERSION, frame_type]
}

/// Writing one more header behind a list appends its bytes.
pub proof fn lemma_headers_wire_push(headers: Seq<HeaderModel>, header: HeaderModel, tokenized: bool)
    ensures
        spec_headers_wire(headers.push(header), tokenized) == spec_headers_wire(headers, tokenized)
            + spec_header_wire(header, tokenized),
    decreases headers.len(),
{
    if headers.len() == 0 {
        assert(headers.push(header).drop_first() =~= Seq::<HeaderModel>::empty());
        assert(spec_headers_wire(Seq::<HeaderModel>::empty(), tokenized) =~= Seq::<u8>::empty());
        assert(headers =~= Seq::<HeaderModel>::empty());
        assert(spec_headers_wire(headers.push(header), tokenized) =~= spec_header_wire(
            header,
            tokenized,
        ));
        assert(spec_headers_wire(headers, tokenized) + spec_header_wire(header, tokenized)
            =~= spec_header_wire(header, tokenized));
    } else {
        assert(headers.push(header).drop_first() =~= headers.drop_first().push(header));
        lemma_headers_wire_push(headers.drop_first(), header, tokenized);
        assert(spec_headers_wire(headers.push(header), tokenized) =~= spec_headers_wire(
            headers,
            tokenized,
        ) + spec_header_wire(header, tokenized));
    }
}

/// Writes version, frame type and the six texts of a request.
fn encode_request_head(writer: &mut BridgeByteWriter, request: &BridgeRequestRef<'_>, frame_type: u8) -> (result:
    Result<(), BridgeError>)
    ensures
        spec_request_head_fits(request@) ==> result is Ok && final(writer)@ == old(writer)@
            + spec_request_head(request@, frame_type),
        !spec_request_head_fits(request@) ==> result == Err::<(), BridgeError>(
            BridgeError::FieldTooLong,
        ),
{
    reveal(spec_request_head);
    writer.put_u8(BRIDGE_PROTOCOL_VERSION);
    writer.put_u8(frame_type);
    writer.put_string(request.method)?;
    writer.put_string(request.scheme)?;
    writer.put_string(request.authority)?;
    writer.put_string(request.path)?;
    writer.put_string(request.query)?;
    writer.put_string(request.protocol)?;
    assert(writer@ =~= old(writer)@ + spec_request_head(request@, frame_type));
    Ok(())
}

/// Writes the name of a header in the form the frame asks for.
fn encode_header_name(writer: &mut BridgeByteWriter, name: &str, tokenized: bool) -> (result: Result<
    (),
    BridgeError,
>)
    ensures
        match result {
            Ok(_) => {
                &&& (tokenized && spec_header_name_token(name@) is Some) || spec_text_fits(name@)
                &&& final(writer)@ == old(writer)@ + spec_header_name_wire_as(name@, tokenized)
            },
            Err(error) => {
                &&& error == BridgeError::FieldTooLong
                &&& !((tokenized && spec_header_name_token(name@) is Some) || spec_text_fits(name@))
            },
        },
{
    if tokenized {
        write_bridge_header_name(writer, name)
    } else {
        writer.put_string(name)
    }
}

/// Writes the header block of `request`: count, then each header whose value
/// reads as text.
pub fn encode_request_header_block(
    writer: &mut BridgeByteWriter,
    request: &BridgeRequestRef<'_>,
    tokenized: bool,
) -> (result: Result<(), BridgeError>)
    ensures
        match result {
            Ok(_) => {
                &&& spec_encode_headers(request@.headers, tokenized) matches Ok(block)
                &&& final(writer)@ == old(writer)@ + block
            },
            Err(error) => spec_encode_headers(request@.headers, tokenized) == Err::<
                Seq<u8>,
                BridgeError,
            >(error),
        },
{
    let ghost base = writer@;
    let ghost all = request@.headers;
    reveal(spec_encode_headers);
    if request.headers.len() == 0 {
        writer.put_u32(0);
        proof {
            reveal(Seq::filter);
            assert(spec_text_headers(all) =~= Seq::<HeaderModel>::empty());
            assert(writer@ =~= base + (spec_u32_be(0) + spec_headers_wire(
                Seq::<HeaderModel>::empty(),
                tokenized,
            )));
        }
        return Ok(());
    }
    let count_pos = writer.reserve_u32();
    let mut count: u32 = 0;
    let mut index: usize = 0;
    proof {
        reveal(Seq::filter);
        assert(all.subrange(0, 0) =~= Seq::<HeaderModel>::empty());
        assert(writer@ =~= base + spec_u32_be(0) + spec_headers_wire(
            Seq::<HeaderModel>::empty(),
            tokenized,
        ));
    }
    while index < request.headers.len()
        invariant
            index <= request.headers.len(),
            all == request@.headers,
            all.len() == request.headers.len(),
            base == old(writer)@,
            count_pos == base.len(),
            count == spec_text_headers(all.subrange(0, index as int)).len(),
            forall|j: int|
                0 <= j < count ==> spec_header_fits(
                    #[trigger] spec_text_headers(all.subrange(0, index as int))[j],
                    tokenized,
                ),
            writer@ == base + spec_u32_be(0) + spec_headers_wire(
                spec_text_headers(all.subrange(0, index as int)),
                tokenized,
            ),
        decreases request.headers.len() - index,
    {
        let header = &request.headers[index];
        let ghost before = spec_text_headers(all.subrange(0, index as int));
        let ghost model: HeaderModel = (header.name@, header.value@);
        proof {
            reveal(Seq::filter);
            assert(all[index as int] == model);
            assert(all.subrange(0, index + 1).drop_last() =~= all.subrange(0, index as int));
            assert(all.subrange(0, index + 1).last() == model);
        }
        index += 1;
        if !header_value_is_text(header.value.as_slice()) {
            assert(spec_text_headers(all.subrange(0, index as int)) == before);
            continue;
        }
        let ghost after = before.push(model);
        assert(spec_text_headers(all.subrange(0, index as int)) == after);
        proof {
            lemma_text_headers_prefix(all, index as int);
        }
        if count == 4294967295 {
            proof {
                lemma_encode_headers_too_many(all, tokenized);
            }
            return Err(BridgeError::TooManyHeaders);
        }
        let named = encode_header_name(writer, header.name.as_str(), tokenized);
        if named.is_err() {
            proof {
                reveal(spec_encode_headers);
                assert(!spec_header_fits(spec_text_headers(all)[count as int], tokenized));
            }
            return named;
        }
        let valued = writer.put_bytes(header.value.as_slice());
        if valued.is_err() {
            proof {
                reveal(spec_encode_headers);
                assert(!spec_header_fits(spec_text_headers(all)[count as int], tokenized));
            }
            return valued;
        }
        count = count + 1;
        proof {
            lemma_headers_wire_push(before, model, tokenized);
            assert(writer@ =~= base + spec_u32_be(0) + spec_headers_wire(after, tokenized));
        }
    }
    proof {
        assert(all.subrange(0, index as int) =~= all);
    }
    writer.patch_u32(count_pos, count);
    proof {
        let kept = spec_text_headers(all);
        let block = spec_u32_be(count) + spec_headers_wire(kept, tokenized);
        assert(writer@ =~= base + block);
        reveal(spec_encode_headers);
    }
    Ok(())
}

/// The headers written out of the first `end` headers are the first of those
/// written out of all.
pub proof fn lemma_text_headers_prefix(all: Seq<HeaderModel>, end: int)
    requires
        0 <= end <= all.len(),
    ensures
        spec_text_headers(all.subrange(0, end)).len() <= spec_text_headers(all).len(),
        forall|j: int|
            0 <= j < spec_text_headers(all.subrange(0, end)).len() ==> spec_text_headers(
                all.subrange(0, end),
            )[j] == #[trigger] spec_text_headers(all)[j],
    decreases all.len() - end,
{
    reveal(Seq::filter);
    if end == all.len() {
        assert(all.subrange(0, end) =~= all);
    } else {
        lemma_text_headers_prefix(all, end + 1);
        assert(all.subrange(0, end + 1).drop_last() =~= all.subrange(0, end));
    }
}

/// A header list with more than 32 bits' worth of written headers, all of
/// the first ones fitting, cannot be counted.
proof fn lemma_encode_headers_too_many(all: Seq<HeaderModel>, tokenized: bool)
    requires
        spec_text_headers(all).len() > u32::MAX,
        forall|j: int|
            0 <= j < u32::MAX ==> spec_header_fits(#[trigger] spec_text_headers(all)[j], tokenized),
    ensures
        spec_encode_headers(all, tokenized) == Err::<Seq<u8>, BridgeError>(
            BridgeError::TooManyHeaders,
        ),
{
    reveal(spec_encode_headers);
}

/// Writes the header block of a tokenized request frame.
pub fn encode_bridge_request_headers(writer: &mut BridgeByteWriter, request: &BridgeRequestRef<'_>) -> (result:
    Result<(), BridgeError>)
    ensures
        match result {
            Ok(_) => {
                &&& spec_encode_headers(request@.headers, true) matches Ok(block)
                &&& final(writer)@ == old(writer)@ + block
            },
            Err(error) => spec_encode_headers(request@.headers, true) == Err::<Seq<u8>, BridgeError>(
                error,
            ),
        },
{
    encode_request_header_block(writer, request, true)
}

/// Writes a request frame up to and with its headers.
fn encode_request_front(request: &BridgeRequestRef<'_>, frame_type: u8, tokenized: bool) -> (result:
    Result<BridgeByteWriter, BridgeError>)
    ensures
        match result {
            Ok(writer) => spec_encode_request_front(request@, frame_type, tokenized) == Ok::<
                Seq<u8>,
                BridgeError,
            >(writer@),
            Err(error) => spec_encode_request_front(request@, frame_type, tokenized) == Err::<
                Seq<u8>,
                BridgeError,
            >(error),
        },
{
    let mut writer = BridgeByteWriter::new();
    let headed = encode_request_head(&mut writer, request, frame_type);
    if let Err(error) = headed {
        return Err(error);
    }
    let ghost head = writer@;
    assert(head == spec_request_head(request@, frame_type)) by {
        assert(Seq::<u8>::empty() + spec_request_head(request@, frame_type) =~= spec_request_head(
            request@,
            frame_type,
        ));
    }
    let blocked = encode_request_header_block(&mut writer, request, tokenized);
    if let Err(error) = blocked {
        return Err(error);
    }
    Ok(writer)
}

/// Writes the single frame that carries `request` and `body_bytes`.
fn encode_request_frame(request: &BridgeRequestRef<'_>, body_bytes: &[u8], tokenized: bool) -> (result:
    Result<Vec<u8>, BridgeError>)
    ensures
        match result {
            Ok(payload) => spec_encode_request(request@, body_bytes@, tokenized) == Ok::<
                Seq<u8>,
                BridgeError,
            >(payload@),
            Err(error) => spec_encode_request(request@, body_bytes@, tokenized) == Err::<
                Seq<u8>,
                BridgeError,
            >(error),
        },
{
    let frame_type = if tokenized {
        BRIDGE_REQUEST_FRAME_TYPE_TOKENIZED
    } else {
        BRIDGE_REQUEST_FRAME_TYPE
    };
    let mut writer = encode_request_front(request, frame_type, tokenized)?;
    writer.put_bytes(body_bytes)?;
    Ok(writer.into_inner())
}

/// Encodes the request start frame that announces a streamed body, with
/// tokenized header names.
pub fn encode_bridge_request_start(request: &BridgeRequestRef<'_>) -> (result: Result<
    Vec<u8>,
    BridgeError,
>)
    ensures
        match result {
            Ok(payload) => spec_encode_request_start(request@, true) == Ok::<Seq<u8>, BridgeError>(
                payload@,
            ),
            Err(error) => spec_encode_request_start(request@, true) == Err::<Seq<u8>, BridgeError>(
                error,
            ),
        },
{
    let writer = encode_request_front(request, BRIDGE_REQUEST_START_FRAME_TYPE_TOKENIZED, true)?;
    Ok(writer.into_inner())
}

/// Encodes a request and its whole body in one frame, with tokenized header names.
pub fn encode_bridge_request(request: &BridgeRequestRef<'_>, body_bytes: &[u8]) -> (result: Result<
    Vec<u8>,
    BridgeError,
>)
    ensures
        match result {
            Ok(payload) => spec_encode_request(request@, body_bytes@, true) == Ok::<
                Seq<u8>,
                BridgeError,
            >(payload@),
            Err(error) => spec_encode_request(request@, body_bytes@, true) == Err::<
                Seq<u8>,
                BridgeError,
            >(error),
        },
{
    encode_request_frame(request, body_bytes, true)
}

/// Encodes the request start frame with header names spelled out.
pub fn encode_bridge_request_start_legacy(request: &BridgeRequestRef<'_>) -> (result: Result<
    Vec<u8>,
    BridgeError,
>)
    ensures
        match result {
            Ok(payload) => spec_encode_request_start(request@, false) == Ok::<Seq<u8>, BridgeError>(
                payload@,
            ),
            Err(error) => spec_encode_request_start(request@, false) == Err::<Seq<u8>, BridgeError>(
                error,
            ),
        },
{
    let writer = encode_request_front(request, BRIDGE_REQUEST_START_FRAME_TYPE, false)?;
    Ok(writer.into_inner())
}

/// Encodes a request and its whole body in one frame with header names spelled out.
pub fn encode_bridge_request_legacy(request: &BridgeRequestRef<'_>, body_bytes: &[u8]) -> (result:
    Result<Vec<u8>, BridgeError>)
    ensures
        match result {
            Ok(payload) => spec_encode_request(request@, body_bytes@, false) == Ok::<
                Seq<u8>,
                BridgeError,
            >(payload@),
            Err(error) => spec_encode_request(request@, body_bytes@, false) == Err::<
                Seq<u8>,
                BridgeError,
            >(error),
        },
{
    encode_request_frame(request, body_bytes, false)
}

/// Encodes a chunk frame of type `frame_type` that carries `chunk`.
fn encode_chunk_payload(frame_type: u8, chunk: &[u8]) -> (result: Result<Vec<u8>, BridgeError>)
    ensures
        chunk@.len() <= u32::MAX ==> result is Ok && result->Ok_0@ == spec_chunk_payload(
            frame_type,
            chunk@,
        ),
        chunk@.len() > u32::MAX ==> result == Err::<Vec<u8>, BridgeError>(BridgeError::FieldTooLong),
{
    let mut writer = BridgeByteWriter::new();
    writer.put_u8(BRIDGE_PROTOCOL_VERSION);
    writer.put_u8(frame_type);
    writer.put_bytes(chunk)?;
    assert(writer@ =~= spec_chunk_payload(frame_type, chunk@));
    Ok(writer.into_inner())
}

/// Encodes the frame that carries one slice of a request body.
pub fn encode_bridge_request_chunk_payload(chunk: &[u8]) -> (result: Result<Vec<u8>, BridgeError>)
    ensures
        chunk@.len() <= u32::MAX ==> result is Ok && result->Ok_0@ == spec_chunk_payload(
            BRIDGE_REQUEST_CHUNK_FRAME_TYPE,
            chunk@,
        ),
        chunk@.len() > u32::MAX ==> result == Err::<Vec<u8>, BridgeError>(BridgeError::FieldTooLong),
{
    encode_chunk_payload(BRIDGE_REQUEST_CHUNK_FRAME_TYPE, chunk)
}

/// Encodes the frame that ends a streamed request body.
pub fn encode_bridge_request_end() -> (payload: Vec<u8>)
    ensures
        payload@ == spec_bare_payload(BRIDGE_REQUEST_END_FRAME_TYPE),
{
    let mut payload: Vec<u8> = Vec::new();
    payload.push(BRIDGE_PROTOCOL_VERSION);
    payload.push(BRIDGE_REQUEST_END_FRAME_TYPE);
    assert(payload@ =~= spec_bare_payload(BRIDGE_REQUEST_END_FRAME_TYPE));
    payload
}

/// Encodes the frame that carries bytes of an upgraded connection.
pub fn encode_bridge_tunnel_chunk_payload(chunk: &[u8]) -> (result: Result<Vec<u8>, BridgeError>)
    ensures
        chunk@.len() <= u32::MAX ==> result is Ok && result->Ok_0@ == spec_chunk_payload(
            BRIDGE_TUNNEL_CHUNK_FRAME_TYPE,
            chunk@,
        ),
        chunk@.len() > u32::MAX ==> result == Err::<Vec<u8>, BridgeError>(BridgeError::FieldTooLong),
{
    encode_chunk_payload(BRIDGE_TUNNEL_CHUNK_FRAME_TYPE, chunk)
}

/// Encodes the frame that closes a tunnel.
pub fn encode_bridge_tunnel_close_payload() -> (payload: Vec<u8>)
    ensures
        payload@ == spec_bare_payload(BRIDGE_TUNNEL_CLOSE_FRAME_TYPE),
{
    let mut payload: Vec<u8> = Vec::new();
    payload.push(BRIDGE_PROTOCOL_VERSION);
    payload.push(BRIDGE_TUNNEL_CLOSE_FRAME_TYPE);
    assert(payload@ =~= spec_bare_payload(BRIDGE_TUNNEL_CLOSE_FRAME_TYPE));
    payload
}

} // verus!
