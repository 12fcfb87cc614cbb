//! What holds of a body that is streamed: the bytes that come out are the
//! bytes that went in, in order, whatever the cut into chunks.

use vstd::prelude::*;
use crate::emitter::EmitError;
use crate::emitter::RequestEmitter;
use crate::emitter::spec_chunk_frames;
use crate::emitter::spec_emit_chunk;
use crate::emitter::spec_emit_end;
use crate::emitter::spec_empty_request_frames;
use crate::emitter::spec_slice_size;
use crate::error::BridgeError;
use crate::error::ExpectedFrame;
use crate::header::HeaderModel;
use crate::limits::BRIDGE_BODY_CHUNK_BYTES;
use crate::limits::BRIDGE_REQUEST_CHUNK_FRAME_TYPE;
use crate::limits::BRIDGE_RESPONSE_CHUNK_FRAME_TYPE;
use crate::limits::BRIDGE_TUNNEL_CHUNK_FRAME_TYPE;
use crate::limits::BRIDGE_RESPONSE_END_FRAME_TYPE;
use crate::limits::BRIDGE_REQUEST_END_FRAME_TYPE;
use crate::limits::HTTP_STATUS_SWITCHING_PROTOCOLS;
use crate::limits::MAX_PROXY_BODY_BYTES;
use crate::receiver::ConnectionFate;
use crate::receiver::HeadNext;
use crate::receiver::ReceiveError;
use crate::receiver::ResponseActionModel;
use crate::receiver::ResponsePhase;
use crate::receiver::ResponseReceiver;
use crate::receiver::Transport;
use crate::receiver::spec_receive;
use crate::request::BridgeRequestModel;
use crate::request::spec_bare_payload;
use crate::request::spec_chunk_payload;
use crate::request::spec_encode_request_start;
use crate::response::spec_decode_chunk;
use crate::response::spec_decode_response_start;
use crate::response::spec_frame_type_matches;
use crate::response::spec_peek_frame_type;
use crate::round_trip::lemma_bare_round_trip;
use crate::round_trip::lemma_chunk_round_trip;
use crate::tunnel::spec_tunnel_chunk_frames;

verus! {

/// The chunks one behind the other.
pub open spec fn spec_joined(chunks: Seq<Seq<u8>>) -> Seq<u8>
    decreases chunks.len(),
{
    if chunks.len() == 0 {
        Seq::empty()
    } else {
        spec_joined(chunks.drop_last()) + chunks.last()
    }
}

/// Number of bytes in all chunks.
pub open spec fn spec_joined_len(chunks: Seq<Seq<u8>>) -> nat
    decreases chunks.len(),
{
    if chunks.len() == 0 {
        0
    } else {
        spec_joined_len(chunks.drop_last()) + chunks.last().len()
    }
}

/// The response chunk frames that carry `chunks`, one frame for each chunk.
pub open spec fn spec_response_chunk_frames(chunks: Seq<Seq<u8>>) -> Seq<Seq<u8>> {
    Seq::new(chunks.len(), |i: int| spec_chunk_payload(BRIDGE_RESPONSE_CHUNK_FRAME_TYPE, chunks[i]))
}

/// What a receiver makes of `frames` taken in order: the receiver behind
/// them, and the body bytes that it passed on, or the error that stopped it.
pub open spec fn spec_receive_body(receiver: ResponseReceiver, frames: Seq<Seq<u8>>) -> (
    ResponseReceiver,
    Result<Seq<u8>, ReceiveError>,
)
    decreases frames.len(),
{
    if frames.len() == 0 {
        (receiver, Ok(Seq::empty()))
    } else {
        let (middle, collected) = spec_receive_body(receiver, frames.drop_last());
        match collected {
            Err(error) => (middle, Err(error)),
            Ok(bytes) => {
                let (after, action) = spec_receive(middle, frames.last());
                match action {
                    Err(error) => (after, Err(error)),
                    Ok(ResponseActionModel::Chunk { bytes: more }) => (after, Ok(bytes + more)),
                    Ok(_) => (after, Ok(bytes)),
                }
            },
        }
    }
}

/// A receiver behind a response start passes on, for any cut of a body into
/// chunks that keeps within the body limit, exactly the bytes of the body in
/// order, and then takes the end frame as the end of the response. This
/// holds as well where the first chunk decides that there is a body, as it
/// does over a socket.
pub proof fn lemma_streamed_response_body(receiver: ResponseReceiver, chunks: Seq<Seq<u8>>)
    requires
        receiver.phase == ResponsePhase::Streaming || receiver.phase == ResponsePhase::AwaitSecond,
        receiver.total_body_bytes + spec_joined_len(chunks) <= MAX_PROXY_BODY_BYTES,
    ensures
        spec_receive_body(receiver, spec_response_chunk_frames(chunks)) == (
            ResponseReceiver {
                phase: if chunks.len() > 0 {
                    ResponsePhase::Streaming
                } else {
                    receiver.phase
                },
                total_body_bytes: (receiver.total_body_bytes + spec_joined_len(chunks)) as usize,
                ..receiver
            },
            Ok::<Seq<u8>, ReceiveError>(spec_joined(chunks)),
        ),
        receiver.phase == ResponsePhase::Streaming || chunks.len() > 0 ==> spec_receive(
            spec_receive_body(receiver, spec_response_chunk_frames(chunks)).0,
            spec_bare_payload(BRIDGE_RESPONSE_END_FRAME_TYPE),
        ) == (
            ResponseReceiver {
                phase: ResponsePhase::Done,
                total_body_bytes: (receiver.total_body_bytes + spec_joined_len(chunks)) as usize,
                ..receiver
            },
            Ok::<ResponseActionModel, ReceiveError>(
                ResponseActionModel::End { fate: ConnectionFate::Release },
            ),
        ),
    decreases chunks.len(),
{
    let frames = spec_response_chunk_frames(chunks);
    let end = spec_bare_payload(BRIDGE_RESPONSE_END_FRAME_TYPE);
    lemma_bare_round_trip(ExpectedFrame::ResponseEnd, BRIDGE_RESPONSE_END_FRAME_TYPE);
    assert(spec_peek_frame_type(end) == Ok::<u8, BridgeError>(BRIDGE_RESPONSE_END_FRAME_TYPE)) by {
        assert(end[0] == crate::limits::BRIDGE_PROTOCOL_VERSION);
        assert(end[1] == BRIDGE_RESPONSE_END_FRAME_TYPE);
    }
    if chunks.len() == 0 {
        assert(frames =~= Seq::<Seq<u8>>::empty());
    } else {
        let earlier = chunks.drop_last();
        let last = chunks.last();
        lemma_streamed_response_body(receiver, earlier);
        assert(frames.drop_last() =~= spec_response_chunk_frames(earlier));
        let payload = spec_chunk_payload(BRIDGE_RESPONSE_CHUNK_FRAME_TYPE, last);
        assert(frames.last() == payload);
        lemma_chunk_round_trip(ExpectedFrame::ResponseChunk, BRIDGE_RESPONSE_CHUNK_FRAME_TYPE, last);
        assert(spec_peek_frame_type(payload) == Ok::<u8, BridgeError>(
            BRIDGE_RESPONSE_CHUNK_FRAME_TYPE,
        )) by {
            assert(payload[0] == crate::limits::BRIDGE_PROTOCOL_VERSION);
            assert(payload[1] == BRIDGE_RESPONSE_CHUNK_FRAME_TYPE);
        }
        if last.len() == 0 {
            assert(spec_joined(earlier) + last =~= spec_joined(earlier));
        }
    }
}

/// A response start with status 101 followed by a response end, in answer to
/// a request that asked for an upgrade, gives status 101 with an empty body
/// and leaves the connection to the tunnel.
pub proof fn lemma_upgrade_detaches_connection(
    start: Seq<u8>,
    headers: Seq<HeaderModel>,
)
    requires
        spec_decode_response_start(start) == Ok::<(u16, Seq<HeaderModel>), BridgeError>(
            (HTTP_STATUS_SWITCHING_PROTOCOLS, headers),
        ),
    ensures
        ({
            let fresh = ResponseReceiver {
                phase: ResponsePhase::AwaitFirst,
                transport: Transport::Socket,
                upgrade_requested: true,
                status: 0,
                total_body_bytes: 0,
            };
            let (started, first) = spec_receive(fresh, start);
            let (ended, second) = spec_receive(
                started,
                spec_bare_payload(BRIDGE_RESPONSE_END_FRAME_TYPE),
            );
            &&& first == Ok::<ResponseActionModel, ReceiveError>(
                ResponseActionModel::Head {
                    status: HTTP_STATUS_SWITCHING_PROTOCOLS,
                    headers,
                    next: HeadNext::ReadNextFrame,
                },
            )
            &&& second == Ok::<ResponseActionModel, ReceiveError>(
                ResponseActionModel::EmptyBody { fate: ConnectionFate::Tunnel },
            )
            &&& ended.phase == ResponsePhase::Done
        }),
{
    let end = spec_bare_payload(BRIDGE_RESPONSE_END_FRAME_TYPE);
    lemma_bare_round_trip(ExpectedFrame::ResponseEnd, BRIDGE_RESPONSE_END_FRAME_TYPE);
    assert(end[0] == crate::limits::BRIDGE_PROTOCOL_VERSION);
    assert(end[1] == BRIDGE_RESPONSE_END_FRAME_TYPE);
    assert(spec_peek_frame_type(start) == Ok::<u8, BridgeError>(start[1]));
    assert(spec_frame_type_matches(ExpectedFrame::ResponseStart, start[1]));
    assert(!spec_frame_type_matches(ExpectedFrame::Response, start[1]));
}

/// The request chunk frames that carry `chunks`: the chunk frames of each
/// chunk, in order.
pub open spec fn spec_request_chunk_frames(chunks: Seq<Seq<u8>>) -> Seq<Seq<u8>>
    decreases chunks.len(),
{
    if chunks.len() == 0 {
        Seq::empty()
    } else {
        spec_request_chunk_frames(chunks.drop_last()) + spec_chunk_frames(chunks.last())
    }
}

/// What an emitter hands out for `chunks` taken in order: the emitter behind
/// them, and all frames that were due, or the error that stopped it.
pub open spec fn spec_emit_body(
    emitter: RequestEmitter,
    request: BridgeRequestModel,
    chunks: Seq<Seq<u8>>,
) -> (RequestEmitter, Result<Seq<Seq<u8>>, EmitError>)
    decreases chunks.len(),
{
    if chunks.len() == 0 {
        (emitter, Ok(Seq::empty()))
    } else {
        let (middle, collected) = spec_emit_body(emitter, request, chunks.drop_last());
        match collected {
            Err(error) => (middle, Err(error)),
            Ok(frames) => {
                let (after, due) = spec_emit_chunk(middle, request, chunks.last());
                match due {
                    Err(error) => (after, Err(error)),
                    Ok(more) => (after, Ok(frames + more)),
                }
            },
        }
    }
}

/// All frames of a request whose body arrives as `chunks` and then ends.
pub open spec fn spec_emit_request(
    emitter: RequestEmitter,
    request: BridgeRequestModel,
    chunks: Seq<Seq<u8>>,
) -> Result<Seq<Seq<u8>>, EmitError> {
    let (after, collected) = spec_emit_body(emitter, request, chunks);
    match collected {
        Err(error) => Err(error),
        Ok(frames) => match spec_emit_end(after, request) {
            Err(error) => Err(error),
            Ok(last) => Ok(frames + last),
        },
    }
}

/// Chunks without bytes bring no chunk frames.
pub proof fn lemma_no_bytes_no_chunk_frames(chunks: Seq<Seq<u8>>)
    requires
        spec_joined_len(chunks) == 0,
    ensures
        spec_request_chunk_frames(chunks) == Seq::<Seq<u8>>::empty(),
    decreases chunks.len(),
{
    if chunks.len() > 0 {
        lemma_no_bytes_no_chunk_frames(chunks.drop_last());
        assert(chunks.last().len() == 0);
        assert(spec_chunk_frames(chunks.last()) =~= Seq::<Seq<u8>>::empty());
        assert(spec_request_chunk_frames(chunks) =~= Seq::<Seq<u8>>::empty());
    }
}

/// What an emitter hands out for a body within the body limit: the start
/// frame once, in front of the first chunk frame, and then every chunk frame.
pub proof fn lemma_emit_body(
    emitter: RequestEmitter,
    request: BridgeRequestModel,
    chunks: Seq<Seq<u8>>,
)
    requires
        spec_encode_request_start(request, emitter.tokenized) is Ok,
        emitter.total_body_bytes + spec_joined_len(chunks) <= MAX_PROXY_BODY_BYTES,
    ensures
        spec_emit_body(emitter, request, chunks) == (
            RequestEmitter {
                started: emitter.started || spec_joined_len(chunks) > 0,
                total_body_bytes: (emitter.total_body_bytes + spec_joined_len(chunks)) as usize,
                ..emitter
            },
            Ok::<Seq<Seq<u8>>, EmitError>(
                (if !emitter.started && spec_joined_len(chunks) > 0 {
                    seq![spec_encode_request_start(request, emitter.tokenized)->Ok_0]
                } else {
                    Seq::<Seq<u8>>::empty()
                }) + spec_request_chunk_frames(chunks),
            ),
        ),
    decreases chunks.len(),
{
    let start = spec_encode_request_start(request, emitter.tokenized)->Ok_0;
    let none = Seq::<Seq<u8>>::empty();
    if chunks.len() == 0 {
        assert(none + spec_request_chunk_frames(chunks) =~= none);
    } else {
        let earlier = chunks.drop_last();
        let last = chunks.last();
        lemma_emit_body(emitter, request, earlier);
        let front = if !emitter.started && spec_joined_len(earlier) > 0 {
            seq![start]
        } else {
            none
        };
        let so_far = front + spec_request_chunk_frames(earlier);
        if last.len() == 0 {
            assert(spec_chunk_frames(last) =~= none);
            assert(so_far + none =~= so_far);
            assert(spec_request_chunk_frames(chunks) =~= spec_request_chunk_frames(earlier));
        } else if emitter.started || spec_joined_len(earlier) > 0 {
            assert(so_far + (none + spec_chunk_frames(last)) =~= front + (
                spec_request_chunk_frames(earlier) + spec_chunk_frames(last)));
        } else {
            lemma_no_bytes_no_chunk_frames(earlier);
            assert(so_far + (seq![start] + spec_chunk_frames(last)) =~= seq![start] + (
                spec_request_chunk_frames(earlier) + spec_chunk_frames(last)));
        }
    }
}

/// A request whose body holds no byte goes out in the form of a request
/// without a body, however many empty chunks the body came in.
pub proof fn lemma_empty_body_form(
    emitter: RequestEmitter,
    request: BridgeRequestModel,
    chunks: Seq<Seq<u8>>,
)
    requires
        !emitter.started,
        spec_joined_len(chunks) == 0,
    ensures
        spec_emit_request(emitter, request, chunks) == spec_empty_request_frames(
            request,
            emitter.bracket_empty,
            emitter.tokenized,
        ),
        !emitter.bracket_empty && spec_emit_request(emitter, request, chunks) is Ok
            ==> spec_emit_request(emitter, request, chunks)->Ok_0.len() == 1,
    decreases chunks.len(),
{
    lemma_no_chunk_changes_nothing(emitter, request, chunks);
    match spec_empty_request_frames(request, emitter.bracket_empty, emitter.tokenized) {
        Ok(frames) => {
            assert(Seq::<Seq<u8>>::empty() + frames =~= frames);
        },
        Err(_) => {},
    }
}

/// Chunks without bytes leave an emitter as it is and bring no frame.
pub proof fn lemma_no_chunk_changes_nothing(
    emitter: RequestEmitter,
    request: BridgeRequestModel,
    chunks: Seq<Seq<u8>>,
)
    requires
        spec_joined_len(chunks) == 0,
    ensures
        spec_emit_body(emitter, request, chunks) == (
            emitter,
            Ok::<Seq<Seq<u8>>, EmitError>(Seq::empty()),
        ),
    decreases chunks.len(),
{
    if chunks.len() > 0 {
        lemma_no_chunk_changes_nothing(emitter, request, chunks.drop_last());
        assert(chunks.last().len() == 0);
        assert(Seq::<Seq<u8>>::empty() + Seq::<Seq<u8>>::empty() =~= Seq::<Seq<u8>>::empty());
    }
}

/// A request whose body holds bytes goes out as the start frame, the chunk
/// frames of every chunk in order, and the end frame, and as nothing else.
pub proof fn lemma_streamed_body_form(
    emitter: RequestEmitter,
    request: BridgeRequestModel,
    chunks: Seq<Seq<u8>>,
)
    requires
        !emitter.started,
        emitter.total_body_bytes == 0,
        spec_joined_len(chunks) > 0,
        spec_joined_len(chunks) <= MAX_PROXY_BODY_BYTES,
        spec_encode_request_start(request, emitter.tokenized) is Ok,
    ensures
        spec_emit_request(emitter, request, chunks) == Ok::<Seq<Seq<u8>>, EmitError>(
            seq![spec_encode_request_start(request, emitter.tokenized)->Ok_0]
                + spec_request_chunk_frames(chunks) + seq![
                spec_bare_payload(BRIDGE_REQUEST_END_FRAME_TYPE),
            ],
        ),
{
    lemma_emit_body(emitter, request, chunks);
}

/// The bytes that the far end reads out of chunk frames of kind `expected`:
/// what each frame carries, in the order of the frames.
pub open spec fn spec_carried(frames: Seq<Seq<u8>>, expected: ExpectedFrame) -> Result<
    Seq<u8>,
    BridgeError,
>
    decreases frames.len(),
{
    if frames.len() == 0 {
        Ok(Seq::empty())
    } else {
        match spec_decode_chunk(frames.first(), expected) {
            Err(error) => Err(error),
            Ok(bytes) => match spec_carried(frames.drop_first(), expected) {
                Err(error) => Err(error),
                Ok(rest) => Ok(bytes + rest),
            },
        }
    }
}

/// The chunk frames of a part of a request body carry exactly that part,
/// and none of them more than 64 KiB.
pub proof fn lemma_chunk_frames_carry(chunk: Seq<u8>)
    ensures
        spec_carried(spec_chunk_frames(chunk), ExpectedFrame::RequestChunk) == Ok::<
            Seq<u8>,
            BridgeError,
        >(chunk),
        forall|i: int|
            0 <= i < spec_chunk_frames(chunk).len() ==> 6 < (#[trigger] spec_chunk_frames(
                chunk,
            )[i]).len() <= 6 + BRIDGE_BODY_CHUNK_BYTES,
    decreases chunk.len(),
{
    let frames = spec_chunk_frames(chunk);
    if chunk.len() == 0 {
        assert(chunk =~= Seq::<u8>::empty());
    } else {
        let size = spec_slice_size(chunk.len());
        let head = spec_chunk_payload(BRIDGE_REQUEST_CHUNK_FRAME_TYPE, chunk.take(size));
        let rest = spec_chunk_frames(chunk.skip(size));
        lemma_chunk_frames_carry(chunk.skip(size));
        lemma_chunk_round_trip(
            ExpectedFrame::RequestChunk,
            BRIDGE_REQUEST_CHUNK_FRAME_TYPE,
            chunk.take(size),
        );
        assert(frames == seq![head] + rest);
        assert(frames.first() == head);
        assert(frames.drop_first() =~= rest);
        assert(chunk.take(size) + chunk.skip(size) =~= chunk);
        assert(head.len() == 6 + size);
        assert forall|i: int| 0 <= i < frames.len() implies 6 < (#[trigger] frames[i]).len() <= 6
            + BRIDGE_BODY_CHUNK_BYTES by {
            if i > 0 {
                assert(frames[i] == rest[i - 1]);
            }
        }
    }
}

/// The tunnel chunk frames of what a client wrote carry exactly those
/// bytes, in order.
pub proof fn lemma_tunnel_frames_carry(bytes: Seq<u8>)
    ensures
        spec_carried(spec_tunnel_chunk_frames(bytes), ExpectedFrame::TunnelChunk) == Ok::<
            Seq<u8>,
            BridgeError,
        >(bytes),
    decreases bytes.len(),
{
    let frames = spec_tunnel_chunk_frames(bytes);
    if bytes.len() == 0 {
        assert(bytes =~= Seq::<u8>::empty());
    } else {
        let size = spec_slice_size(bytes.len());
        let head = spec_chunk_payload(BRIDGE_TUNNEL_CHUNK_FRAME_TYPE, bytes.take(size));
        let rest = spec_tunnel_chunk_frames(bytes.skip(size));
        lemma_tunnel_frames_carry(bytes.skip(size));
        lemma_chunk_round_trip(
            ExpectedFrame::TunnelChunk,
            BRIDGE_TUNNEL_CHUNK_FRAME_TYPE,
            bytes.take(size),
        );
        assert(frames == seq![head] + rest);
        assert(frames.first() == head);
        assert(frames.drop_first() =~= rest);
        assert(bytes.take(size) + bytes.skip(size) =~= bytes);
    }
}

/// The body limit holds in both directions alike: the chunk that takes a
/// body past it is refused by the emitter of a request and by the receiver
/// of a response, each with the size that the body would have reached.
pub proof fn lemma_body_limit_both_ways(
    emitter: RequestEmitter,
    request: BridgeRequestModel,
    receiver: ResponseReceiver,
    sent: Seq<u8>,
    received: Seq<u8>,
)
    requires
        emitter.started || spec_encode_request_start(request, emitter.tokenized) is Ok,
        0 < sent.len(),
        MAX_PROXY_BODY_BYTES < emitter.total_body_bytes + sent.len() <= usize::MAX,
        receiver.phase == ResponsePhase::Streaming || receiver.phase == ResponsePhase::AwaitSecond,
        0 < received.len() <= u32::MAX,
        MAX_PROXY_BODY_BYTES < receiver.total_body_bytes + received.len() <= usize::MAX,
    ensures
        spec_emit_chunk(emitter, request, sent).1 == Err::<Seq<Seq<u8>>, EmitError>(
            EmitError::BodyTooLarge((emitter.total_body_bytes + sent.len()) as usize),
        ),
        spec_receive(
            receiver,
            spec_chunk_payload(BRIDGE_RESPONSE_CHUNK_FRAME_TYPE, received),
        ).1 == Err::<ResponseActionModel, ReceiveError>(
            ReceiveError::BodyTooLarge((receiver.total_body_bytes + received.len()) as usize),
        ),
{
    let frame = spec_chunk_payload(BRIDGE_RESPONSE_CHUNK_FRAME_TYPE, received);
    lemma_chunk_round_trip(
        ExpectedFrame::ResponseChunk,
        BRIDGE_RESPONSE_CHUNK_FRAME_TYPE,
        received,
    );
    assert(frame[0] == crate::limits::BRIDGE_PROTOCOL_VERSION);
    assert(frame[1] == BRIDGE_RESPONSE_CHUNK_FRAME_TYPE);
}

} // verus!
