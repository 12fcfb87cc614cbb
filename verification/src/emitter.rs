//! How a request goes out: in one frame when it has no body, and as a start
//! frame, chunk frames and an end frame when it has one.
//!
//! The emitter decides which frames are due; the caller pulls the body and
//! writes what the emitter hands back.

use vstd::prelude::*;
use vstd::slice::slice_subrange;
use crate::error::BridgeError;
use crate::limits::BRIDGE_BODY_CHUNK_BYTES;
use crate::limits::BRIDGE_REQUEST_CHUNK_FRAME_TYPE;
use crate::limits::BRIDGE_REQUEST_END_FRAME_TYPE;
use crate::limits::MAX_PROXY_BODY_BYTES;
use crate::request::BridgeRequestModel;
use crate::request::BridgeRequestRef;
use crate::request::encode_bridge_request;
use crate::request::encode_bridge_request_chunk_payload;
use crate::request::encode_bridge_request_end;
use crate::request::encode_bridge_request_legacy;
use crate::request::encode_bridge_request_start;
use crate::request::encode_bridge_request_start_legacy;
use crate::request::spec_bare_payload;
use crate::request::spec_chunk_payload;
use crate::request::spec_encode_request;
use crate::request::spec_encode_request_start;

verus! {

/// Why a request could not be sent.
#[derive(Clone, Copy, Debug, PartialEq, Eq, Structural)]
pub enum EmitError {
    /// A frame could not be encoded.
    Encode(BridgeError),
    /// The body grew past the body limit; holds the size it reached.
    BodyTooLarge(usize),
    /// The size of the body does not fit the machine word.
    BodyLengthOverflow,
}

/// The chunk frames that carry `chunk`: one for each slice of at most 64 KiB,
/// in order.
pub open spec fn spec_chunk_frames(chunk: Seq<u8>) -> Seq<Seq<u8>>
    decreases chunk.len(),
{
    if chunk.len() == 0 {
        Seq::empty()
    } else {
        let size = spec_slice_size(chunk.len());
        seq![spec_chunk_payload(BRIDGE_REQUEST_CHUNK_FRAME_TYPE, chunk.take(size))]
            + spec_chunk_frames(chunk.skip(size))
    }
}

/// Number of bytes that the next chunk frame takes when `left` are left.
pub open spec fn spec_slice_size(left: nat) -> int {
    if left < BRIDGE_BODY_CHUNK_BYTES {
        left as int
    } else {
        BRIDGE_BODY_CHUNK_BYTES as int
    }
}

/// The frames for a request without a body: one frame with the request and
/// an empty body, or, where the far end wants the body bracketed, a start
/// frame and an end frame.
pub open spec fn spec_empty_request_frames(
    request: BridgeRequestModel,
    bracket_empty: bool,
    tokenized: bool,
) -> Result<Seq<Seq<u8>>, EmitError> {
    if bracket_empty {
        match spec_encode_request_start(request, tokenized) {
            Ok(start) => Ok(seq![start, spec_bare_payload(BRIDGE_REQUEST_END_FRAME_TYPE)]),
            Err(error) => Err(EmitError::Encode(error)),
        }
    } else {
        match spec_encode_request(request, Seq::empty(), tokenized) {
            Ok(single) => Ok(seq![single]),
            Err(error) => Err(EmitError::Encode(error)),
        }
    }
}

/// Splits `chunk` into the chunk frames that carry it.
pub fn encode_body_chunk_frames(chunk: &[u8]) -> (frames: Vec<Vec<u8>>)
    ensures
        frames.deep_view() == spec_chunk_frames(chunk@),
{
    let mut frames: Vec<Vec<u8>> = Vec::new();
    let mut start: usize = 0;
    assert(frames.deep_view() =~= Seq::<Seq<u8>>::empty());
    assert(chunk@.skip(0) =~= chunk@);
    while start < chunk.len()
        invariant
            start <= chunk@.len(),
            frames.deep_view() + spec_chunk_frames(chunk@.skip(start as int)) == spec_chunk_frames(
                chunk@,
            ),
        decreases chunk@.len() - start,
    {
        let left = chunk.len() - start;
        let size = if left < BRIDGE_BODY_CHUNK_BYTES {
            left
        } else {
            BRIDGE_BODY_CHUNK_BYTES
        };
        let piece = slice_subrange(chunk, start, start + size);
        let encoded = encode_bridge_request_chunk_payload(piece);
        let ghost rest = chunk@.skip(start as int);
        let ghost before = frames.deep_view();
        proof {
            assert(rest.len() == left);
            assert(rest.take(size as int) =~= piece@);
            assert(rest.skip(size as int) =~= chunk@.skip(start + size));
        }
        match encoded {
            Ok(payload) => {
                assert(payload.deep_view() =~= payload@);
                let ghost earlier = frames@;
                frames.push(payload);
                proof {
                    let frame = spec_chunk_payload(BRIDGE_REQUEST_CHUNK_FRAME_TYPE, piece@);
                    assert forall|i: int| 0 <= i < before.len() implies frames.deep_view()[i]
                        == before[i] by {
                        assert(frames@[i] == earlier[i]);
                    }
                    assert(frames.deep_view()[before.len() as int] == frame);
                    assert(frames.deep_view() =~= before + seq![frame]);
                    assert((before + seq![frame]) + spec_chunk_frames(
                        chunk@.skip(start + size),
                    ) =~= before + (seq![frame] + spec_chunk_frames(chunk@.skip(start + size))));
                }
            },
            Err(_) => {
                // A slice of at most 64 KiB always fits a chunk frame.
                assert(false);
            },
        }
        start = start + size;
    }
    proof {
        assert(chunk@.skip(start as int).len() == 0);
        assert(frames.deep_view() + Seq::<Seq<u8>>::empty() =~= frames.deep_view());
    }
    frames
}

/// Where the sending of one request stands.
#[derive(Clone, Copy, Debug, PartialEq, Eq, Structural)]
pub struct RequestEmitter {
    /// Whether a body without bytes is bracketed by a start and an end frame.
    pub bracket_empty: bool,
    /// Whether header names go out as tokens.
    pub tokenized: bool,
    /// Whether a chunk with bytes was seen, so that the start frame is due or out.
    pub started: bool,
    /// Number of body bytes taken so far.
    pub total_body_bytes: usize,
}

/// What taking one chunk of the body does to an emitter: the emitter behind
/// it, and the frames that are due. A chunk without bytes changes nothing.
/// The first chunk with bytes brings the start frame in front of its chunk
/// frames. A chunk that takes the body past the body limit is refused.
pub open spec fn spec_emit_chunk(
    emitter: RequestEmitter,
    request: BridgeRequestModel,
    chunk: Seq<u8>,
) -> (RequestEmitter, Result<Seq<Seq<u8>>, EmitError>) {
    if chunk.len() == 0 {
        (emitter, Ok(Seq::empty()))
    } else {
        let seen = RequestEmitter { started: true, ..emitter };
        let start = if emitter.started {
            Ok(Seq::<Seq<u8>>::empty())
        } else {
            match spec_encode_request_start(request, emitter.tokenized) {
                Ok(payload) => Ok(seq![payload]),
                Err(error) => Err(EmitError::Encode(error)),
            }
        };
        match start {
            Err(error) => (seen, Err(error)),
            Ok(front) => if emitter.total_body_bytes + chunk.len() > usize::MAX {
                (seen, Err(EmitError::BodyLengthOverflow))
            } else if emitter.total_body_bytes + chunk.len() > MAX_PROXY_BODY_BYTES {
                (
                    seen,
                    Err(EmitError::BodyTooLarge((emitter.total_body_bytes + chunk.len()) as usize)),
                )
            } else {
                (
                    RequestEmitter {
                        total_body_bytes: (emitter.total_body_bytes + chunk.len()) as usize,
                        ..seen
                    },
                    Ok(front + spec_chunk_frames(chunk)),
                )
            },
        }
    }
}

/// The frames that are due when the body has ended: the end frame behind a
/// body that was started, and else the frames of a request without a body.
pub open spec fn spec_emit_end(emitter: RequestEmitter, request: BridgeRequestModel) -> Result<
    Seq<Seq<u8>>,
    EmitError,
> {
    if emitter.started {
        Ok(seq![spec_bare_payload(BRIDGE_REQUEST_END_FRAME_TYPE)])
    } else {
        spec_empty_request_frames(request, emitter.bracket_empty, emitter.tokenized)
    }
}

impl RequestEmitter {
    /// An emitter in front of a request of which nothing was sent.
    pub fn new(bracket_empty: bool, tokenized: bool) -> (emitter: Self)
        ensures
            emitter == (RequestEmitter {
                bracket_empty,
                tokenized,
                started: false,
                total_body_bytes: 0,
            }),
    {
        RequestEmitter { bracket_empty, tokenized, started: false, total_body_bytes: 0 }
    }

    /// Whether no body byte was taken yet. Only then may a failed exchange
    /// be tried again.
    pub fn request_body_empty(&self) -> (empty: bool)
        ensures
            empty == !self.started,
    {
        !self.started
    }

    /// Encodes the start frame in the form this emitter writes.
    fn encode_start(&self, request: &BridgeRequestRef<'_>) -> (result: Result<Vec<u8>, EmitError>)
        ensures
            match result {
                Ok(payload) => spec_encode_request_start(request@, self.tokenized) == Ok::<
                    Seq<u8>,
                    BridgeError,
                >(payload@),
                Err(error) => spec_encode_request_start(request@, self.tokenized) matches Err(
                    cause,
                ) && error == EmitError::Encode(cause),
            },
    {
        let encoded = if self.tokenized {
            encode_bridge_request_start(request)
        } else {
            encode_bridge_request_start_legacy(request)
        };
        match encoded {
            Ok(payload) => Ok(payload),
            Err(error) => Err(EmitError::Encode(error)),
        }
    }

    /// The frames of a request whose body is known to hold no byte, or has
    /// ended without one.
    pub fn emit_empty(&self, request: &BridgeRequestRef<'_>) -> (result: Result<
        Vec<Vec<u8>>,
        EmitError,
    >)
        ensures
            match result {
                Ok(frames) => spec_empty_request_frames(
                    request@,
                    self.bracket_empty,
                    self.tokenized,
                ) == Ok::<Seq<Seq<u8>>, EmitError>(frames.deep_view()),
                Err(error) => spec_empty_request_frames(
                    request@,
                    self.bracket_empty,
                    self.tokenized,
                ) == Err::<Seq<Seq<u8>>, EmitError>(error),
            },
    {
        let mut frames: Vec<Vec<u8>> = Vec::new();
        if self.bracket_empty {
            let start = self.encode_start(request)?;
            let end = encode_bridge_request_end();
            assert(start.deep_view() =~= start@);
            assert(end.deep_view() =~= end@);
            frames.push(start);
            frames.push(end);
            assert(frames.deep_view() =~= seq![
                start@,
                spec_bare_payload(BRIDGE_REQUEST_END_FRAME_TYPE),
            ]);
            return Ok(frames);
        }
        let empty: Vec<u8> = Vec::new();
        assert(empty@ =~= Seq::<u8>::empty());
        let encoded = if self.tokenized {
            encode_bridge_request(request, empty.as_slice())
        } else {
            encode_bridge_request_legacy(request, empty.as_slice())
        };
        match encoded {
            Ok(single) => {
                assert(single.deep_view() =~= single@);
                frames.push(single);
                assert(frames.deep_view() =~= seq![single@]);
                Ok(frames)
            },
            Err(error) => Err(EmitError::Encode(error)),
        }
    }

    /// Takes one chunk of the body and hands back the frames that are due.
    pub fn emit_chunk(&mut self, request: &BridgeRequestRef<'_>, chunk: &[u8]) -> (result: Result<
        Vec<Vec<u8>>,
        EmitError,
    >)
        ensures
            *final(self) == spec_emit_chunk(*old(self), request@, chunk@).0,
            match result {
                Ok(frames) => spec_emit_chunk(*old(self), request@, chunk@).1 == Ok::<
                    Seq<Seq<u8>>,
                    EmitError,
                >(frames.deep_view()),
                Err(error) => spec_emit_chunk(*old(self), request@, chunk@).1 == Err::<
                    Seq<Seq<u8>>,
                    EmitError,
                >(error),
            },
    {
        let mut frames: Vec<Vec<u8>> = Vec::new();
        assert(frames.deep_view() =~= Seq::<Seq<u8>>::empty());
        if chunk.len() == 0 {
            return Ok(frames);
        }
        let was_started = self.started;
        self.started = true;
        if !was_started {
            let start = self.encode_start(request)?;
            assert(start.deep_view() =~= start@);
            frames.push(start);
            assert(frames.deep_view() =~= seq![start@]);
        }
        if chunk.len() > usize::MAX - self.total_body_bytes {
            return Err(EmitError::BodyLengthOverflow);
        }
        let total = self.total_body_bytes + chunk.len();
        if total > MAX_PROXY_BODY_BYTES {
            return Err(EmitError::BodyTooLarge(total));
        }
        self.total_body_bytes = total;
        let ghost front = frames.deep_view();
        let mut pieces = encode_body_chunk_frames(chunk);
        let ghost tail = pieces.deep_view();
        let ghost head = frames@;
        let ghost rest = pieces@;
        frames.append(&mut pieces);
        proof {
            assert(frames@ =~= head + rest);
            assert forall|i: int| 0 <= i < frames@.len() implies frames.deep_view()[i] == (front
                + tail)[i] by {
                if i < head.len() {
                    assert(frames@[i] == head[i]);
                    assert(front[i] == head[i].deep_view());
                } else {
                    assert(frames@[i] == rest[i - head.len()]);
                    assert(tail[i - head.len()] == rest[i - head.len()].deep_view());
                }
            }
            assert(frames.deep_view() =~= front + tail);
        }
        Ok(frames)
    }

    /// Hands back the frames that are due now that the body has ended.
    pub fn emit_end(&self, request: &BridgeRequestRef<'_>) -> (result: Result<
        Vec<Vec<u8>>,
        EmitError,
    >)
        ensures
            match result {
                Ok(frames) => spec_emit_end(*self, request@) == Ok::<Seq<Seq<u8>>, EmitError>(
                    frames.deep_view(),
                ),
                Err(error) => spec_emit_end(*self, request@) == Err::<Seq<Seq<u8>>, EmitError>(
                    error,
                ),
            },
    {
        if self.started {
            let mut frames: Vec<Vec<u8>> = Vec::new();
            let end = encode_bridge_request_end();
            assert(end.deep_view() =~= end@);
            frames.push(end);
            assert(frames.deep_view() =~= seq![spec_bare_payload(BRIDGE_REQUEST_END_FRAME_TYPE)]);
            return Ok(frames);
        }
        self.emit_empty(request)
    }
}

} // verus!
