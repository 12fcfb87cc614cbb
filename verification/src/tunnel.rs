//! The tunnel behind a WebSocket upgrade: bytes of the upgraded client
//! connection go out in tunnel chunk frames, and tunnel chunk frames that
//! come back are written to the client as the bytes they carry.

use vstd::prelude::*;
use crate::emitter::spec_slice_size;
use crate::error::ExpectedFrame;
use crate::limits::BRIDGE_BODY_CHUNK_BYTES;
use crate::limits::BRIDGE_RESPONSE_END_FRAME_TYPE;
use crate::limits::BRIDGE_TUNNEL_CHUNK_FRAME_TYPE;
use crate::limits::BRIDGE_TUNNEL_CLOSE_FRAME_TYPE;
use crate::receiver::ReceiveError;
use crate::receiver::Transport;
use crate::request::encode_bridge_tunnel_chunk_payload;
use crate::request::encode_bridge_tunnel_close_payload;
use crate::request::spec_bare_payload;
use crate::request::spec_chunk_payload;
use crate::response::decode_bridge_response_end;
use crate::response::decode_bridge_tunnel_chunk;
use crate::response::decode_bridge_tunnel_close;
use crate::response::peek_bridge_frame_type;
use crate::response::spec_decode_bare;
use crate::response::spec_decode_chunk;
use crate::response::spec_peek_frame_type;
use crate::round_trip::lemma_bare_round_trip;
use crate::round_trip::lemma_chunk_round_trip;
use vstd::slice::slice_subrange;

verus! {

/// What to do with a frame that came back through the tunnel.
#[derive(Debug)]
pub enum TunnelAction {
    /// Write these bytes to the client.
    Forward { bytes: Vec<u8> },
    /// Nothing to write; wait for the next frame.
    Nothing,
    /// The far end closed the tunnel.
    Close,
}

/// A tunnel action as contracts see it.
pub enum TunnelActionModel {
    Forward { bytes: Seq<u8> },
    Nothing,
    Close,
}

impl View for TunnelAction {
    type V = TunnelActionModel;

    open spec fn view(&self) -> TunnelActionModel {
        match self {
            TunnelAction::Forward { bytes } => TunnelActionModel::Forward { bytes: bytes@ },
            TunnelAction::Nothing => TunnelActionModel::Nothing,
            TunnelAction::Close => TunnelActionModel::Close,
        }
    }
}

/// What a frame from the far end means to a tunnel. A tunnel chunk carries
/// bytes for the client, a tunnel close ends the tunnel. Over the callback a
/// response end may still arrive and is passed over. Any other frame is an
/// error.
pub open spec fn spec_tunnel_action(transport: Transport, payload: Seq<u8>) -> Result<
    TunnelActionModel,
    ReceiveError,
> {
    match spec_peek_frame_type(payload) {
        Err(error) => Err(ReceiveError::Decode(error)),
        Ok(frame_type) => if transport == Transport::Direct && frame_type
            == BRIDGE_RESPONSE_END_FRAME_TYPE {
            match spec_decode_bare(payload, ExpectedFrame::ResponseEnd) {
                Err(error) => Err(ReceiveError::Decode(error)),
                Ok(_) => Ok(TunnelActionModel::Nothing),
            }
        } else if frame_type == BRIDGE_TUNNEL_CHUNK_FRAME_TYPE {
            match spec_decode_chunk(payload, ExpectedFrame::TunnelChunk) {
                Err(error) => Err(ReceiveError::Decode(error)),
                Ok(bytes) => if bytes.len() == 0 {
                    Ok(TunnelActionModel::Nothing)
                } else {
                    Ok(TunnelActionModel::Forward { bytes })
                },
            }
        } else if frame_type == BRIDGE_TUNNEL_CLOSE_FRAME_TYPE {
            match spec_decode_bare(payload, ExpectedFrame::TunnelClose) {
                Err(error) => Err(ReceiveError::Decode(error)),
                Ok(_) => Ok(TunnelActionModel::Close),
            }
        } else {
            Err(ReceiveError::UnexpectedFrameType(frame_type))
        },
    }
}

/// Says what to do with a frame that came back through the tunnel.
pub fn tunnel_frame_action(transport: Transport, payload: &[u8]) -> (result: Result<
    TunnelAction,
    ReceiveError,
>)
    ensures
        match result {
            Ok(action) => spec_tunnel_action(transport, payload@) == Ok::<
                TunnelActionModel,
                ReceiveError,
            >(action@),
            Err(error) => spec_tunnel_action(transport, payload@) == Err::<
                TunnelActionModel,
                ReceiveError,
            >(error),
        },
{
    let frame_type = match peek_bridge_frame_type(payload) {
        Ok(frame_type) => frame_type,
        Err(error) => {
            return Err(ReceiveError::Decode(error));
        },
    };
    let direct = match transport {
        Transport::Direct => true,
        Transport::Socket => false,
    };
    if direct && frame_type == BRIDGE_RESPONSE_END_FRAME_TYPE {
        return match decode_bridge_response_end(payload) {
            Ok(_) => Ok(TunnelAction::Nothing),
            Err(error) => Err(ReceiveError::Decode(error)),
        };
    }
    if frame_type == BRIDGE_TUNNEL_CHUNK_FRAME_TYPE {
        return match decode_bridge_tunnel_chunk(payload) {
            Ok(bytes) => if bytes.len() == 0 {
                Ok(TunnelAction::Nothing)
            } else {
                Ok(TunnelAction::Forward { bytes })
            },
            Err(error) => Err(ReceiveError::Decode(error)),
        };
    }
    if frame_type == BRIDGE_TUNNEL_CLOSE_FRAME_TYPE {
        return match decode_bridge_tunnel_close(payload) {
            Ok(_) => Ok(TunnelAction::Close),
            Err(error) => Err(ReceiveError::Decode(error)),
        };
    }
    Err(ReceiveError::UnexpectedFrameType(frame_type))
}

/// The tunnel frames for what one read of the client connection brought: a
/// close frame when the client is gone, and else one chunk frame for each
/// slice of at most 64 KiB.
pub open spec fn spec_tunnel_frames(read: Seq<u8>) -> Seq<Seq<u8>>
    decreases read.len(),
{
    if read.len() == 0 {
        seq![spec_bare_payload(BRIDGE_TUNNEL_CLOSE_FRAME_TYPE)]
    } else {
        spec_tunnel_chunk_frames(read)
    }
}

/// The tunnel chunk frames that carry `bytes`, in order.
pub open spec fn spec_tunnel_chunk_frames(bytes: Seq<u8>) -> Seq<Seq<u8>>
    decreases bytes.len(),
{
    if bytes.len() == 0 {
        Seq::empty()
    } else {
        let size = spec_slice_size(bytes.len());
        seq![spec_chunk_payload(BRIDGE_TUNNEL_CHUNK_FRAME_TYPE, bytes.take(size))]
            + spec_tunnel_chunk_frames(bytes.skip(size))
    }
}

/// Encodes what one read of the client connection brought. The second part
/// of the result says whether the client is gone and the tunnel ends.
pub fn encode_tunnel_read(read: &[u8]) -> (result: (Vec<Vec<u8>>, bool))
    ensures
        result.0.deep_view() == spec_tunnel_frames(read@),
        result.1 == (read@.len() == 0),
{
    let mut frames: Vec<Vec<u8>> = Vec::new();
    if read.len() == 0 {
        let close = encode_bridge_tunnel_close_payload();
        assert(close.deep_view() =~= close@);
        frames.push(close);
        assert(frames.deep_view() =~= seq![spec_bare_payload(BRIDGE_TUNNEL_CLOSE_FRAME_TYPE)]);
        return (frames, true);
    }
    let mut start: usize = 0;
    assert(frames.deep_view() =~= Seq::<Seq<u8>>::empty());
    assert(read@.skip(0) =~= read@);
    while start < read.len()
        invariant
            start <= read@.len(),
            frames.deep_view() + spec_tunnel_chunk_frames(read@.skip(start as int))
                == spec_tunnel_chunk_frames(read@),
        decreases read@.len() - start,
    {
        let left = read.len() - start;
        let size = if left < BRIDGE_BODY_CHUNK_BYTES {
            left
        } else {
            BRIDGE_BODY_CHUNK_BYTES
        };
        let piece = slice_subrange(read, start, start + size);
        let ghost rest = read@.skip(start as int);
        let ghost before = frames.deep_view();
        let ghost earlier = frames@;
        proof {
            assert(rest.len() == left);
            assert(rest.take(size as int) =~= piece@);
            assert(rest.skip(size as int) =~= read@.skip(start + size));
        }
        match encode_bridge_tunnel_chunk_payload(piece) {
            Ok(payload) => {
                assert(payload.deep_view() =~= payload@);
                frames.push(payload);
                proof {
                    let frame = spec_chunk_payload(BRIDGE_TUNNEL_CHUNK_FRAME_TYPE, piece@);
                    assert forall|i: int| 0 <= i < before.len() implies frames.deep_view()[i]
                        == before[i] by {
                        assert(frames@[i] == earlier[i]);
                    }
                    assert(frames.deep_view()[before.len() as int] == frame);
                    assert(frames.deep_view() =~= before + seq![frame]);
                    assert((before + seq![frame]) + spec_tunnel_chunk_frames(
                        read@.skip(start + size),
                    ) =~= before + (seq![frame] + spec_tunnel_chunk_frames(
                        read@.skip(start + size),
                    )));
                }
            },
            Err(_) => {
                // A slice of at most 64 KiB always fits a chunk frame.
                assert(false);
            },
        }
        start = start + size;
    }
    proof {
        assert(read@.skip(start as int).len() == 0);
        assert(frames.deep_view() + Seq::<Seq<u8>>::empty() =~= frames.deep_view());
    }
    (frames, false)
}

/// Bytes that fit one tunnel chunk frame come out of the tunnel as they went
/// in: the frame that carries them is taken as an order to write exactly
/// them, and the close frame as the end of the tunnel.
pub proof fn lemma_tunnel_carries_bytes(transport: Transport, bytes: Seq<u8>)
    requires
        0 < bytes.len() <= u32::MAX,
    ensures
        spec_tunnel_action(
            transport,
            spec_chunk_payload(BRIDGE_TUNNEL_CHUNK_FRAME_TYPE, bytes),
        ) == Ok::<TunnelActionModel, ReceiveError>(TunnelActionModel::Forward { bytes }),
        spec_tunnel_action(transport, spec_bare_payload(BRIDGE_TUNNEL_CLOSE_FRAME_TYPE)) == Ok::<
            TunnelActionModel,
            ReceiveError,
        >(TunnelActionModel::Close),
{
    let chunk = spec_chunk_payload(BRIDGE_TUNNEL_CHUNK_FRAME_TYPE, bytes);
    let close = spec_bare_payload(BRIDGE_TUNNEL_CLOSE_FRAME_TYPE);
    lemma_chunk_round_trip(ExpectedFrame::TunnelChunk, BRIDGE_TUNNEL_CHUNK_FRAME_TYPE, bytes);
    lemma_bare_round_trip(ExpectedFrame::TunnelClose, BRIDGE_TUNNEL_CLOSE_FRAME_TYPE);
    assert(chunk[0] == crate::limits::BRIDGE_PROTOCOL_VERSION);
    assert(chunk[1] == BRIDGE_TUNNEL_CHUNK_FRAME_TYPE);
    assert(close[0] == crate::limits::BRIDGE_PROTOCOL_VERSION);
    assert(close[1] == BRIDGE_TUNNEL_CLOSE_FRAME_TYPE);
}

} // verus!
