//! How a response comes back: in one frame, or as a start frame, chunk frames
//! and an end frame. The receiver is told each frame as it arrives and says
//! what to do with it; the caller reads the frames and acts.

use vstd::prelude::*;
use crate::error::BridgeError;
use crate::error::ExpectedFrame;
use crate::header::HeaderField;
use crate::header::HeaderModel;
use crate::limits::BRIDGE_RESPONSE_CHUNK_FRAME_TYPE;
use crate::limits::BRIDGE_RESPONSE_END_FRAME_TYPE;
use crate::limits::HTTP_STATUS_SWITCHING_PROTOCOLS;
use crate::limits::MAX_PROXY_BODY_BYTES;
use crate::response::decode_bridge_response;
use crate::response::decode_bridge_response_chunk;
use crate::response::decode_bridge_response_end;
use crate::response::decode_bridge_response_start;
use crate::response::is_bridge_response_frame_type;
use crate::response::is_bridge_response_start_frame_type;
use crate::response::peek_bridge_frame_type;
use crate::response::spec_decode_bare;
use crate::response::spec_decode_chunk;
use crate::response::spec_decode_response;
use crate::response::spec_decode_response_start;
use crate::response::spec_frame_type_matches;
use crate::response::spec_peek_frame_type;

verus! {

/// What carries the frames of an exchange.
#[derive(Clone, Copy, Debug, PartialEq, Eq, Structural)]
pub enum Transport {
    /// A pooled byte stream to the runtime.
    Socket,
    /// A callback into the runtime, with responses pushed back by request id.
    Direct,
}

/// What becomes of the carrier once the response is in.
#[derive(Clone, Copy, Debug, PartialEq, Eq, Structural)]
pub enum ConnectionFate {
    /// The exchange is over: the connection goes back to the pool, the
    /// pending request leaves the registry.
    Release,
    /// The carrier stays with the upgraded connection as its tunnel.
    Tunnel,
}

/// How far the reception of one response has come.
#[derive(Clone, Copy, Debug, PartialEq, Eq, Structural)]
pub enum ResponsePhase {
    AwaitFirst,
    AwaitSecond,
    Streaming,
    Done,
    Failed,
}

/// Why a response could not be received.
#[derive(Clone, Copy, Debug, PartialEq, Eq, Structural)]
pub enum ReceiveError {
    /// A frame could not be decoded.
    Decode(BridgeError),
    /// The first frame is neither a response nor a response start.
    InvalidFirstFrameType(u8),
    /// A later frame is neither a response chunk nor a response end.
    UnexpectedFrameType(u8),
    /// The body grew past the body limit; holds the size it reached.
    BodyTooLarge(usize),
    /// The size of the body does not fit the machine word.
    BodyLengthOverflow,
    /// The carrier closed before the first frame.
    ClosedWithoutResponse,
    /// The carrier closed inside a streamed response.
    ClosedBeforeResponseEnd,
    /// An upgrade was answered in one frame over the callback, which has no
    /// connection to hand over.
    SingleFrameUpgrade,
    /// No frame came within the time allowed for one frame.
    TimedOut,
    /// A frame came after the response was over.
    AlreadyFinished,
}

/// What follows a response start frame.
#[derive(Clone, Copy, Debug, PartialEq, Eq, Structural)]
pub enum HeadNext {
    /// The next frame decides whether there is a body; nothing is answered yet.
    ReadNextFrame,
    /// The response is answered now and its body streamed as chunks arrive.
    StreamBody,
    /// The response is answered now with an empty body, and the tunnel starts.
    Tunnel,
}

/// What to do with a frame that arrived.
#[derive(Debug)]
pub enum ResponseAction {
    /// The whole response is known.
    Complete { status: u16, headers: Vec<HeaderField>, body: Vec<u8>, fate: ConnectionFate },
    /// Status and headers are known.
    Head { status: u16, headers: Vec<HeaderField>, next: HeadNext },
    /// The response that was started has no body.
    EmptyBody { fate: ConnectionFate },
    /// These bytes are the next part of the body.
    Chunk { bytes: Vec<u8> },
    /// The frame carried no bytes; there is nothing to pass on.
    Skip,
    /// The body is complete.
    End { fate: ConnectionFate },
}

/// An action as contracts see it.
pub enum ResponseActionModel {
    Complete { status: u16, headers: Seq<HeaderModel>, body: Seq<u8>, fate: ConnectionFate },
    Head { status: u16, headers: Seq<HeaderModel>, next: HeadNext },
    EmptyBody { fate: ConnectionFate },
    Chunk { bytes: Seq<u8> },
    Skip,
    End { fate: ConnectionFate },
}

impl View for ResponseAction {
    type V = ResponseActionModel;

    open spec fn view(&self) -> ResponseActionModel {
        match self {
            ResponseAction::Complete { status, headers, body, fate } => ResponseActionModel::Complete {
                status: *status,
                headers: headers.deep_view(),
                body: body@,
                fate: *fate,
            },
            ResponseAction::Head { status, headers, next } => ResponseActionModel::Head {
                status: *status,
                headers: headers.deep_view(),
                next: *next,
            },
            ResponseAction::EmptyBody { fate } => ResponseActionModel::EmptyBody { fate: *fate },
            ResponseAction::Chunk { bytes } => ResponseActionModel::Chunk { bytes: bytes@ },
            ResponseAction::Skip => ResponseActionModel::Skip,
            ResponseAction::End { fate } => ResponseActionModel::End { fate: *fate },
        }
    }
}

/// Where the reception of one response stands.
#[derive(Clone, Copy, Debug, PartialEq, Eq, Structural)]
pub struct ResponseReceiver {
    pub phase: ResponsePhase,
    pub transport: Transport,
    /// Whether the request asked for a WebSocket upgrade.
    pub upgrade_requested: bool,
    /// Status of the response that was started, once it is known.
    pub status: u16,
    /// Number of body bytes received in chunk frames.
    pub total_body_bytes: usize,
}

/// Whether a response with `status` switches the connection to a tunnel.
pub open spec fn spec_is_upgrade(upgrade_requested: bool, status: u16) -> bool {
    upgrade_requested && status == HTTP_STATUS_SWITCHING_PROTOCOLS
}

/// What becomes of the carrier behind a response with `status`.
pub open spec fn spec_fate(upgrade_requested: bool, status: u16) -> ConnectionFate {
    if spec_is_upgrade(upgrade_requested, status) {
        ConnectionFate::Tunnel
    } else {
        ConnectionFate::Release
    }
}

/// The receiver once it has failed.
pub open spec fn spec_failed(receiver: ResponseReceiver) -> ResponseReceiver {
    ResponseReceiver { phase: ResponsePhase::Failed, ..receiver }
}

/// What the first frame of a response does.
pub open spec fn spec_receive_first(receiver: ResponseReceiver, payload: Seq<u8>) -> (
    ResponseReceiver,
    Result<ResponseActionModel, ReceiveError>,
) {
    match spec_peek_frame_type(payload) {
        Err(error) => (spec_failed(receiver), Err(ReceiveError::Decode(error))),
        Ok(frame_type) => if spec_frame_type_matches(ExpectedFrame::Response, frame_type) {
            match spec_decode_response(payload) {
                Err(error) => (spec_failed(receiver), Err(ReceiveError::Decode(error))),
                Ok(response) => if spec_is_upgrade(receiver.upgrade_requested, response.status) {
                    if receiver.transport == Transport::Direct {
                        (spec_failed(receiver), Err(ReceiveError::SingleFrameUpgrade))
                    } else {
                        (
                            ResponseReceiver {
                                phase: ResponsePhase::Done,
                                status: response.status,
                                ..receiver
                            },
                            Ok(
                                ResponseActionModel::Complete {
                                    status: response.status,
                                    headers: response.headers,
                                    body: Seq::empty(),
                                    fate: ConnectionFate::Tunnel,
                                },
                            ),
                        )
                    }
                } else {
                    (
                        ResponseReceiver {
                            phase: ResponsePhase::Done,
                            status: response.status,
                            ..receiver
                        },
                        Ok(
                            ResponseActionModel::Complete {
                                status: response.status,
                                headers: response.headers,
                                body: response.body,
                                fate: ConnectionFate::Release,
                            },
                        ),
                    )
                },
            }
        } else if spec_frame_type_matches(ExpectedFrame::ResponseStart, frame_type) {
            match spec_decode_response_start(payload) {
                Err(error) => (spec_failed(receiver), Err(ReceiveError::Decode(error))),
                Ok((status, headers)) => {
                    let next = if receiver.transport == Transport::Socket {
                        HeadNext::ReadNextFrame
                    } else if spec_is_upgrade(receiver.upgrade_requested, status) {
                        HeadNext::Tunnel
                    } else {
                        HeadNext::StreamBody
                    };
                    let phase = match next {
                        HeadNext::ReadNextFrame => ResponsePhase::AwaitSecond,
                        HeadNext::StreamBody => ResponsePhase::Streaming,
                        HeadNext::Tunnel => ResponsePhase::Done,
                    };
                    (
                        ResponseReceiver { phase, status, ..receiver },
                        Ok(ResponseActionModel::Head { status, headers, next }),
                    )
                },
            }
        } else {
            (spec_failed(receiver), Err(ReceiveError::InvalidFirstFrameType(frame_type)))
        },
    }
}

/// What a chunk of `chunk` bytes does to a receiver that takes body bytes.
pub open spec fn spec_receive_chunk(receiver: ResponseReceiver, chunk: Seq<u8>) -> (
    ResponseReceiver,
    Result<ResponseActionModel, ReceiveError>,
) {
    let streaming = ResponseReceiver { phase: ResponsePhase::Streaming, ..receiver };
    if chunk.len() == 0 {
        (streaming, Ok(ResponseActionModel::Skip))
    } else if receiver.total_body_bytes + chunk.len() > usize::MAX {
        (spec_failed(receiver), Err(ReceiveError::BodyLengthOverflow))
    } else if receiver.total_body_bytes + chunk.len() > MAX_PROXY_BODY_BYTES {
        (
            spec_failed(receiver),
            Err(ReceiveError::BodyTooLarge((receiver.total_body_bytes + chunk.len()) as usize)),
        )
    } else {
        (
            ResponseReceiver {
                total_body_bytes: (receiver.total_body_bytes + chunk.len()) as usize,
                ..streaming
            },
            Ok(ResponseActionModel::Chunk { bytes: chunk }),
        )
    }
}

/// What a frame behind the response start does: a chunk brings body bytes,
/// an end closes the response, anything else fails it.
pub open spec fn spec_receive_later(receiver: ResponseReceiver, payload: Seq<u8>) -> (
    ResponseReceiver,
    Result<ResponseActionModel, ReceiveError>,
) {
    match spec_peek_frame_type(payload) {
        Err(error) => (spec_failed(receiver), Err(ReceiveError::Decode(error))),
        Ok(frame_type) => if frame_type == BRIDGE_RESPONSE_CHUNK_FRAME_TYPE {
            match spec_decode_chunk(payload, ExpectedFrame::ResponseChunk) {
                Err(error) => (spec_failed(receiver), Err(ReceiveError::Decode(error))),
                Ok(chunk) => spec_receive_chunk(receiver, chunk),
            }
        } else if frame_type == BRIDGE_RESPONSE_END_FRAME_TYPE {
            match spec_decode_bare(payload, ExpectedFrame::ResponseEnd) {
                Err(error) => (spec_failed(receiver), Err(ReceiveError::Decode(error))),
                Ok(_) => (
                    ResponseReceiver { phase: ResponsePhase::Done, ..receiver },
                    Ok(
                        if receiver.phase == ResponsePhase::AwaitSecond {
                            ResponseActionModel::EmptyBody {
                                fate: spec_fate(receiver.upgrade_requested, receiver.status),
                            }
                        } else {
                            ResponseActionModel::End { fate: ConnectionFate::Release }
                        },
                    ),
                ),
            }
        } else {
            (spec_failed(receiver), Err(ReceiveError::UnexpectedFrameType(frame_type)))
        },
    }
}

/// What a frame does to a receiver: the receiver behind it, and the action
/// that is due or the error that ends the reception.
pub open spec fn spec_receive(receiver: ResponseReceiver, payload: Seq<u8>) -> (
    ResponseReceiver,
    Result<ResponseActionModel, ReceiveError>,
) {
    match receiver.phase {
        ResponsePhase::AwaitFirst => spec_receive_first(receiver, payload),
        ResponsePhase::AwaitSecond => spec_receive_later(receiver, payload),
        ResponsePhase::Streaming => spec_receive_later(receiver, payload),
        _ => (spec_failed(receiver), Err(ReceiveError::AlreadyFinished)),
    }
}

impl ResponseReceiver {
    /// A receiver in front of the first frame of a response.
    pub fn new(transport: Transport, upgrade_requested: bool) -> (receiver: Self)
        ensures
            receiver == (ResponseReceiver {
                phase: ResponsePhase::AwaitFirst,
                transport,
                upgrade_requested,
                status: 0,
                total_body_bytes: 0,
            }),
    {
        ResponseReceiver {
            phase: ResponsePhase::AwaitFirst,
            transport,
            upgrade_requested,
            status: 0,
            total_body_bytes: 0,
        }
    }

    /// What becomes of the carrier behind a response with `status`.
    fn fate(&self, status: u16) -> (fate: ConnectionFate)
        ensures
            fate == spec_fate(self.upgrade_requested, status),
    {
        if self.upgrade_requested && status == HTTP_STATUS_SWITCHING_PROTOCOLS {
            ConnectionFate::Tunnel
        } else {
            ConnectionFate::Release
        }
    }

    /// Takes the first frame of a response.
    fn receive_first(&mut self, payload: &[u8]) -> (result: Result<ResponseAction, ReceiveError>)
        ensures
            *final(self) == spec_receive_first(*old(self), payload@).0,
            match result {
                Ok(action) => spec_receive_first(*old(self), payload@).1 == Ok::<
                    ResponseActionModel,
                    ReceiveError,
                >(action@),
                Err(error) => spec_receive_first(*old(self), payload@).1 == Err::<
                    ResponseActionModel,
                    ReceiveError,
                >(error),
            },
    {
        let frame_type = match peek_bridge_frame_type(payload) {
            Ok(frame_type) => frame_type,
            Err(error) => {
                self.phase = ResponsePhase::Failed;
                return Err(ReceiveError::Decode(error));
            },
        };
        if is_bridge_response_frame_type(frame_type) {
            let response = match decode_bridge_response(payload) {
                Ok(response) => response,
                Err(error) => {
                    self.phase = ResponsePhase::Failed;
                    return Err(ReceiveError::Decode(error));
                },
            };
            if self.upgrade_requested && response.status == HTTP_STATUS_SWITCHING_PROTOCOLS {
                match self.transport {
                    Transport::Direct => {
                        self.phase = ResponsePhase::Failed;
                        return Err(ReceiveError::SingleFrameUpgrade);
                    },
                    Transport::Socket => {
                        self.phase = ResponsePhase::Done;
                        self.status = response.status;
                        let body: Vec<u8> = Vec::new();
                        assert(body@ =~= Seq::<u8>::empty());
                        return Ok(
                            ResponseAction::Complete {
                                status: response.status,
                                headers: response.headers,
                                body,
                                fate: ConnectionFate::Tunnel,
                            },
                        );
                    },
                }
            }
            self.phase = ResponsePhase::Done;
            self.status = response.status;
            return Ok(
                ResponseAction::Complete {
                    status: response.status,
                    headers: response.headers,
                    body: response.body_bytes,
                    fate: ConnectionFate::Release,
                },
            );
        }
        if !is_bridge_response_start_frame_type(frame_type) {
            self.phase = ResponsePhase::Failed;
            return Err(ReceiveError::InvalidFirstFrameType(frame_type));
        }
        let (status, headers) = match decode_bridge_response_start(payload) {
            Ok(head) => head,
            Err(error) => {
                self.phase = ResponsePhase::Failed;
                return Err(ReceiveError::Decode(error));
            },
        };
        self.status = status;
        let next = match self.transport {
            Transport::Socket => HeadNext::ReadNextFrame,
            Transport::Direct => if self.upgrade_requested && status
                == HTTP_STATUS_SWITCHING_PROTOCOLS {
                HeadNext::Tunnel
            } else {
                HeadNext::StreamBody
            },
        };
        self.phase = match next {
            HeadNext::ReadNextFrame => ResponsePhase::AwaitSecond,
            HeadNext::StreamBody => ResponsePhase::Streaming,
            HeadNext::Tunnel => ResponsePhase::Done,
        };
        Ok(ResponseAction::Head { status, headers, next })
    }

    /// Takes a frame behind the response start.
    fn receive_later(&mut self, payload: &[u8]) -> (result: Result<ResponseAction, ReceiveError>)
        ensures
            *final(self) == spec_receive_later(*old(self), payload@).0,
            match result {
                Ok(action) => spec_receive_later(*old(self), payload@).1 == Ok::<
                    ResponseActionModel,
                    ReceiveError,
                >(action@),
                Err(error) => spec_receive_later(*old(self), payload@).1 == Err::<
                    ResponseActionModel,
                    ReceiveError,
                >(error),
            },
    {
        let frame_type = match peek_bridge_frame_type(payload) {
            Ok(frame_type) => frame_type,
            Err(error) => {
                self.phase = ResponsePhase::Failed;
                return Err(ReceiveError::Decode(error));
            },
        };
        if frame_type == BRIDGE_RESPONSE_CHUNK_FRAME_TYPE {
            let chunk = match decode_bridge_response_chunk(payload) {
                Ok(chunk) => chunk,
                Err(error) => {
                    self.phase = ResponsePhase::Failed;
                    return Err(ReceiveError::Decode(error));
                },
            };
            if chunk.len() == 0 {
                self.phase = ResponsePhase::Streaming;
                return Ok(ResponseAction::Skip);
            }
            if chunk.len() > usize::MAX - self.total_body_bytes {
                self.phase = ResponsePhase::Failed;
                return Err(ReceiveError::BodyLengthOverflow);
            }
            let total = self.total_body_bytes + chunk.len();
            if total > MAX_PROXY_BODY_BYTES {
                self.phase = ResponsePhase::Failed;
                return Err(ReceiveError::BodyTooLarge(total));
            }
            self.total_body_bytes = total;
            self.phase = ResponsePhase::Streaming;
            return Ok(ResponseAction::Chunk { bytes: chunk });
        }
        if frame_type == BRIDGE_RESPONSE_END_FRAME_TYPE {
            match decode_bridge_response_end(payload) {
                Ok(_) => {},
                Err(error) => {
                    self.phase = ResponsePhase::Failed;
                    return Err(ReceiveError::Decode(error));
                },
            }
            let first_body_frame = match self.phase {
                ResponsePhase::AwaitSecond => true,
                _ => false,
            };
            self.phase = ResponsePhase::Done;
            if first_body_frame {
                return Ok(ResponseAction::EmptyBody { fate: self.fate(self.status) });
            }
            return Ok(ResponseAction::End { fate: ConnectionFate::Release });
        }
        self.phase = ResponsePhase::Failed;
        Err(ReceiveError::UnexpectedFrameType(frame_type))
    }

    /// Takes the frame that arrived and says what to do with it.
    pub fn on_frame(&mut self, payload: &[u8]) -> (result: Result<ResponseAction, ReceiveError>)
        ensures
            *final(self) == spec_receive(*old(self), payload@).0,
            match result {
                Ok(action) => spec_receive(*old(self), payload@).1 == Ok::<
                    ResponseActionModel,
                    ReceiveError,
                >(action@),
                Err(error) => spec_receive(*old(self), payload@).1 == Err::<
                    ResponseActionModel,
                    ReceiveError,
                >(error),
            },
    {
        match self.phase {
            ResponsePhase::AwaitFirst => self.receive_first(payload),
            ResponsePhase::AwaitSecond => self.receive_later(payload),
            ResponsePhase::Streaming => self.receive_later(payload),
            _ => {
                self.phase = ResponsePhase::Failed;
                Err(ReceiveError::AlreadyFinished)
            },
        }
    }

    /// Takes note that the carrier closed where a frame was due.
    pub fn on_closed(&mut self) -> (error: ReceiveError)
        ensures
            *final(self) == spec_failed(*old(self)),
            error == if old(self).phase == ResponsePhase::AwaitFirst {
                ReceiveError::ClosedWithoutResponse
            } else {
                ReceiveError::ClosedBeforeResponseEnd
            },
    {
        let error = match self.phase {
            ResponsePhase::AwaitFirst => ReceiveError::ClosedWithoutResponse,
            _ => ReceiveError::ClosedBeforeResponseEnd,
        };
        self.phase = ResponsePhase::Failed;
        error
    }

    /// Takes note that no frame came within the time allowed for one frame.
    pub fn on_timeout(&mut self) -> (error: ReceiveError)
        ensures
            *final(self) == spec_failed(*old(self)),
            error == ReceiveError::TimedOut,
    {
        self.phase = ResponsePhase::Failed;
        ReceiveError::TimedOut
    }
}

} // verus!
