//! Errors of the bridge codec and of the framing layer.

use vstd::prelude::*;

verus! {

/// The frame a decoder was asked for, named in its frame type errors.
#[derive(Clone, Copy, Debug, PartialEq, Eq, Structural)]
pub enum ExpectedFrame {
    Request,
    RequestStart,
    RequestChunk,
    RequestEnd,
    Response,
    ResponseStart,
    ResponseChunk,
    ResponseEnd,
    TunnelChunk,
    TunnelClose,
}

/// What can go wrong while encoding, decoding or framing bridge payloads.
#[derive(Clone, Copy, Debug, PartialEq, Eq, Structural)]
pub enum BridgeError {
    /// A read ran past the end of the payload.
    TruncatedPayload,
    /// The payload goes on after the frame ended; holds the number of extra bytes.
    TrailingBytes(usize),
    /// The version byte is none this runtime accepts.
    UnsupportedVersion(u8),
    /// The frame type byte is not the one the decoder is for.
    InvalidFrameType { expected: ExpectedFrame, found: u8 },
    /// A tokenized header name used a token outside the table.
    InvalidHeaderNameToken(u16),
    /// A field that must hold text is not valid UTF-8.
    InvalidText,
    /// A length-prefixed field is too long for its 32-bit prefix.
    FieldTooLong,
    /// More headers than the 32-bit count can hold.
    TooManyHeaders,
    /// A chunk is too long for its 32-bit length.
    ChunkTooLong,
    /// The payload length of a frame does not fit the machine word.
    FrameLengthOverflow,
    /// The frame payload is larger than the frame limit; holds its length.
    FrameTooLarge(usize),
    /// The stream took no byte of a write that offered some.
    WriteZero,
    /// The stream ended inside the four bytes of a frame length.
    ClosedInFrameHeader,
    /// The stream ended inside a frame payload.
    ClosedInFramePayload,
}

} // verus!
