//! Hard limits and wire constants of the bridge protocol.

use vstd::prelude::*;

verus! {

/// Largest request or response body carried by one exchange (32 MiB).
pub const MAX_PROXY_BODY_BYTES: usize = 33554432;

/// Largest frame payload accepted on the bridge (64 MiB).
pub const MAX_BRIDGE_FRAME_BYTES: usize = 67108864;

/// Largest body slice carried by one chunk frame (64 KiB).
pub const BRIDGE_BODY_CHUNK_BYTES: usize = 65536;

/// Frames up to this size are copied into one buffer and written at once (4 KiB).
pub const BRIDGE_COALESCE_WRITE_THRESHOLD_BYTES: usize = 4096;

/// Capacity given to a fresh connection read buffer (8 KiB).
pub const BRIDGE_READ_BUFFER_BYTES: usize = 8192;

/// Number of idle connections the embedder lets a pool keep.
pub const BRIDGE_POOL_MAX_IDLE: usize = 256;

/// Seconds to wait for each frame from the direct callback.
pub const DIRECT_REQUEST_TIMEOUT_SECS: u64 = 30;

/// Protocol version written on every frame.
pub const BRIDGE_PROTOCOL_VERSION: u8 = 1;

/// Earlier protocol version that is still accepted; today the same value.
pub const BRIDGE_PROTOCOL_VERSION_LEGACY: u8 = 1;

pub const BRIDGE_REQUEST_FRAME_TYPE: u8 = 1;

pub const BRIDGE_RESPONSE_FRAME_TYPE: u8 = 2;

pub const BRIDGE_REQUEST_START_FRAME_TYPE: u8 = 3;

pub const BRIDGE_REQUEST_CHUNK_FRAME_TYPE: u8 = 4;

pub const BRIDGE_REQUEST_END_FRAME_TYPE: u8 = 5;

pub const BRIDGE_RESPONSE_START_FRAME_TYPE: u8 = 6;

pub const BRIDGE_RESPONSE_CHUNK_FRAME_TYPE: u8 = 7;

pub const BRIDGE_RESPONSE_END_FRAME_TYPE: u8 = 8;

pub const BRIDGE_TUNNEL_CHUNK_FRAME_TYPE: u8 = 9;

pub const BRIDGE_TUNNEL_CLOSE_FRAME_TYPE: u8 = 10;

pub const BRIDGE_REQUEST_FRAME_TYPE_TOKENIZED: u8 = 11;

pub const BRIDGE_RESPONSE_FRAME_TYPE_TOKENIZED: u8 = 12;

pub const BRIDGE_REQUEST_START_FRAME_TYPE_TOKENIZED: u8 = 13;

pub const BRIDGE_RESPONSE_START_FRAME_TYPE_TOKENIZED: u8 = 14;

/// Token that announces a header name spelled out in full.
pub const BRIDGE_HEADER_NAME_LITERAL_TOKEN: u16 = 65535;

/// Number of header names that have a token of their own.
pub const BRIDGE_HEADER_NAME_TOKEN_COUNT: u16 = 29;

/// HTTP status sent when the bridge fails or answers with an unusable status.
pub const HTTP_STATUS_BAD_GATEWAY: u16 = 502;

/// HTTP status that switches a connection to another protocol.
pub const HTTP_STATUS_SWITCHING_PROTOCOLS: u16 = 101;

} // verus!
