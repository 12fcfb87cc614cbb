//! One exchange as a whole: which failures it may answer with a second
//! attempt, and what a response with status 101 needs before a tunnel starts.

use vstd::prelude::*;
use crate::emitter::EmitError;
use crate::error::BridgeError;
use crate::limits::HTTP_STATUS_SWITCHING_PROTOCOLS;
use crate::receiver::ReceiveError;
use crate::receiver::Transport;

verus! {

/// Why an exchange failed.
#[derive(Clone, Copy, Debug, PartialEq, Eq, Structural)]
pub enum ExchangeError {
    /// No connection to the runtime could be made.
    ConnectFailed,
    /// The stream failed while frames were written.
    WriteFailed,
    /// The stream failed while a frame was read.
    ReadFailed,
    /// The request body could not be read from the client.
    RequestBodyFailed,
    /// The request could not be put into frames.
    Emit(EmitError),
    /// A frame could not be written or read as a frame.
    Frame(BridgeError),
    /// The response could not be received.
    Receive(ReceiveError),
    /// The response switched protocols, but the client connection cannot be taken over.
    MissingUpgradeHandle,
    /// The response switched protocols, but the bridge kept its connection.
    MissingTunnelSocket,
    /// The callback was handed a payload for a request that is not pending.
    UnknownRequest(u64),
}

/// The kinds of failure that the recovery policy tells apart.
#[derive(Clone, Copy, Debug, PartialEq, Eq, Structural)]
pub enum FailureKind {
    /// A frame or a sequence of frames broke the protocol.
    Protocol,
    /// A connection could not be made, or ended or failed in use.
    Transport,
    /// A frame, a body or a header list is larger than allowed.
    Resource,
    /// The far end let the time for one frame pass.
    Timeout,
    /// The client side of the exchange is at fault or gone.
    Client,
}

/// The kind of a failure of the framing layer.
pub open spec fn spec_frame_failure_kind(error: BridgeError) -> FailureKind {
    match error {
        BridgeError::FrameTooLarge(_) => FailureKind::Resource,
        BridgeError::FieldTooLong => FailureKind::Resource,
        BridgeError::TooManyHeaders => FailureKind::Resource,
        BridgeError::ChunkTooLong => FailureKind::Resource,
        BridgeError::FrameLengthOverflow => FailureKind::Resource,
        BridgeError::WriteZero => FailureKind::Transport,
        BridgeError::ClosedInFrameHeader => FailureKind::Transport,
        BridgeError::ClosedInFramePayload => FailureKind::Transport,
        _ => FailureKind::Protocol,
    }
}

/// The kind of a failure of an exchange.
pub open spec fn spec_failure_kind(error: ExchangeError) -> FailureKind {
    match error {
        ExchangeError::ConnectFailed => FailureKind::Transport,
        ExchangeError::WriteFailed => FailureKind::Transport,
        ExchangeError::ReadFailed => FailureKind::Transport,
        ExchangeError::RequestBodyFailed => FailureKind::Client,
        ExchangeError::Emit(EmitError::Encode(cause)) => spec_frame_failure_kind(cause),
        ExchangeError::Emit(_) => FailureKind::Resource,
        ExchangeError::Frame(cause) => spec_frame_failure_kind(cause),
        ExchangeError::Receive(ReceiveError::Decode(cause)) => spec_frame_failure_kind(cause),
        ExchangeError::Receive(ReceiveError::BodyTooLarge(_)) => FailureKind::Resource,
        ExchangeError::Receive(ReceiveError::BodyLengthOverflow) => FailureKind::Resource,
        ExchangeError::Receive(ReceiveError::ClosedWithoutResponse) => FailureKind::Transport,
        ExchangeError::Receive(ReceiveError::ClosedBeforeResponseEnd) => FailureKind::Transport,
        ExchangeError::Receive(ReceiveError::TimedOut) => FailureKind::Timeout,
        ExchangeError::Receive(_) => FailureKind::Protocol,
        ExchangeError::MissingUpgradeHandle => FailureKind::Client,
        ExchangeError::MissingTunnelSocket => FailureKind::Protocol,
        ExchangeError::UnknownRequest(_) => FailureKind::Client,
    }
}

/// Says of which kind a failure of the framing layer is.
pub fn frame_failure_kind(error: BridgeError) -> (kind: FailureKind)
    ensures
        kind == spec_frame_failure_kind(error),
{
    match error {
        BridgeError::FrameTooLarge(_) => FailureKind::Resource,
        BridgeError::FieldTooLong => FailureKind::Resource,
        BridgeError::TooManyHeaders => FailureKind::Resource,
        BridgeError::ChunkTooLong => FailureKind::Resource,
        BridgeError::FrameLengthOverflow => FailureKind::Resource,
        BridgeError::WriteZero => FailureKind::Transport,
        BridgeError::ClosedInFrameHeader => FailureKind::Transport,
        BridgeError::ClosedInFramePayload => FailureKind::Transport,
        _ => FailureKind::Protocol,
    }
}

/// Says of which kind a failure of an exchange is.
pub fn failure_kind(error: ExchangeError) -> (kind: FailureKind)
    ensures
        kind == spec_failure_kind(error),
{
    match error {
        ExchangeError::ConnectFailed => FailureKind::Transport,
        ExchangeError::WriteFailed => FailureKind::Transport,
        ExchangeError::ReadFailed => FailureKind::Transport,
        ExchangeError::RequestBodyFailed => FailureKind::Client,
        ExchangeError::Emit(EmitError::Encode(cause)) => frame_failure_kind(cause),
        ExchangeError::Emit(_) => FailureKind::Resource,
        ExchangeError::Frame(cause) => frame_failure_kind(cause),
        ExchangeError::Receive(ReceiveError::Decode(cause)) => frame_failure_kind(cause),
        ExchangeError::Receive(ReceiveError::BodyTooLarge(_)) => FailureKind::Resource,
        ExchangeError::Receive(ReceiveError::BodyLengthOverflow) => FailureKind::Resource,
        ExchangeError::Receive(ReceiveError::ClosedWithoutResponse) => FailureKind::Transport,
        ExchangeError::Receive(ReceiveError::ClosedBeforeResponseEnd) => FailureKind::Transport,
        ExchangeError::Receive(ReceiveError::TimedOut) => FailureKind::Timeout,
        ExchangeError::Receive(_) => FailureKind::Protocol,
        ExchangeError::MissingUpgradeHandle => FailureKind::Client,
        ExchangeError::MissingTunnelSocket => FailureKind::Protocol,
        ExchangeError::UnknownRequest(_) => FailureKind::Client,
    }
}

/// How far an exchange had come when it failed.
#[derive(Clone, Copy, Debug, PartialEq, Eq, Structural)]
pub struct ExchangeProgress {
    pub transport: Transport,
    /// Whether this attempt is already the second one.
    pub retried: bool,
    /// Whether no byte of the request body was taken yet.
    pub request_body_empty: bool,
    /// Whether the client was already given status and headers.
    pub response_started: bool,
}

/// Whether a failed exchange is tried once more. It is when it ran over a
/// pooled connection for the first time, no byte of the request body was
/// taken, the client has seen nothing of a response, and the failure is one
/// of the transport or of the protocol, as a connection that the far end
/// closed between two uses brings about.
pub open spec fn spec_should_retry(progress: ExchangeProgress, error: ExchangeError) -> bool {
    &&& progress.transport == Transport::Socket
    &&& !progress.retried
    &&& progress.request_body_empty
    &&& !progress.response_started
    &&& (spec_failure_kind(error) == FailureKind::Transport || spec_failure_kind(error)
        == FailureKind::Protocol)
}

/// Decides whether a failed exchange is tried once more, on a fresh
/// connection and with the request in its form without a body.
pub fn should_retry_with_empty_body(progress: ExchangeProgress, error: ExchangeError) -> (retry: bool)
    ensures
        retry == spec_should_retry(progress, error),
        retry ==> progress.request_body_empty && !progress.retried,
{
    let over_socket = match progress.transport {
        Transport::Socket => true,
        Transport::Direct => false,
    };
    let recoverable = match failure_kind(error) {
        FailureKind::Transport => true,
        FailureKind::Protocol => true,
        _ => false,
    };
    over_socket && !progress.retried && progress.request_body_empty && !progress.response_started
        && recoverable
}

/// What the serving side does about an upgrade once the response is in.
#[derive(Clone, Copy, Debug, PartialEq, Eq, Structural)]
pub enum UpgradeDecision {
    /// The response is an ordinary one.
    NoTunnel,
    /// The response is sent, and the tunnel starts behind it.
    StartTunnel,
}

/// What an upgrade needs: a request that asked for it, a response with
/// status 101, the handle of the client connection, and, over a socket, the
/// connection that the bridge gave up for the tunnel.
pub open spec fn spec_upgrade_decision(
    upgrade_requested: bool,
    status: u16,
    has_upgrade_handle: bool,
    has_tunnel_socket: bool,
) -> Result<UpgradeDecision, ExchangeError> {
    if !(upgrade_requested && status == HTTP_STATUS_SWITCHING_PROTOCOLS) {
        Ok(UpgradeDecision::NoTunnel)
    } else if !has_upgrade_handle {
        Err(ExchangeError::MissingUpgradeHandle)
    } else if !has_tunnel_socket {
        Err(ExchangeError::MissingTunnelSocket)
    } else {
        Ok(UpgradeDecision::StartTunnel)
    }
}

/// Decides whether a tunnel starts behind a response.
pub fn upgrade_decision(
    upgrade_requested: bool,
    status: u16,
    has_upgrade_handle: bool,
    has_tunnel_socket: bool,
) -> (result: Result<UpgradeDecision, ExchangeError>)
    ensures
        result == spec_upgrade_decision(
            upgrade_requested,
            status,
            has_upgrade_handle,
            has_tunnel_socket,
        ),
{
    if !(upgrade_requested && status == HTTP_STATUS_SWITCHING_PROTOCOLS) {
        return Ok(UpgradeDecision::NoTunnel);
    }
    if !has_upgrade_handle {
        return Err(ExchangeError::MissingUpgradeHandle);
    }
    if !has_tunnel_socket {
        return Err(ExchangeError::MissingTunnelSocket);
    }
    Ok(UpgradeDecision::StartTunnel)
}

/// No exchange is tried a third time, and none is tried again once a byte of
/// the request body was taken.
pub proof fn lemma_retry_at_most_once(progress: ExchangeProgress, error: ExchangeError)
    ensures
        progress.retried ==> !spec_should_retry(progress, error),
        !progress.request_body_empty ==> !spec_should_retry(progress, error),
        progress.response_started ==> !spec_should_retry(progress, error),
        spec_failure_kind(error) == FailureKind::Resource ==> !spec_should_retry(progress, error),
{
}

} // verus!
