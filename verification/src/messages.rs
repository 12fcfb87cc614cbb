//! The texts of the errors, as they are logged and sent to clients.

use vstd::prelude::*;
use crate::config::ConfigError;
use crate::emitter::EmitError;
use crate::error::BridgeError;
use crate::error::ExpectedFrame;
use crate::exchange::ExchangeError;
use crate::http_glue::HttpReply;
use crate::http_glue::text_response;
use crate::limits::HTTP_STATUS_BAD_GATEWAY;
use crate::receiver::ReceiveError;
use crate::receiver::Transport;
use crate::tls::TlsError;
use vstd::utf8::encode_utf8;

verus! {

/// The character of a decimal digit.
pub open spec fn spec_digit(digit: nat) -> char
    recommends
        digit < 10,
{
    if digit == 0 {
        '0'
    } else if digit == 1 {
        '1'
    } else if digit == 2 {
        '2'
    } else if digit == 3 {
        '3'
    } else if digit == 4 {
        '4'
    } else if digit == 5 {
        '5'
    } else if digit == 6 {
        '6'
    } else if digit == 7 {
        '7'
    } else if digit == 8 {
        '8'
    } else {
        '9'
    }
}

/// A number in decimal digits, without leading zeros.
pub open spec fn spec_decimal(number: nat) -> Seq<char>
    decreases number,
{
    if number < 10 {
        seq![spec_digit(number)]
    } else {
        spec_decimal(number / 10).push(spec_digit(number % 10))
    }
}

/// The text of one decimal digit.
fn digit_text(digit: u64) -> (text: &'static str)
    requires
        digit < 10,
    ensures
        text@ == seq![spec_digit(digit as nat)],
{
    proof {
        reveal_strlit("0");
        reveal_strlit("1");
        reveal_strlit("2");
        reveal_strlit("3");
        reveal_strlit("4");
        reveal_strlit("5");
        reveal_strlit("6");
        reveal_strlit("7");
        reveal_strlit("8");
        reveal_strlit("9");
    }
    let text = if digit == 0 {
        "0"
    } else if digit == 1 {
        "1"
    } else if digit == 2 {
        "2"
    } else if digit == 3 {
        "3"
    } else if digit == 4 {
        "4"
    } else if digit == 5 {
        "5"
    } else if digit == 6 {
        "6"
    } else if digit == 7 {
        "7"
    } else if digit == 8 {
        "8"
    } else {
        "9"
    };
    assert(text@ =~= seq![spec_digit(digit as nat)]);
    text
}

/// Writes a number in decimal digits.
pub fn decimal_text(number: u64) -> (text: String)
    ensures
        text@ == spec_decimal(number as nat),
    decreases number,
{
    if number < 10 {
        String::from_str(digit_text(number))
    } else {
        let mut text = decimal_text(number / 10);
        text.append(digit_text(number % 10));
        assert(text@ =~= spec_decimal(number as nat));
        text
    }
}

/// `label` followed by `number` in decimal digits.
fn labelled(label: &str, number: u64) -> (text: String)
    ensures
        text@ == label@ + spec_decimal(number as nat),
{
    let mut text = String::from_str(label);
    text.append(decimal_text(number).as_str());
    text
}

/// `prefix` followed by `rest`.
fn prefixed(prefix: &str, rest: String) -> (text: String)
    ensures
        text@ == prefix@ + rest@,
{
    let mut text = String::from_str(prefix);
    text.append(rest.as_str());
    text
}

/// How a frame is called in the text of a frame type error.
pub open spec fn spec_frame_name(expected: ExpectedFrame) -> Seq<char> {
    match expected {
        ExpectedFrame::Request => "invalid bridge request frame type: "@,
        ExpectedFrame::RequestStart => "invalid bridge request start frame type: "@,
        ExpectedFrame::RequestChunk => "invalid bridge request chunk frame type: "@,
        ExpectedFrame::RequestEnd => "invalid bridge request end frame type: "@,
        ExpectedFrame::Response => "invalid bridge response frame type: "@,
        ExpectedFrame::ResponseStart => "invalid bridge response start frame type: "@,
        ExpectedFrame::ResponseChunk => "invalid bridge response chunk frame type: "@,
        ExpectedFrame::ResponseEnd => "invalid bridge response end frame type: "@,
        ExpectedFrame::TunnelChunk => "invalid bridge tunnel chunk frame type: "@,
        ExpectedFrame::TunnelClose => "invalid bridge tunnel close frame type: "@,
    }
}

/// The text of a codec or framing error.
pub open spec fn spec_bridge_error_message(error: BridgeError) -> Seq<char> {
    match error {
        BridgeError::TruncatedPayload => "truncated bridge payload"@,
        BridgeError::TrailingBytes(count) => "unexpected trailing bridge payload bytes: "@
            + spec_decimal(count as nat),
        BridgeError::UnsupportedVersion(version) => "unsupported bridge protocol version: "@
            + spec_decimal(version as nat),
        BridgeError::InvalidFrameType { expected, found } => spec_frame_name(expected)
            + spec_decimal(found as nat),
        BridgeError::InvalidHeaderNameToken(token) => "invalid bridge header name token: "@
            + spec_decimal(token as nat),
        BridgeError::InvalidText => "bridge field is not valid utf-8"@,
        BridgeError::FieldTooLong => "bridge field length does not fit u32"@,
        BridgeError::TooManyHeaders => "bridge request has too many headers"@,
        BridgeError::ChunkTooLong => "bridge chunk length does not fit u32"@,
        BridgeError::FrameLengthOverflow => "bridge frame length overflow"@,
        BridgeError::FrameTooLarge(length) => "bridge frame too large: "@ + spec_decimal(
            length as nat,
        ),
        BridgeError::WriteZero => "failed to write bridge frame bytes"@,
        BridgeError::ClosedInFrameHeader => "bridge closed connection while reading frame header"@,
        BridgeError::ClosedInFramePayload => "bridge stream ended before response payload"@,
    }
}

/// Writes the text of a codec or framing error.
pub fn bridge_error_message(error: BridgeError) -> (text: String)
    ensures
        text@ == spec_bridge_error_message(error),
{
    match error {
        BridgeError::TruncatedPayload => String::from_str("truncated bridge payload"),
        BridgeError::TrailingBytes(count) => labelled(
            "unexpected trailing bridge payload bytes: ",
            count as u64,
        ),
        BridgeError::UnsupportedVersion(version) => labelled(
            "unsupported bridge protocol version: ",
            version as u64,
        ),
        BridgeError::InvalidFrameType { expected, found } => {
            let label = match expected {
                ExpectedFrame::Request => "invalid bridge request frame type: ",
                ExpectedFrame::RequestStart => "invalid bridge request start frame type: ",
                ExpectedFrame::RequestChunk => "invalid bridge request chunk frame type: ",
                ExpectedFrame::RequestEnd => "invalid bridge request end frame type: ",
                ExpectedFrame::Response => "invalid bridge response frame type: ",
                ExpectedFrame::ResponseStart => "invalid bridge response start frame type: ",
                ExpectedFrame::ResponseChunk => "invalid bridge response chunk frame type: ",
                ExpectedFrame::ResponseEnd => "invalid bridge response end frame type: ",
                ExpectedFrame::TunnelChunk => "invalid bridge tunnel chunk frame type: ",
                ExpectedFrame::TunnelClose => "invalid bridge tunnel close frame type: ",
            };
            labelled(label, found as u64)
        },
        BridgeError::InvalidHeaderNameToken(token) => labelled(
            "invalid bridge header name token: ",
            token as u64,
        ),
        BridgeError::InvalidText => String::from_str("bridge field is not valid utf-8"),
        BridgeError::FieldTooLong => String::from_str("bridge field length does not fit u32"),
        BridgeError::TooManyHeaders => String::from_str("bridge request has too many headers"),
        BridgeError::ChunkTooLong => String::from_str("bridge chunk length does not fit u32"),
        BridgeError::FrameLengthOverflow => String::from_str("bridge frame length overflow"),
        BridgeError::FrameTooLarge(length) => labelled("bridge frame too large: ", length as u64),
        BridgeError::WriteZero => String::from_str("failed to write bridge frame bytes"),
        BridgeError::ClosedInFrameHeader => String::from_str(
            "bridge closed connection while reading frame header",
        ),
        BridgeError::ClosedInFramePayload => String::from_str(
            "bridge stream ended before response payload",
        ),
    }
}

/// The text of an error of the request emitter.
pub open spec fn spec_emit_error_message(error: EmitError) -> Seq<char> {
    match error {
        EmitError::Encode(cause) => spec_bridge_error_message(cause),
        EmitError::BodyTooLarge(size) => "failed to read request body: body too large: "@
            + spec_decimal(size as nat),
        EmitError::BodyLengthOverflow => "request body length overflow"@,
    }
}

/// Writes the text of an error of the request emitter.
pub fn emit_error_message(error: EmitError) -> (text: String)
    ensures
        text@ == spec_emit_error_message(error),
{
    match error {
        EmitError::Encode(cause) => bridge_error_message(cause),
        EmitError::BodyTooLarge(size) => labelled(
            "failed to read request body: body too large: ",
            size as u64,
        ),
        EmitError::BodyLengthOverflow => String::from_str("request body length overflow"),
    }
}

/// The text of an error of the response receiver. Over the callback a
/// closed carrier and a frame out of turn are worded differently.
pub open spec fn spec_receive_error_message(transport: Transport, error: ReceiveError) -> Seq<char> {
    match error {
        ReceiveError::Decode(cause) => "decode response failed: "@ + spec_bridge_error_message(
            cause,
        ),
        ReceiveError::InvalidFirstFrameType(found) =>
            "decode response failed: invalid bridge response frame type: "@ + spec_decimal(
                found as nat,
            ),
        ReceiveError::UnexpectedFrameType(found) => if transport == Transport::Direct {
            "decode response failed: unexpected bridge frame type: "@ + spec_decimal(found as nat)
        } else {
            "decode response failed: unexpected bridge response frame type: "@ + spec_decimal(
                found as nat,
            )
        },
        ReceiveError::BodyTooLarge(size) => "bridge response body too large: "@ + spec_decimal(
            size as nat,
        ),
        ReceiveError::BodyLengthOverflow => "bridge response body length overflow"@,
        ReceiveError::ClosedWithoutResponse => if transport == Transport::Direct {
            "direct bridge callback closed before response"@
        } else {
            "bridge closed connection without response"@
        },
        ReceiveError::ClosedBeforeResponseEnd => if transport == Transport::Direct {
            "direct bridge callback closed before response end"@
        } else {
            "decode response failed: bridge closed connection before response end"@
        },
        ReceiveError::SingleFrameUpgrade =>
            "websocket upgrade failed: direct callback returned single-frame response"@,
        ReceiveError::TimedOut => "direct bridge callback timed out after 30s"@,
        ReceiveError::AlreadyFinished => "bridge response is already over"@,
    }
}

/// Writes the text of an error of the response receiver.
pub fn receive_error_message(transport: Transport, error: ReceiveError) -> (text: String)
    ensures
        text@ == spec_receive_error_message(transport, error),
{
    let direct = match transport {
        Transport::Direct => true,
        Transport::Socket => false,
    };
    match error {
        ReceiveError::Decode(cause) => prefixed(
            "decode response failed: ",
            bridge_error_message(cause),
        ),
        ReceiveError::InvalidFirstFrameType(found) => labelled(
            "decode response failed: invalid bridge response frame type: ",
            found as u64,
        ),
        ReceiveError::UnexpectedFrameType(found) => if direct {
            labelled("decode response failed: unexpected bridge frame type: ", found as u64)
        } else {
            labelled(
                "decode response failed: unexpected bridge response frame type: ",
                found as u64,
            )
        },
        ReceiveError::BodyTooLarge(size) => labelled(
            "bridge response body too large: ",
            size as u64,
        ),
        ReceiveError::BodyLengthOverflow => String::from_str(
            "bridge response body length overflow",
        ),
        ReceiveError::ClosedWithoutResponse => if direct {
            String::from_str("direct bridge callback closed before response")
        } else {
            String::from_str("bridge closed connection without response")
        },
        ReceiveError::ClosedBeforeResponseEnd => if direct {
            String::from_str("direct bridge callback closed before response end")
        } else {
            String::from_str(
                "decode response failed: bridge closed connection before response end",
            )
        },
        ReceiveError::SingleFrameUpgrade => String::from_str(
            "websocket upgrade failed: direct callback returned single-frame response",
        ),
        ReceiveError::TimedOut => String::from_str("direct bridge callback timed out after 30s"),
        ReceiveError::AlreadyFinished => String::from_str("bridge response is already over"),
    }
}

/// The text of a failed exchange.
pub open spec fn spec_exchange_error_message(transport: Transport, error: ExchangeError) -> Seq<char> {
    match error {
        ExchangeError::ConnectFailed => "connect failed"@,
        ExchangeError::WriteFailed => "write frame payload failed"@,
        ExchangeError::ReadFailed => "read frame payload failed"@,
        ExchangeError::RequestBodyFailed => "failed to read request body chunk"@,
        ExchangeError::Emit(cause) => spec_emit_error_message(cause),
        ExchangeError::Frame(cause) => spec_bridge_error_message(cause),
        ExchangeError::Receive(cause) => spec_receive_error_message(transport, cause),
        ExchangeError::MissingUpgradeHandle =>
            "websocket upgrade failed: missing hyper upgrade handle"@,
        ExchangeError::MissingTunnelSocket =>
            "websocket upgrade failed: bridge did not expose detached socket"@,
        ExchangeError::UnknownRequest(request_id) =>
            "direct bridge callback missing request id: "@ + spec_decimal(request_id as nat),
    }
}

/// Writes the text of a failed exchange.
pub fn exchange_error_message(transport: Transport, error: ExchangeError) -> (text: String)
    ensures
        text@ == spec_exchange_error_message(transport, error),
{
    match error {
        ExchangeError::ConnectFailed => String::from_str("connect failed"),
        ExchangeError::WriteFailed => String::from_str("write frame payload failed"),
        ExchangeError::ReadFailed => String::from_str("read frame payload failed"),
        ExchangeError::RequestBodyFailed => String::from_str("failed to read request body chunk"),
        ExchangeError::Emit(cause) => emit_error_message(cause),
        ExchangeError::Frame(cause) => bridge_error_message(cause),
        ExchangeError::Receive(cause) => receive_error_message(transport, cause),
        ExchangeError::MissingUpgradeHandle => String::from_str(
            "websocket upgrade failed: missing hyper upgrade handle",
        ),
        ExchangeError::MissingTunnelSocket => String::from_str(
            "websocket upgrade failed: bridge did not expose detached socket",
        ),
        ExchangeError::UnknownRequest(request_id) => labelled(
            "direct bridge callback missing request id: ",
            request_id,
        ),
    }
}

/// What a client is told when its request could not be served. A tunnel
/// that cannot start behind a response from the socket is reported as it
/// is; every other failure is reported as a failed call of the bridge.
pub open spec fn spec_failure_text(transport: Transport, error: ExchangeError) -> Seq<char> {
    let message = spec_exchange_error_message(transport, error);
    if transport == Transport::Direct {
        "direct bridge call failed: "@ + message
    } else if error == ExchangeError::MissingUpgradeHandle || error
        == ExchangeError::MissingTunnelSocket {
        message
    } else {
        "bridge call failed: "@ + message
    }
}

/// The answer to a client whose request could not be served: status 502
/// and, as plain text, what went wrong.
pub fn failure_reply(transport: Transport, error: ExchangeError) -> (reply: HttpReply)
    ensures
        reply.status == HTTP_STATUS_BAD_GATEWAY,
        reply.headers@.len() == 0,
        reply.body@ == encode_utf8(spec_failure_text(transport, error)),
{
    let message = exchange_error_message(transport, error);
    let text = match transport {
        Transport::Direct => prefixed("direct bridge call failed: ", message),
        Transport::Socket => match error {
            ExchangeError::MissingUpgradeHandle => message,
            ExchangeError::MissingTunnelSocket => message,
            _ => prefixed("bridge call failed: ", message),
        },
    };
    text_response(HTTP_STATUS_BAD_GATEWAY, text.as_str())
}

/// The text of refused settings.
pub open spec fn spec_config_error_message(error: ConfigError) -> Seq<char> {
    match error {
        ConfigError::InvalidHost => "invalid host"@,
        ConfigError::InvalidBackendHost => "invalid backend_host"@,
        ConfigError::InvalidBackendPath => "invalid backend_path"@,
        ConfigError::InvalidBackendKind(kind) => "invalid backend_kind: "@ + spec_decimal(
            kind as nat,
        ),
        ConfigError::InvalidBenchmarkMode(mode) => "invalid benchmark_mode: "@ + spec_decimal(
            mode as nat,
        ),
        ConfigError::IncompleteTls =>
            "invalid tls settings: both tls_cert_path and tls_key_path are required"@,
    }
}

/// Writes the text of refused settings.
pub fn config_error_message(error: ConfigError) -> (text: String)
    ensures
        text@ == spec_config_error_message(error),
{
    match error {
        ConfigError::InvalidHost => String::from_str("invalid host"),
        ConfigError::InvalidBackendHost => String::from_str("invalid backend_host"),
        ConfigError::InvalidBackendPath => String::from_str("invalid backend_path"),
        ConfigError::InvalidBackendKind(kind) => labelled("invalid backend_kind: ", kind as u64),
        ConfigError::InvalidBenchmarkMode(mode) => labelled(
            "invalid benchmark_mode: ",
            mode as u64,
        ),
        ConfigError::IncompleteTls => String::from_str(
            "invalid tls settings: both tls_cert_path and tls_key_path are required",
        ),
    }
}

/// The text of what stands in the way of a TLS listener.
pub open spec fn spec_tls_error_message(error: TlsError) -> Seq<char> {
    match error {
        TlsError::NoCertificates => "tls cert file contains no certificates"@,
        TlsError::NoPrivateKey => "tls key file contains no supported private keys"@,
        TlsError::NoClientRoots =>
            "no native root certificates available for client verification"@,
    }
}

/// Writes the text of what stands in the way of a TLS listener.
pub fn tls_error_message(error: TlsError) -> (text: String)
    ensures
        text@ == spec_tls_error_message(error),
{
    match error {
        TlsError::NoCertificates => String::from_str("tls cert file contains no certificates"),
        TlsError::NoPrivateKey => String::from_str(
            "tls key file contains no supported private keys",
        ),
        TlsError::NoClientRoots => String::from_str(
            "no native root certificates available for client verification",
        ),
    }
}

} // verus!
