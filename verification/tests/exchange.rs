use server_native::direct::DirectRequestRegistry;
use server_native::emitter::encode_body_chunk_frames;
use server_native::emitter::EmitError;
use server_native::emitter::RequestEmitter;
use server_native::error::BridgeError;
use server_native::error::ExpectedFrame;
use server_native::exchange::failure_kind;
use server_native::exchange::frame_failure_kind;
use server_native::exchange::should_retry_with_empty_body;
use server_native::exchange::upgrade_decision;
use server_native::exchange::ExchangeError;
use server_native::exchange::ExchangeProgress;
use server_native::exchange::FailureKind;
use server_native::exchange::UpgradeDecision;
use server_native::frame_io::FrameReader;
use server_native::header::HeaderField;
use server_native::http_glue::assemble_reply;
use server_native::http_glue::http_version_to_protocol;
use server_native::http_glue::is_websocket_upgrade;
use server_native::http_glue::request_authority;
use server_native::http_glue::request_scheme;
use server_native::http_glue::split_path_and_query_ref;
use server_native::http_glue::HttpVersion;
use server_native::messages::failure_reply;
use server_native::limits::BRIDGE_BODY_CHUNK_BYTES;
use server_native::limits::BRIDGE_POOL_MAX_IDLE;
use server_native::limits::MAX_BRIDGE_FRAME_BYTES;
use server_native::limits::MAX_PROXY_BODY_BYTES;
use server_native::pool::recycle_read_buffer;
use server_native::pool::BridgeConnection;
use server_native::pool::BridgePool;
use server_native::receiver::ConnectionFate;
use server_native::receiver::HeadNext;
use server_native::receiver::ReceiveError;
use server_native::receiver::ResponseAction;
use server_native::receiver::ResponsePhase;
use server_native::receiver::ResponseReceiver;
use server_native::receiver::Transport;
use server_native::request::encode_bridge_request;
use server_native::request::encode_bridge_request_start;
use server_native::request::BridgeRequestRef;
use server_native::request_reader::decode_bridge_request;
use server_native::request_reader::decode_bridge_request_start;
use server_native::response::decode_chunk_frame;
use server_native::tunnel::encode_tunnel_read;
use server_native::tunnel::tunnel_frame_action;
use server_native::tunnel::TunnelAction;

fn header(name: &str, value: &[u8]) -> HeaderField {
    HeaderField { name: name.to_string(), value: value.to_vec() }
}

fn request<'a>(method: &'a str, path: &'a str, headers: &'a [HeaderField]) -> BridgeRequestRef<'a> {
    BridgeRequestRef {
        method,
        scheme: "http",
        authority: "h",
        path,
        query: "",
        protocol: "1.1",
        headers,
    }
}

fn field(bytes: &[u8]) -> Vec<u8> {
    let mut out = (bytes.len() as u32).to_be_bytes().to_vec();
    out.extend_from_slice(bytes);
    out
}

fn chunk_frame(frame_type: u8, bytes: &[u8]) -> Vec<u8> {
    let mut payload = vec![1, frame_type];
    payload.extend(field(bytes));
    payload
}

fn response_start(status: u16) -> Vec<u8> {
    let mut payload = vec![1, 14];
    payload.extend(status.to_be_bytes());
    payload.extend([0, 0, 0, 1, 0, 6]);
    payload.extend(field(b"text/plain"));
    payload
}

fn response_single(status: u16, body: &[u8]) -> Vec<u8> {
    let mut payload = vec![1, 12];
    payload.extend(status.to_be_bytes());
    payload.extend([0, 0, 0, 1, 0, 6]);
    payload.extend(field(b"text/plain"));
    payload.extend(field(body));
    payload
}

/// Sends a body in the given chunks and gives the frames that go out.
fn emit_all(
    emitter: &mut RequestEmitter,
    source: &BridgeRequestRef<'_>,
    chunks: &[&[u8]],
) -> Result<Vec<Vec<u8>>, EmitError> {
    let mut frames = Vec::new();
    for chunk in chunks {
        frames.extend(emitter.emit_chunk(source, chunk)?);
    }
    frames.extend(emitter.emit_end(source)?);
    Ok(frames)
}

/// Receives a streamed response from its frames and gives the body that
/// the client is sent.
fn receive_body(receiver: &mut ResponseReceiver, frames: &[Vec<u8>]) -> Result<Vec<u8>, ReceiveError> {
    let mut body = Vec::new();
    for frame in frames {
        match receiver.on_frame(frame)? {
            ResponseAction::Complete { body: bytes, .. } => body.extend(bytes),
            ResponseAction::Chunk { bytes } => body.extend(bytes),
            ResponseAction::Head { .. }
            | ResponseAction::EmptyBody { .. }
            | ResponseAction::Skip
            | ResponseAction::End { .. } => {}
        }
    }
    Ok(body)
}

#[test]
fn body_is_cut_at_sixty_four_kib() {
    let body: Vec<u8> = (0..(2 * BRIDGE_BODY_CHUNK_BYTES + 5)).map(|i| (i % 251) as u8).collect();
    let frames = encode_body_chunk_frames(&body);
    assert_eq!(frames.len(), 3);
    assert_eq!(frames[0].len(), 6 + 65536);
    assert_eq!(frames[1].len(), 6 + 65536);
    assert_eq!(frames[2].len(), 6 + 5);
    let mut joined = Vec::new();
    for frame in &frames {
        joined.extend(decode_chunk_frame(frame, ExpectedFrame::RequestChunk).unwrap());
    }
    assert_eq!(joined, body);
}

#[test]
fn body_of_exactly_one_slice_is_one_frame() {
    assert_eq!(encode_body_chunk_frames(&vec![1u8; BRIDGE_BODY_CHUNK_BYTES]).len(), 1);
    assert_eq!(encode_body_chunk_frames(&vec![1u8; BRIDGE_BODY_CHUNK_BYTES + 1]).len(), 2);
    assert!(encode_body_chunk_frames(&[]).is_empty());
    assert_eq!(encode_body_chunk_frames(b"a"), vec![vec![1, 4, 0, 0, 0, 1, b'a']]);
}

#[test]
fn known_empty_body_is_one_single_frame() {
    let headers = [header("host", b"h")];
    let source = request("GET", "/hello", &headers);
    let emitter = RequestEmitter::new(false, true);
    let frames = emitter.emit_empty(&source).unwrap();
    assert_eq!(frames, vec![encode_bridge_request(&source, &[]).unwrap()]);
}

#[test]
fn body_that_ends_without_bytes_is_one_single_frame() {
    let headers = [header("host", b"h")];
    let source = request("GET", "/hello", &headers);
    let mut emitter = RequestEmitter::new(false, true);
    let frames = emit_all(&mut emitter, &source, &[b"", b"", b""]).unwrap();
    assert_eq!(frames, vec![encode_bridge_request(&source, &[]).unwrap()]);
    assert!(emitter.request_body_empty());
    assert_eq!(emitter.total_body_bytes, 0);
}

#[test]
fn bracketed_empty_body_is_start_and_end() {
    let headers = [header("host", b"h")];
    let source = request("GET", "/hello", &headers);
    let mut emitter = RequestEmitter::new(true, true);
    let expected = vec![encode_bridge_request_start(&source).unwrap(), vec![1, 5]];
    assert_eq!(emitter.emit_empty(&source).unwrap(), expected);
    assert_eq!(emit_all(&mut emitter, &source, &[]).unwrap(), expected);
}

#[test]
fn post_with_three_chunks_goes_out_as_start_chunks_end() {
    let headers = [header("host", b"h"), header("content-type", b"text/plain")];
    let source = request("POST", "/u", &headers);
    let mut emitter = RequestEmitter::new(false, true);
    let frames = emit_all(&mut emitter, &source, &[b"a", b"b", b"c"]).unwrap();
    assert_eq!(
        frames,
        vec![
            encode_bridge_request_start(&source).unwrap(),
            vec![1, 4, 0, 0, 0, 1, b'a'],
            vec![1, 4, 0, 0, 0, 1, b'b'],
            vec![1, 4, 0, 0, 0, 1, b'c'],
            vec![1, 5],
        ]
    );
    assert!(!emitter.request_body_empty());
    assert_eq!(emitter.total_body_bytes, 3);
    let start = decode_bridge_request_start(&frames[0]).unwrap();
    assert_eq!(start.method, "POST");
    assert_eq!(start.path, "/u");
}

#[test]
fn empty_chunks_between_bytes_send_nothing() {
    let source = request("POST", "/u", &[]);
    let mut emitter = RequestEmitter::new(false, false);
    let before = emitter;
    assert!(emitter.emit_chunk(&source, b"").unwrap().is_empty());
    assert_eq!(emitter, before);
    let frames = emit_all(&mut emitter, &source, &[b"", b"xy", b"", b"z", b""]).unwrap();
    assert_eq!(frames.len(), 4);
    assert_eq!(frames[0][1], 3);
    assert_eq!(frames[1], vec![1, 4, 0, 0, 0, 2, b'x', b'y']);
    assert_eq!(frames[2], vec![1, 4, 0, 0, 0, 1, b'z']);
    assert_eq!(frames[3], vec![1, 5]);
}

#[test]
fn body_over_the_limit_is_refused_when_it_crosses() {
    let source = request("POST", "/u", &[]);
    let mut emitter = RequestEmitter::new(false, true);
    let half = vec![0u8; MAX_PROXY_BODY_BYTES / 2];
    assert!(emitter.emit_chunk(&source, &half).is_ok());
    assert!(emitter.emit_chunk(&source, &half).is_ok());
    assert_eq!(emitter.total_body_bytes, MAX_PROXY_BODY_BYTES);
    assert_eq!(emitter.emit_chunk(&source, &[1]).unwrap_err(), EmitError::BodyTooLarge(33554433));
    let mut fresh = RequestEmitter::new(false, true);
    let over = vec![0u8; MAX_PROXY_BODY_BYTES + 1];
    assert_eq!(fresh.emit_chunk(&source, &over).unwrap_err(), EmitError::BodyTooLarge(33554433));
    assert!(!fresh.request_body_empty());
}

#[test]
fn single_frame_response_is_complete() {
    let mut receiver = ResponseReceiver::new(Transport::Socket, false);
    match receiver.on_frame(&response_single(200, b"hi")).unwrap() {
        ResponseAction::Complete { status, headers, body, fate } => {
            assert_eq!(status, 200);
            assert_eq!(headers.len(), 1);
            assert_eq!(headers[0].name, "content-type");
            assert_eq!(headers[0].value, b"text/plain".to_vec());
            assert_eq!(body, b"hi".to_vec());
            assert_eq!(fate, ConnectionFate::Release);
        }
        other => panic!("unexpected action: {other:?}"),
    }
    assert_eq!(receiver.phase, ResponsePhase::Done);
    assert_eq!(receiver.status, 200);
    assert_eq!(receiver.on_frame(&[1, 8]).unwrap_err(), ReceiveError::AlreadyFinished);
}

#[test]
fn streamed_response_over_a_socket() {
    let mut receiver = ResponseReceiver::new(Transport::Socket, false);
    match receiver.on_frame(&response_start(200)).unwrap() {
        ResponseAction::Head { status, headers, next } => {
            assert_eq!(status, 200);
            assert_eq!(headers.len(), 1);
            assert_eq!(next, HeadNext::ReadNextFrame);
        }
        other => panic!("unexpected action: {other:?}"),
    }
    assert_eq!(receiver.phase, ResponsePhase::AwaitSecond);
    match receiver.on_frame(&chunk_frame(7, b"OK")).unwrap() {
        ResponseAction::Chunk { bytes } => assert_eq!(bytes, b"OK".to_vec()),
        other => panic!("unexpected action: {other:?}"),
    }
    assert_eq!(receiver.phase, ResponsePhase::Streaming);
    assert!(matches!(receiver.on_frame(&chunk_frame(7, b"")).unwrap(), ResponseAction::Skip));
    match receiver.on_frame(&[1, 8]).unwrap() {
        ResponseAction::End { fate } => assert_eq!(fate, ConnectionFate::Release),
        other => panic!("unexpected action: {other:?}"),
    }
    assert_eq!(receiver.phase, ResponsePhase::Done);
    assert_eq!(receiver.total_body_bytes, 2);
}

#[test]
fn start_then_end_is_an_empty_body() {
    let mut receiver = ResponseReceiver::new(Transport::Socket, false);
    receiver.on_frame(&response_start(204)).unwrap();
    match receiver.on_frame(&[1, 8]).unwrap() {
        ResponseAction::EmptyBody { fate } => assert_eq!(fate, ConnectionFate::Release),
        other => panic!("unexpected action: {other:?}"),
    }
    assert_eq!(receiver.phase, ResponsePhase::Done);
}

#[test]
fn switching_protocols_hands_the_socket_to_the_tunnel() {
    let mut receiver = ResponseReceiver::new(Transport::Socket, true);
    match receiver.on_frame(&response_start(101)).unwrap() {
        ResponseAction::Head { status, next, .. } => {
            assert_eq!(status, 101);
            assert_eq!(next, HeadNext::ReadNextFrame);
        }
        other => panic!("unexpected action: {other:?}"),
    }
    match receiver.on_frame(&[1, 8]).unwrap() {
        ResponseAction::EmptyBody { fate } => assert_eq!(fate, ConnectionFate::Tunnel),
        other => panic!("unexpected action: {other:?}"),
    }
    assert_eq!(receiver.status, 101);
}

#[test]
fn switching_protocols_without_a_request_for_it_releases() {
    let mut receiver = ResponseReceiver::new(Transport::Socket, false);
    receiver.on_frame(&response_start(101)).unwrap();
    match receiver.on_frame(&[1, 8]).unwrap() {
        ResponseAction::EmptyBody { fate } => assert_eq!(fate, ConnectionFate::Release),
        other => panic!("unexpected action: {other:?}"),
    }
    let mut receiver = ResponseReceiver::new(Transport::Socket, true);
    receiver.on_frame(&response_start(200)).unwrap();
    match receiver.on_frame(&[1, 8]).unwrap() {
        ResponseAction::EmptyBody { fate } => assert_eq!(fate, ConnectionFate::Release),
        other => panic!("unexpected action: {other:?}"),
    }
}

#[test]
fn single_frame_upgrade_over_a_socket_has_an_empty_body() {
    let mut receiver = ResponseReceiver::new(Transport::Socket, true);
    match receiver.on_frame(&response_single(101, b"ignored")).unwrap() {
        ResponseAction::Complete { status, body, fate, .. } => {
            assert_eq!(status, 101);
            assert!(body.is_empty());
            assert_eq!(fate, ConnectionFate::Tunnel);
        }
        other => panic!("unexpected action: {other:?}"),
    }
}

#[test]
fn single_frame_upgrade_over_the_callback_is_refused() {
    let mut receiver = ResponseReceiver::new(Transport::Direct, true);
    assert_eq!(
        receiver.on_frame(&response_single(101, b"")).unwrap_err(),
        ReceiveError::SingleFrameUpgrade
    );
    assert_eq!(receiver.phase, ResponsePhase::Failed);
}

#[test]
fn callback_response_streams_at_once() {
    let mut receiver = ResponseReceiver::new(Transport::Direct, false);
    match receiver.on_frame(&response_start(200)).unwrap() {
        ResponseAction::Head { status, next, .. } => {
            assert_eq!(status, 200);
            assert_eq!(next, HeadNext::StreamBody);
        }
        other => panic!("unexpected action: {other:?}"),
    }
    assert_eq!(receiver.phase, ResponsePhase::Streaming);
    let mut upgrade = ResponseReceiver::new(Transport::Direct, true);
    match upgrade.on_frame(&response_start(101)).unwrap() {
        ResponseAction::Head { next, .. } => assert_eq!(next, HeadNext::Tunnel),
        other => panic!("unexpected action: {other:?}"),
    }
    assert_eq!(upgrade.phase, ResponsePhase::Done);
}

#[test]
fn first_frame_must_be_a_response() {
    let mut receiver = ResponseReceiver::new(Transport::Socket, false);
    assert_eq!(
        receiver.on_frame(&chunk_frame(7, b"x")).unwrap_err(),
        ReceiveError::InvalidFirstFrameType(7)
    );
    assert_eq!(receiver.phase, ResponsePhase::Failed);
    let mut receiver = ResponseReceiver::new(Transport::Socket, false);
    assert_eq!(
        receiver.on_frame(&[5, 2]).unwrap_err(),
        ReceiveError::Decode(BridgeError::UnsupportedVersion(5))
    );
    let mut receiver = ResponseReceiver::new(Transport::Socket, false);
    assert_eq!(receiver.on_frame(&[1]).unwrap_err(), ReceiveError::Decode(BridgeError::TruncatedPayload));
}

#[test]
fn later_frame_must_be_chunk_or_end() {
    let mut receiver = ResponseReceiver::new(Transport::Socket, false);
    receiver.on_frame(&response_start(200)).unwrap();
    assert_eq!(
        receiver.on_frame(&response_start(200)).unwrap_err(),
        ReceiveError::UnexpectedFrameType(14)
    );
    assert_eq!(receiver.phase, ResponsePhase::Failed);
    let mut receiver = ResponseReceiver::new(Transport::Direct, false);
    receiver.on_frame(&response_start(200)).unwrap();
    assert_eq!(
        receiver.on_frame(&[1, 7, 0, 0, 0, 1, 1, 2]).unwrap_err(),
        ReceiveError::Decode(BridgeError::TrailingBytes(1))
    );
}

#[test]
fn response_body_over_the_limit_is_refused() {
    let half = chunk_frame(7, &vec![0u8; MAX_PROXY_BODY_BYTES / 2]);
    for transport in [Transport::Socket, Transport::Direct] {
        let mut receiver = ResponseReceiver::new(transport, false);
        receiver.on_frame(&response_start(200)).unwrap();
        assert!(receiver.on_frame(&half).is_ok());
        assert!(receiver.on_frame(&half).is_ok());
        assert_eq!(receiver.total_body_bytes, MAX_PROXY_BODY_BYTES);
        assert_eq!(
            receiver.on_frame(&chunk_frame(7, b"x")).unwrap_err(),
            ReceiveError::BodyTooLarge(33554433)
        );
        assert_eq!(receiver.phase, ResponsePhase::Failed);
    }
}

#[test]
fn streamed_body_arrives_whole_however_it_is_cut() {
    let body: Vec<u8> = (0..1000u32).map(|i| (i * 7 % 256) as u8).collect();
    for cut in [1usize, 2, 3, 10, 333, 999, 1000] {
        for transport in [Transport::Socket, Transport::Direct] {
            let mut frames = vec![response_start(200)];
            for part in body.chunks(cut) {
                frames.push(chunk_frame(7, part));
            }
            frames.push(vec![1, 8]);
            let mut receiver = ResponseReceiver::new(transport, false);
            assert_eq!(receive_body(&mut receiver, &frames), Ok(body.clone()));
            assert_eq!(receiver.phase, ResponsePhase::Done);
            assert_eq!(receiver.total_body_bytes, 1000);
        }
    }
}

#[test]
fn closed_carrier_is_told_apart_by_phase() {
    let mut receiver = ResponseReceiver::new(Transport::Socket, false);
    assert_eq!(receiver.on_closed(), ReceiveError::ClosedWithoutResponse);
    assert_eq!(receiver.phase, ResponsePhase::Failed);
    let mut receiver = ResponseReceiver::new(Transport::Socket, false);
    receiver.on_frame(&response_start(200)).unwrap();
    assert_eq!(receiver.on_closed(), ReceiveError::ClosedBeforeResponseEnd);
    assert_eq!(receiver.phase, ResponsePhase::Failed);
}

#[test]
fn timeout_fails_the_response_and_the_entry_goes() {
    let mut registry: DirectRequestRegistry<u8> = DirectRequestRegistry::new();
    let id = registry.register(7);
    let mut receiver = ResponseReceiver::new(Transport::Direct, false);
    let error = receiver.on_timeout();
    assert_eq!(error, ReceiveError::TimedOut);
    assert_eq!(receiver.phase, ResponsePhase::Failed);
    assert_eq!(failure_kind(ExchangeError::Receive(error)), FailureKind::Timeout);
    assert!(registry.remove(id));
    assert!(registry.response_sender(id).is_none());
    assert!(!should_retry_with_empty_body(
        ExchangeProgress {
            transport: Transport::Direct,
            retried: false,
            request_body_empty: true,
            response_started: false,
        },
        ExchangeError::Receive(error),
    ));
}

#[test]
fn tunnel_frames_from_the_far_end() {
    match tunnel_frame_action(Transport::Socket, &chunk_frame(9, b"X")).unwrap() {
        TunnelAction::Forward { bytes } => assert_eq!(bytes, b"X".to_vec()),
        other => panic!("unexpected action: {other:?}"),
    }
    assert!(matches!(
        tunnel_frame_action(Transport::Socket, &chunk_frame(9, b"")).unwrap(),
        TunnelAction::Nothing
    ));
    assert!(matches!(tunnel_frame_action(Transport::Direct, &[1, 10]).unwrap(), TunnelAction::Close));
    assert!(matches!(tunnel_frame_action(Transport::Direct, &[1, 8]).unwrap(), TunnelAction::Nothing));
    assert_eq!(
        tunnel_frame_action(Transport::Socket, &[1, 8]).unwrap_err(),
        ReceiveError::UnexpectedFrameType(8)
    );
    assert_eq!(
        tunnel_frame_action(Transport::Socket, &chunk_frame(7, b"x")).unwrap_err(),
        ReceiveError::UnexpectedFrameType(7)
    );
    assert_eq!(
        tunnel_frame_action(Transport::Socket, &[1, 10, 0]).unwrap_err(),
        ReceiveError::Decode(BridgeError::TrailingBytes(1))
    );
    assert_eq!(
        tunnel_frame_action(Transport::Socket, &[]).unwrap_err(),
        ReceiveError::Decode(BridgeError::TruncatedPayload)
    );
}

#[test]
fn tunnel_read_becomes_chunk_frames_or_a_close() {
    assert_eq!(encode_tunnel_read(b"X"), (vec![vec![1, 9, 0, 0, 0, 1, b'X']], false));
    assert_eq!(encode_tunnel_read(b""), (vec![vec![1, 10]], true));
    let big = vec![3u8; BRIDGE_BODY_CHUNK_BYTES + 1];
    let (frames, closed) = encode_tunnel_read(&big);
    assert!(!closed);
    assert_eq!(frames.len(), 2);
    assert_eq!(frames[0].len(), 6 + 65536);
    assert_eq!(frames[1], vec![1, 9, 0, 0, 0, 1, 3]);
}

#[test]
fn websocket_echo_through_the_tunnel() {
    let mut receiver = ResponseReceiver::new(Transport::Socket, true);
    receiver.on_frame(&response_start(101)).unwrap();
    match receiver.on_frame(&[1, 8]).unwrap() {
        ResponseAction::EmptyBody { fate } => assert_eq!(fate, ConnectionFate::Tunnel),
        other => panic!("unexpected action: {other:?}"),
    }
    assert_eq!(upgrade_decision(true, 101, true, true), Ok(UpgradeDecision::StartTunnel));
    let (to_bridge, closed) = encode_tunnel_read(b"X");
    assert!(!closed);
    assert_eq!(to_bridge, vec![chunk_frame(9, b"X")]);
    match tunnel_frame_action(Transport::Socket, &to_bridge[0]).unwrap() {
        TunnelAction::Forward { bytes } => assert_eq!(bytes, b"X".to_vec()),
        other => panic!("unexpected action: {other:?}"),
    }
    let (last, closed) = encode_tunnel_read(b"");
    assert!(closed);
    assert_eq!(last, vec![vec![1, 10]]);
    assert!(matches!(tunnel_frame_action(Transport::Socket, &last[0]).unwrap(), TunnelAction::Close));
}

#[test]
fn tunnel_delivers_bytes_unchanged_in_both_directions() {
    let data: Vec<u8> = (0..200000u32).map(|i| (i % 253) as u8).collect();
    let (frames, _) = encode_tunnel_read(&data);
    let mut back = Vec::new();
    for frame in &frames {
        match tunnel_frame_action(Transport::Direct, frame).unwrap() {
            TunnelAction::Forward { bytes } => back.extend(bytes),
            other => panic!("unexpected action: {other:?}"),
        }
    }
    assert_eq!(back, data);
}

#[test]
fn upgrade_needs_both_ends() {
    assert_eq!(upgrade_decision(false, 101, true, true), Ok(UpgradeDecision::NoTunnel));
    assert_eq!(upgrade_decision(true, 200, false, false), Ok(UpgradeDecision::NoTunnel));
    assert_eq!(upgrade_decision(true, 101, false, true), Err(ExchangeError::MissingUpgradeHandle));
    assert_eq!(upgrade_decision(true, 101, true, false), Err(ExchangeError::MissingTunnelSocket));
    assert_eq!(upgrade_decision(true, 101, false, false), Err(ExchangeError::MissingUpgradeHandle));
}

#[test]
fn stale_socket_is_retried_once_for_an_empty_body() {
    let first = ExchangeProgress {
        transport: Transport::Socket,
        retried: false,
        request_body_empty: true,
        response_started: false,
    };
    assert!(should_retry_with_empty_body(first, ExchangeError::WriteFailed));
    assert!(should_retry_with_empty_body(first, ExchangeError::ReadFailed));
    assert!(should_retry_with_empty_body(
        first,
        ExchangeError::Receive(ReceiveError::ClosedWithoutResponse)
    ));
    assert!(should_retry_with_empty_body(first, ExchangeError::Frame(BridgeError::ClosedInFrameHeader)));
    let second = ExchangeProgress { retried: true, ..first };
    assert!(!should_retry_with_empty_body(second, ExchangeError::WriteFailed));
    assert!(!should_retry_with_empty_body(
        second,
        ExchangeError::Receive(ReceiveError::ClosedWithoutResponse)
    ));
    let headers = [header("host", b"h")];
    let source = request("GET", "/ping", &headers);
    let again = RequestEmitter::new(false, true).emit_empty(&source).unwrap();
    assert_eq!(again.len(), 1);
    let (decoded, body) = decode_bridge_request(&again[0]).unwrap();
    assert_eq!(decoded.path, "/ping");
    assert!(body.is_empty());
    let mut receiver = ResponseReceiver::new(Transport::Socket, false);
    receiver.on_frame(&response_start(204)).unwrap();
    assert!(matches!(receiver.on_frame(&[1, 8]).unwrap(), ResponseAction::EmptyBody { .. }));
}

#[test]
fn request_with_body_bytes_is_never_retried() {
    let sent = ExchangeProgress {
        transport: Transport::Socket,
        retried: false,
        request_body_empty: false,
        response_started: false,
    };
    for error in [
        ExchangeError::ConnectFailed,
        ExchangeError::WriteFailed,
        ExchangeError::ReadFailed,
        ExchangeError::Receive(ReceiveError::ClosedWithoutResponse),
        ExchangeError::Receive(ReceiveError::Decode(BridgeError::TruncatedPayload)),
    ] {
        assert!(!should_retry_with_empty_body(sent, error));
    }
}

#[test]
fn resource_failures_and_started_responses_are_not_retried() {
    let first = ExchangeProgress {
        transport: Transport::Socket,
        retried: false,
        request_body_empty: true,
        response_started: false,
    };
    assert!(!should_retry_with_empty_body(first, ExchangeError::Frame(BridgeError::FrameTooLarge(67108865))));
    assert!(!should_retry_with_empty_body(first, ExchangeError::Receive(ReceiveError::BodyTooLarge(1))));
    assert!(!should_retry_with_empty_body(first, ExchangeError::Emit(EmitError::BodyLengthOverflow)));
    assert!(!should_retry_with_empty_body(first, ExchangeError::RequestBodyFailed));
    let started = ExchangeProgress { response_started: true, ..first };
    assert!(!should_retry_with_empty_body(started, ExchangeError::ReadFailed));
    let direct = ExchangeProgress { transport: Transport::Direct, ..first };
    assert!(!should_retry_with_empty_body(direct, ExchangeError::ReadFailed));
}

#[test]
fn failures_are_sorted_into_kinds() {
    assert_eq!(frame_failure_kind(BridgeError::TruncatedPayload), FailureKind::Protocol);
    assert_eq!(frame_failure_kind(BridgeError::TrailingBytes(1)), FailureKind::Protocol);
    assert_eq!(frame_failure_kind(BridgeError::UnsupportedVersion(2)), FailureKind::Protocol);
    assert_eq!(frame_failure_kind(BridgeError::InvalidHeaderNameToken(99)), FailureKind::Protocol);
    assert_eq!(frame_failure_kind(BridgeError::InvalidText), FailureKind::Protocol);
    assert_eq!(
        frame_failure_kind(BridgeError::InvalidFrameType { expected: ExpectedFrame::Response, found: 0 }),
        FailureKind::Protocol
    );
    assert_eq!(frame_failure_kind(BridgeError::FrameTooLarge(1)), FailureKind::Resource);
    assert_eq!(frame_failure_kind(BridgeError::FieldTooLong), FailureKind::Resource);
    assert_eq!(frame_failure_kind(BridgeError::TooManyHeaders), FailureKind::Resource);
    assert_eq!(frame_failure_kind(BridgeError::ChunkTooLong), FailureKind::Resource);
    assert_eq!(frame_failure_kind(BridgeError::FrameLengthOverflow), FailureKind::Resource);
    assert_eq!(frame_failure_kind(BridgeError::WriteZero), FailureKind::Transport);
    assert_eq!(frame_failure_kind(BridgeError::ClosedInFrameHeader), FailureKind::Transport);
    assert_eq!(frame_failure_kind(BridgeError::ClosedInFramePayload), FailureKind::Transport);
    assert_eq!(failure_kind(ExchangeError::ConnectFailed), FailureKind::Transport);
    assert_eq!(failure_kind(ExchangeError::RequestBodyFailed), FailureKind::Client);
    assert_eq!(failure_kind(ExchangeError::Emit(EmitError::BodyTooLarge(9))), FailureKind::Resource);
    assert_eq!(
        failure_kind(ExchangeError::Emit(EmitError::Encode(BridgeError::FieldTooLong))),
        FailureKind::Resource
    );
    assert_eq!(failure_kind(ExchangeError::Receive(ReceiveError::TimedOut)), FailureKind::Timeout);
    assert_eq!(
        failure_kind(ExchangeError::Receive(ReceiveError::InvalidFirstFrameType(3))),
        FailureKind::Protocol
    );
    assert_eq!(failure_kind(ExchangeError::Receive(ReceiveError::SingleFrameUpgrade)), FailureKind::Protocol);
    assert_eq!(failure_kind(ExchangeError::MissingUpgradeHandle), FailureKind::Client);
    assert_eq!(failure_kind(ExchangeError::MissingTunnelSocket), FailureKind::Protocol);
    assert_eq!(failure_kind(ExchangeError::UnknownRequest(4)), FailureKind::Client);
}

#[test]
fn pool_hands_out_the_hot_connection_first() {
    let mut pool: BridgePool<u32> = BridgePool::new(BRIDGE_POOL_MAX_IDLE);
    assert!(pool.acquire().is_none());
    pool.release(BridgeConnection::new(1));
    pool.release(BridgeConnection::new(2));
    pool.release(BridgeConnection::new(3));
    assert_eq!(pool.acquire().map(|c| c.stream), Some(1));
    assert_eq!(pool.acquire().map(|c| c.stream), Some(3));
    assert_eq!(pool.acquire().map(|c| c.stream), Some(2));
    assert!(pool.acquire().is_none());
}

#[test]
fn pool_keeps_no_more_idle_connections_than_allowed() {
    let mut pool: BridgePool<u32> = BridgePool::new(2);
    for stream in 0..10 {
        pool.release(BridgeConnection::new(stream));
    }
    assert_eq!(pool.idle.len(), 2);
    assert_eq!(pool.acquire().map(|c| c.stream), Some(0));
    assert_eq!(pool.acquire().map(|c| c.stream), Some(2));
    assert_eq!(pool.acquire().map(|c| c.stream), Some(1));
    assert!(pool.acquire().is_none());
    let mut none: BridgePool<u32> = BridgePool::new(0);
    none.release(BridgeConnection::new(1));
    none.release(BridgeConnection::new(2));
    assert_eq!(none.acquire().map(|c| c.stream), Some(1));
    assert!(none.acquire().is_none());
}

#[test]
fn released_connection_comes_back_with_an_empty_buffer() {
    let mut pool: BridgePool<u32> = BridgePool::new(4);
    let mut connection = BridgeConnection::new(9);
    assert!(connection.read_buffer.is_empty());
    assert!(connection.read_buffer.capacity() >= 8192);
    connection.read_buffer.resize(MAX_BRIDGE_FRAME_BYTES / 2 + 1, 1);
    pool.release(connection);
    let again = pool.acquire().unwrap();
    assert_eq!(again.stream, 9);
    assert!(again.read_buffer.is_empty());
}

#[test]
fn buffer_that_outgrew_the_frame_limit_is_replaced() {
    let mut pool: BridgePool<u32> = BridgePool::new(4);
    let mut connection = BridgeConnection::new(9);
    connection.read_buffer = Vec::with_capacity(MAX_BRIDGE_FRAME_BYTES + 1);
    connection.read_buffer.push(1);
    pool.release(connection);
    let again = pool.acquire().unwrap();
    assert!(again.read_buffer.is_empty());
    assert!(again.read_buffer.capacity() >= 8192);
    assert!(again.read_buffer.capacity() <= MAX_BRIDGE_FRAME_BYTES);
    let kept = recycle_read_buffer(vec![1, 2, 3], MAX_BRIDGE_FRAME_BYTES);
    assert!(kept.is_empty());
    let fresh = recycle_read_buffer(vec![1, 2, 3], MAX_BRIDGE_FRAME_BYTES + 1);
    assert!(fresh.is_empty());
    assert!(fresh.capacity() >= 8192);
}

#[test]
fn registry_numbers_requests_from_one() {
    let mut registry: DirectRequestRegistry<&str> = DirectRequestRegistry::new();
    assert_eq!(registry.register("a"), 1);
    assert_eq!(registry.register("b"), 2);
    assert_eq!(registry.response_sender(1), Some(&"a"));
    assert_eq!(registry.response_sender(2), Some(&"b"));
    assert_eq!(registry.response_sender(3), None);
    assert!(registry.remove(1));
    assert!(!registry.remove(1));
    assert_eq!(registry.response_sender(1), None);
    assert_eq!(registry.register("c"), 3);
}

#[test]
fn registry_wraps_past_the_largest_number() {
    let mut registry: DirectRequestRegistry<u8> = DirectRequestRegistry::new();
    registry.next_request_id = u64::MAX;
    assert_eq!(registry.register(1), u64::MAX);
    assert_eq!(registry.next_request_id, 0);
    assert_eq!(registry.register(2), 0);
    assert_eq!(registry.register(3), 1);
    assert_eq!(registry.response_sender(u64::MAX), Some(&1));
    assert_eq!(registry.response_sender(0), Some(&2));
}

#[test]
fn registry_keeps_payloads_until_the_request_goes() {
    let mut registry: DirectRequestRegistry<u8> = DirectRequestRegistry::new();
    let id = registry.register(0);
    assert_eq!(registry.retain_payload(id, vec![1, 2]), Ok(0));
    assert_eq!(registry.retain_payload(id, vec![3]), Ok(1));
    assert_eq!(registry.retained_payload(id, 0), Some(&vec![1, 2]));
    assert_eq!(registry.retained_payload(id, 1), Some(&vec![3]));
    assert_eq!(registry.retained_payload(id, 2), None);
    assert_eq!(registry.retained_payload(id + 1, 0), None);
    assert_eq!(registry.retain_payload(77, vec![1]), Err(ExchangeError::UnknownRequest(77)));
    assert!(registry.remove(id));
    assert_eq!(registry.retained_payload(id, 0), None);
    assert_eq!(registry.retain_payload(id, vec![1]), Err(ExchangeError::UnknownRequest(id)));
}

#[test]
fn callback_request_streams_under_one_number() {
    let mut registry: DirectRequestRegistry<u8> = DirectRequestRegistry::new();
    let id = registry.register(0);
    assert_eq!(id, 1);
    let headers = [header("host", b"h")];
    let source = request("POST", "/echo", &headers);
    let mut emitter = RequestEmitter::new(true, true);
    let frames = emit_all(&mut emitter, &source, &[b"hello ", b"world"]).unwrap();
    assert_eq!(
        frames,
        vec![
            encode_bridge_request_start(&source).unwrap(),
            chunk_frame(4, b"hello "),
            chunk_frame(4, b"world"),
            vec![1, 5],
        ]
    );
    for (index, frame) in frames.iter().enumerate() {
        assert_eq!(registry.retain_payload(id, frame.clone()), Ok(index));
        assert_eq!(registry.retained_payload(id, index), Some(frame));
    }
    let mut receiver = ResponseReceiver::new(Transport::Direct, false);
    let pushed = vec![response_start(200), chunk_frame(7, b"pong"), vec![1, 8]];
    assert_eq!(receive_body(&mut receiver, &pushed), Ok(b"pong".to_vec()));
    assert_eq!(receiver.status, 200);
    assert_eq!(receiver.phase, ResponsePhase::Done);
    assert!(registry.remove(id));
}

#[test]
fn bridge_pool_acquires_new_and_reused_sockets() {
    let mut pool: BridgePool<&str> = BridgePool::new(1);
    assert!(pool.acquire().is_none());
    let fresh = BridgeConnection::new("socket");
    pool.release(fresh);
    let reused = pool.acquire().expect("acquire reused socket");
    assert_eq!(reused.stream, "socket");
    drop(reused);
    assert!(pool.acquire().is_none());
}

#[test]
fn get_hello_is_answered_with_hi() {
    let headers = [header("host", b"h")];
    assert!(!is_websocket_upgrade(&headers));
    let authority = request_authority(&headers);
    let (path, query) = split_path_and_query_ref("/hello");
    let source = BridgeRequestRef {
        method: "GET",
        scheme: request_scheme(None),
        authority: &authority,
        path,
        query,
        protocol: http_version_to_protocol(HttpVersion::Http11),
        headers: &headers,
    };
    let frames = RequestEmitter::new(false, true).emit_empty(&source).unwrap();
    assert_eq!(frames.len(), 1);
    assert_eq!(&frames[0][..2], &[1, 11]);
    let (seen, body) = decode_bridge_request(&frames[0]).unwrap();
    assert_eq!(seen.method, "GET");
    assert_eq!(seen.scheme, "http");
    assert_eq!(seen.authority, "h");
    assert_eq!(seen.path, "/hello");
    assert_eq!(seen.query, "");
    assert_eq!(seen.protocol, "1.1");
    assert_eq!(seen.headers.len(), 1);
    assert_eq!(seen.headers[0].name, "host");
    assert_eq!(seen.headers[0].value, b"h".to_vec());
    assert!(body.is_empty());
    let tail = [0u8, 0, 0, 0, 0, 1, b'h', 0, 0, 0, 0];
    assert!(frames[0].ends_with(&tail));

    let mut receiver = ResponseReceiver::new(Transport::Socket, false);
    match receiver.on_frame(&response_single(200, b"hi")).unwrap() {
        ResponseAction::Complete { status, headers, body, fate } => {
            assert_eq!(fate, ConnectionFate::Release);
            let reply = assemble_reply(status, headers, body);
            assert_eq!(reply.status, 200);
            assert_eq!(reply.headers.len(), 1);
            assert_eq!(reply.headers[0].name, "content-type");
            assert_eq!(reply.headers[0].value, b"text/plain".to_vec());
            assert_eq!(reply.body, b"hi".to_vec());
        }
        other => panic!("unexpected action: {other:?}"),
    }
}

#[test]
fn oversize_frame_from_the_runtime_is_answered_with_bad_gateway() {
    let mut reader = FrameReader::new();
    let mut payload = Vec::new();
    let error = reader.on_header_bytes(&[0x04, 0x00, 0x00, 0x01], &mut payload).unwrap_err();
    assert_eq!(error, BridgeError::FrameTooLarge(67108865));
    assert!(payload.is_empty());
    let failure = ExchangeError::Frame(error);
    assert_eq!(failure_kind(failure), FailureKind::Resource);
    let progress = ExchangeProgress {
        transport: Transport::Socket,
        retried: false,
        request_body_empty: true,
        response_started: false,
    };
    assert!(!should_retry_with_empty_body(progress, failure));
    let reply = failure_reply(Transport::Socket, failure);
    assert_eq!(reply.status, 502);
    assert_eq!(reply.body, b"bridge call failed: bridge frame too large: 67108865".to_vec());
}
