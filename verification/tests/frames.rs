use server_native::error::BridgeError;
use server_native::error::ExpectedFrame;
use server_native::header::HeaderField;
use server_native::request::encode_bridge_request;
use server_native::request::encode_bridge_request_chunk_payload;
use server_native::request::encode_bridge_request_end;
use server_native::request::encode_bridge_request_headers;
use server_native::request::encode_bridge_request_legacy;
use server_native::request::encode_bridge_request_start;
use server_native::request::encode_bridge_request_start_legacy;
use server_native::request::encode_bridge_tunnel_chunk_payload;
use server_native::request::encode_bridge_tunnel_close_payload;
use server_native::request::BridgeRequestRef;
use server_native::request_reader::decode_bridge_request;
use server_native::request_reader::decode_bridge_request_start;
use server_native::response::decode_bare_frame;
use server_native::response::decode_bridge_response;
use server_native::response::decode_bridge_response_chunk;
use server_native::response::decode_bridge_response_end;
use server_native::response::decode_bridge_response_start;
use server_native::response::decode_bridge_tunnel_chunk;
use server_native::response::decode_bridge_tunnel_close;
use server_native::response::decode_chunk_frame;
use server_native::response::frame_type_matches;
use server_native::response::is_bridge_response_frame_type;
use server_native::response::is_bridge_response_frame_type_tokenized;
use server_native::response::is_bridge_response_start_frame_type;
use server_native::response::is_bridge_response_start_frame_type_tokenized;
use server_native::response::is_supported_bridge_protocol_version;
use server_native::response::peek_bridge_frame_type;
use server_native::wire::BridgeByteWriter;

fn header(name: &str, value: &[u8]) -> HeaderField {
    HeaderField { name: name.to_string(), value: value.to_vec() }
}

fn request<'a>(
    method: &'a str,
    authority: &'a str,
    path: &'a str,
    query: &'a str,
    headers: &'a [HeaderField],
) -> BridgeRequestRef<'a> {
    BridgeRequestRef { method, scheme: "http", authority, path, query, protocol: "1.1", headers }
}

fn field(bytes: &[u8]) -> Vec<u8> {
    let mut out = (bytes.len() as u32).to_be_bytes().to_vec();
    out.extend_from_slice(bytes);
    out
}

fn hello_request_front(frame_type: u8) -> Vec<u8> {
    let mut expected = vec![1, frame_type];
    expected.extend(field(b"GET"));
    expected.extend(field(b"http"));
    expected.extend(field(b"h"));
    expected.extend(field(b"/hello"));
    expected.extend(field(b""));
    expected.extend(field(b"1.1"));
    expected.extend([0, 0, 0, 1]);
    expected
}

fn response_payload(frame_type: u8, status: u16, headers: &[(&[u8], &[u8])], body: Option<&[u8]>) -> Vec<u8> {
    let mut payload = vec![1, frame_type];
    payload.extend(status.to_be_bytes());
    payload.extend((headers.len() as u32).to_be_bytes());
    for (name, value) in headers {
        payload.extend_from_slice(name);
        payload.extend(field(value));
    }
    if let Some(bytes) = body {
        payload.extend(field(bytes));
    }
    payload
}

fn pairs(headers: &[HeaderField]) -> Vec<(String, Vec<u8>)> {
    headers.iter().map(|h| (h.name.clone(), h.value.clone())).collect()
}

#[test]
fn get_hello_is_one_tokenized_frame() {
    let headers = [header("host", b"h")];
    let payload = encode_bridge_request(&request("GET", "h", "/hello", "", &headers), &[]).unwrap();
    let mut expected = hello_request_front(11);
    expected.extend([0, 0]);
    expected.extend(field(b"h"));
    expected.extend(field(b""));
    assert_eq!(payload, expected);
    let (decoded, body) = decode_bridge_request(&payload).unwrap();
    assert_eq!(decoded.method, "GET");
    assert_eq!(decoded.path, "/hello");
    assert_eq!(decoded.query, "");
    assert_eq!(pairs(&decoded.headers), vec![("host".to_string(), b"h".to_vec())]);
    assert!(body.is_empty());
}

#[test]
fn legacy_request_writes_names_as_text() {
    let headers = [header("host", b"h")];
    let payload =
        encode_bridge_request_legacy(&request("GET", "h", "/hello", "", &headers), b"hi").unwrap();
    let mut expected = hello_request_front(1);
    expected.extend(field(b"host"));
    expected.extend(field(b"h"));
    expected.extend(field(b"hi"));
    assert_eq!(payload, expected);
}

#[test]
fn request_start_has_no_body_field() {
    let headers = [header("host", b"h")];
    let payload = encode_bridge_request_start(&request("GET", "h", "/hello", "", &headers)).unwrap();
    let mut expected = hello_request_front(13);
    expected.extend([0, 0]);
    expected.extend(field(b"h"));
    assert_eq!(payload, expected);
    let legacy =
        encode_bridge_request_start_legacy(&request("GET", "h", "/hello", "", &headers)).unwrap();
    let mut expected = hello_request_front(3);
    expected.extend(field(b"host"));
    expected.extend(field(b"h"));
    assert_eq!(legacy, expected);
}

#[test]
fn header_block_counts_only_text_values() {
    let headers = [
        header("host", b"x"),
        header("x-binary", &[0xff, 0xfe]),
        header("x-custom", b"v"),
        header("x-control", &[b'a', 0x01]),
    ];
    let mut writer = BridgeByteWriter::new();
    assert_eq!(
        encode_bridge_request_headers(&mut writer, &request("GET", "x", "/", "", &headers)),
        Ok(())
    );
    let mut expected = vec![0, 0, 0, 2, 0, 0];
    expected.extend(field(b"x"));
    expected.extend([0xff, 0xff]);
    expected.extend(field(b"x-custom"));
    expected.extend(field(b"v"));
    assert_eq!(writer.into_inner(), expected);
}

#[test]
fn header_block_of_no_headers_is_a_zero_count() {
    let mut writer = BridgeByteWriter::new();
    writer.put_u8(5);
    assert_eq!(encode_bridge_request_headers(&mut writer, &request("GET", "x", "/", "", &[])), Ok(()));
    assert_eq!(writer.into_inner(), vec![5, 0, 0, 0, 0]);
}

#[test]
fn duplicate_headers_keep_their_order() {
    let headers = [header("cookie", b"a=1"), header("accept", b"*/*"), header("cookie", b"b=2")];
    let payload = encode_bridge_request(&request("GET", "x", "/", "", &headers), &[]).unwrap();
    let (decoded, body) = decode_bridge_request(&payload).unwrap();
    assert_eq!(
        pairs(&decoded.headers),
        vec![
            ("cookie".to_string(), b"a=1".to_vec()),
            ("accept".to_string(), b"*/*".to_vec()),
            ("cookie".to_string(), b"b=2".to_vec()),
        ]
    );
    assert!(body.is_empty());
}

#[test]
fn single_frame_request_round_trips() {
    let headers = [header("host", b"example.org"), header("x-trace", b"abc"), header("content-type", b"text/plain")];
    let source = BridgeRequestRef {
        method: "POST",
        scheme: "https",
        authority: "example.org:8443",
        path: "/a/b",
        query: "k=v&z=1",
        protocol: "2",
        headers: &headers,
    };
    for legacy in [false, true] {
        let payload = if legacy {
            encode_bridge_request_legacy(&source, b"payload bytes").unwrap()
        } else {
            encode_bridge_request(&source, b"payload bytes").unwrap()
        };
        let (decoded, body) = decode_bridge_request(&payload).unwrap();
        assert_eq!(decoded.method, "POST");
        assert_eq!(decoded.scheme, "https");
        assert_eq!(decoded.authority, "example.org:8443");
        assert_eq!(decoded.path, "/a/b");
        assert_eq!(decoded.query, "k=v&z=1");
        assert_eq!(decoded.protocol, "2");
        assert_eq!(
            pairs(&decoded.headers),
            vec![
                ("host".to_string(), b"example.org".to_vec()),
                ("x-trace".to_string(), b"abc".to_vec()),
                ("content-type".to_string(), b"text/plain".to_vec()),
            ]
        );
        assert_eq!(body, b"payload bytes".to_vec());
    }
}

#[test]
fn request_start_round_trips() {
    let headers = [header("upgrade", b"websocket"), header("x-other", b"1")];
    let source = request("GET", "h", "/ws", "room=1", &headers);
    for legacy in [false, true] {
        let payload = if legacy {
            encode_bridge_request_start_legacy(&source).unwrap()
        } else {
            encode_bridge_request_start(&source).unwrap()
        };
        let decoded = decode_bridge_request_start(&payload).unwrap();
        assert_eq!(decoded.method, "GET");
        assert_eq!(decoded.path, "/ws");
        assert_eq!(decoded.query, "room=1");
        assert_eq!(
            pairs(&decoded.headers),
            vec![("upgrade".to_string(), b"websocket".to_vec()), ("x-other".to_string(), b"1".to_vec())]
        );
    }
}

#[test]
fn request_with_trailing_byte_is_refused() {
    let headers = [header("host", b"x")];
    let mut payload = encode_bridge_request(&request("GET", "x", "/", "", &headers), b"b").unwrap();
    payload.push(0);
    assert_eq!(decode_bridge_request(&payload).unwrap_err(), BridgeError::TrailingBytes(1));
    let mut start = encode_bridge_request_start(&request("GET", "x", "/", "", &headers)).unwrap();
    start.extend([1, 2]);
    assert_eq!(decode_bridge_request_start(&start).unwrap_err(), BridgeError::TrailingBytes(2));
}

#[test]
fn request_text_must_be_utf8() {
    let mut payload = vec![1, 1];
    payload.extend(field(&[0xff]));
    for _ in 0..5 {
        payload.extend(field(b""));
    }
    payload.extend([0, 0, 0, 0]);
    payload.extend(field(b""));
    assert_eq!(decode_bridge_request(&payload).unwrap_err(), BridgeError::InvalidText);
}

#[test]
fn request_chunk_and_end_payloads() {
    assert_eq!(encode_bridge_request_chunk_payload(b"abc"), Ok(vec![1, 4, 0, 0, 0, 3, b'a', b'b', b'c']));
    assert_eq!(encode_bridge_request_chunk_payload(b""), Ok(vec![1, 4, 0, 0, 0, 0]));
    assert_eq!(encode_bridge_request_end(), vec![1, 5]);
}

#[test]
fn tunnel_chunk_and_close_payloads() {
    assert_eq!(encode_bridge_tunnel_chunk_payload(b"hi"), Ok(vec![1, 9, 0, 0, 0, 2, b'h', b'i']));
    assert_eq!(encode_bridge_tunnel_close_payload(), vec![1, 10]);
    assert_eq!(decode_bridge_tunnel_chunk(&[1, 9, 0, 0, 0, 2, b'h', b'i']), Ok(b"hi".to_vec()));
    assert_eq!(decode_bridge_tunnel_close(&[1, 10]), Ok(()));
}

#[test]
fn chunk_payloads_round_trip() {
    let data: Vec<u8> = (0..=255u8).collect();
    let payload = encode_bridge_request_chunk_payload(&data).unwrap();
    assert_eq!(payload.len(), 6 + 256);
    assert_eq!(&payload[2..6], &[0, 0, 1, 0]);
    assert_eq!(decode_chunk_frame(&payload, ExpectedFrame::RequestChunk), Ok(data.clone()));
    let tunnel = encode_bridge_tunnel_chunk_payload(&data).unwrap();
    assert_eq!(decode_bridge_tunnel_chunk(&tunnel), Ok(data));
    assert_eq!(decode_bare_frame(&encode_bridge_request_end(), ExpectedFrame::RequestEnd), Ok(()));
    assert_eq!(decode_bridge_tunnel_close(&encode_bridge_tunnel_close_payload()), Ok(()));
}

#[test]
fn length_prefix_counts_exactly_the_bytes_behind_it() {
    for size in [0usize, 1, 2, 255, 256, 65535, 65536, 70000] {
        let data = vec![0x5a; size];
        let payload = encode_bridge_request_chunk_payload(&data).unwrap();
        let declared = u32::from_be_bytes([payload[2], payload[3], payload[4], payload[5]]) as usize;
        assert_eq!(declared, size);
        assert_eq!(payload.len(), 6 + size);
    }
}

#[test]
fn response_chunk_decodes_to_its_bytes() {
    assert_eq!(decode_bridge_response_chunk(&[1, 7, 0, 0, 0, 2, 9, 8]), Ok(vec![9, 8]));
    assert_eq!(decode_bridge_response_chunk(&[1, 7, 0, 0, 0, 0]), Ok(vec![]));
}

#[test]
fn response_chunk_errors() {
    assert_eq!(decode_bridge_response_chunk(&[]), Err(BridgeError::TruncatedPayload));
    assert_eq!(decode_bridge_response_chunk(&[1]), Err(BridgeError::TruncatedPayload));
    assert_eq!(decode_bridge_response_chunk(&[2, 7]), Err(BridgeError::UnsupportedVersion(2)));
    assert_eq!(
        decode_bridge_response_chunk(&[1, 8, 0, 0, 0, 0]),
        Err(BridgeError::InvalidFrameType { expected: ExpectedFrame::ResponseChunk, found: 8 })
    );
    assert_eq!(decode_bridge_response_chunk(&[1, 7, 0, 0, 0]), Err(BridgeError::TruncatedPayload));
    assert_eq!(decode_bridge_response_chunk(&[1, 7, 0, 0, 0, 3, 1]), Err(BridgeError::TruncatedPayload));
    assert_eq!(decode_bridge_response_chunk(&[1, 7, 0, 0, 0, 1, 1, 2, 3]), Err(BridgeError::TrailingBytes(2)));
}

#[test]
fn response_end_carries_nothing() {
    assert_eq!(decode_bridge_response_end(&[1, 8]), Ok(()));
    assert_eq!(decode_bridge_response_end(&[1, 8, 0]), Err(BridgeError::TrailingBytes(1)));
    assert_eq!(
        decode_bridge_response_end(&[1, 7]),
        Err(BridgeError::InvalidFrameType { expected: ExpectedFrame::ResponseEnd, found: 7 })
    );
    assert_eq!(decode_bridge_response_end(&[0, 8]), Err(BridgeError::UnsupportedVersion(0)));
    assert_eq!(decode_bridge_response_end(&[1]), Err(BridgeError::TruncatedPayload));
}

#[test]
fn tunnel_frames_check_their_type() {
    assert_eq!(
        decode_bridge_tunnel_chunk(&[1, 7, 0, 0, 0, 0]),
        Err(BridgeError::InvalidFrameType { expected: ExpectedFrame::TunnelChunk, found: 7 })
    );
    assert_eq!(
        decode_bridge_tunnel_close(&[1, 9]),
        Err(BridgeError::InvalidFrameType { expected: ExpectedFrame::TunnelClose, found: 9 })
    );
    assert_eq!(decode_bridge_tunnel_close(&[1, 10, 7, 7, 7]), Err(BridgeError::TrailingBytes(3)));
}

#[test]
fn peek_reads_version_and_type() {
    assert_eq!(peek_bridge_frame_type(&[1, 6, 0xff]), Ok(6));
    assert_eq!(peek_bridge_frame_type(&[1, 200]), Ok(200));
    assert_eq!(peek_bridge_frame_type(&[1]), Err(BridgeError::TruncatedPayload));
    assert_eq!(peek_bridge_frame_type(&[]), Err(BridgeError::TruncatedPayload));
    assert_eq!(peek_bridge_frame_type(&[3, 6]), Err(BridgeError::UnsupportedVersion(3)));
}

#[test]
fn frame_type_predicates() {
    assert!(is_supported_bridge_protocol_version(1));
    assert!(!is_supported_bridge_protocol_version(0));
    assert!(!is_supported_bridge_protocol_version(2));
    for frame_type in 0..=255u8 {
        assert_eq!(is_bridge_response_frame_type(frame_type), frame_type == 2 || frame_type == 12);
        assert_eq!(is_bridge_response_frame_type_tokenized(frame_type), frame_type == 12);
        assert_eq!(is_bridge_response_start_frame_type(frame_type), frame_type == 6 || frame_type == 14);
        assert_eq!(is_bridge_response_start_frame_type_tokenized(frame_type), frame_type == 14);
        assert_eq!(frame_type_matches(ExpectedFrame::Request, frame_type), frame_type == 1 || frame_type == 11);
        assert_eq!(frame_type_matches(ExpectedFrame::RequestStart, frame_type), frame_type == 3 || frame_type == 13);
        assert_eq!(frame_type_matches(ExpectedFrame::RequestChunk, frame_type), frame_type == 4);
        assert_eq!(frame_type_matches(ExpectedFrame::RequestEnd, frame_type), frame_type == 5);
        assert_eq!(frame_type_matches(ExpectedFrame::ResponseChunk, frame_type), frame_type == 7);
        assert_eq!(frame_type_matches(ExpectedFrame::ResponseEnd, frame_type), frame_type == 8);
        assert_eq!(frame_type_matches(ExpectedFrame::TunnelChunk, frame_type), frame_type == 9);
        assert_eq!(frame_type_matches(ExpectedFrame::TunnelClose, frame_type), frame_type == 10);
    }
}

#[test]
fn tokenized_response_decodes() {
    let payload = response_payload(12, 200, &[(&[0, 6], b"text/plain")], Some(b"hi"));
    let response = decode_bridge_response(&payload).unwrap();
    assert_eq!(response.status, 200);
    assert_eq!(pairs(&response.headers), vec![("content-type".to_string(), b"text/plain".to_vec())]);
    assert_eq!(response.body_bytes, b"hi".to_vec());
}

#[test]
fn literal_response_decodes() {
    let name = field(b"X-Served-By");
    let payload = response_payload(2, 404, &[(&name, b"edge")], Some(b""));
    let response = decode_bridge_response(&payload).unwrap();
    assert_eq!(response.status, 404);
    assert_eq!(pairs(&response.headers), vec![("x-served-by".to_string(), b"edge".to_vec())]);
    assert!(response.body_bytes.is_empty());
}

#[test]
fn response_with_literal_token_mixes_both_forms() {
    let mut literal = vec![0xff, 0xff];
    literal.extend(field(b"x-one"));
    let payload = response_payload(12, 201, &[(&[0, 17], b"/next"), (&literal, b"1"), (&[0, 10], b"a=b")], Some(b"ok"));
    let response = decode_bridge_response(&payload).unwrap();
    assert_eq!(
        pairs(&response.headers),
        vec![
            ("location".to_string(), b"/next".to_vec()),
            ("x-one".to_string(), b"1".to_vec()),
            ("set-cookie".to_string(), b"a=b".to_vec()),
        ]
    );
}

#[test]
fn response_drops_headers_that_http_refuses() {
    let bad_name = field(b"bad name");
    let good_name = field(b"x-good");
    let payload = response_payload(
        2,
        200,
        &[(&bad_name, b"v"), (&good_name, b"line\nbreak"), (&good_name, b"fine"), (&good_name, &[0xe9])],
        Some(b"b"),
    );
    let response = decode_bridge_response(&payload).unwrap();
    assert_eq!(
        pairs(&response.headers),
        vec![("x-good".to_string(), b"fine".to_vec()), ("x-good".to_string(), vec![0xe9])]
    );
    assert_eq!(response.body_bytes, b"b".to_vec());
}

#[test]
fn response_start_decodes_status_and_headers() {
    let payload = response_payload(14, 101, &[(&[0, 13], b"websocket"), (&[0, 1], b"Upgrade")], None);
    let (status, headers) = decode_bridge_response_start(&payload).unwrap();
    assert_eq!(status, 101);
    assert_eq!(
        pairs(&headers),
        vec![("upgrade".to_string(), b"websocket".to_vec()), ("connection".to_string(), b"Upgrade".to_vec())]
    );
    let literal = response_payload(6, 200, &[], None);
    let (status, headers) = decode_bridge_response_start(&literal).unwrap();
    assert_eq!(status, 200);
    assert!(headers.is_empty());
}

#[test]
fn response_errors() {
    assert_eq!(decode_bridge_response(&[]).unwrap_err(), BridgeError::TruncatedPayload);
    assert_eq!(decode_bridge_response(&[9, 2]).unwrap_err(), BridgeError::UnsupportedVersion(9));
    assert_eq!(
        decode_bridge_response(&[1, 6, 0, 200, 0, 0, 0, 0]).unwrap_err(),
        BridgeError::InvalidFrameType { expected: ExpectedFrame::Response, found: 6 }
    );
    assert_eq!(decode_bridge_response(&[1, 2, 0, 200, 0, 0]).unwrap_err(), BridgeError::TruncatedPayload);
    assert_eq!(
        decode_bridge_response(&[1, 2, 0, 200, 0, 0, 0, 1]).unwrap_err(),
        BridgeError::TruncatedPayload
    );
    assert_eq!(
        decode_bridge_response(&[1, 12, 0, 200, 0, 0, 0, 1, 0, 99, 0, 0, 0, 0, 0, 0, 0, 0]).unwrap_err(),
        BridgeError::InvalidHeaderNameToken(99)
    );
    let mut trailing = response_payload(2, 200, &[], Some(b"x"));
    trailing.extend([1, 2, 3]);
    assert_eq!(decode_bridge_response(&trailing).unwrap_err(), BridgeError::TrailingBytes(3));
    let mut start = response_payload(6, 200, &[], None);
    start.push(0);
    assert_eq!(decode_bridge_response_start(&start).unwrap_err(), BridgeError::TrailingBytes(1));
    assert_eq!(
        decode_bridge_response_start(&response_payload(2, 200, &[], None)).unwrap_err(),
        BridgeError::InvalidFrameType { expected: ExpectedFrame::ResponseStart, found: 2 }
    );
}

#[test]
fn every_added_byte_is_refused_by_every_decoder() {
    let chunk = encode_bridge_request_chunk_payload(b"abc").unwrap();
    let end = encode_bridge_request_end();
    let response = response_payload(12, 200, &[(&[0, 6], b"t")], Some(b"body"));
    let start = response_payload(14, 200, &[(&[0, 6], b"t")], None);
    for extra in 1..5usize {
        let tail = vec![0u8; extra];
        let grown = |payload: &Vec<u8>| [payload.as_slice(), tail.as_slice()].concat();
        assert_eq!(
            decode_chunk_frame(&grown(&chunk), ExpectedFrame::RequestChunk),
            Err(BridgeError::TrailingBytes(extra))
        );
        assert_eq!(
            decode_bare_frame(&grown(&end), ExpectedFrame::RequestEnd),
            Err(BridgeError::TrailingBytes(extra))
        );
        assert_eq!(decode_bridge_response(&grown(&response)).unwrap_err(), BridgeError::TrailingBytes(extra));
        assert_eq!(decode_bridge_response_start(&grown(&start)).unwrap_err(), BridgeError::TrailingBytes(extra));
    }
}
