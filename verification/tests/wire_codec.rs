use server_native::error::BridgeError;
use server_native::error::ExpectedFrame;
use server_native::header::bridge_header_name_from_token_header_name;
use server_native::header::bridge_header_name_token;
use server_native::header::bytes_equal;
use server_native::header::decode_bridge_response_header_name;
use server_native::header::str_equal;
use server_native::header::write_bridge_header_name;
use server_native::wire::BridgeByteReader;
use server_native::wire::BridgeByteWriter;

const TOKEN_NAMES: [&str; 29] = [
    "host",
    "connection",
    "user-agent",
    "accept",
    "accept-encoding",
    "accept-language",
    "content-type",
    "content-length",
    "transfer-encoding",
    "cookie",
    "set-cookie",
    "cache-control",
    "pragma",
    "upgrade",
    "authorization",
    "origin",
    "referer",
    "location",
    "server",
    "date",
    "x-forwarded-for",
    "x-forwarded-proto",
    "x-forwarded-host",
    "x-forwarded-port",
    "x-request-id",
    "sec-websocket-key",
    "sec-websocket-version",
    "sec-websocket-protocol",
    "sec-websocket-extensions",
];

#[test]
fn writer_starts_empty() {
    assert_eq!(BridgeByteWriter::new().into_inner(), Vec::<u8>::new());
}

#[test]
fn writer_puts_integers_big_endian() {
    let mut writer = BridgeByteWriter::new();
    writer.put_u8(0xab);
    writer.put_u16(0x0102);
    writer.put_u32(0x0a0b0c0d);
    assert_eq!(writer.into_inner(), vec![0xab, 0x01, 0x02, 0x0a, 0x0b, 0x0c, 0x0d]);
}

#[test]
fn writer_puts_extreme_integers() {
    let mut writer = BridgeByteWriter::new();
    writer.put_u16(0);
    writer.put_u16(65535);
    writer.put_u32(0);
    writer.put_u32(4294967295);
    writer.put_u32(256);
    assert_eq!(
        writer.into_inner(),
        vec![0, 0, 0xff, 0xff, 0, 0, 0, 0, 0xff, 0xff, 0xff, 0xff, 0, 0, 1, 0]
    );
}

#[test]
fn writer_puts_string_with_length_prefix() {
    let mut writer = BridgeByteWriter::new();
    assert_eq!(writer.put_string("GET"), Ok(()));
    assert_eq!(writer.into_inner(), vec![0, 0, 0, 3, b'G', b'E', b'T']);
}

#[test]
fn writer_puts_multibyte_string_by_its_bytes() {
    let mut writer = BridgeByteWriter::new();
    assert_eq!(writer.put_string("é"), Ok(()));
    assert_eq!(writer.into_inner(), vec![0, 0, 0, 2, 0xc3, 0xa9]);
}

#[test]
fn writer_puts_empty_bytes_as_zero_length() {
    let mut writer = BridgeByteWriter::new();
    assert_eq!(writer.put_bytes(&[]), Ok(()));
    assert_eq!(writer.into_inner(), vec![0, 0, 0, 0]);
}

#[test]
fn writer_puts_raw_bytes_without_prefix() {
    let mut writer = BridgeByteWriter::new();
    writer.put_raw(&[7, 8, 9]);
    assert_eq!(writer.into_inner(), vec![7, 8, 9]);
}

#[test]
fn writer_reserves_and_patches_a_length() {
    let mut writer = BridgeByteWriter::new();
    writer.reserve(16);
    writer.put_u8(9);
    let position = writer.reserve_u32();
    assert_eq!(position, 1);
    writer.put_u8(7);
    writer.patch_u32(position, 0x01020304);
    assert_eq!(writer.into_inner(), vec![9, 1, 2, 3, 4, 7]);
}

#[test]
fn reader_reads_what_writer_wrote() {
    let mut writer = BridgeByteWriter::new();
    writer.put_u8(200);
    writer.put_u16(513);
    writer.put_u32(70000);
    writer.put_bytes(&[1, 2, 3]).unwrap();
    writer.put_string("abc").unwrap();
    let bytes = writer.into_inner();
    let mut reader = BridgeByteReader::new(&bytes);
    assert_eq!(reader.get_u8(), Ok(200));
    assert_eq!(reader.get_u16(), Ok(513));
    assert_eq!(reader.get_u32(), Ok(70000));
    assert_eq!(reader.get_bytes(), Ok(&[1u8, 2, 3][..]));
    assert_eq!(reader.get_bytes(), Ok(&b"abc"[..]));
    assert_eq!(reader.ensure_done(), Ok(()));
}

#[test]
fn reader_reports_truncation() {
    let mut reader = BridgeByteReader::new(&[1]);
    assert_eq!(reader.get_u16(), Err(BridgeError::TruncatedPayload));
    let mut reader = BridgeByteReader::new(&[1, 2, 3]);
    assert_eq!(reader.get_u32(), Err(BridgeError::TruncatedPayload));
    let mut reader = BridgeByteReader::new(&[]);
    assert_eq!(reader.get_u8(), Err(BridgeError::TruncatedPayload));
    let mut reader = BridgeByteReader::new(&[0, 0, 0, 5, 1, 2]);
    assert_eq!(reader.get_bytes(), Err(BridgeError::TruncatedPayload));
    let mut reader = BridgeByteReader::new(&[1, 2]);
    assert_eq!(reader.get_exact(3), Err(BridgeError::TruncatedPayload));
}

#[test]
fn reader_reports_trailing_bytes_with_their_count() {
    let mut reader = BridgeByteReader::new(&[1, 2, 3, 4]);
    assert_eq!(reader.get_u8(), Ok(1));
    assert_eq!(reader.ensure_done(), Err(BridgeError::TrailingBytes(3)));
}

#[test]
fn reader_gives_the_range_of_a_field() {
    let bytes = [9, 0, 0, 0, 2, 5, 6, 7];
    let mut reader = BridgeByteReader::new(&bytes);
    assert_eq!(reader.get_u8(), Ok(9));
    assert_eq!(reader.get_bytes_range(), Ok((5, 2)));
    assert_eq!(reader.get_exact(1), Ok(&[7u8][..]));
    assert_eq!(reader.ensure_done(), Ok(()));
}

#[test]
fn reader_reads_exact_runs_in_order() {
    let bytes = [1, 2, 3, 4, 5];
    let mut reader = BridgeByteReader::new(&bytes);
    assert_eq!(reader.get_exact(2), Ok(&[1u8, 2][..]));
    assert_eq!(reader.get_exact(0), Ok(&[][..]));
    assert_eq!(reader.get_exact(3), Ok(&[3u8, 4, 5][..]));
    assert_eq!(reader.get_exact(1), Err(BridgeError::TruncatedPayload));
}

#[test]
fn token_table_has_the_known_names_in_order() {
    for (token, name) in TOKEN_NAMES.iter().enumerate() {
        assert_eq!(bridge_header_name_from_token_header_name(token as u16), Some(*name));
        assert_eq!(bridge_header_name_token(name), Some(token as u16));
    }
}

#[test]
fn token_table_ends_behind_the_last_name() {
    assert_eq!(bridge_header_name_from_token_header_name(29), None);
    assert_eq!(bridge_header_name_from_token_header_name(1000), None);
    assert_eq!(bridge_header_name_from_token_header_name(65535), None);
}

#[test]
fn names_outside_the_table_have_no_token() {
    assert_eq!(bridge_header_name_token("x-custom"), None);
    assert_eq!(bridge_header_name_token(""), None);
    assert_eq!(bridge_header_name_token("Host"), None);
    assert_eq!(bridge_header_name_token("hos"), None);
    assert_eq!(bridge_header_name_token("hostt"), None);
}

#[test]
fn every_token_round_trips_through_the_wire() {
    for (token, name) in TOKEN_NAMES.iter().enumerate() {
        let mut writer = BridgeByteWriter::new();
        assert_eq!(write_bridge_header_name(&mut writer, name), Ok(()));
        let bytes = writer.into_inner();
        assert_eq!(bytes, vec![0, token as u8]);
        let mut reader = BridgeByteReader::new(&bytes);
        let decoded = decode_bridge_response_header_name(&mut reader, true).unwrap();
        assert_eq!(decoded.as_deref(), Some(*name));
        assert_eq!(reader.ensure_done(), Ok(()));
    }
}

#[test]
fn unlisted_name_round_trips_as_literal() {
    let mut writer = BridgeByteWriter::new();
    assert_eq!(write_bridge_header_name(&mut writer, "x-custom"), Ok(()));
    let bytes = writer.into_inner();
    let mut expected = vec![0xff, 0xff, 0, 0, 0, 8];
    expected.extend_from_slice(b"x-custom");
    assert_eq!(bytes, expected);
    let mut reader = BridgeByteReader::new(&bytes);
    let decoded = decode_bridge_response_header_name(&mut reader, true).unwrap();
    assert_eq!(decoded.as_deref(), Some("x-custom"));
    assert_eq!(reader.ensure_done(), Ok(()));
}

#[test]
fn literal_name_is_lower_cased_when_read() {
    let mut bytes = vec![0xff, 0xff, 0, 0, 0, 8];
    bytes.extend_from_slice(b"X-Custom");
    let mut reader = BridgeByteReader::new(&bytes);
    let decoded = decode_bridge_response_header_name(&mut reader, true).unwrap();
    assert_eq!(decoded.as_deref(), Some("x-custom"));
    let mut plain = vec![0, 0, 0, 4];
    plain.extend_from_slice(b"HoSt");
    let mut reader = BridgeByteReader::new(&plain);
    let decoded = decode_bridge_response_header_name(&mut reader, false).unwrap();
    assert_eq!(decoded.as_deref(), Some("host"));
}

#[test]
fn name_that_http_refuses_is_read_over() {
    let mut bytes = vec![0, 0, 0, 8];
    bytes.extend_from_slice(b"bad name");
    bytes.push(42);
    let mut reader = BridgeByteReader::new(&bytes);
    let decoded = decode_bridge_response_header_name(&mut reader, false).unwrap();
    assert_eq!(decoded, None);
    assert_eq!(reader.get_u8(), Ok(42));
    let empty = [0u8, 0, 0, 0];
    let mut reader = BridgeByteReader::new(&empty);
    assert_eq!(decode_bridge_response_header_name(&mut reader, false).unwrap(), None);
}

#[test]
fn unknown_token_is_an_error() {
    let bytes = [0u8, 29];
    let mut reader = BridgeByteReader::new(&bytes);
    assert_eq!(
        decode_bridge_response_header_name(&mut reader, true).unwrap_err(),
        BridgeError::InvalidHeaderNameToken(29)
    );
    let bytes = [0x12u8, 0x34];
    let mut reader = BridgeByteReader::new(&bytes);
    assert_eq!(
        decode_bridge_response_header_name(&mut reader, true).unwrap_err(),
        BridgeError::InvalidHeaderNameToken(0x1234)
    );
}

#[test]
fn truncated_name_is_an_error() {
    let bytes = [0u8];
    let mut reader = BridgeByteReader::new(&bytes);
    assert_eq!(
        decode_bridge_response_header_name(&mut reader, true).unwrap_err(),
        BridgeError::TruncatedPayload
    );
    let bytes = [0xffu8, 0xff, 0, 0, 0, 4, b'a'];
    let mut reader = BridgeByteReader::new(&bytes);
    assert_eq!(
        decode_bridge_response_header_name(&mut reader, true).unwrap_err(),
        BridgeError::TruncatedPayload
    );
}

#[test]
fn byte_and_text_equality() {
    assert!(bytes_equal(b"abc", b"abc"));
    assert!(bytes_equal(b"", b""));
    assert!(!bytes_equal(b"abc", b"abd"));
    assert!(!bytes_equal(b"abc", b"ab"));
    assert!(str_equal("host", "host"));
    assert!(!str_equal("host", "Host"));
    assert!(!str_equal("host", "hos"));
}

#[test]
fn expected_frame_is_kept_in_the_error() {
    let error = BridgeError::InvalidFrameType { expected: ExpectedFrame::Response, found: 9 };
    assert_eq!(error, BridgeError::InvalidFrameType { expected: ExpectedFrame::Response, found: 9 });
    assert_ne!(error, BridgeError::InvalidFrameType { expected: ExpectedFrame::Request, found: 9 });
}
