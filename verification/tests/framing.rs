use server_native::error::BridgeError;
use server_native::frame_io::coalesce_buffers;
use server_native::frame_io::plan_bridge_chunk_frame;
use server_native::frame_io::plan_bridge_frame;
use server_native::frame_io::plan_bridge_tunnel_close_frame;
use server_native::frame_io::FrameReadPhase;
use server_native::frame_io::FrameReader;
use server_native::frame_io::VectoredCursor;
use server_native::limits::BRIDGE_COALESCE_WRITE_THRESHOLD_BYTES;
use server_native::limits::MAX_BRIDGE_FRAME_BYTES;
use server_native::request::encode_bridge_request_chunk_payload;

/// Feeds `stream` to a frame reader in pieces of at most `piece` bytes, the
/// way a loop around a socket would.
fn read_frame(stream: &[u8], piece: usize) -> Result<Option<Vec<u8>>, BridgeError> {
    let mut reader = FrameReader::new();
    let mut payload = vec![0xee; 3];
    let mut at = 0;
    loop {
        match reader.phase {
            FrameReadPhase::Header => {
                let want = reader.wanted().min(piece).min(stream.len() - at);
                reader.on_header_bytes(&stream[at..at + want], &mut payload)?;
                at += want;
            }
            FrameReadPhase::Payload => {
                let want = reader.wanted().min(piece).min(stream.len() - at);
                let start = reader.payload_read;
                payload[start..start + want].copy_from_slice(&stream[at..at + want]);
                reader.on_payload_bytes(want)?;
                at += want;
            }
            FrameReadPhase::Complete => return Ok(Some(payload)),
            FrameReadPhase::NoFrame => return Ok(None),
            FrameReadPhase::Failed => unreachable!(),
        }
    }
}

/// Drives a vectored write over a stream that takes `step` bytes at a time,
/// and collects what the stream was given.
fn write_all(buffers: &[&[u8]], step: usize) -> Vec<u8> {
    let mut cursor = VectoredCursor::new();
    let mut out = Vec::new();
    loop {
        let slices = cursor.next_slices(buffers);
        if slices.is_empty() {
            return out;
        }
        assert!(slices.len() <= 3);
        assert!(!slices[0].is_empty());
        let offered: Vec<u8> = slices.concat();
        let taken = step.min(offered.len());
        out.extend_from_slice(&offered[..taken]);
        cursor.advance(buffers, taken).unwrap();
    }
}

#[test]
fn short_frame_is_coalesced_into_one_buffer() {
    let plan = plan_bridge_frame(&[1, 5]).unwrap();
    assert!(plan.coalesced);
    assert_eq!(plan.head, vec![0, 0, 0, 2, 1, 5]);
}

#[test]
fn empty_frame_is_four_zero_bytes() {
    let plan = plan_bridge_frame(&[]).unwrap();
    assert!(plan.coalesced);
    assert_eq!(plan.head, vec![0, 0, 0, 0]);
}

#[test]
fn frame_at_the_threshold_is_coalesced_and_one_more_byte_is_not() {
    let at = vec![7u8; BRIDGE_COALESCE_WRITE_THRESHOLD_BYTES];
    let plan = plan_bridge_frame(&at).unwrap();
    assert!(plan.coalesced);
    assert_eq!(plan.head.len(), 4 + 4096);
    assert_eq!(&plan.head[..4], &[0, 0, 0x10, 0]);
    assert_eq!(&plan.head[4..], at.as_slice());
    let over = vec![7u8; BRIDGE_COALESCE_WRITE_THRESHOLD_BYTES + 1];
    let plan = plan_bridge_frame(&over).unwrap();
    assert!(!plan.coalesced);
    assert_eq!(plan.head, vec![0, 0, 0x10, 1]);
}

#[test]
fn frame_over_the_limit_is_refused() {
    let payload = vec![0u8; MAX_BRIDGE_FRAME_BYTES + 1];
    assert_eq!(plan_bridge_frame(&payload).unwrap_err(), BridgeError::FrameTooLarge(67108865));
    let fits = vec![0u8; MAX_BRIDGE_FRAME_BYTES];
    let plan = plan_bridge_frame(&fits).unwrap();
    assert!(!plan.coalesced);
    assert_eq!(plan.head, vec![4, 0, 0, 0]);
}

#[test]
fn chunk_frame_plan_matches_the_encoded_payload() {
    for size in [0usize, 1, 100, 4090, 4091, 5000, 65536] {
        let chunk = vec![0x31u8; size];
        let plan = plan_bridge_chunk_frame(4, &chunk).unwrap();
        let payload = encode_bridge_request_chunk_payload(&chunk).unwrap();
        let mut wire = ((payload.len()) as u32).to_be_bytes().to_vec();
        wire.extend_from_slice(&payload);
        assert_eq!(plan.coalesced, size + 6 <= 4096);
        let mut written = plan.head.clone();
        if !plan.coalesced {
            written.extend_from_slice(&chunk);
        }
        assert_eq!(written, wire);
    }
}

#[test]
fn chunk_frame_plan_of_three_bytes() {
    let plan = plan_bridge_chunk_frame(9, b"abc").unwrap();
    assert!(plan.coalesced);
    assert_eq!(plan.head, vec![0, 0, 0, 9, 1, 9, 0, 0, 0, 3, b'a', b'b', b'c']);
}

#[test]
fn chunk_frame_over_the_limit_is_refused() {
    let chunk = vec![0u8; MAX_BRIDGE_FRAME_BYTES - 5];
    assert_eq!(plan_bridge_chunk_frame(7, &chunk).unwrap_err(), BridgeError::FrameTooLarge(67108865));
    let chunk = vec![0u8; MAX_BRIDGE_FRAME_BYTES - 6];
    let plan = plan_bridge_chunk_frame(7, &chunk).unwrap();
    assert_eq!(plan.head, vec![4, 0, 0, 0, 1, 7, 3, 0xff, 0xff, 0xfa]);
}

#[test]
fn tunnel_close_frame_plan() {
    let plan = plan_bridge_tunnel_close_frame();
    assert!(plan.coalesced);
    assert_eq!(plan.head, vec![0, 0, 0, 2, 1, 10]);
}

#[test]
fn vectored_write_delivers_every_byte_in_order() {
    let a: Vec<u8> = (0..10).collect();
    let b: Vec<u8> = vec![];
    let c: Vec<u8> = (10..13).collect();
    let d: Vec<u8> = (13..40).collect();
    let e: Vec<u8> = (40..41).collect();
    let buffers: [&[u8]; 5] = [&a, &b, &c, &d, &e];
    let expected: Vec<u8> = (0..41).collect();
    for step in [1usize, 2, 3, 7, 10, 13, 40, 41, 1000] {
        assert_eq!(write_all(&buffers, step), expected);
    }
}

#[test]
fn vectored_write_of_nothing_offers_nothing() {
    let mut cursor = VectoredCursor::new();
    assert!(cursor.next_slices(&[]).is_empty());
    let empty: [&[u8]; 2] = [&[], &[]];
    let mut cursor = VectoredCursor::new();
    assert!(cursor.next_slices(&empty).is_empty());
    assert_eq!(cursor, VectoredCursor { index: 2, offset: 0 });
}

#[test]
fn vectored_write_offers_three_slices_at_most() {
    let buffers: [&[u8]; 4] = [&[1, 2], &[3], &[4, 5], &[6]];
    let mut cursor = VectoredCursor::new();
    let slices = cursor.next_slices(&buffers);
    assert_eq!(slices, vec![&[1u8, 2][..], &[3u8][..], &[4u8, 5][..]]);
    cursor.advance(&buffers, 1).unwrap();
    assert_eq!(cursor, VectoredCursor { index: 0, offset: 1 });
    let slices = cursor.next_slices(&buffers);
    assert_eq!(slices, vec![&[2u8][..], &[3u8][..], &[4u8, 5][..]]);
    cursor.advance(&buffers, 3).unwrap();
    assert_eq!(cursor, VectoredCursor { index: 2, offset: 1 });
    let slices = cursor.next_slices(&buffers);
    assert_eq!(slices, vec![&[5u8][..], &[6u8][..]]);
    cursor.advance(&buffers, 2).unwrap();
    assert!(cursor.next_slices(&buffers).is_empty());
}

#[test]
fn stream_that_takes_nothing_fails_the_write() {
    let buffers: [&[u8]; 1] = [&[1, 2, 3]];
    let mut cursor = VectoredCursor::new();
    assert_eq!(cursor.next_slices(&buffers).len(), 1);
    assert_eq!(cursor.advance(&buffers, 0), Err(BridgeError::WriteZero));
    assert_eq!(cursor, VectoredCursor { index: 0, offset: 0 });
}

#[test]
fn frame_reader_reads_a_frame_in_any_pieces() {
    let stream = [0, 0, 0, 5, 1, 7, 0, 0, 0, 9, 9];
    for piece in 1..8 {
        assert_eq!(read_frame(&stream, piece), Ok(Some(vec![1, 7, 0, 0, 0])));
    }
}

#[test]
fn frame_reader_reads_an_empty_frame() {
    assert_eq!(read_frame(&[0, 0, 0, 0], 4), Ok(Some(vec![])));
}

#[test]
fn frame_reader_tells_a_clean_end_from_a_broken_one() {
    assert_eq!(read_frame(&[], 4), Ok(None));
    assert_eq!(read_frame(&[0], 4), Err(BridgeError::ClosedInFrameHeader));
    assert_eq!(read_frame(&[0, 0, 0], 1), Err(BridgeError::ClosedInFrameHeader));
    assert_eq!(read_frame(&[0, 0, 0, 3, 1], 4), Err(BridgeError::ClosedInFramePayload));
    assert_eq!(read_frame(&[0, 0, 0, 3], 4), Err(BridgeError::ClosedInFramePayload));
}

#[test]
fn frame_reader_refuses_a_length_over_the_limit() {
    let mut reader = FrameReader::new();
    let mut payload = vec![1, 2, 3];
    assert_eq!(reader.wanted(), 4);
    assert_eq!(reader.on_header_bytes(&[4, 0], &mut payload), Ok(FrameReadPhase::Header));
    assert_eq!(reader.wanted(), 2);
    assert_eq!(
        reader.on_header_bytes(&[0, 1], &mut payload),
        Err(BridgeError::FrameTooLarge(67108865))
    );
    assert_eq!(reader.phase, FrameReadPhase::Failed);
    assert_eq!(reader.wanted(), 0);
}

#[test]
fn frame_reader_accepts_a_length_at_the_limit() {
    let mut reader = FrameReader::new();
    let mut payload = Vec::new();
    assert_eq!(reader.on_header_bytes(&[4, 0, 0, 0], &mut payload), Ok(FrameReadPhase::Payload));
    assert_eq!(payload.len(), MAX_BRIDGE_FRAME_BYTES);
    assert_eq!(reader.wanted(), MAX_BRIDGE_FRAME_BYTES);
    assert_eq!(reader.on_payload_bytes(MAX_BRIDGE_FRAME_BYTES - 1), Ok(FrameReadPhase::Payload));
    assert_eq!(reader.wanted(), 1);
    assert_eq!(reader.on_payload_bytes(1), Ok(FrameReadPhase::Complete));
    assert_eq!(reader.wanted(), 0);
}

#[test]
fn frame_reader_sizes_the_buffer_to_the_frame() {
    let mut reader = FrameReader::new();
    let mut payload = vec![9u8; 100];
    assert_eq!(reader.on_header_bytes(&[0, 0, 1, 2], &mut payload), Ok(FrameReadPhase::Payload));
    assert_eq!(payload.len(), 258);
    assert_eq!(reader.payload_len, 258);
    assert_eq!(reader.payload_read, 0);
}

#[test]
fn few_short_buffers_are_written_in_one_piece() {
    let buffers: [&[u8]; 3] = [&[1, 2], &[], &[3]];
    assert_eq!(coalesce_buffers(&buffers), Some(vec![1, 2, 3]));
    let none: [&[u8]; 0] = [];
    assert_eq!(coalesce_buffers(&none), Some(vec![]));
    let full = vec![7u8; 4096];
    let one: [&[u8]; 1] = [full.as_slice()];
    assert_eq!(coalesce_buffers(&one), Some(full.clone()));
    let head = vec![7u8; 4095];
    let two: [&[u8]; 2] = [head.as_slice(), &[1]];
    assert_eq!(coalesce_buffers(&two).map(|joined| joined.len()), Some(4096));
}

#[test]
fn long_or_many_buffers_are_not_copied() {
    let over = vec![7u8; 4097];
    let one: [&[u8]; 1] = [over.as_slice()];
    assert_eq!(coalesce_buffers(&one), None);
    let head = vec![7u8; 4096];
    let two: [&[u8]; 2] = [head.as_slice(), &[1]];
    assert_eq!(coalesce_buffers(&two), None);
    let four: [&[u8]; 4] = [&[1], &[2], &[3], &[4]];
    assert_eq!(coalesce_buffers(&four), None);
    let empty: [&[u8]; 4] = [&[], &[], &[], &[]];
    assert_eq!(coalesce_buffers(&empty), None);
}
