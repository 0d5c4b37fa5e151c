use wsocket::frame::{Frame, ReadStatus};
use wsocket::{OpCode, WSocketError};

struct Read {
    fin: bool,
    opcode: OpCode,
    data: Vec<u8>,
}

fn read_complete(input: &[u8], max: usize) -> (Read, usize) {
    let mut buf = input.to_vec();
    match Frame::read(&mut buf, max) {
        Ok(ReadStatus::Complete { frame, consumed }) => (
            Read { fin: frame.fin, opcode: frame.opcode, data: frame.data.to_vec() },
            consumed,
        ),
        Ok(ReadStatus::Incomplete { needed }) => panic!("incomplete, needs {}", needed),
        Err(e) => panic!("failed: {:?}", e),
    }
}

fn read_error(input: &[u8], max: usize) -> WSocketError {
    let mut buf = input.to_vec();
    match Frame::read(&mut buf, max) {
        Err(e) => e,
        Ok(_) => panic!("expected an error"),
    }
}

#[test]
fn test_read_unmasked_frame() {
    let (frame, consumed) = read_complete(&[0x81, 0x05, 0x48, 0x65, 0x6c, 0x6c, 0x6f], 5);
    assert!(frame.fin);
    assert_eq!(frame.opcode, OpCode::Text);
    assert_eq!(frame.data, "Hello".as_bytes());
    assert_eq!(consumed, 7);
}

#[test]
fn test_read_masked_frame() {
    let input = [0x81, 0x85, 0x37, 0xfa, 0x21, 0x3d, 0x7f, 0x9f, 0x4d, 0x51, 0x58];
    let (frame, consumed) = read_complete(&input, 5);
    assert!(frame.fin);
    assert_eq!(frame.opcode, OpCode::Text);
    assert_eq!(frame.data, "Hello".as_bytes());
    assert_eq!(consumed, 11);
}

#[test]
fn test_read_unmasked_fragmented_frame() {
    let (frame, _) = read_complete(&[0x01, 0x03, 0x48, 0x65, 0x6c], 3);
    assert!(!frame.fin);
    assert_eq!(frame.opcode, OpCode::Text);
    assert_eq!(frame.data, "Hel".as_bytes());
}

#[test]
fn test_read_unmasked_fragmented_fin_frame() {
    let (frame, _) = read_complete(&[0x80, 0x02, 0x6c, 0x6f], 2);
    assert!(frame.fin);
    assert_eq!(frame.opcode, OpCode::Continuation);
    assert_eq!(frame.data, "lo".as_bytes());
}

#[test]
fn test_read_unmasked_ping_frame() {
    let (frame, _) = read_complete(&[0x89, 0x05, 0x48, 0x65, 0x6c, 0x6c, 0x6f], 5);
    assert!(frame.fin);
    assert_eq!(frame.opcode, OpCode::Ping);
    assert_eq!(frame.data, "Hello".as_bytes());
}

#[test]
fn test_read_masked_pong_frame() {
    let input = [0x8a, 0x85, 0x37, 0xfa, 0x21, 0x3d, 0x7f, 0x9f, 0x4d, 0x51, 0x58];
    let (frame, _) = read_complete(&input, 5);
    assert!(frame.fin);
    assert_eq!(frame.opcode, OpCode::Pong);
    assert_eq!(frame.data, "Hello".as_bytes());
}

#[test]
fn test_read_256_binary_unmasked_frame() {
    let payload: Vec<u8> = (0..256u32).map(|i| (i % 251) as u8).collect();
    let mut input = vec![0x82, 126, 0x01, 0x00];
    input.extend_from_slice(&payload);
    let (frame, consumed) = read_complete(&input, 256);
    assert!(frame.fin);
    assert_eq!(frame.opcode, OpCode::Binary);
    assert_eq!(frame.data, payload);
    assert_eq!(consumed, 260);
}

#[test]
fn test_read_65kib_binary_unmasked_frame() {
    let payload: Vec<u8> = (0..65536u32).map(|i| (i % 253) as u8).collect();
    let mut input = vec![0x82, 127, 0, 0, 0, 0, 0, 1, 0, 0];
    input.extend_from_slice(&payload);
    let (frame, consumed) = read_complete(&input, 65536);
    assert!(frame.fin);
    assert_eq!(frame.opcode, OpCode::Binary);
    assert_eq!(frame.data, payload);
    assert_eq!(consumed, 65546);
}

fn round_trip(len: usize, expected_header: &[u8]) {
    let payload: Vec<u8> = (0..len).map(|i| (i % 256) as u8).collect();
    let frame = Frame::new(true, OpCode::Binary, &payload);
    let bytes = frame.write_without_mask();
    assert_eq!(&bytes[..expected_header.len()], expected_header);
    assert_eq!(bytes.len(), expected_header.len() + len);
    let (back, consumed) = read_complete(&bytes, len);
    assert!(back.fin);
    assert_eq!(back.opcode, OpCode::Binary);
    assert_eq!(back.data, payload);
    assert_eq!(consumed, bytes.len());
}

#[test]
fn length_125_uses_one_byte() {
    round_trip(125, &[0x82, 125]);
}

#[test]
fn length_126_uses_two_extended_bytes() {
    round_trip(126, &[0x82, 126, 0x00, 0x7E]);
}

#[test]
fn length_65535_uses_two_extended_bytes() {
    round_trip(65535, &[0x82, 126, 0xFF, 0xFF]);
}

#[test]
fn length_65536_uses_eight_extended_bytes() {
    round_trip(65536, &[0x82, 127, 0, 0, 0, 0, 0, 1, 0, 0]);
}

#[test]
fn masked_read_unmasks_in_the_buffer() {
    let mut buf = vec![0x82, 0x82, 0x01, 0x02, 0x03, 0x04, 0x11, 0x22, 0xEE];
    match Frame::read(&mut buf, 10) {
        Ok(ReadStatus::Complete { frame, consumed }) => {
            assert_eq!(frame.data, &[0x10, 0x20]);
            assert_eq!(consumed, 8);
        }
        _ => panic!("expected a frame"),
    }
    assert_eq!(buf[6..], [0x10, 0x20, 0xEE]);
}

#[test]
fn masked_write_reads_back() {
    let frame = Frame::new(false, OpCode::Text, b"Hello");
    let bytes = frame.write_with_mask([0x37, 0xfa, 0x21, 0x3d]);
    assert_eq!(bytes, vec![0x01, 0x85, 0x37, 0xfa, 0x21, 0x3d, 0x7f, 0x9f, 0x4d, 0x51, 0x58]);
    let (back, _) = read_complete(&bytes, 10);
    assert!(!back.fin);
    assert_eq!(back.opcode, OpCode::Text);
    assert_eq!(back.data, b"Hello".to_vec());
}

#[test]
fn masking_twice_gives_the_payload_back() {
    let key = [0x12, 0x34, 0x56, 0x78];
    let data = b"any payload at all".to_vec();
    let once = Frame::new(true, OpCode::Binary, &data).write_with_mask(key);
    let masked_payload = once[6..].to_vec();
    assert_ne!(masked_payload, data);
    let twice = Frame::new(true, OpCode::Binary, &masked_payload).write_with_mask(key);
    assert_eq!(twice[6..].to_vec(), data);
}

#[test]
fn write_header_sets_fin_opcode_and_mask_bit() {
    let frame = Frame::new(true, OpCode::Pong, &[1, 2, 3]);
    assert_eq!(frame.write_header(true), vec![0x8A, 0x83]);
    assert_eq!(frame.write_header(false), vec![0x8A, 0x03]);
}

#[test]
fn control_frame_claiming_extended_length_is_refused() {
    let e = read_error(&[0x88, 126, 0x00, 0x7E], 1000);
    assert!(matches!(e, WSocketError::ControlFrameMustHaveAPayloadLengthOf125BytesOrLess));
}

#[test]
fn fragmented_control_frames_are_refused() {
    for b0 in [0x08u8, 0x09, 0x0A] {
        let e = read_error(&[b0, 0x00], 1000);
        assert!(matches!(e, WSocketError::ControlFrameMustNotBeFragmented));
    }
}

#[test]
fn oversized_payload_is_refused_at_the_header() {
    // Only the header is there: no payload byte has been read.
    let e = read_error(&[0x82, 126, 0x01, 0x00], 255);
    assert!(matches!(e, WSocketError::PayloadTooLarge));
    let e = read_error(&[0x82, 0x85], 4);
    assert!(matches!(e, WSocketError::PayloadTooLarge));
    let e = read_error(&[0x82, 127, 0xFF, 0, 0, 0, 0, 0, 0, 0], 1 << 20);
    assert!(matches!(e, WSocketError::PayloadTooLarge));
}

#[test]
fn unknown_opcode_is_refused() {
    let e = read_error(&[0x83, 0x00], 10);
    assert!(matches!(e, WSocketError::UnknownOpCode(3)));
}

#[test]
fn reserved_bits_are_refused() {
    let e = read_error(&[0xC2, 0x00], 10);
    assert!(matches!(e, WSocketError::ReserveBitMustBeNull));
}

#[test]
fn short_input_asks_for_exactly_what_is_missing() {
    let needed = |input: &[u8]| match Frame::read(&mut input.to_vec(), 1000) {
        Ok(ReadStatus::Incomplete { needed }) => needed,
        _ => panic!("expected incomplete"),
    };
    assert_eq!(needed(&[]), 2);
    assert_eq!(needed(&[0x82]), 2);
    assert_eq!(needed(&[0x82, 126]), 4);
    assert_eq!(needed(&[0x82, 127, 0]), 10);
    assert_eq!(needed(&[0x82, 126, 0x00, 0x80]), 132);
    assert_eq!(needed(&[0x82, 0x83]), 9);
    assert_eq!(needed(&[0x82, 0x83, 1, 2, 3, 4, 5]), 9);
}

#[test]
fn opcode_values() {
    for (v, op) in [
        (0u8, OpCode::Continuation),
        (1, OpCode::Text),
        (2, OpCode::Binary),
        (8, OpCode::Close),
        (9, OpCode::Ping),
        (10, OpCode::Pong),
    ] {
        assert_eq!(OpCode::try_from(v).unwrap(), op);
        assert_eq!(op.value(), v);
    }
    assert!(matches!(OpCode::try_from(11), Err(WSocketError::UnknownOpCode(11))));
    assert!(OpCode::Ping.is_control());
    assert!(!OpCode::Binary.is_control());
}
