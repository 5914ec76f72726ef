use rctpower_protocol::frame::{make_frame, ReceiveFrame, ESCAPE_TOKEN, START_TOKEN};
use rctpower_protocol::codec::crc16;
use rctpower_protocol::types::hex;
use rctpower_protocol::{Command, FrameType, RctError};

fn bytes_from_hex(s: &str) -> Vec<u8> {
    (0..s.len())
        .step_by(2)
        .map(|i| u8::from_str_radix(&s[i..i + 2], 16).unwrap())
        .collect()
}

// Golden vectors of complete frames
#[test]
fn golden_write_standard_nopayload() {
    for (id_in, data_out) in
        [(0x0u32, "2b0204000000000c56"), (0xc0de, "2b02040000c0de30b1"), (0xffffffff, "2b0204ffffffff9599")]
    {
        let f = make_frame(Command::Write, id_in, &[], 0, FrameType::Standard).unwrap();
        assert_eq!(hex(&f), data_out);
    }
}

#[test]
fn golden_read_standard_nopayload() {
    for (id_in, data_out) in
        [(0x0u32, "2b010400000000c2b6"), (0xc0de, "2b01040000c0defe51"), (0xffffffff, "2b0104ffffffff5b79")]
    {
        let f = make_frame(Command::Read, id_in, &[], 0, FrameType::Standard).unwrap();
        assert_eq!(hex(&f), data_out);
    }
}

#[test]
fn golden_longresponse_standard_nopayload() {
    for (id_in, data_out) in
        [(0x0u32, "2b06000400000000b754"), (0xc0de, "2b0600040000c0dea78b"), (0xffffffff, "2b060004ffffffff6ac4")]
    {
        let f = make_frame(Command::LongResponse, id_in, &[], 0, FrameType::Standard).unwrap();
        assert_eq!(hex(&f), data_out);
    }
}

#[test]
fn golden_response_standard_nopayload() {
    for (id_in, data_out) in
        [(0x0u32, "2b050400000000c417"), (0xc0de, "2b05040000c0def8f0"), (0xffffffff, "2b0504ffffffff5dd8")]
    {
        let f = make_frame(Command::Response, id_in, &[], 0, FrameType::Standard).unwrap();
        assert_eq!(hex(&f), data_out);
    }
}

#[test]
fn read_frame_roundtrip() {
    // craft a response frame with float payload and parse it back
    let payload = 0.75f32.to_be_bytes();
    let frame = make_frame(Command::Response, 0x959930bf, &payload, 0, FrameType::Standard).unwrap();
    let mut rx = ReceiveFrame::new(false);
    rx.consume(&frame).unwrap();
    assert!(rx.complete());
    assert!(rx.crc_ok());
    assert_eq!(rx.id(), 0x959930bf);
    assert_eq!(rx.data(), &payload);
}

#[test]
fn escape_tokens_are_unescaped_on_parse() {
    // id chosen so the frame contains a '+' (0x2b) byte in payload
    let payload = [0x2bu8, 0x2d, 0x01];
    let frame = make_frame(Command::Write, 0x11223344, &payload, 0, FrameType::Standard).unwrap();
    assert!(frame[1..].contains(&ESCAPE_TOKEN));
    let mut rx = ReceiveFrame::new(false);
    rx.consume(&frame).unwrap();
    assert!(rx.complete());
    assert_eq!(rx.data(), &payload);
}

#[test]
fn crc_mismatch_error_carries_consumed() {
    let mut frame = bytes_from_hex("2b01040000c0defe51");
    frame[5] ^= 0xff; // corrupt id byte -> crc mismatch
    let mut rx = ReceiveFrame::new(false);
    let err = rx.consume(&frame).unwrap_err();
    assert!(matches!(err, RctError::FrameCrcMismatch { .. }));
}

#[test]
fn garbage_before_start_is_skipped() {
    let mut stream = b"junk\xff\x00".to_vec();
    stream.extend(bytes_from_hex("2b01040000c0defe51"));
    let mut rx = ReceiveFrame::new(false);
    rx.consume(&stream).unwrap();
    assert!(rx.complete());
    assert_eq!(rx.id(), 0xc0de);
}

// --- further scenarios ---

#[test]
fn roundtrip_every_command_keeps_wire_bytes() {
    for cmd in [
        Command::Write,
        Command::LongWrite,
        Command::Response,
        Command::LongResponse,
        Command::ReadPeriodically,
    ] {
        let payload: Vec<u8> = (0u8..40).collect();
        let frame = make_frame(cmd, 0x2b2d2b2d, &payload, 0, FrameType::Standard).unwrap();
        let mut rx = ReceiveFrame::new(false);
        assert_eq!(rx.consume(&frame).unwrap(), frame.len());
        assert!(rx.complete() && rx.crc_ok());
        assert_eq!(rx.command(), Some(cmd));
        assert_eq!(rx.id(), 0x2b2d2b2d);
        assert_eq!(rx.data(), payload.as_slice());
        assert_eq!(rx.wire_bytes(), frame);
        assert_eq!(rx.consumed_bytes(), frame.len());
        assert_eq!(rx.address(), 0);
    }
}

#[test]
fn long_frame_with_large_payload() {
    let payload: Vec<u8> = (0..600u32).map(|i| (i % 251) as u8).collect();
    let frame = make_frame(Command::LongWrite, 7, &payload, 0, FrameType::Standard).unwrap();
    // length field: 4 + 600 = 0x025c
    assert_eq!(&frame[1..4], &[0x03, 0x02, 0x5c]);
    let mut rx = ReceiveFrame::new(false);
    rx.consume(&frame).unwrap();
    assert!(rx.complete() && rx.crc_ok());
    assert_eq!(rx.data(), payload.as_slice());
}

#[test]
fn read_frame_ignores_payload() {
    let f = make_frame(Command::Read, 0xc0de, &[1, 2], 0, FrameType::Standard).unwrap();
    let plain = make_frame(Command::Read, 0xc0de, &[], 0, FrameType::Standard).unwrap();
    assert_eq!(f, plain);
    // the length byte counts the id only
    assert_eq!(f[2], 4);
    assert_eq!(&f[3..7], &[0x00, 0x00, 0xc0, 0xde]);
    let mut rx = ReceiveFrame::new(false);
    assert_eq!(rx.consume(&f).unwrap(), f.len());
    assert!(rx.complete() && rx.crc_ok());
    assert_eq!(rx.command(), Some(Command::Read));
    assert_eq!(rx.id(), 0xc0de);
    assert!(rx.data().is_empty());
}

/// Escape a frame body and CRC as a sender puts them on the wire.
fn wire(body: &[u8]) -> Vec<u8> {
    let mut full = body.to_vec();
    full.extend_from_slice(&crc16(body).to_be_bytes());
    let mut out = vec![START_TOKEN];
    for b in full {
        if b == START_TOKEN || b == ESCAPE_TOKEN {
            out.push(ESCAPE_TOKEN);
        }
        out.push(b);
    }
    out
}

#[test]
fn plant_read_frame_is_parsed() {
    let body = [0x41, 0x08, 1, 1, 1, 1, 2, 2, 2, 2];
    let f = wire(&body);
    let mut rx = ReceiveFrame::new(false);
    assert_eq!(rx.consume(&f).unwrap(), f.len());
    assert!(rx.complete() && rx.crc_ok());
    assert_eq!(rx.command(), Some(Command::Read));
    assert_eq!(rx.address(), 0x01010101);
    assert_eq!(rx.id(), 0x02020202);
    assert!(rx.data().is_empty());
    assert_eq!(rx.wire_bytes(), f);
}

#[test]
fn plant_response_frame_is_parsed_with_its_data() {
    let body = [0x45, 0x0b, 0xde, 0xad, 0xbe, 0xef, 0x2b, 0, 0, 0x2d, 7, 8, 9];
    let f = wire(&body);
    let mut rx = ReceiveFrame::new(false);
    assert_eq!(rx.consume(&f).unwrap(), f.len());
    assert!(rx.complete() && rx.crc_ok());
    assert_eq!(rx.command(), Some(Command::Response));
    assert_eq!(rx.address(), 0xdeadbeef);
    assert_eq!(rx.id(), 0x2b00002d);
    assert_eq!(rx.data(), &[7, 8, 9]);
}

#[test]
fn plant_long_response_frame_is_parsed() {
    let body = [0x46, 0x00, 0x0a, 0, 0, 0, 5, 0, 0, 0, 6, 0xaa, 0xbb];
    let f = wire(&body);
    let mut rx = ReceiveFrame::new(true);
    assert_eq!(rx.consume(&f).unwrap(), f.len());
    assert!(rx.complete() && rx.crc_ok());
    assert_eq!(rx.command(), Some(Command::LongResponse));
    assert_eq!(rx.address(), 5);
    assert_eq!(rx.id(), 6);
    assert_eq!(rx.data(), &[0xaa, 0xbb]);
}

#[test]
fn plant_frame_layout() {
    let f = make_frame(Command::Write, 0x01020304, &[9], 0x0a0b0c0e, FrameType::Plant).unwrap();
    assert_eq!(&f[..12], &[START_TOKEN, 0x02, 9, 0x0a, 0x0b, 0x0c, 0x0e, 1, 2, 3, 4, 9]);
}

#[test]
fn frames_split_across_calls() {
    let frame = make_frame(Command::Response, 0xc0de, &[1, 2, 3, 4], 0, FrameType::Standard).unwrap();
    let mut rx = ReceiveFrame::new(false);
    assert!(rx.no_bytes());
    let (a, b) = frame.split_at(5);
    assert_eq!(rx.consume(a).unwrap(), 5);
    assert!(!rx.complete());
    assert!(!rx.no_bytes());
    assert_eq!(rx.consume(b).unwrap(), b.len());
    assert!(rx.complete());
    assert_eq!(rx.data_hex(), "01020304");
    assert_eq!(rx.consumed_bytes(), frame.len());
}

#[test]
fn invalid_command_is_reported() {
    let mut rx = ReceiveFrame::new(false);
    match rx.consume(&[0x00, START_TOKEN, 0x04, 0x04]) {
        Err(RctError::InvalidCommand { cmd, consumed }) => {
            assert_eq!(cmd, 0x04);
            assert_eq!(consumed, 3);
        }
        other => panic!("unexpected {other:?}"),
    }
    let mut rx = ReceiveFrame::new(false);
    assert!(matches!(
        rx.consume(&[START_TOKEN, 0x3c]),
        Err(RctError::InvalidCommand { cmd: 0x3c, consumed: 2 })
    ));
}

#[test]
fn length_exceeded_is_reported() {
    // length byte 0: frame length 5 is reached before the header is complete
    let mut rx = ReceiveFrame::new(false);
    let r = rx.consume(&[START_TOKEN, 0x01, 0x00, 0, 0, 0, 0, 0, 0]);
    assert!(matches!(r, Err(RctError::FrameLengthExceeded { consumed: 8 })));
}

#[test]
fn crc_mismatch_values_and_ignore_flag() {
    let mut frame = bytes_from_hex("2b01040000c0defe51");
    frame[8] ^= 0x01;
    let mut rx = ReceiveFrame::new(false);
    match rx.consume(&frame) {
        Err(RctError::FrameCrcMismatch { received, calculated, consumed }) => {
            assert_eq!(received, 0xfe50);
            assert_eq!(calculated, 0xfe51);
            assert_eq!(consumed, 9);
        }
        other => panic!("unexpected {other:?}"),
    }
    let mut rx = ReceiveFrame::new(true);
    assert_eq!(rx.consume(&frame).unwrap(), 9);
    assert!(rx.complete());
    assert!(!rx.crc_ok());
}

#[test]
fn short_length_field_is_length_exceeded() {
    // length byte 3: the frame would end one byte after its header
    let bytes = [START_TOKEN, 0x01, 0x03, 0, 0, 0, 1, 0x55];
    let mut rx = ReceiveFrame::new(false);
    assert!(matches!(rx.consume(&bytes), Err(RctError::FrameLengthExceeded { consumed: 8 })));
    assert!(!rx.complete() && !rx.crc_ok());
    // the caller drops the consumed bytes and starts a new parser
    let mut rx = ReceiveFrame::new(false);
    let ok = bytes_from_hex("2b01040000c0defe51");
    assert_eq!(rx.consume(&ok).unwrap(), 9);
    assert!(rx.complete());
}

#[test]
fn consume_returns_at_frame_end() {
    let mut stream = bytes_from_hex("2b01040000c0defe51");
    stream.extend([1, 2, 3]);
    let mut rx = ReceiveFrame::new(false);
    assert_eq!(rx.consume(&stream).unwrap(), 9);
}

#[test]
fn start_token_only_at_frame_start() {
    let payload = [0x2bu8, 0x2b, 0x2d, 0x2d, 0x2b];
    let f = make_frame(Command::Write, 0x2b2b2d2d, &payload, 0, FrameType::Standard).unwrap();
    assert_eq!(f[0], START_TOKEN);
    for i in 1..f.len() {
        if f[i] == START_TOKEN {
            assert_eq!(f[i - 1], ESCAPE_TOKEN);
        }
    }
}

#[test]
fn read_payload_and_standard_address_do_not_reach_the_wire() {
    let a = make_frame(Command::Write, 5, &[1, 2], 0, FrameType::Standard).unwrap();
    let b = make_frame(Command::Write, 5, &[1, 2], 0xdeadbeef, FrameType::Standard).unwrap();
    assert_eq!(a, b);
    let c = make_frame(Command::Read, 5, &[1, 2], 0, FrameType::Standard).unwrap();
    let d = make_frame(Command::Read, 5, &[7, 8], 0, FrameType::Standard).unwrap();
    assert_eq!(c, d);
}

#[test]
fn wire_bytes_start_at_the_start_token() {
    let frame = make_frame(Command::Response, 0x2d2d2d2d, &[0x2b, 1], 0, FrameType::Standard).unwrap();
    let mut stream = vec![0x00, 0x2d, 0x11];
    stream.extend_from_slice(&frame);
    let mut rx = ReceiveFrame::new(false);
    assert_eq!(rx.consume(&stream).unwrap(), stream.len());
    assert_eq!(rx.wire_bytes(), frame);
    assert_eq!(rx.data(), &[0x2b, 1]);
}

#[test]
fn parser_holds_one_frame() {
    let frame = bytes_from_hex("2b01040000c0defe51");
    let mut rx = ReceiveFrame::new(false);
    assert_eq!(rx.consume(&frame).unwrap(), 9);
    assert!(matches!(rx.consume(&[0x01]), Err(RctError::FrameLengthExceeded { consumed: 1 })));
}

#[test]
fn completed_frame_is_not_changed_by_more_input() {
    let frame = make_frame(Command::Response, 0x11223344, &[5, 6], 0, FrameType::Standard).unwrap();
    let mut rx = ReceiveFrame::new(false);
    assert_eq!(rx.consume(&frame).unwrap(), frame.len());
    let other = make_frame(Command::Write, 9, &[1], 0, FrameType::Standard).unwrap();
    // an escape token is taken, the byte after it overruns the frame
    assert_eq!(rx.consume(&[ESCAPE_TOKEN]).unwrap(), 1);
    assert!(rx.consume(&other).is_err());
    assert!(rx.complete() && rx.crc_ok());
    assert_eq!(rx.command(), Some(Command::Response));
    assert_eq!(rx.id(), 0x11223344);
    assert_eq!(rx.address(), 0);
    assert_eq!(rx.data(), &[5, 6]);
}

#[test]
fn crc_mismatch_completes_without_crc_ok() {
    let mut frame = bytes_from_hex("2b01040000c0defe51");
    frame[7] ^= 0x10;
    let mut rx = ReceiveFrame::new(false);
    assert!(matches!(rx.consume(&frame), Err(RctError::FrameCrcMismatch { consumed: 9, .. })));
    assert!(rx.complete());
    assert!(!rx.crc_ok());
    // a fresh parser has neither
    let rx = ReceiveFrame::new(false);
    assert!(!rx.complete() && !rx.crc_ok());
}

#[test]
fn crc_over_data_and_its_checksum_is_zero() {
    for data in [&[][..], &[1, 2][..], &[0x2b, 0x01, 0x04, 0x00, 0x00, 0xc0, 0xde, 0xff][..]] {
        let mut all = data.to_vec();
        all.extend_from_slice(&crc16(data).to_be_bytes());
        assert_eq!(crc16(&all), 0);
    }
}
