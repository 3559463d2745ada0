use rustems::cobs::{decode, encode, max_encoded_len, CobsError};
use rustems::crc16::{crc16_ccitt, INIT};
use rustems::frame::{
    decode_frame, decode_frame_raw, encode_frame, encode_frame_raw, Flags, FrameError,
    FrameHeader, DELIMITER, HEADER_LEN, MAX_ENCODED_FRAME_LEN, MAX_PAYLOAD_LEN,
    MAX_RAW_FRAME_LEN,
};
use rustems::message::op;
use rustems::message::{
    op_category, read_message_header, write_message_header, ErrorCode, Kind, MessageError,
    ValueType, MESSAGE_HEADER_LEN,
};

// ── crc16 ──────────────────────────────────────────────────────────────────

#[test]
fn check_value() {
    assert_eq!(crc16_ccitt(b"123456789"), 0x29B1);
}

#[test]
fn empty_is_init() {
    assert_eq!(crc16_ccitt(&[]), INIT);
}

#[test]
fn single_byte_changes() {
    assert_ne!(crc16_ccitt(&[0x00]), crc16_ccitt(&[0x01]));
}

#[test]
fn order_matters() {
    assert_ne!(crc16_ccitt(&[0x01, 0x02]), crc16_ccitt(&[0x02, 0x01]));
}

// ── cobs ───────────────────────────────────────────────────────────────────

fn round_trip(data: &[u8]) {
    let mut enc = [0u8; 1024];
    let n = encode(data, &mut enc).unwrap();
    assert!(!enc[..n].contains(&0), "encoded data contains 0x00");
    let mut dec = [0u8; 1024];
    let m = decode(&enc[..n], &mut dec).unwrap();
    assert_eq!(&dec[..m], data);
}

#[test]
fn round_trip_empty() {
    round_trip(&[]);
}

#[test]
fn round_trip_no_zeros() {
    round_trip(&[1, 2, 3, 4, 5]);
}

#[test]
fn round_trip_with_zeros() {
    round_trip(&[0, 0, 0]);
    round_trip(&[1, 0, 2, 0, 3]);
    round_trip(&[0, 1, 2, 0]);
}

#[test]
fn round_trip_long_run() {
    let data: [u8; 600] = core::array::from_fn(|i| (i % 255 + 1) as u8);
    round_trip(&data);
}

#[test]
fn round_trip_long_run_with_zeros() {
    let mut data = [7u8; 600];
    data[300] = 0;
    data[599] = 0;
    round_trip(&data);
}

#[test]
fn encode_output_too_small() {
    let data = [1, 2, 3];
    let mut out = [0u8; 2];
    assert_eq!(encode(&data, &mut out), Err(CobsError::OutputTooSmall));
}

#[test]
fn decode_rejects_embedded_zero() {
    let mut out = [0u8; 16];
    assert_eq!(decode(&[2, 1, 0, 1], &mut out), Err(CobsError::UnexpectedZero));
}

#[test]
fn decode_truncated() {
    let mut out = [0u8; 16];
    assert_eq!(decode(&[5, 1], &mut out), Err(CobsError::Truncated));
}

#[test]
fn max_encoded_len_bound_holds() {
    for n in [0usize, 1, 253, 254, 255, 508, 600] {
        let data: Vec<u8> = (0..n).map(|i| (i % 254 + 1) as u8).collect();
        let mut enc = [0u8; 700];
        let written = encode(&data, &mut enc).unwrap();
        assert!(written <= max_encoded_len(n), "n={n} written={written}");
    }
}

#[test]
fn cobs_exact_run_of_254() {
    // A run of exactly 254 non-zero bytes closes a full block and leaves an
    // empty trailing block.
    let data = [9u8; 254];
    let mut enc = [0u8; 300];
    let n = encode(&data, &mut enc).unwrap();
    assert_eq!(n, 256);
    assert_eq!(enc[0], 0xFF);
    assert_eq!(enc[255], 0x01);
    let mut dec = [0u8; 300];
    assert_eq!(decode(&enc[..n], &mut dec), Ok(254));
}

#[test]
fn cobs_known_encoding() {
    let mut enc = [0u8; 8];
    let n = encode(&[0x11, 0x22, 0x00, 0x33], &mut enc).unwrap();
    assert_eq!(&enc[..n], &[0x03, 0x11, 0x22, 0x02, 0x33]);
}

#[test]
fn cobs_decode_output_too_small() {
    let mut out = [0u8; 2];
    assert_eq!(decode(&[0x04, 1, 2, 3], &mut out), Err(CobsError::OutputTooSmall));
}

// ── frame ──────────────────────────────────────────────────────────────────

#[test]
fn round_trip_stream() {
    let header = FrameHeader::new(Flags::none().with(Flags::RESPONSE_REQUESTED), 0x1234);
    let payload = b"\x00\x01\x02hello\x00world";

    let mut out = [0u8; MAX_ENCODED_FRAME_LEN];
    let n = encode_frame(&header, payload, &mut out).unwrap();

    assert_eq!(out[n - 1], DELIMITER);
    assert!(!out[..n - 1].contains(&0));

    let mut scratch = [0u8; MAX_RAW_FRAME_LEN];
    let (h, p) = decode_frame(&out[..n - 1], &mut scratch).unwrap();
    assert_eq!(h, header);
    assert_eq!(p, payload);
}

#[test]
fn round_trip_raw_empty_payload() {
    let header = FrameHeader::new(Flags::none(), 7);
    let mut raw = [0u8; MAX_RAW_FRAME_LEN];
    let n = encode_frame_raw(&header, &[], &mut raw).unwrap();
    let (h, p) = decode_frame_raw(&raw[..n]).unwrap();
    assert_eq!(h, header);
    assert_eq!(p, &[] as &[u8]);
}

#[test]
fn fragmentation_flags() {
    let f = Flags::none().with(Flags::FRAGMENT).with(Flags::LAST_FRAGMENT);
    assert!(f.has(Flags::FRAGMENT));
    assert!(f.has(Flags::LAST_FRAGMENT));
    assert!(!f.has(Flags::RESPONSE_REQUESTED));
}

#[test]
fn crc_mismatch_detected() {
    let header = FrameHeader::new(Flags::none(), 1);
    let mut raw = [0u8; MAX_RAW_FRAME_LEN];
    let n = encode_frame_raw(&header, b"abc", &mut raw).unwrap();
    raw[HEADER_LEN] ^= 0xFF;
    assert_eq!(decode_frame_raw(&raw[..n]), Err(FrameError::CrcMismatch));
}

#[test]
fn length_mismatch_detected() {
    let header = FrameHeader::new(Flags::none(), 1);
    let mut raw = [0u8; MAX_RAW_FRAME_LEN];
    let n = encode_frame_raw(&header, b"abcd", &mut raw).unwrap();
    raw[4] = 2;
    assert_eq!(decode_frame_raw(&raw[..n]), Err(FrameError::LengthMismatch));
}

#[test]
fn payload_too_large() {
    let header = FrameHeader::new(Flags::none(), 0);
    let big = [0u8; MAX_PAYLOAD_LEN + 1];
    let mut out = [0u8; MAX_ENCODED_FRAME_LEN];
    assert_eq!(encode_frame(&header, &big, &mut out), Err(FrameError::PayloadTooLarge));
}

#[test]
fn unsupported_version() {
    let header = FrameHeader::new(Flags::none(), 0);
    let mut raw = [0u8; MAX_RAW_FRAME_LEN];
    let n = encode_frame_raw(&header, b"x", &mut raw).unwrap();
    raw[0] = 0xEE;
    assert_eq!(decode_frame_raw(&raw[..n]), Err(FrameError::UnsupportedVersion(0xEE)));
}

#[test]
fn too_short() {
    assert_eq!(decode_frame_raw(&[1, 2, 3]), Err(FrameError::TooShort));
}

#[test]
fn max_payload_fits_encoded_buffer() {
    let header = FrameHeader::new(Flags::none(), 0xFFFF);
    let payload = [0xAAu8; MAX_PAYLOAD_LEN];
    let mut out = [0u8; MAX_ENCODED_FRAME_LEN];
    let n = encode_frame(&header, &payload, &mut out).unwrap();
    assert!(n <= MAX_ENCODED_FRAME_LEN);

    let mut scratch = [0u8; MAX_RAW_FRAME_LEN];
    let (_, p) = decode_frame(&out[..n - 1], &mut scratch).unwrap();
    assert_eq!(p, &payload);
}

#[test]
fn raw_frame_layout_is_little_endian() {
    let header = FrameHeader::new(Flags(0x05), 0x1234);
    let mut raw = [0u8; 16];
    let n = encode_frame_raw(&header, &[0xAB], &mut raw).unwrap();
    assert_eq!(n, 9);
    assert_eq!(&raw[..7], &[0x01, 0x05, 0x34, 0x12, 0x01, 0x00, 0xAB]);
    let crc = crc16_ccitt(&raw[..7]);
    assert_eq!(raw[7], (crc & 0xFF) as u8);
    assert_eq!(raw[8], (crc >> 8) as u8);
}

#[test]
fn raw_frame_output_too_small() {
    let header = FrameHeader::new(Flags::none(), 0);
    let mut raw = [0u8; 8];
    assert_eq!(encode_frame_raw(&header, b"x", &mut raw), Err(FrameError::OutputTooSmall));
}

#[test]
fn stream_frame_cobs_output_too_small() {
    let header = FrameHeader::new(Flags::none(), 0);
    let mut out = [0u8; 4];
    assert_eq!(
        encode_frame(&header, b"x", &mut out),
        Err(FrameError::Cobs(CobsError::OutputTooSmall))
    );
}

#[test]
fn stream_decode_reports_cobs_error() {
    let mut scratch = [0u8; 32];
    assert_eq!(
        decode_frame(&[0x05, 1], &mut scratch),
        Err(FrameError::Cobs(CobsError::Truncated))
    );
}

// ── message ────────────────────────────────────────────────────────────────

#[test]
fn header_round_trip() {
    let mut buf = [0u8; 32];
    let n = write_message_header(Kind::Request, op::HELLO, &mut buf).unwrap();
    assert_eq!(n, MESSAGE_HEADER_LEN);
    buf[n] = 0xAB;
    let (h, body) = read_message_header(&buf[..n + 1]).unwrap();
    assert_eq!(h.kind, Kind::Request);
    assert_eq!(h.op, op::HELLO);
    assert_eq!(body, &[0xAB]);
}

#[test]
fn op_categories() {
    assert_eq!(op_category(op::HELLO), 0x01);
    assert_eq!(op_category(op::GET_PARAM_CATALOG), 0x02);
    assert_eq!(op_category(op::PARAM_SET), 0x03);
    assert_eq!(op_category(op::TELEM_FRAME), 0x04);
    assert_eq!(op_category(op::BENCH_TEST), 0x05);
    assert_eq!(op_category(op::EVENT), 0x06);
}

#[test]
fn kind_round_trip() {
    for k in [Kind::Request, Kind::Response, Kind::Event, Kind::Telemetry] {
        assert_eq!(Kind::from_u8(k as u8), Some(k));
        assert_eq!(k.to_u8(), k as u8);
    }
    assert_eq!(Kind::from_u8(99), None);
}

#[test]
fn error_code_round_trip() {
    for c in 0u16..=10 {
        let e = ErrorCode::from_u16(c).unwrap();
        assert_eq!(e as u16, c);
        assert_eq!(e.to_u16(), c);
    }
    assert_eq!(ErrorCode::from_u16(999), None);
}

#[test]
fn value_type_round_trip() {
    for v in 0u8..=9 {
        let t = ValueType::from_u8(v).unwrap();
        assert_eq!(t as u8, v);
        assert_eq!(t.to_u8(), v);
    }
    assert_eq!(ValueType::from_u8(42), None);
}

#[test]
fn unknown_kind_rejected() {
    let buf = [0x09u8, 0x01, 0x01];
    assert_eq!(read_message_header(&buf), Err(MessageError::UnknownKind(9)));
}

#[test]
fn header_buffer_too_small() {
    let mut buf = [0u8; 2];
    assert_eq!(
        write_message_header(Kind::Request, op::HELLO, &mut buf),
        Err(MessageError::BufferTooSmall)
    );
}

#[test]
fn header_bytes_are_little_endian() {
    let mut buf = [0xEEu8; 4];
    write_message_header(Kind::Event, op::EVENT, &mut buf).unwrap();
    assert_eq!(buf, [2, 0xF0, 0x06, 0xEE]);
}
