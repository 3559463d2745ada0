use rustems::cbor::ErrorResponseBody;
use rustems::comms::rdp::{
    board, build_request, build_request_empty, capability, DeviceIdentity, RdpActions,
};
use rustems::comms::telemetry::{channel_wire, TelemetryStreams};
use rustems::frame::{encode_frame, encode_message, Flags, FrameError, FrameHeader};
use rustems::message::{op, read_message_header, ErrorCode, Kind, ValueType};
use rustems::rdp::{
    board_name, classify_inbound, decode_data, decode_status, next_seq, push_header,
    unpack_values, Inbound, RdpError, RxBuffer, PUSH_HEADER_LEN,
};

fn encoded(seq: u16, payload: &[u8]) -> Vec<u8> {
    let mut out = vec![0u8; payload.len() / 512 * 600 + 700];
    let n = encode_message(Flags::none(), seq, payload, &mut out).unwrap();
    out.truncate(n);
    out
}

#[test]
fn sequence_numbers_skip_zero() {
    assert_eq!(next_seq(1), 2);
    assert_eq!(next_seq(0x1234), 0x1235);
    assert_eq!(next_seq(0xFFFF), 1);
}

#[test]
fn small_message_pops_whole() {
    let mut rx = RxBuffer::new();
    rx.extend(&encoded(7, b"\x01\x01\x01hello"));
    assert_eq!(rx.pop_message(), Some((7, b"\x01\x01\x01hello".to_vec())));
    assert_eq!(rx.pop_message(), None);
}

#[test]
fn fragmented_message_reassembles() {
    let payload: Vec<u8> = (0..1300u32).map(|i| (i % 251) as u8).collect();
    let bytes = encoded(42, &payload);
    // Three fragments, each a delimited frame.
    assert_eq!(bytes.iter().filter(|&&b| b == 0).count(), 3);
    let mut rx = RxBuffer::new();
    // Feed in two halves: nothing complete until the last fragment arrives.
    let half = bytes.len() / 2;
    rx.extend(&bytes[..half]);
    assert_eq!(rx.pop_message(), None);
    rx.extend(&bytes[half..]);
    assert_eq!(rx.pop_message(), Some((42, payload)));
}

#[test]
fn stray_delimiters_and_corrupt_frames_are_skipped() {
    let mut rx = RxBuffer::new();
    rx.extend(&[0, 0]);
    rx.extend(&[0x05, 0x11, 0x22, 0x33, 0x44, 0x00]); // COBS-valid, not a frame
    rx.extend(&encoded(3, b"ok"));
    assert_eq!(rx.pop_message(), Some((3, b"ok".to_vec())));
}

#[test]
fn frame_without_delimiter_waits() {
    let bytes = encoded(9, b"abc");
    let mut rx = RxBuffer::new();
    rx.extend(&bytes[..bytes.len() - 1]);
    assert_eq!(rx.pop_message(), None);
    rx.extend(&[0]);
    assert_eq!(rx.pop_message(), Some((9, b"abc".to_vec())));
}

#[test]
fn encode_message_single_frame_matches_encode_frame() {
    let mut a = [0u8; 64];
    let mut b = [0u8; 64];
    let n = encode_message(Flags::none(), 5, b"xyz", &mut a).unwrap();
    let m = encode_frame(&FrameHeader::new(Flags::none(), 5), b"xyz", &mut b).unwrap();
    assert_eq!(&a[..n], &b[..m]);
}

#[test]
fn encode_message_reports_small_output() {
    let mut out = [0u8; 8];
    assert_eq!(
        encode_message(Flags::none(), 1, b"too long for eight bytes", &mut out),
        Err(FrameError::OutputTooSmall)
    );
}

#[test]
fn inbound_messages_are_sorted() {
    // Response to op 0x0101 in frame 4.
    let resp = [1u8, 0x01, 0x01, 0xAA];
    assert_eq!(classify_inbound(&resp, 4, 4, 0x0101), Inbound::Reply);
    assert_eq!(classify_inbound(&resp, 3, 4, 0x0101), Inbound::Ignore);
    assert_eq!(classify_inbound(&resp, 4, 4, 0x0102), Inbound::WrongOp(0x0101));
    assert_eq!(classify_inbound(&[3, 0xF0, 0x04], 9, 4, 0x0101), Inbound::Telemetry);
    assert_eq!(classify_inbound(&[2, 0xF0, 0x06], 9, 4, 0x0101), Inbound::Event);
    assert_eq!(classify_inbound(&[0, 0x01, 0x01], 4, 4, 0x0101), Inbound::Ignore);
    assert_eq!(classify_inbound(&[7, 0x01, 0x01], 4, 4, 0x0101), Inbound::Ignore);
    assert_eq!(classify_inbound(&[1, 0x01], 4, 4, 0x0101), Inbound::Ignore);
}

#[test]
fn telemetry_push_round_trip() {
    let mut streams = TelemetryStreams::new();
    let layout = [1u16, 2, 32, 7, 34];
    let (id, _) = streams.subscribe(&layout, 50, 0).unwrap();
    let mut raw = vec![0u16; 38];
    raw[1] = 3000;
    raw[2] = (-125i16) as u16;
    raw[7] = 1000;
    raw[32] = 0;
    raw[34] = 5;
    let mut body = [0u8; 64];
    let n = streams.encode_due_frame(&raw, 1234, &mut body).unwrap();
    let (sid, seq, ts) = push_header(&body[..n]).unwrap();
    assert_eq!((sid, seq, ts), (id, 0, 1234));
    let vts: Vec<ValueType> = layout
        .iter()
        .map(|&c| channel_wire(c).unwrap().value_type())
        .collect();
    let words = unpack_values(&body[PUSH_HEADER_LEN..n], &vts).unwrap();
    assert_eq!(words, vec![3000, (-125i16) as u16, 0, 1000, 1]);
}

#[test]
fn unpack_rejects_bad_layouts() {
    assert_eq!(unpack_values(&[1, 2, 3, 4], &[ValueType::F32]), None);
    assert_eq!(unpack_values(&[1], &[ValueType::U16]), None);
    assert_eq!(unpack_values(&[1, 2], &[ValueType::U16, ValueType::Bool]), None);
    assert_eq!(
        unpack_values(&[0x34, 0x12, 0b10], &[ValueType::U16, ValueType::Bool, ValueType::Bool]),
        Some(vec![0x1234, 0, 1])
    );
    assert_eq!(push_header(&[1, 2, 3]), None);
}

#[test]
fn response_outcomes() {
    assert!(matches!(decode_data(Some(5u32), None, op::PING), Ok(5)));
    let e = ErrorResponseBody { code: ErrorCode::NotFound, detail: 7, message: None };
    assert!(matches!(
        decode_data::<u32>(None, Some(e.clone()), op::PARAM_GET),
        Err(RdpError::Device { code: ErrorCode::NotFound, detail: 7 })
    ));
    assert!(matches!(
        decode_data::<u32>(None, None, op::PARAM_GET),
        Err(RdpError::Decode { op: op::PARAM_GET })
    ));
    assert!(matches!(decode_status(Some(e), op::BENCH_TEST), Ok(ErrorCode::NotFound)));
    assert!(matches!(
        decode_status(None, op::BENCH_TEST),
        Err(RdpError::Decode { op: op::BENCH_TEST })
    ));
}

#[test]
fn board_names() {
    assert_eq!(board_name(board::SIM), "Sim");
    assert_eq!(board_name(board::NANO), "Nano");
    assert_eq!(board_name(board::MICRO_RUSEFI), "microRusEFI");
    assert_eq!(board_name(board::UAEFI), "uaEFI");
    assert_eq!(board_name(board::PROTEUS), "Proteus");
    assert_eq!(board_name(board::HUGE), "Huge");
    assert_eq!(board_name(200), "unknown");
}

#[test]
fn sim_identity() {
    let id = DeviceIdentity::sim(4);
    assert_eq!(id.fw_version, "RustEMS 0.1.0");
    assert_eq!(id.board, board::SIM);
    assert_eq!(id.mcu, "x86-sim");
    assert_eq!(id.cylinders, 4);
    assert_eq!(
        id.capabilities,
        capability::FUEL | capability::IGNITION | capability::BOOST | capability::SEQUENTIAL
    );
    assert_eq!(id.capabilities, 0x47);
    assert_eq!(id.device_id, [0x51, 0x4D, 0, 0, 0, 0, 0, 0, 0, 0, 0, 0]);
    assert_eq!(RdpActions::default(), RdpActions {
            save: false,
            reboot: false,
            enter_bootloader: false,
            restore_flash: false,
            restore_defaults: false
        });
}

#[test]
fn request_payloads() {
    let mut out = [0xEEu8; 8];
    assert_eq!(build_request_empty(op::HELLO, &mut out), Some(3));
    assert_eq!(&out[..4], &[0, 0x01, 0x01, 0xEE]);
    let (h, body) = read_message_header(&out[..3]).unwrap();
    assert_eq!(h.kind, Kind::Request);
    assert_eq!(h.op, op::HELLO);
    assert!(body.is_empty());

    let mut out = [0u8; 8];
    assert_eq!(build_request(op::PING, &[0xA1, 0x00, 0x05], &mut out), Some(6));
    assert_eq!(&out[..6], &[0, 0x02, 0x01, 0xA1, 0x00, 0x05]);
    assert_eq!(build_request(op::PING, &[1, 2, 3, 4, 5, 6], &mut out), None);
    assert_eq!(build_request_empty(op::PING, &mut [0u8; 2]), None);
}
