use rustems::comms::command::Command;
use rustems::comms::control::{
    BenchTarget, CalibrateRoutine, OverrideTarget, Overrides, OVERRIDE_TARGETS,
};
use rustems::comms::telemetry::{channel_wire, packed_data_len, SubscribeError, WireType};
use rustems::comms::{
    crc32, decode_frame, encode_frame, handle_request, FrameError, TuneState, CMD_BURN, CMD_CRC,
    CMD_HELLO, CMD_OUTPUT, CMD_PROTOCOL, CMD_READ, CMD_VERSION, CMD_WRITE, TS_RESPONSE_OK,
    TS_RESPONSE_REJECTED, TS_RESPONSE_UNRECOGNISED,
};

#[test]
fn crc32_known_vector() {
    assert_eq!(crc32(b"123456789"), 0xCBF4_3926);
}

#[test]
fn frame_round_trip() {
    let payload = b"hello world";
    let mut buf = [0u8; 64];
    let n = encode_frame(payload, &mut buf).unwrap();
    let (decoded, consumed) = decode_frame(&buf[..n]).unwrap();
    assert_eq!(decoded, payload);
    assert_eq!(consumed, n);
}

#[test]
fn frame_incomplete_is_reported() {
    let mut buf = [0u8; 64];
    let n = encode_frame(b"abc", &mut buf).unwrap();
    assert_eq!(decode_frame(&buf[..n - 1]), Err(FrameError::Incomplete));
}

#[test]
fn frame_crc_mismatch_detected() {
    let mut buf = [0u8; 64];
    let n = encode_frame(b"abc", &mut buf).unwrap();
    buf[2] ^= 0xFF;
    assert_eq!(decode_frame(&buf[..n]), Err(FrameError::CrcMismatch));
}

#[test]
fn frame_with_trailing_bytes_consumes_only_the_frame() {
    let mut buf = [0xEEu8; 64];
    let n = encode_frame(b"xy", &mut buf).unwrap();
    assert_eq!(n, 8);
    assert_eq!(&buf[..2], &[0, 2]);
    let (p, consumed) = decode_frame(&buf).unwrap();
    assert_eq!(p, b"xy");
    assert_eq!(consumed, 8);
}

#[test]
fn frame_output_too_small() {
    let mut buf = [0u8; 8];
    assert_eq!(encode_frame(b"abc", &mut buf), None);
    assert_eq!(decode_frame(&[0, 1, 2]), Err(FrameError::Incomplete));
}

fn make_state<'a>(config: &'a mut [u8], outputs: &'a [u8]) -> TuneState<'a> {
    TuneState {
        signature: b"rusEFI RustEMS",
        firmware_version: b"2026.05",
        config,
        outputs,
        burn_pending: false,
    }
}

#[test]
fn hello_returns_signature() {
    let mut cfg = [0u8; 8];
    let outs = [0u8; 4];
    let mut state = make_state(&mut cfg, &outs);
    let mut resp = [0u8; 64];
    let n = handle_request(&[CMD_HELLO], &mut state, &mut resp).unwrap();
    assert_eq!(resp[0], TS_RESPONSE_OK);
    assert_eq!(&resp[1..n], b"rusEFI RustEMS");
}

#[test]
fn output_channels_returns_slice() {
    let mut cfg = [0u8; 4];
    let outs = [10u8, 20, 30, 40, 50];
    let mut state = make_state(&mut cfg, &outs);
    let mut resp = [0u8; 64];
    let req = [CMD_OUTPUT, 0, 1, 0, 3];
    let n = handle_request(&req, &mut state, &mut resp).unwrap();
    assert_eq!(resp[0], TS_RESPONSE_OK);
    assert_eq!(&resp[1..n], &[20, 30, 40]);
}

#[test]
fn write_then_read_and_crc() {
    let mut cfg = [0u8; 16];
    let outs = [0u8; 4];
    let mut state = make_state(&mut cfg, &outs);
    let mut resp = [0u8; 64];

    let req = [CMD_WRITE, 0, 0, 0, 2, 0xAA, 0xBB];
    let n = handle_request(&req, &mut state, &mut resp).unwrap();
    assert_eq!(&resp[..n], &[TS_RESPONSE_OK]);

    let req = [CMD_READ, 0, 0, 0, 2, 0, 2];
    let n = handle_request(&req, &mut state, &mut resp).unwrap();
    assert_eq!(resp[0], TS_RESPONSE_OK);
    assert_eq!(&resp[1..n], &[0xAA, 0xBB]);

    let _ = handle_request(&[CMD_BURN], &mut state, &mut resp).unwrap();
    assert!(state.burn_pending);
}

#[test]
fn out_of_range_read_is_rejected_not_panicked() {
    let mut cfg = [0u8; 4];
    let outs = [0u8; 4];
    let mut state = make_state(&mut cfg, &outs);
    let mut resp = [0u8; 64];
    let req = [CMD_READ, 0, 0, 0, 2, 0, 100];
    let n = handle_request(&req, &mut state, &mut resp).unwrap();
    assert_eq!(&resp[..n], &[TS_RESPONSE_REJECTED]);
}

#[test]
fn unknown_command_is_rejected() {
    let mut cfg = [0u8; 4];
    let outs = [0u8; 4];
    let mut state = make_state(&mut cfg, &outs);
    let mut resp = [0u8; 64];
    let n = handle_request(&[b'Z'], &mut state, &mut resp).unwrap();
    assert_eq!(&resp[..n], &[TS_RESPONSE_UNRECOGNISED]);
}

#[test]
fn version_protocol_and_crc_commands() {
    let mut cfg = [1u8, 2, 3, 4, 5, 6, 7, 8, 9];
    let outs = [0u8; 4];
    let expected_crc = crc32(b"123456789").to_be_bytes();
    for (i, b) in b"123456789".iter().enumerate() {
        cfg[i] = *b;
    }
    let mut state = make_state(&mut cfg, &outs);
    let mut resp = [0u8; 64];

    let n = handle_request(&[CMD_VERSION], &mut state, &mut resp).unwrap();
    assert_eq!(&resp[..n], b"\x002026.05");

    let n = handle_request(&[CMD_PROTOCOL], &mut state, &mut resp).unwrap();
    assert_eq!(&resp[..n], b"\x00001");

    let req = [CMD_CRC, 0, 0, 0, 0, 0, 9];
    let n = handle_request(&req, &mut state, &mut resp).unwrap();
    assert_eq!(n, 5);
    assert_eq!(resp[0], TS_RESPONSE_OK);
    assert_eq!(&resp[1..5], &expected_crc);
}

#[test]
fn malformed_and_unanswerable_requests_send_nothing() {
    let mut cfg = [0u8; 4];
    let outs = [0u8; 4];
    let mut state = make_state(&mut cfg, &outs);
    let mut resp = [0u8; 64];
    assert_eq!(handle_request(&[], &mut state, &mut resp), None);
    assert_eq!(handle_request(&[CMD_READ, 0, 0, 0], &mut state, &mut resp), None);
    // Response buffer too small for the signature.
    let mut tiny = [0u8; 3];
    assert_eq!(handle_request(&[CMD_HELLO], &mut state, &mut tiny), None);
}

#[test]
fn out_of_range_write_leaves_config_untouched() {
    let mut cfg = [7u8; 4];
    let outs = [0u8; 4];
    let mut state = make_state(&mut cfg, &outs);
    let mut resp = [0u8; 8];
    let req = [CMD_WRITE, 0, 0, 0, 3, 1, 2];
    let n = handle_request(&req, &mut state, &mut resp).unwrap();
    assert_eq!(&resp[..n], &[TS_RESPONSE_REJECTED]);
    assert_eq!(state.config, &[7u8; 4]);
}

#[test]
fn enums_round_trip() {
    for v in 0..OVERRIDE_TARGETS as u8 {
        assert_eq!(OverrideTarget::from_u8(v).map(|t| t as u8), Some(v));
    }
    assert!(OverrideTarget::from_u8(99).is_none());
    for v in 0..=5u8 {
        assert_eq!(BenchTarget::from_u8(v).map(|t| t as u8), Some(v));
    }
    for v in 0..=3u8 {
        assert_eq!(CalibrateRoutine::from_u8(v).map(|t| t as u8), Some(v));
    }
    assert!(BenchTarget::from_u8(6).is_none());
    assert!(CalibrateRoutine::from_u8(4).is_none());
}

#[test]
fn wire_lengths_and_packed_layout() {
    assert_eq!(WireType::U16.wire_len(), 2);
    assert_eq!(WireType::I16.wire_len(), 2);
    assert_eq!(WireType::Bit.wire_len(), 0);
    assert_eq!(channel_wire(2), Some(WireType::I16));
    assert_eq!(channel_wire(1), Some(WireType::U16));
    assert_eq!(channel_wire(33), Some(WireType::Bit));
    assert_eq!(channel_wire(99), None);
    // rpm (2) + clt (2) + 9 bits (2 bytes) + unknown (0)
    assert_eq!(packed_data_len(&[1, 2, 32, 33, 34, 35, 36, 37, 32, 33, 34, 999]), 6);
    assert_eq!(packed_data_len(&[]), 0);
    assert_eq!(packed_data_len(&[32]), 1);
    let e = SubscribeError::BadChannel(7);
    assert_eq!(e, SubscribeError::BadChannel(7));
}

#[test]
fn override_set_get_clear() {
    let mut ov = Overrides::new();
    ov.set(OverrideTarget::TimingFix, 10.0f32.to_bits(), 1000, 0);
    assert_eq!(ov.get(OverrideTarget::TimingFix, 500).map(f32::from_bits), Some(10.0));
    assert!(ov.clear(OverrideTarget::TimingFix));
    assert_eq!(ov.get(OverrideTarget::TimingFix, 500), None);
}

#[test]
fn override_expires() {
    let mut ov = Overrides::new();
    ov.set(OverrideTarget::SparkCut, 1.0f32.to_bits(), 100, 0);
    assert_eq!(ov.get(OverrideTarget::SparkCut, 99).map(f32::from_bits), Some(1.0));
    assert_eq!(ov.get(OverrideTarget::SparkCut, 101), None);
    // Expiry is sticky
    assert_eq!(ov.get(OverrideTarget::SparkCut, 50), None);
}

#[test]
fn clear_all_failsafe() {
    let mut ov = Overrides::new();
    ov.set(OverrideTarget::FuelCut, 1.0f32.to_bits(), 30_000, 0);
    ov.set(OverrideTarget::BoostDuty, 50.0f32.to_bits(), 30_000, 0);
    assert!(ov.any_active());
    ov.clear_all();
    assert!(!ov.any_active());
}

#[test]
fn override_timeout_is_clamped_and_wraps() {
    let mut ov = Overrides::default();
    assert!(!ov.clear(OverrideTarget::IdlePosition));
    // zero timeout becomes 1 ms
    ov.set(OverrideTarget::IdlePosition, 7, 0, 10);
    assert_eq!(ov.get(OverrideTarget::IdlePosition, 10), Some(7));
    assert_eq!(ov.get(OverrideTarget::IdlePosition, 11), None);
    // long timeouts are capped at 30 s, across clock wrap-around
    let start = u32::MAX - 5;
    ov.set(OverrideTarget::BoostDuty, 3, 60_000, start);
    assert_eq!(ov.get(OverrideTarget::BoostDuty, start.wrapping_add(29_999)), Some(3));
    assert_eq!(ov.get(OverrideTarget::BoostDuty, start.wrapping_add(30_000)), None);
    assert!(!ov.any_active());
}

#[test]
fn client_commands_are_understood() {
    assert_eq!(Command::Hello.to_payload(), vec![CMD_HELLO]);
    assert_eq!(Command::GetFirmwareVersion.to_payload(), vec![CMD_VERSION]);
    assert_eq!(Command::Burn.to_payload(), vec![CMD_BURN]);
    assert_eq!(
        Command::ReadPage { page: 0, offset: 0x0102, length: 3 }.to_payload(),
        vec![CMD_READ, 0, 0, 1, 2, 0, 3]
    );
    assert_eq!(
        Command::OutputChannels { offset: 1, length: 2 }.to_payload(),
        vec![CMD_OUTPUT, 0, 1, 0, 2]
    );
    assert_eq!(
        Command::CrcCheck { page: 0, offset: 0, length: 16 }.to_payload(),
        vec![CMD_CRC, 0, 0, 0, 0, 0, 16]
    );

    let mut cfg = [0u8; 16];
    let outs = [7u8, 8, 9];
    let mut state = make_state(&mut cfg, &outs);
    let mut resp = [0u8; 64];
    let write = Command::WriteChunk { page: 0, offset: 4, data: vec![0xDE, 0xAD] }.to_payload();
    let n = handle_request(&write, &mut state, &mut resp).unwrap();
    assert_eq!(&resp[..n], &[TS_RESPONSE_OK]);
    let read = Command::ReadPage { page: 0, offset: 4, length: 2 }.to_payload();
    let n = handle_request(&read, &mut state, &mut resp).unwrap();
    assert_eq!(&resp[..n], &[TS_RESPONSE_OK, 0xDE, 0xAD]);
    let och = Command::OutputChannels { offset: 1, length: 2 }.to_payload();
    let n = handle_request(&och, &mut state, &mut resp).unwrap();
    assert_eq!(&resp[..n], &[TS_RESPONSE_OK, 8, 9]);
}
