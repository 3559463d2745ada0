use rustems::comms::telemetry::{SubscribeError, TelemetryStreams, MAX_STREAMS};

/// Raw wire words indexed by channel ID (all channels zero).
fn zeroed() -> Vec<u16> {
    vec![0u16; 38]
}

#[test]
fn subscribe_and_frame_layout() {
    let mut streams = TelemetryStreams::new();
    let (id, rate) = streams.subscribe(&[1, 2, 32, 34], 25, 0).unwrap();
    assert_eq!(id, 1);
    assert_eq!(rate, 25);

    // rpm = 3000 (scale 1), clt = 85.5 °C (scale 0.1 -> 855), dfco active
    let mut raw = zeroed();
    raw[1] = 3000;
    raw[2] = 855i16 as u16;
    raw[34] = 1;

    let mut buf = [0u8; 64];
    let n = streams.encode_due_frame(&raw, 0, &mut buf).unwrap();
    // 7 header + 2 (rpm) + 2 (clt) + 1 (2 bits)
    assert_eq!(n, 12);
    assert_eq!(buf[0], 1); // stream id
    assert_eq!(u16::from_le_bytes([buf[7], buf[8]]), 3000);
    assert_eq!(i16::from_le_bytes([buf[9], buf[10]]), 855);
    assert_eq!(buf[11], 0b10); // spark_cut=0 (bit0), dfco=1 (bit1)
}

#[test]
fn rate_limits_frames() {
    let mut streams = TelemetryStreams::new();
    let (_, rate) = streams.subscribe(&[1], 10, 0).unwrap();
    assert_eq!(rate, 10);
    let raw = zeroed();
    let mut buf = [0u8; 32];

    assert!(streams.encode_due_frame(&raw, 0, &mut buf).is_some());
    // 100 ms interval: not due at t=50
    assert!(streams.encode_due_frame(&raw, 50, &mut buf).is_none());
    assert!(streams.encode_due_frame(&raw, 100, &mut buf).is_some());
}

#[test]
fn seq_increments() {
    let mut streams = TelemetryStreams::new();
    let _ = streams.subscribe(&[1], 100, 0).unwrap();
    let raw = zeroed();
    let mut buf = [0u8; 32];
    let _ = streams.encode_due_frame(&raw, 0, &mut buf).unwrap();
    let s0 = u16::from_le_bytes([buf[1], buf[2]]);
    let _ = streams.encode_due_frame(&raw, 10, &mut buf).unwrap();
    let s1 = u16::from_le_bytes([buf[1], buf[2]]);
    assert_eq!(s1, s0.wrapping_add(1));
}

#[test]
fn bad_channel_rejected() {
    let mut streams = TelemetryStreams::new();
    assert_eq!(
        streams.subscribe(&[1, 999], 10, 0),
        Err(SubscribeError::BadChannel(999))
    );
}

#[test]
fn unsubscribe_frees_slot() {
    let mut streams = TelemetryStreams::new();
    let (id, _) = streams.subscribe(&[1], 10, 0).unwrap();
    assert_eq!(streams.active(), 1);
    assert!(streams.unsubscribe(id));
    assert_eq!(streams.active(), 0);
    assert!(!streams.unsubscribe(id));
}

#[test]
fn stream_slots_exhaust() {
    let mut streams = TelemetryStreams::new();
    for _ in 0..MAX_STREAMS {
        streams.subscribe(&[1], 10, 0).unwrap();
    }
    assert_eq!(
        streams.subscribe(&[1], 10, 0),
        Err(SubscribeError::NoFreeStream)
    );
}

#[test]
fn subscribe_limits_and_rate_clamp() {
    let mut streams = TelemetryStreams::default();
    assert_eq!(
        streams.subscribe(&[1; 17], 10, 0),
        Err(SubscribeError::TooManyChannels)
    );
    assert_eq!(streams.subscribe(&[1], 0, 0), Ok((1, 1)));
    assert_eq!(streams.subscribe(&[1], 500, 0), Ok((2, 100)));
    assert!(!streams.unsubscribe(0));
    assert!(!streams.unsubscribe(9));
    assert!(streams.unsubscribe(1));
    // the freed first slot is reused
    assert_eq!(streams.subscribe(&[2], 10, 0), Ok((1, 10)));
    streams.clear();
    assert_eq!(streams.active(), 0);
}

#[test]
fn short_buffer_reschedules_without_writing() {
    let mut streams = TelemetryStreams::new();
    streams.subscribe(&[1, 2, 3], 10, 0).unwrap();
    let raw = zeroed();
    let mut small = [0xAAu8; 12];
    assert_eq!(streams.encode_due_frame(&raw, 0, &mut small), None);
    assert_eq!(small, [0xAAu8; 12]);
    // the stream was rescheduled: not due again until t=100
    let mut buf = [0u8; 32];
    assert_eq!(streams.encode_due_frame(&raw, 50, &mut buf), None);
    assert_eq!(streams.encode_due_frame(&raw, 100, &mut buf), Some(13));
    // sequence number did not advance on the failed attempt
    assert_eq!(u16::from_le_bytes([buf[1], buf[2]]), 0);
}

#[test]
fn many_bits_pack_after_integers() {
    let mut streams = TelemetryStreams::new();
    let layout = [32, 33, 34, 35, 36, 37, 32, 33, 34, 5];
    streams.subscribe(&layout, 100, 0).unwrap();
    let mut raw = zeroed();
    raw[5] = 0x1234;
    raw[32] = 1;
    raw[34] = 7;
    raw[37] = 1;
    let mut buf = [0u8; 32];
    let n = streams.encode_due_frame(&raw, 0x01020304, &mut buf).unwrap();
    // 7 header + 2 (tps) + 2 bytes for 9 bits
    assert_eq!(n, 11);
    assert_eq!(&buf[3..7], &[0x04, 0x03, 0x02, 0x01]);
    assert_eq!(&buf[7..9], &[0x34, 0x12]);
    // bits: 32=1,33=0,34=1,35=0,36=0,37=1,32=1,33=0 | 34=1
    assert_eq!(buf[9], 0b0110_0101);
    assert_eq!(buf[10], 0b1);
}
