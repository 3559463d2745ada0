use rustems::cbor::{
    BenchTestRequest, ClearFaultsRequest, ClearOverrideRequest, ConfigResetDefaultsRequest,
    EnterBootloaderRequest, GetCatalogRequest, PingRequest, UnsubscribeRequest,
};
use rustems::comms::control::{BenchTarget, CalibrateRoutine, OverrideTarget};
use rustems::comms::faults::{EventKind, Severity, OVER_TEMP};
use rustems::comms::rdp::server::{RdpInputs, RdpReply, RdpRequest, RdpServer};
use rustems::comms::rdp::{DeviceIdentity, BOOTLOADER_CONFIRM, RESET_DEFAULTS_CONFIRM};
use rustems::comms::telemetry::{
    fnv1a, telemetry_catalog_page, telemetry_hash, ChannelHashEntry, WireType, FNV_OFFSET,
};
use rustems::message::{op, ErrorCode, Kind, MessageHeader};

fn request(opcode: u16) -> MessageHeader {
    MessageHeader { kind: Kind::Request, op: opcode }
}

fn inputs(engine_running: bool) -> RdpInputs {
    RdpInputs { engine_running, now_ms: 1000, ram_crc: 0x1111, config_bytes: 4096 }
}

fn server() -> RdpServer {
    RdpServer::new(DeviceIdentity::sim(4), 0x1111)
}

fn ok() -> RdpReply {
    RdpReply::Status(ErrorCode::Success, 0)
}

#[test]
fn ping_echoes_nonce_and_uptime() {
    let mut s = server();
    let (reply, _) = s.step(request(op::PING), &RdpRequest::Ping(PingRequest { nonce: 0xCAFE }), inputs(false));
    assert_eq!(reply, RdpReply::Pong { nonce: 0xCAFE, uptime_ms: 1000 });
    let (reply, _) = s.step(request(op::PING), &RdpRequest::Undecoded, inputs(false));
    assert_eq!(reply, RdpReply::Pong { nonce: 0, uptime_ms: 1000 });
}

#[test]
fn config_transaction_save_discard_status() {
    let mut s = server();
    let (reply, _) = s.step(request(op::CONFIG_STATUS), &RdpRequest::Undecoded, inputs(false));
    assert_eq!(reply, RdpReply::ConfigStatus { dirty: false, ram_crc: 0x1111, flash_crc: 0x1111 });

    // Reset to defaults marks the RAM config dirty.
    let reset = RdpRequest::ConfigResetDefaults(ConfigResetDefaultsRequest { confirm: RESET_DEFAULTS_CONFIRM });
    let (_, actions) = s.step(request(op::CONFIG_RESET_DEFAULTS), &reset, inputs(false));
    assert!(actions.restore_defaults);
    assert!(s.is_dirty());
    let edited = RdpInputs { ram_crc: 0x2222, ..inputs(false) };
    let (reply, _) = s.step(request(op::CONFIG_STATUS), &RdpRequest::Undecoded, edited);
    assert_eq!(reply, RdpReply::ConfigStatus { dirty: true, ram_crc: 0x2222, flash_crc: 0x1111 });

    // Save: action flag, clean, flash CRC follows RAM.
    let (reply, actions) = s.step(request(op::CONFIG_SAVE), &RdpRequest::Undecoded, edited);
    assert!(actions.save);
    assert_eq!(reply, RdpReply::Saved { saved_bytes: 4096, crc: 0x2222 });
    assert!(!s.is_dirty());
    let (reply, _) = s.step(request(op::CONFIG_STATUS), &RdpRequest::Undecoded, edited);
    assert_eq!(reply, RdpReply::ConfigStatus { dirty: false, ram_crc: 0x2222, flash_crc: 0x2222 });

    // Discard: RAM reverts to the flash snapshot, clean.
    let _ = s.step(request(op::CONFIG_RESET_DEFAULTS), &reset, inputs(false));
    let (reply, actions) = s.step(request(op::CONFIG_DISCARD), &RdpRequest::Undecoded, inputs(false));
    assert_eq!(reply, ok());
    assert!(actions.restore_flash);
    assert!(!actions.save);
    assert!(!s.is_dirty());
}

#[test]
fn reset_defaults_requires_confirm_and_stopped_engine() {
    let mut s = server();
    let wrong = RdpRequest::ConfigResetDefaults(ConfigResetDefaultsRequest { confirm: 0x1234 });
    let (reply, actions) = s.step(request(op::CONFIG_RESET_DEFAULTS), &wrong, inputs(false));
    assert_eq!(reply, RdpReply::Status(ErrorCode::BadRequest, 0));
    assert!(!actions.restore_defaults);
    let right = RdpRequest::ConfigResetDefaults(ConfigResetDefaultsRequest { confirm: RESET_DEFAULTS_CONFIRM });
    let (reply, actions) = s.step(request(op::CONFIG_RESET_DEFAULTS), &right, inputs(true));
    assert_eq!(reply, RdpReply::Status(ErrorCode::Busy, 0));
    assert!(!actions.restore_defaults);
    let (reply, actions) = s.step(request(op::CONFIG_RESET_DEFAULTS), &right, inputs(false));
    assert_eq!(reply, ok());
    assert!(actions.restore_defaults);
}

#[test]
fn telemetry_subscribe_and_unsubscribe() {
    let mut s = server();
    let sub = RdpRequest::Subscribe { channels: vec![1], rate_hz: 500 };
    let (reply, _) = s.step(request(op::TELEM_SUBSCRIBE), &sub, inputs(false));
    assert_eq!(reply, RdpReply::Subscribed { stream_id: 1, rate_hz: 100 });
    assert_eq!(s.streams.active(), 1);
    let bad = RdpRequest::Subscribe { channels: vec![0xFFFF], rate_hz: 10 };
    let (reply, _) = s.step(request(op::TELEM_SUBSCRIBE), &bad, inputs(false));
    assert_eq!(reply, RdpReply::Status(ErrorCode::NotFound, 0xFFFF));
    let un = RdpRequest::Unsubscribe(UnsubscribeRequest { stream_id: 1 });
    let (reply, _) = s.step(request(op::TELEM_UNSUBSCRIBE), &un, inputs(false));
    assert_eq!(reply, ok());
    let (reply, _) = s.step(request(op::TELEM_UNSUBSCRIBE), &un, inputs(false));
    assert_eq!(reply, RdpReply::Status(ErrorCode::NotFound, 1));
    assert_eq!(s.streams.active(), 0);
}

#[test]
fn bench_test_rejected_while_running() {
    let mut s = server();
    let req = RdpRequest::BenchTest(BenchTestRequest { target: 0, index: 1, on_ms: 3, off_ms: 100, count: 5 });
    let (reply, _) = s.step(request(op::BENCH_TEST), &req, inputs(true));
    assert_eq!(reply, RdpReply::Status(ErrorCode::Busy, 0));
    let (reply, _) = s.step(request(op::BENCH_TEST), &req, inputs(false));
    assert_eq!(reply, ok());
    let bench = s.take_bench_test().unwrap();
    assert_eq!(bench.target, BenchTarget::Injector);
    assert_eq!(bench.count, 5);
    assert!(s.take_bench_test().is_none());
    let unknown = RdpRequest::BenchTest(BenchTestRequest { target: 9, index: 0, on_ms: 1, off_ms: 1, count: 1 });
    let (reply, _) = s.step(request(op::BENCH_TEST), &unknown, inputs(false));
    assert_eq!(reply, RdpReply::Status(ErrorCode::NotFound, 9));
}

#[test]
fn overrides_set_and_clear() {
    let mut s = server();
    let set = RdpRequest::SetOverride { target: 2, value: 10.0f32.to_bits(), timeout_ms: 5000 };
    let (reply, _) = s.step(request(op::SET_OVERRIDE), &set, inputs(false));
    assert_eq!(reply, ok());
    assert_eq!(s.overrides.get(OverrideTarget::TimingFix, 1000).map(f32::from_bits), Some(10.0));
    let clear = RdpRequest::ClearOverride(ClearOverrideRequest { target: 2 });
    let (reply, _) = s.step(request(op::CLEAR_OVERRIDE), &clear, inputs(false));
    assert_eq!(reply, ok());
    assert_eq!(s.overrides.get(OverrideTarget::TimingFix, 1000), None);
    let bad = RdpRequest::ClearOverride(ClearOverrideRequest { target: 7 });
    let (reply, _) = s.step(request(op::CLEAR_OVERRIDE), &bad, inputs(false));
    assert_eq!(reply, RdpReply::Status(ErrorCode::NotFound, 7));
}

#[test]
fn faults_and_events_flow() {
    let mut s = server();
    s.note_fault(OVER_TEMP, Severity::Critical, 0, 500);
    s.note_knock(3, 4000, 600);
    let (reply, _) = s.step(request(op::GET_FAULTS), &RdpRequest::Undecoded, inputs(false));
    assert_eq!(reply, RdpReply::FaultList);
    let faults = s.faults.records();
    assert_eq!(faults.len(), 1);
    assert!(faults[0].active);

    let e = s.poll_event().unwrap();
    assert_eq!(e.kind, EventKind::FaultSet);
    let e = s.poll_event().unwrap();
    assert_eq!(e.kind, EventKind::Knock);
    assert_eq!(e.a, 3);
    assert_eq!(e.b, 4000);
    assert!(s.poll_event().is_none());

    s.note_fault_cleared(OVER_TEMP, 700);
    assert_eq!(s.poll_event().unwrap().kind, EventKind::FaultCleared);
    let clear = RdpRequest::ClearFaults(ClearFaultsRequest { mask: 0xFFFF_FFFF });
    let (reply, _) = s.step(request(op::CLEAR_FAULTS), &clear, inputs(false));
    assert_eq!(reply, RdpReply::FaultsCleared(1));
}

#[test]
fn unknown_op_reports_error() {
    let mut s = server();
    let (reply, _) = s.step(request(0x7F7F), &RdpRequest::Undecoded, inputs(false));
    assert_eq!(reply, RdpReply::Status(ErrorCode::UnknownOp, 0));
    let (reply, _) = s.step(request(op::HELLO), &RdpRequest::Undecoded, inputs(false));
    assert_eq!(reply, RdpReply::Forward);
    let response = MessageHeader { kind: Kind::Response, op: op::PING };
    let (reply, _) = s.step(response, &RdpRequest::Undecoded, inputs(false));
    assert_eq!(reply, RdpReply::Silent);
}

#[test]
fn bootloader_requires_magic() {
    let mut s = server();
    let wrong = RdpRequest::EnterBootloader(EnterBootloaderRequest { confirm: 0 });
    let (reply, actions) = s.step(request(op::ENTER_BOOTLOADER), &wrong, inputs(false));
    assert!(!actions.enter_bootloader);
    assert_eq!(reply, RdpReply::Status(ErrorCode::BadRequest, 0));
    let right = RdpRequest::EnterBootloader(EnterBootloaderRequest { confirm: BOOTLOADER_CONFIRM });
    let (_, actions) = s.step(request(op::ENTER_BOOTLOADER), &right, inputs(false));
    assert!(actions.enter_bootloader);
    let (_, actions) = s.step(request(op::REBOOT), &RdpRequest::Undecoded, inputs(false));
    assert!(actions.reboot);
}

#[test]
fn disconnect_failsafe_clears_state() {
    let mut s = server();
    s.overrides.set(OverrideTarget::SparkCut, 1.0f32.to_bits(), 10_000, 0);
    let _ = s.streams.subscribe(&[1], 10, 0);
    s.on_disconnect();
    assert!(!s.overrides.any_active());
    assert_eq!(s.streams.active(), 0);
}

#[test]
fn fnv1a_known_values() {
    assert_eq!(fnv1a(FNV_OFFSET, b""), 0x811C_9DC5);
    assert_eq!(fnv1a(FNV_OFFSET, b"a"), 0xE40C_292C);
    assert_eq!(fnv1a(FNV_OFFSET, b"foobar"), 0xBF9C_F968);
}

#[test]
fn telemetry_hash_folds_each_channel() {
    assert_eq!(telemetry_hash(&[]), FNV_OFFSET);
    let e = ChannelHashEntry { id: 0x0102, key: b"rpm", scale_bits: 1.0f32.to_bits(), wire: WireType::I16, group: 3 };
    let mut h = fnv1a(FNV_OFFSET, &[0x02, 0x01]);
    h = fnv1a(h, b"rpm");
    h = fnv1a(h, &1.0f32.to_bits().to_le_bytes());
    h = fnv1a(h, &[1, 3]);
    assert_eq!(telemetry_hash(&[e]), h);
    assert_ne!(telemetry_hash(&[e, e]), h);
}

#[test]
fn telemetry_catalog_pages() {
    let (total, ids) = telemetry_catalog_page(0).unwrap();
    assert_eq!(total, 3);
    assert_eq!(ids, vec![1, 2, 3, 4, 5, 6, 7, 8]);
    let (_, ids) = telemetry_catalog_page(2).unwrap();
    assert_eq!(ids, vec![32, 33, 34, 35, 36, 37]);
    assert_eq!(telemetry_catalog_page(3), Err(3));
}

#[test]
fn catalog_read_once_and_calibrate_requests() {
    let mut s = server();
    let cat = RdpRequest::TelemetryCatalog(GetCatalogRequest { page: 1 });
    let (reply, _) = s.step(request(op::GET_TELEMETRY_CATALOG), &cat, inputs(false));
    assert_eq!(reply, RdpReply::TelemetryCatalog { page: 1, total_pages: 3 });
    let far = RdpRequest::TelemetryCatalog(GetCatalogRequest { page: 7 });
    let (reply, _) = s.step(request(op::GET_TELEMETRY_CATALOG), &far, inputs(false));
    assert_eq!(reply, RdpReply::Status(ErrorCode::NotFound, 7));
    let (reply, _) = s.step(request(op::GET_TELEMETRY_CATALOG), &RdpRequest::Undecoded, inputs(false));
    assert_eq!(reply, RdpReply::TelemetryCatalog { page: 0, total_pages: 3 });

    let read = RdpRequest::ReadOnce { channels: vec![1, 32] };
    let (reply, _) = s.step(request(op::TELEM_READ_ONCE), &read, inputs(false));
    assert_eq!(reply, RdpReply::ReadOnce);
    let read = RdpRequest::ReadOnce { channels: vec![1, 20, 99] };
    let (reply, _) = s.step(request(op::TELEM_READ_ONCE), &read, inputs(false));
    assert_eq!(reply, RdpReply::Status(ErrorCode::NotFound, 20));

    let baro = RdpRequest::Calibrate { routine: 2 };
    let (reply, _) = s.step(request(op::CALIBRATE), &baro, inputs(true));
    assert_eq!(reply, RdpReply::Status(ErrorCode::Busy, 0));
    let (reply, _) = s.step(request(op::CALIBRATE), &baro, inputs(false));
    assert_eq!(reply, RdpReply::Calibrated(CalibrateRoutine::MapBaro));
    let (reply, _) = s.step(request(op::CALIBRATE), &RdpRequest::Calibrate { routine: 9 }, inputs(false));
    assert_eq!(reply, RdpReply::Status(ErrorCode::NotFound, 9));
    assert!(!s.take_clear_adaptive());
    let (reply, _) = s.step(request(op::CALIBRATE), &RdpRequest::Calibrate { routine: 3 }, inputs(true));
    assert_eq!(reply, RdpReply::Calibrated(CalibrateRoutine::ClearAdaptive));
    assert!(s.take_clear_adaptive());
    assert!(!s.take_clear_adaptive());
}
