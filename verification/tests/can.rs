use rustems::can::dash::{
    bmw_frame_0aa, bmw_frame_0d5, haltech_frame_360, haltech_frame_361, haltech_frame_362,
    honda_frame_204, honda_frame_309, transmit_frames, DashCanEncoder, DashProtocol, DashReadings,
};
use rustems::can::obd2::{ObdHandler, ObdPid, ObdResponseBuilder, ObdService, ObdValues};
use rustems::can::CanManager;
use rustems::hal::{CanBus, CanFrame, RxDepth, RxLog, TxLog};

struct MockCan {
    frames: Vec<CanFrame>,
    capacity: usize,
    rx: Vec<CanFrame>,
}

impl MockCan {
    fn new(capacity: usize) -> Self {
        Self { frames: Vec::new(), capacity, rx: Vec::new() }
    }
}

impl CanBus for MockCan {
    // The logs are models for proofs; compiled code never calls them.
    fn tx_log(&self) -> TxLog {
        unreachable!()
    }
    fn rx_log(&self) -> RxLog {
        unreachable!()
    }
    fn rx_depth(&self) -> RxDepth {
        unreachable!()
    }
    fn transmit(&mut self, frame: &CanFrame) -> bool {
        if self.frames.len() < self.capacity {
            self.frames.push(*frame);
            true
        } else {
            false
        }
    }
    fn receive(&mut self) -> Option<CanFrame> {
        self.rx.pop()
    }
}

#[test]
fn can_frame_constructors_pad_and_truncate() {
    let f = CanFrame::standard(0x123, &[1, 2, 3]);
    assert_eq!(f.id, 0x123);
    assert!(!f.is_extended);
    assert_eq!(f.dlc, 3);
    assert_eq!(f.data, [1, 2, 3, 0, 0, 0, 0, 0]);
    let g = CanFrame::extended(0x1ABCDEF, &[9; 10]);
    assert!(g.is_extended);
    assert_eq!(g.id, 0x1ABCDEF);
    assert_eq!(g.dlc, 8);
    assert_eq!(g.data, [9; 8]);
}

#[test]
fn can_manager_counts_received_frames() {
    let mut mgr = CanManager::new();
    assert!(!mgr.is_enabled());
    mgr.enable();
    assert!(mgr.is_enabled());
    let mut can = MockCan::new(0);
    can.rx = vec![CanFrame::standard(1, &[]); 5];
    mgr.process_rx(&mut can);
    assert_eq!(mgr.rx_count(), 5);
    assert_eq!(mgr.tx_count(), 0);
    mgr.disable();
    assert!(!mgr.is_enabled());
}

#[test]
fn haltech_rpm_encoding() {
    // 3000 RPM at 0.25 RPM/bit = 12000 = 0x2EE0
    let frame = haltech_frame_360(12000, 0, 0, 0);
    let rpm_decoded = ((frame.data[0] as u16) << 8 | frame.data[1] as u16) as f32 / 4.0;
    assert!((rpm_decoded - 3000.0).abs() < 1.0);
    assert_eq!(frame.id, 0x360);
}

#[test]
fn haltech_clt_encoding() {
    // 85 °C + 40 = 125
    let frame = haltech_frame_362(125, 0);
    assert_eq!(frame.data[0], 125);
    assert_eq!(frame.id, 0x362);
}

#[test]
fn dash_frame_layouts() {
    let f = haltech_frame_361(0x0102, 0x0304, 142);
    assert_eq!(f.data, [1, 2, 3, 4, 142, 0, 0, 0]);
    assert_eq!(f.id, 0x361);
    let f = bmw_frame_0aa(true, 0x4B00);
    assert_eq!(f.data, [1, 0, 0, 0, 0x4B, 0x00, 0, 0]);
    assert_eq!(f.id, 0x0AA);
    assert_eq!(bmw_frame_0d5(177).data[0], 177);
    let f = honda_frame_204(0x2EE0);
    assert_eq!(f.id, 0x204);
    assert_eq!(&f.data[..2], &[0x2E, 0xE0]);
    let f = honda_frame_309(125, 127);
    assert_eq!(f.id, 0x309);
    assert_eq!(&f.data[..2], &[125, 127]);
}

#[test]
fn transmit_counts_accepted_frames() {
    let frames = [
        haltech_frame_360(1, 2, 3, 4),
        haltech_frame_361(1, 2, 3),
        haltech_frame_362(1, 2),
    ];
    let mut can = MockCan::new(8);
    assert_eq!(transmit_frames(&mut can, &frames), 3);
    assert_eq!(can.frames[0].id, 0x360);
    assert_eq!(can.frames[2].id, 0x362);
    let mut full = MockCan::new(1);
    assert_eq!(transmit_frames(&mut full, &frames), 1);
}

#[test]
fn dash_encoder_protocols() {
    let e = DashCanEncoder::new(DashProtocol::Haltech);
    assert_eq!(e.protocol(), DashProtocol::Haltech);
    assert_eq!(e.frame_count(), 3);
    assert_eq!(DashCanEncoder::new(DashProtocol::BmwEseries).frame_count(), 2);
    assert_eq!(DashCanEncoder::new(DashProtocol::HondaKseries).frame_count(), 2);
}

fn values() -> ObdValues {
    ObdValues {
        engine_turning: true,
        load: 153,
        coolant: 120,
        stft_b1: 128,
        ltft_b1: 130,
        map_kpa: 80,
        rpm_quarter: 4000,
        speed_kph: 50,
        timing_advance: 148,
        intake_temp: 65,
        maf_centi: 0x1234,
        throttle: 127,
        o2_voltage: 90,
    }
}

#[test]
fn obd_rpm_response() {
    let handler = ObdHandler::new(0x7E8);
    let q = CanFrame::standard(0x7DF, &[0x01, 0x0C]);
    let frame = handler.handle_query(&q, &values()).unwrap();
    // 1000 RPM * 4 = 4000 = 0x0FA0
    assert_eq!(frame.id, 0x7E8);
    assert_eq!(frame.dlc, 4);
    assert_eq!(&frame.data[..4], &[0x41, 0x0C, 0x0F, 0xA0]);
}

#[test]
fn obd_coolant_and_status_responses() {
    let handler = ObdHandler::new(0x7E8);
    let q = CanFrame::standard(0x7DF, &[0x01, 0x05]);
    let frame = handler.handle_query(&q, &values()).unwrap();
    assert_eq!(frame.data[2], 120);
    let q = CanFrame::standard(0x7DF, &[0x01, 0x03]);
    let frame = handler.handle_query(&q, &values()).unwrap();
    assert_eq!(&frame.data[..4], &[0x41, 0x03, 0x02, 0x00]);
    let q = CanFrame::standard(0x7DF, &[0x01, 0x00]);
    let frame = handler.handle_query(&q, &values()).unwrap();
    assert_eq!(&frame.data[..6], &[0x41, 0x00, 0x3E, 0x3F, 0xB0, 0x00]);
    let q = CanFrame::standard(0x7DF, &[0x01, 0x14]);
    let frame = handler.handle_query(&q, &values()).unwrap();
    assert_eq!(&frame.data[..4], &[0x41, 0x14, 90, 0xFF]);
}

#[test]
fn obd_unsupported_queries_get_no_answer() {
    let handler = ObdHandler::new(0x7E8);
    let q = CanFrame::standard(0x7DF, &[0x02, 0x0C]);
    assert!(handler.handle_query(&q, &values()).is_none());
    let q = CanFrame::standard(0x7DF, &[0x01, 0x12]);
    assert!(handler.handle_query(&q, &values()).is_none());
}

/// Wire-unit readings of rpm 3000, tps 50 %, clt 85 °C, iat 25 °C, map
/// 80 kPa, battery 14.2 V.
fn sensor_snapshot() -> DashReadings {
    DashReadings {
        rpm_quarter: 12000,
        tps_half_pct: 100,
        iat_offset: 65,
        map_deci_kpa: 800,
        lambda1_milli: 0,
        lambda2_milli: 0,
        vbatt_deci: 142,
        clt_offset: 125,
        oil_deci_kpa: 0,
        running: true,
        bmw_rpm: 19200,
        bmw_clt: 177,
        honda_tps: 127,
    }
}

#[test]
fn haltech_transmits_3_frames() {
    let mut can = MockCan::new(8);
    let encoder = DashCanEncoder::new(DashProtocol::Haltech);
    let sent = encoder.transmit_all(&mut can, &sensor_snapshot());
    assert_eq!(sent, 3);
    assert_eq!(can.frames[0].id, 0x360);
    assert_eq!(can.frames[1].id, 0x361);
    assert_eq!(can.frames[2].id, 0x362);
}

#[test]
fn bmw_transmits_2_frames() {
    let mut can = MockCan::new(8);
    let encoder = DashCanEncoder::new(DashProtocol::BmwEseries);
    let sent = encoder.transmit_all(&mut can, &sensor_snapshot());
    assert_eq!(sent, 2);
    assert_eq!(can.frames[0].id, 0x0AA);
    assert_eq!(can.frames[1].id, 0x0D5);
}

#[test]
fn honda_transmits_2_frames() {
    let mut can = MockCan::new(8);
    let encoder = DashCanEncoder::new(DashProtocol::HondaKseries);
    let sent = encoder.transmit_all(&mut can, &sensor_snapshot());
    assert_eq!(sent, 2);
    assert_eq!(can.frames[0].id, 0x204);
    assert_eq!(can.frames[1].id, 0x309);
    assert_eq!(&can.frames[1].data[..2], &[125, 127]);
}

#[test]
fn full_bus_accepts_fewer_frames() {
    let mut can = MockCan::new(1);
    let encoder = DashCanEncoder::new(DashProtocol::Haltech);
    assert_eq!(encoder.transmit_all(&mut can, &sensor_snapshot()), 1);
}

#[test]
fn rpm_response() {
    let handler = ObdHandler::new(0x7E8);
    // 1000 RPM in wire units (RPM × 4)
    let response = handler.rpm_response(4000);
    assert!(response.is_some());
    let frame = response.unwrap();
    // 1000 RPM * 4 = 4000 = 0x0FA0
    assert_eq!(frame.data[2], 0x0F);
    assert_eq!(frame.data[3], 0xA0);
}

#[test]
fn coolant_temp_response() {
    let handler = ObdHandler::new(0x7E8);
    // 80 °C in wire units (°C + 40)
    let response = handler.coolant_temp_response(120);
    assert!(response.is_some());
    let frame = response.unwrap();
    // 80°C + 40 = 120
    assert_eq!(frame.data[2], 120);
}

#[test]
fn per_pid_responses() {
    let h = ObdHandler::new(0x1_07E8);
    let f = h.pids_supported_response().unwrap();
    assert_eq!(f.id, 0x7E8);
    assert_eq!(f.dlc, 6);
    assert_eq!(h.fuel_system_status_response(false).unwrap().data[2], 0x01);
    assert_eq!(h.calculated_load_response(9).unwrap().data[..3], [0x41, 0x04, 9]);
    assert_eq!(h.map_response(80).unwrap().data[2], 80);
    assert_eq!(h.iat_response(65).unwrap().data[1], 0x0F);
    assert_eq!(h.tps_response(127).unwrap().data[1], 0x11);
    assert_eq!(h.o2_sensors_present_response().unwrap().data[2], 1);
    assert_eq!(h.o2_sensor_b1s1_response(90).unwrap().data[2..4], [90, 0xFF]);
}

#[test]
fn obd_response_builder() {
    let frame = ObdResponseBuilder::new(0x7E8)
        .service(ObdService::ShowCurrentData)
        .pid(ObdPid::Rpm)
        .byte(0x12)
        .byte(0x34)
        .build();
    assert!(frame.is_some());
    let frame = frame.unwrap();
    assert_eq!(frame.id, 0x7E8);
    assert_eq!(frame.dlc, 4);
    assert_eq!(&frame.data[..4], &[0x41, 0x0C, 0x12, 0x34]);
}

#[test]
fn obd_response_builder_limits() {
    assert!(ObdResponseBuilder::new(0x7E8).build().is_none());
    let mut b = ObdResponseBuilder::new(0x7E8);
    for i in 0..10u8 {
        b = b.byte(i);
    }
    let f = b.build().unwrap();
    assert_eq!(f.dlc, 8);
    assert_eq!(f.data, [0, 1, 2, 3, 4, 5, 6, 7]);
}
