//! CAN dashboard/display protocols: Haltech IC-7 / Nexus / Pro (0x360–0x362),
//! BMW E-series cluster (0x0AA, 0x0D5) and Honda K-series display (0x204,
//! 0x309).
//!
//! The frames carry sensor readings already scaled to their wire units (the
//! scaling from physical values is done by the caller); this module lays out
//! the frames and hands them to the bus.
use vstd::prelude::*;
use crate::hal::{CanBus, CanFrame, padded_payload, log_since, offered_frames, accepted_count};

verus! {

/// Haltech CAN dash protocol base ID.
pub const HALTECH_BASE_ID: u16 = 0x360;

/// BMW E-series CAN instrument cluster ID for RPM / ignition status.
pub const BMW_CLUSTER_ID_0AA: u16 = 0x0AA;

/// BMW E-series CAN ID for coolant temperature.
pub const BMW_CLUSTER_ID_0D5: u16 = 0x0D5;

/// Honda K-series CAN ID for RPM / speed.
pub const HONDA_ID_204: u16 = 0x204;

/// Honda K-series CAN ID for engine status.
pub const HONDA_ID_309: u16 = 0x309;

/// Supported CAN dash protocols.
#[derive(Clone, Copy, Debug, PartialEq, Eq, Structural)]
pub enum DashProtocol {
    /// Haltech IC-7 / Nexus / Pro Dash (0x360–0x362).
    Haltech,
    /// BMW E-series instrument cluster (0x0AA, 0x0D5).
    BmwEseries,
    /// Honda K-series display (0x204, 0x309).
    HondaKseries,
}

/// The CAN IDs a protocol transmits, in order.
pub open spec fn protocol_ids(p: DashProtocol) -> Seq<u32> {
    match p {
        DashProtocol::Haltech => seq![0x360u32, 0x361u32, 0x362u32],
        DashProtocol::BmwEseries => seq![0x0AAu32, 0x0D5u32],
        DashProtocol::HondaKseries => seq![0x204u32, 0x309u32],
    }
}

/// Big-endian bytes of a `u16`.
pub open spec fn be16_bytes(v: u16) -> Seq<u8> {
    seq![(v / 256) as u8, (v % 256) as u8]
}

/// A standard 8-byte frame with the given ID and payload.
pub open spec fn frame_is(f: CanFrame, id: u32, payload: Seq<u8>) -> bool {
    &&& f.id == id
    &&& !f.is_extended
    &&& f.dlc == 8
    &&& f.data@ == payload
}

/// The (ID, payload) pairs a protocol sends for the readings `v`, in order.
pub open spec fn dash_payloads(p: DashProtocol, v: DashReadings) -> Seq<(u32, Seq<u8>)> {
    match p {
        DashProtocol::Haltech => seq![
            (0x360u32, be16_bytes(v.rpm_quarter) + seq![v.tps_half_pct, v.iat_offset] + be16_bytes(v.map_deci_kpa) + seq![0u8, 0u8]),
            (0x361u32, be16_bytes(v.lambda1_milli) + be16_bytes(v.lambda2_milli) + seq![v.vbatt_deci, 0u8, 0u8, 0u8]),
            (0x362u32, seq![v.clt_offset, 0u8] + be16_bytes(v.oil_deci_kpa) + seq![0u8, 0u8, 0u8, 0u8]),
        ],
        DashProtocol::BmwEseries => seq![
            (0x0AAu32, seq![if v.running { 1u8 } else { 0u8 }, 0u8, 0u8, 0u8] + be16_bytes(v.bmw_rpm) + seq![0u8, 0u8]),
            (0x0D5u32, seq![v.bmw_clt, 0u8, 0u8, 0u8, 0u8, 0u8, 0u8, 0u8]),
        ],
        DashProtocol::HondaKseries => seq![
            (0x204u32, be16_bytes(v.rpm_quarter) + seq![0u8, 0u8, 0u8, 0u8, 0u8, 0u8]),
            (0x309u32, seq![v.clt_offset, v.honda_tps, 0u8, 0u8, 0u8, 0u8, 0u8, 0u8]),
        ],
    }
}

/// Each frame is the standard 8-byte frame of the matching (ID, payload) pair.
pub open spec fn frames_match(frames: Seq<CanFrame>, expected: Seq<(u32, Seq<u8>)>) -> bool {
    &&& frames.len() == expected.len()
    &&& forall|i: int| 0 <= i < frames.len() ==> #[trigger] frame_is(frames[i], expected[i].0, expected[i].1)
}

/// The Haltech 0x360 frame lays out engine speed (bytes 0–1, big-endian,
/// 0.25 RPM/bit), throttle (byte 2), intake-air temperature (byte 3) and
/// manifold pressure (bytes 4–5, big-endian), as the Haltech CAN protocol
/// defines it.
pub proof fn lemma_haltech_360_layout(v: DashReadings)
    ensures
        ({
            let (id, p) = dash_payloads(DashProtocol::Haltech, v)[0];
            &&& id == 0x360
            &&& p.len() == 8
            &&& p[0] as int * 256 + p[1] as int == v.rpm_quarter
            &&& p[2] == v.tps_half_pct
            &&& p[3] == v.iat_offset
            &&& p[4] as int * 256 + p[5] as int == v.map_deci_kpa
        }),
{
    let rq = v.rpm_quarter;
    let mp = v.map_deci_kpa;
    assert(((rq / 256) as u8) as int * 256 + ((rq % 256) as u8) as int == rq) by (bit_vector);
    assert(((mp / 256) as u8) as int * 256 + ((mp % 256) as u8) as int == mp) by (bit_vector);
}

proof fn lemma_accepted_count_bound(log: Seq<(CanFrame, bool)>)
    ensures
        accepted_count(log) <= log.len(),
    decreases log.len(),
{
    if log.len() > 0 {
        lemma_accepted_count_bound(log.drop_last());
    }
}

fn be16_hi(v: u16) -> (r: u8)
    ensures
        r == (v / 256) as u8,
{
    assert((v >> 8u16) as u8 == (v / 256) as u8) by (bit_vector);
    (v >> 8u16) as u8
}

fn be16_lo(v: u16) -> (r: u8)
    ensures
        r == (v % 256) as u8,
{
    assert(v as u8 == (v % 256) as u8) by (bit_vector);
    v as u8
}

/// Haltech frame 0x360: RPM (0.25 RPM/bit), TPS (0.5 %/bit), IAT (°C + 40),
/// MAP (0.1 kPa/bit).
pub fn haltech_frame_360(rpm_raw: u16, tps_raw: u8, iat_raw: u8, map_raw: u16) -> (r: CanFrame)
    ensures
        r.id == 0x360,
        !r.is_extended,
        r.dlc == 8,
        r.data@ == be16_bytes(rpm_raw) + seq![tps_raw, iat_raw] + be16_bytes(map_raw) + seq![
            0u8,
            0u8,
        ],
{
    let data = [be16_hi(rpm_raw), be16_lo(rpm_raw), tps_raw, iat_raw, be16_hi(map_raw), be16_lo(map_raw), 0, 0];
    let r = CanFrame::standard(HALTECH_BASE_ID, &data);
    assert(r.data@ =~= be16_bytes(rpm_raw) + seq![tps_raw, iat_raw] + be16_bytes(map_raw) + seq![
        0u8,
        0u8,
    ]);
    r
}

/// Haltech frame 0x361: lambda 1 and 2 (0.001/bit), battery voltage
/// (0.1 V/bit).
pub fn haltech_frame_361(lambda1_raw: u16, lambda2_raw: u16, vbatt_raw: u8) -> (r: CanFrame)
    ensures
        r.id == 0x361,
        !r.is_extended,
        r.dlc == 8,
        r.data@ == be16_bytes(lambda1_raw) + be16_bytes(lambda2_raw) + seq![vbatt_raw, 0u8, 0u8, 0u8],
{
    let data = [be16_hi(lambda1_raw), be16_lo(lambda1_raw), be16_hi(lambda2_raw), be16_lo(lambda2_raw), vbatt_raw, 0, 0, 0];
    let r = CanFrame::standard(HALTECH_BASE_ID + 1, &data);
    assert(r.data@ =~= be16_bytes(lambda1_raw) + be16_bytes(lambda2_raw) + seq![vbatt_raw, 0u8, 0u8, 0u8]);
    r
}

/// Haltech frame 0x362: CLT (°C + 40), oil pressure (0.1 kPa/bit).
pub fn haltech_frame_362(clt_raw: u8, oil_raw: u16) -> (r: CanFrame)
    ensures
        r.id == 0x362,
        !r.is_extended,
        r.dlc == 8,
        r.data@ == seq![clt_raw, 0u8] + be16_bytes(oil_raw) + seq![0u8, 0u8, 0u8, 0u8],
{
    let data = [clt_raw, 0, be16_hi(oil_raw), be16_lo(oil_raw), 0, 0, 0, 0];
    let r = CanFrame::standard(HALTECH_BASE_ID + 2, &data);
    assert(r.data@ =~= seq![clt_raw, 0u8] + be16_bytes(oil_raw) + seq![0u8, 0u8, 0u8, 0u8]);
    r
}

/// BMW E-series frame 0x0AA: running flag and RPM (6.4/RPM) in bytes 4–5.
pub fn bmw_frame_0aa(running: bool, rpm_raw: u16) -> (r: CanFrame)
    ensures
        r.id == 0x0AA,
        !r.is_extended,
        r.dlc == 8,
        r.data@ == seq![if running { 1u8 } else { 0u8 }, 0u8, 0u8, 0u8] + be16_bytes(rpm_raw) + seq![
            0u8,
            0u8,
        ],
{
    let flag: u8 = if running {
        0x01
    } else {
        0x00
    };
    let data = [flag, 0, 0, 0, be16_hi(rpm_raw), be16_lo(rpm_raw), 0, 0];
    let r = CanFrame::standard(BMW_CLUSTER_ID_0AA, &data);
    assert(r.data@ =~= seq![flag, 0u8, 0u8, 0u8] + be16_bytes(rpm_raw) + seq![0u8, 0u8]);
    r
}

/// BMW E-series frame 0x0D5: coolant temperature byte.
pub fn bmw_frame_0d5(clt_raw: u8) -> (r: CanFrame)
    ensures
        r.id == 0x0D5,
        !r.is_extended,
        r.dlc == 8,
        r.data@ == seq![clt_raw, 0u8, 0u8, 0u8, 0u8, 0u8, 0u8, 0u8],
{
    let data = [clt_raw, 0, 0, 0, 0, 0, 0, 0];
    let r = CanFrame::standard(BMW_CLUSTER_ID_0D5, &data);
    assert(r.data@ =~= seq![clt_raw, 0u8, 0u8, 0u8, 0u8, 0u8, 0u8, 0u8]);
    r
}

/// Honda K-series frame 0x204: RPM (4/RPM).
pub fn honda_frame_204(rpm_raw: u16) -> (r: CanFrame)
    ensures
        r.id == 0x204,
        !r.is_extended,
        r.dlc == 8,
        r.data@ == be16_bytes(rpm_raw) + seq![0u8, 0u8, 0u8, 0u8, 0u8, 0u8],
{
    let data = [be16_hi(rpm_raw), be16_lo(rpm_raw), 0, 0, 0, 0, 0, 0];
    let r = CanFrame::standard(HONDA_ID_204, &data);
    assert(r.data@ =~= be16_bytes(rpm_raw) + seq![0u8, 0u8, 0u8, 0u8, 0u8, 0u8]);
    r
}

/// Honda K-series frame 0x309: CLT (°C + 40) and TPS (0–255).
pub fn honda_frame_309(clt_raw: u8, tps_raw: u8) -> (r: CanFrame)
    ensures
        r.id == 0x309,
        !r.is_extended,
        r.dlc == 8,
        r.data@ == seq![clt_raw, tps_raw, 0u8, 0u8, 0u8, 0u8, 0u8, 0u8],
{
    let data = [clt_raw, tps_raw, 0, 0, 0, 0, 0, 0];
    let r = CanFrame::standard(HONDA_ID_309, &data);
    assert(r.data@ =~= seq![clt_raw, tps_raw, 0u8, 0u8, 0u8, 0u8, 0u8, 0u8]);
    r
}

/// Offer each frame to the bus in order and count how many the bus accepted.
pub fn transmit_frames<CB: CanBus>(can: &mut CB, frames: &[CanFrame]) -> (r: u8)
    requires
        frames@.len() <= 255,
    ensures
        final(can).tx_log().len() == old(can).tx_log().len() + frames@.len(),
        final(can).tx_log().subrange(0, old(can).tx_log().len() as int) == old(can).tx_log(),
        offered_frames(log_since(old(can).tx_log(), final(can).tx_log())) == frames@,
        r == accepted_count(log_since(old(can).tx_log(), final(can).tx_log())),
        final(can).rx_log() == old(can).rx_log(),
{
    let ghost start = can.tx_log();
    let mut sent: u8 = 0;
    let mut i: usize = 0;
    while i < frames.len()
        invariant
            i <= frames@.len(),
            frames@.len() <= 255,
            start == old(can).tx_log(),
            can.tx_log().len() == start.len() + i,
            can.tx_log().subrange(0, start.len() as int) == start,
            offered_frames(log_since(start, can.tx_log())) == frames@.take(i as int),
            sent == accepted_count(log_since(start, can.tx_log())),
            sent <= i,
            can.rx_log() == old(can).rx_log(),
        decreases frames@.len() - i,
    {
        let ghost before = can.tx_log();
        let ok = can.transmit(&frames[i]);
        proof {
            let e = (frames@[i as int], ok);
            assert(log_since(start, can.tx_log()) =~= log_since(start, before).push(e));
            assert(log_since(start, can.tx_log()).drop_last() =~= log_since(start, before));
            assert(offered_frames(log_since(start, can.tx_log())) =~= frames@.take(i + 1));
            assert(can.tx_log().subrange(0, start.len() as int) =~= start);
        }
        if ok {
            sent += 1;
        }
        i += 1;
    }
    assert(frames@.take(frames@.len() as int) =~= frames@);
    sent
}

/// Sensor readings in the wire units of the dash protocols.
#[derive(Clone, Copy, Debug, PartialEq, Eq, Structural)]
pub struct DashReadings {
    /// RPM at 0.25 RPM/bit (Haltech; also Honda's RPM × 4).
    pub rpm_quarter: u16,
    /// Throttle at 0.5 %/bit (Haltech).
    pub tps_half_pct: u8,
    /// Intake air temperature, °C + 40.
    pub iat_offset: u8,
    /// Manifold pressure at 0.1 kPa/bit.
    pub map_deci_kpa: u16,
    /// Lambda 1 at 0.001 λ/bit.
    pub lambda1_milli: u16,
    /// Lambda 2 at 0.001 λ/bit.
    pub lambda2_milli: u16,
    /// Battery voltage at 0.1 V/bit.
    pub vbatt_deci: u8,
    /// Coolant temperature, °C + 40.
    pub clt_offset: u8,
    /// Oil pressure at 0.1 kPa/bit.
    pub oil_deci_kpa: u16,
    /// Engine running (BMW ignition status, RPM above 400).
    pub running: bool,
    /// RPM × 6.4 (BMW).
    pub bmw_rpm: u16,
    /// Coolant on the BMW cluster scale.
    pub bmw_clt: u8,
    /// Throttle 0–255 for 0–100 % (Honda).
    pub honda_tps: u8,
}

/// CAN dash encoder — transmits sensor data using the configured protocol.
pub struct DashCanEncoder {
    protocol: DashProtocol,
}

impl DashCanEncoder {
    /// The configured protocol.
    pub closed spec fn spec_protocol(&self) -> DashProtocol {
        self.protocol
    }

    /// Create a new dash encoder for the given protocol.
    pub fn new(protocol: DashProtocol) -> (r: Self)
        ensures
            r.spec_protocol() == protocol,
    {
        Self { protocol }
    }

    /// Number of frames the configured protocol sends per update.
    pub fn frame_count(&self) -> (r: u8)
        ensures
            r == protocol_ids(self.spec_protocol()).len(),
    {
        match self.protocol {
            DashProtocol::Haltech => 3,
            DashProtocol::BmwEseries => 2,
            DashProtocol::HondaKseries => 2,
        }
    }

    /// Transmit the configured protocol's frames for `v`; returns how many
    /// the bus accepted.
    pub fn transmit_all<CB: CanBus>(&self, can: &mut CB, v: &DashReadings) -> (r: u8)
        ensures
            final(can).tx_log().len() == old(can).tx_log().len() + protocol_ids(self.spec_protocol()).len(),
            final(can).tx_log().subrange(0, old(can).tx_log().len() as int) == old(can).tx_log(),
            frames_match(
                offered_frames(log_since(old(can).tx_log(), final(can).tx_log())),
                dash_payloads(self.spec_protocol(), *v),
            ),
            r == accepted_count(log_since(old(can).tx_log(), final(can).tx_log())),
            r <= protocol_ids(self.spec_protocol()).len(),
            final(can).rx_log() == old(can).rx_log(),
            self.spec_protocol() == DashProtocol::Haltech ==> ({
                let f = offered_frames(log_since(old(can).tx_log(), final(can).tx_log()))[0];
                &&& f.id == 0x360
                &&& f.data@[0] as int * 256 + f.data@[1] as int == v.rpm_quarter
                &&& f.data@[2] == v.tps_half_pct
                &&& f.data@[3] == v.iat_offset
                &&& f.data@[4] as int * 256 + f.data@[5] as int == v.map_deci_kpa
            }),
            self.spec_protocol() == DashProtocol::Haltech ==> ({
                let fs = offered_frames(log_since(old(can).tx_log(), final(can).tx_log()));
                &&& fs[1].id == 0x361
                &&& fs[1].data@[0] as int * 256 + fs[1].data@[1] as int == v.lambda1_milli
                &&& fs[1].data@[2] as int * 256 + fs[1].data@[3] as int == v.lambda2_milli
                &&& fs[1].data@[4] == v.vbatt_deci
                &&& fs[2].id == 0x362
                &&& fs[2].data@[0] == v.clt_offset
                &&& fs[2].data@[2] as int * 256 + fs[2].data@[3] as int == v.oil_deci_kpa
            }),
            self.spec_protocol() == DashProtocol::BmwEseries ==> ({
                let fs = offered_frames(log_since(old(can).tx_log(), final(can).tx_log()));
                &&& fs[0].id == 0x0AA
                &&& fs[0].data@[0] == (if v.running { 1u8 } else { 0u8 })
                &&& fs[0].data@[4] as int * 256 + fs[0].data@[5] as int == v.bmw_rpm
                &&& fs[1].id == 0x0D5
                &&& fs[1].data@[0] == v.bmw_clt
            }),
            self.spec_protocol() == DashProtocol::HondaKseries ==> ({
                let fs = offered_frames(log_since(old(can).tx_log(), final(can).tx_log()));
                &&& fs[0].id == 0x204
                &&& fs[0].data@[0] as int * 256 + fs[0].data@[1] as int == v.rpm_quarter
                &&& fs[1].id == 0x309
                &&& fs[1].data@[0] == v.clt_offset
                &&& fs[1].data@[1] == v.honda_tps
            }),
    {
        proof {
            let rq = v.rpm_quarter;
            let mp = v.map_deci_kpa;
            assert(((rq / 256) as u8) as int * 256 + ((rq % 256) as u8) as int == rq) by (bit_vector);
            assert(((mp / 256) as u8) as int * 256 + ((mp % 256) as u8) as int == mp) by (bit_vector);
            let l1 = v.lambda1_milli;
            let l2 = v.lambda2_milli;
            let oil = v.oil_deci_kpa;
            let br = v.bmw_rpm;
            assert(((l1 / 256) as u8) as int * 256 + ((l1 % 256) as u8) as int == l1) by (bit_vector);
            assert(((l2 / 256) as u8) as int * 256 + ((l2 % 256) as u8) as int == l2) by (bit_vector);
            assert(((oil / 256) as u8) as int * 256 + ((oil % 256) as u8) as int == oil) by (bit_vector);
            assert(((br / 256) as u8) as int * 256 + ((br % 256) as u8) as int == br) by (bit_vector);
        }
        let r = match self.protocol {
            DashProtocol::Haltech => {
                let frames = [
                    haltech_frame_360(v.rpm_quarter, v.tps_half_pct, v.iat_offset, v.map_deci_kpa),
                    haltech_frame_361(v.lambda1_milli, v.lambda2_milli, v.vbatt_deci),
                    haltech_frame_362(v.clt_offset, v.oil_deci_kpa),
                ];
                transmit_frames(can, &frames)
            },
            DashProtocol::BmwEseries => {
                let frames = [bmw_frame_0aa(v.running, v.bmw_rpm), bmw_frame_0d5(v.bmw_clt)];
                transmit_frames(can, &frames)
            },
            DashProtocol::HondaKseries => {
                let frames = [
                    honda_frame_204(v.rpm_quarter),
                    honda_frame_309(v.clt_offset, v.honda_tps),
                ];
                transmit_frames(can, &frames)
            },
        };
        proof {
            lemma_accepted_count_bound(log_since(old(can).tx_log(), final(can).tx_log()));
        }
        r
    }

    /// Get the configured protocol.
    pub fn protocol(&self) -> (r: DashProtocol)
        ensures
            r == self.spec_protocol(),
    {
        self.protocol
    }
}

} // verus!
