//! OBD-II (SAE J1979) service 0x01 query handling.
//!
//! Readings arrive already encoded in their OBD-II units (the scaling from
//! physical values is done by the caller); this module decides which PIDs are
//! answered and lays out the response frames.
use vstd::prelude::*;
use crate::hal::{CanFrame, dlc_for, padded_payload};

verus! {

/// OBD-II service IDs.
#[derive(Debug, Clone, Copy, PartialEq, Eq, Structural)]
pub enum ObdService {
    /// Show current data (0x01).
    ShowCurrentData,
    /// Show stored diagnostic trouble codes (0x03).
    ShowDtc,
    /// Clear diagnostic trouble codes (0x04).
    ClearDtc,
    /// Test results, oxygen sensor (0x05).
    OxygenSensor,
    /// On-board monitoring (0x06).
    OnBoardMonitoring,
    /// Show pending DTCs (0x07).
    ShowPendingDtc,
    /// Control vehicle systems (0x08).
    ControlSystems,
    /// Show engine data (0x09).
    EngineData,
}

impl ObdService {
    /// The service byte.
    pub open spec fn code(self) -> u8 {
        match self {
            ObdService::ShowCurrentData => 0x01,
            ObdService::ShowDtc => 0x03,
            ObdService::ClearDtc => 0x04,
            ObdService::OxygenSensor => 0x05,
            ObdService::OnBoardMonitoring => 0x06,
            ObdService::ShowPendingDtc => 0x07,
            ObdService::ControlSystems => 0x08,
            ObdService::EngineData => 0x09,
        }
    }
}

/// Supported PIDs of service 0x01.
#[derive(Debug, Clone, Copy, PartialEq, Eq, Structural)]
pub enum ObdPid {
    /// PIDs supported (bitmask) (0x00).
    PidsSupported01_20,
    /// Monitor status (0x01).
    MonitorStatus,
    /// Freeze DTC (0x02).
    FreezeDtc,
    /// Fuel system status (0x03).
    FuelSystemStatus,
    /// Calculated engine load (0x04).
    CalculatedLoad,
    /// Engine coolant temperature (0x05).
    CoolantTemp,
    /// Short term fuel trim, bank 1 (0x06).
    ShortTermFuelTrimB1,
    /// Long term fuel trim, bank 1 (0x07).
    LongTermFuelTrimB1,
    /// Short term fuel trim, bank 2 (0x08).
    ShortTermFuelTrimB2,
    /// Long term fuel trim, bank 2 (0x09).
    LongTermFuelTrimB2,
    /// Fuel pressure, gauge (0x0A).
    FuelPressure,
    /// Intake manifold absolute pressure (0x0B).
    ManifoldPressure,
    /// Engine RPM (0x0C).
    Rpm,
    /// Vehicle speed (0x0D).
    Speed,
    /// Timing advance (0x0E).
    TimingAdvance,
    /// Intake air temperature (0x0F).
    Iat,
    /// MAF air flow rate (0x10).
    Maf,
    /// Throttle position (0x11).
    Tps,
    /// Commanded secondary air status (0x12).
    SecondaryAirStatus,
    /// Oxygen sensors present (0x13).
    O2SensorsPresent,
    /// Oxygen sensor voltage, bank 1 sensor 1 (0x14).
    O2SensorB1S1,
}

/// Readings in their OBD-II wire encodings.
#[derive(Debug, Clone, Copy, PartialEq, Eq, Structural)]
pub struct ObdValues {
    /// Engine is turning (selects closed-loop fuel status).
    pub engine_turning: bool,
    /// Calculated load, 0–255 for 0–100 %.
    pub load: u8,
    /// Coolant temperature, °C + 40.
    pub coolant: u8,
    /// Short term fuel trim bank 1, 128 = 0 %.
    pub stft_b1: u8,
    /// Long term fuel trim bank 1, 128 = 0 %.
    pub ltft_b1: u8,
    /// Manifold pressure, kPa.
    pub map_kpa: u8,
    /// RPM × 4.
    pub rpm_quarter: u16,
    /// Vehicle speed, km/h.
    pub speed_kph: u8,
    /// (advance + 64) × 2.
    pub timing_advance: u8,
    /// Intake air temperature, °C + 40.
    pub intake_temp: u8,
    /// MAF × 100 (g/s).
    pub maf_centi: u16,
    /// Throttle position, 0–255 for 0–100 %.
    pub throttle: u8,
    /// O2 sensor voltage, 5 mV/bit.
    pub o2_voltage: u8,
}

/// Bitmask of supported PIDs reported for PID 0x00 (SAE J1979): bit 31 is
/// PID 0x01 and bit 0 is PID 0x20, so PID `p` is bit `32 - p`; it covers
/// 0x03–0x07, 0x0B–0x11, 0x13 and 0x14.
pub const PIDS_SUPPORTED_01_20: u32 = 0x3E3F_B000;

/// The data bytes (after `0x41 pid`) answering `pid`, or `None` when the PID
/// is not supported.
pub open spec fn pid_data(pid: u8, v: ObdValues) -> Option<Seq<u8>> {
    if pid == 0x00 {
        Some(seq![0x3Eu8, 0x3Fu8, 0xB0u8, 0x00u8])
    } else if pid == 0x03 {
        Some(seq![if v.engine_turning { 0x02u8 } else { 0x01u8 }, 0x00u8])
    } else if pid == 0x04 {
        Some(seq![v.load])
    } else if pid == 0x05 {
        Some(seq![v.coolant])
    } else if pid == 0x06 {
        Some(seq![v.stft_b1])
    } else if pid == 0x07 {
        Some(seq![v.ltft_b1])
    } else if pid == 0x0B {
        Some(seq![v.map_kpa])
    } else if pid == 0x0C {
        Some(seq![(v.rpm_quarter / 256) as u8, (v.rpm_quarter % 256) as u8])
    } else if pid == 0x0D {
        Some(seq![v.speed_kph])
    } else if pid == 0x0E {
        Some(seq![v.timing_advance])
    } else if pid == 0x0F {
        Some(seq![v.intake_temp])
    } else if pid == 0x10 {
        Some(seq![(v.maf_centi / 256) as u8, (v.maf_centi % 256) as u8])
    } else if pid == 0x11 {
        Some(seq![v.throttle])
    } else if pid == 0x13 {
        Some(seq![0x01u8])
    } else if pid == 0x14 {
        Some(seq![v.o2_voltage, 0xFFu8])
    } else {
        None
    }
}

/// A PID in 0x01–0x20 is answered exactly when its bit is set in the
/// supported bitmask.
pub proof fn lemma_supported_pids_answered(pid: u8, v: ObdValues)
    requires
        1 <= pid <= 0x20,
    ensures
        pid_data(pid, v) is Some <==> (PIDS_SUPPORTED_01_20 >> ((32 - pid) as u32)) & 1 == 1,
{
    let m = PIDS_SUPPORTED_01_20;
    let sh: u32 = (32 - pid) as u32;
    let p: u32 = pid as u32;
    assert(((m >> sh) & 1 == 1) <==> (p == 3 || p == 4 || p == 5 || p == 6 || p == 7 || p == 0x0B
        || p == 0x0C || p == 0x0D || p == 0x0E || p == 0x0F || p == 0x10 || p == 0x11 || p == 0x13
        || p == 0x14)) by (bit_vector)
        requires
            m == 0x3E3F_B000u32,
            1 <= p <= 0x20,
            sh == 32 - p,
    ;
}

/// The two-byte OBD-II values are sent big-endian (`A * 256 + B`, SAE
/// J1979): engine speed (PID 0x0C) and air flow (PID 0x10) read back from
/// their data bytes as the value given.
pub proof fn lemma_obd_words_big_endian(v: ObdValues)
    ensures
        pid_data(0x0C, v) matches Some(d) && d.len() == 2 && d[0] as int * 256 + d[1] as int
            == v.rpm_quarter,
        pid_data(0x10, v) matches Some(d) && d.len() == 2 && d[0] as int * 256 + d[1] as int
            == v.maf_centi,
{
    let r = v.rpm_quarter;
    let m = v.maf_centi;
    assert(((r / 256) as u8) as int * 256 + ((r % 256) as u8) as int == r) by (bit_vector);
    assert(((m / 256) as u8) as int * 256 + ((m % 256) as u8) as int == m) by (bit_vector);
}

/// `f` is the service 0x01 answer for `pid` with data bytes `d`, sent on
/// the response ID `id`.
pub open spec fn response_frame(id: u32, pid: u8, d: Seq<u8>, f: CanFrame) -> bool {
    &&& f.id == id % 0x1_0000
    &&& !f.is_extended
    &&& f.dlc == dlc_for(d.len() + 2)
    &&& f.data@ == padded_payload(seq![0x41u8, pid] + d)
}

impl ObdService {
    /// The service byte.
    pub fn to_u8(self) -> (r: u8)
        ensures
            r == self.code(),
    {
        match self {
            ObdService::ShowCurrentData => 0x01,
            ObdService::ShowDtc => 0x03,
            ObdService::ClearDtc => 0x04,
            ObdService::OxygenSensor => 0x05,
            ObdService::OnBoardMonitoring => 0x06,
            ObdService::ShowPendingDtc => 0x07,
            ObdService::ControlSystems => 0x08,
            ObdService::EngineData => 0x09,
        }
    }
}

impl ObdPid {
    /// The PID byte: the declaration order, from 0x00.
    pub open spec fn code(self) -> u8 {
        match self {
            ObdPid::PidsSupported01_20 => 0x00,
            ObdPid::MonitorStatus => 0x01,
            ObdPid::FreezeDtc => 0x02,
            ObdPid::FuelSystemStatus => 0x03,
            ObdPid::CalculatedLoad => 0x04,
            ObdPid::CoolantTemp => 0x05,
            ObdPid::ShortTermFuelTrimB1 => 0x06,
            ObdPid::LongTermFuelTrimB1 => 0x07,
            ObdPid::ShortTermFuelTrimB2 => 0x08,
            ObdPid::LongTermFuelTrimB2 => 0x09,
            ObdPid::FuelPressure => 0x0A,
            ObdPid::ManifoldPressure => 0x0B,
            ObdPid::Rpm => 0x0C,
            ObdPid::Speed => 0x0D,
            ObdPid::TimingAdvance => 0x0E,
            ObdPid::Iat => 0x0F,
            ObdPid::Maf => 0x10,
            ObdPid::Tps => 0x11,
            ObdPid::SecondaryAirStatus => 0x12,
            ObdPid::O2SensorsPresent => 0x13,
            ObdPid::O2SensorB1S1 => 0x14,
        }
    }

    /// The PID byte.
    pub fn to_u8(self) -> (r: u8)
        ensures
            r == self.code(),
    {
        match self {
            ObdPid::PidsSupported01_20 => 0x00,
            ObdPid::MonitorStatus => 0x01,
            ObdPid::FreezeDtc => 0x02,
            ObdPid::FuelSystemStatus => 0x03,
            ObdPid::CalculatedLoad => 0x04,
            ObdPid::CoolantTemp => 0x05,
            ObdPid::ShortTermFuelTrimB1 => 0x06,
            ObdPid::LongTermFuelTrimB1 => 0x07,
            ObdPid::ShortTermFuelTrimB2 => 0x08,
            ObdPid::LongTermFuelTrimB2 => 0x09,
            ObdPid::FuelPressure => 0x0A,
            ObdPid::ManifoldPressure => 0x0B,
            ObdPid::Rpm => 0x0C,
            ObdPid::Speed => 0x0D,
            ObdPid::TimingAdvance => 0x0E,
            ObdPid::Iat => 0x0F,
            ObdPid::Maf => 0x10,
            ObdPid::Tps => 0x11,
            ObdPid::SecondaryAirStatus => 0x12,
            ObdPid::O2SensorsPresent => 0x13,
            ObdPid::O2SensorB1S1 => 0x14,
        }
    }
}

/// The bytes of a response under construction (a `heapless::Vec` of
/// capacity 8).
#[verifier::external_body]
pub struct ResponseBytes {
    inner: heapless::Vec<u8, 8>,
}

/// The bytes held by a [`ResponseBytes`], in order.
pub uninterp spec fn response_bytes(b: ResponseBytes) -> Seq<u8>;

impl ResponseBytes {
    /// `heapless::Vec::new`: an empty vector.
    #[verifier::external_body]
    fn new() -> (r: Self)
        ensures
            response_bytes(r) == Seq::<u8>::empty(),
    {
        ResponseBytes { inner: heapless::Vec::new() }
    }

    /// `heapless::Vec::push`: appends when below capacity, else hands the
    /// byte back and changes nothing.
    #[verifier::external_body]
    fn push(&mut self, b: u8) -> (r: Result<(), u8>)
        ensures
            r is Ok <==> response_bytes(*old(self)).len() < 8,
            r matches Err(back) ==> back == b,
            r is Ok ==> response_bytes(*final(self)) == response_bytes(*old(self)).push(b),
            r is Err ==> response_bytes(*final(self)) == response_bytes(*old(self)),
    {
        self.inner.push(b)
    }

    /// `heapless::Vec::as_slice`: the stored bytes.
    #[verifier::external_body]
    fn as_slice(&self) -> (r: &[u8])
        ensures
            r@ == response_bytes(*self),
            r@.len() <= 8,
    {
        self.inner.as_slice()
    }
}

/// `s` with `b` appended when it holds fewer than eight bytes.
pub open spec fn push_capped(s: Seq<u8>, b: u8) -> Seq<u8> {
    if s.len() < 8 {
        s.push(b)
    } else {
        s
    }
}

/// OBD-II response builder: the response CAN ID and the bytes so far (at
/// most eight; further bytes are dropped).
pub struct ObdResponseBuilder {
    can_id: u32,
    data: ResponseBytes,
}

impl View for ObdResponseBuilder {
    type V = (u32, Seq<u8>);

    closed spec fn view(&self) -> (u32, Seq<u8>) {
        (self.can_id, response_bytes(self.data))
    }
}

impl ObdResponseBuilder {
    /// Create a new response builder for the given CAN ID.
    pub fn new(can_id: u32) -> (r: Self)
        ensures
            r@ == (can_id, Seq::<u8>::empty()),
    {
        ObdResponseBuilder { can_id, data: ResponseBytes::new() }
    }

    /// Add a byte (dropped once eight are held).
    fn push_byte(self, value: u8) -> (r: Self)
        ensures
            r@ == (self@.0, push_capped(self@.1, value)),
    {
        let mut s = self;
        let _ = s.data.push(value);
        s
    }

    /// Set the service: the response carries `0x40 + service`.
    pub fn service(self, service: ObdService) -> (r: Self)
        ensures
            r@ == (self@.0, push_capped(self@.1, (service.code() + 0x40) as u8)),
    {
        self.push_byte(service.to_u8() + 0x40)
    }

    /// Add a PID byte.
    pub fn pid(self, pid: ObdPid) -> (r: Self)
        ensures
            r@ == (self@.0, push_capped(self@.1, pid.code())),
    {
        self.push_byte(pid.to_u8())
    }

    /// Add a data byte.
    pub fn byte(self, value: u8) -> (r: Self)
        ensures
            r@ == (self@.0, push_capped(self@.1, value)),
    {
        self.push_byte(value)
    }

    /// Build the CAN frame: `None` when no byte was added, else a standard
    /// frame on the low 16 bits of the CAN ID carrying the bytes.
    pub fn build(self) -> (r: Option<CanFrame>)
        ensures
            self@.1.len() == 0 ==> r is None,
            self@.1.len() > 0 ==> (r matches Some(f) && f.id == (self@.0 as u16) && !f.is_extended
                && f.dlc == dlc_for(self@.1.len()) && f.data@ == padded_payload(self@.1)),
    {
        let bytes = self.data.as_slice();
        if bytes.len() == 0 {
            return None;
        }
        Some(CanFrame::standard(self.can_id as u16, bytes))
    }
}

/// OBD-II query handler.
pub struct ObdHandler {
    response_can_id: u32,
}

impl ObdHandler {
    /// The CAN ID used for responses.
    pub closed spec fn spec_response_can_id(&self) -> u32 {
        self.response_can_id
    }

    /// Create a new OBD-II handler; `response_can_id` is the CAN ID used for
    /// responses.
    pub fn new(response_can_id: u32) -> (r: Self)
        ensures
            r.spec_response_can_id() == response_can_id,
    {
        Self { response_can_id }
    }

    fn respond(&self, pid: u8, data: &[u8]) -> (r: Option<CanFrame>)
        requires
            data@.len() <= 6,
        ensures
            r matches Some(f) && response_frame(self.spec_response_can_id(), pid, data@, f),
    {
        let mut bytes = [0u8; 8];
        bytes[0] = 0x41;
        bytes[1] = pid;
        let mut i: usize = 0;
        while i < data.len()
            invariant
                i <= data@.len(),
                data@.len() <= 6,
                bytes@.len() == 8,
                bytes@[0] == 0x41u8,
                bytes@[1] == pid,
                forall|k: int| 0 <= k < i ==> bytes@[k + 2] == data@[k],
            decreases data@.len() - i,
        {
            bytes[2 + i] = data[i];
            i += 1;
        }
        let n = 2 + data.len();
        let payload = vstd::slice::slice_subrange(&bytes, 0, n);
        assert(payload@ =~= seq![0x41u8, pid] + data@);
        let id = (self.response_can_id % 0x1_0000) as u16;
        Some(CanFrame::standard(id, payload))
    }

    /// PIDs supported response (PID 0x00).
    pub fn pids_supported_response(&self) -> (r: Option<CanFrame>)
        ensures
            r matches Some(f) && response_frame(
                self.spec_response_can_id(),
                0x00,
                seq![0x3Eu8, 0x3Fu8, 0xB0u8, 0x00u8],
                f,
            ),
    {
        let d = [0x3E, 0x3F, 0xB0, 0x00];
        assert(d@ =~= seq![0x3Eu8, 0x3Fu8, 0xB0u8, 0x00u8]);
        self.respond(0x00, &d)
    }

    /// Fuel system status response (PID 0x03): closed loop while the engine
    /// turns, open loop otherwise.
    pub fn fuel_system_status_response(&self, engine_turning: bool) -> (r: Option<CanFrame>)
        ensures
            r matches Some(f) && response_frame(
                self.spec_response_can_id(),
                0x03,
                seq![if engine_turning { 0x02u8 } else { 0x01u8 }, 0x00u8],
                f,
            ),
    {
        let status: u8 = if engine_turning {
            0x02
        } else {
            0x01
        };
        let d = [status, 0x00];
        assert(d@ =~= seq![status, 0x00u8]);
        self.respond(0x03, &d)
    }

    /// Calculated engine load response (PID 0x04).
    pub fn calculated_load_response(&self, load: u8) -> (r: Option<CanFrame>)
        ensures
            r matches Some(f) && response_frame(self.spec_response_can_id(), 0x04, seq![load], f),
    {
        let d = [load];
        assert(d@ =~= seq![load]);
        self.respond(0x04, &d)
    }

    /// Coolant temperature response (PID 0x05; °C + 40).
    pub fn coolant_temp_response(&self, coolant: u8) -> (r: Option<CanFrame>)
        ensures
            r matches Some(f) && response_frame(self.spec_response_can_id(), 0x05, seq![coolant], f),
    {
        let d = [coolant];
        assert(d@ =~= seq![coolant]);
        self.respond(0x05, &d)
    }

    /// Manifold pressure response (PID 0x0B; kPa).
    pub fn map_response(&self, map_kpa: u8) -> (r: Option<CanFrame>)
        ensures
            r matches Some(f) && response_frame(self.spec_response_can_id(), 0x0B, seq![map_kpa], f),
    {
        let d = [map_kpa];
        assert(d@ =~= seq![map_kpa]);
        self.respond(0x0B, &d)
    }

    /// RPM response (PID 0x0C; RPM × 4, big-endian).
    pub fn rpm_response(&self, rpm_quarter: u16) -> (r: Option<CanFrame>)
        ensures
            r matches Some(f) && response_frame(
                self.spec_response_can_id(),
                0x0C,
                seq![(rpm_quarter / 256) as u8, (rpm_quarter % 256) as u8],
                f,
            ),
    {
        let d = [(rpm_quarter / 256) as u8, (rpm_quarter % 256) as u8];
        assert(d@ =~= seq![(rpm_quarter / 256) as u8, (rpm_quarter % 256) as u8]);
        self.respond(0x0C, &d)
    }

    /// Intake air temperature response (PID 0x0F; °C + 40).
    pub fn iat_response(&self, intake_temp: u8) -> (r: Option<CanFrame>)
        ensures
            r matches Some(f) && response_frame(
                self.spec_response_can_id(),
                0x0F,
                seq![intake_temp],
                f,
            ),
    {
        let d = [intake_temp];
        assert(d@ =~= seq![intake_temp]);
        self.respond(0x0F, &d)
    }

    /// Throttle position response (PID 0x11; 0–255 for 0–100 %).
    pub fn tps_response(&self, throttle: u8) -> (r: Option<CanFrame>)
        ensures
            r matches Some(f) && response_frame(self.spec_response_can_id(), 0x11, seq![throttle], f),
    {
        let d = [throttle];
        assert(d@ =~= seq![throttle]);
        self.respond(0x11, &d)
    }

    /// Oxygen sensors present response (PID 0x13): bank 1 sensor 1 only.
    pub fn o2_sensors_present_response(&self) -> (r: Option<CanFrame>)
        ensures
            r matches Some(f) && response_frame(self.spec_response_can_id(), 0x13, seq![0x01u8], f),
    {
        let d = [0x01];
        assert(d@ =~= seq![0x01u8]);
        self.respond(0x13, &d)
    }

    /// Oxygen sensor bank 1 sensor 1 response (PID 0x14): voltage at
    /// 5 mV/bit, no trim (wideband).
    pub fn o2_sensor_b1s1_response(&self, o2_voltage: u8) -> (r: Option<CanFrame>)
        ensures
            r matches Some(f) && response_frame(
                self.spec_response_can_id(),
                0x14,
                seq![o2_voltage, 0xFFu8],
                f,
            ),
    {
        let d = [o2_voltage, 0xFF];
        assert(d@ =~= seq![o2_voltage, 0xFFu8]);
        self.respond(0x14, &d)
    }

    /// Process an OBD-II query and return a response frame if applicable:
    /// service 0x01 queries for a supported PID are answered with
    /// `0x41 pid data…` on the response ID; everything else gets no answer.
    pub fn handle_query(&self, query: &CanFrame, values: &ObdValues) -> (r: Option<CanFrame>)
        ensures
            query.data@[0] != 0x01 ==> r is None,
            query.data@[0] == 0x01 ==> match pid_data(query.data@[1], *values) {
                None => r is None,
                Some(d) => r matches Some(f) && response_frame(
                    self.spec_response_can_id(),
                    query.data@[1],
                    d,
                    f,
                ),
            },
            query.data@[0] == 0x01 && query.data@[1] == 0x0C ==> (r matches Some(f) && f.data@[2]
                as int * 256 + f.data@[3] as int == values.rpm_quarter),
            query.data@[0] == 0x01 && query.data@[1] == 0x10 ==> (r matches Some(f) && f.data@[2]
                as int * 256 + f.data@[3] as int == values.maf_centi),
            query.data@[0] == 0x01 ==> (r matches Some(f) ==> f.data@[0] == 0x41 && f.data@[1]
                == query.data@[1]),
            query.data@[0] == 0x01 && query.data@[1] == 0x03 ==> (r matches Some(f) && f.data@[2] == (
            if values.engine_turning {
                0x02u8
            } else {
                0x01u8
            })),
            query.data@[0] == 0x01 && query.data@[1] == 0x04 ==> (r matches Some(f) && f.data@[2]
                == values.load),
            query.data@[0] == 0x01 && query.data@[1] == 0x05 ==> (r matches Some(f) && f.data@[2]
                == values.coolant),
            query.data@[0] == 0x01 && query.data@[1] == 0x06 ==> (r matches Some(f) && f.data@[2]
                == values.stft_b1),
            query.data@[0] == 0x01 && query.data@[1] == 0x07 ==> (r matches Some(f) && f.data@[2]
                == values.ltft_b1),
            query.data@[0] == 0x01 && query.data@[1] == 0x0B ==> (r matches Some(f) && f.data@[2]
                == values.map_kpa),
            query.data@[0] == 0x01 && query.data@[1] == 0x0D ==> (r matches Some(f) && f.data@[2]
                == values.speed_kph),
            query.data@[0] == 0x01 && query.data@[1] == 0x0E ==> (r matches Some(f) && f.data@[2]
                == values.timing_advance),
            query.data@[0] == 0x01 && query.data@[1] == 0x0F ==> (r matches Some(f) && f.data@[2]
                == values.intake_temp),
            query.data@[0] == 0x01 && query.data@[1] == 0x11 ==> (r matches Some(f) && f.data@[2]
                == values.throttle),
            query.data@[0] == 0x01 && query.data@[1] == 0x14 ==> (r matches Some(f) && f.data@[2]
                == values.o2_voltage && f.data@[3] == 0xFF),
    {
        proof {
            let rq = values.rpm_quarter;
            let mc = values.maf_centi;
            assert(((rq / 256) as u8) as int * 256 + ((rq % 256) as u8) as int == rq) by (bit_vector);
            assert(((mc / 256) as u8) as int * 256 + ((mc % 256) as u8) as int == mc) by (bit_vector);
        }
        let service = query.data[0];
        let pid = query.data[1];
        if service != 0x01 {
            return None;
        }
        let v = values;
        if pid == 0x00 {
            self.pids_supported_response()
        } else if pid == 0x03 {
            self.fuel_system_status_response(v.engine_turning)
        } else if pid == 0x04 {
            self.calculated_load_response(v.load)
        } else if pid == 0x05 {
            self.coolant_temp_response(v.coolant)
        } else if pid == 0x06 {
            let d = [v.stft_b1];
            assert(d@ =~= seq![v.stft_b1]);
            self.respond(pid, &d)
        } else if pid == 0x07 {
            let d = [v.ltft_b1];
            assert(d@ =~= seq![v.ltft_b1]);
            self.respond(pid, &d)
        } else if pid == 0x0B {
            self.map_response(v.map_kpa)
        } else if pid == 0x0C {
            self.rpm_response(v.rpm_quarter)
        } else if pid == 0x0D {
            let d = [v.speed_kph];
            assert(d@ =~= seq![v.speed_kph]);
            self.respond(pid, &d)
        } else if pid == 0x0E {
            let d = [v.timing_advance];
            assert(d@ =~= seq![v.timing_advance]);
            self.respond(pid, &d)
        } else if pid == 0x0F {
            self.iat_response(v.intake_temp)
        } else if pid == 0x10 {
            let d = [(v.maf_centi / 256) as u8, (v.maf_centi % 256) as u8];
            assert(d@ =~= seq![(v.maf_centi / 256) as u8, (v.maf_centi % 256) as u8]);
            self.respond(pid, &d)
        } else if pid == 0x11 {
            self.tps_response(v.throttle)
        } else if pid == 0x13 {
            self.o2_sensors_present_response()
        } else if pid == 0x14 {
            self.o2_sensor_b1s1_response(v.o2_voltage)
        } else {
            None
        }
    }
}

} // verus!
