//! HAL trait definitions — the interface between control logic and hardware,
//! implemented by each board support package.
use vstd::prelude::*;

verus! {

/// Trigger input — reads crank and cam sensor pulse timestamps.
pub trait TriggerInput {
    /// Timestamp (microseconds) of the most recent crank pulse, or `None` if no
    /// new pulse has arrived since the last call.
    fn read_crank_timestamp(&mut self) -> Option<u64>;

    /// Timestamp (microseconds) of the most recent cam pulse, or `None` if no
    /// new pulse has arrived since the last call.
    fn read_cam_timestamp(&mut self) -> Option<u64>;
}

/// Ignition coil output — controls coil charge and fire events (0-based
/// cylinder numbering).
pub trait IgnitionOutput {
    /// Begin charging the ignition coil for the given cylinder.
    fn coil_charge(&mut self, cylinder: u8);

    /// Fire (discharge) the ignition coil for the given cylinder.
    fn coil_fire(&mut self, cylinder: u8);
}

/// ADC input — reads raw 12-bit ADC values from sensor channels.
pub trait AdcInput {
    /// Read the raw ADC value (0–4095) for the given channel number.
    fn read_raw(&mut self, channel: u8) -> u16;
}

/// System timer — provides microsecond timestamps and one-shot scheduling.
pub trait SystemTimer {
    /// The current time in microseconds since boot/reset.
    fn now_us(&self) -> u64;

    /// Schedule `callback` to run about `delay_us` microseconds from now.
    fn schedule_us<F: Fn()>(&mut self, delay_us: u64, callback: F);
}

/// Fuel injector output — controls injector open/close events.
pub trait InjectorOutput {
    /// Open (energise) the injector for the given cylinder.
    fn open(&mut self, cylinder: u8);

    /// Close (de-energise) the injector for the given cylinder.
    fn close(&mut self, cylinder: u8);
}

/// A single CAN 2.0B frame (standard or extended ID, up to 8 data bytes).
#[derive(Debug, Clone, Copy, PartialEq, Eq)]
pub struct CanFrame {
    /// 11-bit standard ID (bits 0-10) or 29-bit extended ID.
    pub id: u32,
    /// `true` if `id` is a 29-bit extended identifier.
    pub is_extended: bool,
    /// Number of valid bytes in `data` (0–8).
    pub dlc: u8,
    /// Frame payload.
    pub data: [u8; 8],
}

/// The 8-byte payload holding the first `min(8, data.len())` bytes of `data`,
/// zero-padded.
pub open spec fn padded_payload(data: Seq<u8>) -> Seq<u8> {
    Seq::new(8, |i: int| if i < data.len() { data[i] } else { 0u8 })
}

/// The frame's data length code for a payload of `n` bytes.
pub open spec fn dlc_for(n: nat) -> u8 {
    if n <= 8 {
        n as u8
    } else {
        8u8
    }
}

fn pad_payload(data: &[u8]) -> (r: (u8, [u8; 8]))
    ensures
        r.0 == dlc_for(data@.len()),
        r.1@ == padded_payload(data@),
{
    let dlc: usize = if data.len() <= 8 {
        data.len()
    } else {
        8
    };
    let mut buf = [0u8; 8];
    let mut i: usize = 0;
    while i < dlc
        invariant
            dlc <= 8,
            dlc <= data@.len(),
            dlc == data@.len() || dlc == 8,
            i <= dlc,
            forall|k: int| 0 <= k < i ==> buf@[k] == data@[k],
            forall|k: int| i <= k < 8 ==> buf@[k] == 0u8,
        decreases dlc - i,
    {
        buf[i] = data[i];
        i += 1;
    }
    assert(buf@ =~= padded_payload(data@));
    (dlc as u8, buf)
}

impl CanFrame {
    /// Construct a standard-ID (11-bit) frame; bytes beyond the eighth are
    /// dropped.
    pub fn standard(id: u16, data: &[u8]) -> (r: Self)
        ensures
            r.id == id,
            !r.is_extended,
            r.dlc == dlc_for(data@.len()),
            r.data@ == padded_payload(data@),
    {
        let (dlc, buf) = pad_payload(data);
        Self { id: id as u32, is_extended: false, dlc, data: buf }
    }

    /// Construct an extended-ID (29-bit) frame; bytes beyond the eighth are
    /// dropped.
    pub fn extended(id: u32, data: &[u8]) -> (r: Self)
        ensures
            r.id == id,
            r.is_extended,
            r.dlc == dlc_for(data@.len()),
            r.data@ == padded_payload(data@),
    {
        let (dlc, buf) = pad_payload(data);
        Self { id, is_extended: true, dlc, data: buf }
    }
}

/// A CAN bus's transmit log: each frame offered, with whether it was accepted.
pub type TxLog = Seq<(CanFrame, bool)>;

/// A CAN bus's receive log: each answer `receive` gave.
pub type RxLog = Seq<Option<CanFrame>>;

/// The number of frames waiting in a CAN bus's RX FIFO.
pub type RxDepth = nat;

/// CAN bus interface — non-blocking transmit and receive.
///
/// An implementation models its traffic by two logs: every transmit attempt
/// with its outcome, and every answer `receive` gave.
pub trait CanBus {
    /// Every frame offered to `transmit` so far, with whether it was accepted.
    spec fn tx_log(&self) -> TxLog;

    /// Every answer `receive` has given so far.
    spec fn rx_log(&self) -> RxLog;

    /// How many frames wait in the RX FIFO.
    spec fn rx_depth(&self) -> RxDepth;

    /// Attempt to transmit a frame. Returns `true` if accepted by the hardware
    /// TX mailbox, `false` if all mailboxes are full.
    fn transmit(&mut self, frame: &CanFrame) -> (r: bool)
        ensures
            final(self).tx_log() == old(self).tx_log().push((*frame, r)),
            final(self).rx_log() == old(self).rx_log(),
    ;

    /// Return the oldest received frame, or `None` if the RX FIFO is empty.
    fn receive(&mut self) -> (r: Option<CanFrame>)
        ensures
            final(self).rx_log() == old(self).rx_log().push(r),
            r is Some ==> final(self).rx_depth() < old(self).rx_depth(),
            final(self).tx_log() == old(self).tx_log(),
    ;
}

/// The entries a log gained since it was `before`.
pub open spec fn log_since<T>(before: Seq<T>, after: Seq<T>) -> Seq<T> {
    after.skip(before.len() as int)
}

/// The frames of a transmit log, in the order they were offered.
pub open spec fn offered_frames(log: Seq<(CanFrame, bool)>) -> Seq<CanFrame> {
    log.map_values(|e: (CanFrame, bool)| e.0)
}

/// How many attempts of a transmit log the bus accepted.
pub open spec fn accepted_count(log: Seq<(CanFrame, bool)>) -> nat
    decreases log.len(),
{
    if log.len() == 0 {
        0
    } else {
        accepted_count(log.drop_last()) + if log.last().1 {
            1nat
        } else {
            0nat
        }
    }
}

/// How many answers of a receive log carried a frame.
pub open spec fn frames_received(log: Seq<Option<CanFrame>>) -> nat
    decreases log.len(),
{
    if log.len() == 0 {
        0
    } else {
        frames_received(log.drop_last()) + if log.last() is Some {
            1nat
        } else {
            0nat
        }
    }
}

/// UART / serial port interface — byte-level non-blocking I/O.
pub trait UartPort {
    /// Write up to `buf.len()` bytes. Returns the number of bytes actually
    /// written (may be 0 if the TX buffer is full).
    fn write_bytes(&mut self, buf: &[u8]) -> usize;

    /// Read up to `buf.len()` bytes. Returns the number of bytes read (may be 0
    /// if no data is available).
    fn read_bytes(&mut self, buf: &mut [u8]) -> usize;
}

/// Binary relay / digital output — controls a single on/off channel (fuel
/// pump, cooling fan, AC clutch, …).
pub trait RelayOutput {
    /// Energise (turn on) the relay.
    fn on(&mut self);

    /// De-energise (turn off) the relay.
    fn off(&mut self);

    /// Return `true` if the relay is currently energised.
    fn is_on(&self) -> bool;
}

} // verus!
