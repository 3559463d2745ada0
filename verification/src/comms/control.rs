//! Control-plane request enumerations: temporary overrides, bench tests and
//! calibration routines. Wire values are the declaration order, from 0.
use vstd::prelude::*;

verus! {

/// Override targets (`SetOverride.target`).
#[derive(Clone, Copy, Debug, PartialEq, Eq, Structural)]
pub enum OverrideTarget {
    /// Cut spark on all cylinders while set (`value != 0`).
    SparkCut,
    /// Cut fuel on all cylinders while set (`value != 0`).
    FuelCut,
    /// Fix ignition timing at `value` degrees BTDC.
    TimingFix,
    /// Fix idle valve position at `value` percent.
    IdlePosition,
    /// Fix wastegate duty at `value` percent.
    BoostDuty,
    /// Add `value` percent to injector duty.
    InjectorDuty,
}

/// Number of override targets.
pub const OVERRIDE_TARGETS: usize = 6;

impl OverrideTarget {
    /// Wire value.
    pub open spec fn code(self) -> u8 {
        match self {
            OverrideTarget::SparkCut => 0,
            OverrideTarget::FuelCut => 1,
            OverrideTarget::TimingFix => 2,
            OverrideTarget::IdlePosition => 3,
            OverrideTarget::BoostDuty => 4,
            OverrideTarget::InjectorDuty => 5,
        }
    }

    /// Parse from the wire byte.
    pub fn from_u8(v: u8) -> (r: Option<Self>)
        ensures
            r is None <==> v as usize >= OVERRIDE_TARGETS,
            r matches Some(t) ==> t.code() == v,
    {
        match v {
            0 => Some(Self::SparkCut),
            1 => Some(Self::FuelCut),
            2 => Some(Self::TimingFix),
            3 => Some(Self::IdlePosition),
            4 => Some(Self::BoostDuty),
            5 => Some(Self::InjectorDuty),
            _ => None,
        }
    }
}

impl OverrideTarget {
    /// Slot index of the target (its wire value).
    pub fn index(self) -> (r: usize)
        ensures
            r == self.code(),
            r < OVERRIDE_TARGETS,
    {
        match self {
            OverrideTarget::SparkCut => 0,
            OverrideTarget::FuelCut => 1,
            OverrideTarget::TimingFix => 2,
            OverrideTarget::IdlePosition => 3,
            OverrideTarget::BoostDuty => 4,
            OverrideTarget::InjectorDuty => 5,
        }
    }
}

/// One active override: the commanded value (the bit pattern of the `f32`
/// the client sent) and when it lapses.
#[derive(Clone, Copy, Debug, PartialEq, Eq, Structural)]
pub struct OverrideSlot {
    /// Commanded value, as `f32` bits.
    pub value: u32,
    /// Expiry time (ms since boot, wrapping).
    pub expires_ms: u32,
}

/// `timeout_ms` clamped to 1..=30000 ms.
pub open spec fn clamp_timeout(timeout_ms: u16) -> u32 {
    if timeout_ms < 1 {
        1
    } else if timeout_ms > 30_000 {
        30_000
    } else {
        timeout_ms as u32
    }
}

/// Whether a slot expiring at `expires_ms` has lapsed at `now_ms`
/// (wrapping-aware: valid windows are shorter than half the clock range).
pub open spec fn lapsed(expires_ms: u32, now_ms: u32) -> bool {
    vstd::wrapping::u32_specs::wrapping_sub(now_ms, expires_ms) < u32::MAX / 2
}

/// Active control overrides with automatic expiry.
pub struct Overrides {
    slots: [Option<OverrideSlot>; OVERRIDE_TARGETS],
}

impl View for Overrides {
    type V = Seq<Option<OverrideSlot>>;

    closed spec fn view(&self) -> Seq<Option<OverrideSlot>> {
        self.slots@
    }
}

impl Overrides {
    /// Create with no overrides active.
    pub fn new() -> (r: Self)
        ensures
            r@ == Seq::new(OVERRIDE_TARGETS as nat, |_i: int| None::<OverrideSlot>),
    {
        let r = Overrides { slots: [None; OVERRIDE_TARGETS] };
        assert(r@ =~= Seq::new(OVERRIDE_TARGETS as nat, |_i: int| None::<OverrideSlot>));
        r
    }

    /// Activate an override holding `value` for `timeout_ms` (clamped to
    /// 1..=30000 ms) from `now_ms`.
    pub fn set(&mut self, target: OverrideTarget, value: u32, timeout_ms: u16, now_ms: u32)
        ensures
            final(self)@ == old(self)@.update(
                target.code() as int,
                Some(
                    OverrideSlot {
                        value,
                        expires_ms: vstd::wrapping::u32_specs::wrapping_add(
                            now_ms,
                            clamp_timeout(timeout_ms),
                        ),
                    },
                ),
            ),
    {
        let timeout: u32 = if timeout_ms < 1 {
            1
        } else if timeout_ms > 30_000 {
            30_000
        } else {
            timeout_ms as u32
        };
        let i = target.index();
        self.slots[i] = Some(OverrideSlot { value, expires_ms: now_ms.wrapping_add(timeout) });
    }

    /// Deactivate an override. Returns `true` when one was active.
    pub fn clear(&mut self, target: OverrideTarget) -> (r: bool)
        ensures
            r == old(self)@[target.code() as int] is Some,
            final(self)@ == old(self)@.update(target.code() as int, None),
    {
        let i = target.index();
        let was = self.slots[i].is_some();
        self.slots[i] = None;
        was
    }

    /// Deactivate everything (transport disconnect fail-safe).
    pub fn clear_all(&mut self)
        ensures
            final(self)@ == Seq::new(OVERRIDE_TARGETS as nat, |_i: int| None::<OverrideSlot>),
    {
        self.slots = [None; OVERRIDE_TARGETS];
        assert(self@ =~= Seq::new(OVERRIDE_TARGETS as nat, |_i: int| None::<OverrideSlot>));
    }

    /// Current override value, expiring lazily: a lapsed override is
    /// removed and reads as `None`.
    pub fn get(&mut self, target: OverrideTarget, now_ms: u32) -> (r: Option<u32>)
        ensures
            match old(self)@[target.code() as int] {
                None => r is None && final(self)@ == old(self)@,
                Some(slot) => if lapsed(slot.expires_ms, now_ms) {
                    r is None && final(self)@ == old(self)@.update(target.code() as int, None)
                } else {
                    r == Some(slot.value) && final(self)@ == old(self)@
                },
            },
    {
        let i = target.index();
        let slot = match self.slots[i] {
            Some(s) => s,
            None => return None,
        };
        if now_ms.wrapping_sub(slot.expires_ms) < u32::MAX / 2 {
            self.slots[i] = None;
            return None;
        }
        Some(slot.value)
    }

    /// True when any override is currently set (without expiry processing).
    pub fn any_active(&self) -> (r: bool)
        ensures
            r == exists|i: int| 0 <= i < OVERRIDE_TARGETS && #[trigger] self@[i] is Some,
    {
        let mut i: usize = 0;
        while i < OVERRIDE_TARGETS
            invariant
                i <= OVERRIDE_TARGETS,
                self@.len() == OVERRIDE_TARGETS,
                forall|k: int| 0 <= k < i ==> #[trigger] self@[k] is None,
            decreases OVERRIDE_TARGETS - i,
        {
            if self.slots[i].is_some() {
                return true;
            }
            i += 1;
        }
        false
    }
}

impl Default for Overrides {
    fn default() -> (r: Self)
        ensures
            r@ == Seq::new(OVERRIDE_TARGETS as nat, |_i: int| None::<OverrideSlot>),
    {
        Overrides::new()
    }
}

/// Overrides are fail-safe: one set at `now_ms` for `timeout_ms` reads back
/// until its (clamped) timeout has passed, and reads as lapsed from then on
/// for just under half the clock range, across clock wrap-around.
pub proof fn lemma_override_window(now_ms: u32, timeout_ms: u16, d: u32)
    ensures
        ({
            let expires = vstd::wrapping::u32_specs::wrapping_add(now_ms, clamp_timeout(timeout_ms));
            let later = vstd::wrapping::u32_specs::wrapping_add(now_ms, d);
            &&& d < clamp_timeout(timeout_ms) ==> !lapsed(expires, later)
            &&& clamp_timeout(timeout_ms) <= d < clamp_timeout(timeout_ms) + u32::MAX / 2 ==> lapsed(
                expires,
                later,
            )
        }),
{
}

/// Bench-test actuator targets (`BenchTest.target`).
#[derive(Clone, Copy, Debug, PartialEq, Eq, Structural)]
pub enum BenchTarget {
    /// Fuel injector by cylinder index.
    Injector,
    /// Ignition coil by cylinder index.
    IgnitionCoil,
    /// Fuel pump relay.
    FuelPump,
    /// Cooling fan relay.
    Fan,
    /// Idle valve.
    Idle,
    /// Tachometer output.
    Tachometer,
}

impl BenchTarget {
    /// Wire value.
    pub open spec fn code(self) -> u8 {
        match self {
            BenchTarget::Injector => 0,
            BenchTarget::IgnitionCoil => 1,
            BenchTarget::FuelPump => 2,
            BenchTarget::Fan => 3,
            BenchTarget::Idle => 4,
            BenchTarget::Tachometer => 5,
        }
    }

    /// Parse from the wire byte.
    pub fn from_u8(v: u8) -> (r: Option<Self>)
        ensures
            r is None <==> v > 5,
            r matches Some(t) ==> t.code() == v,
    {
        match v {
            0 => Some(Self::Injector),
            1 => Some(Self::IgnitionCoil),
            2 => Some(Self::FuelPump),
            3 => Some(Self::Fan),
            4 => Some(Self::Idle),
            5 => Some(Self::Tachometer),
            _ => None,
        }
    }
}

/// A validated bench-test request, queued for the control loop to execute.
#[derive(Clone, Copy, Debug, PartialEq, Eq, Structural)]
pub struct BenchTestSpec {
    /// Actuator to exercise.
    pub target: BenchTarget,
    /// Channel index (cylinder, fan number, …).
    pub index: u8,
    /// On time per pulse (ms).
    pub on_ms: u16,
    /// Off time between pulses (ms).
    pub off_ms: u16,
    /// Number of pulses.
    pub count: u16,
}

/// Calibration routines (`Calibrate.routine`).
#[derive(Clone, Copy, Debug, PartialEq, Eq, Structural)]
pub enum CalibrateRoutine {
    /// Learn current TPS ADC as closed throttle.
    TpsClosed,
    /// Learn current TPS ADC as wide-open throttle.
    TpsOpen,
    /// Learn barometric pressure from MAP at key-on.
    MapBaro,
    /// Clear adaptive learning (LTFT trims etc.).
    ClearAdaptive,
}

impl CalibrateRoutine {
    /// Wire value.
    pub open spec fn code(self) -> u8 {
        match self {
            CalibrateRoutine::TpsClosed => 0,
            CalibrateRoutine::TpsOpen => 1,
            CalibrateRoutine::MapBaro => 2,
            CalibrateRoutine::ClearAdaptive => 3,
        }
    }

    /// Parse from the wire byte.
    pub fn from_u8(v: u8) -> (r: Option<Self>)
        ensures
            r is None <==> v > 3,
            r matches Some(t) ==> t.code() == v,
    {
        match v {
            0 => Some(Self::TpsClosed),
            1 => Some(Self::TpsOpen),
            2 => Some(Self::MapBaro),
            3 => Some(Self::ClearAdaptive),
            _ => None,
        }
    }
}

/// Distinct targets and routines have distinct wire values, so parsing a
/// wire value gives back the one that has it.
pub proof fn lemma_control_codes_injective()
    ensures
        forall|a: OverrideTarget, b: OverrideTarget| a.code() == b.code() ==> a == b,
        forall|a: BenchTarget, b: BenchTarget| a.code() == b.code() ==> a == b,
        forall|a: CalibrateRoutine, b: CalibrateRoutine| a.code() == b.code() ==> a == b,
{
}

} // verus!
