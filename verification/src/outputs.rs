//! Generic output control: the fuel pump state machine and the tachometer
//! output. Engine speed enters as the outcome of comparing it with the
//! configured threshold, so the decisions here are over integers and flags.
use vstd::prelude::*;

verus! {

/// Fuel pump control state machine.
#[derive(Clone, Copy, Debug, PartialEq, Eq, Structural)]
pub enum FuelPumpState {
    /// Pump is off.
    Off,
    /// Pump is priming (initial startup).
    Priming {
        /// Remaining prime duration in milliseconds.
        remaining_ms: u32,
    },
    /// Pump is running normally.
    Running,
}

/// Fuel pump controller: primes at key-on, runs while the engine turns, and
/// shuts off once the engine has been below the minimum speed for the
/// shutdown delay.
pub struct FuelPumpController {
    prime_duration_ms: u32,
    shutdown_delay_ms: u32,
    state: FuelPumpState,
    shutdown_timer_ms: u32,
}

/// Abstract state of a [`FuelPumpController`].
pub struct FuelPumpModel {
    /// Prime duration at key-on (ms).
    pub prime_duration_ms: u32,
    /// Delay below minimum speed before shutting off (ms).
    pub shutdown_delay_ms: u32,
    /// Current state.
    pub state: FuelPumpState,
    /// Time spent below minimum speed while running (ms).
    pub shutdown_timer_ms: u32,
}

/// One update of the pump with the engine at or above the minimum speed
/// (`rpm_ok`) after `dt_ms`: the next state and whether the pump is
/// energised.
pub open spec fn pump_step(m: FuelPumpModel, rpm_ok: bool, dt_ms: u32) -> (FuelPumpModel, bool) {
    match m.state {
        FuelPumpState::Off => {
            if rpm_ok {
                (FuelPumpModel { state: FuelPumpState::Running, ..m }, true)
            } else {
                (m, false)
            }
        },
        FuelPumpState::Priming { remaining_ms } => {
            if remaining_ms <= dt_ms {
                (
                    FuelPumpModel {
                        state: if rpm_ok {
                            FuelPumpState::Running
                        } else {
                            FuelPumpState::Off
                        },
                        ..m
                    },
                    rpm_ok,
                )
            } else {
                (
                    FuelPumpModel {
                        state: FuelPumpState::Priming { remaining_ms: (remaining_ms - dt_ms) as u32 },
                        ..m
                    },
                    true,
                )
            }
        },
        FuelPumpState::Running => {
            if !rpm_ok {
                let t = m.shutdown_timer_ms + dt_ms;
                if t >= m.shutdown_delay_ms {
                    (FuelPumpModel { state: FuelPumpState::Off, shutdown_timer_ms: 0, ..m }, false)
                } else {
                    (FuelPumpModel { shutdown_timer_ms: t as u32, ..m }, true)
                }
            } else {
                (FuelPumpModel { shutdown_timer_ms: 0, ..m }, true)
            }
        },
    }
}

impl View for FuelPumpController {
    type V = FuelPumpModel;

    closed spec fn view(&self) -> FuelPumpModel {
        FuelPumpModel {
            prime_duration_ms: self.prime_duration_ms,
            shutdown_delay_ms: self.shutdown_delay_ms,
            state: self.state,
            shutdown_timer_ms: self.shutdown_timer_ms,
        }
    }
}

impl FuelPumpController {
    /// Create a controller that primes for `prime_duration_ms` and shuts off
    /// after `shutdown_delay_ms` below minimum speed; it starts off.
    pub fn new(prime_duration_ms: u32, shutdown_delay_ms: u32) -> (r: Self)
        ensures
            r@ == (FuelPumpModel {
                prime_duration_ms,
                shutdown_delay_ms,
                state: FuelPumpState::Off,
                shutdown_timer_ms: 0,
            }),
    {
        FuelPumpController {
            prime_duration_ms,
            shutdown_delay_ms,
            state: FuelPumpState::Off,
            shutdown_timer_ms: 0,
        }
    }

    /// Call at key-on to start priming.
    pub fn on_key_on(&mut self)
        ensures
            final(self)@ == (FuelPumpModel {
                state: FuelPumpState::Priming { remaining_ms: old(self)@.prime_duration_ms },
                shutdown_timer_ms: 0,
                ..old(self)@
            }),
    {
        self.state = FuelPumpState::Priming { remaining_ms: self.prime_duration_ms };
        self.shutdown_timer_ms = 0;
    }

    /// Update the pump after `dt_ms`, with `rpm_ok` telling whether the
    /// engine is at or above the minimum speed. Returns `true` if the pump
    /// should be energised. Priming ends after the prime duration (running
    /// if the engine turns, off otherwise); an idle pump starts running once
    /// the engine turns; a running pump stays on through the shutdown delay
    /// below minimum speed.
    pub fn update(&mut self, rpm_ok: bool, dt_ms: u32) -> (r: bool)
        requires
            old(self)@.state == FuelPumpState::Running && !rpm_ok ==> old(self)@.shutdown_timer_ms
                + dt_ms <= u32::MAX,
        ensures
            (final(self)@, r) == pump_step(old(self)@, rpm_ok, dt_ms),
            old(self)@.state == FuelPumpState::Running && rpm_ok ==> r && final(self)@.state
                == FuelPumpState::Running && final(self)@.shutdown_timer_ms == 0,
            old(self)@.state == FuelPumpState::Running && !rpm_ok ==> if old(self)@.shutdown_timer_ms
                + dt_ms >= old(self)@.shutdown_delay_ms {
                !r && final(self)@.state == FuelPumpState::Off
            } else {
                r && final(self)@.state == FuelPumpState::Running && final(self)@.shutdown_timer_ms
                    == old(self)@.shutdown_timer_ms + dt_ms
            },
            old(self)@.state == FuelPumpState::Off ==> r == rpm_ok && final(self)@.state == (if rpm_ok {
                FuelPumpState::Running
            } else {
                FuelPumpState::Off
            }),
            old(self)@.state matches FuelPumpState::Priming { remaining_ms } ==> if remaining_ms > dt_ms {
                r && final(self)@.state == FuelPumpState::Priming {
                    remaining_ms: (remaining_ms - dt_ms) as u32,
                }
            } else {
                r == rpm_ok && final(self)@.state == (if rpm_ok {
                    FuelPumpState::Running
                } else {
                    FuelPumpState::Off
                })
            },
            final(self)@.prime_duration_ms == old(self)@.prime_duration_ms,
            final(self)@.shutdown_delay_ms == old(self)@.shutdown_delay_ms,
    {
        match self.state {
            FuelPumpState::Off => {
                if rpm_ok {
                    self.state = FuelPumpState::Running;
                    true
                } else {
                    false
                }
            },
            FuelPumpState::Priming { remaining_ms } => {
                if remaining_ms <= dt_ms {
                    if rpm_ok {
                        self.state = FuelPumpState::Running;
                    } else {
                        self.state = FuelPumpState::Off;
                    }
                    rpm_ok
                } else {
                    self.state = FuelPumpState::Priming { remaining_ms: remaining_ms - dt_ms };
                    true
                }
            },
            FuelPumpState::Running => {
                if !rpm_ok {
                    self.shutdown_timer_ms = self.shutdown_timer_ms + dt_ms;
                    if self.shutdown_timer_ms >= self.shutdown_delay_ms {
                        self.state = FuelPumpState::Off;
                        self.shutdown_timer_ms = 0;
                        false
                    } else {
                        true
                    }
                } else {
                    self.shutdown_timer_ms = 0;
                    true
                }
            },
        }
    }

    /// Time spent below minimum speed while running (ms).
    pub fn shutdown_timer_ms(&self) -> (r: u32)
        ensures
            r == self@.shutdown_timer_ms,
    {
        self.shutdown_timer_ms
    }

    /// Current pump state.
    pub fn state(&self) -> (r: FuelPumpState)
        ensures
            r == self@.state,
    {
        self.state
    }

    /// Reset to the off state (e.g., on key-off).
    pub fn reset(&mut self)
        ensures
            final(self)@ == (FuelPumpModel {
                state: FuelPumpState::Off,
                shutdown_timer_ms: 0,
                ..old(self)@
            }),
    {
        self.state = FuelPumpState::Off;
        self.shutdown_timer_ms = 0;
    }
}

/// A pump that is off stays off and de-energised while the engine is below
/// the minimum speed.
pub proof fn lemma_off_stays_off(m: FuelPumpModel, dt_ms: u32)
    requires
        m.state == FuelPumpState::Off,
    ensures
        pump_step(m, false, dt_ms) == (m, false),
{
}

/// Every update energises the pump exactly when it leaves the pump priming
/// or running, never when it leaves it off.
pub proof fn lemma_energised_iff_not_off(m: FuelPumpModel, rpm_ok: bool, dt_ms: u32)
    ensures
        pump_step(m, rpm_ok, dt_ms).1 <==> pump_step(m, rpm_ok, dt_ms).0.state != FuelPumpState::Off,
{
}

/// A running pump with the engine at speed stays running and energised.
pub proof fn lemma_running_at_speed(m: FuelPumpModel, dt_ms: u32)
    requires
        m.state == FuelPumpState::Running,
    ensures
        pump_step(m, true, dt_ms).0.state == FuelPumpState::Running,
        pump_step(m, true, dt_ms).1,
{
}

/// Total of the update intervals `ds`.
pub open spec fn elapsed_ms(ds: Seq<u32>) -> int
    decreases ds.len(),
{
    if ds.len() == 0 {
        0
    } else {
        elapsed_ms(ds.drop_last()) + ds.last()
    }
}

/// The pump after updates of intervals `ds`, all with the engine below the
/// minimum speed, and whether the last of them left it energised.
pub open spec fn low_speed_run(m: FuelPumpModel, ds: Seq<u32>) -> (FuelPumpModel, bool)
    decreases ds.len(),
{
    if ds.len() == 0 {
        (m, m.state != FuelPumpState::Off)
    } else {
        pump_step(low_speed_run(m, ds.drop_last()).0, false, ds.last())
    }
}

/// The shutdown delay counts continuous low-speed time: once the engine is
/// back at speed (any update with `rpm_ok`), a running pump stays running
/// and energised through low-speed updates until together they last the
/// shutdown delay, and is off from then on.
pub proof fn lemma_shutdown_after_continuous_low_speed(m: FuelPumpModel, dt_ms: u32, ds: Seq<u32>)
    requires
        m.state == FuelPumpState::Running,
        ds.len() > 0,
    ensures
        ({
            let back = pump_step(m, true, dt_ms).0;
            let (after, energised) = low_speed_run(back, ds);
            &&& energised == (elapsed_ms(ds) < m.shutdown_delay_ms)
            &&& after.state == (if elapsed_ms(ds) < m.shutdown_delay_ms {
                FuelPumpState::Running
            } else {
                FuelPumpState::Off
            })
        }),
{
    let back = pump_step(m, true, dt_ms).0;
    assert(back.state == FuelPumpState::Running && back.shutdown_timer_ms == 0
        && back.shutdown_delay_ms == m.shutdown_delay_ms);
    lemma_low_speed_run(back, ds);
}

proof fn lemma_low_speed_run(m: FuelPumpModel, ds: Seq<u32>)
    requires
        m.state == FuelPumpState::Running,
        m.shutdown_timer_ms == 0,
    ensures
        elapsed_ms(ds) >= 0,
        low_speed_run(m, ds).0.shutdown_delay_ms == m.shutdown_delay_ms,
        ds.len() > 0 ==> low_speed_run(m, ds).1 == (elapsed_ms(ds) < m.shutdown_delay_ms),
        low_speed_run(m, ds).0.state == (if elapsed_ms(ds) < m.shutdown_delay_ms {
            FuelPumpState::Running
        } else {
            FuelPumpState::Off
        }) || (ds.len() == 0 && m.shutdown_delay_ms == 0),
        elapsed_ms(ds) < m.shutdown_delay_ms ==> low_speed_run(m, ds).0.shutdown_timer_ms
            == elapsed_ms(ds),
        low_speed_run(m, ds).0.state == FuelPumpState::Running || low_speed_run(m, ds).0.state
            == FuelPumpState::Off,
        ds.len() == 0 ==> low_speed_run(m, ds).0 == m,
    decreases ds.len(),
{
    if ds.len() > 0 {
        let p = ds.drop_last();
        lemma_low_speed_run(m, p);
    }
}

/// Tachometer (tacho) output: a square wave whose frequency is proportional
/// to engine speed.
pub struct TachometerOutput {
    pulses_per_rev: u32,
    /// Current output state (driving a signal).
    pub active: bool,
}

impl TachometerOutput {
    /// Create a tachometer output with `pulses_per_rev` pulses per engine
    /// revolution (e.g. 2 for wasted spark, 4 for full sequential on a
    /// 4-cylinder); it starts inactive.
    pub fn new(pulses_per_rev: u32) -> (r: Self)
        ensures
            r.spec_pulses_per_rev() == pulses_per_rev,
            !r.spec_active(),
    {
        TachometerOutput { pulses_per_rev, active: false }
    }

    /// Pulses per engine revolution.
    pub closed spec fn spec_pulses_per_rev(&self) -> u32 {
        self.pulses_per_rev
    }

    /// Whether the output is driving a signal.
    pub closed spec fn spec_active(&self) -> bool {
        self.active
    }

    /// Default tachometer for a 4-cylinder wasted-spark engine (2 pulses per
    /// revolution).
    pub fn default_4cyl_wasted() -> (r: Self)
        ensures
            r.spec_pulses_per_rev() == 2,
            !r.spec_active(),
    {
        Self::new(2)
    }

    /// Pulses per engine revolution; the output toggles at
    /// `rpm / 60 * pulses_per_rev` Hz.
    pub fn pulses_per_rev(&self) -> (r: u32)
        ensures
            r == self.spec_pulses_per_rev(),
    {
        self.pulses_per_rev
    }
}

} // verus!
