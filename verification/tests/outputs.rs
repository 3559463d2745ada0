use rustems::comms::output::{OutputChannelWords, OUTPUT_CHANNELS_LEN};
use rustems::outputs::{FuelPumpController, FuelPumpState, TachometerOutput};

/// Minimum engine speed of the test pump configuration.
const MIN_RPM: f32 = 50.0;

fn update(pump: &mut FuelPumpController, rpm: f32, dt_ms: u32) -> bool {
    pump.update(rpm >= MIN_RPM, dt_ms)
}

#[test]
fn fuel_pump_primes_then_stops() {
    let mut pump = FuelPumpController::new(100, 50);
    pump.on_key_on();
    assert!(matches!(pump.state(), FuelPumpState::Priming { .. }));
    assert!(update(&mut pump, 0.0, 50));
    assert!(!update(&mut pump, 0.0, 60));
    assert_eq!(pump.state(), FuelPumpState::Off);
}

#[test]
fn fuel_pump_runs_with_engine() {
    let mut pump = FuelPumpController::new(50, 100);
    pump.on_key_on();
    update(&mut pump, 0.0, 60);
    assert!(update(&mut pump, 800.0, 10));
    assert_eq!(pump.state(), FuelPumpState::Running);
    assert!(update(&mut pump, 800.0, 10));
    assert!(update(&mut pump, 0.0, 50));
    assert_eq!(pump.state(), FuelPumpState::Running);
    assert!(!update(&mut pump, 0.0, 60));
    assert_eq!(pump.state(), FuelPumpState::Off);
}

#[test]
fn fuel_pump_reset() {
    let mut pump = FuelPumpController::new(2000, 500);
    pump.on_key_on();
    assert!(matches!(pump.state(), FuelPumpState::Priming { .. }));
    pump.reset();
    assert_eq!(pump.state(), FuelPumpState::Off);
}

#[test]
fn fuel_pump_prime_with_running_engine() {
    let mut pump = FuelPumpController::new(100, 50);
    pump.on_key_on();
    assert!(update(&mut pump, 1000.0, 50));
    assert!(matches!(pump.state(), FuelPumpState::Priming { .. }));
    assert!(update(&mut pump, 1000.0, 60));
    assert_eq!(pump.state(), FuelPumpState::Running);
}

#[test]
fn fuel_pump_stays_off_when_engine_stopped() {
    let mut pump = FuelPumpController::new(50, 100);
    pump.on_key_on();
    update(&mut pump, 0.0, 60);
    assert_eq!(pump.state(), FuelPumpState::Off);
    assert!(!update(&mut pump, 0.0, 10));
    assert_eq!(pump.state(), FuelPumpState::Off);
}

#[test]
fn fuel_pump_rpm_bouncing() {
    let mut pump = FuelPumpController::new(50, 100);
    pump.on_key_on();
    update(&mut pump, 1000.0, 60);
    assert!(update(&mut pump, 1000.0, 10));
    assert!(update(&mut pump, 30.0, 10));
    assert!(update(&mut pump, 1000.0, 10));
    assert!(update(&mut pump, 30.0, 10));
    assert!(update(&mut pump, 30.0, 50));
    assert!(!update(&mut pump, 30.0, 60));
}

#[test]
fn fuel_pump_priming_counts_down() {
    let mut pump = FuelPumpController::new(100, 50);
    pump.on_key_on();
    assert!(update(&mut pump, 0.0, 30));
    assert_eq!(pump.state(), FuelPumpState::Priming { remaining_ms: 70 });
}

/// Frequency of the tacho signal, as the output stage computes it.
fn tacho_update(tacho: &mut TachometerOutput, rpm: f32) -> Option<f32> {
    if rpm <= 0.0 {
        tacho.active = false;
        None
    } else {
        tacho.active = true;
        Some(rpm / 60.0 * tacho.pulses_per_rev() as f32)
    }
}

#[test]
fn tachometer_basic() {
    let mut tacho = TachometerOutput::new(2);
    assert_eq!(tacho_update(&mut tacho, 0.0), None);
    assert!(!tacho.active);
    assert_eq!(tacho_update(&mut tacho, 6000.0), Some(200.0));
    assert!(tacho.active);
    assert_eq!(tacho_update(&mut tacho, 3000.0), Some(100.0));
}

#[test]
fn tachometer_different_configs() {
    let mut tacho4 = TachometerOutput::new(4);
    assert_eq!(tacho_update(&mut tacho4, 3000.0), Some(200.0));
    let mut tacho_default = TachometerOutput::default_4cyl_wasted();
    assert_eq!(tacho_default.pulses_per_rev(), 2);
    assert_eq!(tacho_update(&mut tacho_default, 3000.0), Some(100.0));
}

/// Scale physical channel values into their wire words.
fn words(
    rpm: f32,
    clt_c: f32,
    iat_c: f32,
    map_kpa: f32,
    tps_pct: f32,
    battery_v: f32,
    lambda: f32,
    inj_pulse_ms: f32,
    advance_deg: f32,
    spark_cut: bool,
    sequential: bool,
) -> OutputChannelWords {
    OutputChannelWords {
        rpm: rpm.clamp(0.0, 65_535.0) as u16,
        clt: (clt_c * 10.0).clamp(-32_768.0, 32_767.0) as i16,
        iat: (iat_c * 10.0).clamp(-32_768.0, 32_767.0) as i16,
        map: (map_kpa * 10.0).clamp(0.0, 65_535.0) as u16,
        tps: (tps_pct * 10.0).clamp(0.0, 65_535.0) as u16,
        battery: (battery_v * 100.0).clamp(0.0, 65_535.0) as u16,
        lambda: (lambda * 1000.0).clamp(0.0, 65_535.0) as u16,
        inj_pulse: (inj_pulse_ms * 100.0).clamp(0.0, 65_535.0) as u16,
        advance: (advance_deg * 10.0).clamp(-32_768.0, 32_767.0) as i16,
        spark_cut,
        sequential,
    }
}

#[test]
fn layout_scales_and_packs() {
    let w = words(3500.0, 87.5, -10.0, 95.0, 42.0, 13.8, 0.95, 3.2, 22.5, false, true);
    let b = w.to_bytes();
    assert_eq!(u16::from_be_bytes([b[0], b[1]]), 3500);
    assert_eq!(i16::from_be_bytes([b[2], b[3]]), 875);
    assert_eq!(i16::from_be_bytes([b[4], b[5]]), -100);
    assert_eq!(u16::from_be_bytes([b[6], b[7]]), 950);
    assert_eq!(u16::from_be_bytes([b[8], b[9]]), 420);
    assert_eq!(u16::from_be_bytes([b[10], b[11]]), 1380);
    assert_eq!(u16::from_be_bytes([b[12], b[13]]), 950);
    assert_eq!(u16::from_be_bytes([b[14], b[15]]), 320);
    assert_eq!(i16::from_be_bytes([b[16], b[17]]), 225);
    assert_eq!(b[18], 0x02);
}

#[test]
fn spark_cut_flag_sets_bit0() {
    let w = words(0.0, 0.0, 0.0, 0.0, 0.0, 0.0, 0.0, 0.0, 0.0, true, false);
    assert_eq!(w.to_bytes()[18], 0x01);
}

#[test]
fn short_buffer_is_rejected() {
    let w = words(0.0, 0.0, 0.0, 0.0, 0.0, 0.0, 0.0, 0.0, 0.0, false, false);
    let mut small = [0u8; 4];
    assert_eq!(w.write_to(&mut small), None);
    let mut big = [0xFFu8; OUTPUT_CHANNELS_LEN + 2];
    assert_eq!(w.write_to(&mut big), Some(OUTPUT_CHANNELS_LEN));
    assert_eq!(&big[OUTPUT_CHANNELS_LEN..], &[0xFF, 0xFF]);
}
