//! Opcode catalog, grouped by category in the high byte.
use vstd::prelude::*;

verus! {

// --- A. System (0x01) ---
/// Identify device, capabilities, protocol/schema versions.
pub const HELLO: u16 = 0x0101;
/// Keepalive / liveness.
pub const PING: u16 = 0x0102;
/// Reboot the device.
pub const REBOOT: u16 = 0x0103;
/// Enter DFU/bootloader.
pub const ENTER_BOOTLOADER: u16 = 0x0104;

// --- B. Descriptor (0x02) ---
/// Schema version/hash, counts, category list.
pub const GET_SCHEMA_INFO: u16 = 0x0201;
/// Paged parameter descriptors.
pub const GET_PARAM_CATALOG: u16 = 0x0202;
/// Paged table descriptors.
pub const GET_TABLE_CATALOG: u16 = 0x0203;
/// Paged telemetry channel descriptors.
pub const GET_TELEMETRY_CATALOG: u16 = 0x0204;

// --- C. Config (0x03) ---
/// Read parameter values by id.
pub const PARAM_GET: u16 = 0x0301;
/// Write parameter values by id.
pub const PARAM_SET: u16 = 0x0302;
/// Read a full table (axes + cells).
pub const TABLE_GET: u16 = 0x0303;
/// Write a single table cell.
pub const TABLE_SET_CELL: u16 = 0x0304;
/// Write a table axis.
pub const TABLE_SET_AXIS: u16 = 0x0305;
/// Persist staged RAM config to flash.
pub const CONFIG_SAVE: u16 = 0x0306;
/// Discard staged RAM config (revert to flash).
pub const CONFIG_DISCARD: u16 = 0x0307;
/// Reset RAM config to defaults.
pub const CONFIG_RESET_DEFAULTS: u16 = 0x0308;
/// Report dirty/crc status.
pub const CONFIG_STATUS: u16 = 0x0309;

// --- D. Telemetry (0x04) ---
/// Subscribe to a telemetry stream.
pub const TELEM_SUBSCRIBE: u16 = 0x0401;
/// Unsubscribe a telemetry stream.
pub const TELEM_UNSUBSCRIBE: u16 = 0x0402;
/// One-shot telemetry read.
pub const TELEM_READ_ONCE: u16 = 0x0403;
/// Pushed telemetry frame (Kind::Telemetry).
pub const TELEM_FRAME: u16 = 0x04F0;

// --- E. Control (0x05) ---
/// Bench-test an actuator.
pub const BENCH_TEST: u16 = 0x0501;
/// Set a temporary control override.
pub const SET_OVERRIDE: u16 = 0x0502;
/// Clear a control override.
pub const CLEAR_OVERRIDE: u16 = 0x0503;
/// Run a calibration routine.
pub const CALIBRATE: u16 = 0x0504;

// --- F. Diagnostics (0x06) ---
/// Read stored faults (DTCs).
pub const GET_FAULTS: u16 = 0x0601;
/// Clear faults by mask.
pub const CLEAR_FAULTS: u16 = 0x0602;
/// Pushed asynchronous event (Kind::Event).
pub const EVENT: u16 = 0x06F0;

} // verus!
