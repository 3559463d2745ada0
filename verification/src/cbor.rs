//! RDP message bodies. Each is carried CBOR-encoded, its fields keyed by
//! position (`0, 1, 2, …` in declaration order); byte strings (`device_id`,
//! `raw`) are CBOR byte strings. The codecs live with the transport.
use vstd::prelude::*;

use crate::message::{ErrorCode, ValueType};

verus! {

/// Device identity and properties.
#[derive(Debug, Clone, PartialEq)]
pub struct HelloInfo<'a> {
    /// Protocol major version.
    pub proto_major: u8,
    /// Protocol minor version.
    pub proto_minor: u8,
    /// Firmware version string.
    pub fw_version: &'a str,
    /// Board identifier.
    pub board: u8,
    /// MCU name.
    pub mcu: &'a str,
    /// Cylinder count.
    pub cylinders: u8,
    /// Capability bit flags.
    pub capabilities: u32,
    /// Schema hash over the catalogs.
    pub schema_hash: u32,
    /// Maximum frame payload.
    pub max_payload: u16,
    /// Unique device ID.
    pub device_id: &'a [u8],
}

/// Liveness keepalive request.
#[derive(Debug, Clone, PartialEq)]
pub struct PingRequest {
    /// Echoed nonce.
    pub nonce: u32,
}

/// Liveness keepalive response.
#[derive(Debug, Clone, PartialEq)]
pub struct PingResponse {
    /// The request's nonce.
    pub nonce: u32,
    /// Milliseconds since boot.
    pub uptime_ms: u32,
}

/// Device reboot request.
#[derive(Debug, Clone, PartialEq)]
pub struct RebootRequest {
    /// Reboot mode.
    pub mode: u8,
}

/// Request to enter bootloader/DFU.
#[derive(Debug, Clone, PartialEq)]
pub struct EnterBootloaderRequest {
    /// Confirmation magic.
    pub confirm: u32,
}

/// UI category group.
#[derive(Debug, Clone, PartialEq)]
pub struct CategoryDesc<'a> {
    /// Category index.
    pub id: u8,
    /// Display name.
    pub name: &'a str,
}

/// Request to get a catalog page.
#[derive(Debug, Clone, PartialEq)]
pub struct GetCatalogRequest {
    /// Page index.
    pub page: u16,
}

/// Wrapped parameter value.
#[derive(Debug, Clone, PartialEq)]
pub struct ParamValue<'a> {
    /// Value type of `raw`.
    pub vtype: ValueType,
    /// Little-endian raw bytes.
    pub raw: &'a [u8],
}

/// Entry to set a parameter value.
#[derive(Debug, Clone, PartialEq)]
pub struct ParamSetEntry<'a> {
    /// Parameter ID.
    pub id: u16,
    /// New value.
    pub value: ParamValue<'a>,
}

/// Result of a single parameter write.
#[derive(Debug, Clone, PartialEq)]
pub struct ParamSetResult {
    /// Parameter ID.
    pub id: u16,
    /// Outcome.
    pub code: ErrorCode,
}

/// Request a 2D/1D table's data.
#[derive(Debug, Clone, PartialEq)]
pub struct TableGetRequest {
    /// Table ID.
    pub table_id: u16,
}

/// Response for configuration save.
#[derive(Debug, Clone, PartialEq)]
pub struct ConfigSaveResponse {
    /// Bytes written to flash.
    pub saved_bytes: u32,
    /// CRC of the saved image.
    pub crc: u32,
}

/// Request to reset configuration to defaults.
#[derive(Debug, Clone, PartialEq)]
pub struct ConfigResetDefaultsRequest {
    /// Confirmation magic.
    pub confirm: u32,
}

/// Response containing configuration status.
#[derive(Debug, Clone, PartialEq)]
pub struct ConfigStatusResponse {
    /// RAM differs from flash.
    pub dirty: bool,
    /// CRC of the RAM configuration.
    pub ram_crc: u32,
    /// CRC of the flash configuration.
    pub flash_crc: u32,
}

/// Request to unsubscribe from a stream.
#[derive(Debug, Clone, PartialEq)]
pub struct UnsubscribeRequest {
    /// Stream ID.
    pub stream_id: u8,
}

/// Request to bench-test an actuator (engine must be stopped).
#[derive(Debug, Clone, PartialEq)]
pub struct BenchTestRequest {
    /// Actuator class.
    pub target: u8,
    /// Actuator index.
    pub index: u8,
    /// On time per pulse (ms).
    pub on_ms: u16,
    /// Off time per pulse (ms).
    pub off_ms: u16,
    /// Number of pulses.
    pub count: u16,
}

/// Request to clear a control override.
#[derive(Debug, Clone, PartialEq)]
pub struct ClearOverrideRequest {
    /// Override target.
    pub target: u8,
}

/// One structured fault (DTC) entry.
#[derive(Debug, Clone, PartialEq)]
pub struct FaultEntry {
    /// Fault code.
    pub code: u16,
    /// Severity.
    pub severity: u8,
    /// Condition still present.
    pub active: bool,
    /// Occurrence count.
    pub count: u16,
    /// First occurrence (ms).
    pub first_ts_ms: u32,
    /// Last occurrence (ms).
    pub last_ts_ms: u32,
    /// Context detail.
    pub detail: u16,
}

/// Request to clear faults by bitmask.
#[derive(Debug, Clone, PartialEq)]
pub struct ClearFaultsRequest {
    /// Bitmask of fault classes to clear.
    pub mask: u32,
}

/// Response reporting how many faults were cleared.
#[derive(Debug, Clone, PartialEq)]
pub struct ClearFaultsResponse {
    /// Number cleared.
    pub cleared: u16,
}

/// Asynchronous event body (`Kind::Event` push).
#[derive(Debug, Clone, PartialEq)]
pub struct EventBody {
    /// Event kind.
    pub kind: u8,
    /// Timestamp (ms since boot).
    pub ts_ms: u32,
    /// Kind-dependent value A.
    pub a: i32,
    /// Kind-dependent value B.
    pub b: i32,
}

/// Generic error response body.
#[derive(Debug, Clone, PartialEq)]
pub struct ErrorResponseBody<'a> {
    /// Status code.
    pub code: ErrorCode,
    /// Context detail.
    pub detail: u16,
    /// Optional human-readable message.
    pub message: Option<&'a str>,
}

} // verus!
