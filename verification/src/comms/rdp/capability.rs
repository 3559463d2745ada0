//! Capability bit flags for `HelloInfo.capabilities`.
use vstd::prelude::*;

verus! {

/// Fuel injection control.
pub const FUEL: u32 = 0x01;
/// Ignition control.
pub const IGNITION: u32 = 0x02;
/// Boost control.
pub const BOOST: u32 = 0x04;
/// VVT control.
pub const VVT: u32 = 0x08;
/// Knock detection.
pub const KNOCK: u32 = 0x10;
/// CAN bus.
pub const CAN: u32 = 0x20;
/// Sequential injection.
pub const SEQUENTIAL: u32 = 0x40;

} // verus!
