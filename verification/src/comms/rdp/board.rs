//! Board identifiers for `HelloInfo.board`.
use vstd::prelude::*;

verus! {

/// PC simulator.
pub const SIM: u8 = 0;
/// Nano (STM32F4, 1–2 cylinders).
pub const NANO: u8 = 1;
/// microRusEFI (STM32F407).
pub const MICRO_RUSEFI: u8 = 2;
/// uaEFI (STM32F4, 6 cylinders).
pub const UAEFI: u8 = 3;
/// Proteus (STM32F767).
pub const PROTEUS: u8 = 4;
/// Huge (STM32F4, 12 cylinders).
pub const HUGE: u8 = 5;

} // verus!
