//! Verified core of the RustEMS engine-management tool chain: the device wire
//! protocol (COBS, CRC16, frames, message headers), the TunerStudio-compatible
//! responder, the bootloader state machine and assorted CAN and configuration
//! helpers.
use vstd::prelude::*;

pub mod bootloader;
pub mod can;
pub mod cbor;
pub mod codegen;
pub mod cobs;
pub mod comms;
pub mod crc16;
pub mod defrag;
pub mod frame;
pub mod hal;
pub mod image;
pub mod message;
pub mod outputs;
pub mod rdp;

verus! {

} // verus!
