//! Device-side RDP (RustEMS Device Protocol) identity, side-effect actions
//! and request payload builders. A message payload is
//! `KIND(u8) OP(u16 LE) BODY`; bodies are CBOR, encoded by the caller.
use vstd::prelude::*;

use crate::message::{
    le16, lemma_header_round_trip, spec_header_bytes, write_message_header, Kind, MESSAGE_HEADER_LEN,
};

pub mod board;
pub mod capability;
pub mod server;

verus! {

/// Protocol major version (mismatch → disconnect).
pub const PROTO_MAJOR: u8 = 1;

/// Protocol minor version (backward-compatible additions).
pub const PROTO_MINOR: u8 = 0;

/// Confirmation magic for `EnterBootloader`.
pub const BOOTLOADER_CONFIRM: u32 = 0xB007;

/// Confirmation magic for `ConfigResetDefaults`.
pub const RESET_DEFAULTS_CONFIRM: u32 = 0xDEFA;

/// Static device identity advertised by `Hello`.
#[derive(Clone, Copy, Debug)]
pub struct DeviceIdentity {
    /// Firmware version string.
    pub fw_version: &'static str,
    /// Board identifier (see [`board`]).
    pub board: u8,
    /// MCU name, e.g. `"STM32F407"`.
    pub mcu: &'static str,
    /// Cylinder count of this build.
    pub cylinders: u8,
    /// Capability bit flags (see [`capability`]).
    pub capabilities: u32,
    /// Unique device ID (MCU UID).
    pub device_id: [u8; 12],
}

/// The device ID of the PC simulator: `Q M` followed by zeros.
pub open spec fn sim_device_id() -> Seq<u8> {
    seq![0x51u8, 0x4Du8, 0u8, 0u8, 0u8, 0u8, 0u8, 0u8, 0u8, 0u8, 0u8, 0u8]
}

impl DeviceIdentity {
    /// Identity used by the PC simulator: board [`board::SIM`], MCU
    /// `x86-sim`, fuel + ignition + boost + sequential capabilities.
    pub fn sim(cylinders: u8) -> (r: Self)
        ensures
            r.fw_version@ == "RustEMS 0.1.0"@,
            r.board == board::SIM,
            r.mcu@ == "x86-sim"@,
            r.cylinders == cylinders,
            r.capabilities == capability::FUEL | capability::IGNITION | capability::BOOST
                | capability::SEQUENTIAL,
            r.device_id@ == sim_device_id(),
    {
        let device_id = [0x51u8, 0x4D, 0, 0, 0, 0, 0, 0, 0, 0, 0, 0];
        assert(device_id@ =~= sim_device_id());
        DeviceIdentity {
            fw_version: "RustEMS 0.1.0",
            board: board::SIM,
            mcu: "x86-sim",
            cylinders,
            capabilities: capability::FUEL | capability::IGNITION | capability::BOOST
                | capability::SEQUENTIAL,
            device_id,
        }
    }
}

/// Side effects the caller must perform after handling a request.
#[derive(Clone, Copy, Debug, Default, PartialEq, Eq, Structural)]
pub struct RdpActions {
    /// Persist the RAM config to flash.
    pub save: bool,
    /// Reboot the device.
    pub reboot: bool,
    /// Jump to the bootloader / DFU.
    pub enter_bootloader: bool,
    /// Replace the RAM config by the persisted (flash) one.
    pub restore_flash: bool,
    /// Replace the RAM config by the build defaults.
    pub restore_defaults: bool,
}

/// Write `KIND=Request OP` followed by the encoded `body` into `out`.
/// Returns the payload length, or `None` when it does not fit.
pub fn build_request(opcode: u16, body: &[u8], out: &mut [u8]) -> (r: Option<usize>)
    ensures
        final(out)@.len() == old(out)@.len(),
        r is Some <==> MESSAGE_HEADER_LEN + body@.len() <= old(out)@.len(),
        r matches Some(n) ==> n == MESSAGE_HEADER_LEN + body@.len() && final(out)@.take(n as int)
            == spec_header_bytes(Kind::Request, opcode) + body@ && final(out)@.skip(n as int)
            == old(out)@.skip(n as int),
        r is None ==> final(out)@ == old(out)@,
{
    if out.len() < MESSAGE_HEADER_LEN || out.len() - MESSAGE_HEADER_LEN < body.len() {
        return None;
    }
    let n = match write_message_header(Kind::Request, opcode, out) {
        Ok(n) => n,
        Err(_) => return None,
    };
    let ghost hdr = out@;
    let mut i: usize = 0;
    while i < body.len()
        invariant
            n == MESSAGE_HEADER_LEN,
            n + body.len() <= out.len(),
            out@.len() == hdr.len(),
            i <= body@.len(),
            out@.take(n as int) == hdr.take(n as int),
            forall|j: int| 0 <= j < i ==> out@[n + j] == body@[j],
            forall|j: int| n + i <= j < out@.len() ==> out@[j] == hdr[j],
        decreases body@.len() - i,
    {
        out[n + i] = body[i];
        assert(out@.take(n as int) =~= hdr.take(n as int));
        i += 1;
    }
    let total = n + body.len();
    assert(out@.take(total as int) =~= spec_header_bytes(Kind::Request, opcode) + body@) by {
        assert(hdr.take(3) =~= spec_header_bytes(Kind::Request, opcode));
    }
    assert forall|j: int| 3 <= j < hdr.len() implies hdr[j] == old(out)@[j] by {
        assert(hdr[j] == old(out)@.skip(3)[j - 3]);
    }
    assert(hdr.len() == old(out)@.len());
    assert(i == body@.len());
    assert forall|j: int| total <= j < out@.len() implies out@[j] == old(out)@[j] by {
        assert(out@[j] == hdr[j]);
    }
    assert(out@.skip(total as int) =~= old(out)@.skip(total as int));
    Some(total)
}

/// Write a body-less `KIND=Request OP` into `out`. Returns the payload
/// length, or `None` when `out` is shorter than a header.
pub fn build_request_empty(opcode: u16, out: &mut [u8]) -> (r: Option<usize>)
    ensures
        final(out)@.len() == old(out)@.len(),
        r is Some <==> MESSAGE_HEADER_LEN <= old(out)@.len(),
        r matches Some(n) ==> n == MESSAGE_HEADER_LEN && final(out)@.take(n as int)
            == spec_header_bytes(Kind::Request, opcode) && final(out)@.skip(n as int)
            == old(out)@.skip(n as int),
        r is None ==> final(out)@ == old(out)@,
{
    let r = write_message_header(Kind::Request, opcode, out);
    match r {
        Ok(n) => {
            assert(out@.take(3) =~= spec_header_bytes(Kind::Request, opcode));
            assert(out@.skip(3) =~= old(out)@.skip(3));
            Some(n)
        },
        Err(_) => None,
    }
}

/// A request built by [`build_request`] reads back as that request: the
/// bytes it writes (header, then body) have the `Request` kind, the opcode
/// and the body, which is what `read_message_header` returns for them.
pub proof fn lemma_request_reads_back(opcode: u16, body: Seq<u8>)
    ensures
        ({
            let written = spec_header_bytes(Kind::Request, opcode) + body;
            &&& written.len() == MESSAGE_HEADER_LEN + body.len()
            &&& written[0] == Kind::Request.code()
            &&& written[0] <= 3
            &&& le16(written[1], written[2]) == opcode
            &&& written.skip(3) == body
        }),
{
    lemma_header_round_trip(Kind::Request, opcode, body);
}

} // verus!
