//! Requests a host sends to the TunerStudio-compatible responder: a command
//! byte followed by big-endian fields, as [`crate::comms::handle_request`]
//! reads them.
use vstd::prelude::*;

use crate::comms::{
    read_request, spec_config_after, spec_reply, write_request, CMD_BURN, CMD_CRC, CMD_HELLO,
    CMD_OUTPUT, CMD_READ, CMD_VERSION, CMD_WRITE, TS_RESPONSE_OK,
};

verus! {

/// A request to the ECU.
#[derive(Debug, Clone)]
pub enum Command {
    /// `S` — firmware signature.
    Hello,
    /// `V` — firmware version.
    GetFirmwareVersion,
    /// `R` — read a range of a configuration page.
    ReadPage {
        /// Page index.
        page: u16,
        /// Byte offset in the page.
        offset: u16,
        /// Number of bytes.
        length: u16,
    },
    /// `C` — write bytes into a configuration page.
    WriteChunk {
        /// Page index.
        page: u16,
        /// Byte offset in the page.
        offset: u16,
        /// Bytes to write.
        data: Vec<u8>,
    },
    /// `B` — burn RAM configuration to flash.
    Burn,
    /// `O` — read a range of the output-channel block.
    OutputChannels {
        /// Byte offset in the block.
        offset: u16,
        /// Number of bytes.
        length: u16,
    },
    /// `k` — CRC32 of a configuration range.
    CrcCheck {
        /// Page index.
        page: u16,
        /// Byte offset in the page.
        offset: u16,
        /// Number of bytes.
        length: u16,
    },
}

/// `v` as two big-endian bytes.
pub open spec fn be16_seq(v: u16) -> Seq<u8> {
    seq![(v / 256) as u8, (v % 256) as u8]
}

impl Command {
    /// The request payload: the command byte, then the fields big-endian (a
    /// write's data last).
    pub open spec fn spec_payload(&self) -> Seq<u8> {
        match self {
            Command::Hello => seq![CMD_HELLO],
            Command::GetFirmwareVersion => seq![CMD_VERSION],
            Command::ReadPage { page, offset, length } => seq![CMD_READ] + be16_seq(*page)
                + be16_seq(*offset) + be16_seq(*length),
            Command::WriteChunk { page, offset, data } => seq![CMD_WRITE] + be16_seq(*page)
                + be16_seq(*offset) + data@,
            Command::Burn => seq![CMD_BURN],
            Command::OutputChannels { offset, length } => seq![CMD_OUTPUT] + be16_seq(*offset)
                + be16_seq(*length),
            Command::CrcCheck { page, offset, length } => seq![CMD_CRC] + be16_seq(*page)
                + be16_seq(*offset) + be16_seq(*length),
        }
    }

    /// The request payload.
    pub fn to_payload(&self) -> (r: Vec<u8>)
        ensures
            r@ == self.spec_payload(),
    {
        let mut p: Vec<u8> = Vec::new();
        match self {
            Command::Hello => {
                p.push(CMD_HELLO);
            },
            Command::GetFirmwareVersion => {
                p.push(CMD_VERSION);
            },
            Command::ReadPage { page, offset, length } => {
                p.push(CMD_READ);
                push_be16(&mut p, *page);
                push_be16(&mut p, *offset);
                push_be16(&mut p, *length);
            },
            Command::WriteChunk { page, offset, data } => {
                p.push(CMD_WRITE);
                push_be16(&mut p, *page);
                push_be16(&mut p, *offset);
                let ghost before = p@;
                let mut i: usize = 0;
                while i < data.len()
                    invariant
                        i <= data@.len(),
                        p@ == before + data@.take(i as int),
                    decreases data@.len() - i,
                {
                    p.push(data[i]);
                    assert(p@ =~= before + data@.take(i + 1));
                    i += 1;
                }
                assert(data@.take(data@.len() as int) =~= data@);
            },
            Command::Burn => {
                p.push(CMD_BURN);
            },
            Command::OutputChannels { offset, length } => {
                p.push(CMD_OUTPUT);
                push_be16(&mut p, *offset);
                push_be16(&mut p, *length);
            },
            Command::CrcCheck { page, offset, length } => {
                p.push(CMD_CRC);
                push_be16(&mut p, *page);
                push_be16(&mut p, *offset);
                push_be16(&mut p, *length);
            },
        }
        assert(p@ =~= self.spec_payload());
        p
    }
}

fn push_be16(p: &mut Vec<u8>, v: u16)
    ensures
        final(p)@ == old(p)@ + be16_seq(v),
{
    p.push((v / 256) as u8);
    p.push((v % 256) as u8);
    assert(p@ =~= old(p)@ + be16_seq(v));
}

/// A page-0 write then read built by a host client: the responder accepts
/// the in-range write and answers the read of the written range with the
/// written bytes.
pub proof fn lemma_client_write_then_read(
    write: Command,
    config: Seq<u8>,
    signature: Seq<u8>,
    firmware_version: Seq<u8>,
    outputs: Seq<u8>,
)
    requires
        write matches Command::WriteChunk { page, offset, data } && page == 0 && data@.len()
            <= 0xFFFF && offset + data@.len() <= config.len(),
    ensures
        ({
            let (offset, data) = match write {
                Command::WriteChunk { offset, data, .. } => (offset, data@),
                _ => (0u16, Seq::empty()),
            };
            let read = Command::ReadPage { page: 0, offset, length: data.len() as u16 };
            &&& spec_reply(write.spec_payload(), signature, firmware_version, config, outputs)
                == Some(seq![TS_RESPONSE_OK])
            &&& spec_reply(
                read.spec_payload(),
                signature,
                firmware_version,
                spec_config_after(write.spec_payload(), config),
                outputs,
            ) == Some(seq![TS_RESPONSE_OK] + data)
        }),
{
    let (offset, data) = match write {
        Command::WriteChunk { offset, data, .. } => (offset, data@),
        _ => (0u16, Seq::empty()),
    };
    let read = Command::ReadPage { page: 0, offset, length: data.len() as u16 };
    assert(write.spec_payload() =~= write_request(offset, data));
    assert(read.spec_payload() =~= read_request(offset, data.len() as u16));
    crate::comms::lemma_write_then_read(config, offset, data, signature, firmware_version, outputs);
}

} // verus!
