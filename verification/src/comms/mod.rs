//! Device-side TunerStudio binary protocol responder.
//!
//! Frames/unframes packets and answers the TunerStudio commands needed for PC
//! tuning over a serial link, without any heap allocation.
//!
//! Wire format (all multi-byte integers big-endian):
//! `[u16 payload_length][payload bytes][u32 CRC32 of payload]`.
//!
//! A response payload is `[response_code][data...]`, where the code is
//! [`TS_RESPONSE_OK`] on success.
use vstd::prelude::*;

pub mod command;
pub mod control;
pub mod faults;
pub mod output;
pub mod rdp;
pub mod telemetry;

verus! {

/// Framing overhead: 2-byte length prefix + 4-byte CRC32 suffix.
pub const FRAMING_OVERHEAD: usize = 6;

/// Command understood and executed.
pub const TS_RESPONSE_OK: u8 = 0x00;

/// Command understood but rejected (e.g. out-of-range request).
pub const TS_RESPONSE_REJECTED: u8 = 0x01;

/// Command byte not recognised.
pub const TS_RESPONSE_UNRECOGNISED: u8 = 0x04;

/// Query protocol version (`F`).
pub const CMD_PROTOCOL: u8 = 0x46;

/// Hello / get signature (`S`).
pub const CMD_HELLO: u8 = 0x53;

/// Read a region of the configuration page (`R`).
pub const CMD_READ: u8 = 0x52;

/// Write a chunk into the configuration page (`C`).
pub const CMD_WRITE: u8 = 0x43;

/// Burn (commit) the configuration page (`B`).
pub const CMD_BURN: u8 = 0x42;

/// Read live output channels (`O`).
pub const CMD_OUTPUT: u8 = 0x4F;

/// Get firmware version (`V`).
pub const CMD_VERSION: u8 = 0x56;

/// CRC32 check of a configuration region (`k`).
pub const CMD_CRC: u8 = 0x6B;

/// One step of the reflected CRC-32 register.
pub open spec fn crc32_shift(crc: u32) -> u32 {
    if crc & 1 == 1 {
        ((crc >> 1u32) ^ 0xEDB8_8320u32) as u32
    } else {
        (crc >> 1u32) as u32
    }
}

/// `n` steps of the CRC-32 register.
pub open spec fn crc32_shifts(crc: u32, n: nat) -> u32
    decreases n,
{
    if n == 0 {
        crc
    } else {
        crc32_shift(crc32_shifts(crc, (n - 1) as nat))
    }
}

/// CRC-32 register after feeding `data` starting from `crc`.
pub open spec fn crc32_from(crc: u32, data: Seq<u8>) -> u32
    decreases data.len(),
{
    if data.len() == 0 {
        crc
    } else {
        crc32_shifts((crc32_from(crc, data.drop_last()) ^ (data.last() as u32)) as u32, 8)
    }
}

/// The IEEE 802.3 CRC-32 of `data`.
pub open spec fn spec_crc32(data: Seq<u8>) -> u32 {
    !crc32_from(0xFFFF_FFFFu32, data)
}

/// Compute the IEEE 802.3 CRC-32 (reflected, as used by the host tools).
pub fn crc32(data: &[u8]) -> (r: u32)
    ensures
        r == spec_crc32(data@),
{
    let mut crc: u32 = 0xFFFF_FFFF;
    let mut i: usize = 0;
    while i < data.len()
        invariant
            i <= data.len(),
            crc == crc32_from(0xFFFF_FFFFu32, data@.take(i as int)),
        decreases data.len() - i,
    {
        let start: u32 = crc ^ (data[i] as u32);
        crc = start;
        let mut k: u8 = 0;
        while k < 8
            invariant
                k <= 8,
                crc == crc32_shifts(start, k as nat),
            decreases 8 - k,
        {
            crc = if crc & 1 == 1 {
                (crc >> 1u32) ^ 0xEDB8_8320u32
            } else {
                crc >> 1u32
            };
            k += 1;
        }
        assert(data@.take(i + 1).drop_last() =~= data@.take(i as int));
        i += 1;
    }
    assert(data@.take(data.len() as int) =~= data@);
    !crc
}

/// Errors when decoding a framed packet from a byte stream.
#[derive(Clone, Copy, Debug, PartialEq, Eq, Structural)]
pub enum FrameError {
    /// Not enough bytes for a complete frame yet.
    Incomplete,
    /// The framed payload length exceeds the receive buffer.
    TooLarge,
    /// CRC32 of the payload did not match.
    CrcMismatch,
}

/// Big-endian `u16` of two bytes.
pub open spec fn be16(hi: u8, lo: u8) -> int {
    hi as int * 256 + lo as int
}

/// Big-endian `u32` of four bytes.
pub open spec fn be32(b: Seq<u8>) -> int {
    ((b[0] as int * 256 + b[1] as int) * 256 + b[2] as int) * 256 + b[3] as int
}

/// Big-endian bytes of a `u32`.
pub open spec fn be32_bytes(v: u32) -> Seq<u8> {
    seq![
        (v / 0x100_0000) as u8,
        (v / 0x1_0000 % 256) as u8,
        (v / 256 % 256) as u8,
        (v % 256) as u8,
    ]
}

/// Result of decoding one framed packet from the front of `buf`: the payload
/// and the number of bytes the frame occupies.
pub open spec fn spec_decode_frame(buf: Seq<u8>) -> Result<(Seq<u8>, int), FrameError> {
    if buf.len() < FRAMING_OVERHEAD {
        Err(FrameError::Incomplete)
    } else {
        let len = be16(buf[0], buf[1]);
        if buf.len() < len + FRAMING_OVERHEAD {
            Err(FrameError::Incomplete)
        } else if spec_crc32(buf.subrange(2, 2 + len)) != be32(buf.subrange(2 + len, 6 + len)) {
            Err(FrameError::CrcMismatch)
        } else {
            Ok((buf.subrange(2, 2 + len), len + FRAMING_OVERHEAD))
        }
    }
}

/// The framed packet for `payload`.
pub open spec fn spec_encode_frame(payload: Seq<u8>) -> Seq<u8> {
    seq![(payload.len() / 256) as u8, (payload.len() % 256) as u8] + payload + be32_bytes(
        spec_crc32(payload),
    )
}

proof fn lemma_be32_bytes(v: u32)
    ensures
        be32(be32_bytes(v)) == v,
        be32_bytes(v).len() == 4,
{
}

fn be32_to_bytes(v: u32) -> (r: [u8; 4])
    ensures
        r@ == be32_bytes(v),
{
    let r = [(v >> 24u32) as u8, (v >> 16u32) as u8, (v >> 8u32) as u8, v as u8];
    assert((v >> 24u32) as u8 == (v / 0x100_0000) as u8) by (bit_vector);
    assert((v >> 16u32) as u8 == (v / 0x1_0000 % 256) as u8) by (bit_vector);
    assert((v >> 8u32) as u8 == (v / 256 % 256) as u8) by (bit_vector);
    assert(v as u8 == (v % 256) as u8) by (bit_vector);
    assert(r@ =~= be32_bytes(v));
    r
}

/// Decode one framed packet from the front of `buf`.
///
/// On success returns the payload slice and the total number of bytes consumed
/// (so the caller can drain its receive buffer).
pub fn decode_frame(buf: &[u8]) -> (r: Result<(&[u8], usize), FrameError>)
    ensures
        match spec_decode_frame(buf@) {
            Err(e) => r == Err::<(&[u8], usize), FrameError>(e),
            Ok((p, n)) => (r matches Ok((p2, n2)) && p2@ == p && n2 == n),
        },
{
    if buf.len() < FRAMING_OVERHEAD {
        return Err(FrameError::Incomplete);
    }
    let len = (buf[0] as usize) * 256 + buf[1] as usize;
    let total = len + FRAMING_OVERHEAD;
    if buf.len() < total {
        return Err(FrameError::Incomplete);
    }
    let payload = vstd::slice::slice_subrange(buf, 2, 2 + len);
    let received: u32 = (((buf[2 + len] as u32 * 256 + buf[2 + len + 1] as u32) * 256 + buf[2
        + len + 2] as u32) * 256) + buf[2 + len + 3] as u32;
    assert(buf@.subrange(2 + len, 6 + len)[0] == buf@[2 + len]);
    assert(buf@.subrange(2 + len, 6 + len)[3] == buf@[2 + len + 3]);
    if crc32(payload) != received {
        return Err(FrameError::CrcMismatch);
    }
    Ok((payload, total))
}

/// Frame `payload` into `out`, returning the total packet length.
///
/// Returns `None` if `out` is too small or the payload is longer than a
/// 16-bit length can describe.
pub fn encode_frame(payload: &[u8], out: &mut [u8]) -> (r: Option<usize>)
    ensures
        final(out)@.len() == old(out)@.len(),
        payload@.len() > 0xFFFF || old(out)@.len() < payload@.len() + FRAMING_OVERHEAD ==> r is None
            && final(out)@ == old(out)@,
        payload@.len() <= 0xFFFF && old(out)@.len() >= payload@.len() + FRAMING_OVERHEAD ==> r
            == Some((payload@.len() + FRAMING_OVERHEAD) as usize) && final(out)@ == spec_encode_frame(
            payload@,
        ) + old(out)@.skip(payload@.len() + FRAMING_OVERHEAD),
{
    if payload.len() > 0xFFFF {
        return None;
    }
    let total = payload.len() + FRAMING_OVERHEAD;
    if out.len() < total {
        return None;
    }
    out[0] = (payload.len() / 256) as u8;
    out[1] = (payload.len() % 256) as u8;
    let ghost head = out@.take(2);
    let mut j: usize = 0;
    while j < payload.len()
        invariant
            j <= payload@.len(),
            payload@.len() <= 0xFFFF,
            total == payload@.len() + FRAMING_OVERHEAD,
            out@.len() == old(out)@.len(),
            out@.len() >= total,
            out@.take(2) == head,
            out@.subrange(2, 2 + j) == payload@.take(j as int),
            forall|k: int| 2 + payload@.len() <= k < out@.len() ==> out@[k] == old(out)@[k],
        decreases payload@.len() - j,
    {
        out[2 + j] = payload[j];
        proof {
            assert(out@.subrange(2, 2 + j + 1) =~= payload@.take(j + 1));
            assert(out@.take(2) =~= head);
        }
        j += 1;
    }
    let crc = be32_to_bytes(crc32(payload));
    let ghost body = out@.take(2 + payload@.len() as int);
    proof {
        assert(payload@.take(payload@.len() as int) =~= payload@);
        assert(body =~= head + payload@);
        assert(head =~= seq![(payload@.len() / 256) as u8, (payload@.len() % 256) as u8]);
    }
    let at = 2 + payload.len();
    out[at] = crc[0];
    out[at + 1] = crc[1];
    out[at + 2] = crc[2];
    out[at + 3] = crc[3];
    proof {
        assert(out@.take(2 + payload@.len() as int) =~= body);
        assert(out@.subrange(at as int, at + 4) =~= crc@);
        assert(out@ =~= spec_encode_frame(payload@) + old(out)@.skip(total as int));
    }
    Some(total)
}

/// A framed packet decodes to its payload whatever bytes follow it in the
/// receive buffer, and the consumed count is exactly the packet length.
pub proof fn lemma_frame_round_trip(payload: Seq<u8>, rest: Seq<u8>)
    requires
        payload.len() <= 0xFFFF,
    ensures
        spec_decode_frame(spec_encode_frame(payload) + rest) == Ok::<(Seq<u8>, int), FrameError>(
            (payload, payload.len() + FRAMING_OVERHEAD),
        ),
{
    let buf = spec_encode_frame(payload) + rest;
    let len = payload.len() as int;
    lemma_be32_bytes(spec_crc32(payload));
    assert(be16(buf[0], buf[1]) == len);
    assert(buf.subrange(2, 2 + len) =~= payload);
    assert(buf.subrange(2 + len, 6 + len) =~= be32_bytes(spec_crc32(payload)));
}

/// Mutable view of the firmware's tunable state, presented to the protocol
/// handler. `config` is the flat tune page (read/write); `outputs` is a
/// snapshot of the live output channels.
pub struct TuneState<'a> {
    /// Firmware signature string (returned for hello).
    pub signature: &'a [u8],
    /// Firmware version string (returned for `V`).
    pub firmware_version: &'a [u8],
    /// Flat configuration page (the tune), read and written by TunerStudio.
    pub config: &'a mut [u8],
    /// Live output-channel snapshot (read-only).
    pub outputs: &'a [u8],
    /// Set to `true` when a burn command commits the page.
    pub burn_pending: bool,
}

/// Read a big-endian `u16` at `idx`, if both bytes are present.
fn be_u16(slice: &[u8], idx: usize) -> (r: Option<usize>)
    ensures
        idx + 1 < slice@.len() ==> r == Some(be16(slice@[idx as int], slice@[idx + 1]) as usize),
        idx + 1 >= slice@.len() ==> r is None,
{
    if idx >= slice.len() || idx + 1 >= slice.len() {
        return None;
    }
    let hi = slice[idx];
    let lo = slice[idx + 1];
    Some((hi as usize) * 256 + lo as usize)
}

/// Build a single-byte response (just a response code) into `resp`.
fn code_only(resp: &mut [u8], code: u8) -> (r: Option<usize>)
    ensures
        final(resp)@.len() == old(resp)@.len(),
        old(resp)@.len() == 0 ==> r is None,
        old(resp)@.len() > 0 ==> r == Some(1usize) && final(resp)@ == old(resp)@.update(0, code),
{
    if resp.len() == 0 {
        return None;
    }
    resp[0] = code;
    Some(1)
}

/// Build a `[OK][data]` response into `resp`. Returns the response length.
fn ok_with(resp: &mut [u8], data: &[u8]) -> (r: Option<usize>)
    ensures
        final(resp)@.len() == old(resp)@.len(),
        old(resp)@.len() < 1 + data@.len() ==> r is None,
        old(resp)@.len() >= 1 + data@.len() ==> r == Some((1 + data@.len()) as usize)
            && final(resp)@.take(1 + data@.len() as int) == seq![TS_RESPONSE_OK] + data@,
{
    if resp.len() < 1 || resp.len() - 1 < data.len() {
        return None;
    }
    resp[0] = TS_RESPONSE_OK;
    let mut j: usize = 0;
    while j < data.len()
        invariant
            j <= data@.len(),
            resp@.len() == old(resp)@.len(),
            resp@.len() >= 1 + data@.len(),
            resp@[0] == TS_RESPONSE_OK,
            resp@.subrange(1, 1 + j) == data@.take(j as int),
        decreases data@.len() - j,
    {
        resp[1 + j] = data[j];
        assert(resp@.subrange(1, 1 + j + 1) =~= data@.take(j + 1));
        j += 1;
    }
    assert(data@.take(data@.len() as int) =~= data@);
    assert(resp@.take(1 + data@.len() as int) =~= seq![TS_RESPONSE_OK] + data@);
    Some(1 + data.len())
}

/// `[OK] + data` when `offset..offset+length` lies within `src`, else
/// `[REJECTED]`.
pub open spec fn spec_range_reply(src: Seq<u8>, offset: int, length: int) -> Seq<u8> {
    if offset + length <= src.len() {
        seq![TS_RESPONSE_OK] + src.subrange(offset, offset + length)
    } else {
        seq![TS_RESPONSE_REJECTED]
    }
}

/// The response payload a request calls for (`None` when the request is
/// malformed and nothing is to be sent).
pub open spec fn spec_reply(
    req: Seq<u8>,
    signature: Seq<u8>,
    firmware_version: Seq<u8>,
    config: Seq<u8>,
    outputs: Seq<u8>,
) -> Option<Seq<u8>> {
    if req.len() == 0 {
        None
    } else if req[0] == CMD_HELLO {
        Some(seq![TS_RESPONSE_OK] + signature)
    } else if req[0] == CMD_VERSION {
        Some(seq![TS_RESPONSE_OK] + firmware_version)
    } else if req[0] == CMD_PROTOCOL {
        Some(seq![TS_RESPONSE_OK, 0x30u8, 0x30u8, 0x31u8])
    } else if req[0] == CMD_OUTPUT {
        if req.len() < 5 {
            None
        } else {
            Some(spec_range_reply(outputs, be16(req[1], req[2]), be16(req[3], req[4])))
        }
    } else if req[0] == CMD_READ {
        if req.len() < 7 {
            None
        } else {
            Some(spec_range_reply(config, be16(req[3], req[4]), be16(req[5], req[6])))
        }
    } else if req[0] == CMD_WRITE {
        if req.len() < 5 {
            None
        } else if be16(req[3], req[4]) + (req.len() - 5) <= config.len() {
            Some(seq![TS_RESPONSE_OK])
        } else {
            Some(seq![TS_RESPONSE_REJECTED])
        }
    } else if req[0] == CMD_BURN {
        Some(seq![TS_RESPONSE_OK])
    } else if req[0] == CMD_CRC {
        if req.len() < 7 {
            None
        } else {
            let offset = be16(req[3], req[4]);
            let length = be16(req[5], req[6]);
            if offset + length <= config.len() {
                Some(
                    seq![TS_RESPONSE_OK] + be32_bytes(
                        spec_crc32(config.subrange(offset, offset + length)),
                    ),
                )
            } else {
                Some(seq![TS_RESPONSE_REJECTED])
            }
        }
    } else {
        Some(seq![TS_RESPONSE_UNRECOGNISED])
    }
}

/// The configuration page after a request: a well-formed in-range write
/// replaces the addressed bytes, anything else leaves the page alone.
pub open spec fn spec_config_after(req: Seq<u8>, config: Seq<u8>) -> Seq<u8> {
    if req.len() >= 5 && req[0] == CMD_WRITE && be16(req[3], req[4]) + (req.len() - 5)
        <= config.len() {
        let offset = be16(req[3], req[4]);
        config.take(offset) + req.skip(5) + config.skip(offset + req.len() - 5)
    } else {
        config
    }
}

/// [`handle_request`] on the parts of the tune state.
fn handle_parts(
    req: &[u8],
    signature: &[u8],
    firmware_version: &[u8],
    config: &mut [u8],
    outputs: &[u8],
    burn_pending: &mut bool,
    resp: &mut [u8],
) -> (r: Option<usize>)
    ensures
        final(resp)@.len() == old(resp)@.len(),
        final(config)@ == spec_config_after(req@, old(config)@),
        *final(burn_pending) == (*old(burn_pending) || (req@.len() > 0 && req@[0] == CMD_BURN)),
        match spec_reply(
            req@,
            signature@,
            firmware_version@,
            old(config)@,
            outputs@,
        ) {
            None => r is None,
            Some(reply) => if reply.len() <= old(resp)@.len() {
                r == Some(reply.len() as usize) && final(resp)@.take(reply.len() as int) == reply
            } else {
                r is None
            },
        },
{
    if req.len() == 0 {
        return None;
    }
    let cmd = req[0];
    if cmd == CMD_HELLO {
        ok_with(resp, signature)
    } else if cmd == CMD_VERSION {
        ok_with(resp, firmware_version)
    } else if cmd == CMD_PROTOCOL {
        let proto: [u8; 3] = [0x30, 0x30, 0x31];
        let r = ok_with(resp, &proto);
        assert(seq![TS_RESPONSE_OK] + proto@ =~= seq![TS_RESPONSE_OK, 0x30u8, 0x30u8, 0x31u8]);
        r
    } else if cmd == CMD_OUTPUT {
        let offset = be_u16(req, 1)?;
        let length = be_u16(req, 3)?;
        if offset + length <= outputs.len() {
            let slice = vstd::slice::slice_subrange(outputs, offset, offset + length);
            ok_with(resp, slice)
        } else {
            code_only(resp, TS_RESPONSE_REJECTED)
        }
    } else if cmd == CMD_READ {
        let offset = be_u16(req, 3)?;
        let length = be_u16(req, 5)?;
        if offset + length <= config.len() {
            let slice = vstd::slice::slice_subrange(&*config, offset, offset + length);
            ok_with(resp, slice)
        } else {
            code_only(resp, TS_RESPONSE_REJECTED)
        }
    } else if cmd == CMD_WRITE {
        let offset = be_u16(req, 3)?;
        let data = vstd::slice::slice_subrange(req, 5, req.len());
        if offset <= config.len() && data.len() <= config.len() - offset {
            let ghost before = config@;
            let cfg_len = config.len();
            let mut j: usize = 0;
            while j < data.len()
                invariant
                    j <= data@.len(),
                    offset + data@.len() <= before.len(),
                    config@.len() == before.len(),
                    before.len() == cfg_len,
                    config@.take(offset as int) == before.take(offset as int),
                    config@.subrange(offset as int, offset + j) == data@.take(j as int),
                    config@.skip(offset + data@.len()) == before.skip(
                        offset + data@.len(),
                    ),
                decreases data@.len() - j,
            {
                config[offset + j] = data[j];
                proof {
                    assert(config@.subrange(offset as int, offset + j + 1) =~= data@.take(
                        j + 1,
                    ));
                    assert(config@.take(offset as int) =~= before.take(offset as int));
                    assert(config@.skip(offset + data@.len()) =~= before.skip(
                        offset + data@.len(),
                    ));
                }
                j += 1;
            }
            proof {
                assert(data@.take(data@.len() as int) =~= data@);
                assert(data@ =~= req@.skip(5));
                assert(config@ =~= before.take(offset as int) + data@ + before.skip(
                    offset + data@.len(),
                ));
            }
            code_only(resp, TS_RESPONSE_OK)
        } else {
            code_only(resp, TS_RESPONSE_REJECTED)
        }
    } else if cmd == CMD_BURN {
        *burn_pending = true;
        code_only(resp, TS_RESPONSE_OK)
    } else if cmd == CMD_CRC {
        let offset = be_u16(req, 3)?;
        let length = be_u16(req, 5)?;
        if offset + length <= config.len() {
            let slice = vstd::slice::slice_subrange(&*config, offset, offset + length);
            let crc = be32_to_bytes(crc32(slice));
            ok_with(resp, &crc)
        } else {
            code_only(resp, TS_RESPONSE_REJECTED)
        }
    } else {
        code_only(resp, TS_RESPONSE_UNRECOGNISED)
    }
}

/// Handle one request payload and write the response payload (including the
/// leading response code) into `resp`. Returns the response length, or `None`
/// if the response buffer is too small or nothing should be sent.
pub fn handle_request(req: &[u8], state: &mut TuneState, resp: &mut [u8]) -> (r: Option<usize>)
    ensures
        final(resp)@.len() == old(resp)@.len(),
        final(state).signature == old(state).signature,
        final(state).firmware_version == old(state).firmware_version,
        final(state).outputs == old(state).outputs,
        final(state).config@ == spec_config_after(req@, old(state).config@),
        final(state).burn_pending == (old(state).burn_pending || (req@.len() > 0 && req@[0]
            == CMD_BURN)),
        match spec_reply(
            req@,
            old(state).signature@,
            old(state).firmware_version@,
            old(state).config@,
            old(state).outputs@,
        ) {
            None => r is None,
            Some(reply) => if reply.len() <= old(resp)@.len() {
                r == Some(reply.len() as usize) && final(resp)@.take(reply.len() as int) == reply
            } else {
                r is None
            },
        },
{
    handle_parts(
        req,
        state.signature,
        state.firmware_version,
        state.config,
        state.outputs,
        &mut state.burn_pending,
        resp,
    )
}

/// The write request `C page offset data` (page 0).
pub open spec fn write_request(offset: u16, data: Seq<u8>) -> Seq<u8> {
    seq![CMD_WRITE, 0u8, 0u8, (offset / 256) as u8, (offset % 256) as u8] + data
}

/// The read request `R page offset length` (page 0).
pub open spec fn read_request(offset: u16, length: u16) -> Seq<u8> {
    seq![CMD_READ, 0u8, 0u8, (offset / 256) as u8, (offset % 256) as u8, (length / 256) as u8, (
    length % 256) as u8]
}

/// What a read gives back of a write: after an in-range write of `data` at
/// `offset`, reading `data.len()` bytes at `offset` answers `[OK] + data`, and
/// a read of the bytes outside the written range sees the old page.
pub proof fn lemma_write_then_read(
    config: Seq<u8>,
    offset: u16,
    data: Seq<u8>,
    signature: Seq<u8>,
    firmware_version: Seq<u8>,
    outputs: Seq<u8>,
)
    requires
        data.len() <= 0xFFFF,
        offset + data.len() <= config.len(),
    ensures
        spec_reply(write_request(offset, data), signature, firmware_version, config, outputs)
            == Some(seq![TS_RESPONSE_OK]),
        spec_reply(
            read_request(offset, data.len() as u16),
            signature,
            firmware_version,
            spec_config_after(write_request(offset, data), config),
            outputs,
        ) == Some(seq![TS_RESPONSE_OK] + data),
        spec_config_after(write_request(offset, data), config).len() == config.len(),
        forall|k: int|
            0 <= k < config.len() && !(offset <= k < offset + data.len()) ==> #[trigger] spec_config_after(
                write_request(offset, data),
                config,
            )[k] == config[k],
{
    let w = write_request(offset, data);
    let r = read_request(offset, data.len() as u16);
    assert(be16(w[3], w[4]) == offset);
    assert(w.skip(5) =~= data);
    assert(be16(r[3], r[4]) == offset);
    assert(be16(r[5], r[6]) == data.len());
    let after = spec_config_after(w, config);
    assert(after =~= config.take(offset as int) + data + config.skip(offset + data.len()));
    assert(after.subrange(offset as int, offset + data.len()) =~= data);
}

} // verus!
