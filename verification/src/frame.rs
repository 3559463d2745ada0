//! Frame layer: the unit that COBS wraps on stream transports and that maps to
//! one GATT characteristic write/notify on BLE.
//!
//! Raw frame layout (before COBS), all multi-byte integers little-endian:
//! `VER(u8) FLAGS(u8) SEQ(u16) LEN(u16) PAYLOAD(LEN bytes) CRC16(u16)`.
//!
//! `CRC16` (CRC-16/CCITT-FALSE) covers `VER..=PAYLOAD`. On stream transports
//! the encoded frame is COBS-wrapped and a single `0x00` delimiter is appended
//! by [`encode_frame`].
use vstd::prelude::*;
use crate::cobs::{
    self, CobsError, spec_cobs_encode, spec_cobs_decode, spec_max_encoded_len, cobs_scan,
    no_zero,
};
use crate::crc16::{crc16_ccitt, spec_crc16};
use crate::message::le16;

verus! {

/// Framing-layer version.
pub const VERSION: u8 = 0x01;

/// Fixed header size: VER + FLAGS + SEQ(2) + LEN(2).
pub const HEADER_LEN: usize = 6;

/// Trailing CRC16 size.
pub const CRC_LEN: usize = 2;

/// Maximum payload carried by a single frame. Larger messages must be split
/// across frames using the fragmentation flags.
pub const MAX_PAYLOAD_LEN: usize = 512;

/// Maximum size of a raw (pre-COBS) frame.
pub const MAX_RAW_FRAME_LEN: usize = HEADER_LEN + MAX_PAYLOAD_LEN + CRC_LEN;

/// Maximum size of an encoded frame including the trailing `0x00` delimiter
/// (the COBS bound for [`MAX_RAW_FRAME_LEN`] plus one).
pub const MAX_ENCODED_FRAME_LEN: usize = MAX_RAW_FRAME_LEN + MAX_RAW_FRAME_LEN / 254 + 1 + 1;

/// Frame delimiter used on stream transports.
pub const DELIMITER: u8 = 0x00;

/// Frame flag bits.
#[derive(Debug, Clone, Copy, PartialEq, Eq, Structural)]
pub struct Flags(pub u8);

impl Flags {
    /// Sender wants a correlated response (matched on [`FrameHeader::seq`]).
    pub const RESPONSE_REQUESTED: u8 = 0b0000_0001;

    /// This frame is one fragment of a larger message.
    pub const FRAGMENT: u8 = 0b0000_0010;

    /// This is the last fragment of a fragmented message.
    pub const LAST_FRAGMENT: u8 = 0b0000_0100;

    /// Empty flag set.
    pub fn none() -> (r: Self)
        ensures
            r.0 == 0,
    {
        Flags(0)
    }

    /// True if any bit of `bit` is set.
    pub fn has(self, bit: u8) -> (r: bool)
        ensures
            r == (self.0 & bit != 0),
    {
        self.0 & bit != 0
    }

    /// Return a copy with `bit` set.
    pub fn with(self, bit: u8) -> (r: Self)
        ensures
            r.0 == self.0 | bit,
    {
        Flags(self.0 | bit)
    }
}

/// Setting a bit makes it set, and leaves every other bit as it was.
pub proof fn lemma_flags_with(f: u8, bit: u8, other: u8)
    ensures
        (f | bit) & bit == bit,
        (other & bit == 0) ==> ((f | bit) & other == f & other),
{
    assert((f | bit) & bit == bit) by (bit_vector);
    assert((other & bit == 0) ==> ((f | bit) & other == f & other)) by (bit_vector);
}

impl Default for Flags {
    fn default() -> (r: Self)
        ensures
            r.0 == 0,
    {
        Flags(0)
    }
}

/// Parsed frame header.
#[derive(Debug, Clone, Copy, PartialEq, Eq, Structural)]
pub struct FrameHeader {
    /// Framing-layer version.
    pub version: u8,
    /// Flag bits.
    pub flags: Flags,
    /// Sequence number for request/response correlation and stream ordering.
    pub seq: u16,
}

impl FrameHeader {
    /// Construct a header for the current [`VERSION`].
    pub fn new(flags: Flags, seq: u16) -> (r: Self)
        ensures
            r == (FrameHeader { version: VERSION, flags, seq }),
    {
        FrameHeader { version: VERSION, flags, seq }
    }
}

/// Errors from frame encode/decode.
#[derive(Debug, Clone, Copy, PartialEq, Eq, Structural)]
pub enum FrameError {
    /// Payload exceeds [`MAX_PAYLOAD_LEN`].
    PayloadTooLarge,
    /// Output buffer too small for the encoded frame.
    OutputTooSmall,
    /// Frame is shorter than the minimum header + CRC.
    TooShort,
    /// Declared `LEN` is inconsistent with the decoded byte count.
    LengthMismatch,
    /// CRC check failed.
    CrcMismatch,
    /// Unsupported framing version.
    UnsupportedVersion(u8),
    /// COBS decode failure.
    Cobs(CobsError),
}

impl From<CobsError> for FrameError {
    fn from(e: CobsError) -> (r: Self) {
        FrameError::Cobs(e)
    }
}

impl vstd::std_specs::convert::FromSpecImpl<CobsError> for FrameError {
    open spec fn obeys_from_spec() -> bool {
        true
    }

    open spec fn from_spec(e: CobsError) -> Self {
        FrameError::Cobs(e)
    }
}

/// The little-endian bytes of a `u16`.
pub open spec fn le_bytes(v: u16) -> Seq<u8> {
    seq![(v & 0xFFu16) as u8, (v >> 8u16) as u8]
}

/// Header bytes followed by the payload (the CRC-covered part).
pub open spec fn spec_frame_body(header: FrameHeader, payload: Seq<u8>) -> Seq<u8> {
    seq![header.version, header.flags.0] + le_bytes(header.seq) + le_bytes(payload.len() as u16)
        + payload
}

/// The raw (pre-COBS) frame for `header` and `payload`.
pub open spec fn spec_raw_frame(header: FrameHeader, payload: Seq<u8>) -> Seq<u8> {
    spec_frame_body(header, payload) + le_bytes(spec_crc16(spec_frame_body(header, payload)))
}

/// The result of parsing a raw frame.
pub open spec fn spec_decode_raw(raw: Seq<u8>) -> Result<(FrameHeader, Seq<u8>), FrameError> {
    if raw.len() < HEADER_LEN + CRC_LEN {
        Err(FrameError::TooShort)
    } else if raw[0] != VERSION {
        Err(FrameError::UnsupportedVersion(raw[0]))
    } else if raw.len() != HEADER_LEN + le16(raw[4], raw[5]) + CRC_LEN {
        Err(FrameError::LengthMismatch)
    } else if le16(raw[raw.len() - 2], raw[raw.len() - 1]) != spec_crc16(
        raw.take(raw.len() - 2),
    ) {
        Err(FrameError::CrcMismatch)
    } else {
        Ok(
            (
                FrameHeader { version: raw[0], flags: Flags(raw[1]), seq: le16(raw[2], raw[3]) },
                raw.subrange(6, raw.len() - 2),
            ),
        )
    }
}

/// Encode a frame for a stream transport: build the raw frame, COBS-encode it
/// into `out`, and append the `0x00` delimiter. Returns the bytes written.
pub fn encode_frame(header: &FrameHeader, payload: &[u8], out: &mut [u8]) -> (r: Result<
    usize,
    FrameError,
>)
    ensures
        final(out)@.len() == old(out)@.len(),
        payload@.len() > MAX_PAYLOAD_LEN ==> r == Err::<usize, FrameError>(
            FrameError::PayloadTooLarge,
        ),
        payload@.len() <= MAX_PAYLOAD_LEN ==> {
            let raw = spec_raw_frame(*header, payload@);
            let enc = spec_cobs_encode(raw);
            let cap = old(out)@.len();
            &&& cap < spec_max_encoded_len(raw.len() as int)
                ==> r == Err::<usize, FrameError>(FrameError::Cobs(CobsError::OutputTooSmall))
            &&& cap >= spec_max_encoded_len(raw.len() as int) && enc.len() >= cap
                ==> r == Err::<usize, FrameError>(FrameError::OutputTooSmall)
            &&& cap >= spec_max_encoded_len(raw.len() as int) && enc.len() < cap
                ==> r == Ok::<usize, FrameError>((enc.len() + 1) as usize)
                && final(out)@.take(enc.len() + 1 as int) == enc.push(DELIMITER)
        },
{
    let mut raw = vec![0u8; MAX_RAW_FRAME_LEN];
    let raw_len = match encode_frame_raw(header, payload, raw.as_mut_slice()) {
        Ok(n) => n,
        Err(e) => {
            return Err(e);
        },
    };
    let raw_slice = vstd::slice::slice_subrange(raw.as_slice(), 0, raw_len);
    assert(raw_slice@ =~= spec_raw_frame(*header, payload@));
    let n = match cobs::encode(raw_slice, out) {
        Ok(n) => n,
        Err(e) => {
            return Err(FrameError::Cobs(e));
        },
    };
    if n >= out.len() {
        return Err(FrameError::OutputTooSmall);
    }
    out[n] = DELIMITER;
    assert(out@.take(n + 1) =~= spec_cobs_encode(raw_slice@).push(DELIMITER));
    Ok(n + 1)
}

/// Build the raw (pre-COBS) frame into `out`. Returns the bytes written.
pub fn encode_frame_raw(header: &FrameHeader, payload: &[u8], out: &mut [u8]) -> (r: Result<
    usize,
    FrameError,
>)
    ensures
        final(out)@.len() == old(out)@.len(),
        payload@.len() > MAX_PAYLOAD_LEN ==> r == Err::<usize, FrameError>(
            FrameError::PayloadTooLarge,
        ) && final(out)@ == old(out)@,
        payload@.len() <= MAX_PAYLOAD_LEN && old(out)@.len() < payload@.len() + 8 ==> r == Err::<
            usize,
            FrameError,
        >(FrameError::OutputTooSmall) && final(out)@ == old(out)@,
        payload@.len() <= MAX_PAYLOAD_LEN && old(out)@.len() >= payload@.len() + 8 ==> r == Ok::<
            usize,
            FrameError,
        >((payload@.len() + 8) as usize) && final(out)@ == spec_raw_frame(*header, payload@)
            + old(out)@.skip(payload@.len() + 8 as int),
{
    if payload.len() > MAX_PAYLOAD_LEN {
        return Err(FrameError::PayloadTooLarge);
    }
    let total = HEADER_LEN + payload.len() + CRC_LEN;
    if out.len() < total {
        return Err(FrameError::OutputTooSmall);
    }
    let len = payload.len() as u16;
    out[0] = header.version;
    out[1] = header.flags.0;
    out[2] = (header.seq & 0xFF) as u8;
    out[3] = (header.seq >> 8u16) as u8;
    out[4] = (len & 0xFF) as u8;
    out[5] = (len >> 8u16) as u8;
    let ghost head = out@.take(6);
    let mut j: usize = 0;
    while j < payload.len()
        invariant
            j <= payload@.len(),
            payload@.len() <= MAX_PAYLOAD_LEN,
            out@.len() == old(out)@.len(),
            out@.len() >= total,
            total == payload@.len() + 8,
            out@.take(6) == head,
            out@.subrange(6, 6 + j) == payload@.take(j as int),
            forall|k: int| 6 + payload@.len() <= k < out@.len() ==> out@[k] == old(out)@[k],
        decreases payload@.len() - j,
    {
        out[HEADER_LEN + j] = payload[j];
        proof {
            assert(out@.subrange(6, 6 + j + 1) =~= payload@.take(j + 1));
            assert(out@.take(6) =~= head);
        }
        j += 1;
    }
    let crc_at = HEADER_LEN + payload.len();
    let crc = crc16_ccitt(vstd::slice::slice_subrange(out, 0, crc_at));
    proof {
        assert(payload@.take(payload@.len() as int) =~= payload@);
        assert(head =~= seq![header.version, header.flags.0] + le_bytes(header.seq) + le_bytes(
            payload@.len() as u16,
        ));
        assert(out@.take(crc_at as int) =~= spec_frame_body(*header, payload@));
    }
    let ghost body = out@.take(crc_at as int);
    out[crc_at] = (crc & 0xFF) as u8;
    out[crc_at + 1] = (crc >> 8u16) as u8;
    proof {
        assert(out@.take(crc_at as int) =~= body);
        assert(out@ =~= spec_raw_frame(*header, payload@) + old(out)@.skip(total as int));
    }
    Ok(total)
}

/// Decode a COBS-encoded frame (delimiter already stripped) into `scratch`.
///
/// Returns the parsed header and a slice of `scratch` holding the payload.
pub fn decode_frame<'s>(encoded: &[u8], scratch: &'s mut [u8]) -> (r: Result<
    (FrameHeader, &'s [u8]),
    FrameError,
>)
    ensures
        match spec_cobs_decode(encoded@, old(scratch)@.len() as int) {
            Err(e) => r == Err::<(FrameHeader, &[u8]), FrameError>(FrameError::Cobs(e)),
            Ok(raw) => match spec_decode_raw(raw) {
                Err(e) => r == Err::<(FrameHeader, &[u8]), FrameError>(e),
                Ok((h, p)) => r matches Ok((h2, p2)) && h2 == h && p2@ == p,
            },
        },
{
    let raw_len = match cobs::decode(encoded, scratch) {
        Ok(n) => n,
        Err(e) => {
            return Err(FrameError::Cobs(e));
        },
    };
    let ghost decoded = scratch@;
    let s: &'s [u8] = scratch;
    assert(s@ == decoded);
    assert(spec_cobs_decode(encoded@, old(scratch)@.len() as int) is Ok);
    assert(raw_len == cobs_scan(encoded@).0.len());
    let raw = vstd::slice::slice_subrange(s, 0, raw_len);
    assert(raw@ =~= cobs_scan(encoded@).0);
    decode_frame_raw(raw)
}

/// Parse a raw (already COBS-decoded) frame, verify its CRC, and return the
/// header plus payload slice.
pub fn decode_frame_raw(raw: &[u8]) -> (r: Result<(FrameHeader, &[u8]), FrameError>)
    ensures
        match spec_decode_raw(raw@) {
            Err(e) => r == Err::<(FrameHeader, &[u8]), FrameError>(e),
            Ok((h, p)) => r matches Ok((h2, p2)) && h2 == h && p2@ == p,
        },
{
    if raw.len() < HEADER_LEN + CRC_LEN {
        return Err(FrameError::TooShort);
    }
    let version = raw[0];
    if version != VERSION {
        return Err(FrameError::UnsupportedVersion(version));
    }
    let flags = Flags(raw[1]);
    let seq = (raw[2] as u16) | ((raw[3] as u16) << 8u16);
    let len = ((raw[4] as u16) | ((raw[5] as u16) << 8u16)) as usize;
    let expected_total = HEADER_LEN + len + CRC_LEN;
    if raw.len() != expected_total {
        return Err(FrameError::LengthMismatch);
    }
    let crc_at = HEADER_LEN + len;
    let received = (raw[crc_at] as u16) | ((raw[crc_at + 1] as u16) << 8u16);
    let computed = crc16_ccitt(vstd::slice::slice_subrange(raw, 0, crc_at));
    if received != computed {
        return Err(FrameError::CrcMismatch);
    }
    let payload = vstd::slice::slice_subrange(raw, HEADER_LEN, crc_at);
    Ok((FrameHeader { version, flags, seq }, payload))
}

proof fn lemma_le16_le_bytes(v: u16)
    ensures
        le16(le_bytes(v)[0], le_bytes(v)[1]) == v,
{
    assert(((v & 0xFFu16) as u8 as u16 | (((v >> 8u16) as u8 as u16) << 8u16)) as u16 == v)
        by (bit_vector);
}

/// Parsing a raw frame built for a current-version header and a payload of
/// at most [`MAX_PAYLOAD_LEN`] bytes gives back that header and payload.
pub proof fn lemma_raw_round_trip(header: FrameHeader, payload: Seq<u8>)
    requires
        header.version == VERSION,
        payload.len() <= MAX_PAYLOAD_LEN,
    ensures
        spec_raw_frame(header, payload).len() == payload.len() + 8,
        spec_decode_raw(spec_raw_frame(header, payload)) == Ok::<
            (FrameHeader, Seq<u8>),
            FrameError,
        >((header, payload)),
{
    let body = spec_frame_body(header, payload);
    let raw = spec_raw_frame(header, payload);
    lemma_le16_le_bytes(header.seq);
    lemma_le16_le_bytes(payload.len() as u16);
    lemma_le16_le_bytes(spec_crc16(body));
    assert(raw[2] == le_bytes(header.seq)[0]);
    assert(raw[3] == le_bytes(header.seq)[1]);
    assert(raw[4] == le_bytes(payload.len() as u16)[0]);
    assert(raw[5] == le_bytes(payload.len() as u16)[1]);
    assert(le16(raw[4], raw[5]) == payload.len());
    assert(raw.take(raw.len() - 2) =~= body);
    assert(raw[raw.len() - 2] == le_bytes(spec_crc16(body))[0]);
    assert(raw[raw.len() - 1] == le_bytes(spec_crc16(body))[1]);
    assert(raw.subrange(6, raw.len() - 2) =~= payload);
}

/// A frame encoded for a stream transport holds a single zero byte, the final
/// delimiter; decoding what precedes it into any scratch buffer that can hold
/// the raw frame gives back the header and payload.
pub proof fn lemma_stream_round_trip(header: FrameHeader, payload: Seq<u8>, cap: int)
    requires
        header.version == VERSION,
        payload.len() <= MAX_PAYLOAD_LEN,
        cap >= payload.len() + 8,
    ensures
        no_zero(spec_cobs_encode(spec_raw_frame(header, payload))),
        spec_cobs_encode(spec_raw_frame(header, payload)).len() + 1 <= MAX_ENCODED_FRAME_LEN,
        spec_cobs_decode(spec_cobs_encode(spec_raw_frame(header, payload)), cap) == Ok::<
            Seq<u8>,
            CobsError,
        >(spec_raw_frame(header, payload)),
        spec_decode_raw(spec_raw_frame(header, payload)) == Ok::<
            (FrameHeader, Seq<u8>),
            FrameError,
        >((header, payload)),
{
    lemma_raw_round_trip(header, payload);
    cobs::lemma_cobs_round_trip(spec_raw_frame(header, payload));
}

/// One frame for a stream transport: the COBS-encoded raw frame followed by
/// the delimiter.
pub open spec fn spec_encoded_frame(header: FrameHeader, payload: Seq<u8>) -> Seq<u8> {
    spec_cobs_encode(spec_raw_frame(header, payload)).push(DELIMITER)
}

/// The frames carrying `p` as fragments of message `seq`: [`MAX_PAYLOAD_LEN`]
/// bytes each, flagged [`Flags::FRAGMENT`] on top of `flags`, the last one
/// also [`Flags::LAST_FRAGMENT`].
pub open spec fn spec_fragments(flags: u8, seq: u16, p: Seq<u8>) -> Seq<u8>
    decreases p.len(),
{
    if p.len() <= MAX_PAYLOAD_LEN {
        spec_encoded_frame(
            FrameHeader {
                version: VERSION,
                flags: Flags(flags | Flags::FRAGMENT | Flags::LAST_FRAGMENT),
                seq,
            },
            p,
        )
    } else {
        spec_encoded_frame(
            FrameHeader { version: VERSION, flags: Flags(flags | Flags::FRAGMENT), seq },
            p.take(MAX_PAYLOAD_LEN as int),
        ) + spec_fragments(flags, seq, p.skip(MAX_PAYLOAD_LEN as int))
    }
}

/// The stream encoding of a message: one frame when the payload fits in a
/// frame, else its fragments.
pub open spec fn spec_encode_message(flags: Flags, seq: u16, payload: Seq<u8>) -> Seq<u8> {
    if payload.len() <= MAX_PAYLOAD_LEN {
        spec_encoded_frame(FrameHeader { version: VERSION, flags, seq }, payload)
    } else {
        spec_fragments(flags.0, seq, payload)
    }
}

/// Append the delimited frame for `header` and `chunk` at `out[pos..]`;
/// returns where it ends, or `None` (leaving `out` as it was) when it does
/// not fit.
fn put_frame(header: &FrameHeader, chunk: &[u8], out: &mut [u8], pos: usize) -> (r: Option<usize>)
    requires
        chunk@.len() <= MAX_PAYLOAD_LEN,
        header.version == VERSION,
        pos <= old(out)@.len(),
    ensures
        final(out)@.len() == old(out)@.len(),
        r is Some <==> pos + spec_encoded_frame(*header, chunk@).len() <= old(out)@.len(),
        r matches Some(e) ==> e == pos + spec_encoded_frame(*header, chunk@).len()
            && final(out)@.take(pos as int) == old(out)@.take(pos as int) && final(out)@.subrange(
            pos as int,
            e as int,
        ) == spec_encoded_frame(*header, chunk@),
        r is None ==> final(out)@ == old(out)@,
{
    proof {
        lemma_raw_round_trip(*header, chunk@);
        cobs::lemma_cobs_round_trip(spec_raw_frame(*header, chunk@));
        assert(spec_max_encoded_len(chunk@.len() + 8int) <= MAX_ENCODED_FRAME_LEN - 1);
    }
    let mut tmp = vec![0u8; MAX_ENCODED_FRAME_LEN];
    let n = match encode_frame(header, chunk, tmp.as_mut_slice()) {
        Ok(n) => n,
        Err(_) => {
            return None;
        },
    };
    if out.len() - pos < n {
        return None;
    }
    let ghost orig = out@;
    let mut i: usize = 0;
    while i < n
        invariant
            n <= tmp@.len(),
            pos + n <= out.len(),
            out@.len() == orig.len(),
            i <= n,
            forall|j: int| 0 <= j < pos ==> out@[j] == orig[j],
            forall|j: int| 0 <= j < i ==> out@[pos + j] == tmp@[j],
        decreases n - i,
    {
        out[pos + i] = tmp[i];
        i += 1;
    }
    assert(out@.take(pos as int) =~= orig.take(pos as int));
    assert(out@.subrange(pos as int, pos + n) =~= tmp@.take(n as int));
    Some(pos + n)
}

/// Encode a message for a stream transport: a payload that fits in one
/// frame goes out as one frame with `flags`; a longer one is split into
/// [`MAX_PAYLOAD_LEN`]-byte fragments of message `seq`, flagged
/// [`Flags::FRAGMENT`] on top of `flags`, the last one also
/// [`Flags::LAST_FRAGMENT`]. Each frame is COBS-encoded and delimited.
/// Returns the bytes written, or [`FrameError::OutputTooSmall`] when they do
/// not fit in `out`.
pub fn encode_message(flags: Flags, seq: u16, payload: &[u8], out: &mut [u8]) -> (r: Result<
    usize,
    FrameError,
>)
    ensures
        final(out)@.len() == old(out)@.len(),
        r is Ok <==> spec_encode_message(flags, seq, payload@).len() <= old(out)@.len(),
        r matches Ok(n) ==> n == spec_encode_message(flags, seq, payload@).len()
            && final(out)@.take(n as int) == spec_encode_message(flags, seq, payload@),
        r matches Err(e) ==> e == FrameError::OutputTooSmall,
{
    if payload.len() <= MAX_PAYLOAD_LEN {
        let header = FrameHeader::new(flags, seq);
        return match put_frame(&header, payload, out, 0) {
            Some(n) => {
                assert(out@.take(n as int) =~= out@.subrange(0, n as int));
                Ok(n)
            },
            None => Err(FrameError::OutputTooSmall),
        };
    }
    let ghost total = spec_fragments(flags.0, seq, payload@);
    let mid = FrameHeader::new(flags.with(Flags::FRAGMENT), seq);
    let mut pos: usize = 0;
    let mut off: usize = 0;
    assert(payload@.skip(0) =~= payload@);
    assert(out@.take(0) + total =~= total);
    while payload.len() - off > MAX_PAYLOAD_LEN
        invariant
            off <= payload@.len(),
            pos <= out@.len(),
            out@.len() == old(out)@.len(),
            mid == (FrameHeader { version: VERSION, flags: Flags(flags.0 | Flags::FRAGMENT), seq }),
            total == spec_fragments(flags.0, seq, payload@),
            total.len() > old(out)@.len() ==> pos + spec_fragments(
                flags.0,
                seq,
                payload@.skip(off as int),
            ).len() > old(out)@.len(),
            out@.take(pos as int) + spec_fragments(flags.0, seq, payload@.skip(off as int)) == total,
        decreases payload@.len() - off,
    {
        let chunk = vstd::slice::slice_subrange(payload, off, off + MAX_PAYLOAD_LEN);
        let ghost rest = payload@.skip(off as int);
        assert(chunk@ =~= rest.take(MAX_PAYLOAD_LEN as int));
        assert(rest.skip(MAX_PAYLOAD_LEN as int) =~= payload@.skip(off + MAX_PAYLOAD_LEN));
        let ghost before = out@;
        match put_frame(&mid, chunk, out, pos) {
            Some(e) => {
                assert(out@.take(e as int) =~= before.take(pos as int) + out@.subrange(
                    pos as int,
                    e as int,
                ));
                pos = e;
                off = off + MAX_PAYLOAD_LEN;
            },
            None => {
                return Err(FrameError::OutputTooSmall);
            },
        }
    }
    let last = FrameHeader::new(flags.with(Flags::FRAGMENT).with(Flags::LAST_FRAGMENT), seq);
    let chunk = vstd::slice::slice_subrange(payload, off, payload.len());
    assert(chunk@ =~= payload@.skip(off as int));
    let ghost before = out@;
    match put_frame(&last, chunk, out, pos) {
        Some(e) => {
            assert(out@.take(e as int) =~= before.take(pos as int) + out@.subrange(
                pos as int,
                e as int,
            ));
            Ok(e)
        },
        None => Err(FrameError::OutputTooSmall),
    }
}

} // verus!
