//! Host-side RDP (RustEMS Device Protocol) client logic: reassembling
//! messages from the received byte stream, sorting what arrives while a
//! request is in flight, request sequence numbering and decoding packed
//! telemetry pushes. The transport itself (an async byte stream) is driven by
//! the caller, which hands the bytes it reads to an [`RxBuffer`].
use vstd::prelude::*;

use crate::cobs::{no_zero, spec_cobs_decode, spec_cobs_encode};
use crate::defrag::{spec_feed, DefragState, Defragmenter};
use crate::frame::{
    decode_frame, spec_decode_raw, spec_encode_message, spec_encoded_frame, spec_fragments,
    spec_raw_frame, FrameError, FrameHeader, Flags, MAX_PAYLOAD_LEN, MAX_RAW_FRAME_LEN, VERSION,
};
use crate::comms::telemetry::{
    bit_flags, bits_byte, frame_data, frame_header, int_data, lemma_pack_len, pack_bits, raw_value,
    spec_channel_wire, WireType,
};
use crate::cbor::ErrorResponseBody;
use crate::message::{le16, read_message_header, ErrorCode, Kind, ValueType, MESSAGE_HEADER_LEN};

verus! {

/// Maximum reassembled message size accepted from the device.
pub const MAX_MESSAGE_LEN: usize = 4096;

/// Index of the first zero byte of `s`.
pub open spec fn first_zero(s: Seq<u8>) -> Option<int>
    decreases s.len(),
{
    if s.len() == 0 {
        None
    } else if s[0] == 0 {
        Some(0)
    } else {
        match first_zero(s.drop_first()) {
            Some(i) => Some(i + 1),
            None => None,
        }
    }
}

/// Handling one delimited chunk: an empty chunk, one that does not decode
/// as a frame, or a fragment that completes nothing yields no message; the
/// reassembly state advances by each decoded frame.
pub open spec fn chunk_step(chunk: Seq<u8>, d: DefragState) -> (DefragState, Option<(u16, Seq<u8>)>) {
    if chunk.len() == 0 {
        (d, None)
    } else {
        match spec_cobs_decode(chunk, MAX_RAW_FRAME_LEN as int) {
            Err(_) => (d, None),
            Ok(raw) => match spec_decode_raw(raw) {
                Err(_) => (d, None),
                Ok((h, p)) => {
                    let (d2, res) = spec_feed(MAX_MESSAGE_LEN as nat, d, h, p);
                    (
                        d2,
                        match res {
                            Ok(Some(m)) => Some((h.seq, m)),
                            _ => None,
                        },
                    )
                },
            },
        }
    }
}

/// Popping the next complete message from received bytes `rx` with
/// reassembly state `d`: delimited chunks are consumed in order until one
/// completes a message; the bytes after the last delimiter stay. Returns the
/// bytes left, the new reassembly state and the message with its frame
/// sequence number.
pub open spec fn spec_pop(rx: Seq<u8>, d: DefragState) -> (
    Seq<u8>,
    DefragState,
    Option<(u16, Seq<u8>)>,
)
    decreases rx.len(),
{
    match first_zero(rx) {
        Some(pos) => if 0 <= pos < rx.len() {
            let (d2, m) = chunk_step(rx.take(pos), d);
            if m is Some {
                (rx.skip(pos + 1), d2, m)
            } else {
                spec_pop(rx.skip(pos + 1), d2)
            }
        } else {
            (rx, d, None)
        },
        None => (rx, d, None),
    }
}

proof fn lemma_first_zero(s: Seq<u8>, k: int)
    requires
        0 <= k <= s.len(),
        forall|j: int| 0 <= j < k ==> s[j] != 0,
    ensures
        k < s.len() && s[k] == 0 ==> first_zero(s) == Some(k),
        k == s.len() ==> first_zero(s) is None,
    decreases k,
{
    if k > 0 {
        let t = s.drop_first();
        assert forall|j: int| 0 <= j < k - 1 implies t[j] != 0 by {
            assert(t[j] == s[j + 1]);
        }
        if k < s.len() {
            assert(t[k - 1] == s[k]);
        }
        lemma_first_zero(t, k - 1);
    }
}

/// Received bytes awaiting a delimiter, and the fragment reassembly state.
pub struct RxBuffer {
    rx: Vec<u8>,
    defrag: Defragmenter<MAX_MESSAGE_LEN>,
}

impl View for RxBuffer {
    type V = (Seq<u8>, DefragState);

    closed spec fn view(&self) -> (Seq<u8>, DefragState) {
        (self.rx@, self.defrag@)
    }
}

impl RxBuffer {
    /// An empty buffer with nothing being reassembled.
    pub fn new() -> (r: Self)
        ensures
            r@.0 == Seq::<u8>::empty(),
            r@.1 == crate::defrag::idle_state(),
    {
        RxBuffer { rx: Vec::new(), defrag: Defragmenter::new() }
    }

    /// Append bytes read from the transport.
    pub fn extend(&mut self, bytes: &[u8])
        ensures
            final(self)@.0 == old(self)@.0 + bytes@,
            final(self)@.1 == old(self)@.1,
    {
        self.rx.extend_from_slice(bytes);
    }

    /// Pop the next complete (defragmented) message, if the received bytes
    /// hold one. Returns `(frame_seq, message_payload)`. Empty chunks (stray
    /// delimiters), corrupt frames and rejected fragments are skipped: COBS
    /// framing is self-synchronising.
    pub fn pop_message(&mut self) -> (r: Option<(u16, Vec<u8>)>)
        ensures
            ({
                let (rx, d, m) = spec_pop(old(self)@.0, old(self)@.1);
                &&& final(self)@.0 == rx
                &&& final(self)@.1 == d
                &&& match m {
                    None => r is None,
                    Some((seq, msg)) => r matches Some((s2, v)) && s2 == seq && v@ == msg,
                }
            }),
    {
        let ghost goal = spec_pop(old(self)@.0, old(self)@.1);
        loop
            invariant
                goal == spec_pop(old(self)@.0, old(self)@.1),
                spec_pop(self@.0, self@.1) == goal,
            decreases self@.0.len(),
        {
            let mut pos: usize = 0;
            while pos < self.rx.len() && self.rx[pos] != 0
                invariant
                    pos <= self.rx@.len(),
                    forall|j: int| 0 <= j < pos ==> self.rx@[j] != 0,
                decreases self.rx@.len() - pos,
            {
                pos += 1;
            }
            proof {
                lemma_first_zero(self.rx@, pos as int);
            }
            if pos == self.rx.len() {
                return None;
            }
            let ghost before = self@;
            let rest = self.rx.split_off(pos + 1);
            let mut chunk = rest;
            std::mem::swap(&mut chunk, &mut self.rx);
            chunk.truncate(pos);
            assert(chunk@ =~= before.0.take(pos as int));
            assert(self.rx@ =~= before.0.skip(pos + 1));
            if chunk.len() == 0 {
                continue;
            }
            let mut scratch = vec![0u8; MAX_RAW_FRAME_LEN];
            match decode_frame(chunk.as_slice(), scratch.as_mut_slice()) {
                Err(_) => {
                    continue;
                },
                Ok((header, payload)) => {
                    match self.defrag.feed(&header, payload) {
                        Ok(Some(complete)) => {
                            let msg = vstd::slice::slice_to_vec(complete);
                            return Some((header.seq, msg));
                        },
                        _ => {
                            continue;
                        },
                    }
                },
            }
        }
    }
}

/// A stream that holds exactly one unfragmented frame, encoded and
/// delimited, pops as that frame's sequence number and payload, leaving
/// nothing behind, whatever was being reassembled before.
pub proof fn lemma_single_frame_pop(header: FrameHeader, payload: Seq<u8>, d: DefragState)
    requires
        header.version == VERSION,
        header.flags.0 & Flags::FRAGMENT == 0,
        payload.len() <= MAX_PAYLOAD_LEN,
    ensures
        spec_pop(spec_cobs_encode(spec_raw_frame(header, payload)).push(0u8), d) == (
            Seq::<u8>::empty(),
            crate::defrag::idle_state(),
            Some((header.seq, payload)),
        ),
{
    let raw = spec_raw_frame(header, payload);
    let enc = spec_cobs_encode(raw);
    let rx = enc.push(0u8);
    crate::frame::lemma_stream_round_trip(header, payload, MAX_RAW_FRAME_LEN as int);
    assert forall|j: int| 0 <= j < enc.len() implies rx[j] != 0 by {
        assert(rx[j] == enc[j]);
    }
    lemma_first_zero(rx, enc.len() as int);
    assert(rx.take(enc.len() as int) =~= enc);
    assert(rx.skip(enc.len() + 1 as int) =~= Seq::<u8>::empty());
    if enc.len() == 0 {
        assert(enc =~= Seq::<u8>::empty());
        assert(crate::cobs::cobs_scan(Seq::<u8>::empty()).0.len() == 0);
    }
}

/// The frame sequence number that follows `seq`: the next one, wrapping
/// past `0xFFFF` to 1 (0 is never used).
pub open spec fn spec_next_seq(seq: u16) -> u16 {
    if seq == 0xFFFF {
        1
    } else {
        (seq + 1) as u16
    }
}

/// The frame sequence number that follows `seq` (0 is skipped on wrap).
pub fn next_seq(seq: u16) -> (r: u16)
    ensures
        r == spec_next_seq(seq),
        r != 0,
{
    if seq == 0xFFFF {
        1
    } else {
        seq + 1
    }
}

/// What to do with a message that arrives while a request is in flight.
#[derive(Clone, Copy, Debug, PartialEq, Eq, Structural)]
pub enum Inbound {
    /// Drop it: unparseable, a stale response, or a request.
    Ignore,
    /// The awaited response; its body follows the header.
    Reply,
    /// A response to the in-flight request carrying another opcode (the
    /// one it carries).
    WrongOp(u16),
    /// A pushed telemetry frame; queue its body.
    Telemetry,
    /// A pushed event; queue its body.
    Event,
}

/// The sorting of message `msg`, received in frame `frame_seq`, while the
/// request `opcode` sent in frame `sent_seq` awaits its response.
pub open spec fn spec_classify(msg: Seq<u8>, frame_seq: u16, sent_seq: u16, opcode: u16) -> Inbound {
    if msg.len() < MESSAGE_HEADER_LEN || msg[0] > 3 {
        Inbound::Ignore
    } else if msg[0] == Kind::Response.code() {
        if frame_seq != sent_seq {
            Inbound::Ignore
        } else if le16(msg[1], msg[2]) != opcode {
            Inbound::WrongOp(le16(msg[1], msg[2]))
        } else {
            Inbound::Reply
        }
    } else if msg[0] == Kind::Telemetry.code() {
        Inbound::Telemetry
    } else if msg[0] == Kind::Event.code() {
        Inbound::Event
    } else {
        Inbound::Ignore
    }
}

/// Sort a message received while awaiting the response to `opcode`, sent
/// in frame `sent_seq`. Responses are correlated by frame sequence number;
/// a correlated response with another opcode is a protocol error.
pub fn classify_inbound(msg: &[u8], frame_seq: u16, sent_seq: u16, opcode: u16) -> (r: Inbound)
    ensures
        r == spec_classify(msg@, frame_seq, sent_seq, opcode),
{
    match read_message_header(msg) {
        Err(_) => Inbound::Ignore,
        Ok((header, _body)) => match header.kind {
            Kind::Response => {
                if frame_seq != sent_seq {
                    Inbound::Ignore
                } else if header.op != opcode {
                    Inbound::WrongOp(header.op)
                } else {
                    Inbound::Reply
                }
            },
            Kind::Telemetry => Inbound::Telemetry,
            Kind::Event => Inbound::Event,
            Kind::Request => Inbound::Ignore,
        },
    }
}

/// Length of a telemetry push header: stream ID, sequence, timestamp.
pub const PUSH_HEADER_LEN: usize = 7;

/// The little-endian `u32` in bytes `b0..b3`.
pub open spec fn le32_value(b0: u8, b1: u8, b2: u8, b3: u8) -> u32 {
    (b0 as int + 256 * b1 as int + 65536 * b2 as int + 16777216 * b3 as int) as u32
}

/// The little-endian `u16` in bytes `lo`, `hi`.
pub open spec fn le16_value(lo: u8, hi: u8) -> u16 {
    (lo as int + 256 * hi as int) as u16
}

/// The header of a telemetry push body: `(stream_id, seq, ts_ms)`, or
/// `None` when the body is shorter than a header.
pub open spec fn spec_push_header(body: Seq<u8>) -> Option<(u8, u16, u32)> {
    if body.len() < PUSH_HEADER_LEN {
        None
    } else {
        Some((body[0], le16_value(body[1], body[2]), le32_value(body[3], body[4], body[5], body[6])))
    }
}

/// Parse the header of a telemetry push body: `(stream_id, seq, ts_ms)`;
/// the packed channel data follows at [`PUSH_HEADER_LEN`].
pub fn push_header(body: &[u8]) -> (r: Option<(u8, u16, u32)>)
    ensures
        r == spec_push_header(body@),
{
    if body.len() < PUSH_HEADER_LEN {
        return None;
    }
    let seq = body[1] as u16 + 256 * body[2] as u16;
    let ts = body[3] as u32 + 256 * body[4] as u32 + 65536 * body[5] as u32 + 16777216
        * body[6] as u32;
    Some((body[0], seq, ts))
}

/// A value type carried as a 16-bit word in a telemetry push.
pub open spec fn is_word(vt: ValueType) -> bool {
    vt == ValueType::U16 || vt == ValueType::I16
}

/// Every value type of a layout can be carried in a telemetry push.
pub open spec fn push_supported(vts: Seq<ValueType>) -> bool {
    forall|i: int| 0 <= i < vts.len() ==> is_word(#[trigger] vts[i]) || vts[i] == ValueType::Bool
}

/// Number of word channels among the first `k` value types.
pub open spec fn words_before(vts: Seq<ValueType>, k: int) -> int
    decreases k,
{
    if k <= 0 {
        0
    } else {
        words_before(vts, k - 1) + if is_word(vts[k - 1]) {
            1int
        } else {
            0int
        }
    }
}

/// Number of flag channels among the first `k` value types.
pub open spec fn flags_before(vts: Seq<ValueType>, k: int) -> int
    decreases k,
{
    if k <= 0 {
        0
    } else {
        flags_before(vts, k - 1) + if vts[k - 1] == ValueType::Bool {
            1int
        } else {
            0int
        }
    }
}

/// Flag `b` of the flag bytes starting at `start`, LSB first, as 0 or 1.
pub open spec fn flag_at(data: Seq<u8>, start: int, b: int) -> u16 {
    ((data[start + b / 8] >> ((b % 8) as u8)) & 1u8) as u16
}

/// The channel words of packed telemetry `data` for a layout with value
/// types `vts`: word channels (`U16`, `I16`) take two little-endian bytes
/// each in layout order, then flag channels (`Bool`) one bit each, LSB
/// first, as 0 or 1. `None` when a type cannot be carried or the data is
/// too short.
pub open spec fn spec_unpack(data: Seq<u8>, vts: Seq<ValueType>) -> Option<Seq<u16>> {
    let nw = words_before(vts, vts.len() as int);
    let nf = flags_before(vts, vts.len() as int);
    if !push_supported(vts) || 2 * nw > data.len() || (nf > 0 && 2 * nw + (nf - 1) / 8
        >= data.len()) {
        None
    } else {
        Some(
            Seq::new(
                vts.len(),
                |i: int|
                    if vts[i] == ValueType::Bool {
                        flag_at(data, 2 * nw, flags_before(vts, i))
                    } else {
                        le16_value(
                            data[2 * words_before(vts, i)],
                            data[2 * words_before(vts, i) + 1],
                        )
                    },
            ),
        )
    }
}

proof fn lemma_counts_bounds(vts: Seq<ValueType>, k: int)
    requires
        0 <= k <= vts.len(),
    ensures
        0 <= words_before(vts, k) <= k,
        0 <= flags_before(vts, k) <= k,
    decreases k,
{
    if k > 0 {
        lemma_counts_bounds(vts, k - 1);
    }
}

proof fn lemma_counts_monotone(vts: Seq<ValueType>, i: int, k: int)
    requires
        0 <= i <= k <= vts.len(),
    ensures
        0 <= words_before(vts, i) <= words_before(vts, k) <= k,
        0 <= flags_before(vts, i) <= flags_before(vts, k) <= k,
    decreases k - i,
{
    lemma_counts_bounds(vts, i);
    lemma_counts_bounds(vts, k);
    if i < k {
        lemma_counts_monotone(vts, i, k - 1);
    }
}

/// Unpack the channel words of packed telemetry `data` (the push body after
/// its header) for a layout with value types `vts`. `U16` and `I16` words
/// come back as their 16 bits, flags as 0 or 1; the caller scales them to
/// physical values. `None` drops the frame.
pub fn unpack_values(data: &[u8], vts: &[ValueType]) -> (r: Option<Vec<u16>>)
    ensures
        match spec_unpack(data@, vts@) {
            None => r is None,
            Some(w) => r matches Some(v) && v@ == w,
        },
{
    let ghost nw = words_before(vts@, vts@.len() as int);
    let ghost nf = flags_before(vts@, vts@.len() as int);
    let mut values: Vec<u16> = Vec::new();
    let mut pos: usize = 0;
    let mut i: usize = 0;
    while i < vts.len()
        invariant
            i <= vts@.len(),
            pos == 2 * words_before(vts@, i as int),
            pos <= data@.len(),
            values@.len() == i,
            forall|j: int| 0 <= j < i ==> is_word(#[trigger] vts@[j]) || vts@[j] == ValueType::Bool,
            forall|j: int|
                0 <= j < i && is_word(#[trigger] vts@[j]) ==> values@[j] == le16_value(
                    data@[2 * words_before(vts@, j)],
                    data@[2 * words_before(vts@, j) + 1],
                ),
        decreases vts@.len() - i,
    {
        proof {
            lemma_counts_monotone(vts@, i + 1, vts@.len() as int);
        }
        match vts[i] {
            ValueType::U16 | ValueType::I16 => {
                if data.len() - pos < 2 {
                    return None;
                }
                let w = data[pos] as u16 + 256 * data[pos + 1] as u16;
                values.push(w);
                pos += 2;
            },
            ValueType::Bool => {
                values.push(0);
            },
            _ => {
                return None;
            },
        }
        i += 1;
    }
    assert(push_supported(vts@));
    proof {
        lemma_counts_bounds(vts@, vts@.len() as int);
    }
    let start = pos;
    let mut b: usize = 0;
    let mut i: usize = 0;
    while i < vts.len()
        invariant
            i <= vts@.len(),
            start == 2 * nw,
            nw == words_before(vts@, vts@.len() as int),
            nf == flags_before(vts@, vts@.len() as int),
            start <= data@.len(),
            b == flags_before(vts@, i as int),
            b <= nf,
            values@.len() == vts@.len(),
            push_supported(vts@),
            forall|j: int|
                0 <= j < vts@.len() && is_word(#[trigger] vts@[j]) ==> values@[j] == le16_value(
                    data@[2 * words_before(vts@, j)],
                    data@[2 * words_before(vts@, j) + 1],
                ),
            forall|j: int|
                0 <= j < i && #[trigger] vts@[j] == ValueType::Bool ==> values@[j] == flag_at(
                    data@,
                    start as int,
                    flags_before(vts@, j),
                ),
            b > 0 ==> start + (b - 1) / 8 < data@.len(),
        decreases vts@.len() - i,
    {
        proof {
            lemma_counts_monotone(vts@, i + 1, vts@.len() as int);
        }
        if vts[i] == ValueType::Bool {
            if data.len() - start <= b / 8 {
                return None;
            }
            let byte = data[start + b / 8];
            let f = ((byte >> ((b % 8) as u8)) & 1u8) as u16;
            values.set(i, f);
            b += 1;
        }
        i += 1;
    }
    assert(values@ =~= spec_unpack(data@, vts@)->0);
    Some(values)
}

/// The value types the channel catalog advertises for the channels of a
/// layout.
pub open spec fn layout_value_types(chs: Seq<u16>) -> Seq<ValueType> {
    chs.map_values(
        |c: u16|
            match spec_channel_wire(c) {
                Some(w) => w.spec_value_type(),
                None => ValueType::F32,
            },
    )
}

/// The word a host reads back for channel `ch` of a push built from raw
/// words `raw`: the channel's word, or 0/1 for a flag channel.
pub open spec fn expected_word(ch: u16, raw: Seq<u16>) -> u16 {
    if spec_channel_wire(ch) == Some(WireType::Bit) {
        if raw_value(raw, ch) != 0 {
            1
        } else {
            0
        }
    } else {
        raw_value(raw, ch)
    }
}

proof fn lemma_or_high_bit(v: u8, k: u8, j: u8)
    by (bit_vector)
    requires
        k < 8,
        j <= k,
        v >> k == 0,
    ensures
        j < k ==> ((v | (1u8 << k)) >> j) & 1u8 == (v >> j) & 1u8,
        ((v | (1u8 << k)) >> k) & 1u8 == 1u8,
        (v >> k) & 1u8 == 0u8,
        k < 7 ==> (v | (1u8 << k)) >> (k + 1) == 0,
        k < 7 ==> v >> (k + 1) == 0,
{
}

proof fn lemma_bits_byte(b: Seq<bool>)
    requires
        b.len() <= 8,
    ensures
        forall|j: int|
            0 <= j < b.len() ==> (bits_byte(b) >> (j as u8)) & 1u8 == if b[j] {
                1u8
            } else {
                0u8
            },
        b.len() < 8 ==> bits_byte(b) >> (b.len() as u8) == 0,
    decreases b.len(),
{
    if b.len() == 0 {
        assert(0u8 >> 0u8 == 0) by (bit_vector);
    } else {
        let p = b.drop_last();
        lemma_bits_byte(p);
        let v = bits_byte(p);
        let k = (b.len() - 1) as u8;
        assert forall|j: int| 0 <= j < b.len() implies (bits_byte(b) >> (j as u8)) & 1u8 == if b[j] {
            1u8
        } else {
            0u8
        } by {
            lemma_or_high_bit(v, k, j as u8);
            if j < k {
                assert(b[j] == p[j]);
            }
        }
        lemma_or_high_bit(v, k, k);
    }
}

proof fn lemma_pack_bit(b: Seq<bool>, x: int)
    requires
        0 <= x < b.len(),
    ensures
        x / 8 < pack_bits(b).len(),
        (pack_bits(b)[x / 8] >> ((x % 8) as u8)) & 1u8 == if b[x] {
            1u8
        } else {
            0u8
        },
    decreases b.len(),
{
    if b.len() <= 8 {
        lemma_bits_byte(b);
    } else if x < 8 {
        lemma_bits_byte(b.take(8));
        assert(b.take(8)[x] == b[x]);
    } else {
        lemma_pack_bit(b.skip(8), x - 8);
        assert((x - 8) / 8 == x / 8 - 1);
        assert((x - 8) % 8 == x % 8);
        assert(b.skip(8)[x - 8] == b[x]);
        let rest = pack_bits(b.skip(8));
        assert(pack_bits(b)[x / 8] == rest[x / 8 - 1]);
    }
}

/// One more channel adds its two bytes to the word data and its flag to the
/// flag list.
proof fn lemma_layout_step(chs: Seq<u16>, raw: Seq<u16>, k: int)
    requires
        0 <= k < chs.len(),
    ensures
        int_data(chs.take(k + 1), raw) == int_data(chs.take(k), raw) + match spec_channel_wire(
            chs[k],
        ) {
            Some(WireType::U16) => crate::comms::telemetry::le16(raw_value(raw, chs[k])),
            Some(WireType::I16) => crate::comms::telemetry::le16(raw_value(raw, chs[k])),
            _ => Seq::empty(),
        },
        bit_flags(chs.take(k + 1), raw) == bit_flags(chs.take(k), raw) + if spec_channel_wire(chs[k])
            == Some(WireType::Bit) {
            seq![raw_value(raw, chs[k]) != 0]
        } else {
            Seq::empty()
        },
{
    assert(chs.take(k + 1).drop_last() =~= chs.take(k));
    assert(chs.take(k + 1).last() == chs[k]);
}

/// The word data and flags of a layout prefix match the counts of the
/// advertised value types, and are prefixes of the whole layout's.
proof fn lemma_layout_prefix(chs: Seq<u16>, raw: Seq<u16>, k: int)
    requires
        0 <= k <= chs.len(),
        forall|i: int| 0 <= i < chs.len() ==> spec_channel_wire(#[trigger] chs[i]) is Some,
    ensures
        int_data(chs.take(k), raw).len() == 2 * words_before(layout_value_types(chs), k),
        bit_flags(chs.take(k), raw).len() == flags_before(layout_value_types(chs), k),
        int_data(chs.take(k), raw) == int_data(chs, raw).take(int_data(chs.take(k), raw).len() as int),
        bit_flags(chs.take(k), raw) == bit_flags(chs, raw).take(
            bit_flags(chs.take(k), raw).len() as int,
        ),
    decreases chs.len() - k,
{
    let vts = layout_value_types(chs);
    if k == chs.len() {
        assert(chs.take(k) =~= chs);
        lemma_layout_counts(chs, raw, k);
    } else {
        lemma_layout_prefix(chs, raw, k + 1);
        lemma_layout_counts(chs, raw, k);
        lemma_layout_counts(chs, raw, k + 1);
        lemma_layout_counts(chs, raw, chs.len() as int);
        assert(chs.take(chs.len() as int) =~= chs);
        lemma_counts_monotone(vts, k + 1, chs.len() as int);
        lemma_layout_step(chs, raw, k);
        let a = int_data(chs.take(k), raw);
        let a2 = int_data(chs.take(k + 1), raw);
        assert(a2.take(a.len() as int) =~= a);
        assert(int_data(chs, raw).take(a.len() as int) =~= int_data(chs, raw).take(
            a2.len() as int,
        ).take(a.len() as int));
        let f = bit_flags(chs.take(k), raw);
        let f2 = bit_flags(chs.take(k + 1), raw);
        assert(f2.take(f.len() as int) =~= f);
        assert(bit_flags(chs, raw).take(f.len() as int) =~= bit_flags(chs, raw).take(
            f2.len() as int,
        ).take(f.len() as int));
    }
}

proof fn lemma_layout_counts(chs: Seq<u16>, raw: Seq<u16>, k: int)
    requires
        0 <= k <= chs.len(),
        forall|i: int| 0 <= i < chs.len() ==> spec_channel_wire(#[trigger] chs[i]) is Some,
    ensures
        int_data(chs.take(k), raw).len() == 2 * words_before(layout_value_types(chs), k),
        bit_flags(chs.take(k), raw).len() == flags_before(layout_value_types(chs), k),
    decreases k,
{
    if k == 0 {
        assert(chs.take(0) =~= Seq::<u16>::empty());
    } else {
        lemma_layout_counts(chs, raw, k - 1);
        lemma_layout_step(chs, raw, k - 1);
        let vts = layout_value_types(chs);
        assert(spec_channel_wire(chs[k - 1]) is Some);
        assert(vts[k - 1] == spec_channel_wire(chs[k - 1])->0.spec_value_type());
    }
}

proof fn lemma_le32(v: u32)
    ensures
        le32_value(
            (v % 256) as u8,
            ((v / 256) % 256) as u8,
            ((v / 65536) % 256) as u8,
            (v / 16777216) as u8,
        ) == v,
{
    assert((v % 256) + 256 * ((v / 256) % 256) + 65536 * ((v / 65536) % 256) + 16777216 * (v
        / 16777216) == v) by (nonlinear_arith);
}

/// A telemetry push body built by the device for a layout of catalog
/// channels reads back, on the host, as the stream ID, sequence number and
/// timestamp it was built with, and as each channel's raw word (0/1 for a
/// flag channel) in layout order.
pub proof fn lemma_push_round_trip(chs: Seq<u16>, raw: Seq<u16>, id: u8, seq: u16, now_ms: u32)
    requires
        forall|i: int| 0 <= i < chs.len() ==> spec_channel_wire(#[trigger] chs[i]) is Some,
    ensures
        spec_push_header(frame_header(id, seq, now_ms) + frame_data(chs, raw)) == Some(
            (id, seq, now_ms),
        ),
        (frame_header(id, seq, now_ms) + frame_data(chs, raw)).skip(PUSH_HEADER_LEN as int)
            == frame_data(chs, raw),
        spec_unpack(frame_data(chs, raw), layout_value_types(chs)) == Some(
            Seq::new(chs.len(), |i: int| expected_word(chs[i], raw)),
        ),
{
    let hdr = frame_header(id, seq, now_ms);
    let data = frame_data(chs, raw);
    let body = hdr + data;
    lemma_le32(now_ms);
    assert(body[1] == (seq % 256) as u8);
    assert(body[2] == (seq / 256) as u8);
    assert(le16_value(body[1], body[2]) == seq);
    assert(body.skip(PUSH_HEADER_LEN as int) =~= data);
    let vts = layout_value_types(chs);
    let n = chs.len() as int;
    let words = int_data(chs, raw);
    let flags = bit_flags(chs, raw);
    lemma_layout_prefix(chs, raw, n);
    assert(chs.take(n) =~= chs);
    lemma_pack_len(flags);
    let nw = words_before(vts, n);
    let nf = flags_before(vts, n);
    assert(words.len() == 2 * nw);
    assert(flags.len() == nf);
    assert(push_supported(vts)) by {
        assert forall|i: int| 0 <= i < vts.len() implies is_word(#[trigger] vts[i]) || vts[i]
            == ValueType::Bool by {
            assert(spec_channel_wire(chs[i]) is Some);
        }
    }
    let expected = Seq::new(chs.len(), |i: int| expected_word(chs[i], raw));
    let got = spec_unpack(data, vts)->0;
    assert(spec_unpack(data, vts) is Some);
    assert forall|i: int| 0 <= i < n implies got[i] == expected[i] by {
        lemma_layout_prefix(chs, raw, i);
        lemma_layout_prefix(chs, raw, i + 1);
        lemma_layout_step(chs, raw, i);
        lemma_counts_monotone(vts, i + 1, n);
        assert(spec_channel_wire(chs[i]) is Some);
        if vts[i] == ValueType::Bool {
            let b = flags_before(vts, i);
            let f = bit_flags(chs.take(i), raw);
            let f2 = bit_flags(chs.take(i + 1), raw);
            assert(f2[b] == (raw_value(raw, chs[i]) != 0));
            assert(flags[b] == f2[b]);
            lemma_pack_bit(flags, b);
            assert(data[2 * nw + b / 8] == pack_bits(flags)[b / 8]);
        } else {
            let w = 2 * words_before(vts, i);
            let a2 = int_data(chs.take(i + 1), raw);
            let v = raw_value(raw, chs[i]);
            assert(a2[w] == crate::comms::telemetry::le16(v)[0]);
            assert(a2[w + 1] == crate::comms::telemetry::le16(v)[1]);
            assert(data[w] == a2[w]);
            assert(data[w + 1] == a2[w + 1]);
        }
    }
    assert(got =~= expected);
}

/// Confirmation magic for `ConfigResetDefaults`.
pub const RESET_DEFAULTS_CONFIRM: u32 = 0xDEFA;

#[verifier::external_type_specification]
#[verifier::external_body]
pub struct ExIoError(std::io::Error);

/// Errors from RDP client operations.
#[derive(Debug)]
pub enum RdpError {
    /// Transport I/O failure.
    Io(std::io::Error),
    /// The device closed the connection.
    ConnectionClosed,
    /// Frame encode failure (request too large, etc.).
    Frame(FrameError),
    /// Request body could not be encoded (opcode of the failing request).
    Encode {
        /// Opcode of the failing request.
        op: u16,
    },
    /// Response body could not be decoded (opcode of the failing response).
    Decode {
        /// Opcode of the failing response.
        op: u16,
    },
    /// The device returned a non-Ok error response.
    Device {
        /// Standard RDP error code.
        code: ErrorCode,
        /// Context-dependent detail (offending id, etc.).
        detail: u16,
    },
    /// A response arrived with an unexpected opcode.
    UnexpectedOp {
        /// Opcode of the in-flight request.
        expected: u16,
        /// Opcode found in the response.
        got: u16,
    },
    /// More items were supplied than the protocol allows in one request.
    TooManyItems(usize),
}

/// Owned copy of the device `HelloInfo`.
#[derive(Clone, Debug, PartialEq)]
pub struct OwnedHelloInfo {
    /// Protocol major version (mismatch → disconnect).
    pub proto_major: u8,
    /// Protocol minor version (backward-compatible additions).
    pub proto_minor: u8,
    /// Firmware version string.
    pub fw_version: String,
    /// Board identifier.
    pub board: u8,
    /// MCU name.
    pub mcu: String,
    /// Cylinder count.
    pub cylinders: u8,
    /// Capability bit flags.
    pub capabilities: u32,
    /// Schema hash over the parameter/table/telemetry catalogs.
    pub schema_hash: u32,
    /// Maximum frame payload supported by the device.
    pub max_payload: u16,
    /// Unique device id (MCU UID).
    pub device_id: Vec<u8>,
}

/// One schema category (UI tab/group).
#[derive(Clone, Debug, PartialEq)]
pub struct OwnedCategory {
    /// Category index referenced by descriptors.
    pub id: u8,
    /// Category display name.
    pub name: String,
}

/// Owned copy of `GetSchemaInfoResponse`.
#[derive(Clone, Debug, PartialEq)]
pub struct OwnedSchemaInfo {
    /// Schema hash.
    pub schema_hash: u32,
    /// Number of parameters in the catalog.
    pub param_count: u16,
    /// Number of tables in the catalog.
    pub table_count: u16,
    /// UI categories.
    pub categories: Vec<OwnedCategory>,
}

/// Owned fault (DTC) entry.
#[derive(Clone, Debug, PartialEq)]
pub struct OwnedFault {
    /// Fault code.
    pub code: u16,
    /// Severity (0=Info, 1=Warn, 2=Critical).
    pub severity: u8,
    /// True while the underlying condition persists.
    pub active: bool,
    /// Occurrence count.
    pub count: u16,
    /// First occurrence (device ms).
    pub first_ts_ms: u32,
    /// Most recent occurrence (device ms).
    pub last_ts_ms: u32,
    /// Context-dependent detail.
    pub detail: u16,
}

/// Owned asynchronous device event.
#[derive(Clone, Debug, PartialEq)]
pub struct OwnedEvent {
    /// Event kind discriminator.
    pub kind: u8,
    /// Device timestamp (ms since boot).
    pub ts_ms: u32,
    /// Kind-dependent value A.
    pub a: i32,
    /// Kind-dependent value B.
    pub b: i32,
}

/// Display name of a board identifier (see [`crate::comms::rdp::board`]).
pub open spec fn spec_board_name(id: u8) -> Seq<char> {
    if id == 0 {
        "Sim"@
    } else if id == 1 {
        "Nano"@
    } else if id == 2 {
        "microRusEFI"@
    } else if id == 3 {
        "uaEFI"@
    } else if id == 4 {
        "Proteus"@
    } else if id == 5 {
        "Huge"@
    } else {
        "unknown"@
    }
}

/// Display name of a board identifier (`unknown` for an unassigned one).
pub fn board_name(id: u8) -> (r: &'static str)
    ensures
        r@ == spec_board_name(id),
{
    match id {
        0 => "Sim",
        1 => "Nano",
        2 => "microRusEFI",
        3 => "uaEFI",
        4 => "Proteus",
        5 => "Huge",
        _ => "unknown",
    }
}

/// What a data-carrying response yields: its decoded body; else, when the
/// body decodes as an error response, the device error it reports; else a
/// decode failure for `opcode`. `data` and `error_body` are the body decoded
/// as the expected type and as an error response.
pub fn decode_data<T>(data: Option<T>, error_body: Option<ErrorResponseBody>, opcode: u16) -> (r:
    Result<T, RdpError>)
    ensures
        data matches Some(v) ==> (r matches Ok(x) && x == v),
        data is None && error_body is Some ==> (r matches Err(RdpError::Device { code, detail })
            && code == error_body->0.code && detail == error_body->0.detail),
        data is None && error_body is None ==> (r matches Err(RdpError::Decode { op }) && op
            == opcode),
{
    if let Some(v) = data {
        return Ok(v);
    }
    match error_body {
        Some(e) => Err(RdpError::Device { code: e.code, detail: e.detail }),
        None => Err(RdpError::Decode { op: opcode }),
    }
}

/// What a status-only response yields: the code of its error-response
/// body, or a decode failure for `opcode` when the body did not decode.
pub fn decode_status(error_body: Option<ErrorResponseBody>, opcode: u16) -> (r: Result<
    ErrorCode,
    RdpError,
>)
    ensures
        error_body matches Some(e) ==> (r matches Ok(c) && c == e.code),
        error_body is None ==> (r matches Err(RdpError::Decode { op }) && op == opcode),
{
    match error_body {
        Some(e) => Ok(e.code),
        None => Err(RdpError::Decode { op: opcode }),
    }
}

/// A delimited frame followed by more bytes: the first chunk popped is the
/// frame, which decodes to its header and payload.
proof fn lemma_frame_chunk(h: FrameHeader, p: Seq<u8>, rest: Seq<u8>)
    requires
        h.version == VERSION,
        p.len() <= MAX_PAYLOAD_LEN,
    ensures
        ({
            let enc = spec_cobs_encode(spec_raw_frame(h, p));
            let rx = spec_encoded_frame(h, p) + rest;
            &&& first_zero(rx) == Some(enc.len() as int)
            &&& enc.len() < rx.len()
            &&& rx.take(enc.len() as int) == enc
            &&& rx.skip(enc.len() + 1int) == rest
            &&& enc.len() > 0
            &&& spec_cobs_decode(enc, MAX_RAW_FRAME_LEN as int) == Ok::<Seq<u8>, crate::cobs::CobsError>(
                spec_raw_frame(h, p),
            )
            &&& spec_decode_raw(spec_raw_frame(h, p)) == Ok::<(FrameHeader, Seq<u8>), FrameError>(
                (h, p),
            )
        }),
{
    let raw = spec_raw_frame(h, p);
    let enc = spec_cobs_encode(raw);
    let rx = spec_encoded_frame(h, p) + rest;
    crate::frame::lemma_stream_round_trip(h, p, MAX_RAW_FRAME_LEN as int);
    assert forall|j: int| 0 <= j < enc.len() implies rx[j] != 0 by {
        assert(rx[j] == enc[j]);
    }
    assert(rx[enc.len() as int] == 0u8);
    lemma_first_zero(rx, enc.len() as int);
    assert(rx.take(enc.len() as int) =~= enc);
    assert(rx.skip(enc.len() + 1int) =~= rest);
    if enc.len() == 0 {
        assert(enc =~= Seq::<u8>::empty());
        assert(crate::cobs::cobs_scan(Seq::<u8>::empty()).0.len() == 0);
    }
}

/// Popping the fragments of message `seq` (`p`, flagged with no other
/// bits) with `acc` already reassembled for it — or nothing, with no
/// message in progress — yields `acc + p` once the last fragment is in.
proof fn lemma_fragments_pop(seq: u16, p: Seq<u8>, acc: Seq<u8>, d: DefragState)
    requires
        (d.seq == Some(seq) && d.buffer == acc) || (d.seq is None && acc.len() == 0),
        acc.len() + p.len() <= MAX_MESSAGE_LEN,
    ensures
        spec_pop(spec_fragments(0, seq, p), d) == (
            Seq::<u8>::empty(),
            DefragState { buffer: acc + p, seq: None },
            Some((seq, acc + p)),
        ),
    decreases p.len(),
{
    let fl_mid = (0u8 | Flags::FRAGMENT) as u8;
    let fl_last = (0u8 | Flags::FRAGMENT | Flags::LAST_FRAGMENT) as u8;
    assert(fl_mid & Flags::FRAGMENT != 0 && fl_mid & Flags::LAST_FRAGMENT == 0) by (bit_vector)
        requires
            fl_mid == (0u8 | Flags::FRAGMENT) as u8,
    ;
    assert(fl_last & Flags::FRAGMENT != 0 && fl_last & Flags::LAST_FRAGMENT != 0) by (bit_vector)
        requires
            fl_last == (0u8 | Flags::FRAGMENT | Flags::LAST_FRAGMENT) as u8,
    ;
    if p.len() <= MAX_PAYLOAD_LEN {
        let h = FrameHeader { version: VERSION, flags: Flags(fl_last), seq };
        lemma_frame_chunk(h, p, Seq::<u8>::empty());
        assert(spec_encoded_frame(h, p) + Seq::<u8>::empty() =~= spec_encoded_frame(h, p));
        if d.seq is None {
            assert(acc =~= Seq::<u8>::empty());
            assert(acc + p =~= p);
        }
    } else {
        let h = FrameHeader { version: VERSION, flags: Flags(fl_mid), seq };
        let first = p.take(MAX_PAYLOAD_LEN as int);
        let rest = spec_fragments(0, seq, p.skip(MAX_PAYLOAD_LEN as int));
        lemma_frame_chunk(h, first, rest);
        let acc2 = acc + first;
        let d2 = DefragState { buffer: acc2, seq: Some(seq) };
        if d.seq is None {
            assert(acc =~= Seq::<u8>::empty());
            assert(Seq::<u8>::empty() + first =~= acc2);
        }
        assert(spec_feed(MAX_MESSAGE_LEN as nat, d, h, first) == (d2, Ok::<Option<Seq<u8>>, ErrorCode>(None)));
        lemma_fragments_pop(seq, p.skip(MAX_PAYLOAD_LEN as int), acc2, d2);
        assert(acc2 + p.skip(MAX_PAYLOAD_LEN as int) =~= acc + p);
    }
}

/// A message encoded for a stream transport with no flags, of up to
/// [`MAX_MESSAGE_LEN`] bytes — one frame or many fragments — pops back
/// whole, with its sequence number, leaving no bytes behind, when no other
/// message is being reassembled.
pub proof fn lemma_message_pop(seq: u16, payload: Seq<u8>, d: DefragState)
    requires
        d.seq is None,
        payload.len() <= MAX_MESSAGE_LEN,
    ensures
        spec_pop(spec_encode_message(Flags(0), seq, payload), d).0 == Seq::<u8>::empty(),
        spec_pop(spec_encode_message(Flags(0), seq, payload), d).1.seq is None,
        spec_pop(spec_encode_message(Flags(0), seq, payload), d).2 == Some((seq, payload)),
{
    if payload.len() <= MAX_PAYLOAD_LEN {
        let h = FrameHeader { version: VERSION, flags: Flags(0), seq };
        assert(0u8 & Flags::FRAGMENT == 0) by (bit_vector);
        lemma_frame_chunk(h, payload, Seq::<u8>::empty());
        assert(spec_encoded_frame(h, payload) + Seq::<u8>::empty() =~= spec_encoded_frame(h, payload));
    } else {
        lemma_fragments_pop(seq, payload, Seq::<u8>::empty(), d);
        assert(Seq::<u8>::empty() + payload =~= payload);
    }
}

} // verus!
