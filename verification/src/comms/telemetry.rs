//! Catalog-driven subscription telemetry: channel wire encodings and the
//! packed frame layout.
use vstd::prelude::*;

use crate::message::ValueType;

verus! {

/// Physical wire encoding for one telemetry channel.
#[derive(Clone, Copy, Debug, PartialEq, Eq, Structural)]
pub enum WireType {
    /// Unsigned 16-bit, `physical = raw * scale`.
    U16,
    /// Signed 16-bit, `physical = raw * scale`.
    I16,
    /// Single bit, packed into trailing flag bytes.
    Bit,
}

impl WireType {
    /// Bytes occupied in the packed frame.
    pub open spec fn spec_wire_len(self) -> nat {
        match self {
            WireType::U16 | WireType::I16 => 2,
            WireType::Bit => 0,
        }
    }

    /// Bytes occupied in the packed frame (bits are packed separately).
    pub fn wire_len(self) -> (r: usize)
        ensures
            r == self.spec_wire_len(),
    {
        match self {
            WireType::U16 | WireType::I16 => 2,
            WireType::Bit => 0,
        }
    }
}

impl WireType {
    /// The value type advertised for this encoding in the channel catalog.
    pub open spec fn spec_value_type(self) -> ValueType {
        match self {
            WireType::U16 => ValueType::U16,
            WireType::I16 => ValueType::I16,
            WireType::Bit => ValueType::Bool,
        }
    }

    /// The value type advertised for this encoding in the channel catalog.
    pub fn value_type(self) -> (r: ValueType)
        ensures
            r == self.spec_value_type(),
    {
        match self {
            WireType::U16 => ValueType::U16,
            WireType::I16 => ValueType::I16,
            WireType::Bit => ValueType::Bool,
        }
    }
}

impl WireType {
    /// The wire byte of this encoding (its declaration order).
    pub open spec fn code(self) -> u8 {
        match self {
            WireType::U16 => 0,
            WireType::I16 => 1,
            WireType::Bit => 2,
        }
    }

    /// The wire byte of this encoding.
    pub fn to_u8(self) -> (r: u8)
        ensures
            r == self.code(),
    {
        match self {
            WireType::U16 => 0,
            WireType::I16 => 1,
            WireType::Bit => 2,
        }
    }
}

/// FNV-1a (32-bit) offset basis.
pub const FNV_OFFSET: u32 = 0x811C_9DC5;

/// FNV-1a (32-bit) prime.
pub const FNV_PRIME: u32 = 0x0100_0193;

/// FNV-1a of `bytes`, continuing from hash state `h`.
pub open spec fn spec_fnv1a(h: u32, bytes: Seq<u8>) -> u32
    decreases bytes.len(),
{
    if bytes.len() == 0 {
        h
    } else {
        spec_fnv1a(
            vstd::wrapping::u32_specs::wrapping_mul(h ^ (bytes[0] as u32), FNV_PRIME),
            bytes.drop_first(),
        )
    }
}

/// FNV-1a of `bytes`, continuing from hash state `h`.
pub fn fnv1a(h: u32, bytes: &[u8]) -> (r: u32)
    ensures
        r == spec_fnv1a(h, bytes@),
{
    let mut cur = h;
    let mut i: usize = 0;
    assert(bytes@.skip(0) =~= bytes@);
    while i < bytes.len()
        invariant
            i <= bytes@.len(),
            spec_fnv1a(cur, bytes@.skip(i as int)) == spec_fnv1a(h, bytes@),
        decreases bytes@.len() - i,
    {
        assert(bytes@.skip(i as int).drop_first() =~= bytes@.skip(i + 1));
        cur = (cur ^ (bytes[i] as u32)).wrapping_mul(FNV_PRIME);
        i += 1;
    }
    cur
}

/// What the telemetry hash reads of one catalog channel.
#[derive(Clone, Copy, Debug)]
pub struct ChannelHashEntry<'a> {
    /// Stable wire ID.
    pub id: u16,
    /// Machine-readable key (its bytes).
    pub key: &'a [u8],
    /// Scale factor, as `f32` bits.
    pub scale_bits: u32,
    /// Wire encoding.
    pub wire: WireType,
    /// Display group.
    pub group: u8,
}

/// Little-endian bytes of a `u16`.
pub open spec fn le16_bytes(v: u16) -> Seq<u8> {
    seq![(v % 256) as u8, (v / 256) as u8]
}

/// Little-endian bytes of a `u32`.
pub open spec fn le32_bytes(v: u32) -> Seq<u8> {
    seq![(v % 256) as u8, (v / 256 % 256) as u8, (v / 65536 % 256) as u8, (v / 16777216) as u8]
}

/// The hash state after folding in one catalog channel: its ID, key, scale
/// bits (all little-endian) and then its wire byte and group.
pub open spec fn hash_channel(h: u32, e: ChannelHashEntry) -> u32 {
    spec_fnv1a(
        spec_fnv1a(spec_fnv1a(spec_fnv1a(h, le16_bytes(e.id)), e.key@), le32_bytes(e.scale_bits)),
        seq![e.wire.code(), e.group],
    )
}

/// The hash state after folding in the channels `cs` in order.
pub open spec fn hash_catalog(h: u32, cs: Seq<ChannelHashEntry>) -> u32
    decreases cs.len(),
{
    if cs.len() == 0 {
        h
    } else {
        hash_catalog(hash_channel(h, cs[0]), cs.drop_first())
    }
}

/// Deterministic hash of the telemetry catalog (folded into the schema
/// hash): FNV-1a from [`FNV_OFFSET`] over every channel in order.
pub fn telemetry_hash(catalog: &[ChannelHashEntry]) -> (r: u32)
    ensures
        r == hash_catalog(FNV_OFFSET, catalog@),
{
    let mut h = FNV_OFFSET;
    let mut i: usize = 0;
    assert(catalog@.skip(0) =~= catalog@);
    while i < catalog.len()
        invariant
            i <= catalog@.len(),
            hash_catalog(h, catalog@.skip(i as int)) == hash_catalog(FNV_OFFSET, catalog@),
        decreases catalog@.len() - i,
    {
        let c = catalog[i];
        assert(catalog@.skip(i as int).drop_first() =~= catalog@.skip(i + 1));
        let id = [(c.id % 256) as u8, (c.id / 256) as u8];
        assert(id@ =~= le16_bytes(c.id));
        h = fnv1a(h, &id);
        h = fnv1a(h, c.key);
        let sb = c.scale_bits;
        let scale = [(sb % 256) as u8, (sb / 256 % 256) as u8, (sb / 65536 % 256) as u8, (sb / 16777216) as u8];
        assert(scale@ =~= le32_bytes(sb));
        h = fnv1a(h, &scale);
        let tail = [c.wire.to_u8(), c.group];
        assert(tail@ =~= seq![c.wire.code(), c.group]);
        h = fnv1a(h, &tail);
        i += 1;
    }
    h
}

/// Channels per page of the telemetry catalog.
pub const CHANNELS_PER_PAGE: usize = 8;

/// The channel IDs of the telemetry catalog, in catalog order.
pub open spec fn catalog_ids() -> Seq<u16> {
    seq![
        1u16, 2u16, 3u16, 4u16, 5u16, 6u16, 7u16, 8u16, 9u16, 10u16, 11u16, 12u16, 13u16, 14u16,
        15u16, 16u16, 32u16, 33u16, 34u16, 35u16, 36u16, 37u16,
    ]
}

/// The channel IDs of the telemetry catalog, in catalog order.
pub fn telemetry_catalog_ids() -> (r: Vec<u16>)
    ensures
        r@ == catalog_ids(),
{
    let r = vec![1u16, 2, 3, 4, 5, 6, 7, 8, 9, 10, 11, 12, 13, 14, 15, 16, 32, 33, 34, 35, 36, 37];
    assert(r@ =~= catalog_ids());
    r
}

/// Pages of the telemetry catalog: `ceil(n / 8)`, at least one.
pub open spec fn catalog_total_pages() -> nat {
    let n = catalog_ids().len();
    if n == 0 {
        1
    } else {
        ((n + CHANNELS_PER_PAGE - 1) / (CHANNELS_PER_PAGE as int)) as nat
    }
}

/// Page `page` of the telemetry catalog: the page count and the IDs
/// `8 * page .. min(8 * page + 8, n)`, or `Err(page)` past the last page.
pub open spec fn spec_catalog_page(page: u16) -> Result<(u16, Seq<u16>), u16> {
    if page >= catalog_total_pages() {
        Err(page)
    } else {
        let lo = CHANNELS_PER_PAGE * page;
        let hi = if lo + CHANNELS_PER_PAGE <= catalog_ids().len() {
            lo + CHANNELS_PER_PAGE
        } else {
            catalog_ids().len() as int
        };
        Ok((catalog_total_pages() as u16, catalog_ids().subrange(lo, hi)))
    }
}

/// A catalog page with its IDs viewed.
pub open spec fn page_view(r: Result<(u16, Vec<u16>), u16>) -> Result<(u16, Seq<u16>), u16> {
    match r {
        Ok((total, ids)) => Ok((total, ids@)),
        Err(p) => Err(p),
    }
}

/// Page `page` of the telemetry catalog (8 channels per page): the page
/// count and the channel IDs on it, or `Err(page)` past the last page.
pub fn telemetry_catalog_page(page: u16) -> (r: Result<(u16, Vec<u16>), u16>)
    ensures
        page_view(r) == spec_catalog_page(page),
{
    let all = telemetry_catalog_ids();
    let n = all.len();
    let total: usize = if n == 0 {
        1
    } else {
        (n + CHANNELS_PER_PAGE - 1) / CHANNELS_PER_PAGE
    };
    assert(total == catalog_total_pages());
    if page as usize >= total {
        return Err(page);
    }
    let lo = CHANNELS_PER_PAGE * page as usize;
    let hi = if lo + CHANNELS_PER_PAGE <= n {
        lo + CHANNELS_PER_PAGE
    } else {
        n
    };
    let mut ids: Vec<u16> = Vec::new();
    let mut i = lo;
    while i < hi
        invariant
            lo <= i <= hi <= n,
            n == all@.len(),
            ids@ == all@.subrange(lo as int, i as int),
        decreases hi - i,
    {
        ids.push(all[i]);
        assert(ids@ =~= all@.subrange(lo as int, i + 1));
        i += 1;
    }
    Ok((total as u16, ids))
}

/// The catalog lists exactly the channels that have a wire encoding.
pub proof fn lemma_catalog_channels(id: u16)
    ensures
        catalog_ids().contains(id) <==> spec_channel_wire(id) is Some,
{
    if spec_channel_wire(id) is Some {
        let k: int = if id <= 16 {
            id - 1
        } else {
            id - 32 + 16
        };
        assert(catalog_ids()[k] == id);
    }
}

/// Maximum number of concurrent telemetry streams.
pub const MAX_STREAMS: usize = 4;

/// Maximum channels per stream.
pub const MAX_STREAM_CHANNELS: usize = 16;

/// Maximum supported push rate.
pub const MAX_RATE_HZ: u16 = 100;

/// Subscribe failure reasons.
#[derive(Clone, Copy, Debug, PartialEq, Eq, Structural)]
pub enum SubscribeError {
    /// All stream slots are in use.
    NoFreeStream,
    /// A channel ID does not exist (carries the offending ID).
    BadChannel(u16),
    /// More channels requested than [`MAX_STREAM_CHANNELS`].
    TooManyChannels,
}

/// Wire encoding of catalog channel `id` (`None` for an unknown channel):
/// channels 2, 3, 9 and 12 are signed, 1–16 otherwise unsigned, 32–37 bits.
pub open spec fn spec_channel_wire(id: u16) -> Option<WireType> {
    if id == 2 || id == 3 || id == 9 || id == 12 {
        Some(WireType::I16)
    } else if 1 <= id <= 16 {
        Some(WireType::U16)
    } else if 32 <= id <= 37 {
        Some(WireType::Bit)
    } else {
        None
    }
}

/// Wire encoding of catalog channel `id`, if the catalog has it.
pub fn channel_wire(id: u16) -> (r: Option<WireType>)
    ensures
        r == spec_channel_wire(id),
{
    if id == 2 || id == 3 || id == 9 || id == 12 {
        Some(WireType::I16)
    } else if 1 <= id && id <= 16 {
        Some(WireType::U16)
    } else if 32 <= id && id <= 37 {
        Some(WireType::Bit)
    } else {
        None
    }
}

/// Integer bytes and bit channels of a layout, in that order.
pub open spec fn layout_counts(channels: Seq<u16>) -> (nat, nat)
    decreases channels.len(),
{
    if channels.len() == 0 {
        (0, 0)
    } else {
        let (bytes, bits) = layout_counts(channels.drop_last());
        match spec_channel_wire(channels.last()) {
            Some(WireType::Bit) => (bytes, bits + 1),
            Some(w) => (bytes + w.spec_wire_len(), bits),
            None => (bytes, bits),
        }
    }
}

/// Length of the packed `data` section: the integer channels, then the bit
/// channels rounded up to whole bytes; unknown channels take no room.
pub open spec fn spec_packed_data_len(channels: Seq<u16>) -> nat {
    layout_counts(channels).0 + (layout_counts(channels).1 + 7) / 8
}

proof fn lemma_layout_counts_bound(channels: Seq<u16>)
    ensures
        layout_counts(channels).0 <= 2 * channels.len(),
        layout_counts(channels).1 <= channels.len(),
    decreases channels.len(),
{
    if channels.len() > 0 {
        lemma_layout_counts_bound(channels.drop_last());
    }
}

/// Length of the packed `data` section for a channel layout.
pub fn packed_data_len(channels: &[u16]) -> (r: usize)
    requires
        3 * channels@.len() + 7 <= usize::MAX,
    ensures
        r == spec_packed_data_len(channels@),
{
    let mut bytes = 0usize;
    let mut bits = 0usize;
    let mut i: usize = 0;
    while i < channels.len()
        invariant
            i <= channels@.len(),
            3 * channels@.len() + 7 <= usize::MAX,
            (bytes as nat, bits as nat) == layout_counts(channels@.take(i as int)),
        decreases channels@.len() - i,
    {
        proof {
            lemma_layout_counts_bound(channels@.take(i as int));
            assert(channels@.take(i + 1).drop_last() =~= channels@.take(i as int));
        }
        match channel_wire(channels[i]) {
            Some(WireType::Bit) => bits += 1,
            Some(w) => bytes += w.wire_len(),
            None => {},
        }
        i += 1;
    }
    proof {
        assert(channels@.take(channels@.len() as int) =~= channels@);
        lemma_layout_counts_bound(channels@);
    }
    bytes + (bits + 7) / 8
}

/// Raw wire word of channel `ch` in the table `raw` (indexed by channel
/// ID); 0 for an ID past its end.
pub open spec fn raw_value(raw: Seq<u16>, ch: u16) -> u16 {
    if (ch as int) < raw.len() {
        raw[ch as int]
    } else {
        0
    }
}

/// `v` as two little-endian bytes.
pub open spec fn le16(v: u16) -> Seq<u8> {
    seq![(v % 256) as u8, (v / 256) as u8]
}

/// `v` as four little-endian bytes.
pub open spec fn le32(v: u32) -> Seq<u8> {
    seq![(v % 256) as u8, ((v / 256) % 256) as u8, ((v / 65536) % 256) as u8, (v / 16777216) as u8]
}

/// The integer channels of `chs`, two little-endian bytes each, in layout
/// order.
pub open spec fn int_data(chs: Seq<u16>, raw: Seq<u16>) -> Seq<u8>
    decreases chs.len(),
{
    if chs.len() == 0 {
        Seq::empty()
    } else {
        int_data(chs.drop_last(), raw) + match spec_channel_wire(chs.last()) {
            Some(WireType::U16) => le16(raw_value(raw, chs.last())),
            Some(WireType::I16) => le16(raw_value(raw, chs.last())),
            _ => Seq::empty(),
        }
    }
}

/// The bit channels of `chs` (set when their raw word is non-zero), in
/// layout order.
pub open spec fn bit_flags(chs: Seq<u16>, raw: Seq<u16>) -> Seq<bool>
    decreases chs.len(),
{
    if chs.len() == 0 {
        Seq::empty()
    } else {
        bit_flags(chs.drop_last(), raw) + if spec_channel_wire(chs.last()) == Some(WireType::Bit) {
            seq![raw_value(raw, chs.last()) != 0]
        } else {
            Seq::empty()
        }
    }
}

/// Up to eight flags packed LSB-first into a byte.
pub open spec fn bits_byte(b: Seq<bool>) -> u8
    decreases b.len(),
{
    if b.len() == 0 {
        0
    } else {
        let v = bits_byte(b.drop_last());
        if b.last() {
            v | (1u8 << ((b.len() - 1) as u8))
        } else {
            v
        }
    }
}

/// Flags packed LSB-first into bytes, eight per byte, the last byte
/// partly filled.
pub open spec fn pack_bits(b: Seq<bool>) -> Seq<u8>
    decreases b.len(),
{
    if b.len() == 0 {
        Seq::empty()
    } else if b.len() <= 8 {
        seq![bits_byte(b)]
    } else {
        seq![bits_byte(b.take(8))] + pack_bits(b.skip(8))
    }
}

/// The packed `data` section of a frame: the integer channels in layout
/// order, then the bit channels packed into trailing bytes.
pub open spec fn frame_data(chs: Seq<u16>, raw: Seq<u16>) -> Seq<u8> {
    int_data(chs, raw) + pack_bits(bit_flags(chs, raw))
}

proof fn lemma_data_lens(chs: Seq<u16>, raw: Seq<u16>)
    ensures
        int_data(chs, raw).len() == layout_counts(chs).0,
        bit_flags(chs, raw).len() == layout_counts(chs).1,
    decreases chs.len(),
{
    if chs.len() > 0 {
        lemma_data_lens(chs.drop_last(), raw);
    }
}

pub(crate) proof fn lemma_pack_len(b: Seq<bool>)
    ensures
        pack_bits(b).len() == (b.len() + 7) / 8,
    decreases b.len(),
{
    if b.len() > 8 {
        lemma_pack_len(b.skip(8));
    }
}

/// Packing a whole number of bytes' worth of flags, then more flags,
/// packs each part on its own.
proof fn lemma_pack_concat(a: Seq<bool>, b: Seq<bool>)
    requires
        a.len() % 8 == 0,
    ensures
        pack_bits(a + b) == pack_bits(a) + pack_bits(b),
    decreases a.len(),
{
    if a.len() > 0 {
        let ab = a + b;
        assert(ab.take(8) =~= a.take(8));
        assert(ab.skip(8) =~= a.skip(8) + b);
        lemma_pack_concat(a.skip(8), b);
        if a.len() == 8 {
            assert(a.skip(8) =~= Seq::<bool>::empty());
            assert(a.take(8) =~= a);
            assert(a.skip(8) + b =~= b);
            if b.len() == 0 {
                assert(ab =~= a);
            }
        } else {
            assert(pack_bits(a) == seq![bits_byte(a.take(8))] + pack_bits(a.skip(8)));
        }
    } else {
        assert(a + b =~= b);
    }
}

/// Write the packed `data` section for layout `chs` at `out[start..]`;
/// returns where it ends.
fn write_data(chs: &[u16], raw: &[u16], out: &mut [u8], start: usize) -> (end: usize)
    requires
        chs@.len() <= MAX_STREAM_CHANNELS,
        start + spec_packed_data_len(chs@) <= old(out)@.len(),
    ensures
        end == start + spec_packed_data_len(chs@),
        final(out)@.len() == old(out)@.len(),
        final(out)@.subrange(start as int, end as int) == frame_data(chs@, raw@),
        final(out)@.take(start as int) == old(out)@.take(start as int),
        final(out)@.skip(end as int) == old(out)@.skip(end as int),
{
    proof {
        lemma_data_lens(chs@, raw@);
        lemma_pack_len(bit_flags(chs@, raw@));
    }
    let ghost orig = out@;
    let n = out.len();
    let ghost total_bits = bit_flags(chs@, raw@);
    let ghost int_end = start + int_data(chs@, raw@).len();
    let mut pos = start;
    let mut k: usize = 0;
    while k < chs.len()
        invariant
            chs@.len() <= MAX_STREAM_CHANNELS,
            n == orig.len() == out@.len(),
            start + spec_packed_data_len(chs@) <= n,
            int_data(chs@, raw@).len() == layout_counts(chs@).0,
            int_end == start + int_data(chs@, raw@).len(),
            k <= chs@.len(),
            pos == start + int_data(chs@.take(k as int), raw@).len(),
            pos <= int_end,
            out@.subrange(start as int, pos as int) == int_data(chs@.take(k as int), raw@),
            forall|j: int| 0 <= j < start ==> out@[j] == orig[j],
            forall|j: int| pos <= j < n ==> out@[j] == orig[j],
        decreases chs@.len() - k,
    {
        let ch = chs[k];
        proof {
            assert(chs@.take(k + 1).drop_last() =~= chs@.take(k as int));
            lemma_int_data_prefix(chs@, raw@, k + 1);
        }
        match channel_wire(ch) {
            Some(WireType::U16) | Some(WireType::I16) => {
                let v: u16 = if (ch as usize) < raw.len() {
                    raw[ch as usize]
                } else {
                    0
                };
                let ghost prev = out@;
                out[pos] = (v % 256) as u8;
                out[pos + 1] = (v / 256) as u8;
                proof {
                    assert(out@.subrange(start as int, pos as int) =~= prev.subrange(
                        start as int,
                        pos as int,
                    ));
                    assert(out@.subrange(start as int, pos + 2) =~= int_data(
                        chs@.take(k as int),
                        raw@,
                    ) + le16(v));
                }
                pos = pos + 2;
            },
            _ => {},
        }
        k += 1;
    }
    assert(chs@.take(chs@.len() as int) =~= chs@);
    let ghost p0 = pos;
    let ghost mid = out@;
    let mut acc: u8 = 0;
    let mut count: u8 = 0;
    let ghost mut full: int = 0;
    let mut k: usize = 0;
    assert(bit_flags(chs@.take(0), raw@) =~= Seq::<bool>::empty());
    while k < chs.len()
        invariant
            chs@.len() <= MAX_STREAM_CHANNELS,
            n == out@.len(),
            start + spec_packed_data_len(chs@) <= n,
            p0 == start + int_data(chs@, raw@).len(),
            int_data(chs@, raw@).len() == layout_counts(chs@).0,
            total_bits == bit_flags(chs@, raw@),
            total_bits.len() == layout_counts(chs@).1,
            k <= chs@.len(),
            count < 8,
            0 <= full,
            bit_flags(chs@.take(k as int), raw@).len() == 8 * full + count,
            pos == p0 + full,
            acc == bits_byte(bit_flags(chs@.take(k as int), raw@).skip(8 * full)),
            out@.subrange(p0 as int, pos as int) == pack_bits(
                bit_flags(chs@.take(k as int), raw@).take(8 * full),
            ),
            forall|j: int| 0 <= j < p0 ==> out@[j] == mid[j],
            forall|j: int| pos <= j < n ==> out@[j] == mid[j],
        decreases chs@.len() - k,
    {
        let ch = chs[k];
        let ghost before = bit_flags(chs@.take(k as int), raw@);
        proof {
            assert(chs@.take(k + 1).drop_last() =~= chs@.take(k as int));
            lemma_bit_flags_prefix(chs@, raw@, k + 1);
            lemma_pack_len(before.take(8 * full));
        }
        match channel_wire(ch) {
            Some(WireType::Bit) => {
                let v: u16 = if (ch as usize) < raw.len() {
                    raw[ch as usize]
                } else {
                    0
                };
                let ghost after = before.push(v != 0);
                assert(bit_flags(chs@.take(k + 1), raw@) =~= after);
                let ghost cur = before.skip(8 * full);
                let ghost nxt = cur.push(v != 0);
                assert(after.skip(8 * full) =~= nxt);
                assert(nxt.drop_last() =~= cur);
                assert(nxt.len() - 1 == count);
                assert(bits_byte(nxt) == if v != 0 {
                    bits_byte(cur) | (1u8 << count)
                } else {
                    bits_byte(cur)
                });
                if v != 0 {
                    acc = acc | (1u8 << count);
                }
                count = count + 1;
                assert(after.take(8 * full) =~= before.take(8 * full));
                if count == 8 {
                    proof {
                        assert(8 * full + 8 <= total_bits.len());
                        assert(full + 1 <= (total_bits.len() + 7) / 8);
                    }
                    let ghost prev = out@;
                    out[pos] = acc;
                    proof {
                        let done = after.take(8 * full);
                        let chunk = after.skip(8 * full);
                        assert(after.take(8 * (full + 1)) =~= done + chunk);
                        lemma_pack_concat(done, chunk);
                        assert(chunk.take(8) =~= chunk);
                        assert(out@.subrange(p0 as int, pos as int) =~= prev.subrange(
                            p0 as int,
                            pos as int,
                        ));
                        assert(out@.subrange(p0 as int, pos + 1) =~= pack_bits(done) + seq![acc]);
                        full = full + 1;
                        assert(after.skip(8 * full) =~= Seq::<bool>::empty());
                    }
                    pos = pos + 1;
                    acc = 0;
                    count = 0;
                }
            },
            _ => {
                assert(bit_flags(chs@.take(k + 1), raw@) =~= before);
            },
        }
        k += 1;
    }
    assert(chs@.take(chs@.len() as int) =~= chs@);
    proof {
        lemma_pack_len(total_bits.take(8 * full));
        lemma_pack_len(total_bits);
    }
    if count > 0 {
        proof {
            assert(8 * full + 1 <= total_bits.len());
            assert(full + 1 <= (total_bits.len() + 7) / 8);
        }
        let ghost prev = out@;
        out[pos] = acc;
        proof {
            let done = total_bits.take(8 * full);
            let rest = total_bits.skip(8 * full);
            assert(total_bits =~= done + rest);
            lemma_pack_concat(done, rest);
            assert(out@.subrange(p0 as int, pos as int) =~= prev.subrange(p0 as int, pos as int));
            assert(out@.subrange(p0 as int, pos + 1) =~= pack_bits(total_bits));
        }
        pos = pos + 1;
    } else {
        proof {
            assert(total_bits.take(8 * full) =~= total_bits);
        }
    }
    proof {
        assert(out@.subrange(start as int, pos as int) =~= out@.subrange(start as int, p0 as int)
            + out@.subrange(p0 as int, pos as int));
        assert(out@.subrange(start as int, p0 as int) =~= mid.subrange(start as int, p0 as int));
        assert(out@.take(start as int) =~= orig.take(start as int));
        assert(out@.skip(pos as int) =~= orig.skip(pos as int));
    }
    pos
}

proof fn lemma_int_data_prefix(chs: Seq<u16>, raw: Seq<u16>, k: int)
    requires
        0 <= k <= chs.len(),
    ensures
        int_data(chs.take(k), raw).len() <= int_data(chs, raw).len(),
    decreases chs.len() - k,
{
    if k < chs.len() {
        lemma_int_data_prefix(chs, raw, k + 1);
        assert(chs.take(k + 1).drop_last() =~= chs.take(k));
    } else {
        assert(chs.take(k) =~= chs);
    }
}

proof fn lemma_bit_flags_prefix(chs: Seq<u16>, raw: Seq<u16>, k: int)
    requires
        0 <= k <= chs.len(),
    ensures
        bit_flags(chs.take(k), raw).len() <= bit_flags(chs, raw).len(),
    decreases chs.len() - k,
{
    if k < chs.len() {
        lemma_bit_flags_prefix(chs, raw, k + 1);
        assert(chs.take(k + 1).drop_last() =~= chs.take(k));
    } else {
        assert(chs.take(k) =~= chs);
    }
}

/// Channel layout of one stream (a `heapless::Vec` of capacity
/// [`MAX_STREAM_CHANNELS`]).
#[verifier::external_body]
pub struct StreamChannels {
    inner: heapless::Vec<u16, MAX_STREAM_CHANNELS>,
}

/// The channel IDs held by a [`StreamChannels`], in order.
pub uninterp spec fn stream_channels(c: StreamChannels) -> Seq<u16>;

impl StreamChannels {
    /// `heapless::Vec::new`: an empty vector.
    #[verifier::external_body]
    fn new() -> (r: Self)
        ensures
            stream_channels(r) == Seq::<u16>::empty(),
    {
        StreamChannels { inner: heapless::Vec::new() }
    }

    /// `heapless::Vec::push`: appends when below capacity, else hands the
    /// item back and changes nothing.
    #[verifier::external_body]
    fn push(&mut self, ch: u16) -> (r: Result<(), u16>)
        ensures
            r is Ok <==> stream_channels(*old(self)).len() < MAX_STREAM_CHANNELS,
            r matches Err(back) ==> back == ch,
            r is Ok ==> stream_channels(*final(self)) == stream_channels(*old(self)).push(ch),
            r is Err ==> stream_channels(*final(self)) == stream_channels(*old(self)),
    {
        self.inner.push(ch)
    }

    /// `heapless::Vec::as_slice`: the stored items.
    #[verifier::external_body]
    fn as_slice(&self) -> (r: &[u16])
        ensures
            r@ == stream_channels(*self),
            r@.len() <= MAX_STREAM_CHANNELS,
    {
        self.inner.as_slice()
    }
}

/// Abstract state of one subscription stream.
pub struct StreamModel {
    /// Channel IDs in frame order.
    pub channels: Seq<u16>,
    /// Push interval (ms).
    pub interval_ms: u32,
    /// Time the next frame is due (ms since boot).
    pub next_due_ms: u32,
    /// Sequence number of the next frame.
    pub seq: u16,
}

struct Stream {
    channels: StreamChannels,
    interval_ms: u32,
    next_due_ms: u32,
    seq: u16,
}

// The abstract state of a stream slot.
spec fn slot_model(s: Option<Stream>) -> Option<StreamModel> {
    match s {
        Some(st) => Some(
            StreamModel {
                channels: stream_channels(st.channels),
                interval_ms: st.interval_ms,
                next_due_ms: st.next_due_ms,
                seq: st.seq,
            },
        ),
        None => None,
    }
}

/// Index of the first channel of `channels` missing from the catalog.
pub open spec fn first_bad_channel(channels: Seq<u16>) -> Option<int>
    decreases channels.len(),
{
    if channels.len() == 0 {
        None
    } else if spec_channel_wire(channels[0]) is None {
        Some(0)
    } else {
        match first_bad_channel(channels.drop_first()) {
            Some(i) => Some(i + 1),
            None => None,
        }
    }
}

/// Index of the first free slot.
pub open spec fn first_free(slots: Seq<Option<StreamModel>>) -> Option<int>
    decreases slots.len(),
{
    if slots.len() == 0 {
        None
    } else if slots[0] is None {
        Some(0)
    } else {
        match first_free(slots.drop_first()) {
            Some(i) => Some(i + 1),
            None => None,
        }
    }
}

/// `rate_hz` clamped to 1..=[`MAX_RATE_HZ`].
pub open spec fn clamp_rate(rate_hz: u16) -> u16 {
    if rate_hz < 1 {
        1
    } else if rate_hz > MAX_RATE_HZ {
        MAX_RATE_HZ
    } else {
        rate_hz
    }
}

/// A stream table with nothing subscribed.
pub open spec fn no_streams() -> Seq<Option<StreamModel>> {
    Seq::new(MAX_STREAMS as nat, |_i: int| None::<StreamModel>)
}

/// A slot holding a stream whose next frame is due at `now_ms`.
pub open spec fn is_due(s: Option<StreamModel>, now_ms: u32) -> bool {
    s matches Some(st) && now_ms >= st.next_due_ms
}

/// Index of the first slot whose stream is due.
pub open spec fn first_due(slots: Seq<Option<StreamModel>>, now_ms: u32) -> Option<int>
    decreases slots.len(),
{
    if slots.len() == 0 {
        None
    } else if is_due(slots[0], now_ms) {
        Some(0)
    } else {
        match first_due(slots.drop_first(), now_ms) {
            Some(i) => Some(i + 1),
            None => None,
        }
    }
}

/// The 7-byte frame header: stream ID, sequence number and timestamp
/// (little-endian).
pub open spec fn frame_header(id: u8, seq: u16, now_ms: u32) -> Seq<u8> {
    seq![id] + le16(seq) + le32(now_ms)
}

/// Manager for active telemetry subscriptions.
pub struct TelemetryStreams {
    slots: [Option<Stream>; MAX_STREAMS],
}

impl View for TelemetryStreams {
    type V = Seq<Option<StreamModel>>;

    closed spec fn view(&self) -> Seq<Option<StreamModel>> {
        self.slots@.map_values(|s: Option<Stream>| slot_model(s))
    }
}

impl TelemetryStreams {
    /// Create an empty stream table.
    pub fn new() -> (r: Self)
        ensures
            r@ == no_streams(),
    {
        let r = TelemetryStreams { slots: [None, None, None, None] };
        assert(r@ =~= no_streams());
        r
    }

    /// Register a new stream. Returns `(stream_id, actual_rate_hz)`: the
    /// stream takes the first free slot (IDs are 1-based on the wire) and
    /// pushes every `1000 / rate` ms from `now_ms`, the rate clamped to
    /// 1..=[`MAX_RATE_HZ`].
    pub fn subscribe(&mut self, channels: &[u16], rate_hz: u16, now_ms: u32) -> (r: Result<
        (u8, u16),
        SubscribeError,
    >)
        ensures
            channels@.len() > MAX_STREAM_CHANNELS ==> r == Err::<(u8, u16), SubscribeError>(
                SubscribeError::TooManyChannels,
            ) && final(self)@ == old(self)@,
            channels@.len() <= MAX_STREAM_CHANNELS ==> match first_bad_channel(channels@) {
                Some(k) => r == Err::<(u8, u16), SubscribeError>(
                    SubscribeError::BadChannel(channels@[k]),
                ) && final(self)@ == old(self)@,
                None => match first_free(old(self)@) {
                    None => r == Err::<(u8, u16), SubscribeError>(SubscribeError::NoFreeStream)
                        && final(self)@ == old(self)@,
                    Some(i) => r == Ok::<(u8, u16), SubscribeError>(
                        ((i + 1) as u8, clamp_rate(rate_hz)),
                    ) && final(self)@ == old(self)@.update(
                        i,
                        Some(
                            StreamModel {
                                channels: channels@,
                                interval_ms: (1000int / clamp_rate(rate_hz) as int) as u32,
                                next_due_ms: now_ms,
                                seq: 0,
                            },
                        ),
                    ),
                },
            },
    {
        if channels.len() > MAX_STREAM_CHANNELS {
            return Err(SubscribeError::TooManyChannels);
        }
        let mut layout = StreamChannels::new();
        let mut k: usize = 0;
        while k < channels.len()
            invariant
                k <= channels@.len() <= MAX_STREAM_CHANNELS,
                stream_channels(layout) == channels@.take(k as int),
                forall|j: int| 0 <= j < k ==> spec_channel_wire(#[trigger] channels@[j]) is Some,
            decreases channels@.len() - k,
        {
            let ch = channels[k];
            if channel_wire(ch).is_none() {
                proof {
                    lemma_first_bad_channel(channels@, k as int);
                }
                return Err(SubscribeError::BadChannel(ch));
            }
            let _ = layout.push(ch);
            assert(channels@.take(k + 1) =~= channels@.take(k as int).push(ch));
            k += 1;
        }
        proof {
            lemma_first_bad_channel(channels@, channels@.len() as int);
            assert(channels@.take(channels@.len() as int) =~= channels@);
        }
        let rate: u16 = if rate_hz < 1 {
            1
        } else if rate_hz > MAX_RATE_HZ {
            MAX_RATE_HZ
        } else {
            rate_hz
        };
        let mut idx: usize = 0;
        while idx < MAX_STREAMS && self.slots[idx].is_some()
            invariant
                idx <= MAX_STREAMS,
                self.slots@.len() == MAX_STREAMS,
                forall|j: int| 0 <= j < idx ==> #[trigger] self@[j] is Some,
            decreases MAX_STREAMS - idx,
        {
            idx += 1;
        }
        proof {
            lemma_first_free(self@, idx as int);
        }
        if idx == MAX_STREAMS {
            return Err(SubscribeError::NoFreeStream);
        }
        let interval_ms = 1000 / rate as u32;
        let stream = Stream { channels: layout, interval_ms, next_due_ms: now_ms, seq: 0 };
        self.slots[idx] = Some(stream);
        proof {
            assert(self@ =~= old(self)@.update(
                idx as int,
                Some(
                    StreamModel {
                        channels: channels@,
                        interval_ms: (1000int / clamp_rate(rate_hz) as int) as u32,
                        next_due_ms: now_ms,
                        seq: 0,
                    },
                ),
            ));
        }
        Ok((idx as u8 + 1, rate))
    }

    /// Remove a stream. Returns `false` for an unknown ID.
    pub fn unsubscribe(&mut self, stream_id: u8) -> (r: bool)
        ensures
            r == (1 <= stream_id <= MAX_STREAMS && old(self)@[stream_id - 1] is Some),
            r ==> final(self)@ == old(self)@.update(stream_id - 1, None),
            !r ==> final(self)@ == old(self)@,
    {
        if stream_id == 0 {
            return false;
        }
        let idx = (stream_id - 1) as usize;
        if idx >= MAX_STREAMS || self.slots[idx].is_none() {
            return false;
        }
        self.slots[idx] = None;
        assert(self@ =~= old(self)@.update(stream_id - 1, None));
        true
    }

    /// Drop all streams (e.g. on transport disconnect).
    pub fn clear(&mut self)
        ensures
            final(self)@ == no_streams(),
    {
        self.slots = [None, None, None, None];
        assert(self@ =~= no_streams());
    }

    /// Whether the stream in slot `idx` is due at `now_ms`.
    fn slot_due(&self, idx: usize, now_ms: u32) -> (r: bool)
        requires
            idx < MAX_STREAMS,
        ensures
            r == is_due(self@[idx as int], now_ms),
    {
        match &self.slots[idx] {
            Some(st) => now_ms >= st.next_due_ms,
            None => false,
        }
    }

    /// Encode the next due frame body into `out`, if any stream is due.
    ///
    /// The first due stream (in slot order) is rescheduled one interval
    /// after `now_ms`; when `out` has room, the body is written:
    /// `stream_id(u8) seq(u16 LE) ts_ms(u32 LE) data...`, where `data` packs
    /// the integer channels in layout order followed by the bit channels
    /// packed LSB-first into trailing bytes, and the stream's sequence number
    /// advances. `raw[id]` is the wire word of channel `id` (its `u16` or
    /// `i16` bits; a bit channel is set when non-zero).
    pub fn encode_due_frame(&mut self, raw: &[u16], now_ms: u32, out: &mut [u8]) -> (r: Option<
        usize,
    >)
        ensures
            match first_due(old(self)@, now_ms) {
                None => r is None && final(self)@ == old(self)@ && final(out)@ == old(out)@,
                Some(i) => match old(self)@[i] {
                    Some(st) => {
                        let moved = StreamModel {
                            next_due_ms: vstd::wrapping::u32_specs::wrapping_add(
                                now_ms,
                                st.interval_ms,
                            ),
                            ..st
                        };
                        let n = 7 + spec_packed_data_len(st.channels);
                        if old(out)@.len() < n {
                            r is None && final(self)@ == old(self)@.update(i, Some(moved))
                                && final(out)@ == old(out)@
                        } else {
                            &&& r == Some(n as usize)
                            &&& final(self)@ == old(self)@.update(
                                i,
                                Some(
                                    StreamModel {
                                        seq: vstd::wrapping::u16_specs::wrapping_add(st.seq, 1),
                                        ..moved
                                    },
                                ),
                            )
                            &&& final(out)@.len() == old(out)@.len()
                            &&& final(out)@.take(n as int) == frame_header(
                                (i + 1) as u8,
                                st.seq,
                                now_ms,
                            ) + frame_data(st.channels, raw@)
                            &&& final(out)@.skip(n as int) == old(out)@.skip(n as int)
                        }
                    },
                    None => false,
                },
            },
    {
        let mut idx: usize = 0;
        while idx < MAX_STREAMS && !self.slot_due(idx, now_ms)
            invariant
                idx <= MAX_STREAMS,
                self@.len() == MAX_STREAMS,
                forall|j: int| 0 <= j < idx ==> !is_due(#[trigger] self@[j], now_ms),
            decreases MAX_STREAMS - idx,
        {
            idx += 1;
        }
        proof {
            lemma_first_due(self@, now_ms, idx as int);
        }
        if idx == MAX_STREAMS {
            return None;
        }
        assert(self@[idx as int] == slot_model(self.slots@[idx as int]));
        assert(self.slots@[idx as int] is Some);
        let st = match self.slots[idx].take() {
            Some(st) => st,
            None => {
                return None;
            },
        };
        let next_due_ms = now_ms.wrapping_add(st.interval_ms);
        let layout = st.channels.as_slice();
        proof {
            lemma_layout_counts_bound(layout@);
        }
        let frame_len = 7 + packed_data_len(layout);
        if out.len() < frame_len {
            self.slots[idx] = Some(
                Stream {
                    channels: st.channels,
                    interval_ms: st.interval_ms,
                    next_due_ms,
                    seq: st.seq,
                },
            );
            assert(self@ =~= old(self)@.update(
                idx as int,
                Some(
                    StreamModel {
                        next_due_ms: vstd::wrapping::u32_specs::wrapping_add(
                            now_ms,
                            old(self)@[idx as int]->0.interval_ms,
                        ),
                        ..old(self)@[idx as int]->0
                    },
                ),
            ));
            return None;
        }
        let ghost orig = out@;
        let seq = st.seq;
        out[0] = (idx + 1) as u8;
        out[1] = (seq % 256) as u8;
        out[2] = (seq / 256) as u8;
        out[3] = (now_ms % 256) as u8;
        out[4] = ((now_ms / 256) % 256) as u8;
        out[5] = ((now_ms / 65536) % 256) as u8;
        out[6] = (now_ms / 16777216) as u8;
        let ghost hdr = out@;
        assert(hdr.take(7) =~= frame_header((idx + 1) as u8, seq, now_ms));
        let end = write_data(st.channels.as_slice(), raw, out, 7);
        proof {
            assert(out@.take(7) =~= hdr.take(7));
            assert(out@.take(end as int) =~= out@.take(7) + out@.subrange(7, end as int));
            assert(out@.skip(end as int) =~= orig.skip(end as int));
        }
        self.slots[idx] = Some(
            Stream {
                channels: st.channels,
                interval_ms: st.interval_ms,
                next_due_ms,
                seq: seq.wrapping_add(1),
            },
        );
        assert(self@ =~= old(self)@.update(
            idx as int,
            Some(
                StreamModel {
                    seq: vstd::wrapping::u16_specs::wrapping_add(old(self)@[idx as int]->0.seq, 1),
                    next_due_ms: vstd::wrapping::u32_specs::wrapping_add(
                        now_ms,
                        old(self)@[idx as int]->0.interval_ms,
                    ),
                    ..old(self)@[idx as int]->0
                },
            ),
        ));
        Some(end)
    }

    /// Number of active streams.
    pub fn active(&self) -> (r: usize)
        ensures
            r == self@.filter(|s: Option<StreamModel>| s is Some).len(),
    {
        let mut n: usize = 0;
        let mut i: usize = 0;
        while i < MAX_STREAMS
            invariant
                i <= MAX_STREAMS,
                self.slots@.len() == MAX_STREAMS,
                n == self@.take(i as int).filter(|s: Option<StreamModel>| s is Some).len(),
                n <= i,
            decreases MAX_STREAMS - i,
        {
            proof {
                reveal(Seq::filter);
                assert(self@.take(i + 1).drop_last() =~= self@.take(i as int));
            }
            if self.slots[i].is_some() {
                n += 1;
            }
            i += 1;
        }
        assert(self@.take(MAX_STREAMS as int) =~= self@);
        n
    }
}

proof fn lemma_first_due(slots: Seq<Option<StreamModel>>, now_ms: u32, k: int)
    requires
        0 <= k <= slots.len(),
        forall|j: int| 0 <= j < k ==> !is_due(#[trigger] slots[j], now_ms),
    ensures
        k < slots.len() && is_due(slots[k], now_ms) ==> first_due(slots, now_ms) == Some(k),
        k == slots.len() ==> first_due(slots, now_ms) is None,
    decreases k,
{
    if k > 0 {
        let t = slots.drop_first();
        assert forall|j: int| 0 <= j < k - 1 implies !is_due(#[trigger] t[j], now_ms) by {
            assert(t[j] == slots[j + 1]);
        }
        if k < slots.len() {
            assert(t[k - 1] == slots[k]);
        }
        lemma_first_due(t, now_ms, k - 1);
    }
}

impl Default for TelemetryStreams {
    fn default() -> (r: Self)
        ensures
            r@ == no_streams(),
    {
        TelemetryStreams::new()
    }
}

pub(crate) proof fn lemma_first_bad_channel(channels: Seq<u16>, k: int)
    requires
        0 <= k <= channels.len(),
        forall|j: int| 0 <= j < k ==> spec_channel_wire(#[trigger] channels[j]) is Some,
    ensures
        k < channels.len() && spec_channel_wire(channels[k]) is None ==> first_bad_channel(channels)
            == Some(k),
        k == channels.len() ==> first_bad_channel(channels) is None,
    decreases k,
{
    if k > 0 {
        let t = channels.drop_first();
        assert forall|j: int| 0 <= j < k - 1 implies spec_channel_wire(#[trigger] t[j]) is Some by {
            assert(t[j] == channels[j + 1]);
        }
        if k < channels.len() {
            assert(t[k - 1] == channels[k]);
        }
        lemma_first_bad_channel(t, k - 1);
    }
}

proof fn lemma_first_free(slots: Seq<Option<StreamModel>>, k: int)
    requires
        0 <= k <= slots.len(),
        forall|j: int| 0 <= j < k ==> #[trigger] slots[j] is Some,
    ensures
        k < slots.len() && slots[k] is None ==> first_free(slots) == Some(k),
        k == slots.len() ==> first_free(slots) is None,
    decreases k,
{
    if k > 0 {
        let t = slots.drop_first();
        assert forall|j: int| 0 <= j < k - 1 implies #[trigger] t[j] is Some by {
            assert(t[j] == slots[j + 1]);
        }
        if k < slots.len() {
            assert(t[k - 1] == slots[k]);
        }
        lemma_first_free(t, k - 1);
    }
}

/// The packed data of any layout is exactly as long as
/// [`packed_data_len`] computes, whatever the channel values.
pub proof fn lemma_frame_data_len(chs: Seq<u16>, raw: Seq<u16>)
    ensures
        frame_data(chs, raw).len() == spec_packed_data_len(chs),
{
    lemma_data_lens(chs, raw);
    lemma_pack_len(bit_flags(chs, raw));
}

} // verus!
