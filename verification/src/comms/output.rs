//! Live output channels (telemetry) served to TunerStudio gauges, packed
//! into a fixed big-endian byte block. Each channel is scaled so it fits in
//! 16 bits; the matching offsets and scales are declared in the generated
//! TunerStudio INI `[OutputChannels]` section.
use vstd::prelude::*;

verus! {

/// Number of bytes in the serialized output-channel block.
pub const OUTPUT_CHANNELS_LEN: usize = 20;

/// The output channels in their scaled wire form.
#[derive(Clone, Copy, Debug, PartialEq, Eq, Structural)]
pub struct OutputChannelWords {
    /// Engine speed (RPM).
    pub rpm: u16,
    /// Coolant temperature (0.1 °C).
    pub clt: i16,
    /// Intake air temperature (0.1 °C).
    pub iat: i16,
    /// Manifold absolute pressure (0.1 kPa).
    pub map: u16,
    /// Throttle position (0.1 %).
    pub tps: u16,
    /// Battery voltage (0.01 V).
    pub battery: u16,
    /// Measured lambda (0.001).
    pub lambda: u16,
    /// Injector pulse width (0.01 ms).
    pub inj_pulse: u16,
    /// Ignition advance (0.1 ° BTDC).
    pub advance: i16,
    /// Spark is cut by the RPM limiter.
    pub spark_cut: bool,
    /// Sequential injection is active.
    pub sequential: bool,
}

/// `v` as two big-endian bytes.
pub open spec fn be16_bytes(v: u16) -> Seq<u8> {
    seq![(v / 256) as u8, (v % 256) as u8]
}

/// The bits of `v` as a `u16`.
pub open spec fn i16_bits(v: i16) -> u16 {
    if v < 0 {
        (v + 65536) as u16
    } else {
        v as u16
    }
}

/// Write `v` big-endian at `buf[at..at + 2]`.
pub fn put_u16(buf: &mut [u8], at: usize, v: u16)
    requires
        at + 2 <= old(buf)@.len(),
    ensures
        final(buf)@ == old(buf)@.update(at as int, be16_bytes(v)[0]).update(
            at + 1,
            be16_bytes(v)[1],
        ),
{
    buf[at] = (v / 256) as u8;
    buf[at + 1] = (v % 256) as u8;
}

/// Write `v` big-endian (two's complement) at `buf[at..at + 2]`.
pub fn put_i16(buf: &mut [u8], at: usize, v: i16)
    requires
        at + 2 <= old(buf)@.len(),
    ensures
        final(buf)@ == old(buf)@.update(at as int, be16_bytes(i16_bits(v))[0]).update(
            at + 1,
            be16_bytes(i16_bits(v))[1],
        ),
{
    let bits: u16 = if v < 0 {
        (v as i32 + 65536) as u16
    } else {
        v as u16
    };
    put_u16(buf, at, bits);
}

/// The flags byte: bit 0 spark cut, bit 1 sequential.
pub open spec fn flags_byte(w: OutputChannelWords) -> u8 {
    ((if w.spark_cut {
        1u8
    } else {
        0u8
    }) + (if w.sequential {
        2u8
    } else {
        0u8
    })) as u8
}

/// The serialized block: the nine channels big-endian in declaration order,
/// the flags byte, then a reserved zero byte.
pub open spec fn output_block(w: OutputChannelWords) -> Seq<u8> {
    be16_bytes(w.rpm) + be16_bytes(i16_bits(w.clt)) + be16_bytes(i16_bits(w.iat)) + be16_bytes(w.map)
        + be16_bytes(w.tps) + be16_bytes(w.battery) + be16_bytes(w.lambda) + be16_bytes(
        w.inj_pulse,
    ) + be16_bytes(i16_bits(w.advance)) + seq![flags_byte(w), 0u8]
}

impl OutputChannelWords {
    /// Serialize into the fixed big-endian layout at the front of `buf`.
    /// Returns the number of bytes written, or `None` (writing nothing) if
    /// `buf` is shorter than [`OUTPUT_CHANNELS_LEN`].
    pub fn write_to(&self, buf: &mut [u8]) -> (r: Option<usize>)
        ensures
            final(buf)@.len() == old(buf)@.len(),
            old(buf)@.len() < OUTPUT_CHANNELS_LEN ==> r is None && final(buf)@ == old(buf)@,
            old(buf)@.len() >= OUTPUT_CHANNELS_LEN ==> r == Some(OUTPUT_CHANNELS_LEN)
                && final(buf)@.take(OUTPUT_CHANNELS_LEN as int) == output_block(*self)
                && final(buf)@.skip(OUTPUT_CHANNELS_LEN as int) == old(buf)@.skip(
                OUTPUT_CHANNELS_LEN as int,
            ),
    {
        if buf.len() < OUTPUT_CHANNELS_LEN {
            return None;
        }
        put_u16(buf, 0, self.rpm);
        put_i16(buf, 2, self.clt);
        put_i16(buf, 4, self.iat);
        put_u16(buf, 6, self.map);
        put_u16(buf, 8, self.tps);
        put_u16(buf, 10, self.battery);
        put_u16(buf, 12, self.lambda);
        put_u16(buf, 14, self.inj_pulse);
        put_i16(buf, 16, self.advance);
        let mut flags = 0u8;
        if self.spark_cut {
            flags = flags + 1;
        }
        if self.sequential {
            flags = flags + 2;
        }
        buf[18] = flags;
        buf[19] = 0;
        assert(buf@.take(OUTPUT_CHANNELS_LEN as int) =~= output_block(*self));
        assert(buf@.skip(OUTPUT_CHANNELS_LEN as int) =~= old(buf)@.skip(
            OUTPUT_CHANNELS_LEN as int,
        ));
        Some(OUTPUT_CHANNELS_LEN)
    }

    /// Serialize into a fresh block.
    pub fn to_bytes(&self) -> (r: [u8; OUTPUT_CHANNELS_LEN])
        ensures
            r@ == output_block(*self),
    {
        let mut buf = [0u8; 20];
        let _ = self.write_to(&mut buf);
        buf
    }
}

} // verus!
