//! CRC-16/CCITT-FALSE: polynomial `0x1021`, init `0xFFFF`, no reflection, no
//! final XOR. Check value for `"123456789"` is `0x29B1`.
use vstd::prelude::*;

verus! {

/// Generator polynomial.
pub const POLY: u16 = 0x1021;
/// Initial register value.
pub const INIT: u16 = 0xFFFF;

/// One shift step of the CRC register.
pub open spec fn crc16_shift(crc: u16) -> u16 {
    if crc & 0x8000 != 0 {
        ((crc << 1u16) ^ POLY) as u16
    } else {
        (crc << 1u16) as u16
    }
}

/// `n` shift steps of the CRC register.
pub open spec fn crc16_shifts(crc: u16, n: nat) -> u16
    decreases n,
{
    if n == 0 {
        crc
    } else {
        crc16_shift(crc16_shifts(crc, (n - 1) as nat))
    }
}

/// Feed one byte into the CRC register.
pub open spec fn crc16_byte(crc: u16, byte: u8) -> u16 {
    crc16_shifts((crc ^ ((byte as u16) << 8u16)) as u16, 8)
}

/// CRC register after feeding `data` starting from `crc`.
pub open spec fn crc16_from(crc: u16, data: Seq<u8>) -> u16
    decreases data.len(),
{
    if data.len() == 0 {
        crc
    } else {
        crc16_byte(crc16_from(crc, data.drop_last()), data.last())
    }
}

/// The CRC-16/CCITT-FALSE checksum of `data`.
pub open spec fn spec_crc16(data: Seq<u8>) -> u16 {
    crc16_from(INIT, data)
}

/// Compute the CRC-16/CCITT-FALSE checksum over `data`.
pub fn crc16_ccitt(data: &[u8]) -> (crc: u16)
    ensures
        crc == spec_crc16(data@),
{
    let mut crc: u16 = INIT;
    let mut i: usize = 0;
    while i < data.len()
        invariant
            i <= data.len(),
            crc == crc16_from(INIT, data@.take(i as int)),
        decreases data.len() - i,
    {
        let byte = data[i];
        let start: u16 = crc ^ ((byte as u16) << 8u16);
        crc = start;
        let mut bit: u8 = 0;
        while bit < 8
            invariant
                bit <= 8,
                crc == crc16_shifts(start, bit as nat),
            decreases 8 - bit,
        {
            crc = if crc & 0x8000 != 0 {
                (crc << 1u16) ^ POLY
            } else {
                crc << 1u16
            };
            bit += 1;
        }
        assert(data@.take(i + 1).drop_last() =~= data@.take(i as int));
        i += 1;
    }
    assert(data@.take(data.len() as int) =~= data@);
    crc
}

} // verus!
