//! The 4-bit checksum over the sensor's calibration memory.
//!
//! The vendor's application note defines the check bit-exactly: a 16-bit
//! accumulator absorbs, one byte at a time, the two bytes of each of the
//! words holding the reserved manufacturer value and the six coefficients,
//! then the high byte of the last word, then a literal zero standing in for
//! that word's low byte (whose low nibble stores the checksum itself).  The
//! top four bits of the accumulator are the computed checksum.

use vstd::prelude::*;

verus! {

/// One shift step of the accumulator: shift left, folding the bit shifted
/// out back in as the constant `0x3000`.
pub open spec fn crc_step(s: u16) -> u16 {
    if s & 0x8000 != 0 {
        ((s << 1) ^ 0x3000) as u16
    } else {
        (s << 1) as u16
    }
}

/// `n` shift steps of the accumulator.
pub open spec fn crc_steps(s: u16, n: nat) -> u16
    decreases n,
{
    if n == 0 {
        s
    } else {
        crc_step(crc_steps(s, (n - 1) as nat))
    }
}

/// Absorb one byte: XOR it into the accumulator, then take eight shift steps.
pub open spec fn crc_absorb(s: u16, b: u8) -> u16 {
    crc_steps(s ^ (b as u16), 8)
}

/// The sixteen bytes the checksum runs over, given the eight calibration
/// words: high then low byte of the first seven words, then the high byte of
/// the last word, then a zero in place of that word's low byte.
pub open spec fn spec_prom_crc_bytes(ws: Seq<u16>) -> Seq<u8> {
    Seq::new(16, |i: int|
        if i < 14 {
            if i % 2 == 0 {
                (ws[i / 2] >> 8) as u8
            } else {
                (ws[i / 2] & 0xff) as u8
            }
        } else if i == 14 {
            (ws[7] >> 8) as u8
        } else {
            0u8
        })
}

/// Accumulator after absorbing the first `n` bytes, starting from zero.
pub open spec fn crc_fold_upto(bytes: Seq<u8>, n: int) -> u16
    decreases n,
{
    if n <= 0 {
        0
    } else {
        crc_absorb(crc_fold_upto(bytes, n - 1), bytes[n - 1])
    }
}

/// The computed 4-bit checksum of eight calibration words.
pub open spec fn spec_crc4(ws: Seq<u16>) -> u16 {
    crc_fold_upto(spec_prom_crc_bytes(ws), 16) >> 12
}

/// Absorb one byte into the running accumulator.
fn crc_accumulate_byte(crc: u16, byte: u8) -> (r: u16)
    ensures
        r == crc_absorb(crc, byte),
{
    let mut c: u16 = crc ^ (byte as u16);
    let mut i: usize = 0;
    while i < 8
        invariant
            i <= 8,
            c == crc_steps(crc ^ (byte as u16), i as nat),
        decreases 8 - i,
    {
        if c & 0x8000 != 0 {
            c = (c << 1) ^ 0x3000;
        } else {
            c = c << 1;
        }
        i = i + 1;
    }
    c
}

/// Compute the 4-bit checksum of the eight calibration words.
pub fn crc4(words: &Vec<u16>) -> (r: u16)
    requires
        words.len() == 8,
    ensures
        r == spec_crc4(words@),
        r < 16,
{
    let ghost bytes = spec_prom_crc_bytes(words@);
    let mut c: u16 = 0;
    let mut i: usize = 0;
    while i < 7
        invariant
            words.len() == 8,
            i <= 7,
            c == crc_fold_upto(bytes, 2 * i),
            bytes == spec_prom_crc_bytes(words@),
        decreases 7 - i,
    {
        let w: u16 = words[i];
        proof {
            assert(w >> 8 < 256 && (w & 0xff) < 256) by (bit_vector);
            assert(bytes[2 * i] == (w >> 8) as u8);
            assert(bytes[2 * i + 1] == (w & 0xff) as u8);
            assert(crc_fold_upto(bytes, 2 * i + 1) == crc_absorb(
                crc_fold_upto(bytes, 2 * i as int),
                bytes[2 * i as int],
            ));
            assert(crc_fold_upto(bytes, 2 * i + 2) == crc_absorb(
                crc_fold_upto(bytes, 2 * i + 1),
                bytes[2 * i + 1],
            ));
        }
        c = crc_accumulate_byte(c, (w >> 8) as u8);
        c = crc_accumulate_byte(c, (w & 0xff) as u8);
        i = i + 1;
    }
    let w7: u16 = words[7];
    proof {
        assert(w7 >> 8 < 256) by (bit_vector);
        assert(bytes[14] == (w7 >> 8) as u8);
        assert(bytes[15] == 0u8);
        assert(crc_fold_upto(bytes, 15) == crc_absorb(crc_fold_upto(bytes, 14), bytes[14]));
        assert(crc_fold_upto(bytes, 16) == crc_absorb(crc_fold_upto(bytes, 15), bytes[15]));
    }
    c = crc_accumulate_byte(c, (w7 >> 8) as u8);
    c = crc_accumulate_byte(c, 0);
    let r: u16 = c >> 12;
    proof {
        assert(c >> 12 < 16) by (bit_vector);
    }
    r
}

} // verus!
