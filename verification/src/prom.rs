//! Factory calibration data and its checksum validation.
//!
//! The sensor's read-only memory holds eight 16-bit big-endian words: a
//! reserved manufacturer word, the six calibration coefficients, and a final
//! word whose low nibble stores a 4-bit checksum over the set.  A `Prom`
//! value exists only for word sets that passed that check.

use vstd::prelude::*;

use crate::crc::spec_crc4;
use crate::crc::spec_prom_crc_bytes;
use crate::crc::crc4;

verus! {

/// The six factory-calibrated coefficients, in datasheet order C1 to C6.
#[derive(Clone, Copy, Debug, PartialEq, Eq, Structural)]
pub struct Prom {
    /// C1, pressure sensitivity.
    pub pressure_sensitivity: u16,
    /// C2, pressure offset.
    pub pressure_offset: u16,
    /// C3, temperature coefficient of pressure sensitivity.
    pub temp_coef_pressure_sensitivity: u16,
    /// C4, temperature coefficient of pressure offset.
    pub temp_coef_pressure_offset: u16,
    /// C5, reference temperature.
    pub temp_ref: u16,
    /// C6, temperature coefficient of temperature.
    pub temp_coef_temp: u16,
}

/// The coefficients held in words 1 through 6 of a calibration word set.
pub open spec fn spec_prom_of(ws: Seq<u16>) -> Prom {
    Prom {
        pressure_sensitivity: ws[1],
        pressure_offset: ws[2],
        temp_coef_pressure_sensitivity: ws[3],
        temp_coef_pressure_offset: ws[4],
        temp_ref: ws[5],
        temp_coef_temp: ws[6],
    }
}

/// The checksum stored by the sensor: the low nibble of the last word.
pub open spec fn spec_stored_crc(ws: Seq<u16>) -> u16 {
    ws[7] & 0xf
}

/// A word set is valid when the computed checksum equals the stored one.
pub open spec fn spec_crc_ok(ws: Seq<u16>) -> bool {
    spec_crc4(ws) == spec_stored_crc(ws)
}

impl Prom {
    /// Validate eight calibration words against their stored checksum and,
    /// exactly when they pass, hand back the six coefficients unchanged and
    /// in order.
    pub fn from_words(words: &Vec<u16>) -> (r: Option<Prom>)
        requires
            words.len() == 8,
        ensures
            r is Some <==> spec_crc_ok(words@),
            r matches Some(p) ==> p == spec_prom_of(words@),
    {
        let computed = crc4(words);
        let stored = words[7] & 0x000f;
        if computed == stored {
            Some(
                Prom {
                    pressure_sensitivity: words[1],
                    pressure_offset: words[2],
                    temp_coef_pressure_sensitivity: words[3],
                    temp_coef_pressure_offset: words[4],
                    temp_ref: words[5],
                    temp_coef_temp: words[6],
                },
            )
        } else {
            None
        }
    }
}

/// The computed checksum never looks at the low byte of the last word: the
/// byte the accumulator absorbs in its place is a literal zero.
pub proof fn lemma_crc4_ignores_word7_low_byte(ws1: Seq<u16>, ws2: Seq<u16>)
    requires
        ws1.len() == 8,
        ws2.len() == 8,
        forall|i: int| 0 <= i < 7 ==> ws1[i] == ws2[i],
        ws1[7] >> 8 == ws2[7] >> 8,
    ensures
        spec_crc4(ws1) == spec_crc4(ws2),
{
    assert(spec_prom_crc_bytes(ws1) =~= spec_prom_crc_bytes(ws2));
}

/// Flipping any single bit of the stored checksum nibble makes validation
/// fail: the computed checksum is unchanged while the stored one moves.
pub proof fn lemma_checksum_nibble_flip_rejected(ws: Seq<u16>, j: u16)
    requires
        ws.len() == 8,
        spec_crc_ok(ws),
        j < 4,
    ensures
        !spec_crc_ok(ws.update(7, (ws[7] ^ (1u16 << j)) as u16)),
{
    let w = ws[7];
    let w2 = (w ^ (1u16 << j)) as u16;
    let ws2 = ws.update(7, w2);
    assert(w2 >> 8 == w >> 8) by (bit_vector)
        requires
            j < 4,
            w2 == (w ^ (1u16 << j)) as u16,
    ;
    assert(w2 & 0xf != w & 0xf) by (bit_vector)
        requires
            j < 4,
            w2 == (w ^ (1u16 << j)) as u16,
    ;
    lemma_crc4_ignores_word7_low_byte(ws, ws2);
}

} // verus!
