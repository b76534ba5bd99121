//! Checksum validation of the calibration words.

use ms5611::Prom;
use ms5611::crc::crc4;

/// Eight words consistent with the datasheet's worked example, with the
/// correct checksum stored in the low nibble of word 7.
fn datasheet_words() -> Vec<u16> {
    vec![12594, 40127, 36924, 23317, 23282, 33464, 28312, 17672]
}

#[test]
fn crc4_of_known_words() {
    assert_eq!(crc4(&datasheet_words()), 8);
}

#[test]
fn valid_words_accepted_coefficients_in_order() {
    let p = Prom::from_words(&datasheet_words()).expect("valid words must be accepted");
    assert_eq!(p.pressure_sensitivity, 40127);
    assert_eq!(p.pressure_offset, 36924);
    assert_eq!(p.temp_coef_pressure_sensitivity, 23317);
    assert_eq!(p.temp_coef_pressure_offset, 23282);
    assert_eq!(p.temp_ref, 33464);
    assert_eq!(p.temp_coef_temp, 28312);
}

#[test]
fn second_valid_word_set_accepted() {
    // A small word set whose checksum happens to be 10.
    let words: Vec<u16> = vec![1, 2, 3, 4, 5, 6, 7, 10];
    let p = Prom::from_words(&words).expect("valid words must be accepted");
    assert_eq!(p.pressure_sensitivity, 2);
    assert_eq!(p.temp_coef_temp, 7);
}

#[test]
fn single_bit_flips_rejected() {
    let words = datasheet_words();
    assert!(Prom::from_words(&words).is_some());
    for wi in 0..8 {
        for bit in 0..16 {
            let mut flipped = words.clone();
            flipped[wi] ^= 1u16 << bit;
            let r = Prom::from_words(&flipped);
            if wi == 7 && (4..8).contains(&bit) {
                // Bits 4..8 of word 7 are covered by neither the checksum
                // computation (which replaces word 7's low byte with zero)
                // nor the stored nibble, so a flip there goes undetected.
                assert!(r.is_some(), "word 7 bit {bit} is outside the check");
            } else {
                assert!(r.is_none(), "flip of word {wi} bit {bit} was not caught");
            }
        }
    }
}

#[test]
fn wrong_stored_checksum_rejected() {
    let mut words = datasheet_words();
    words[7] = (words[7] & 0xfff0) | ((words[7] + 1) & 0xf);
    assert!(Prom::from_words(&words).is_none());
}
