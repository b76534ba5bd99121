//! The compensation arithmetic against known vectors.

use ms5611::Prom;
use ms5611::compensate;

fn datasheet_prom() -> Prom {
    Prom {
        pressure_sensitivity: 40127,
        pressure_offset: 36924,
        temp_coef_pressure_sensitivity: 23317,
        temp_coef_pressure_offset: 23282,
        temp_ref: 33464,
        temp_coef_temp: 28312,
    }
}

#[test]
fn datasheet_reference_vector() {
    // The datasheet's worked example: 20.07 degrees, 1000.09 mbar.
    let s = compensate(9085466, 8569150, &datasheet_prom());
    assert_eq!(s.temperature_centicelsius, 2007);
    assert_eq!(s.pressure_centimbar, 100009);
}

#[test]
fn no_second_order_at_exactly_2000() {
    // With a zero temperature coefficient the base temperature is exactly
    // 20.00 degrees whatever the raw reading, so no correction applies.
    let c = Prom { temp_ref: 100, temp_coef_temp: 0, ..datasheet_prom() };
    let s = compensate(9085466, 30000, &c);
    assert_eq!(s.temperature_centicelsius, 2000);
    assert_eq!(s.pressure_centimbar, 100022);
}

#[test]
fn second_order_active_just_below_2000() {
    // Raw values placing the base temperature at 19.99 degrees.
    let c = Prom { temp_ref: 100, temp_coef_temp: 32768, ..datasheet_prom() };
    let s = compensate(9085466, 25344, &c);
    assert_eq!(s.temperature_centicelsius, 1999);
    assert_eq!(s.pressure_centimbar, 99992);
}

#[test]
fn very_low_temperature_correction() {
    // Raw values placing the base temperature at -15.02 degrees, past the
    // second threshold: both corrections are active.
    let c = Prom { temp_ref: 1751, temp_coef_temp: 65535, ..datasheet_prom() };
    let s = compensate(9085466, 0, &c);
    assert_eq!(s.temperature_centicelsius, -1595);
    assert_eq!(s.pressure_centimbar, 95992);
}

#[test]
fn garbage_raw_values_still_well_defined() {
    // The arithmetic never fails; implausible raw inputs give a
    // well-defined (if physically meaningless) output.
    let s = compensate(0xff_ffff, 0xff_ffff, &datasheet_prom());
    assert_eq!(s.temperature_centicelsius, 29710);
    assert_eq!(s.pressure_centimbar, 384166);
    let t = compensate(0, 0, &datasheet_prom());
    assert_eq!(t.temperature_centicelsius, -61088);
    assert_eq!(t.pressure_centimbar, 175461);
}
