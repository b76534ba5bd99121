//! Second-order temperature compensation.
//!
//! The sensor hands back two raw 24-bit conversions; the datasheet's
//! fixed-point scheme turns them, together with the calibration
//! coefficients, into a temperature in hundredths of a degree Celsius and a
//! pressure in hundredths of a millibar.  All intermediate arithmetic runs
//! in signed 64-bit integers, and every right shift of the scheme is an
//! arithmetic (sign-preserving, floor) shift, written here as floor
//! division by the matching power of two.

use vstd::prelude::*;
use vstd::arithmetic::div_mod::lemma_div_is_ordered;
use vstd::arithmetic::div_mod::lemma_div_nonincreasing;
use vstd::arithmetic::div_mod::lemma_div_pos_is_pos;
use vstd::arithmetic::div_mod::lemma_fundamental_div_mod;
use vstd::arithmetic::div_mod::lemma_fundamental_div_mod_converse_div;
use vstd::arithmetic::div_mod::lemma_mod_division_less_than_divisor;

use crate::prom::Prom;

verus! {

/// One calibrated reading.
#[derive(Clone, Copy, Debug, PartialEq, Eq, Structural)]
pub struct Ms5611Sample {
    /// Pressure in hundredths of a millibar.
    pub pressure_centimbar: i32,
    /// Temperature in hundredths of a degree Celsius.
    pub temperature_centicelsius: i32,
}

/// Difference between the raw temperature conversion and the scaled
/// reference temperature (datasheet name: dT).
pub open spec fn spec_dt(d2: int, c: Prom) -> int {
    d2 - c.temp_ref * 256
}

/// First-order temperature in hundredths of a degree (datasheet: TEMP).
pub open spec fn spec_temp1(d2: int, c: Prom) -> int {
    2000 + (spec_dt(d2, c) * c.temp_coef_temp) / 0x80_0000
}

/// First-order pressure offset (datasheet: OFF).
pub open spec fn spec_off1(d2: int, c: Prom) -> int {
    c.pressure_offset * 0x1_0000 + (spec_dt(d2, c) * c.temp_coef_pressure_offset) / 0x80
}

/// First-order pressure sensitivity (datasheet: SENS).
pub open spec fn spec_sens1(d2: int, c: Prom) -> int {
    c.pressure_sensitivity * 0x8000 + (spec_dt(d2, c) * c.temp_coef_pressure_sensitivity) / 0x100
}

/// Second-order temperature correction, active below 20.00 degrees.
pub open spec fn spec_t2(d2: int, c: Prom) -> int {
    if spec_temp1(d2, c) < 2000 {
        (spec_dt(d2, c) * spec_dt(d2, c)) / 0x8000_0000
    } else {
        0
    }
}

/// The low-temperature part of the offset correction.
pub open spec fn spec_off2_low(d2: int, c: Prom) -> int {
    (5 * ((spec_temp1(d2, c) - 2000) * (spec_temp1(d2, c) - 2000))) / 2
}

/// The extra offset correction below -15.00 degrees.
pub open spec fn spec_off2_very_low(d2: int, c: Prom) -> int {
    7 * ((spec_temp1(d2, c) + 1500) * (spec_temp1(d2, c) + 1500))
}

/// Second-order offset correction (datasheet: OFF2).
pub open spec fn spec_off2(d2: int, c: Prom) -> int {
    if spec_temp1(d2, c) < 2000 {
        spec_off2_low(d2, c) + if spec_temp1(d2, c) < -1500 {
            spec_off2_very_low(d2, c)
        } else {
            0
        }
    } else {
        0
    }
}

/// The extra sensitivity correction below -15.00 degrees.
pub open spec fn spec_sens2_very_low(d2: int, c: Prom) -> int {
    (11 * ((spec_temp1(d2, c) + 1500) * (spec_temp1(d2, c) + 1500))) / 2
}

/// Second-order sensitivity correction (datasheet: SENS2).
pub open spec fn spec_sens2(d2: int, c: Prom) -> int {
    if spec_temp1(d2, c) < 2000 {
        spec_off2_low(d2, c) / 2 + if spec_temp1(d2, c) < -1500 {
            spec_sens2_very_low(d2, c)
        } else {
            0
        }
    } else {
        0
    }
}

/// Compensated temperature in hundredths of a degree Celsius.
pub open spec fn spec_temperature(d2: int, c: Prom) -> int {
    spec_temp1(d2, c) - spec_t2(d2, c)
}

/// Compensated pressure offset.
pub open spec fn spec_off(d2: int, c: Prom) -> int {
    spec_off1(d2, c) - spec_off2(d2, c)
}

/// Compensated pressure sensitivity.
pub open spec fn spec_sens(d2: int, c: Prom) -> int {
    spec_sens1(d2, c) - spec_sens2(d2, c)
}

/// Compensated pressure in hundredths of a millibar.
pub open spec fn spec_pressure(d1: int, d2: int, c: Prom) -> int {
    ((d1 * spec_sens(d2, c)) / 0x20_0000 - spec_off(d2, c)) / 0x8000
}

/// The full calibrated sample for a raw conversion pair.
pub open spec fn spec_sample_of(d1: int, d2: int, c: Prom) -> Ms5611Sample {
    Ms5611Sample {
        pressure_centimbar: spec_pressure(d1, d2, c) as i32,
        temperature_centicelsius: spec_temperature(d2, c) as i32,
    }
}

proof fn lemma_mul_abs_bound(a: int, b: int, am: int, bm: int)
    by (nonlinear_arith)
    requires
        -am <= a <= am,
        -bm <= b <= bm,
    ensures
        -(am * bm) <= a * b <= am * bm,
{
}

proof fn lemma_square_bounds(a: int, am: int)
    by (nonlinear_arith)
    requires
        -am <= a <= am,
    ensures
        0 <= a * a <= am * am,
{
}

/// Floor division by a positive divisor: the value of an arithmetic right
/// shift when the divisor is the matching power of two.
fn shr_div(x: i64, d: i64) -> (r: i64)
    requires
        1 <= d,
    ensures
        r == x as int / d as int,
        d * r <= x < d * (r + 1),
{
    proof {
        lemma_fundamental_div_mod(x as int, d as int);
        lemma_mod_division_less_than_divisor(x as int, d as int);
    }
    let r: i64 = if x >= 0 {
        proof {
            lemma_div_nonincreasing(x as int, d as int);
            lemma_div_pos_is_pos(x as int, d as int);
        }
        let q: u64 = (x as u64) / (d as u64);
        q as i64
    } else {
        let m: i64 = -(x + 1);
        let qm: u64 = (m as u64) / (d as u64);
        proof {
            lemma_div_nonincreasing(m as int, d as int);
            lemma_div_pos_is_pos(m as int, d as int);
            lemma_fundamental_div_mod(m as int, d as int);
            lemma_mod_division_less_than_divisor(m as int, d as int);
            let rm = (m as int) % (d as int);
            assert(x as int == (-(qm as int) - 1) * d + (d - 1 - rm)) by (nonlinear_arith)
                requires
                    m as int == d * (qm as int) + rm,
                    x as int == -(m as int) - 1,
            ;
            lemma_fundamental_div_mod_converse_div(
                x as int,
                d as int,
                -(qm as int) - 1,
                d - 1 - rm,
            );
        }
        -(qm as i64) - 1
    };
    proof {
        assert(d * r <= x < d * (r + 1)) by (nonlinear_arith)
            requires
                r == x as int / d as int,
                x as int == d * (x as int / d as int) + (x as int % d as int),
                0 <= (x as int % d as int) < d,
        ;
    }
    r
}

/// Turn a raw conversion pair into a calibrated sample.
///
/// The arithmetic never fails: raw values outside the sensor's plausible
/// range still give the well-defined result of the datasheet's formulas.
pub fn compensate(d1: u32, d2: u32, c: &Prom) -> (s: Ms5611Sample)
    requires
        d1 < 0x100_0000,
        d2 < 0x100_0000,
    ensures
        s.temperature_centicelsius == spec_temperature(d2 as int, *c),
        s.pressure_centimbar == spec_pressure(d1 as int, d2 as int, *c),
        s == spec_sample_of(d1 as int, d2 as int, *c),
{
    let dt: i64 = d2 as i64 - (c.temp_ref as i64) * 256;
    proof {
        assert(dt == spec_dt(d2 as int, *c));
        lemma_mul_abs_bound(dt as int, c.temp_coef_temp as int, 0x100_0000, 0x1_0000);
        lemma_mul_abs_bound(dt as int, c.temp_coef_pressure_offset as int, 0x100_0000, 0x1_0000);
        lemma_mul_abs_bound(
            dt as int,
            c.temp_coef_pressure_sensitivity as int,
            0x100_0000,
            0x1_0000,
        );
    }
    let tprod: i64 = dt * (c.temp_coef_temp as i64);
    let q23: i64 = shr_div(tprod, 0x80_0000);
    let temperature_first: i64 = 2000 + q23;
    assert(temperature_first == spec_temp1(d2 as int, *c));
    assert(-0x2_0000 <= q23 <= 0x2_0000);

    let oprod: i64 = dt * (c.temp_coef_pressure_offset as i64);
    let off1: i64 = (c.pressure_offset as i64) * 0x1_0000 + shr_div(oprod, 0x80);
    assert(off1 == spec_off1(d2 as int, *c));
    assert(-0x4_0000_0000 <= off1 <= 0x8_0000_0000);

    let sprod: i64 = dt * (c.temp_coef_pressure_sensitivity as i64);
    let sens1: i64 = (c.pressure_sensitivity as i64) * 0x8000 + shr_div(sprod, 0x100);
    assert(sens1 == spec_sens1(d2 as int, *c));
    assert(-0x2_0000_0000 <= sens1 <= 0x3_0000_0000);

    let mut t2: i64 = 0;
    let mut off2: i64 = 0;
    let mut sens2: i64 = 0;
    if temperature_first < 2000 {
        proof {
            lemma_square_bounds(dt as int, 0x100_0000);
        }
        let dtsq: i64 = dt * dt;
        t2 = shr_div(dtsq, 0x8000_0000);
        assert(0 <= t2 <= 0x2_0000) by {
            lemma_div_pos_is_pos(dtsq as int, 0x8000_0000);
        };

        let tm: i64 = temperature_first - 2000;
        proof {
            lemma_square_bounds(tm as int, 0x2_0001);
        }
        let tmsq: i64 = tm * tm;
        let off2a: i64 = shr_div(5 * tmsq, 2);
        assert(0 <= off2a) by {
            lemma_div_pos_is_pos(5 * tmsq as int, 2);
        };
        off2 = off2a;
        sens2 = shr_div(off2a, 2);
        proof {
            lemma_div_pos_is_pos(off2a as int, 2);
        }
        if temperature_first < -1500 {
            let tp: i64 = temperature_first + 1500;
            proof {
                lemma_square_bounds(tp as int, 0x2_0000);
            }
            let tpsq: i64 = tp * tp;
            off2 = off2a + 7 * tpsq;
            let sens2b: i64 = shr_div(11 * tpsq, 2);
            proof {
                lemma_div_pos_is_pos(11 * tpsq as int, 2);
            }
            sens2 = sens2 + sens2b;
        }
    }
    assert(t2 == spec_t2(d2 as int, *c));
    assert(off2 == spec_off2(d2 as int, *c));
    assert(sens2 == spec_sens2(d2 as int, *c));
    assert(0 <= off2 <= 0x40_0000_0000);
    assert(0 <= sens2 <= 0x20_0000_0000);

    let temperature: i64 = temperature_first - t2;
    let off: i64 = off1 - off2;
    let sens: i64 = sens1 - sens2;
    assert(temperature == spec_temperature(d2 as int, *c));
    assert(-0x48_0000_0000 <= off <= 0x8_0000_0000);
    assert(-0x22_0000_0000 <= sens <= 0x3_0000_0000);

    proof {
        lemma_mul_abs_bound(d1 as int, sens as int, 0x100_0000, 0x22_0000_0000);
    }
    let pprod: i64 = (d1 as i64) * sens;
    let p21: i64 = shr_div(pprod, 0x20_0000);
    let pdiff: i64 = p21 - off;
    let pressure: i64 = shr_div(pdiff, 0x8000);
    assert(pressure == spec_pressure(d1 as int, d2 as int, *c));
    assert(-0x1000_0000 <= pressure <= 0x1000_0000);

    Ms5611Sample {
        pressure_centimbar: pressure as i32,
        temperature_centicelsius: temperature as i32,
    }
}

/// At or above 20.00 degrees no second-order correction is applied: the
/// corrections are all zero and the compensated temperature is the
/// first-order one.
pub proof fn lemma_no_second_order_when_warm(d2: int, c: Prom)
    requires
        spec_temp1(d2, c) >= 2000,
    ensures
        spec_t2(d2, c) == 0,
        spec_off2(d2, c) == 0,
        spec_sens2(d2, c) == 0,
        spec_temperature(d2, c) == spec_temp1(d2, c),
{
}

/// Below 20.00 degrees the second-order correction is active: the
/// temperature correction is nonnegative and the offset and sensitivity
/// corrections are strictly positive.
pub proof fn lemma_second_order_active_when_cold(d2: int, c: Prom)
    requires
        spec_temp1(d2, c) < 2000,
    ensures
        spec_t2(d2, c) >= 0,
        spec_off2(d2, c) >= 2,
        spec_sens2(d2, c) >= 1,
{
    let dt = spec_dt(d2, c);
    let tm = spec_temp1(d2, c) - 2000;
    lemma_square_bounds(dt, if dt >= 0 { dt } else { -dt });
    lemma_div_pos_is_pos(dt * dt, 0x8000_0000);
    assert(tm * tm >= 1) by (nonlinear_arith)
        requires
            tm <= -1,
    ;
    lemma_div_is_ordered(5, 5 * (tm * tm), 2);
    lemma_div_is_ordered(2, spec_off2_low(d2, c), 2);
    if spec_temp1(d2, c) < -1500 {
        let tp = spec_temp1(d2, c) + 1500;
        assert(tp * tp >= 0) by (nonlinear_arith);
        lemma_div_pos_is_pos(11 * (tp * tp), 2);
    }
}

/// Below -15.00 degrees the additional very-low-temperature correction is
/// active, and both corrections are strictly larger than the plain
/// low-temperature corrections alone.
pub proof fn lemma_very_low_correction_strictly_larger(d2: int, c: Prom)
    requires
        spec_temp1(d2, c) < -1500,
    ensures
        spec_off2(d2, c) > spec_off2_low(d2, c),
        spec_sens2(d2, c) > spec_off2_low(d2, c) / 2,
{
    let tp = spec_temp1(d2, c) + 1500;
    assert(tp * tp >= 1) by (nonlinear_arith)
        requires
            tp <= -1,
    ;
    lemma_div_is_ordered(11, 11 * (tp * tp), 2);
}

} // verus!
