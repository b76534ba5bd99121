//! Oversampling ratios and the sensor's register map.

use vstd::prelude::*;

verus! {

/// Oversampling ratio: the hardware's resolution/latency tradeoff.
/// Higher ratios give more precision and need a longer conversion wait.
#[derive(Clone, Copy, Debug, PartialEq, Eq, Structural)]
pub enum Osr {
    Opt256,
    Opt512,
    Opt1024,
    Opt2048,
    Opt4096,
}

/// The nominal resolution of an oversampling ratio, used to state that the
/// conversion wait and the command offset grow strictly with the ratio.
pub open spec fn spec_osr_level(o: Osr) -> int {
    match o {
        Osr::Opt256 => 256,
        Osr::Opt512 => 512,
        Osr::Opt1024 => 1024,
        Osr::Opt2048 => 2048,
        Osr::Opt4096 => 4096,
    }
}

/// Milliseconds the sensor needs to finish one conversion at this ratio.
pub open spec fn spec_osr_delay(o: Osr) -> u8 {
    match o {
        Osr::Opt256 => 1,
        Osr::Opt512 => 2,
        Osr::Opt1024 => 3,
        Osr::Opt2048 => 5,
        Osr::Opt4096 => 10,
    }
}

/// Offset added to a conversion command byte to select this ratio.
pub open spec fn spec_osr_addr_modifier(o: Osr) -> u8 {
    match o {
        Osr::Opt256 => 0,
        Osr::Opt512 => 2,
        Osr::Opt1024 => 4,
        Osr::Opt2048 => 6,
        Osr::Opt4096 => 8,
    }
}

impl Osr {
    /// Conversion wait in milliseconds for this ratio.
    pub fn get_delay(&self) -> (r: u8)
        ensures
            r == spec_osr_delay(*self),
    {
        match *self {
            Osr::Opt256 => 1,
            Osr::Opt512 => 2,
            Osr::Opt1024 => 3,
            Osr::Opt2048 => 5,
            Osr::Opt4096 => 10,
        }
    }

    /// Command-byte offset that selects this ratio.
    pub fn addr_modifier(&self) -> (r: u8)
        ensures
            r == spec_osr_addr_modifier(*self),
    {
        match *self {
            Osr::Opt256 => 0,
            Osr::Opt512 => 2,
            Osr::Opt1024 => 4,
            Osr::Opt2048 => 6,
            Osr::Opt4096 => 8,
        }
    }
}

/// Between two oversampling ratios, the higher resolution has both the
/// strictly longer conversion wait and the strictly larger command offset.
pub proof fn lemma_osr_monotonic(a: Osr, b: Osr)
    requires
        spec_osr_level(a) < spec_osr_level(b),
    ensures
        spec_osr_delay(a) < spec_osr_delay(b),
        spec_osr_addr_modifier(a) < spec_osr_addr_modifier(b),
{
}

/// The sensor's command/register set.
#[derive(Clone, Copy, Debug, PartialEq, Eq, Structural)]
pub enum Ms5611Reg {
    Reset,
    /// Start a digital pressure conversion.
    D1,
    /// Start a digital temperature conversion.
    D2,
    /// Read back the 24-bit conversion result.
    AdcRead,
    /// Base of the calibration words; valid addresses run in steps of two
    /// words up to the checksum word.
    Prom,
}

/// Command byte of each register.
pub open spec fn spec_reg_addr(r: Ms5611Reg) -> u8 {
    match r {
        Ms5611Reg::Reset => 0x1e,
        Ms5611Reg::D1 => 0x40,
        Ms5611Reg::D2 => 0x50,
        Ms5611Reg::AdcRead => 0x00,
        Ms5611Reg::Prom => 0xa0,
    }
}

impl Ms5611Reg {
    /// Command byte that addresses this register.
    pub fn addr(&self) -> (r: u8)
        ensures
            r == spec_reg_addr(*self),
    {
        match *self {
            Ms5611Reg::Reset => 0x1e,
            Ms5611Reg::D1 => 0x40,
            Ms5611Reg::D2 => 0x50,
            Ms5611Reg::AdcRead => 0x00,
            Ms5611Reg::Prom => 0xa0,
        }
    }
}

} // verus!
