//! The driver itself: bus/delay capabilities, calibration loading and the
//! conversion protocol.
//!
//! The driver is generic over two collaborator capabilities that callers
//! implement for their platform: a two-wire bus offering single-command
//! write and write-then-read transactions, and a blocking millisecond
//! delay.  Construction reads and checksum-validates the calibration words;
//! each sample read sequences one pressure and one temperature conversion
//! and feeds the raw pair through the compensation arithmetic.

use vstd::prelude::*;

use crate::compensate::Ms5611Sample;
use crate::compensate::compensate;
use crate::compensate::spec_sample_of;
use crate::prom::Prom;
use crate::prom::spec_crc_ok;
use crate::prom::spec_prom_of;
use crate::regs::Ms5611Reg;
use crate::regs::Osr;

verus! {

/// A two-wire bus transaction capability.  The driver owns one and issues
/// every register access through it; implementations decide how the bytes
/// reach the wire and what their error type is.
pub trait I2cBus {
    type Error;

    /// Issue a write transaction carrying a single command byte.
    fn write_cmd(&mut self, address: u8, cmd: u8) -> Result<(), Self::Error>;

    /// Issue a combined write-then-read transaction fetching two bytes.
    fn write_read2(&mut self, address: u8, cmd: u8) -> Result<[u8; 2], Self::Error>;

    /// Issue a combined write-then-read transaction fetching three bytes.
    fn write_read3(&mut self, address: u8, cmd: u8) -> Result<[u8; 3], Self::Error>;
}

/// A blocking delay capability, assumed to always eventually return.
pub trait DelayMillis {
    /// Block for at least the given number of milliseconds.
    fn delay_ms(&mut self, ms: u8);
}

/// Why a driver operation failed.
#[derive(Debug)]
pub enum Ms5611Error<E> {
    /// A bus transaction failed; holds the bus's own error, unchanged.
    Transport(E),
    /// The calibration words did not match their stored checksum: either a
    /// bus glitch during the reads or a wrong device address.
    ChecksumMismatch,
}

/// The two bytes of a big-endian 16-bit word.
pub fn be_u16(hi: u8, lo: u8) -> (r: u16)
    ensures
        r == hi * 256 + lo,
{
    (hi as u16) * 256 + (lo as u16)
}

/// The three bytes of a big-endian 24-bit value.
pub fn be_u24(b0: u8, b1: u8, b2: u8) -> (r: u32)
    ensures
        r == b0 * 0x1_0000 + b1 * 256 + b2,
        r < 0x100_0000,
{
    (b0 as u32) * 0x1_0000 + (b1 as u32) * 256 + (b2 as u32)
}

/// The bus address the driver talks to: the caller's choice, or the
/// default of the address pin strapped low.
pub open spec fn spec_resolved_address(requested: Option<u8>) -> u8 {
    match requested {
        Some(a) => a,
        None => 0x77,
    }
}

/// MS5611 barometric pressure/temperature sensor driver.
pub struct Ms5611<I> {
    i2c: I,
    address: u8,
    prom: Prom,
}

impl<I: I2cBus> Ms5611<I> {
    /// The bus address this driver was constructed with.
    pub closed spec fn spec_address(&self) -> u8 {
        self.address
    }

    /// The validated calibration coefficients this driver holds.
    pub closed spec fn spec_prom(&self) -> Prom {
        self.prom
    }

    /// Construct a driver: read the eight calibration words from the
    /// sensor's read-only memory and validate their checksum.  On success
    /// the driver holds the six coefficients of a word set that passed
    /// validation; a checksum mismatch is reported as a recoverable error.
    ///
    /// When no address is given, the default address of 0x77 is used; the
    /// sensor answers at 0x77 with its address pin strapped low and at
    /// 0x76 with it strapped high.
    pub fn new(i2c: I, i2c_addr: Option<u8>) -> (r: Result<Self, Ms5611Error<I::Error>>)
        ensures
            r matches Ok(dev) ==> {
                &&& dev.spec_address() == spec_resolved_address(i2c_addr)
                &&& exists|ws: Seq<u16>|
                    ws.len() == 8 && #[trigger] spec_crc_ok(ws) && dev.spec_prom() == spec_prom_of(
                        ws,
                    )
            },
    {
        let address: u8 = match i2c_addr {
            Some(a) => a,
            None => 0x77,
        };
        let mut i2c = i2c;
        let mut words: Vec<u16> = Vec::new();
        let mut k: usize = 0;
        while k < 8
            invariant
                k <= 8,
                words.len() == k,
            decreases 8 - k,
        {
            let cmd: u8 = Ms5611Reg::Prom.addr() + 2 * (k as u8);
            match i2c.write_read2(address, cmd) {
                Ok(buf) => {
                    words.push(be_u16(buf[0], buf[1]));
                },
                Err(e) => {
                    return Err(Ms5611Error::Transport(e));
                },
            }
            k = k + 1;
        }
        match Prom::from_words(&words) {
            Some(prom) => {
                proof {
                    assert(spec_crc_ok(words@) && prom == spec_prom_of(words@));
                }
                Ok(Ms5611 { i2c, address, prom })
            },
            None => Err(Ms5611Error::ChecksumMismatch),
        }
    }

    /// Trigger a hardware reset: one write of the reset command, then a
    /// settle wait of 50 milliseconds.  The wait is deliberately generous;
    /// the hardware minimum is a few milliseconds, so the figure is a
    /// conservative, tunable default rather than a verified bound.  The
    /// calibration data and address are untouched.
    pub fn reset<D: DelayMillis>(&mut self, delay: &mut D) -> (r: Result<
        (),
        Ms5611Error<I::Error>,
    >)
        ensures
            final(self).spec_prom() == old(self).spec_prom(),
            final(self).spec_address() == old(self).spec_address(),
    {
        match self.i2c.write_cmd(self.address, Ms5611Reg::Reset.addr()) {
            Ok(()) => {},
            Err(e) => {
                return Err(Ms5611Error::Transport(e));
            },
        }
        delay.delay_ms(50);
        Ok(())
    }

    /// Read one calibrated sample: start a pressure conversion at the
    /// chosen oversampling ratio, wait that ratio's conversion time, fetch
    /// the 24-bit result, do the same for temperature, and run the pair
    /// through the compensation arithmetic.  Any transport failure aborts
    /// the read at once; no partial sample is returned.  On success the
    /// sample is the compensated value of a raw conversion pair under this
    /// driver's calibration data.
    ///
    /// Blocks for twice the conversion wait of the chosen ratio.
    pub fn read_sample<D: DelayMillis>(&mut self, osr: Osr, delay: &mut D) -> (r: Result<
        Ms5611Sample,
        Ms5611Error<I::Error>,
    >)
        ensures
            final(self).spec_prom() == old(self).spec_prom(),
            final(self).spec_address() == old(self).spec_address(),
            r matches Ok(s) ==> exists|d1: u32, d2: u32|
                d1 < 0x100_0000 && d2 < 0x100_0000 && s == #[trigger] spec_sample_of(
                    d1 as int,
                    d2 as int,
                    old(self).spec_prom(),
                ),
    {
        let modifier: u8 = osr.addr_modifier();

        match self.i2c.write_cmd(self.address, Ms5611Reg::D1.addr() + modifier) {
            Ok(()) => {},
            Err(e) => {
                return Err(Ms5611Error::Transport(e));
            },
        }
        delay.delay_ms(osr.get_delay());
        let pbuf = match self.i2c.write_read3(self.address, Ms5611Reg::AdcRead.addr()) {
            Ok(b) => b,
            Err(e) => {
                return Err(Ms5611Error::Transport(e));
            },
        };
        let d1: u32 = be_u24(pbuf[0], pbuf[1], pbuf[2]);

        match self.i2c.write_cmd(self.address, Ms5611Reg::D2.addr() + modifier) {
            Ok(()) => {},
            Err(e) => {
                return Err(Ms5611Error::Transport(e));
            },
        }
        delay.delay_ms(osr.get_delay());
        let tbuf = match self.i2c.write_read3(self.address, Ms5611Reg::AdcRead.addr()) {
            Ok(b) => b,
            Err(e) => {
                return Err(Ms5611Error::Transport(e));
            },
        };
        let d2: u32 = be_u24(tbuf[0], tbuf[1], tbuf[2]);

        let sample = compensate(d1, d2, &self.prom);
        proof {
            assert(sample == spec_sample_of(d1 as int, d2 as int, old(self).spec_prom()));
        }
        Ok(sample)
    }
}

} // verus!
