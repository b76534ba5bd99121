//! Driver logic for the MS5611 barometric pressure/temperature sensor.
//!
//! The crate covers the three delicate parts of talking to this sensor:
//! loading and checksum-validating the factory calibration words, the
//! fixed-point second-order temperature compensation that turns two raw
//! ADC conversions into a calibrated sample, and the command/wait sequencing
//! that the conversions must follow.  Bus traffic and delays go through the
//! capability traits in [`device`], so the driver is portable across bus
//! implementations.

use vstd::prelude::*;

pub mod compensate;
pub mod crc;
pub mod device;
pub mod integrity;
pub mod prom;
pub mod regs;

verus! {

pub use crate::compensate::Ms5611Sample;
pub use crate::compensate::compensate;
pub use crate::device::DelayMillis;
pub use crate::device::I2cBus;
pub use crate::device::Ms5611;
pub use crate::device::Ms5611Error;
pub use crate::prom::Prom;
pub use crate::regs::Ms5611Reg;
pub use crate::regs::Osr;

} // verus!
