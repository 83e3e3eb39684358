//! Driver for the AHT10 humidity and temperature sensor on an I2C bus.
//!
//! The driver owns a bus handle and sequences the sensor's command protocol:
//! soft reset, calibration, measurement trigger, status polling and decoding
//! of the six-byte measurement payload into two 20-bit counts.
//!
//! Every transaction the driver performs is recorded in a ghost log, so the
//! contracts of the operations state exactly which transactions were issued,
//! in which order, and how the result follows from what the bus answered.
//!
//! Waiting for the device is a busy loop over status reads. It is bounded by
//! a per-driver budget (`with_max_polls`, by default `u32::MAX` reads); when
//! the budget runs out while the device is still busy the operation fails
//! with `Aht10Error::OtherError`.
use vstd::prelude::*;

pub mod protocol;
pub mod bus;
pub mod driver;

pub use bus::BusOp;
pub use driver::AdafruitAHT10;
pub use protocol::{Aht10Error, RawReading};
