use vstd::prelude::*;

verus! {

/// Errors raised by the CW310 driver.
///
/// Validation errors (`InvalidPinName`, `InvalidPinNumber`, `InvalidDataLength`,
/// `MismatchedDataLength`) are raised before any USB transfer is attempted.
/// `Transport` carries the text of an error reported by the USB transport.
#[derive(Debug, PartialEq)]
pub enum Error {
    /// Device discovery found no matching device.
    NotFound(String),
    /// The USB transport reported a failure (I/O error, stall, timeout, ...).
    Transport(String),
    /// A symbolic pin name was found in neither lookup table.
    InvalidPinName(String),
    /// A numeric pin identifier exceeds the largest pin number.
    InvalidPinNumber(u8),
    /// An SPI buffer exceeds the per-transaction payload ceiling.
    InvalidDataLength(usize),
    /// The tx and rx buffers of a bidirectional SPI operation differ in length.
    MismatchedDataLength(usize, usize),
}

} // verus!
