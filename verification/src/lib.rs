//! Host-side driver for the CW310 FPGA board's USB command protocol:
//! device discovery, control-transfer command encoding, symbolic pin name
//! resolution, and a chunked SPI transfer engine.

pub mod error;
pub mod chunks;
pub mod pins;
pub mod usb;
pub mod backend;

pub use backend::{Backend, UsbBackend};
pub use error::Error;
