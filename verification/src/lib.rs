//! A driver for RTL2832U-based software defined radios.
//!
//! The library holds what the driver decides and computes: register layouts, the
//! drivers of the tuner chips, the receiver as a whole, and the protocols of its
//! servers. It reaches the hardware through [`device::HardwareInterface`], and every
//! function states what it does in a contract over that interface.
pub mod cli;
pub mod config;
pub mod converter;
pub mod daemon;
pub mod demod;
pub mod device;
pub mod driver;
pub mod dsp;
pub mod error;
pub mod record;
pub mod registers;
pub mod rtl_tcp;
pub mod server;
pub mod stream;
pub mod transfer;
pub mod tuner;
pub mod tuners;
pub mod websdr;

pub use demod::DEFAULT_SAMPLE_RATE;
pub use device::{DeviceInfo, HardwareInterface, HardwareRoutines};
pub use driver::Driver;
pub use error::{Error, Result};
pub use stream::StreamConfig;
pub use tuner::{BoardConfig, FilterRange, InputPath, Tuner};
