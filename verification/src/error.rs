//! What can go wrong while driving a receiver.
use crate::tuner::TunerType;
use vstd::prelude::*;

verus! {

/// A failure of the USB transport, as libusb classifies it.
#[derive(Debug, Clone, Copy, PartialEq, Eq, Structural)]
pub enum UsbError {
    Io,
    InvalidParam,
    Access,
    NoDevice,
    NotFound,
    Busy,
    Timeout,
    Overflow,
    Pipe,
    Interrupted,
    NoMem,
    NotSupported,
    BadDescriptor,
    Other,
}

/// A complaint of a tuner chip driver.
#[derive(Debug, Clone, Copy, PartialEq, Eq, Structural)]
pub enum TunerFault {
    /// The register is not one of those the driver keeps a shadow of.
    RegisterOutOfRange { reg: u8 },
    /// The chip does not carry the identity of the expected model.
    IdMismatch { expected: TunerType, id: u8 },
    /// The crystal cannot be corrected by this many millionths.
    PpmOutOfRange { ppm: i32 },
}

/// Everything a driver operation can fail with.
#[derive(Debug, Clone, Copy, PartialEq, Eq, Structural)]
pub enum Error {
    /// The USB transfer failed.
    Usb(UsbError),
    /// The chip at this I2C address sent fewer bytes than it was asked for.
    I2c { addr: u8 },
    Tuner(TunerFault),
    /// No chip driver exists for this tuner.
    UnsupportedTuner(TunerType),
    /// The chip cannot be tuned to this frequency, in Hz.
    InvalidFrequency(u64),
    Timeout,
    /// The sample rate, in Hz, is outside 225 kSPS to 3.2 MSPS.
    InvalidSampleRate(u32),
    NotInitialized,
    /// No supported device is attached.
    NotFound,
    BufferEmpty,
    ChannelFull,
    ChannelClosed,
    /// The gain, in tenths of a decibel, cannot be set.
    InvalidGain(i32),
}

/// The result of a driver operation.
pub type Result<T> = core::result::Result<T, Error>;

} // verus!
