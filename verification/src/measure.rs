//! Validated measurements and the protocol error taxonomy.

use vstd::prelude::*;

verus! {

/// Why a read failed.  Every error ends the transaction; the caller may
/// retry with a fresh reset, never by resuming a partial transfer.
#[derive(Debug)]
pub enum Error<P> {
    /// The sensor never pulled the line low after the host start signal.
    AckTimeout,
    /// The acknowledgment pulse was seen but one of its phases fell
    /// outside the expected band: the line is live but the signal is
    /// corrupted.
    AckPulseOutOfRange {
        /// Measured duration of the acknowledgment low phase.
        low_us: i32,
        /// Measured duration of the acknowledgment high phase.
        high_us: i32,
    },
    /// A level transition failed to arrive within the wall-clock bound
    /// after the acknowledgment started.
    LevelTimeout,
    /// The high phase of one data bit fell outside both bit bands; the
    /// payload is the index of the failing bit.
    BitOutOfRange(u8),
    /// The transfer was structurally complete but the checksum byte did
    /// not match the sum of the data bytes.
    ChecksumMismatch {
        /// Low byte of the sum of the four data bytes.
        computed: u8,
        /// Checksum byte the sensor actually sent.
        received: u8,
    },
    /// The pin capability itself reported a fault.
    PinFault(P),
}

/// One validated reading: the four numeric fields the sensor transfers.
/// A value of this type is only ever constructed after the checksum byte
/// has been confirmed against the four fields.
#[derive(Clone, Copy, Debug, PartialEq, Eq, Structural)]
pub struct Measure {
    /// Integer part of the relative humidity, in percent.
    pub humidity_int: u8,
    /// Fractional part of the relative humidity.
    pub humidity_frac: u8,
    /// Integer part of the temperature, in degrees Celsius.
    pub temperature_int: u8,
    /// Fractional part of the temperature.
    pub temperature_frac: u8,
}

impl Measure {
    /// Integer part of the relative humidity.
    pub fn humidity_int(&self) -> (r: u8)
        ensures
            r == self.humidity_int,
    {
        self.humidity_int
    }

    /// Fractional part of the relative humidity.
    pub fn humidity_frac(&self) -> (r: u8)
        ensures
            r == self.humidity_frac,
    {
        self.humidity_frac
    }

    /// Integer part of the temperature.
    pub fn temperature_int(&self) -> (r: u8)
        ensures
            r == self.temperature_int,
    {
        self.temperature_int
    }

    /// Fractional part of the temperature.
    pub fn temperature_frac(&self) -> (r: u8)
        ensures
            r == self.temperature_frac,
    {
        self.temperature_frac
    }
}

/// Low byte of the sum of the four data bytes: what the checksum byte
/// must equal for a transfer to be accepted.
pub open spec fn checksum_of(b0: u8, b1: u8, b2: u8, b3: u8) -> u8 {
    ((b0 + b1 + b2 + b3) % 256) as u8
}

/// Confirm that the fifth transferred byte equals the low byte of the sum
/// of the first four, and only then construct the measurement.
///
/// Succeeds exactly on the quintuples whose checksum byte matches; any
/// other quintuple is rejected with both the computed and the received
/// checksum, never downgraded to a default measurement.
pub fn validate<P>(bytes: [u8; 5]) -> (r: Result<Measure, Error<P>>)
    ensures
        match r {
            Ok(m) => {
                &&& bytes[4] == checksum_of(bytes[0], bytes[1], bytes[2], bytes[3])
                &&& m.humidity_int == bytes[0]
                &&& m.humidity_frac == bytes[1]
                &&& m.temperature_int == bytes[2]
                &&& m.temperature_frac == bytes[3]
            },
            Err(Error::ChecksumMismatch { computed, received }) => {
                &&& bytes[4] != checksum_of(bytes[0], bytes[1], bytes[2], bytes[3])
                &&& computed == checksum_of(bytes[0], bytes[1], bytes[2], bytes[3])
                &&& received == bytes[4]
            },
            Err(_) => false,
        },
{
    let sum: u16 = bytes[0] as u16 + bytes[1] as u16 + bytes[2] as u16 + bytes[3] as u16;
    let computed: u8 = (sum % 256) as u8;
    if computed == bytes[4] {
        Ok(Measure {
            humidity_int: bytes[0],
            humidity_frac: bytes[1],
            temperature_int: bytes[2],
            temperature_frac: bytes[3],
        })
    } else {
        Err(Error::ChecksumMismatch { computed, received: bytes[4] })
    }
}

} // verus!
