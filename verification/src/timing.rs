//! Timing bands of the DHT11 pulse-width encoding.
//!
//! All durations are microseconds.  A data bit is encoded by the length of
//! a high phase: about 26 us for a `0`, about 70 us for a `1`.  The
//! acknowledgment pulse holds the line low and then high for about 80 us
//! each.  Every nominal duration carries the same flat tolerance band of
//! plus or minus [`EPSILON_US`] microseconds.

use vstd::prelude::*;

verus! {

/// Flat tolerance applied to every nominal pulse duration.
pub const EPSILON_US: i32 = 5;

/// Nominal high-phase duration of a `0` bit.
pub const ZERO_NOMINAL_US: i32 = 26;

/// Nominal high-phase duration of a `1` bit.
pub const ONE_NOMINAL_US: i32 = 70;

/// Nominal duration of each phase of the acknowledgment pulse.
pub const ACK_NOMINAL_US: i32 = 80;

/// Shortest admissible high phase of a `0` bit.
pub const ZERO_LOW_US: i32 = ZERO_NOMINAL_US - EPSILON_US;

/// Longest admissible high phase of a `0` bit.
pub const ZERO_HIGH_US: i32 = ZERO_NOMINAL_US + EPSILON_US;

/// Shortest admissible high phase of a `1` bit.
pub const ONE_LOW_US: i32 = ONE_NOMINAL_US - EPSILON_US;

/// Longest admissible high phase of a `1` bit.
pub const ONE_HIGH_US: i32 = ONE_NOMINAL_US + EPSILON_US;

/// Host start signal: how long the line is held low to wake the sensor.
/// The sensor ignores requests shorter than 18 milliseconds.
pub const HOST_START_LOW_US: u32 = 18_000;

/// Wall-clock bound on every wait for a level transition.  A sensor that
/// answers at all answers within a few hundred microseconds.
pub const MAX_LEVEL_WAIT_US: i32 = 1_000;

/// Classification of one high-phase pulse duration.
#[derive(Clone, Copy, Debug, PartialEq, Eq, Structural)]
pub enum BitClass {
    /// The duration falls in the band of a `0` bit.
    Zero,
    /// The duration falls in the band of a `1` bit.
    One,
    /// The duration falls in neither band.
    OutOfRange,
}

/// The band of a `0` bit: the nominal duration give or take the tolerance.
pub open spec fn in_zero_band(us: int) -> bool {
    ZERO_LOW_US <= us <= ZERO_HIGH_US
}

/// The band of a `1` bit: the nominal duration give or take the tolerance.
pub open spec fn in_one_band(us: int) -> bool {
    ONE_LOW_US <= us <= ONE_HIGH_US
}

/// The band of each acknowledgment phase: nominal 80 us give or take the
/// tolerance.
pub open spec fn in_ack_band(us: int) -> bool {
    ACK_NOMINAL_US - EPSILON_US <= us <= ACK_NOMINAL_US + EPSILON_US
}

/// What a high phase of `us` microseconds encodes.
pub open spec fn classify_spec(us: int) -> BitClass {
    if in_zero_band(us) {
        BitClass::Zero
    } else if in_one_band(us) {
        BitClass::One
    } else {
        BitClass::OutOfRange
    }
}

/// Classify one measured high-phase duration against the two bit bands.
pub fn classify_pulse(us: i32) -> (r: BitClass)
    ensures
        r == classify_spec(us as int),
{
    if ZERO_LOW_US <= us && us <= ZERO_HIGH_US {
        BitClass::Zero
    } else if ONE_LOW_US <= us && us <= ONE_HIGH_US {
        BitClass::One
    } else {
        BitClass::OutOfRange
    }
}

} // verus!
