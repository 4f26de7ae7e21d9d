//! Decoder for the DHT11 single-wire sensor protocol.
//!
//! A DHT11-class sensor answers a host reset pulse with an acknowledgment
//! pulse and then 40 data bits, each encoded as the duration of a high
//! level phase on one GPIO line.  This crate verifies the decoding of that
//! pulse train: the reset handshake, the acknowledgment check, the 40-bit
//! sampling loop, byte assembly and the final checksum validation.

pub mod measure;
pub mod pin;
pub mod protocol;
pub mod sim;
pub mod timing;

pub use measure::Error;
pub use measure::Measure;
pub use pin::Interrupt;
pub use protocol::DHT;
pub use sim::SimPin;
pub use timing::BitClass;
