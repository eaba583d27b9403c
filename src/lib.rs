//! Reads one environmental telemetry packet from a BLE peripheral, decodes
//! it, stamps it with a capture time and appends it to a ledger.
//!
//! Everything here is pure logic: the radio, the clock and the file system
//! are driven by the caller, which hands their results back as plain values.

pub mod codec;
pub mod decimal;
pub mod json;
pub mod ledger;
pub mod locator;
pub mod session;
