//! Signal processing and scan scheduling for a BLE proximity indicator.
//!
//! The library turns received-signal-strength readings of BLE advertisements
//! into a smoothed distance estimate, maps that estimate to a display frame,
//! and keeps the scanner's schedule and the radio/timer configuration in step.

mod ring;
pub mod collector;
pub mod display;
pub mod scheduler;

pub use collector::{BeaconScanCallback, RssiEntry};
