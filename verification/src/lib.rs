//! UAVLED: the logic of a BLE-controlled SK6812 light strip.
//!
//! [`led`] draws frames, [`sk6812`] turns them into pulses, [`ota`] follows a firmware update,
//! [`link`] handles what comes over the BLE characteristic, and [`engine`] orders the work around
//! the script engine; [`strip_test`] tests a strip without one. Radio, flash, pulse generator and script engine are outside: where one of
//! them is needed, a state machine names the action and takes its result. [`laws`] states what
//! holds across functions.

pub mod engine;
pub mod laws;
pub mod led;
pub mod link;
pub mod ota;
pub mod sk6812;
pub mod strip_test;
