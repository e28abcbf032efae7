//! Decision engine of a thermostat for a cooling appliance: a dwell-guarded
//! on/off state machine, adaptive threshold compensators, a tracker of each
//! half-cycle's extremes, and the recovery of a safe state after a restart.
//!
//! Temperatures are thousandths of a degree Celsius and times are milliseconds on
//! a monotonic clock, unless a name says otherwise.

pub mod compensator;
pub mod controller;
pub mod environment;
pub mod extremes;
pub mod recovery;
pub mod state_machine;
