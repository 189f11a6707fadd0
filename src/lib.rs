//! Frequency-tunable power measurement for a software-defined radio.
//!
//! The library holds the decisions of the measurement engine: validation of
//! requested frequencies, the tuning and sub-band arithmetic of the spectrum
//! pipeline, the parsing of a scanning utility's output, the graceful-then-forced
//! termination of that utility, and the control loop that serialises sessions.
//! Power levels are expressed as whole hundredths of a decibel.

pub mod control;
pub mod decimal;
pub mod dsp;
pub mod frequency;
pub mod scan;
pub mod supervisor;
