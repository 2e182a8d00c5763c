//! Telemetry extraction for a hardware-sensor feed: a labelled sensor tree is
//! searched for named readings, readings are normalised to exact ratios, a
//! poll cycle decides when the feed is queried, and each successful poll
//! yields the list of parameter messages to send.

pub mod clock;
pub mod config;
pub mod display;
pub mod emit;
pub mod monitor;
pub mod poll;
pub mod reading;
pub mod text;
pub mod tree;
