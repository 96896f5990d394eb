//! Availability and latency probe support for a single HTTP endpoint.
//!
//! The library holds the verified core of the monitor: the timing
//! decomposition, the slowness classification policy, the log-line format
//! with its parser, and the alert decision logic. The surrounding binary
//! performs the actual DNS lookup, HTTP request, file append and desktop
//! notification, and hands plain measured values in.

pub mod classify;
pub mod clock;
pub mod digits;
pub mod logline;
pub mod measure;
pub mod report;
pub mod timestamp;
