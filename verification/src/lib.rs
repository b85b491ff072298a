//! Monitoring probe library for a workflow-scheduling service.
//!
//! The library holds the verified core of the probe: formatting elapsed
//! durations, scanning a reverse-chronological execution history for the
//! newest completed run, classifying that run's outcome into a severity,
//! and rendering the one-line report together with its exit code.

pub mod classify;
pub mod duration;
pub mod finder;
pub mod nagios;
