//! Session configuration. Every value is fixed for the lifetime of a session.

use vstd::prelude::*;

verus! {

/// Samples per second delivered by the capture source.
pub const SAMPLE_RATE: u32 = 44_100;

/// Number of mono samples in one analysis window.
pub const SAMPLES_PER_WINDOW: usize = 2048;

/// Highest analyzed frequency, in hertz.
pub const MAX_FREQUENCY: u32 = 15_000;

/// Number of analysis frames kept by the scrolling history view.
pub const HISTORY_SIZE: usize = 512;

/// Upper end of the displayed level range, in decibels.
pub const MAX_DB: i32 = -20;

/// Lower end of the displayed level range, in decibels.
pub const MIN_DB: i32 = -50;

/// Name of the input device, or `None` for the system default.
pub const INPUT_DEVICE_NAME: Option<&'static str> = None;

/// Frequency, in hertz, whose bin is highlighted instead of the loudest one.
pub const ANALYZE_FREQUENCY: Option<u32> = None;

} // verus!
