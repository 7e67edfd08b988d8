//! The request, summary and progress values the engine exchanges with its
//! surroundings. Progress carries integers: percent in thousandths of a
//! percent, speed in thousandths of the real-time multiplier, and the
//! estimated remainder in milliseconds.

use vstd::prelude::*;

verus! {

/// A caller's conversion request: the input file and, optionally, the
/// encoder to insist on.
#[derive(Debug)]
pub struct ConvertRequest {
    pub input_path: String,
    pub av1_encoder: Option<String>,
}

/// What a finished conversion reports back.
#[derive(Debug)]
pub struct ConvertSummary {
    pub output_path: String,
    pub target_size_bytes: u64,
    pub audio_bitrate_kbps: u32,
    pub video_bitrate_kbps: u32,
    pub av1_encoder: String,
}

/// One progress notification. `percent_milli` runs from zero to a hundred
/// thousand; `speed_milli` is the speed multiplier in thousandths when one
/// is known; `eta_ms` is the estimated remainder in milliseconds when the
/// speed allows one.
#[derive(Debug)]
pub struct ProgressEvent {
    pub percent_milli: u32,
    pub speed_milli: Option<u64>,
    pub eta_ms: Option<u64>,
    pub label: String,
}

} // verus!
