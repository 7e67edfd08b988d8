//! Core engine for a size-targeted AV1 re-encode driven through an external
//! command-line transcoding tool.
//!
//! The library holds the verified logic: bitrate planning, encoder-candidate
//! resolution with fallback ordering, progress parsing and throttling,
//! the cancellation / single-flight registry state machine, and the error
//! protocol. Everything that touches the operating system (spawning the
//! tool, reading its pipes, killing processes, the user interface) lives
//! outside the library and feeds it plain values.

pub mod convert;
pub mod encoders;
pub mod error_protocol;
pub mod model;
pub mod output;
pub mod planning;
pub mod probe;
pub mod progress;
pub mod rate_control;
pub mod state;
pub mod strings;
