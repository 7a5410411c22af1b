//! Verified core of a two-pass loudness normalizer for interleaved
//! multi-channel audio.
//!
//! A run measures the loudness of a stream, derives one gain per channel,
//! rewinds the stream and writes it out again with the gain applied. This
//! crate holds everything about such a run that is independent of how a
//! sample is represented: how frames are cut out of the interleaved stream,
//! what shape a measurement and a gain vector have, which steps a run takes
//! and in which order, and the integer rules of the measurement algorithms.
//! Samples, measurements and gains are type parameters; the arithmetic on
//! them and all stream I/O belong to the caller.

pub mod accumulate;
pub mod error;
pub mod frame;
pub mod gain;
pub mod loudness;
pub mod measurement;
pub mod orchestrator;
pub mod progress;
pub mod settings;
pub mod stream;
