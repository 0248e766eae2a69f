//! A verified audio playback engine.
//!
//! The engine manages independent players, each of which can load a
//! compressed audio asset, decode it, and render it through a push-model
//! output: a shared FIFO sample buffer that a hardware-driven render
//! callback drains at its own cadence. The sample-rate / channel-count
//! converter, the per-player transport state machine, the shared buffer,
//! and device-identifier resolution are all specified and verified here;
//! the host shell, the OS audio bindings, and the MP3 bitstream decoder
//! stay outside, the decoder behind a small trusted seam.

pub mod buffer;
pub mod convert;
pub mod decode;
pub mod device;
pub mod engine;
pub mod error;
pub mod laws;
pub mod player;

pub use error::AudioError;
