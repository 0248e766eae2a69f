//! Error values returned by engine operations.

use vstd::prelude::*;

verus! {

/// Every way an engine operation can fail. Errors are returned as values,
/// never raised as panics.
#[derive(Clone, Copy, Debug, PartialEq, Eq, Structural)]
pub enum AudioError {
    /// The handle does not name a live player.
    NotFound,
    /// Device resolution, open, or reconfiguration failed.
    DeviceError,
    /// The compressed payload is malformed or unsupported.
    DecodeError,
    /// A zero sample rate or channel count was supplied.
    InvalidArgument,
    /// Output resources are absent and could not be created lazily.
    UninitializedOutput,
    /// The engine thread is unreachable.
    Disconnected,
}

impl AudioError {
    /// A human-readable description of the error.
    pub fn message(&self) -> (r: &'static str)
        ensures
            r@.len() > 0,
    {
        let r = match self {
            AudioError::NotFound => "player not found",
            AudioError::DeviceError => "audio device error",
            AudioError::DecodeError => "could not decode audio data",
            AudioError::InvalidArgument => "invalid argument",
            AudioError::UninitializedOutput => "output is not initialized",
            AudioError::Disconnected => "audio thread disconnected",
        };
        proof {
            reveal_strlit("player not found");
            reveal_strlit("audio device error");
            reveal_strlit("could not decode audio data");
            reveal_strlit("invalid argument");
            reveal_strlit("output is not initialized");
            reveal_strlit("audio thread disconnected");
        }
        r
    }
}

} // verus!
