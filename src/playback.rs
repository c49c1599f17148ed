//! Errors of playing a sound.
use vstd::prelude::*;

verus! {

/// Why a sound could not be played.
#[derive(Debug, Clone)]
pub enum PlaybackError {
    NoDevice,
    FileError(String),
    DecodeError(String),
    StreamError(String),
}

} // verus!
