//! Error taxonomy of the engine.
//!
//! The taxonomy is deliberately narrow: the only failure the engine itself
//! can report is a graph lookup with an identifier it never issued.  All
//! numeric operations on the render path are total.

use vstd::prelude::*;

verus! {

/// Failures of the audio graph.
#[derive(Clone, Copy, Debug, PartialEq, Eq, Structural)]
pub enum AudioError {
    /// The given identifier names no node of the graph.
    AudioGraphInvalidId(u32),
}

impl AudioError {
    /// A short description of the failure.
    pub fn message(&self) -> (s: String)
        ensures
            s@ == "AudioGraphInvalidId"@,
    {
        match self {
            AudioError::AudioGraphInvalidId(_) => "AudioGraphInvalidId".to_string(),
        }
    }
}

/// Top-level error of the engine.
#[derive(Clone, Copy, Debug, PartialEq, Eq, Structural)]
pub enum Error {
    Audio(AudioError),
}

impl Error {
    /// A short description of the failure.
    pub fn message(&self) -> (s: String)
        ensures
            s@ == "Audio"@,
    {
        match self {
            Error::Audio(_) => "Audio".to_string(),
        }
    }
}

} // verus!
