//! The ways a synthesis request can fail.

use vstd::prelude::*;

verus! {

/// Why a request to the service failed.
#[derive(Debug)]
pub enum KokoroError {
    /// The requested voice is not in the voice table; carries the
    /// identifier that was asked for.
    VoiceNotFound(String),
    /// The service that owned the sessions and the voices is gone.
    ModelReleased,
    /// Phonemisation, tokenisation or inference failed; carries the cause as
    /// the engine reported it.
    Engine(String),
}

} // verus!
