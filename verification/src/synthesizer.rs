//! One synthesis request against a service that may already be gone.

use crate::error::KokoroError;
use crate::{synth_outcome, KokoroTts, SynthStep};
use vstd::prelude::*;

verus! {

/// Starts one synthesis of `text` in voice `voice` for `caller`.
///
/// `service` is what a weak reference to the service resolves to at this
/// moment. If it resolves to nothing the request fails as released, at once
/// and without touching anything; otherwise the request goes to the service.
pub fn synth(service: Option<&mut KokoroTts>, caller: u64, text: &str, voice: &str) -> (step:
    Result<SynthStep, KokoroError>)
    requires
        service matches Some(tts) ==> tts.wf(),
    ensures
        match service {
            None => step matches Err(KokoroError::ModelReleased),
            Some(tts) => {
                &&& final(tts).wf()
                &&& final(tts).voices() == tts.voices()
                &&& synth_outcome(tts, final(tts), caller, text@, voice@, step)
            },
        },
{
    match service {
        None => Err(KokoroError::ModelReleased),
        Some(tts) => tts.synth(caller, text, voice),
    }
}

} // verus!
