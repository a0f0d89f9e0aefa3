//! Bookkeeping for a text-to-speech service that shares a fixed set of
//! exclusive inference sessions among concurrent callers.
//!
//! Every decision the service takes (who gets a session, who waits, which
//! error a request ends in, when a stream is finished) is a sequential
//! transition on plain values, so that the surrounding asynchronous code only
//! has to perform what the transition tells it to.

pub mod batch;
pub mod error;
pub mod pool_laws;
pub mod session_pool;
pub mod stream;
pub mod synthesizer;
pub mod voice;

use crate::error::KokoroError;
use crate::session_pool::{Admission, PoolState, SessionHandle, SessionPool};
use crate::stream::{StreamState, SynthSession};
use crate::voice::{lookup, VoiceTable};
use vstd::prelude::*;

verus! {

/// One synthesis the surrounding code is to run: the text, the position of
/// the voice's embedding pack, and exclusive use of one session.
#[derive(Debug)]
pub struct SynthJob {
    pub text: String,
    pub pack: usize,
    pub handle: SessionHandle,
}

/// What a request is told once its voice is known.
#[derive(Debug)]
pub enum SynthStep {
    /// A session was idle: run the job now.
    Run(SynthJob),
    /// Every session is busy: the caller waits at the admission gate and is
    /// handed a session by a later release. Carries the position of the
    /// voice's pack.
    Wait(usize),
}

/// What one request does to the service and what it is told: an unknown
/// voice fails with the identifier asked for and leaves the pool alone;
/// a known one asks the pool for a session on behalf of `caller`.
pub open spec fn synth_outcome(
    before: &KokoroTts,
    after: &KokoroTts,
    caller: u64,
    text: Seq<char>,
    voice: Seq<char>,
    step: Result<SynthStep, KokoroError>,
) -> bool {
    match step {
        Err(KokoroError::VoiceNotFound(name)) => {
            &&& lookup(before.voices(), voice).is_none()
            &&& name@ == voice
            &&& after.pool() == before.pool()
        },
        Err(_) => false,
        Ok(SynthStep::Run(job)) => {
            &&& lookup(before.voices(), voice) == Some(job.pack as int)
            &&& job.text@ == text
            &&& before.pool().grant_on_acquire() == Some(job.handle.session_id())
            &&& job.handle.holder_id() == caller
            &&& after.holds(&job.handle)
            &&& !before.holds(&job.handle)
            &&& after.pool() == before.pool().acquire(caller)
        },
        Ok(SynthStep::Wait(pack)) => {
            &&& lookup(before.voices(), voice) == Some(pack as int)
            &&& before.pool().grant_on_acquire().is_none()
            &&& after.pool() == before.pool().acquire(caller)
        },
    }
}

/// The service: a pool of inference sessions and the table of voices.
#[derive(Debug)]
pub struct KokoroTts {
    model: SessionPool,
    voices: VoiceTable,
}

impl KokoroTts {
    /// The pool's state.
    pub closed spec fn pool(&self) -> PoolState {
        self.model@
    }

    /// The identifiers of the voices loaded.
    pub closed spec fn voices(&self) -> Seq<Seq<char>> {
        self.voices@
    }

    /// The service's invariant: that of its pool.
    pub open spec fn wf(&self) -> bool {
        self.pool().wf()
    }

    /// Whether `handle` holds a session this service has checked out.
    pub open spec fn holds(&self, handle: &SessionHandle) -> bool {
        self.pool().checked_out.contains(handle.session_id())
    }

    /// A service over the voices `voices` with `pool_size` sessions, all of
    /// them idle.
    pub fn new_with_pool(voices: Vec<String>, pool_size: usize) -> (tts: KokoroTts)
        ensures
            tts.wf(),
            tts.pool() == PoolState::fresh(pool_size as nat),
            tts.voices() == Seq::new(voices@.len(), |i: int| voices@[i]@),
    {
        KokoroTts { model: SessionPool::new(pool_size), voices: VoiceTable::new(voices) }
    }

    /// A service over the voices `voices` with a single session.
    pub fn new(voices: Vec<String>) -> (tts: KokoroTts)
        ensures
            tts.wf(),
            tts.pool() == PoolState::fresh(1),
            tts.voices() == Seq::new(voices@.len(), |i: int| voices@[i]@),
    {
        KokoroTts::new_with_pool(voices, 1)
    }

    /// Read access to the pool.
    pub fn model(&self) -> (pool: &SessionPool)
        ensures
            pool@ == self.pool(),
    {
        &self.model
    }

    /// Read access to the voice table.
    pub fn voice_table(&self) -> (table: &VoiceTable)
        ensures
            table@ == self.voices(),
    {
        &self.voices
    }

    /// Whether `handle` holds a session this service has checked out.
    pub fn owns(&self, handle: &SessionHandle) -> (yes: bool)
        ensures
            yes == self.holds(handle),
    {
        self.model.owns(handle)
    }

    /// Starts one synthesis of `text` in voice `voice` for `caller`.
    ///
    /// An unknown voice fails at once, with the identifier asked for, and
    /// leaves the pool alone. Otherwise the caller asks the pool for a
    /// session and is told to run the job or to wait.
    pub fn synth(&mut self, caller: u64, text: &str, voice: &str) -> (step: Result<
        SynthStep,
        KokoroError,
    >)
        requires
            old(self).wf(),
        ensures
            final(self).wf(),
            final(self).voices() == old(self).voices(),
            synth_outcome(old(self), final(self), caller, text@, voice@, step),
    {
        match self.voices.find(voice) {
            None => Err(KokoroError::VoiceNotFound(voice.to_owned())),
            Some(pack) => match self.model.acquire(caller) {
                Admission::Granted(handle) => Ok(
                    SynthStep::Run(SynthJob { text: text.to_owned(), pack, handle }),
                ),
                Admission::Queued => Ok(SynthStep::Wait(pack)),
            },
        }
    }

    /// Ends one synthesis. Whether the engine succeeded or failed, the
    /// session goes back to the pool, and the longest-waiting caller, if any,
    /// is handed it. A failure of the engine is passed on with its cause.
    pub fn finish(&mut self, handle: SessionHandle, failure: Option<String>) -> (done: (
        Option<SessionHandle>,
        Result<(), KokoroError>,
    ))
        requires
            old(self).wf(),
            old(self).holds(&handle),
        ensures
            final(self).wf(),
            final(self).voices() == old(self).voices(),
            final(self).pool() == old(self).pool().release(handle.session_id()),
            match done.0 {
                Some(next) => {
                    &&& old(self).pool().woken_on_release() == Some(next.holder_id())
                    &&& next.session_id() == handle.session_id()
                    &&& final(self).holds(&next)
                },
                None => {
                    &&& old(self).pool().woken_on_release().is_none()
                    &&& !final(self).holds(&handle)
                },
            },
            match failure {
                Some(cause) => done.1 == Err::<(), KokoroError>(KokoroError::Engine(cause)),
                None => done.1.is_ok(),
            },
    {
        let woken = self.model.release(handle);
        let outcome = match failure {
            Some(cause) => Err(KokoroError::Engine(cause)),
            None => Ok(()),
        };
        (woken, outcome)
    }

    /// Withdraws a caller that was told to wait and no longer wants a
    /// session. Sessions and permits are untouched.
    pub fn cancel(&mut self, caller: u64) -> (was_waiting: bool)
        requires
            old(self).wf(),
        ensures
            final(self).wf(),
            final(self).voices() == old(self).voices(),
            final(self).pool() == old(self).pool().cancel(caller),
            was_waiting == old(self).pool().waiting.contains(caller),
    {
        self.model.cancel(caller)
    }

    /// Opens a streaming session in voice `voice`. The session keeps no hold
    /// on the service: each chunk submitted later must be given the service
    /// anew, and fails if it is gone by then.
    pub fn stream(&self, voice: &str) -> (session: SynthSession)
        ensures
            session.wf(),
            session.voice() == voice@,
            session@ == StreamState::opened(),
    {
        SynthSession::open(voice)
    }

    /// The sessions whose instrumentation is to be flushed now: the idle ones.
    pub fn end_profiling(&self) -> (flush: Vec<usize>)
        ensures
            flush@ == self.pool().idle,
    {
        self.model.end_profiling()
    }
}

} // verus!
