//! A streaming session: text chunks go in at one end, results come out at
//! the other, in whatever order the syntheses finish.

use crate::error::KokoroError;
use crate::synthesizer::synth;
use crate::{synth_outcome, KokoroTts, SynthStep};
use vstd::prelude::*;

verus! {

/// How far a session has come.
#[derive(Clone, Copy, Debug)]
pub enum StreamPhase {
    /// The producer may submit and the consumer may receive.
    Open,
    /// No more submissions; what was submitted still drains.
    ProducerClosed,
    /// Both ends are torn down.
    Closed,
}

/// The mathematical state of a session.
pub struct StreamState {
    pub phase: StreamPhase,
    /// Syntheses scheduled and not yet finished.
    pub in_flight: nat,
    /// Results that wait for the consumer.
    pub ready: nat,
    /// Whether the consumer end still exists.
    pub listening: bool,
}

impl StreamState {
    /// Results are kept only for a consumer that exists, and a closed session
    /// has nothing left.
    pub open spec fn wf(self) -> bool {
        &&& self.in_flight + self.ready <= usize::MAX
        &&& !self.listening ==> self.ready == 0
        &&& self.phase is Closed ==> self.in_flight == 0 && self.ready == 0
        &&& !self.listening && self.phase is ProducerClosed ==> self.in_flight > 0
    }

    /// A session that was just opened.
    pub open spec fn opened() -> StreamState {
        StreamState { phase: StreamPhase::Open, in_flight: 0, ready: 0, listening: true }
    }

    /// Whether a chunk submitted now is taken on.
    pub open spec fn accepts(self) -> bool {
        self.phase is Open && self.listening
    }

    /// With nobody left to receive and nothing left to finish, a session
    /// whose producer has closed is closed altogether.
    pub open spec fn settled(self) -> StreamState {
        if !self.listening && self.phase is ProducerClosed && self.in_flight == 0 {
            StreamState { phase: StreamPhase::Closed, ..self }
        } else {
            self
        }
    }

    /// State after a chunk was scheduled for synthesis.
    pub open spec fn scheduled(self) -> StreamState {
        StreamState { in_flight: self.in_flight + 1, ..self }
    }

    /// State after a chunk failed before any synthesis began: its error is a
    /// result like any other.
    pub open spec fn failed_early(self) -> StreamState {
        StreamState { ready: self.ready + 1, ..self }
    }

    /// State after one synthesis has finished. Its result waits for the
    /// consumer, or is discarded if the consumer is gone.
    pub open spec fn complete(self) -> StreamState {
        StreamState {
            in_flight: (self.in_flight - 1) as nat,
            ready: if self.listening {
                self.ready + 1
            } else {
                self.ready
            },
            ..self
        }.settled()
    }

    /// State after the producer end is closed or dropped.
    pub open spec fn close_producer(self) -> StreamState {
        if self.phase is Open {
            StreamState { phase: StreamPhase::ProducerClosed, ..self }.settled()
        } else {
            self
        }
    }

    /// State after the consumer end is dropped: results that were waiting
    /// are discarded, syntheses in flight run on.
    pub open spec fn drop_consumer(self) -> StreamState {
        StreamState { ready: 0, listening: false, ..self }.settled()
    }

    /// What the consumer is told when it asks for the next result.
    pub open spec fn delivery(self) -> Delivery {
        if !self.listening {
            Delivery::End
        } else if self.ready > 0 {
            Delivery::Item
        } else if !(self.phase is Open) && self.in_flight == 0 {
            Delivery::End
        } else {
            Delivery::Pending
        }
    }

    /// State after the consumer has asked for the next result.
    pub open spec fn poll(self) -> StreamState {
        if !self.listening {
            self
        } else if self.ready > 0 {
            StreamState { ready: (self.ready - 1) as nat, ..self }
        } else if !(self.phase is Open) && self.in_flight == 0 {
            StreamState { phase: StreamPhase::Closed, ..self }
        } else {
            self
        }
    }
}

/// What the consumer is told when it asks for the next result.
#[derive(Clone, Copy, Debug, PartialEq, Eq, Structural)]
pub enum Delivery {
    /// A result is handed over.
    Item,
    /// Nothing is ready yet, but more may come.
    Pending,
    /// The sequence of results has ended.
    End,
}

/// What becomes of a submitted chunk.
#[derive(Debug)]
pub enum Submission {
    /// The producer end is closed or the consumer is gone: nothing happens.
    Refused,
    /// The chunk failed at once; the error is the chunk's result.
    Failed(KokoroError),
    /// One synthesis was started on the shared pool.
    Scheduled(SynthStep),
}

/// One streaming session in one voice.
#[derive(Debug)]
pub struct SynthSession {
    voice: String,
    phase: StreamPhase,
    in_flight: usize,
    ready: usize,
    listening: bool,
}

impl View for SynthSession {
    type V = StreamState;

    closed spec fn view(&self) -> StreamState {
        StreamState {
            phase: self.phase,
            in_flight: self.in_flight as nat,
            ready: self.ready as nat,
            listening: self.listening,
        }
    }
}

impl SynthSession {
    /// The session's invariant.
    pub open spec fn wf(&self) -> bool {
        self@.wf()
    }

    /// The voice every chunk of this session is spoken in.
    pub closed spec fn voice(&self) -> Seq<char> {
        self.voice@
    }

    /// Opens a session in voice `voice`.
    pub fn open(voice: &str) -> (session: SynthSession)
        ensures
            session.wf(),
            session.voice() == voice@,
            session@ == StreamState::opened(),
    {
        SynthSession {
            voice: voice.to_owned(),
            phase: StreamPhase::Open,
            in_flight: 0,
            ready: 0,
            listening: true,
        }
    }

    /// Chunks scheduled or finished whose results the consumer has not taken.
    pub fn outstanding(&self) -> (n: usize)
        requires
            self.wf(),
        ensures
            n == self@.in_flight + self@.ready,
    {
        self.in_flight + self.ready
    }

    /// Syntheses scheduled and not yet finished.
    pub fn in_flight(&self) -> (n: usize)
        ensures
            n == self@.in_flight,
    {
        self.in_flight
    }

    /// Whether the session is closed at both ends.
    pub fn is_closed(&self) -> (yes: bool)
        ensures
            yes == (self@.phase is Closed),
    {
        match self.phase {
            StreamPhase::Closed => true,
            _ => false,
        }
    }

    /// Whether a chunk submitted now would be taken on.
    pub fn accepts(&self) -> (yes: bool)
        ensures
            yes == self@.accepts(),
    {
        match self.phase {
            StreamPhase::Open => self.listening,
            _ => false,
        }
    }

    /// Submits one chunk of text on behalf of `caller`.
    ///
    /// `service` is what the session's weak reference resolves to at this
    /// moment. If it resolves to nothing the chunk fails as released, without
    /// waiting for anything; an unknown voice fails with its identifier; else
    /// one synthesis is started on the service's pool.
    pub fn submit(&mut self, service: Option<&mut KokoroTts>, caller: u64, text: &str) -> (sub:
        Submission)
        requires
            old(self).wf(),
            old(self)@.in_flight + old(self)@.ready < usize::MAX,
            service matches Some(tts) ==> tts.wf(),
        ensures
            final(self).wf(),
            final(self).voice() == old(self).voice(),
            service matches Some(tts) ==> final(tts).wf() && final(tts).voices() == tts.voices(),
            !old(self)@.accepts() ==> {
                &&& sub is Refused
                &&& final(self)@ == old(self)@
                &&& service matches Some(tts) ==> final(tts).pool() == tts.pool()
            },
            old(self)@.accepts() ==> match service {
                None => {
                    &&& sub matches Submission::Failed(KokoroError::ModelReleased)
                    &&& final(self)@ == old(self)@.failed_early()
                },
                Some(tts) => match sub {
                    Submission::Refused => false,
                    Submission::Failed(e) => {
                        &&& synth_outcome(
                            tts,
                            final(tts),
                            caller,
                            text@,
                            old(self).voice(),
                            Err(e),
                        )
                        &&& final(self)@ == old(self)@.failed_early()
                    },
                    Submission::Scheduled(step) => {
                        &&& synth_outcome(
                            tts,
                            final(tts),
                            caller,
                            text@,
                            old(self).voice(),
                            Ok(step),
                        )
                        &&& final(self)@ == old(self)@.scheduled()
                    },
                },
            },
    {
        if !self.accepts() {
            return Submission::Refused;
        }
        match synth(service, caller, text, self.voice.as_str()) {
            Ok(step) => {
                self.in_flight += 1;
                Submission::Scheduled(step)
            },
            Err(e) => {
                self.ready += 1;
                Submission::Failed(e)
            },
        }
    }

    /// Records that one scheduled synthesis has finished, well or badly.
    pub fn complete(&mut self)
        requires
            old(self).wf(),
            old(self)@.in_flight > 0,
        ensures
            final(self).wf(),
            final(self).voice() == old(self).voice(),
            final(self)@ == old(self)@.complete(),
    {
        self.in_flight -= 1;
        if self.listening {
            self.ready += 1;
        }
        self.settle();
    }

    /// Closes the producer end. Closing it twice changes nothing.
    pub fn close_producer(&mut self)
        requires
            old(self).wf(),
        ensures
            final(self).wf(),
            final(self).voice() == old(self).voice(),
            final(self)@ == old(self)@.close_producer(),
    {
        match self.phase {
            StreamPhase::Open => {
                self.phase = StreamPhase::ProducerClosed;
                self.settle();
            },
            _ => {},
        }
    }

    /// Drops the consumer end.
    pub fn drop_consumer(&mut self)
        requires
            old(self).wf(),
        ensures
            final(self).wf(),
            final(self).voice() == old(self).voice(),
            final(self)@ == old(self)@.drop_consumer(),
    {
        self.ready = 0;
        self.listening = false;
        self.settle();
    }

    /// The consumer asks for the next result.
    pub fn poll(&mut self) -> (delivery: Delivery)
        requires
            old(self).wf(),
        ensures
            final(self).wf(),
            final(self).voice() == old(self).voice(),
            delivery == old(self)@.delivery(),
            final(self)@ == old(self)@.poll(),
    {
        if !self.listening {
            Delivery::End
        } else if self.ready > 0 {
            self.ready -= 1;
            Delivery::Item
        } else {
            let open = match self.phase {
                StreamPhase::Open => true,
                _ => false,
            };
            if !open && self.in_flight == 0 {
                self.phase = StreamPhase::Closed;
                Delivery::End
            } else {
                Delivery::Pending
            }
        }
    }

    fn settle(&mut self)
        ensures
            final(self).voice() == old(self).voice(),
            final(self)@ == old(self)@.settled(),
    {
        let draining = match self.phase {
            StreamPhase::ProducerClosed => true,
            _ => false,
        };
        if !self.listening && draining && self.in_flight == 0 {
            self.phase = StreamPhase::Closed;
        }
    }
}

/// A session whose producer has closed comes to an end: once nothing is in
/// flight, the consumer needs exactly as many polls as results are ready
/// before it is told that the sequence has ended, and the session is then
/// closed.
pub proof fn lemma_drained_session_ends(s: StreamState)
    requires
        s.wf(),
        s.listening,
        s.phase is ProducerClosed,
        s.in_flight == 0,
    ensures
        s.ready > 0 ==> s.delivery() == Delivery::Item && s.poll().ready == s.ready - 1
            && s.poll().phase is ProducerClosed,
        s.ready == 0 ==> s.delivery() == Delivery::End && s.poll().phase is Closed,
{
}

/// Nothing is lost or made up: every transition keeps the invariant.
pub proof fn lemma_stream_keeps_invariant(s: StreamState)
    requires
        s.wf(),
    ensures
        s.close_producer().wf(),
        s.drop_consumer().wf(),
        s.poll().wf(),
        s.in_flight > 0 ==> s.complete().wf(),
        s.accepts() && s.in_flight + s.ready < usize::MAX ==> s.scheduled().wf()
            && s.failed_early().wf(),
        StreamState::opened().wf(),
{
}

} // verus!
