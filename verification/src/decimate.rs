//! The high-rate side of the decimation pipeline: the buffer that collects
//! the generator's samples for the resampler, and the driver that decides
//! when to simulate, when the buffer must be resampled and when the run is
//! over.
//!
//! The band-limited filter itself works on floating-point numbers and is
//! not part of this library.  Whoever drives a [`Pipeline`] hands the
//! buffer's samples to the filter when told to, and reports how many of
//! them the filter used.

use vstd::prelude::*;
use crate::error::ParamError;
use crate::params::{clock_edges, clock_edges_of, Parameters};
use crate::synth::{SynthState, Synthesizer};

verus! {

/// Number of samples that the high-rate buffer holds.
pub const HI_RATE_LEN: usize = 32768;

/// A fault of the resampler that ends the run.
#[derive(Clone, Copy, Debug, PartialEq, Eq, Structural)]
pub enum PipelineError {
    /// The resampler was given samples and used none.
    ResamplerStalled,
    /// The resampler claims to have used more samples than it was given.
    ResamplerOverrun,
}

/// What the driver of a pipeline has to do next.
#[derive(Clone, Copy, Debug, PartialEq, Eq, Structural)]
pub enum Action {
    /// The buffer is full: resample it and report what was used.
    Resample,
    /// Every clock edge has been simulated: flush what the buffer still
    /// holds and close the output.
    Finish,
}

/// The samples that wait for the resampler, oldest first.
pub struct HiRateBuffer {
    /// The waiting samples.
    pub samples: Vec<i16>,
}

impl HiRateBuffer {
    /// No more samples wait than the buffer holds.
    pub open spec fn wf(&self) -> bool {
        self.samples@.len() <= HI_RATE_LEN
    }

    /// An empty buffer.
    pub fn new() -> (made: Self)
        ensures
            made.samples@ == Seq::<i16>::empty(),
            made.wf(),
    {
        HiRateBuffer { samples: Vec::new() }
    }

    /// Whether the buffer is full.
    pub fn is_full(&self) -> (full: bool)
        ensures
            full == (self.samples@.len() >= HI_RATE_LEN),
    {
        self.samples.len() >= HI_RATE_LEN
    }

    /// Advances `synth` by up to `edges` clock edges, stopping early when
    /// the buffer is full, and appends the sample of every edge.  Returns
    /// the number of edges simulated.
    pub fn fill_from(&mut self, synth: &mut Synthesizer, edges: u64) -> (done: u64)
        requires
            old(self).wf(),
            old(synth).wf(),
        ensures
            final(self).wf(),
            final(synth).wf(),
            done == if edges <= HI_RATE_LEN - old(self).samples@.len() {
                edges as int
            } else {
                HI_RATE_LEN - old(self).samples@.len()
            },
            final(synth).current@ == old(synth).current@.after(done as nat),
            final(self).samples@ == old(self).samples@ + old(synth).current@.stream(done as nat),
    {
        let mut done: u64 = 0;
        proof {
            assert(self.samples@ =~= old(self).samples@ + old(synth).current@.stream(0));
        }
        while done < edges && self.samples.len() < HI_RATE_LEN
            invariant
                synth.wf(),
                done <= edges,
                self.samples@.len() == old(self).samples@.len() + done,
                self.samples@.len() <= HI_RATE_LEN,
                synth.current@ == old(synth).current@.after(done as nat),
                self.samples@ == old(self).samples@ + old(synth).current@.stream(done as nat),
            decreases edges - done,
        {
            let sample = synth.tick();
            self.samples.push(sample);
            proof {
                old(synth).current@.lemma_stream_push(done as nat);
                assert(self.samples@ =~= old(self).samples@ + old(synth).current@.stream(
                    (done + 1) as nat,
                ));
            }
            done = done + 1;
        }
        done
    }

    /// Drops the `in_used` oldest samples, which the resampler has used, and
    /// moves the rest to the front.  It is a fault of the resampler to have
    /// used none of the waiting samples, or more than there were; the
    /// buffer is then left as it was.
    pub fn consume(&mut self, in_used: usize) -> (outcome: Result<(), PipelineError>)
        requires
            old(self).wf(),
        ensures
            final(self).wf(),
            outcome == consume_outcome(old(self).samples@.len(), in_used as nat),
            outcome is Ok ==> final(self).samples@ == old(self).samples@.subrange(
                in_used as int,
                old(self).samples@.len() as int,
            ),
            outcome is Err ==> final(self).samples@ == old(self).samples@,
    {
        let len = self.samples.len();
        if in_used > len {
            return Err(PipelineError::ResamplerOverrun);
        }
        if in_used == 0 && len > 0 {
            return Err(PipelineError::ResamplerStalled);
        }
        let rest = len - in_used;
        let mut j: usize = 0;
        while j < rest
            invariant
                j <= rest,
                rest == len - in_used,
                self.samples@.len() == len,
                len == old(self).samples@.len(),
                forall|i: int| 0 <= i < j ==> self.samples@[i] == old(self).samples@[i + in_used],
                forall|i: int| j <= i < len ==> self.samples@[i] == old(self).samples@[i],
            decreases rest - j,
        {
            let moved = self.samples[j + in_used];
            self.samples[j] = moved;
            j = j + 1;
        }
        self.samples.truncate(rest);
        proof {
            assert(self.samples@ =~= old(self).samples@.subrange(in_used as int, len as int));
        }
        Ok(())
    }
}

/// What `consume` answers when `waiting` samples wait and the resampler
/// reports `in_used` of them as used.
pub open spec fn consume_outcome(waiting: nat, in_used: nat) -> Result<(), PipelineError> {
    if in_used > waiting {
        Err(PipelineError::ResamplerOverrun)
    } else if in_used == 0 && waiting > 0 {
        Err(PipelineError::ResamplerStalled)
    } else {
        Ok(())
    }
}

/// A run of the generator for a fixed number of clock edges, with the
/// buffer that its samples are collected in.
pub struct Pipeline {
    /// The generator.
    pub synth: Synthesizer,
    /// The samples that wait for the resampler.
    pub buffer: HiRateBuffer,
    /// Number of clock edges that the run is to simulate.
    pub edges_total: u64,
    /// Number of clock edges simulated so far.
    pub edges_done: u64,
    /// The registers that the run started from.
    pub start: Ghost<SynthState>,
}

impl Pipeline {
    /// The run has not gone past its end, the generator stands where
    /// `edges_done` clock edges take it from the start, and the buffer holds
    /// the latest samples of the run's stream.
    pub open spec fn wf(&self) -> bool {
        &&& self.synth.wf()
        &&& self.buffer.wf()
        &&& self.edges_done <= self.edges_total
        &&& self.synth.current@ == self.start@.after(self.edges_done as nat)
        &&& self.buffer.samples@.len() <= self.edges_done
        &&& self.buffer.samples@ == self.latest(self.buffer.samples@.len())
    }

    /// The `count` latest samples that the run has put out.
    pub open spec fn latest(&self, count: nat) -> Seq<i16> {
        self.start@.stream(self.edges_done as nat).subrange(
            self.edges_done - count,
            self.edges_done as int,
        )
    }

    /// What a run of `seconds` seconds with `params` is refused for, if it
    /// is: a fault of the parameters first, then a duration whose edge count
    /// does not fit in 64 bits.
    pub open spec fn fault(params: Parameters, seconds: u64) -> Option<ParamError> {
        if params.fault() is Some {
            params.fault()
        } else if clock_edges_of(seconds) > u64::MAX {
            Some(ParamError::DurationOverflow)
        } else {
            None
        }
    }

    /// A run of `seconds` seconds at reset: no edge simulated, the buffer
    /// empty.  The run is to simulate exactly `seconds` times the clock
    /// frequency edges.  Parameters that cannot be simulated and a duration
    /// that is too long are refused before anything is simulated.
    pub fn new(params: &Parameters, seconds: u64) -> (made: Result<Self, ParamError>)
        ensures
            made is Ok <==> Self::fault(*params, seconds) is None,
            made is Err ==> Some(made->Err_0) == Self::fault(*params, seconds),
            made is Ok ==> {
                &&& made->Ok_0.wf()
                &&& made->Ok_0.start@ == SynthState::reset(*params, 0)
                &&& made->Ok_0.buffer.samples@ == Seq::<i16>::empty()
                &&& made->Ok_0.edges_total == clock_edges_of(seconds)
                &&& made->Ok_0.edges_done == 0
            },
    {
        let synth = match Synthesizer::new(params) {
            Ok(synth) => synth,
            Err(e) => {
                return Err(e);
            },
        };
        let edges_total = match clock_edges(seconds) {
            Ok(edges) => edges,
            Err(e) => {
                return Err(e);
            },
        };
        let start = Ghost(synth.current@);
        let made = Pipeline { synth, buffer: HiRateBuffer::new(), edges_total, edges_done: 0, start };
        proof {
            assert(made.buffer.samples@ =~= made.latest(0));
        }
        Ok(made)
    }

    /// Simulates clock edges until the buffer is full or the run is over,
    /// and says which.  As many edges are simulated as are left of the run,
    /// or as the buffer has room for, and the sample of each is appended to
    /// the buffer.  The run is over exactly when every edge of it has been
    /// simulated.
    pub fn advance(&mut self) -> (action: Action)
        requires
            old(self).wf(),
        ensures
            final(self).wf(),
            final(self).start == old(self).start,
            final(self).edges_total == old(self).edges_total,
            final(self).edges_done - old(self).edges_done == advance_edges(
                old(self).edges_total - old(self).edges_done,
                old(self).buffer.samples@.len(),
            ),
            final(self).buffer.samples@ == old(self).buffer.samples@ + old(
                self,
            ).synth.current@.stream((final(self).edges_done - old(self).edges_done) as nat),
            action == Action::Finish <==> final(self).edges_done == final(self).edges_total,
            action == Action::Resample <==> final(self).edges_done < final(self).edges_total,
            action == Action::Resample ==> final(self).buffer.samples@.len() == HI_RATE_LEN,
    {
        let left = self.edges_total - self.edges_done;
        let done = self.buffer.fill_from(&mut self.synth, left);
        proof {
            let e = old(self).edges_done as nat;
            let waiting = old(self).buffer.samples@.len();
            self.start@.lemma_after_after(e, done as nat);
            self.start@.lemma_stream_split(e, done as nat);
            assert(self.buffer.samples@ =~= self.start@.stream(e + done as nat).subrange(
                e + done - (waiting + done),
                (e + done) as int,
            ));
        }
        self.edges_done = self.edges_done + done;
        if self.edges_done == self.edges_total {
            Action::Finish
        } else {
            Action::Resample
        }
    }

    /// Takes note that the resampler has used the `in_used` oldest samples
    /// of the buffer: they are dropped and the rest is carried over.  It is
    /// a fault of the resampler to have used none of the waiting samples, or
    /// more than there were; the run is then left as it was.
    pub fn consumed(&mut self, in_used: usize) -> (outcome: Result<(), PipelineError>)
        requires
            old(self).wf(),
        ensures
            final(self).wf(),
            final(self).start == old(self).start,
            final(self).edges_total == old(self).edges_total,
            final(self).edges_done == old(self).edges_done,
            final(self).synth.current@ == old(self).synth.current@,
            outcome == consume_outcome(old(self).buffer.samples@.len(), in_used as nat),
            outcome is Ok ==> final(self).buffer.samples@ == old(self).buffer.samples@.subrange(
                in_used as int,
                old(self).buffer.samples@.len() as int,
            ),
            outcome is Err ==> final(self).buffer.samples@ == old(self).buffer.samples@,
    {
        let outcome = self.buffer.consume(in_used);
        proof {
            assert(self.buffer.samples@ =~= self.latest(self.buffer.samples@.len()));
        }
        outcome
    }

    /// Whether every clock edge of the run has been simulated.
    pub fn finished(&self) -> (over: bool)
        ensures
            over == (self.edges_done == self.edges_total),
    {
        self.edges_done == self.edges_total
    }

    /// A run that is over has simulated every clock edge of its duration,
    /// no more and no fewer: the generator stands where `edges_total` edges
    /// take it from the start.
    pub proof fn law_finished_run_simulated_every_edge(&self)
        requires
            self.wf(),
            self.edges_done == self.edges_total,
        ensures
            self.synth.current@ == self.start@.after(self.edges_total as nat),
    {
    }
}

/// How many edges one call of `advance` simulates when `left` edges are
/// left and `waiting` samples wait in the buffer: as many as are left, or
/// as the buffer has room for.
pub open spec fn advance_edges(left: int, waiting: nat) -> int {
    if left <= HI_RATE_LEN - waiting {
        left
    } else {
        HI_RATE_LEN - waiting
    }
}

} // verus!
