//! Sampling a recorded waveform: from the value changes of a clock and of a
//! one-bit sound signal, the samples that the sound signal shows at the
//! clock's falling edges.
//!
//! This serves to render the trace of an independent simulation of the same
//! hardware for comparison.  Reading the trace and writing the samples is
//! left to the caller, who reports each value change and gets back what to
//! write.

use vstd::prelude::*;

verus! {

/// After how many changes of the clock a sign of progress is due.
pub const PROGRESS_INTERVAL: u64 = 1_048_576;

/// A four-state logic value.
#[derive(Clone, Copy, Debug, PartialEq, Eq, Structural)]
pub enum Level {
    /// Logic low.
    V0,
    /// Logic high.
    V1,
    /// Unknown.
    X,
    /// High impedance.
    Z,
}

/// The signal that a value change is about.
#[derive(Clone, Copy, Debug, PartialEq, Eq, Structural)]
pub enum Signal {
    /// The clock.
    Clock,
    /// The sound output.
    Sound,
    /// Any other signal of the trace.
    Other,
}

/// What a value change asks of the caller.
#[derive(Clone, Copy, Debug, PartialEq, Eq, Structural)]
pub struct Sampled {
    /// The sample to write, if the change was a falling clock edge.
    pub sample: Option<i16>,
    /// Whether a sign of progress is due.
    pub progress: bool,
}

/// The last values seen of the two signals, and the number of clock changes
/// so far.
#[derive(Clone, Copy, Debug, PartialEq, Eq, Structural)]
pub struct EdgeSampler {
    /// The clock's value.
    pub clk: Level,
    /// The sound signal's value.
    pub snd: Level,
    /// Changes of the clock seen so far, modulo `2^64`.
    pub changes: u64,
}

impl EdgeSampler {
    /// The state before any change: both signals unknown.
    pub open spec fn reset() -> Self {
        EdgeSampler { clk: Level::X, snd: Level::X, changes: 0 }
    }

    /// The sample that stands for the sound signal's value: full scale up
    /// for a high signal, full scale down for anything else.
    pub open spec fn level(&self) -> i16 {
        if self.snd == Level::V1 {
            i16::MAX
        } else {
            i16::MIN
        }
    }

    /// What a change of `signal` to `value` asks of the caller: a sample
    /// where the clock falls from high to low, and a sign of progress on
    /// the first of every `PROGRESS_INTERVAL` changes of the clock.
    pub open spec fn asked(&self, signal: Signal, value: Level) -> Sampled {
        if signal == Signal::Clock {
            Sampled {
                sample: if self.clk == Level::V1 && value == Level::V0 {
                    Some(self.level())
                } else {
                    None
                },
                progress: self.changes % PROGRESS_INTERVAL == 0,
            }
        } else {
            Sampled { sample: None, progress: false }
        }
    }

    /// The state after a change of `signal` to `value`.
    pub open spec fn changed(&self, signal: Signal, value: Level) -> Self {
        match signal {
            Signal::Clock => EdgeSampler {
                clk: value,
                snd: self.snd,
                changes: if self.changes == u64::MAX {
                    0
                } else {
                    (self.changes + 1) as u64
                },
            },
            Signal::Sound => EdgeSampler { clk: self.clk, snd: value, changes: self.changes },
            Signal::Other => *self,
        }
    }

    /// A sampler that has seen no change yet.
    pub fn new() -> (made: Self)
        ensures
            made == Self::reset(),
    {
        EdgeSampler { clk: Level::X, snd: Level::X, changes: 0 }
    }

    /// Takes note of a change of `signal` to `value` and says what to do
    /// about it.
    pub fn change(&mut self, signal: Signal, value: Level) -> (asked: Sampled)
        ensures
            *final(self) == old(self).changed(signal, value),
            asked == old(self).asked(signal, value),
    {
        match signal {
            Signal::Clock => {
                let falling = matches!(self.clk, Level::V1) && matches!(value, Level::V0);
                let sample = if falling {
                    Some(if matches!(self.snd, Level::V1) { i16::MAX } else { i16::MIN })
                } else {
                    None
                };
                let progress = self.changes % PROGRESS_INTERVAL == 0;
                self.clk = value;
                self.changes = self.changes.wrapping_add(1);
                Sampled { sample, progress }
            },
            Signal::Sound => {
                self.snd = value;
                Sampled { sample: None, progress: false }
            },
            Signal::Other => Sampled { sample: None, progress: false },
        }
    }
}

} // verus!
