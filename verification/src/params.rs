//! The parameters of one run, the constants of the modelled hardware, and
//! the checks that refuse a configuration before any clock edge is
//! simulated.

use vstd::prelude::*;
use crate::error::ParamError;
use crate::iterate::{max_rate, MAX_FRAC};
use crate::nco::MAX_PHASE_BITS;
use crate::bits::{pow2_u64, lemma_pow2_le};

verus! {

/// Frequency of the simulated clock, in edges per second.
pub const CLK_FREQUENCY: u64 = 25_200_000;

/// Rate of the rendered audio, in samples per second.
pub const SAMPLE_RATE: u32 = 48_000;

/// The most channels that the mixer's 32-bit selector can address.
pub const MAX_CHANNELS: u64 = 0xffff_ffff;

/// What the generator is built with.  The values do not change during a run.
#[derive(Clone, Copy, Debug, PartialEq, Eq, Structural)]
pub struct Parameters {
    /// Number of channels.
    pub n_osc: u64,
    /// By how much the growth rate falls from one channel to the next, in
    /// units of the iterate's last fractional bit.
    pub r_inc: u64,
    /// Number of fractional bits of the iterates.
    pub frac: u64,
    /// Width of the phase accumulators in bits.
    pub phase_bits: u64,
    /// Number of clock edges per step of an iterator and its oscillator.
    pub freq_res: u64,
}

impl Parameters {
    /// The first reason, if any, for which these parameters are refused.
    pub open spec fn fault(&self) -> Option<ParamError> {
        if self.n_osc > MAX_CHANNELS {
            Some(ParamError::TooManyChannels)
        } else if self.frac > MAX_FRAC {
            Some(ParamError::FracTooWide)
        } else if self.phase_bits > MAX_PHASE_BITS {
            Some(ParamError::PhaseTooWide)
        } else if self.freq_res == 0 {
            Some(ParamError::ZeroDivider)
        } else {
            None
        }
    }

    /// The parameters can be simulated.
    pub open spec fn valid(&self) -> bool {
        self.fault() is None
    }

    /// The growth rate of channel `channel`: four for the first channel,
    /// and `r_inc` less for each further one, but never below zero.
    pub open spec fn growth_rate_of(&self, channel: nat) -> nat {
        if channel * self.r_inc >= max_rate(self.frac) {
            0
        } else {
            (max_rate(self.frac) - channel * self.r_inc) as nat
        }
    }

    /// Gathers the five parameters.  Nothing is checked here.
    pub fn new(n_osc: u64, r_inc: u64, frac: u64, phase_bits: u64, freq_res: u64) -> (made: Self)
        ensures
            made == (Parameters { n_osc, r_inc, frac, phase_bits, freq_res }),
    {
        Parameters { n_osc, r_inc, frac, phase_bits, freq_res }
    }

    /// Checks the parameters: too many channels, a fraction or a phase
    /// accumulator too wide for the word, and a divider modulus of zero are
    /// refused, in this order.
    pub fn check(&self) -> (checked: Result<(), ParamError>)
        ensures
            checked == match self.fault() {
                Some(e) => Err::<(), ParamError>(e),
                None => Ok::<(), ParamError>(()),
            },
    {
        if self.n_osc > MAX_CHANNELS {
            Err(ParamError::TooManyChannels)
        } else if self.frac > MAX_FRAC {
            Err(ParamError::FracTooWide)
        } else if self.phase_bits > MAX_PHASE_BITS {
            Err(ParamError::PhaseTooWide)
        } else if self.freq_res == 0 {
            Err(ParamError::ZeroDivider)
        } else {
            Ok(())
        }
    }

    /// Computes the growth rate of channel `channel`.
    pub fn growth_rate(&self, channel: u64) -> (rate: u64)
        requires
            self.frac <= MAX_FRAC,
        ensures
            rate == self.growth_rate_of(channel as nat),
            rate <= max_rate(self.frac),
    {
        let four = pow2_u64(self.frac + 2);
        proof {
            lemma_pow2_le((self.frac + 2) as nat, 62);
            assert(channel * self.r_inc <= 0xffff_ffff_ffff_ffff * 0xffff_ffff_ffff_ffff)
                by (nonlinear_arith)
                requires
                    channel <= 0xffff_ffff_ffff_ffff,
                    self.r_inc <= 0xffff_ffff_ffff_ffff,
            ;
        }
        let drop: u128 = (channel as u128) * (self.r_inc as u128);
        if drop >= four as u128 {
            0
        } else {
            four - (drop as u64)
        }
    }
}

/// The number of clock edges in `seconds` seconds.
pub open spec fn clock_edges_of(seconds: u64) -> nat {
    seconds as nat * CLK_FREQUENCY as nat
}

/// Computes the number of clock edges to simulate for a run of `seconds`
/// seconds.  A duration whose edge count does not fit in 64 bits is
/// refused.
pub fn clock_edges(seconds: u64) -> (edges: Result<u64, ParamError>)
    ensures
        clock_edges_of(seconds) <= u64::MAX <==> edges is Ok,
        edges is Ok ==> edges->Ok_0 == clock_edges_of(seconds),
        edges is Err ==> edges == Err::<u64, ParamError>(ParamError::DurationOverflow),
{
    match seconds.checked_mul(CLK_FREQUENCY) {
        Some(edges) => Ok(edges),
        None => Err(ParamError::DurationOverflow),
    }
}

} // verus!
