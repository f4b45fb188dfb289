//! The numerically controlled oscillator: a phase accumulator of
//! `n` bits whose top bit is the one-bit tone.

use vstd::prelude::*;
use vstd::arithmetic::power2::pow2;
use vstd::arithmetic::div_mod::{
    lemma_add_mod_noop_right,
    lemma_fundamental_div_mod_converse,
    lemma_mod_add_multiples_vanish,
    lemma_small_mod,
};
use vstd::bits::{lemma_u64_shl_is_mul, lemma_u64_shr_is_div};
use crate::bits::{pow2_u64, lemma_pow2_le};
use crate::error::ParamError;

verus! {

/// The widest phase accumulator that the 64-bit word holds.
pub const MAX_PHASE_BITS: u64 = 64;

/// Registers of one oscillator.
#[derive(Clone, Copy, Debug, PartialEq, Eq, Structural)]
pub struct LogsNCO {
    /// Width of the phase accumulator in bits.
    pub n: u64,
    /// The output bit: the top bit of `phase`.
    pub snd: u8,
    /// The phase accumulator, below `2^n`.
    pub phase: u64,
}

/// The top bit of an `n`-bit phase; zero for an accumulator of no bits.
pub open spec fn top_bit(phase: u64, n: u64) -> u8 {
    if n >= 1 && phase >= pow2((n - 1) as nat) {
        1
    } else {
        0
    }
}

/// The frequency word for an iterate `x` of `frac` fractional bits: `x`
/// rescaled to `phase_bits` fractional bits, rounded down, so that an iterate
/// just below one asks for a step of just below a whole turn.
pub open spec fn freq_word_of(x: u64, frac: u64, phase_bits: u64) -> nat {
    if phase_bits >= frac {
        x as nat * pow2((phase_bits - frac) as nat)
    } else {
        x as nat / pow2((frac - phase_bits) as nat)
    }
}

/// The sum of a sequence of frequency words.
pub open spec fn word_sum(words: Seq<u64>) -> nat
    decreases words.len(),
{
    if words.len() == 0 {
        0
    } else {
        word_sum(words.drop_last()) + words.last() as nat
    }
}

/// Computes the frequency word for an iterate `x` below one.
pub fn freq_word(x: u64, frac: u64, phase_bits: u64) -> (word: u64)
    requires
        frac <= 64,
        phase_bits <= 64,
        x < pow2(frac as nat),
    ensures
        word == freq_word_of(x, frac, phase_bits),
        word < pow2(phase_bits as nat),
{
    if phase_bits >= frac {
        let shift = phase_bits - frac;
        proof {
            let unit = pow2(shift as nat);
            vstd::arithmetic::power2::lemma_pow2_adds(frac as nat, shift as nat);
            lemma_pow2_le(shift as nat, phase_bits as nat);
            assert(x * unit < pow2(frac as nat) * unit) by (nonlinear_arith)
                requires
                    x < pow2(frac as nat),
                    unit >= 1,
            ;
        }
        if shift >= 64 {
            proof {
                vstd::arithmetic::power2::lemma2_to64();
                assert(x * pow2(shift as nat) == 0) by (nonlinear_arith)
                    requires
                        x == 0,
                ;
            }
            0
        } else {
            proof {
                lemma_u64_shl_is_mul(x, shift);
            }
            x << shift
        }
    } else {
        let shift = frac - phase_bits;
        if shift >= 64 {
            proof {
                vstd::arithmetic::power2::lemma2_to64_rest();
                vstd::arithmetic::div_mod::lemma_basic_div(x as int, pow2(64) as int);
                lemma_pow2_le(0, 0);
            }
            0
        } else {
            proof {
                let unit = pow2(shift as nat);
                lemma_u64_shr_is_div(x, shift);
                vstd::arithmetic::power2::lemma_pow2_adds(phase_bits as nat, shift as nat);
                lemma_pow2_le(shift as nat, frac as nat);
                let q = x as nat / unit;
                vstd::arithmetic::div_mod::lemma_fundamental_div_mod(x as int, unit as int);
                vstd::arithmetic::div_mod::lemma_mod_bound(x as int, unit as int);
                assert(q < pow2(phase_bits as nat)) by (nonlinear_arith)
                    requires
                        x < pow2(phase_bits as nat) * unit,
                        x == unit * q + x as int % (unit as int),
                        0 <= x as int % (unit as int),
                        unit >= 1,
                ;
            }
            x >> shift
        }
    }
}

impl LogsNCO {
    /// The accumulator fits the word, the phase fits the accumulator, and
    /// the output is the phase's top bit.
    pub open spec fn wf(&self) -> bool {
        &&& self.n <= MAX_PHASE_BITS
        &&& self.phase < pow2(self.n as nat)
        &&& self.snd == top_bit(self.phase, self.n)
    }

    /// The registers at reset.
    pub open spec fn reset(n: u64) -> Self {
        LogsNCO { n, snd: 0, phase: 0 }
    }

    /// The registers after one clock edge: with `step` high the phase
    /// advances by `freq_in` modulo `2^n`, otherwise every register holds.
    pub open spec fn stepped(&self, step: bool, freq_in: u64) -> Self {
        if step {
            let phase = ((self.phase + freq_in) % (pow2(self.n as nat) as int)) as u64;
            LogsNCO { n: self.n, snd: top_bit(phase, self.n), phase }
        } else {
            *self
        }
    }

    /// The registers after one enabled clock edge for each word of `words`,
    /// in order.
    pub open spec fn accumulated(&self, words: Seq<u64>) -> Self
        decreases words.len(),
    {
        if words.len() == 0 {
            *self
        } else {
            self.accumulated(words.drop_last()).stepped(true, words.last())
        }
    }

    /// An oscillator at reset.  An accumulator wider than the 64-bit word is
    /// refused.
    pub fn new(n: u64) -> (made: Result<Self, ParamError>)
        ensures
            n > MAX_PHASE_BITS <==> made is Err,
            made is Err ==> made == Err::<Self, ParamError>(ParamError::PhaseTooWide),
            made is Ok ==> made->Ok_0 == Self::reset(n) && made->Ok_0.wf(),
    {
        if n > MAX_PHASE_BITS {
            Err(ParamError::PhaseTooWide)
        } else {
            proof {
                lemma_pow2_le(0, n as nat);
                if n >= 1 {
                    lemma_pow2_le(0, (n - 1) as nat);
                }
            }
            Ok(LogsNCO { n, snd: 0, phase: 0 })
        }
    }

    /// Writes the registers after one clock edge into `next`.
    pub fn step_into(&self, next: &mut Self, step: bool, freq_in: u64)
        requires
            self.wf(),
        ensures
            *final(next) == self.stepped(step, freq_in),
            final(next).wf(),
    {
        if !step {
            *next = *self;
        } else {
            let phase = self.advanced(freq_in);
            let snd: u8 = if self.n >= 1 && phase >= pow2_u64(self.n - 1) { 1 } else { 0 };
            next.n = self.n;
            next.phase = phase;
            next.snd = snd;
        }
    }

    /// The phase after it has advanced by `freq_in`.
    fn advanced(&self, freq_in: u64) -> (phase: u64)
        requires
            self.wf(),
        ensures
            phase == (self.phase + freq_in) % (pow2(self.n as nat) as int),
            phase < pow2(self.n as nat),
    {
        if self.n >= 64 {
            proof {
                vstd::arithmetic::power2::lemma2_to64_rest();
                let sum = self.phase + freq_in;
                if sum > u64::MAX {
                    lemma_fundamental_div_mod_converse(
                        sum,
                        0x1_0000_0000_0000_0000,
                        1,
                        sum - 0x1_0000_0000_0000_0000,
                    );
                } else {
                    lemma_small_mod(sum as nat, 0x1_0000_0000_0000_0000);
                }
            }
            self.phase.wrapping_add(freq_in)
        } else {
            let modulus = pow2_u64(self.n);
            proof {
                lemma_pow2_le(self.n as nat, 63);
                lemma_add_mod_noop_right(self.phase as int, freq_in as int, modulus as int);
                vstd::arithmetic::div_mod::lemma_mod_bound(freq_in as int, modulus as int);
                vstd::arithmetic::div_mod::lemma_mod_bound(
                    self.phase + freq_in % modulus,
                    modulus as int,
                );
            }
            (self.phase + freq_in % modulus) % modulus
        }
    }

    /// A clock edge keeps the registers well formed and the accumulator's
    /// width unchanged.
    pub proof fn lemma_step_wf(&self, step: bool, freq_in: u64)
        requires
            self.wf(),
        ensures
            self.stepped(step, freq_in).wf(),
            self.stepped(step, freq_in).n == self.n,
    {
        lemma_pow2_le(self.n as nat, 64);
        vstd::arithmetic::div_mod::lemma_mod_bound(
            self.phase + freq_in,
            pow2(self.n as nat) as int,
        );
    }

    /// Accumulating a sequence of frequency words moves the phase by their
    /// sum modulo `2^n`.
    pub proof fn lemma_accumulated(&self, words: Seq<u64>)
        requires
            self.wf(),
        ensures
            self.accumulated(words).wf(),
            self.accumulated(words).n == self.n,
            self.accumulated(words).phase == (self.phase + word_sum(words)) % (pow2(
                self.n as nat,
            ) as int),
        decreases words.len(),
    {
        let m = pow2(self.n as nat) as int;
        lemma_pow2_le(self.n as nat, 64);
        if words.len() == 0 {
            lemma_small_mod(self.phase as nat, m as nat);
        } else {
            let head = words.drop_last();
            self.lemma_accumulated(head);
            let before = self.accumulated(head);
            let total = self.phase + word_sum(head);
            vstd::arithmetic::div_mod::lemma_add_mod_noop(total, words.last() as int, m);
            vstd::arithmetic::div_mod::lemma_add_mod_noop(
                total % m,
                words.last() as int,
                m,
            );
            vstd::arithmetic::div_mod::lemma_mod_twice(total, m);
            vstd::arithmetic::div_mod::lemma_mod_bound(
                before.phase + words.last(),
                m,
            );
            if self.n >= 1 {
                lemma_pow2_le((self.n - 1) as nat, self.n as nat);
            }
        }
    }

    /// After accumulating frequency words that sum to exactly `2^n`, one
    /// whole turn, the phase and with it the output are back where they
    /// started.
    pub proof fn law_phase_wraps(&self, words: Seq<u64>)
        requires
            self.wf(),
            word_sum(words) == pow2(self.n as nat),
        ensures
            self.accumulated(words).phase == self.phase,
            self.accumulated(words).snd == self.snd,
    {
        let m = pow2(self.n as nat) as int;
        lemma_pow2_le(self.n as nat, 64);
        self.lemma_accumulated(words);
        lemma_mod_add_multiples_vanish(self.phase as int, m);
        lemma_small_mod(self.phase as nat, m as nat);
    }
}

} // verus!
