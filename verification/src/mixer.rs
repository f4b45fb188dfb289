//! The mixer: a round-robin selector that puts one channel's bit on the
//! output per clock edge, so that `n` one-bit tones share one one-bit stream.

use vstd::prelude::*;
use vstd::arithmetic::power2::pow2;
use vstd::arithmetic::div_mod::{lemma_mod_self_0, lemma_small_mod};
use vstd::bits::{low_bits_mask, lemma_u32_low_bits_mask_is_mod};
use crate::bits::{low_bits, lemma_pow2_le};
use crate::error::ParamError;
use crate::nco::LogsNCO;

verus! {

/// The widest selector that the counter register can hold.
pub const MAX_SELECTOR_BITS: u64 = 32;

/// Registers of the mixer.
#[derive(Clone, Copy, Debug, PartialEq, Eq, Structural)]
pub struct LogsMixer {
    /// Number of channels.
    pub n: u64,
    /// The low bits that the selector register keeps: `2^k - 1` for a
    /// selector of `k` bits.
    pub counter_mask: u32,
    /// The output bit.
    pub audio_out: bool,
    /// The selector: the channel whose bit goes out on the next edge.
    pub counter: u32,
}

/// The smallest selector width that reaches `n` channels.
pub open spec fn is_selector_width(n: u64, k: u64) -> bool {
    &&& n <= pow2(k as nat)
    &&& k >= 1 ==> pow2((k - 1) as nat) < n
}

/// The selector width for `n` channels.
pub open spec fn selector_width_of(n: u64) -> u64 {
    choose|k: u64| is_selector_width(n, k)
}

/// Only one width is the smallest that reaches `n` channels.
pub proof fn lemma_selector_width_unique(n: u64, k1: u64, k2: u64)
    requires
        is_selector_width(n, k1),
        is_selector_width(n, k2),
    ensures
        k1 == k2,
{
    if k1 < k2 {
        lemma_pow2_le(k1 as nat, (k2 - 1) as nat);
    } else if k2 < k1 {
        lemma_pow2_le(k2 as nat, (k1 - 1) as nat);
    }
}

/// Computes the smallest `k` with `n <= 2^k`.
pub fn selector_width(n: u64) -> (k: u64)
    ensures
        k <= 64,
        is_selector_width(n, k),
        k == selector_width_of(n),
        n <= 0x1_0000_0000 ==> k <= MAX_SELECTOR_BITS,
{
    let mut k: u64 = 0;
    let mut reach: u64 = 1;
    proof {
        vstd::arithmetic::power2::lemma2_to64();
        vstd::arithmetic::power2::lemma2_to64_rest();
    }
    while reach < n && k < 63
        invariant
            k <= 63,
            reach == pow2(k as nat),
            k >= 1 ==> pow2((k - 1) as nat) < n,
        decreases 63 - k,
    {
        proof {
            vstd::arithmetic::power2::lemma_pow2_unfold((k + 1) as nat);
            lemma_pow2_le((k + 1) as nat, 63);
        }
        k = k + 1;
        reach = reach * 2;
    }
    let width = if reach < n { 64 } else { k };
    proof {
        if width > 32 {
            lemma_pow2_le(32, (width - 1) as nat);
        }
        assert(is_selector_width(n, width));
        lemma_selector_width_unique(n, width, selector_width_of(n));
    }
    width
}

impl LogsMixer {
    /// The mask is that of a selector of at most 32 bits which reaches every
    /// channel, and the selector points at a channel.
    pub open spec fn wf(&self) -> bool {
        &&& exists|k: nat| k <= MAX_SELECTOR_BITS && self.counter_mask + 1 == #[trigger] pow2(k)
        &&& self.n <= self.counter_mask + 1
        &&& self.counter <= self.counter_mask
        &&& self.counter < self.n || self.counter == 0
    }

    /// The registers at reset, for `n` channels and a selector of `k` bits.
    pub open spec fn reset(n: u64, k: u64) -> Self {
        LogsMixer { n, counter_mask: (pow2(k as nat) - 1) as u32, audio_out: false, counter: 0 }
    }

    /// The registers after one clock edge: the output takes the bit of the
    /// channel that the selector points at (low if there is no channel),
    /// and the selector moves on to the next channel, back to the first
    /// after the last.
    pub open spec fn stepped(&self, audio_in: Seq<LogsNCO>) -> Self {
        LogsMixer {
            n: self.n,
            counter_mask: self.counter_mask,
            audio_out: self.counter < audio_in.len() && audio_in[self.counter as int].snd != 0,
            counter: if self.counter + 1 < self.n { (self.counter + 1) as u32 } else { 0 },
        }
    }

    /// A mixer at reset for `n` channels with a selector of `k` bits.  A
    /// selector wider than 32 bits, or too narrow to reach every channel, is
    /// refused.
    pub fn new(n: u64, k: u64) -> (made: Result<Self, ParamError>)
        ensures
            (k > MAX_SELECTOR_BITS || n > pow2(k as nat)) <==> made is Err,
            made is Err ==> made == Err::<Self, ParamError>(ParamError::SelectorWidth),
            made is Ok ==> made->Ok_0 == Self::reset(n, k) && made->Ok_0.wf(),
    {
        if k > MAX_SELECTOR_BITS {
            return Err(ParamError::SelectorWidth);
        }
        proof {
            lemma_pow2_le(k as nat, 32);
            vstd::arithmetic::power2::lemma2_to64();
        }
        let mask = low_bits(k);
        if n > 0 && n - 1 > mask {
            return Err(ParamError::SelectorWidth);
        }
        let made = LogsMixer { n, counter_mask: mask as u32, audio_out: false, counter: 0 };
        assert(made.counter_mask + 1 == pow2(k as nat));
        Ok(made)
    }

    /// Writes the registers after one clock edge into `next`.  `audio_in`
    /// holds the oscillators of the `n` channels, in order.
    pub fn step_into(&self, next: &mut Self, audio_in: &[LogsNCO])
        requires
            self.wf(),
            audio_in@.len() == self.n,
        ensures
            *final(next) == self.stepped(audio_in@),
            final(next).wf(),
            self.n == 1 ==> final(next).audio_out == (audio_in@[0].snd != 0),
    {
        proof {
            self.lemma_selector_masked();
        }
        let advanced = self.counter.wrapping_add(1) & self.counter_mask;
        let selected = (self.counter as u64) < self.n && audio_in[self.counter as usize].snd != 0;
        next.n = self.n;
        next.counter_mask = self.counter_mask;
        next.audio_out = selected;
        next.counter = if (advanced as u64) < self.n { advanced } else { 0 };
    }

    /// Masking the incremented selector leaves it as it is while it is
    /// within the mask, and takes it to zero when it has passed the mask.
    pub proof fn lemma_selector_masked(&self)
        requires
            self.wf(),
        ensures
            self.counter < self.counter_mask ==> vstd::wrapping::u32_specs::wrapping_add(
                self.counter,
                1,
            ) & self.counter_mask == self.counter + 1,
            self.counter == self.counter_mask ==> vstd::wrapping::u32_specs::wrapping_add(
                self.counter,
                1,
            ) & self.counter_mask == 0,
    {
        let k = choose|k: nat| k <= MAX_SELECTOR_BITS && self.counter_mask + 1 == #[trigger] pow2(k);
        let mask = self.counter_mask;
        let up = vstd::wrapping::u32_specs::wrapping_add(self.counter, 1);
        vstd::arithmetic::power2::lemma2_to64();
        if k == 32 {
            assert(up & 0xffff_ffffu32 == up) by (bit_vector);
            assert(0u32 & 0xffff_ffffu32 == 0u32) by (bit_vector);
        } else {
            lemma_pow2_le(k, 31);
            assert(low_bits_mask(k) == mask);
            lemma_u32_low_bits_mask_is_mod(up, k);
            if self.counter < mask {
                lemma_small_mod(up as nat, pow2(k));
            } else {
                lemma_mod_self_0(pow2(k) as int);
            }
        }
    }

    /// A clock edge keeps the registers well formed and the number of
    /// channels unchanged.
    pub proof fn lemma_step_wf(&self, audio_in: Seq<LogsNCO>)
        requires
            self.wf(),
        ensures
            self.stepped(audio_in).wf(),
            self.stepped(audio_in).n == self.n,
    {
        let k = choose|k: nat| k <= MAX_SELECTOR_BITS && self.counter_mask + 1 == #[trigger] pow2(k);
        assert(self.stepped(audio_in).counter_mask + 1 == pow2(k));
    }

    /// With a single channel the mixer passes that channel's bit through on
    /// every clock edge.
    pub proof fn law_single_channel_passthrough(&self, audio_in: Seq<LogsNCO>)
        requires
            self.wf(),
            self.n == 1,
            audio_in.len() == 1,
        ensures
            self.stepped(audio_in).audio_out == (audio_in[0].snd != 0),
            self.stepped(audio_in).wf(),
            self.stepped(audio_in).n == 1,
    {
        self.lemma_step_wf(audio_in);
    }
}

} // verus!
