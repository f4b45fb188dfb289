//! The generator as a whole: `n_osc` channels, each a divider that enables
//! an iterator and the oscillator it steers, and the mixer that shares the
//! output among them.
//!
//! A clock edge never updates the registers in place.  `step_into` reads one
//! instance and writes the state after the edge into another; `Synthesizer`
//! owns the two instances and exchanges them after every edge.

use vstd::prelude::*;
use crate::divider::LogsDivider;
use crate::error::ParamError;
use crate::iterate::{fixed_one, LogsIterateMap};
use crate::mixer::{selector_width, selector_width_of, LogsMixer};
use crate::nco::{freq_word, freq_word_of, LogsNCO};
use crate::params::Parameters;
use crate::bits::lemma_pow2_le;

verus! {

/// The registers of the whole generator, as mathematical sequences.
pub struct SynthState {
    /// The parameters the generator was built with.
    pub params: Parameters,
    /// The divider of each channel.
    pub dividers: Seq<LogsDivider>,
    /// The iterator of each channel.
    pub iterators: Seq<LogsIterateMap>,
    /// The oscillator of each channel.
    pub oscillators: Seq<LogsNCO>,
    /// The mixer.
    pub mixer: LogsMixer,
}

/// The sample that stands for an output bit: full scale up for a high bit,
/// full scale down for a low one.
pub open spec fn level_of(bit: bool) -> i16 {
    if bit {
        i16::MAX
    } else {
        i16::MIN
    }
}

impl SynthState {
    /// The parameters are valid, there is one divider, iterator and
    /// oscillator per channel, and every stage is well formed and built
    /// with these parameters.
    pub open spec fn wf(&self) -> bool {
        &&& self.params.valid()
        &&& self.dividers.len() == self.params.n_osc
        &&& self.iterators.len() == self.params.n_osc
        &&& self.oscillators.len() == self.params.n_osc
        &&& forall|i: int|
            0 <= i < self.dividers.len() ==> (#[trigger] self.dividers[i]).wf() && self.dividers[i].n
                == self.params.freq_res
        &&& forall|i: int|
            0 <= i < self.iterators.len() ==> (#[trigger] self.iterators[i]).wf()
                && self.iterators[i].frac == self.params.frac
        &&& forall|i: int|
            0 <= i < self.oscillators.len() ==> (#[trigger] self.oscillators[i]).wf()
                && self.oscillators[i].n == self.params.phase_bits
        &&& self.mixer.wf()
        &&& self.mixer.n == self.params.n_osc
    }

    /// The registers at reset, with every iterate at `seed`.
    pub open spec fn reset(params: Parameters, seed: u64) -> Self {
        SynthState {
            params,
            dividers: Seq::new(params.n_osc as nat, |i: int| LogsDivider::reset(params.freq_res)),
            iterators: Seq::new(
                params.n_osc as nat,
                |i: int| LogsIterateMap::reset(params.frac, seed),
            ),
            oscillators: Seq::new(params.n_osc as nat, |i: int| LogsNCO::reset(params.phase_bits)),
            mixer: LogsMixer::reset(params.n_osc, selector_width_of(params.n_osc)),
        }
    }

    /// Whether channel `i` is enabled on the coming edge: its divider's
    /// pulse is high.
    pub open spec fn enabled(&self, i: int) -> bool {
        self.dividers[i].mod_n
    }

    /// The iterator of channel `i` after the coming edge: one step at the
    /// channel's growth rate if the channel is enabled, else unchanged.
    pub open spec fn next_iterator(&self, i: int) -> LogsIterateMap {
        if self.enabled(i) {
            self.iterators[i].stepped(self.params.growth_rate_of(i as nat) as u64)
        } else {
            self.iterators[i]
        }
    }

    /// The oscillator of channel `i` after the coming edge: if the channel
    /// is enabled, its phase advances by the frequency word of the
    /// channel's present iterate.
    pub open spec fn next_oscillator(&self, i: int) -> LogsNCO {
        self.oscillators[i].stepped(
            self.enabled(i),
            freq_word_of(self.iterators[i].x, self.params.frac, self.params.phase_bits) as u64,
        )
    }

    /// The oscillators of all channels after the coming edge.
    pub open spec fn next_oscillators(&self) -> Seq<LogsNCO> {
        Seq::new(self.oscillators.len(), |i: int| self.next_oscillator(i))
    }

    /// The registers after one clock edge.  Every channel's stages are
    /// computed from the registers before the edge; the mixer then samples
    /// the oscillators' new outputs.
    pub open spec fn stepped(&self) -> Self {
        SynthState {
            params: self.params,
            dividers: Seq::new(self.dividers.len(), |i: int| self.dividers[i].stepped()),
            iterators: Seq::new(self.iterators.len(), |i: int| self.next_iterator(i)),
            oscillators: self.next_oscillators(),
            mixer: self.mixer.stepped(self.next_oscillators()),
        }
    }

    /// The registers after `k` clock edges.
    pub open spec fn after(&self, k: nat) -> Self
        decreases k,
    {
        if k == 0 {
            *self
        } else {
            self.after((k - 1) as nat).stepped()
        }
    }

    /// The sample on the output.
    pub open spec fn sample(&self) -> i16 {
        level_of(self.mixer.audio_out)
    }

    /// The samples put out by the next `k` clock edges, in order.
    pub open spec fn stream(&self, k: nat) -> Seq<i16> {
        Seq::new(k, |j: int| self.after((j + 1) as nat).sample())
    }
}

/// One instance of the generator's registers.
pub struct LogisticSnd {
    /// The parameters the generator was built with.
    pub params: Parameters,
    /// The divider of each channel.
    pub dividers: Vec<LogsDivider>,
    /// The iterator of each channel.
    pub iterators: Vec<LogsIterateMap>,
    /// The oscillator of each channel.
    pub oscillators: Vec<LogsNCO>,
    /// The mixer.
    pub mixer: LogsMixer,
}

impl View for LogisticSnd {
    type V = SynthState;

    open spec fn view(&self) -> SynthState {
        SynthState {
            params: self.params,
            dividers: self.dividers@,
            iterators: self.iterators@,
            oscillators: self.oscillators@,
            mixer: self.mixer,
        }
    }
}

impl LogisticSnd {
    /// The registers are well formed.
    pub open spec fn wf(&self) -> bool {
        self@.wf()
    }

    /// A generator at reset with every iterate at zero.  Parameters that
    /// cannot be simulated are refused.
    pub fn new(params: &Parameters) -> (made: Result<Self, ParamError>)
        ensures
            made is Ok <==> params.valid(),
            made is Err ==> Some(made->Err_0) == params.fault(),
            made is Ok ==> made->Ok_0@ == SynthState::reset(*params, 0) && made->Ok_0.wf(),
    {
        proof {
            lemma_pow2_le(0, params.frac as nat);
            vstd::arithmetic::div_mod::lemma_small_mod(0, fixed_one(params.frac));
        }
        Self::with_seed(params, 0)
    }

    /// A generator at reset with every iterate at `seed`, of which only the
    /// `frac` fractional bits count.
    pub fn with_seed(params: &Parameters, seed: u64) -> (made: Result<Self, ParamError>)
        ensures
            made is Ok <==> params.valid(),
            made is Err ==> Some(made->Err_0) == params.fault(),
            made is Ok ==> made->Ok_0@ == SynthState::reset(
                *params,
                (seed as nat % fixed_one(params.frac)) as u64,
            ) && made->Ok_0.wf(),
    {
        match params.check() {
            Err(e) => {
                return Err(e);
            },
            Ok(()) => {},
        }
        let divider = match LogsDivider::new(params.freq_res) {
            Ok(d) => d,
            Err(e) => {
                return Err(e);
            },
        };
        let iterator = match LogsIterateMap::with_seed(params.frac, seed) {
            Ok(it) => it,
            Err(e) => {
                return Err(e);
            },
        };
        let oscillator = match LogsNCO::new(params.phase_bits) {
            Ok(o) => o,
            Err(e) => {
                return Err(e);
            },
        };
        let mixer = match LogsMixer::new(params.n_osc, selector_width(params.n_osc)) {
            Ok(m) => m,
            Err(e) => {
                return Err(e);
            },
        };
        let mut dividers: Vec<LogsDivider> = Vec::new();
        let mut iterators: Vec<LogsIterateMap> = Vec::new();
        let mut oscillators: Vec<LogsNCO> = Vec::new();
        let mut i: u64 = 0;
        while i < params.n_osc
            invariant
                i <= params.n_osc,
                dividers@.len() == i,
                iterators@.len() == i,
                oscillators@.len() == i,
                forall|j: int| 0 <= j < i ==> dividers@[j] == divider,
                forall|j: int| 0 <= j < i ==> iterators@[j] == iterator,
                forall|j: int| 0 <= j < i ==> oscillators@[j] == oscillator,
            decreases params.n_osc - i,
        {
            dividers.push(divider);
            iterators.push(iterator);
            oscillators.push(oscillator);
            i = i + 1;
        }
        let made = LogisticSnd { params: *params, dividers, iterators, oscillators, mixer };
        proof {
            let model = SynthState::reset(
                *params,
                (seed as nat % fixed_one(params.frac)) as u64,
            );
            assert(made@.dividers =~= model.dividers);
            assert(made@.iterators =~= model.iterators);
            assert(made@.oscillators =~= model.oscillators);
        }
        Ok(made)
    }

    /// Writes the registers after one clock edge into `next`, whatever
    /// `next` held before.
    pub fn step_into(&self, next: &mut Self)
        requires
            self.wf(),
        ensures
            final(next)@ == self@.stepped(),
            final(next).wf(),
    {
        let n = self.dividers.len();
        next.params = self.params;
        next.dividers.clear();
        next.iterators.clear();
        next.oscillators.clear();
        let mut i: usize = 0;
        while i < n
            invariant
                self.wf(),
                n == self.dividers.len(),
                i <= n,
                next.params == self.params,
                next.dividers@.len() == i,
                next.iterators@.len() == i,
                next.oscillators@.len() == i,
                forall|j: int| 0 <= j < i ==> next.dividers@[j] == self@.dividers[j].stepped(),
                forall|j: int| 0 <= j < i ==> next.iterators@[j] == self@.next_iterator(j),
                forall|j: int| 0 <= j < i ==> next.oscillators@[j] == self@.next_oscillator(j),
                forall|j: int|
                    0 <= j < i ==> (#[trigger] next.dividers@[j]).wf() && next.dividers@[j].n
                        == self.params.freq_res,
                forall|j: int|
                    0 <= j < i ==> (#[trigger] next.iterators@[j]).wf() && next.iterators@[j].frac
                        == self.params.frac,
                forall|j: int|
                    0 <= j < i ==> (#[trigger] next.oscillators@[j]).wf()
                        && next.oscillators@[j].n == self.params.phase_bits,
            decreases n - i,
        {
            let enable = self.dividers[i].mod_n;
            let mut divider = self.dividers[i];
            self.dividers[i].step_into(&mut divider);
            let mut iterator = self.iterators[i];
            if enable {
                let rate = self.params.growth_rate(i as u64);
                self.iterators[i].step_into(&mut iterator, rate);
            }
            proof {
                lemma_pow2_le(self.params.frac as nat, 64);
            }
            let word = freq_word(self.iterators[i].x, self.params.frac, self.params.phase_bits);
            let mut oscillator = self.oscillators[i];
            self.oscillators[i].step_into(&mut oscillator, enable, word);
            next.dividers.push(divider);
            next.iterators.push(iterator);
            next.oscillators.push(oscillator);
            i = i + 1;
        }
        let mut mixer = self.mixer;
        self.mixer.step_into(&mut mixer, next.oscillators.as_slice());
        next.mixer = mixer;
        proof {
            let model = self@.stepped();
            assert(next@.dividers =~= model.dividers);
            assert(next@.iterators =~= model.iterators);
            assert(next@.oscillators =~= model.oscillators);
        }
    }

    /// The output bit.
    pub fn audio_out(&self) -> (bit: bool)
        ensures
            bit == self@.mixer.audio_out,
    {
        self.mixer.audio_out
    }

    /// The output as a sample: full scale up for a high bit, full scale
    /// down for a low one.
    pub fn snd(&self) -> (sample: i16)
        ensures
            sample == self@.sample(),
    {
        if self.mixer.audio_out {
            i16::MAX
        } else {
            i16::MIN
        }
    }
}

/// The two instances of the registers between which the clock edges
/// alternate: every edge is computed from `current` into `next`, and the
/// two then change roles.
pub struct Synthesizer {
    /// The registers as they stand.
    pub current: LogisticSnd,
    /// The instance that the coming edge is written into.
    pub next: LogisticSnd,
}

impl Synthesizer {
    /// The registers as they stand are well formed.
    pub open spec fn wf(&self) -> bool {
        self.current.wf()
    }

    /// A generator at reset with every iterate at zero.  Parameters that
    /// cannot be simulated are refused.
    pub fn new(params: &Parameters) -> (made: Result<Self, ParamError>)
        ensures
            made is Ok <==> params.valid(),
            made is Err ==> Some(made->Err_0) == params.fault(),
            made is Ok ==> made->Ok_0.current@ == SynthState::reset(*params, 0)
                && made->Ok_0.wf(),
    {
        proof {
            lemma_pow2_le(0, params.frac as nat);
            vstd::arithmetic::div_mod::lemma_small_mod(0, fixed_one(params.frac));
        }
        Self::with_seed(params, 0)
    }

    /// A generator at reset with every iterate at `seed`, of which only the
    /// `frac` fractional bits count.
    pub fn with_seed(params: &Parameters, seed: u64) -> (made: Result<Self, ParamError>)
        ensures
            made is Ok <==> params.valid(),
            made is Err ==> Some(made->Err_0) == params.fault(),
            made is Ok ==> made->Ok_0.current@ == SynthState::reset(
                *params,
                (seed as nat % fixed_one(params.frac)) as u64,
            ) && made->Ok_0.wf(),
    {
        let current = match LogisticSnd::with_seed(params, seed) {
            Ok(snd) => snd,
            Err(e) => {
                return Err(e);
            },
        };
        let next = match LogisticSnd::with_seed(params, seed) {
            Ok(snd) => snd,
            Err(e) => {
                return Err(e);
            },
        };
        Ok(Synthesizer { current, next })
    }

    /// Advances the generator by one clock edge and returns the sample that
    /// the edge puts out.
    pub fn tick(&mut self) -> (sample: i16)
        requires
            old(self).wf(),
        ensures
            final(self).wf(),
            final(self).current@ == old(self).current@.stepped(),
            sample == final(self).current@.sample(),
    {
        self.current.step_into(&mut self.next);
        core::mem::swap(&mut self.current, &mut self.next);
        self.current.snd()
    }
}

impl SynthState {
    /// A clock edge keeps the registers well formed and the parameters
    /// unchanged.
    pub proof fn lemma_step_wf(&self)
        requires
            self.wf(),
        ensures
            self.stepped().wf(),
            self.stepped().params == self.params,
    {
        let after = self.stepped();
        assert forall|i: int| 0 <= i < after.iterators.len() implies (#[trigger] after.iterators[i]).wf()
            && after.iterators[i].frac == self.params.frac by {
            self.iterators[i].lemma_step_wf(self.params.growth_rate_of(i as nat) as u64);
        }
        assert forall|i: int| 0 <= i < after.oscillators.len() implies (
        #[trigger] after.oscillators[i]).wf() && after.oscillators[i].n
            == self.params.phase_bits by {
            self.oscillators[i].lemma_step_wf(
                self.enabled(i),
                freq_word_of(self.iterators[i].x, self.params.frac, self.params.phase_bits) as u64,
            );
        }
        self.mixer.lemma_step_wf(self.next_oscillators());
    }

    /// However many clock edges pass, the registers stay well formed: in
    /// particular every iterate stays below one, every phase within its
    /// accumulator and every divider's counter below its modulus.
    pub proof fn law_stays_well_formed(&self, k: nat)
        requires
            self.wf(),
        ensures
            self.after(k).wf(),
            self.after(k).params == self.params,
            forall|i: int|
                0 <= i < self.params.n_osc ==> (#[trigger] self.after(k).iterators[i]).x < fixed_one(
                    self.params.frac,
                ),
        decreases k,
    {
        if k > 0 {
            self.law_stays_well_formed((k - 1) as nat);
            self.after((k - 1) as nat).lemma_step_wf();
        }
    }

    /// With a single channel, the output after every clock edge is that
    /// channel's oscillator output.
    pub proof fn law_single_channel_passthrough(&self, k: nat)
        requires
            self.wf(),
            self.params.n_osc == 1,
            k >= 1,
        ensures
            self.after(k).mixer.audio_out == (self.after(k).oscillators[0].snd != 0),
    {
        let before = self.after((k - 1) as nat);
        self.law_stays_well_formed((k - 1) as nat);
        before.mixer.law_single_channel_passthrough(before.next_oscillators());
    }

    /// The output is a function of the registers alone: from equal
    /// registers, equal numbers of clock edges give equal registers and
    /// equal sample streams.
    pub proof fn law_deterministic(&self, other: SynthState, k: nat)
        requires
            self.params == other.params,
            self.dividers =~= other.dividers,
            self.iterators =~= other.iterators,
            self.oscillators =~= other.oscillators,
            self.mixer == other.mixer,
        ensures
            self.after(k) == other.after(k),
            self.stream(k) == other.stream(k),
    {
    }

    /// `b` clock edges after `a` clock edges are `a + b` clock edges.
    pub proof fn lemma_after_after(&self, a: nat, b: nat)
        ensures
            self.after(a).after(b) == self.after(a + b),
        decreases b,
    {
        if b > 0 {
            self.lemma_after_after(a, (b - 1) as nat);
        }
    }

    /// The samples of `b` clock edges that follow `a` clock edges are the
    /// last `b` samples of the stream of `a + b` edges, whose first `a`
    /// samples are the stream of `a` edges.
    pub proof fn lemma_stream_split(&self, a: nat, b: nat)
        ensures
            self.stream(a + b) == self.stream(a) + self.after(a).stream(b),
    {
        assert forall|j: int| 0 <= j < b implies self.after(a).stream(b)[j] == self.stream(a + b)[a
            + j] by {
            self.lemma_after_after(a, (j + 1) as nat);
        }
        assert(self.stream(a + b) =~= self.stream(a) + self.after(a).stream(b));
    }

    /// The stream of `k + 1` edges is the stream of `k` edges followed by
    /// the sample of edge `k + 1`.
    pub proof fn lemma_stream_push(&self, k: nat)
        ensures
            self.stream(k + 1) == self.stream(k).push(self.after(k + 1).sample()),
    {
        assert(self.stream(k + 1) =~= self.stream(k).push(self.after(k + 1).sample()));
    }
}

} // verus!
