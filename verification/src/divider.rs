//! The clock-enable generator: a counter modulo `n` that raises a pulse on
//! the edge at which it wraps.

use vstd::prelude::*;
use crate::error::ParamError;

verus! {

/// Registers of a divide-by-`n` stage.
#[derive(Clone, Copy, Debug, PartialEq, Eq, Structural)]
pub struct LogsDivider {
    /// The modulus.
    pub n: u64,
    /// High on exactly the edges at which `counter` wrapped to zero.
    pub mod_n: bool,
    /// Edges counted since the last wrap.
    pub counter: u64,
}

/// Adding one either raises the remainder by one or wraps it to zero and
/// raises the quotient by one.
pub proof fn lemma_next_quotient(x: int, d: int)
    requires
        0 <= x,
        0 < d,
    ensures
        x % d + 1 >= d ==> (x + 1) % d == 0 && (x + 1) / d == x / d + 1,
        x % d + 1 < d ==> (x + 1) % d == x % d + 1 && (x + 1) / d == x / d,
{
    let q = x / d;
    let r = x % d;
    vstd::arithmetic::div_mod::lemma_fundamental_div_mod(x, d);
    vstd::arithmetic::div_mod::lemma_mod_bound(x, d);
    assert((q + 1) * d == q * d + d) by (nonlinear_arith);
    assert(d * q == q * d) by (nonlinear_arith);
    if r + 1 >= d {
        vstd::arithmetic::div_mod::lemma_fundamental_div_mod_converse(x + 1, d, q + 1, 0);
    } else {
        vstd::arithmetic::div_mod::lemma_fundamental_div_mod_converse(x + 1, d, q, r + 1);
    }
}

impl LogsDivider {
    /// The modulus is positive and the counter is below it.
    pub open spec fn wf(&self) -> bool {
        self.n >= 1 && self.counter < self.n
    }

    /// The registers at reset.
    pub open spec fn reset(n: u64) -> Self {
        LogsDivider { n, mod_n: false, counter: 0 }
    }

    /// The registers after one clock edge.
    pub open spec fn stepped(&self) -> Self {
        if self.counter + 1 >= self.n {
            LogsDivider { n: self.n, mod_n: true, counter: 0 }
        } else {
            LogsDivider { n: self.n, mod_n: false, counter: (self.counter + 1) as u64 }
        }
    }

    /// The registers after `k` clock edges.
    pub open spec fn after(&self, k: nat) -> Self
        decreases k,
    {
        if k == 0 {
            *self
        } else {
            self.after((k - 1) as nat).stepped()
        }
    }

    /// How many of the next `k` clock edges raise the pulse.
    pub open spec fn pulses(&self, k: nat) -> nat
        decreases k,
    {
        if k == 0 {
            0
        } else {
            self.pulses((k - 1) as nat) + if self.after(k).mod_n { 1nat } else { 0nat }
        }
    }

    /// A divider at reset.  A modulus of zero is refused.
    pub fn new(n: u64) -> (made: Result<Self, ParamError>)
        ensures
            n == 0 <==> made is Err,
            made is Err ==> made == Err::<Self, ParamError>(ParamError::ZeroDivider),
            made is Ok ==> made->Ok_0 == Self::reset(n) && made->Ok_0.wf(),
    {
        if n == 0 {
            Err(ParamError::ZeroDivider)
        } else {
            Ok(LogsDivider { n, mod_n: false, counter: 0 })
        }
    }

    /// Writes the registers after one clock edge into `next`.
    pub fn step_into(&self, next: &mut Self)
        requires
            self.wf(),
        ensures
            *final(next) == self.stepped(),
            final(next).wf(),
    {
        let wraps = self.counter >= self.n - 1;
        next.n = self.n;
        next.mod_n = wraps;
        next.counter = if wraps { 0 } else { self.counter + 1 };
    }

    /// After `k` edges the counter has advanced by `k` modulo `n`, and the
    /// pulse is high exactly when it has just wrapped.
    pub proof fn lemma_after(&self, k: nat)
        requires
            self.wf(),
        ensures
            self.after(k).wf(),
            self.after(k).n == self.n,
            self.after(k).counter == (self.counter + k) % (self.n as int),
            k >= 1 ==> (self.after(k).mod_n <==> (self.counter + k) % (self.n as int) == 0),
        decreases k,
    {
        if k > 0 {
            let j = (k - 1) as nat;
            self.lemma_after(j);
            let n = self.n as int;
            let c = self.counter as int;
            lemma_next_quotient(c + j, n);
        } else {
            vstd::arithmetic::div_mod::lemma_small_mod(self.counter as nat, self.n as nat);
        }
    }

    /// The number of pulses among the next `k` edges is the number of
    /// multiples of `n` that the counter passes.
    pub proof fn lemma_pulses(&self, k: nat)
        requires
            self.wf(),
        ensures
            self.pulses(k) == (self.counter + k) / (self.n as int),
        decreases k,
    {
        let n = self.n as int;
        let c = self.counter as int;
        if k == 0 {
            vstd::arithmetic::div_mod::lemma_basic_div(c, n);
        } else {
            let j = (k - 1) as nat;
            self.lemma_pulses(j);
            self.lemma_after(k);
            lemma_next_quotient(c + j, n);
        }
    }

    /// Out of every `n` consecutive clock edges, exactly one raises the
    /// pulse, wherever the window starts.
    pub proof fn law_one_pulse_per_period(&self)
        requires
            self.wf(),
        ensures
            self.pulses(self.n as nat) == 1,
    {
        let n = self.n as int;
        let c = self.counter as int;
        self.lemma_pulses(self.n as nat);
        assert(c + n == 1 * n + c) by (nonlinear_arith);
        vstd::arithmetic::div_mod::lemma_fundamental_div_mod_converse(c + n, n, 1, c);
    }
}

} // verus!
