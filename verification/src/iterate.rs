//! The chaotic iterator: one update `x' = r * x * (1 - x)` of the logistic
//! map, spread over many clock edges by a serial multiplier.
//!
//! `x` is an unsigned fixed-point number below one with `frac` fractional
//! bits.  The growth rate `r` has the same scaling and is at most four.
//! An update takes two products, `(1 - x) * x` and then `r` times that; each
//! is formed by `frac` add-and-shift steps that consume the multiplier from
//! its lowest bit upwards and halve the accumulator as they go, so that the
//! accumulator ends as the product's top part, rounded down.

use vstd::prelude::*;
use vstd::arithmetic::power2::pow2;
use crate::bits::{pow2_u64, lemma_pow2_le};
use crate::error::ParamError;

verus! {

/// The widest fraction for which the growth rate four and the adder's carry
/// still fit in the 64-bit word.
pub const MAX_FRAC: u64 = 60;

/// Registers of one chaotic iterator.
#[derive(Clone, Copy, Debug, PartialEq, Eq, Structural)]
pub struct LogsIterateMap {
    /// Number of fractional bits of `x`.
    pub frac: u64,
    /// The current iterate.
    pub x: u64,
    /// High for the one step after an update has been written to `x`.
    pub next_ready: bool,
    /// Steps taken in the running update.
    pub counter: u32,
    /// The factor that is added into the accumulator.
    pub multiplicand: u64,
    /// The bits of the other factor that are still to be consumed.
    pub multiplier: u64,
    /// Top part of the product formed so far.
    pub mult_accum: u64,
}

/// One in the fixed-point scaling with `frac` fractional bits.
pub open spec fn fixed_one(frac: u64) -> nat {
    pow2(frac as nat)
}

/// The largest growth rate, four, in the same scaling.
pub open spec fn max_rate(frac: u64) -> nat {
    pow2((frac + 2) as nat)
}

/// The growth rate that the multiplier works with: a rate above four counts
/// as four.
pub open spec fn held_rate(r: nat, frac: u64) -> nat {
    if r <= max_rate(frac) {
        r
    } else {
        max_rate(frac)
    }
}

/// `(1 - x) * x`, rounded down to `frac` fractional bits.
pub open spec fn square_part(x: nat, frac: u64) -> nat {
    ((fixed_one(frac) - x) as nat * x) / fixed_one(frac)
}

/// The image of `x` under the map with growth rate `r`: both products are
/// rounded down, a rate above four counts as four, and a result of one or
/// more is held just below one.
pub open spec fn logistic_image(x: nat, r: nat, frac: u64) -> nat {
    let grown = (held_rate(r, frac) * square_part(x, frac)) / fixed_one(frac);
    if grown < fixed_one(frac) {
        grown
    } else {
        (fixed_one(frac) - 1) as nat
    }
}

impl LogsIterateMap {
    /// The fraction fits the word, the iterate is below one, and the
    /// multiplier's registers are within the bounds that keep its adder from
    /// overflowing.
    pub open spec fn wf(&self) -> bool {
        &&& self.frac <= MAX_FRAC
        &&& self.x < fixed_one(self.frac)
        &&& self.counter <= 2 * self.frac + 1
        &&& self.multiplicand <= max_rate(self.frac)
        &&& self.mult_accum <= self.multiplicand
    }

    /// The registers at reset, with the iterate at `seed`.
    pub open spec fn reset(frac: u64, seed: u64) -> Self {
        LogsIterateMap {
            frac,
            x: seed,
            next_ready: false,
            counter: 0,
            multiplicand: (fixed_one(frac) - seed) as u64,
            multiplier: seed,
            mult_accum: 0,
        }
    }

    /// The registers with the multiplier set up for the first product of the
    /// next update.
    pub open spec fn restarted(&self) -> Self {
        LogsIterateMap { next_ready: false, ..Self::reset(self.frac, self.x) }
    }

    /// One add-and-shift step of the serial multiplier.
    pub open spec fn add_shifted(&self) -> Self {
        let addend = if self.multiplier % 2 == 1 { self.multiplicand } else { 0 };
        LogsIterateMap {
            counter: (self.counter + 1) as u32,
            multiplier: self.multiplier / 2,
            mult_accum: ((self.mult_accum + addend) / 2) as u64,
            ..*self
        }
    }

    /// The first product is complete: it becomes the multiplier of the
    /// second, whose multiplicand is the growth rate, held to at most four.
    pub open spec fn rate_loaded(&self, r: u64) -> Self {
        LogsIterateMap {
            counter: (self.counter + 1) as u32,
            multiplicand: if r <= max_rate(self.frac) { r } else { max_rate(self.frac) as u64 },
            multiplier: self.mult_accum,
            mult_accum: 0,
            ..*self
        }
    }

    /// The second product is complete: it becomes the iterate, held just
    /// below one if it reached one.
    pub open spec fn finished(&self) -> Self {
        LogsIterateMap {
            x: if self.mult_accum < fixed_one(self.frac) {
                self.mult_accum
            } else {
                (fixed_one(self.frac) - 1) as u64
            },
            next_ready: true,
            ..*self
        }
    }

    /// The registers after one enabled clock edge with growth rate `r`.
    pub open spec fn stepped(&self, r: u64) -> Self {
        if self.next_ready {
            self.restarted()
        } else if self.counter < self.frac {
            self.add_shifted()
        } else if self.counter == self.frac {
            self.rate_loaded(r)
        } else if self.counter <= 2 * self.frac {
            self.add_shifted()
        } else {
            self.finished()
        }
    }

    /// An iterator at reset with the iterate at zero.  A fraction wider than
    /// `MAX_FRAC` is refused.
    pub fn new(frac: u64) -> (made: Result<Self, ParamError>)
        ensures
            frac > MAX_FRAC <==> made is Err,
            made is Err ==> made == Err::<Self, ParamError>(ParamError::FracTooWide),
            made is Ok ==> made->Ok_0 == Self::reset(frac, 0) && made->Ok_0.wf(),
    {
        Self::with_seed(frac, 0)
    }

    /// An iterator at reset with the iterate at `seed`, of which only the
    /// `frac` fractional bits count.
    pub fn with_seed(frac: u64, seed: u64) -> (made: Result<Self, ParamError>)
        ensures
            frac > MAX_FRAC <==> made is Err,
            made is Err ==> made == Err::<Self, ParamError>(ParamError::FracTooWide),
            made is Ok ==> made->Ok_0 == Self::reset(frac, (seed as nat % fixed_one(frac)) as u64)
                && made->Ok_0.wf(),
    {
        if frac > MAX_FRAC {
            return Err(ParamError::FracTooWide);
        }
        let one = pow2_u64(frac);
        let x = seed % one;
        proof {
            lemma_pow2_le(frac as nat, (frac + 2) as nat);
        }
        Ok(
            LogsIterateMap {
                frac,
                x,
                next_ready: false,
                counter: 0,
                multiplicand: one - x,
                multiplier: x,
                mult_accum: 0,
            },
        )
    }

    /// Writes the registers after one enabled clock edge into `next`: one
    /// step of the running update, or, on its last step, the new iterate.
    pub fn step_into(&self, next: &mut Self, r: u64)
        requires
            self.wf(),
        ensures
            *final(next) == self.stepped(r),
            final(next).wf(),
    {
        proof {
            lemma_pow2_le(self.frac as nat, (self.frac + 2) as nat);
        }
        let one = pow2_u64(self.frac);
        *next = *self;
        if self.next_ready {
            next.next_ready = false;
            next.counter = 0;
            next.multiplicand = one - self.x;
            next.multiplier = self.x;
            next.mult_accum = 0;
        } else if (self.counter as u64) == self.frac {
            let four = pow2_u64(self.frac + 2);
            next.counter = self.counter + 1;
            next.multiplicand = if r <= four { r } else { four };
            next.multiplier = self.mult_accum;
            next.mult_accum = 0;
        } else if (self.counter as u64) <= 2 * self.frac {
            let addend = if self.multiplier % 2 == 1 { self.multiplicand } else { 0 };
            next.counter = self.counter + 1;
            next.multiplier = self.multiplier / 2;
            next.mult_accum = (self.mult_accum + addend) / 2;
        } else {
            next.x = if self.mult_accum < one { self.mult_accum } else { one - 1 };
            next.next_ready = true;
        }
    }

    /// Writes the registers after a clock edge on which the iterator is not
    /// enabled into `next`: every register holds.
    pub fn hold_into(&self, next: &mut Self)
        ensures
            *final(next) == *self,
    {
        *next = *self;
    }

    /// The registers after one enabled clock edge for each growth rate of
    /// `rates`, in order.
    pub open spec fn after(&self, rates: Seq<u64>) -> Self
        decreases rates.len(),
    {
        if rates.len() == 0 {
            *self
        } else {
            self.after(rates.drop_last()).stepped(rates.last())
        }
    }

    /// The registers after `k` enabled clock edges at the constant growth
    /// rate `r`.
    pub open spec fn run(&self, r: u64, k: nat) -> Self
        decreases k,
    {
        if k == 0 {
            *self
        } else {
            self.run(r, (k - 1) as nat).stepped(r)
        }
    }

    /// A clock edge keeps the registers well formed and the fraction's width
    /// unchanged.
    pub proof fn lemma_step_wf(&self, r: u64)
        requires
            self.wf(),
        ensures
            self.stepped(r).wf(),
            self.stepped(r).frac == self.frac,
    {
        lemma_pow2_le(self.frac as nat, (self.frac + 2) as nat);
    }

    /// The iterate stays below one, whatever growth rates are applied and
    /// for however many clock edges.
    pub proof fn law_iterate_in_range(&self, rates: Seq<u64>)
        requires
            self.wf(),
        ensures
            self.after(rates).wf(),
            self.after(rates).frac == self.frac,
            self.after(rates).x < fixed_one(self.frac),
        decreases rates.len(),
    {
        if rates.len() > 0 {
            self.law_iterate_in_range(rates.drop_last());
            self.after(rates.drop_last()).lemma_step_wf(rates.last());
        }
    }

    /// While the first product is formed, the accumulator holds the top part
    /// of `(1 - x)` times the bits of `x` consumed so far.
    pub proof fn lemma_first_product(&self, r: u64, j: nat)
        requires
            self.wf(),
            *self == self.restarted(),
            j <= self.frac,
        ensures
            self.run(r, j).wf(),
            self.run(r, j).frac == self.frac,
            self.run(r, j).x == self.x,
            !self.run(r, j).next_ready,
            self.run(r, j).counter == j,
            self.run(r, j).multiplicand == fixed_one(self.frac) - self.x,
            self.run(r, j).multiplier == self.x as nat / pow2(j),
            self.run(r, j).mult_accum == ((fixed_one(self.frac) - self.x) as nat * (self.x as nat
                % pow2(j))) / pow2(j),
        decreases j,
    {
        let a = self.multiplicand as nat;
        let b = self.x as nat;
        lemma_pow2_le(self.frac as nat, (self.frac + 2) as nat);
        if j == 0 {
            vstd::arithmetic::power2::lemma2_to64();
            assert(a * (b % 1) == 0) by (nonlinear_arith);
        } else {
            let i = (j - 1) as nat;
            self.lemma_first_product(r, i);
            let t = self.run(r, i);
            t.lemma_step_wf(r);
            lemma_add_shift(a, b, i);
            assert(t.stepped(r) == t.add_shifted());
        }
    }

    /// After the rate is loaded, the accumulator holds the top part of the
    /// rate times the bits of the first product consumed so far.
    pub proof fn lemma_second_product(&self, r: u64, j: nat)
        requires
            self.wf(),
            *self == self.restarted(),
            j <= self.frac,
        ensures
            self.run(r, (self.frac + 1 + j) as nat).wf(),
            self.run(r, (self.frac + 1 + j) as nat).frac == self.frac,
            self.run(r, (self.frac + 1 + j) as nat).x == self.x,
            !self.run(r, (self.frac + 1 + j) as nat).next_ready,
            self.run(r, (self.frac + 1 + j) as nat).counter == self.frac + 1 + j,
            self.run(r, (self.frac + 1 + j) as nat).multiplicand == held_rate(r as nat, self.frac),
            self.run(r, (self.frac + 1 + j) as nat).multiplier == square_part(
                self.x as nat,
                self.frac,
            ) / pow2(j),
            self.run(r, (self.frac + 1 + j) as nat).mult_accum == (held_rate(r as nat, self.frac) * (
            square_part(self.x as nat, self.frac) % pow2(j))) / pow2(j),
        decreases j,
    {
        let one = fixed_one(self.frac);
        let rate = held_rate(r as nat, self.frac);
        let square = square_part(self.x as nat, self.frac);
        lemma_pow2_le(self.frac as nat, (self.frac + 2) as nat);
        if j == 0 {
            self.lemma_first_product(r, self.frac as nat);
            let t = self.run(r, self.frac as nat);
            t.lemma_step_wf(r);
            assert(t.stepped(r) == t.rate_loaded(r));
            vstd::arithmetic::div_mod::lemma_small_mod(self.x as nat, one);
            vstd::arithmetic::power2::lemma2_to64();
            assert(rate * (square % 1) == 0) by (nonlinear_arith);
            assert(self.run(r, (self.frac + 1) as nat) == t.stepped(r));
        } else {
            let i = (j - 1) as nat;
            self.lemma_second_product(r, i);
            let t = self.run(r, (self.frac + 1 + i) as nat);
            t.lemma_step_wf(r);
            lemma_add_shift(rate, square, i);
            assert(t.stepped(r) == t.add_shifted());
            assert(self.run(r, (self.frac + 1 + j) as nat) == t.stepped(r));
        }
    }

    /// One update of the map takes `2 * frac + 2` enabled clock edges from
    /// the edge that set the multiplier up.  Before the last of them the
    /// iterate holds and `next_ready` is low; the last one raises
    /// `next_ready` and leaves in `x` the logistic image of the old iterate.
    pub proof fn law_update_is_logistic_image(&self, r: u64, k: nat)
        requires
            self.wf(),
            *self == self.restarted(),
            k <= 2 * self.frac + 2,
        ensures
            k < 2 * self.frac + 2 ==> self.run(r, k).x == self.x && !self.run(r, k).next_ready,
            k == 2 * self.frac + 2 ==> self.run(r, k).next_ready && self.run(r, k).x
                == logistic_image(self.x as nat, r as nat, self.frac),
    {
        let one = fixed_one(self.frac);
        let square = square_part(self.x as nat, self.frac);
        if k <= self.frac {
            self.lemma_first_product(r, k);
        } else if k <= 2 * self.frac + 1 {
            self.lemma_second_product(r, (k - self.frac - 1) as nat);
        } else {
            self.lemma_second_product(r, self.frac as nat);
            let t = self.run(r, (2 * self.frac + 1) as nat);
            assert(self.run(r, k) == t.stepped(r));
            assert(t.stepped(r) == t.finished());
            lemma_square_below_one(self.x as nat, one);
            vstd::arithmetic::div_mod::lemma_small_mod(square, one);
        }
    }
}

/// The rounded-down product of a number below one with its complement is
/// again below one.
pub proof fn lemma_square_below_one(x: nat, one: nat)
    requires
        x < one,
    ensures
        ((one - x) as nat * x) / one < one,
{
    let prod = (one - x) as nat * x;
    assert(prod < one * one) by (nonlinear_arith)
        requires
            x < one,
            prod == (one - x) as nat * x,
    ;
    vstd::arithmetic::div_mod::lemma_fundamental_div_mod(prod as int, one as int);
    vstd::arithmetic::div_mod::lemma_mod_bound(prod as int, one as int);
    let q = prod / one;
    assert(q < one) by (nonlinear_arith)
        requires
            prod < one * one,
            prod == one * q + prod % one,
            0 <= prod % one,
            0 < one,
    ;
}

/// One add-and-shift step: if the accumulator holds the top part of `a`
/// times the low `j` bits of `b`, then adding `a` where bit `j` of `b` is set
/// and halving gives the top part of `a` times the low `j + 1` bits.
pub proof fn lemma_add_shift(a: nat, b: nat, j: nat)
    ensures
        ({
            let acc = (a * (b % pow2(j))) / pow2(j);
            let rest = b / pow2(j);
            let addend = if rest % 2 == 1 { a } else { 0 };
            &&& (acc + addend) / 2 == (a * (b % pow2(j + 1))) / pow2(j + 1)
            &&& rest / 2 == b / pow2(j + 1)
            &&& acc <= a
        }),
{
    let p = pow2(j) as int;
    vstd::arithmetic::power2::lemma_pow2_pos(j);
    vstd::arithmetic::power2::lemma_pow2_unfold(j + 1);
    assert(pow2(j + 1) == p * 2);
    let lo = (b % pow2(j)) as int;
    let rest = (b / pow2(j)) as int;
    let bit = rest % 2;
    let acc = (a * lo) / p;
    let rem = (a * lo) % p;
    let addend: int = if bit == 1 { a as int } else { 0 };
    vstd::arithmetic::div_mod::lemma_mod_breakdown(b as int, p, 2);
    vstd::arithmetic::div_mod::lemma_div_denominator(b as int, p, 2);
    assert(b as int % (p * 2) == p * bit + lo);
    assert(rest / 2 == b as int / (p * 2));
    vstd::arithmetic::div_mod::lemma_fundamental_div_mod(a * lo, p);
    vstd::arithmetic::div_mod::lemma_mod_bound(a * lo, p);
    assert(0 <= a * lo) by (nonlinear_arith)
        requires
            0 <= lo,
    ;
    vstd::arithmetic::div_mod::lemma_div_pos_is_pos(a * lo, p);
    assert(addend == a * bit) by (nonlinear_arith)
        requires
            bit == 0 || bit == 1,
            addend == if bit == 1 { a as int } else { 0 },
    ;
    let z = acc + addend;
    let q = z / 2;
    let s = z % 2;
    assert(a * (p * bit + lo) == (p * 2) * q + (s * p + rem)) by (nonlinear_arith)
        requires
            a * lo == p * acc + rem,
            addend == a * bit,
            acc + addend == 2 * q + s,
    ;
    assert(0 <= s * p + rem < p * 2) by (nonlinear_arith)
        requires
            0 <= s <= 1,
            0 <= rem < p,
    ;
    vstd::arithmetic::div_mod::lemma_fundamental_div_mod_converse(
        a * (p * bit + lo),
        p * 2,
        q,
        s * p + rem,
    );
    assert(acc <= a) by (nonlinear_arith)
        requires
            a * lo == p * acc + rem,
            0 <= rem,
            0 <= lo < p,
            0 <= acc,
    ;
}

} // verus!
