//! Masks and powers of two for registers of up to 64 bits.

use vstd::prelude::*;
use vstd::arithmetic::power2::{pow2, lemma2_to64_rest, lemma_pow2_pos, lemma_pow2_strictly_increases};
use vstd::bits::{lemma_u64_pow2_no_overflow, lemma_u64_shl_is_mul};

verus! {

/// `2^n` as a machine word.
pub fn pow2_u64(n: u64) -> (p: u64)
    requires
        n < 64,
    ensures
        p as nat == pow2(n as nat),
        p >= 1,
{
    proof {
        lemma_u64_pow2_no_overflow(n as nat);
        lemma_u64_shl_is_mul(1u64, n);
    }
    1u64 << n
}

/// Returns a mask where the lower `n` bits are `1`.
pub fn low_bits(n: u64) -> (mask: u64)
    requires
        n <= 64,
    ensures
        mask as nat == pow2(n as nat) - 1,
{
    if n >= 64 {
        proof {
            lemma2_to64_rest();
        }
        u64::MAX
    } else {
        pow2_u64(n) - 1
    }
}

/// Powers of two grow with the exponent, and stay within `2^64` up to the
/// word's width.
pub proof fn lemma_pow2_le(a: nat, b: nat)
    requires
        a <= b,
    ensures
        1 <= pow2(a) <= pow2(b),
        b <= 64 ==> pow2(b) <= 0x1_0000_0000_0000_0000,
        b <= 63 ==> pow2(b) <= 0x8000_0000_0000_0000,
        b <= 62 ==> pow2(b) <= 0x4000_0000_0000_0000,
{
    lemma_pow2_pos(a);
    if a < b {
        lemma_pow2_strictly_increases(a, b);
    }
    lemma2_to64_rest();
    if b < 62 {
        lemma_pow2_strictly_increases(b, 62);
    } else if b < 63 {
        lemma_pow2_strictly_increases(b, 63);
    } else if b < 64 {
        lemma_pow2_strictly_increases(b, 64);
    }
}

} // verus!
