//! Rounding addresses down to a power-of-two boundary.

use vstd::prelude::*;
use vstd::arithmetic::div_mod::{lemma_fundamental_div_mod, lemma_mod_multiples_basic, lemma_mod_self_0};
use vstd::arithmetic::power::pow;
use vstd::arithmetic::power2::{is_pow2, is_pow2_equiv, lemma2_to64, lemma_pow2_pos, lemma_pow2_strictly_increases, pow2};
use vstd::bits::{lemma_u64_low_bits_mask_is_mod, low_bits_mask};

verus! {

/// The largest multiple of `align` that does not exceed `addr`.
pub open spec fn align_down(addr: int, align: int) -> int {
    addr - addr % align
}

/// `align_down` yields a multiple of `align` that lies less than `align`
/// below `addr`.
pub proof fn lemma_align_down_bounds(addr: int, align: int)
    requires
        align > 0,
    ensures
        align_down(addr, align) % align == 0,
        addr - align < align_down(addr, align) <= addr,
{
    lemma_fundamental_div_mod(addr, align);
    lemma_mod_multiples_basic(addr / align, align);
    assert(align * (addr / align) == (addr / align) * align) by (nonlinear_arith);
}

/// A power of two is positive.
pub proof fn lemma_pow2_positive(n: int)
    requires
        is_pow2(n),
    ensures
        n > 0,
{
    reveal(is_pow2);
}

/// Every power of two that fits in 64 bits is `pow2(k)` for some `k < 64`.
proof fn lemma_exponent_of(n: u64) -> (k: nat)
    requires
        is_pow2(n as int),
    ensures
        k < 64,
        pow2(k) == n,
        low_bits_mask(k) == n - 1,
{
    is_pow2_equiv(n as int);
    let k = choose|i: nat| pow(2, i) == n as int;
    lemma_pow2_pos(k);
    if k >= 64 {
        lemma2_to64();
        if k > 64 {
            lemma_pow2_strictly_increases(64, k);
        }
    }
    k
}

/// Masking with `align - 1` computes the remainder modulo `align`.
proof fn lemma_mask_is_remainder(addr: u64, align: u64)
    requires
        is_pow2(align as int),
    ensures
        align > 0,
        addr & ((align - 1) as u64) == addr % align,
{
    let k = lemma_exponent_of(align);
    lemma_u64_low_bits_mask_is_mod(addr, k);
}

/// Tells whether `n` is a power of two.
pub fn is_power_of_two(n: u64) -> (b: bool)
    ensures
        b == is_pow2(n as int),
{
    if n == 0 {
        proof {
            reveal(is_pow2);
        }
        return false;
    }
    let low: u64 = n & (n - 1);
    proof {
        if is_pow2(n as int) {
            lemma_mask_is_remainder(n, n);
            lemma_mod_self_0(n as int);
        }
        if low == 0 {
            lemma_single_bit_is_pow2(n);
        }
    }
    low == 0
}

/// A positive number that shares no bit with its predecessor is a power of two.
proof fn lemma_single_bit_is_pow2(n: u64)
    requires
        n > 0,
        n & ((n - 1) as u64) == 0,
    ensures
        is_pow2(n as int),
    decreases n,
{
    reveal(is_pow2);
    if n > 1 {
        let half: u64 = n / 2;
        assert(n % 2 == 0 && half > 0 && half & ((half - 1) as u64) == 0) by (bit_vector)
            requires
                n > 1,
                n & ((n - 1) as u64) == 0,
                half == n / 2,
        ;
        lemma_single_bit_is_pow2(half);
    }
}

/// Rounds `addr` down to a multiple of `align` by clearing its low bits.
pub fn round_down(addr: u64, align: u64) -> (r: u64)
    requires
        is_pow2(align as int),
    ensures
        r == align_down(addr as int, align as int),
        r % align == 0,
        addr - align < r <= addr,
{
    proof {
        lemma_mask_is_remainder(addr, align);
    }
    let mask: u64 = align - 1;
    let r: u64 = addr & !mask;
    proof {
        assert(addr & !mask == addr - (addr & mask)) by (bit_vector);
        lemma_align_down_bounds(addr as int, align as int);
    }
    r
}

} // verus!
