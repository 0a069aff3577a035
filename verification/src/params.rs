//! Sizing rules: how many bits a filter gets and how many positions each
//! element touches.
//!
//! All arithmetic is on integers. The natural logarithm of two enters as the
//! 64-bit binary fraction [`LN2_Q64`], so the hash count is an exact rational
//! quantity that the contracts can state.

use vstd::prelude::*;
use vstd::arithmetic::div_mod::lemma_fundamental_div_mod;
use vstd::arithmetic::div_mod::lemma_fundamental_div_mod_converse;

verus! {

/// Bits per storage word. Every filter size is a multiple of this.
pub const WORD_BITS: u64 = 32;

/// `floor(ln 2 * 2^64)`: the first 64 binary digits of ln 2 = 0.6931471805599453...
pub const LN2_Q64: u64 = 0xB172_17F7_D1CF_79AB;

/// `2^64`, the denominator that goes with [`LN2_Q64`].
pub open spec fn q64() -> int {
    0x1_0000_0000_0000_0000
}

/// The least multiple of 32 that is not below `m`.
pub open spec fn aligned_size(m: int) -> int {
    if m % 32 == 0 {
        m
    } else {
        m - m % 32 + 32
    }
}

/// `a / b` rounded up, for a positive `b`.
pub open spec fn ceil_div(a: int, b: int) -> int {
    if a % b == 0 {
        a / b
    } else {
        a / b + 1
    }
}

/// The number of hash positions for `n` expected elements in `m` bits, before
/// it is cut to 32 bits: `ceil(m * ln 2 / n)`, with ln 2 taken as
/// `LN2_Q64 / 2^64`.
pub open spec fn hash_count(n: int, m: int) -> int {
    ceil_div(m * LN2_Q64 as int, n * q64())
}

/// [`hash_count`] as it is stored: values above `u32::MAX` become `u32::MAX`.
pub open spec fn stored_hash_count(n: int, m: int) -> int {
    if hash_count(n, m) > u32::MAX as int {
        u32::MAX as int
    } else {
        hash_count(n, m)
    }
}

/// `ceil_div(a, b)` is the least integer whose product with `b` reaches `a`.
pub proof fn lemma_ceil_div_is_least(a: int, b: int)
    requires
        a >= 0,
        b > 0,
    ensures
        ceil_div(a, b) * b >= a,
        (ceil_div(a, b) - 1) * b < a || a == 0,
        ceil_div(a, b) >= 0,
{
    lemma_fundamental_div_mod(a, b);
    let q = a / b;
    let r = a % b;
    assert(a == b * q + r);
    assert(0 <= r < b);
    assert(q >= 0) by (nonlinear_arith)
        requires
            a == b * q + r,
            0 <= r < b,
            a >= 0,
            b > 0,
    ;
    assert((q + 1) * b == q * b + b) by (nonlinear_arith);
    assert((q - 1) * b == q * b - b) by (nonlinear_arith);
    assert(b * q == q * b) by (nonlinear_arith);
}

/// Rounds a size in bits up to a whole number of 32-bit words. `None` exactly
/// when the rounded size does not fit in 64 bits.
pub fn round_up_to_word(m: u64) -> (r: Option<u64>)
    ensures
        r.is_some() <==> aligned_size(m as int) <= u64::MAX,
        r.is_some() ==> r.unwrap() as int == aligned_size(m as int),
{
    let rest: u64 = m % WORD_BITS;
    if rest == 0 {
        Some(m)
    } else if m - rest <= u64::MAX - WORD_BITS {
        Some(m - rest + WORD_BITS)
    } else {
        None
    }
}

/// The number of hash positions that suits `n` expected elements and a filter
/// of `m` bits: `ceil(m * ln 2 / n)`, at most `u32::MAX`.
pub fn optimal_k(n: u64, m: u64) -> (k: u32)
    requires
        n > 0,
    ensures
        k as int == stored_hash_count(n as int, m as int),
        m > 0 ==> k >= 1,
{
    let two_64: u128 = 0x1_0000_0000_0000_0000u128;
    assert((m as int) * (LN2_Q64 as int) <= 0xFFFF_FFFF_FFFF_FFFF * 0xFFFF_FFFF_FFFF_FFFF)
        by (nonlinear_arith)
        requires
            0 <= m as int <= 0xFFFF_FFFF_FFFF_FFFF,
            0 <= LN2_Q64 as int <= 0xFFFF_FFFF_FFFF_FFFF,
    ;
    let product: u128 = (m as u128) * (LN2_Q64 as u128);
    let high: u128 = product / two_64;
    let low: u128 = product % two_64;
    let whole: u128 = high / (n as u128);
    let rest: u128 = high % (n as u128);
    proof {
        let p = product as int;
        let nn = n as int;
        let d = nn * q64();
        let w = whole as int;
        let hi = high as int;
        let lo = low as int;
        let re = rest as int;
        let r = re * q64() + lo;
        assert(p == hi * q64() + lo);
        assert(hi == w * nn + re) by {
            lemma_fundamental_div_mod(hi, nn);
            assert(nn * w == w * nn) by (nonlinear_arith);
        }
        assert(d > 0 && 0 <= r < d && p == w * d + r) by (nonlinear_arith)
            requires
                p == hi * q64() + lo,
                hi == w * nn + re,
                0 <= re < nn,
                0 <= lo < q64(),
                d == nn * q64(),
                r == re * q64() + lo,
                q64() == 0x1_0000_0000_0000_0000,
        ;
        lemma_fundamental_div_mod_converse(p, d, w, r);
        assert(p / d == w && p % d == r);
        assert(r == 0 <==> (re == 0 && lo == 0)) by (nonlinear_arith)
            requires
                r == re * q64() + lo,
                0 <= re,
                0 <= lo,
                q64() == 0x1_0000_0000_0000_0000,
        ;
        if m > 0 {
            assert(p > 0) by (nonlinear_arith)
                requires
                    p == (m as int) * (LN2_Q64 as int),
                    m as int > 0,
                    LN2_Q64 as int > 0,
            ;
            assert(w > 0 || r > 0) by (nonlinear_arith)
                requires
                    p == w * d + r,
                    p > 0,
                    w >= 0,
                    r >= 0,
            ;
        }
    }
    let up: u128 = if rest != 0 || low != 0 {
        whole + 1
    } else {
        whole
    };
    if up > 0xFFFF_FFFFu128 {
        0xFFFF_FFFFu32
    } else {
        up as u32
    }
}

} // verus!
