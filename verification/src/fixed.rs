//! Fixed-point arithmetic.
//!
//! Prices, sizes, funding rates and money are integers that count
//! hundred-millionths of a unit: a price of `25000.5` is the integer
//! `2_500_050_000_000`. Products are rescaled by [`SCALE`] and rounded towards
//! zero.

use vstd::arithmetic::div_mod::lemma_fundamental_div_mod;
use vstd::arithmetic::div_mod::lemma_fundamental_div_mod_converse;
use vstd::prelude::*;

verus! {

/// Number of fixed-point units in one whole unit of price, size, rate or money.
pub const SCALE: u64 = 100_000_000;

/// Basis points in one whole: a fee of `10_000` basis points is 100%.
pub const BPS_DENOMINATOR: u64 = 10_000;

/// Largest magnitude that signed money takes: the range is symmetric.
pub const MONEY_MAX: i128 = i128::MAX;

/// Largest notional that a 64-bit size at a 64-bit price comes to.
pub const MAX_NOTIONAL: u128 = 3_402_823_669_209_384_634_264_811_192_843;

/// The absolute value of `x`.
pub open spec fn abs_of(x: int) -> int {
    if x < 0 {
        -x
    } else {
        x
    }
}

/// `a / d` rounded towards zero, for a positive divisor.
pub open spec fn trunc_div(a: int, d: int) -> int {
    if a >= 0 {
        a / d
    } else {
        -((-a) / d)
    }
}

/// `a * b / d` rounded towards zero.
pub open spec fn mul_div(a: int, b: int, d: int) -> int {
    trunc_div(a * b, d)
}

/// The value of `size` units at `price`, in money units, rounded down.
pub open spec fn notional_of(size: int, price: int) -> int {
    (size * price) / (SCALE as int)
}

/// Whether `x` is money that the signed 128-bit range holds with its negation.
pub open spec fn fits_money(x: int) -> bool {
    -(MONEY_MAX as int) <= x <= MONEY_MAX as int
}

/// A quotient of a sum that holds a multiple of the divisor splits at that
/// multiple.
pub proof fn lemma_div_split(q: int, m: int, b: int, d: int)
    requires
        d > 0,
        0 <= m,
        0 <= b,
    ensures
        ((q * d + m) * b) / d == q * b + (m * b) / d,
{
    let y = m * b;
    let x = q * b;
    assert(y >= 0) by (nonlinear_arith)
        requires
            y == m * b,
            0 <= m,
            0 <= b,
    ;
    lemma_fundamental_div_mod(y, d);
    assert((q * d + m) * b == d * (x + y / d) + y % d) by (nonlinear_arith)
        requires
            y == m * b,
            x == q * b,
            y == d * (y / d) + y % d,
    ;
    lemma_fundamental_div_mod_converse((q * d + m) * b, d, x + y / d, y % d);
}

/// A product of two non-negative numbers is monotone in both.
pub proof fn lemma_mul_le(a: int, b: int, c: int, d: int)
    requires
        0 <= a <= c,
        0 <= b <= d,
    ensures
        0 <= a * b <= c * d,
{
    assert(0 <= a * b <= c * d) by (nonlinear_arith)
        requires
            0 <= a <= c,
            0 <= b <= d,
    ;
}

/// Computes the notional of a fill: `size * price`, rescaled to money units.
pub fn notional(size: u64, price: u64) -> (r: u128)
    ensures
        r == notional_of(size as int, price as int),
        r <= MAX_NOTIONAL,
{
    proof {
        lemma_mul_le(size as int, price as int, u64::MAX as int, u64::MAX as int);
        assert(0xFFFF_FFFF_FFFF_FFFFint * 0xFFFF_FFFF_FFFF_FFFFint / 100_000_000 == MAX_NOTIONAL as int);
    }
    let wide: u128 = (size as u128) * (price as u128);
    wide / (SCALE as u128)
}

/// The magnitude of a signed amount.
pub fn magnitude(x: i128) -> (r: u128)
    ensures
        r == abs_of(x as int),
{
    if x >= 0 {
        x as u128
    } else {
        ((-(x + 1)) as u128) + 1
    }
}

/// The magnitude of a signed 64-bit amount.
pub fn magnitude64(x: i64) -> (r: u64)
    ensures
        r == abs_of(x as int),
{
    if x >= 0 {
        x as u64
    } else {
        ((-(x + 1)) as u64) + 1
    }
}

/// `a * b / d`, rounded down, when it fits in 128 bits.
pub fn mul_div_u128(a: u128, b: u64, d: u64) -> (r: Option<u128>)
    requires
        d > 0,
    ensures
        match r {
            Some(v) => v == (a * b) / (d as int),
            None => (a * b) / (d as int) > u128::MAX,
        },
{
    let dw: u128 = d as u128;
    let bw: u128 = b as u128;
    let q: u128 = a / dw;
    let m: u128 = a % dw;
    proof {
        lemma_fundamental_div_mod(a as int, d as int);
        assert(a as int == q * d + m) by (nonlinear_arith)
            requires
                a as int == (d as int) * (q as int) + (m as int),
        ;
        lemma_div_split(q as int, m as int, b as int, d as int);
        lemma_mul_le(m as int, b as int, u64::MAX as int, u64::MAX as int);
        lemma_mul_le(0, 0, q as int, b as int);
    }
    let low: u128 = (m * bw) / dw;
    match q.checked_mul(bw) {
        None => None,
        Some(high) => high.checked_add(low),
    }
}

/// `a * b / d`, rounded towards zero, when the result is money.
pub fn mul_div_signed(a: i128, b: i128, d: u64) -> (r: Option<i128>)
    requires
        d > 0,
        -(u64::MAX as int) <= b <= u64::MAX as int,
    ensures
        match r {
            Some(v) => v == mul_div(a as int, b as int, d as int),
            None => !fits_money(mul_div(a as int, b as int, d as int)),
        },
{
    let ma: u128 = magnitude(a);
    let mb: u128 = magnitude(b);
    let negative: bool = (a < 0) != (b < 0);
    proof {
        let p = (a as int) * (b as int);
        let mp = (ma as int) * (mb as int);
        assert(mp >= 0) by (nonlinear_arith)
            requires
                mp == (ma as int) * (mb as int),
                ma >= 0,
                mb >= 0,
        ;
        assert(negative ==> p == -mp) by (nonlinear_arith)
            requires
                p == (a as int) * (b as int),
                mp == (ma as int) * (mb as int),
                ma == abs_of(a as int),
                mb == abs_of(b as int),
                negative == ((a < 0) != (b < 0)),
        ;
        assert(!negative ==> p == mp) by (nonlinear_arith)
            requires
                p == (a as int) * (b as int),
                mp == (ma as int) * (mb as int),
                ma == abs_of(a as int),
                mb == abs_of(b as int),
                negative == ((a < 0) != (b < 0)),
        ;
        assert(mp == 0 ==> 0int / (d as int) == 0);
    }
    match mul_div_u128(ma, mb as u64, d) {
        None => None,
        Some(v) => {
            if v > MONEY_MAX as u128 {
                None
            } else if negative {
                Some(-(v as i128))
            } else {
                Some(v as i128)
            }
        },
    }
}

} // verus!
