//! Fixed-point arithmetic on 128-bit integers.
//!
//! Prices, sizes and factors carry thirty decimals ([`FLOAT_PRECISION`]); token
//! amounts carry seven ([`TOKEN_PRECISION`]).  A product of two such numbers
//! does not fit in 128 bits, so `mul_div_wide` and `mul_div_wide_up` go through
//! a 256-bit product.

use crate::failure::Failure;
use vstd::arithmetic::power2::*;
use vstd::prelude::*;

verus! {

/// One unit of a price, a size in dollars or a factor.
pub const FLOAT_PRECISION: i128 = 1_000_000_000_000_000_000_000_000_000_000;

/// One whole token.
pub const TOKEN_PRECISION: i128 = 10_000_000;

// ---------------------------------------------------------------------------
// Ranges
// ---------------------------------------------------------------------------

/// The integer fits in an `i128`.
pub open spec fn fits(x: int) -> bool {
    i128::MIN <= x <= i128::MAX
}

/// The integer fits in a `u128`.
pub open spec fn fits_unsigned(x: int) -> bool {
    0 <= x <= u128::MAX
}

/// The integer as an `i128`, or an overflow.
pub open spec fn fit(x: int) -> Result<i128, Failure> {
    if fits(x) {
        Ok(x as i128)
    } else {
        Err(Failure::Overflow)
    }
}

/// The integer as a `u128`, or an overflow.
pub open spec fn fit_unsigned(x: int) -> Result<u128, Failure> {
    if fits_unsigned(x) {
        Ok(x as u128)
    } else {
        Err(Failure::Overflow)
    }
}

// ---------------------------------------------------------------------------
// Division
// ---------------------------------------------------------------------------

/// Absolute value.
pub open spec fn magnitude(x: int) -> nat {
    if x < 0 {
        (-x) as nat
    } else {
        x as nat
    }
}

/// Division that drops the fraction, towards zero.
#[verifier::opaque]
pub open spec fn trunc_div(a: int, d: int) -> int {
    let q = (magnitude(a) / magnitude(d)) as int;
    if (a < 0) == (d < 0) {
        q
    } else {
        -q
    }
}

/// Division that rounds a fraction up, towards positive infinity.
#[verifier::opaque]
pub open spec fn ceil_div(a: int, d: int) -> int {
    let q = (magnitude(a) / magnitude(d)) as int;
    if (a < 0) == (d < 0) {
        if magnitude(a) % magnitude(d) == 0 {
            q
        } else {
            q + 1
        }
    } else {
        -q
    }
}

/// The result of `mul_div_wide`.
pub open spec fn mul_div_result(a: int, b: int, d: int) -> Result<i128, Failure> {
    if d == 0 {
        Err(Failure::DivisionByZero)
    } else {
        fit(trunc_div(a * b, d))
    }
}

/// The result of `mul_div_wide_up`.
pub open spec fn mul_div_up_result(a: int, b: int, d: int) -> Result<i128, Failure> {
    if d == 0 {
        Err(Failure::DivisionByZero)
    } else {
        fit(ceil_div(a * b, d))
    }
}

// ---------------------------------------------------------------------------
// Wide multiplication and division
// ---------------------------------------------------------------------------

/// 2^64, the base of the half-words of a product.
const HALF: u128 = 0x1_0000_0000_0000_0000;

/// 2^127, the weight of the top bit of a word.
const TOP_BIT: u128 = 0x8000_0000_0000_0000_0000_0000_0000_0000;

/// 2^128, the base of the words of a product.
pub open spec fn word() -> int {
    0x1_0000_0000_0000_0000_0000_0000_0000_0000int
}

proof fn lemma_half_word_products(a1: int, a0: int, b1: int, b0: int)
    ensures
        (a1 * HALF + a0) * (b1 * HALF + b0) == a1 * b1 * word() + (a1 * b0 + a0 * b1) * HALF
            + a0 * b0,
{
    assert((a1 * HALF + a0) * (b1 * HALF + b0) == a1 * b1 * (HALF * HALF) + (a1 * b0 + a0 * b1)
        * HALF + a0 * b0) by (nonlinear_arith);
    assert(HALF * HALF == word());
}

proof fn lemma_half_word_bound(x: int, y: int)
    requires
        0 <= x < HALF,
        0 <= y < HALF,
    ensures
        0 <= x * y <= (HALF - 1) * (HALF - 1),
{
    assert(0 <= x * y <= (HALF - 1) * (HALF - 1)) by (nonlinear_arith)
        requires
            0 <= x < HALF,
            0 <= y < HALF,
    ;
}

/// The full product of two words, as a high and a low word.
fn wide_mul(a: u128, b: u128) -> (r: (u128, u128))
    ensures
        r.0 * word() + r.1 == a * b,
{
    let a1: u128 = a / HALF;
    let a0: u128 = a % HALF;
    let b1: u128 = b / HALF;
    let b0: u128 = b % HALF;
    proof {
        lemma_half_word_bound(a1 as int, b1 as int);
        lemma_half_word_bound(a1 as int, b0 as int);
        lemma_half_word_bound(a0 as int, b1 as int);
        lemma_half_word_bound(a0 as int, b0 as int);
        lemma_half_word_products(a1 as int, a0 as int, b1 as int, b0 as int);
    }
    let low: u128 = a0 * b0;
    let cross: u128 = a1 * b0;
    let other: u128 = a0 * b1;
    let high: u128 = a1 * b1;
    // The middle column: never more than three half-words.
    let middle: u128 = low / HALF + cross % HALF + other % HALF;
    let lo: u128 = (middle % HALF) * HALF + low % HALF;
    assert(a * b < word() * word()) by (nonlinear_arith)
        requires
            a < word(),
            b < word(),
    ;
    assert(a * b == high * word() + (cross + other) * HALF + low);
    let ghost carry = cross / HALF + other / HALF + middle / HALF;
    assert((high + carry) * word() + lo == a * b);
    assert(high + carry < word());
    let hi: u128 = high + cross / HALF + other / HALF + middle / HALF;
    (hi, lo)
}

/// Quotient and remainder of a two-word number by a divisor of at most 127
/// bits, where the quotient fits in one word.
fn wide_div(hi: u128, lo: u128, d: u128) -> (r: (u128, u128))
    requires
        hi < d <= TOP_BIT,
    ensures
        r.1 < d,
        r.0 * d + r.1 == hi * word() + lo,
{
    let mut quotient: u128 = 0;
    let mut remainder: u128 = hi;
    let mut rest: u128 = lo;
    let mut i: u32 = 0;
    let ghost n = hi * word() + lo;
    proof {
        lemma2_to64();
        assert(n * 1 == n) by (nonlinear_arith);
        assert(0 * d == 0) by (nonlinear_arith);
    }
    while i < 128
        invariant
            i <= 128,
            d <= TOP_BIT,
            remainder < d,
            n == hi * word() + lo,
            hi < d,
            quotient < pow2(i as nat),
            (quotient * d + remainder) * word() + rest == n * pow2(i as nat),
        decreases 128 - i,
    {
        let ghost q0 = quotient as int;
        let ghost r0 = remainder as int;
        let ghost rest0 = rest as int;
        let ghost p = pow2(i as nat) as int;
        proof {
            lemma_pow2_unfold((i + 1) as nat);
            lemma_pow2_127();
            if i < 127 {
                lemma_pow2_strictly_increases(i as nat, 127);
            }
        }
        let bit: u128 = if rest >= TOP_BIT {
            1
        } else {
            0
        };
        let rest_low: u128 = if rest >= TOP_BIT {
            rest - TOP_BIT
        } else {
            rest
        };
        rest = rest_low * 2;
        let shifted: u128 = remainder * 2 + bit;
        if shifted >= d {
            remainder = shifted - d;
            quotient = quotient * 2 + 1;
        } else {
            remainder = shifted;
            quotient = quotient * 2;
        }
        proof {
            assert(2 * rest0 == bit * word() + rest);
            assert(quotient * d + remainder == 2 * (q0 * d + r0) + bit) by (nonlinear_arith)
                requires
                    (quotient == q0 * 2 + 1 && remainder == 2 * r0 + bit - d) || (quotient == q0
                        * 2 && remainder == 2 * r0 + bit),
            ;
            assert((2 * (q0 * d + r0) + bit) * word() + rest == 2 * ((q0 * d + r0) * word()
                + rest0));
            assert(n * (2 * p) == 2 * (n * p)) by (nonlinear_arith);
        }
        i = i + 1;
    }
    proof {
        lemma_pow2_127();
        lemma_pow2_unfold(128);
        assert(pow2(128) == word());
        assert((quotient * d + remainder) * word() + rest == n * word());
        assert(rest == (n - (quotient * d + remainder)) * word()) by (nonlinear_arith)
            requires
                (quotient * d + remainder) * word() + rest == n * word(),
        ;
        let k = n - (quotient * d + remainder);
        assert(k == 0) by (nonlinear_arith)
            requires
                rest == k * word(),
                0 <= rest < word(),
        ;
    }
    (quotient, remainder)
}

proof fn lemma_pow2_127()
    ensures
        pow2(127) == TOP_BIT,
{
    lemma2_to64();
    lemma2_to64_rest();
    lemma_pow2_adds(64, 63);
    assert(0x1_0000_0000_0000_0000int * 0x8000_0000_0000_0000int == TOP_BIT as int);
}

proof fn lemma_product_sign(a: int, b: int)
    ensures
        magnitude(a * b) == magnitude(a) * magnitude(b),
        a * b != 0 ==> ((a * b < 0) == ((a < 0) != (b < 0))),
{
    assert(magnitude(a) * magnitude(b) == magnitude(a * b) && (a * b != 0 ==> ((a * b < 0) == ((a
        < 0) != (b < 0))))) by (nonlinear_arith);
}

proof fn lemma_large_quotient(hi: int, lo: int, d: int)
    requires
        0 < d <= hi,
        0 <= lo,
    ensures
        (hi * word() + lo) / d >= word(),
{
    vstd::arithmetic::div_mod::lemma_div_is_ordered(d * word(), hi * word() + lo, d);
    vstd::arithmetic::div_mod::lemma_div_multiples_vanish(word(), d);
    assert(d * word() <= hi * word()) by (nonlinear_arith)
        requires
            d <= hi,
    ;
}

/// The absolute value as a word.
fn unsigned_abs(x: i128) -> (r: u128)
    ensures
        r == magnitude(x as int),
        r <= TOP_BIT,
{
    if x >= 0 {
        x as u128
    } else {
        ((-(x + 1)) as u128) + 1
    }
}

/// The number with the given sign and magnitude.
fn with_sign(negative: bool, m: u128) -> (r: Result<i128, Failure>)
    ensures
        r == fit(if negative {
            -m
        } else {
            m as int
        }),
{
    if negative {
        if m > TOP_BIT {
            Err(Failure::Overflow)
        } else if m == TOP_BIT {
            Ok(i128::MIN)
        } else {
            Ok(-(m as i128))
        }
    } else {
        if m < TOP_BIT {
            Ok(m as i128)
        } else {
            Err(Failure::Overflow)
        }
    }
}

/// Quotient and remainder of `|a * b|` by `|d|`, or `None` where the quotient
/// takes more than a word.
fn wide_mul_div(a: i128, b: i128, d: i128) -> (r: Option<(u128, u128)>)
    requires
        d != 0,
    ensures
        match r {
            Some((q, m)) => {
                &&& q == magnitude(a * b) / magnitude(d as int)
                &&& m == magnitude(a * b) % magnitude(d as int)
            },
            None => magnitude(a * b) / magnitude(d as int) >= word(),
        },
{
    let a_abs: u128 = unsigned_abs(a);
    let b_abs: u128 = unsigned_abs(b);
    let d_abs: u128 = unsigned_abs(d);
    let (hi, lo) = wide_mul(a_abs, b_abs);
    proof {
        lemma_product_sign(a as int, b as int);
    }
    if hi >= d_abs {
        proof {
            lemma_large_quotient(hi as int, lo as int, d_abs as int);
        }
        return None;
    }
    let (q, m) = wide_div(hi, lo, d_abs);
    proof {
        vstd::arithmetic::div_mod::lemma_fundamental_div_mod_converse(
            magnitude(a * b) as int,
            d_abs as int,
            q as int,
            m as int,
        );
    }
    Some((q, m))
}

/// `a * b / d` with the fraction dropped, through a 256-bit product.
pub fn mul_div_wide(a: i128, b: i128, d: i128) -> (r: Result<i128, Failure>)
    ensures
        r == mul_div_result(a as int, b as int, d as int),
{
    reveal(trunc_div);
    if d == 0 {
        return Err(Failure::DivisionByZero);
    }
    proof {
        lemma_product_sign(a as int, b as int);
    }
    match wide_mul_div(a, b, d) {
        Some((q, _)) => {
            assert(a * b == 0 ==> q == 0) by {
                assert(0nat / magnitude(d as int) == 0) by (nonlinear_arith)
                    requires
                        magnitude(d as int) > 0,
                ;
            }
            with_sign(((a < 0) != (b < 0)) != (d < 0), q)
        },
        None => Err(Failure::Overflow),
    }
}

/// `a * b / d` with a fraction rounded up, through a 256-bit product.
pub fn mul_div_wide_up(a: i128, b: i128, d: i128) -> (r: Result<i128, Failure>)
    ensures
        r == mul_div_up_result(a as int, b as int, d as int),
{
    reveal(ceil_div);
    if d == 0 {
        return Err(Failure::DivisionByZero);
    }
    proof {
        lemma_product_sign(a as int, b as int);
    }
    match wide_mul_div(a, b, d) {
        Some((q, m)) => {
            assert(a * b == 0 ==> q == 0 && m == 0) by {
                assert(0nat / magnitude(d as int) == 0 && 0nat % magnitude(d as int) == 0)
                    by (nonlinear_arith)
                    requires
                        magnitude(d as int) > 0,
                ;
            }
            let negative = ((a < 0) != (b < 0)) != (d < 0);
            if m == 0 || negative {
                with_sign(negative, q)
            } else if q == u128::MAX {
                Err(Failure::Overflow)
            } else {
                with_sign(false, q + 1)
            }
        },
        None => Err(Failure::Overflow),
    }
}

// ---------------------------------------------------------------------------
// Checked steps
// ---------------------------------------------------------------------------

/// `a + b`, or an overflow.
pub fn plus(a: i128, b: i128) -> (r: Result<i128, Failure>)
    ensures
        r == fit(a + b),
{
    match a.checked_add(b) {
        Some(x) => Ok(x),
        None => Err(Failure::Overflow),
    }
}

/// `a - b`, or an overflow.
pub fn minus(a: i128, b: i128) -> (r: Result<i128, Failure>)
    ensures
        r == fit(a - b),
{
    match a.checked_sub(b) {
        Some(x) => Ok(x),
        None => Err(Failure::Overflow),
    }
}

/// `a + b` for an unsigned `a`, or an overflow.
pub fn plus_signed(a: u128, b: i128) -> (r: Result<u128, Failure>)
    ensures
        r == fit_unsigned(a + b),
{
    let m: u128 = unsigned_abs(b);
    let sum: Option<u128> = if b < 0 {
        a.checked_sub(m)
    } else {
        a.checked_add(m)
    };
    match sum {
        Some(x) => Ok(x),
        None => Err(Failure::Overflow),
    }
}

/// An unsigned word read as a signed one: past `i128::MAX` it wraps.
pub open spec fn signed(x: u128) -> i128 {
    if x <= i128::MAX {
        x as i128
    } else {
        (x - word()) as i128
    }
}

/// A signed word read as an unsigned one: below zero it wraps.
pub open spec fn unsigned(x: i128) -> u128 {
    if x >= 0 {
        x as u128
    } else {
        (x + word()) as u128
    }
}

/// Reads an unsigned word as a signed one.
pub fn to_signed(x: u128) -> (r: i128)
    ensures
        r == signed(x),
{
    if x < TOP_BIT {
        x as i128
    } else {
        -((u128::MAX - x) as i128) - 1
    }
}

/// Reads a signed word as an unsigned one.
pub fn to_unsigned(x: i128) -> (r: u128)
    ensures
        r == unsigned(x),
{
    if x >= 0 {
        x as u128
    } else {
        u128::MAX - ((-(x + 1)) as u128)
    }
}

/// The number, or the largest word where it does not fit in one.
pub open spec fn saturated(x: int) -> u128 {
    if x > u128::MAX {
        u128::MAX
    } else {
        x as u128
    }
}

/// `a * b`, or the largest word where it does not fit in one.
pub fn saturating_mul(a: u128, b: u128) -> (r: u128)
    ensures
        r == saturated(a * b),
{
    assert(0 <= a * b) by (nonlinear_arith);
    match a.checked_mul(b) {
        Some(x) => x,
        None => u128::MAX,
    }
}

/// The number, or the nearest signed word where it does not fit in one.
pub open spec fn clamped(x: int) -> i128 {
    if x > i128::MAX {
        i128::MAX
    } else if x < i128::MIN {
        i128::MIN
    } else {
        x as i128
    }
}

/// `a + b`, or the nearest signed word where it does not fit in one.
pub fn clamped_sum(a: i128, b: i128) -> (r: i128)
    ensures
        r == clamped(a + b),
{
    match a.checked_add(b) {
        Some(x) => x,
        None => if b > 0 {
            i128::MAX
        } else {
            i128::MIN
        },
    }
}

/// The low 64 bits of a word.
pub fn low_u64(x: u128) -> (r: u64)
    ensures
        r == x % 0x1_0000_0000_0000_0000u128,
{
    (x % HALF) as u64
}

/// The low 32 bits of a word.
pub fn low_u32(x: u128) -> (r: u32)
    ensures
        r == x % 0x1_0000_0000u128,
{
    (x % 0x1_0000_0000) as u32
}

/// The larger of a number and zero.
pub open spec fn at_least_zero(x: int) -> int {
    if x < 0 {
        0
    } else {
        x
    }
}

// ---------------------------------------------------------------------------
// Laws of the two divisions
// ---------------------------------------------------------------------------

/// For a non-negative number and a positive divisor, dropping the fraction
/// gives the largest multiple that does not exceed the number.
pub proof fn trunc_div_is_floor(a: int, d: int)
    requires
        0 <= a,
        0 < d,
    ensures
        0 <= trunc_div(a, d),
        trunc_div(a, d) * d <= a < (trunc_div(a, d) + 1) * d,
        trunc_div(a, d) == a / d,
{
    reveal(trunc_div);
    vstd::arithmetic::div_mod::lemma_fundamental_div_mod(a, d);
    assert(0 <= a / d && (a / d) * d <= a < (a / d + 1) * d) by (nonlinear_arith)
        requires
            a == d * (a / d) + a % d,
            0 <= a % d < d,
            0 <= a,
            0 < d,
    ;
}

/// For a non-negative number and a positive divisor, rounding up gives the
/// smallest multiple that is not below the number.
pub proof fn ceil_div_is_ceiling(a: int, d: int)
    requires
        0 <= a,
        0 < d,
    ensures
        0 <= ceil_div(a, d),
        a <= ceil_div(a, d) * d < a + d,
{
    reveal(ceil_div);
    vstd::arithmetic::div_mod::lemma_fundamental_div_mod(a, d);
    let q = a / d;
    let r = a % d;
    assert(0 <= q && q * d <= a < (q + 1) * d && (r != 0 ==> q * d < a) && (r == 0 ==> q * d
        == a)) by (nonlinear_arith)
        requires
            a == d * q + r,
            0 <= r < d,
            0 <= a,
            0 < d,
    ;
    assert((q + 1) * d == q * d + d) by (nonlinear_arith);
}

/// Rounding up never gives less than dropping the fraction, and at most one
/// more.
pub proof fn rounding_differs_by_at_most_one(a: int, d: int)
    requires
        d != 0,
    ensures
        trunc_div(a, d) <= ceil_div(a, d) <= trunc_div(a, d) + 1,
{
    reveal(trunc_div);
    reveal(ceil_div);
}

/// Zero divided is zero, whichever way it is rounded.
pub proof fn zero_divided(d: int)
    requires
        d != 0,
    ensures
        trunc_div(0, d) == 0,
        ceil_div(0, d) == 0,
{
    reveal(trunc_div);
    reveal(ceil_div);
    let m = magnitude(d) as int;
    assert(0int / m == 0 && 0int % m == 0) by (nonlinear_arith)
        requires
            m > 0,
    ;
}

/// A larger number has a quotient that is at least as large.
pub proof fn trunc_div_is_monotone(a: int, b: int, d: int)
    requires
        0 <= a <= b,
        0 < d,
    ensures
        trunc_div(a, d) <= trunc_div(b, d),
{
    reveal(trunc_div);
    vstd::arithmetic::div_mod::lemma_div_is_ordered(a, b, d);
}

/// A number that is a multiple of the divisor divides exactly.
pub proof fn exact_division(k: int, d: int)
    requires
        0 < d,
    ensures
        trunc_div(k * d, d) == k,
        ceil_div(k * d, d) == k,
{
    reveal(trunc_div);
    reveal(ceil_div);
    let m = magnitude(k) as int;
    assert(magnitude(k * d) == m * d && (k < 0 ==> k * d < 0) && (k >= 0 ==> k * d >= 0))
        by (nonlinear_arith)
        requires
            0 < d,
            m == (if k < 0 {
                -k
            } else {
                k
            }),
    ;
    vstd::arithmetic::div_mod::lemma_div_by_multiple(m, d);
    vstd::arithmetic::div_mod::lemma_mod_multiples_basic(m, d);
}

/// Dropping the fraction treats a number and its negative alike.
pub proof fn trunc_div_is_odd(a: int, d: int)
    requires
        d > 0,
    ensures
        trunc_div(-a, d) == -trunc_div(a, d),
        a >= 0 ==> trunc_div(a, d) == a / d,
        a < 0 ==> trunc_div(a, d) == -((-a) / d),
{
    reveal(trunc_div);
    if a == 0 {
        zero_divided(d);
    }
}

/// Rounding up gives the smallest multiple of a positive divisor that is not
/// below the number, whatever its sign.
pub proof fn ceil_div_is_least_above(a: int, d: int)
    requires
        d > 0,
    ensures
        a <= ceil_div(a, d) * d < a + d,
        a >= 0 ==> ceil_div(a, d) == (a + d - 1) / d,
        a < 0 ==> ceil_div(a, d) == -((-a) / d),
{
    reveal(ceil_div);
    if a >= 0 {
        ceil_div_is_ceiling(a, d);
        let c = ceil_div(a, d);
        let b = a + d - 1;
        vstd::arithmetic::div_mod::lemma_fundamental_div_mod(b, d);
        let q = b / d;
        assert(c == q) by (nonlinear_arith)
            requires
                a <= c * d,
                c * d < a + d,
                b == a + d - 1,
                b == d * q + b % d,
                0 <= b % d,
                b % d < d,
                d > 0,
        ;
    } else {
        let m = -a;
        let q = m / d;
        vstd::arithmetic::div_mod::lemma_fundamental_div_mod(m, d);
        assert((-q) * d == -(d * q)) by (nonlinear_arith);
    }
}

/// Reading a word as a signed one and back changes nothing, and the two readings
/// differ by a multiple of 2^128.
pub proof fn words_keep_their_bits(x: u128, y: i128)
    ensures
        unsigned(signed(x)) == x,
        signed(unsigned(y)) == y,
        signed(x) == x || signed(x) + 0x1_0000_0000_0000_0000 * 0x1_0000_0000_0000_0000 == x,
        x <= i128::MAX ==> signed(x) == x,
        y >= 0 ==> unsigned(y) == y,
{
}

} // verus!
