//! Fixed-point arithmetic.
//!
//! Every continuous quantity of the generator (a coordinate, a noise value, a
//! depth, a weight) is a signed 64-bit integer `v` that stands for the rational
//! number `v / 2^24`. Sums and products saturate at the ends of the 64-bit
//! range, so every operation is total.
use vstd::prelude::*;

verus! {

/// A fixed-point number with 24 fractional bits.
pub type Fixed = i64;

/// The fixed-point number 1.
pub const ONE: i64 = 16777216;

/// The fixed-point number 1/2.
pub const HALF: i64 = 8388608;

/// The nearest value to `x` that a 64-bit signed integer holds.
pub open spec fn clamp(x: int) -> int {
    if x < i64::MIN as int {
        i64::MIN as int
    } else if x > i64::MAX as int {
        i64::MAX as int
    } else {
        x
    }
}

/// Saturating sum.
pub open spec fn fx_add_spec(a: int, b: int) -> int {
    clamp(a + b)
}

/// Saturating difference.
pub open spec fn fx_sub_spec(a: int, b: int) -> int {
    clamp(a - b)
}

/// Saturating product of two fixed-point numbers, rounded down.
pub open spec fn fx_mul_spec(a: int, b: int) -> int {
    clamp((a * b) / (ONE as int))
}

/// Saturating product of two fixed-point numbers, rounded up: a product that
/// is positive stays positive.
pub open spec fn fx_mul_up_spec(a: int, b: int) -> int {
    clamp(-((-(a * b)) / (ONE as int)))
}

/// The fixed-point number that stands for the integer `i`.
pub open spec fn fx_from_int_spec(i: int) -> int {
    i * (ONE as int)
}

/// The largest integer that is not above the fixed-point number `x`.
pub open spec fn fx_floor_spec(x: int) -> int {
    x / (ONE as int)
}

/// Absolute value.
pub open spec fn abs_spec(x: int) -> int {
    if x < 0 {
        -x
    } else {
        x
    }
}

/// The product of two 64-bit integers fits in 128 bits.
pub proof fn lemma_product_fits(a: int, b: int)
    requires
        i64::MIN <= a <= i64::MAX,
        i64::MIN <= b <= i64::MAX,
    ensures
        -0x4000_0000_0000_0000_0000_0000_0000_0000 <= a * b
            <= 0x4000_0000_0000_0000_0000_0000_0000_0000,
{
    assert(-0x4000_0000_0000_0000_0000_0000_0000_0000 <= a * b
        <= 0x4000_0000_0000_0000_0000_0000_0000_0000) by (nonlinear_arith)
        requires
            -0x8000_0000_0000_0000 <= a <= 0x8000_0000_0000_0000,
            -0x8000_0000_0000_0000 <= b <= 0x8000_0000_0000_0000,
    ;
}

/// Clamps a wide integer into the 64-bit range.
pub fn saturate(x: i128) -> (r: i64)
    ensures
        r as int == clamp(x as int),
{
    if x < i64::MIN as i128 {
        i64::MIN
    } else if x > i64::MAX as i128 {
        i64::MAX
    } else {
        x as i64
    }
}

/// Quotient and remainder of a division by a positive number are the only
/// `q` and `r` with `x == q * d + r` and `0 <= r < d`.
pub proof fn lemma_div_unique(x: int, d: int, q: int, r: int)
    requires
        d > 0,
        0 <= r < d,
        x == q * d + r,
    ensures
        x / d == q,
        x % d == r,
{
    vstd::arithmetic::div_mod::lemma_fundamental_div_mod_converse(x, d, q, r);
}

/// Division of a negative number, by way of a division of a non-negative one.
pub proof fn lemma_div_negative(a: int, d: int)
    requires
        a < 0,
        d > 0,
    ensures
        a / d == -((-(a + 1)) / d) - 1,
        a % d == d - 1 - ((-(a + 1)) % d),
{
    let n = -(a + 1);
    let q = n / d;
    let r = n % d;
    vstd::arithmetic::div_mod::lemma_fundamental_div_mod(n, d);
    vstd::arithmetic::div_mod::lemma_mod_bound(n, d);
    assert(a == (-q - 1) * d + (d - 1 - r)) by (nonlinear_arith)
        requires
            n == d * q + r,
            a == -n - 1,
    ;
    lemma_div_unique(a, d, -q - 1, d - 1 - r);
}

/// Division rounded towards minus infinity, by a positive divisor.
pub fn div_floor(a: i128, d: i128) -> (q: i128)
    requires
        d > 0,
    ensures
        q as int == (a as int) / (d as int),
{
    if a >= 0 {
        a / d
    } else {
        proof {
            lemma_div_negative(a as int, d as int);
            vstd::arithmetic::div_mod::lemma_div_pos_is_pos(-(a + 1) as int, d as int);
            vstd::arithmetic::div_mod::lemma_div_is_ordered_by_denominator(-(a + 1) as int, 1, d as int);
        }
        let n: i128 = -(a + 1);
        let q: i128 = n / d;
        -q - 1
    }
}

/// Remainder of the division rounded towards minus infinity, by a positive divisor.
pub fn mod_floor(a: i128, d: i128) -> (r: i128)
    requires
        d > 0,
    ensures
        r as int == (a as int) % (d as int),
        0 <= r < d,
{
    if a >= 0 {
        proof {
            vstd::arithmetic::div_mod::lemma_mod_bound(a as int, d as int);
        }
        a % d
    } else {
        proof {
            lemma_div_negative(a as int, d as int);
            vstd::arithmetic::div_mod::lemma_mod_bound(-(a + 1) as int, d as int);
        }
        let n: i128 = -(a + 1);
        let r: i128 = n % d;
        d - 1 - r
    }
}

/// Saturating sum of two fixed-point numbers.
pub fn fx_add(a: i64, b: i64) -> (r: i64)
    ensures
        r as int == fx_add_spec(a as int, b as int),
{
    saturate(a as i128 + b as i128)
}

/// Saturating difference of two fixed-point numbers.
pub fn fx_sub(a: i64, b: i64) -> (r: i64)
    ensures
        r as int == fx_sub_spec(a as int, b as int),
{
    saturate(a as i128 - b as i128)
}

/// Saturating product of two fixed-point numbers, rounded down.
pub fn fx_mul(a: i64, b: i64) -> (r: i64)
    ensures
        r as int == fx_mul_spec(a as int, b as int),
{
    proof {
        lemma_product_fits(a as int, b as int);
    }
    let p: i128 = (a as i128) * (b as i128);
    saturate(div_floor(p, ONE as i128))
}

/// The sign of a product rounded up: of two factors that are not negative it
/// is not negative; it is zero where a factor is zero, and positive where
/// both are positive.
pub proof fn lemma_mul_up_sign(a: int, b: int)
    requires
        a >= 0,
        b >= 0,
    ensures
        fx_mul_up_spec(a, b) >= 0,
        a == 0 || b == 0 ==> fx_mul_up_spec(a, b) == 0,
        a > 0 && b > 0 ==> fx_mul_up_spec(a, b) > 0,
{
    assert(a * b >= 0) by (nonlinear_arith)
        requires
            a >= 0,
            b >= 0,
    ;
    assert(a == 0 || b == 0 ==> a * b == 0) by (nonlinear_arith);
    assert(a > 0 && b > 0 ==> a * b > 0) by (nonlinear_arith);
}

/// Saturating product of two fixed-point numbers, rounded up.
pub fn fx_mul_up(a: i64, b: i64) -> (r: i64)
    ensures
        r as int == fx_mul_up_spec(a as int, b as int),
{
    proof {
        lemma_product_fits(a as int, b as int);
    }
    let p: i128 = (a as i128) * (b as i128);
    saturate(-div_floor(-p, ONE as i128))
}

/// The fixed-point number that stands for the integer `i`.
pub fn fx_from_int(i: i32) -> (r: i64)
    ensures
        r as int == fx_from_int_spec(i as int),
{
    (i as i64) * ONE
}

/// The largest integer that is not above `x`.
pub fn fx_floor(x: i64) -> (r: i64)
    ensures
        r as int == fx_floor_spec(x as int),
{
    div_floor(x as i128, ONE as i128) as i64
}

} // verus!
