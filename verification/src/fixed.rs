//! Saturating Q47.16 fixed-point arithmetic on `i64`.
//!
//! A scalar is an `i64` holding `value * ONE`. Multiplication and division
//! truncate toward zero, as the corresponding binary floating-point
//! operations round; results outside the `i64` range saturate at the type
//! bounds, the fixed-point analogue of overflowing to infinity. Each
//! executable operation returns exactly what its spec-function twin
//! (`fadd`, `fsub`, `fmul`, `fdiv`, `fsqrt`, ...) denotes.

use vstd::prelude::*;

verus! {

/// The fixed-point scale: the representation of the scalar one.
pub const ONE: i64 = 65536;

/// One half in the fixed-point scale.
pub const HALF: i64 = 32768;

/// Does a mathematical integer fit in `i64`?
pub open spec fn fits(x: int) -> bool {
    i64::MIN <= x <= i64::MAX
}

/// Clamp a mathematical integer into the `i64` range.
pub open spec fn sat(x: int) -> int {
    if x > i64::MAX {
        i64::MAX as int
    } else if x < i64::MIN {
        i64::MIN as int
    } else {
        x
    }
}

/// Absolute value of a mathematical integer.
pub open spec fn iabs(x: int) -> int {
    if x < 0 {
        -x
    } else {
        x
    }
}

/// Division truncating toward zero (the rounding of hardware division),
/// as opposed to the Euclidean `/` of spec arithmetic.
pub open spec fn tdiv(a: int, b: int) -> int {
    if (a < 0) == (b < 0) {
        iabs(a) / iabs(b)
    } else {
        -(iabs(a) / iabs(b))
    }
}

/// Saturating fixed-point addition.
pub open spec fn fadd(a: int, b: int) -> int {
    sat(a + b)
}

/// Saturating fixed-point subtraction.
pub open spec fn fsub(a: int, b: int) -> int {
    sat(a - b)
}

/// Saturating fixed-point negation.
pub open spec fn fneg(a: int) -> int {
    sat(-a)
}

/// Saturating fixed-point multiplication: truncate `a * b / ONE` toward zero.
pub open spec fn fmul(a: int, b: int) -> int {
    sat(tdiv(a * b, ONE as int))
}

/// Saturating fixed-point division: truncate `a * ONE / b` toward zero.
/// Division by zero is defined as zero; executable callers guard the
/// denominator before dividing.
pub open spec fn fdiv(a: int, b: int) -> int {
    if b == 0 {
        0
    } else {
        sat(tdiv(a * ONE as int, b))
    }
}

/// `r` is the integer square root of `n`.
pub open spec fn is_isqrt(n: int, r: int) -> bool {
    0 <= r && r * r <= n && n < (r + 1) * (r + 1)
}

/// The integer square root (floor of the real square root) of `n >= 0`.
pub open spec fn isqrt(n: int) -> int {
    choose|r: int| is_isqrt(n, r)
}

/// Fixed-point square root: the representation of `sqrt(x / ONE)` is
/// `isqrt(x * ONE)`. Defined as zero on negative arguments, which
/// executable callers guard against or rely on.
pub open spec fn fsqrt(x: int) -> int {
    if x < 0 {
        0
    } else {
        isqrt(x * ONE as int)
    }
}

/// An integer square root exists for every nonnegative integer.
pub proof fn lemma_isqrt_exists(n: int)
    requires
        0 <= n,
    ensures
        is_isqrt(n, isqrt(n)),
    decreases n,
{
    if n == 0 {
        assert(is_isqrt(0, 0));
    } else {
        lemma_isqrt_exists(n - 1);
        let r = isqrt(n - 1);
        if (r + 1) * (r + 1) <= n {
            assert((r + 2) * (r + 2) > n) by (nonlinear_arith)
                requires
                    0 <= r,
                    n - 1 < (r + 1) * (r + 1),
                    (r + 1) * (r + 1) <= n,
            ;
            assert(is_isqrt(n, r + 1));
        } else {
            assert(is_isqrt(n, r));
        }
    }
}

/// The integer square root is unique: any witness equals `isqrt(n)`.
pub proof fn lemma_isqrt_unique(n: int, r: int)
    requires
        is_isqrt(n, r),
    ensures
        r == isqrt(n),
{
    lemma_isqrt_exists(n);
    let r2 = isqrt(n);
    if r < r2 {
        assert(r2 * r2 > n) by (nonlinear_arith)
            requires
                0 <= r,
                r + 1 <= r2,
                n < (r + 1) * (r + 1),
        ;
    }
    if r2 < r {
        assert(r * r > n) by (nonlinear_arith)
            requires
                0 <= r2,
                r2 + 1 <= r,
                n < (r2 + 1) * (r2 + 1),
        ;
    }
}

/// Truncating division undoes multiplication by the same positive factor.
pub proof fn lemma_tdiv_cancel(a: int, b: int)
    requires
        0 < b,
    ensures
        tdiv(a * b, b) == a,
{
    if a >= 0 {
        assert(a * b >= 0) by (nonlinear_arith)
            requires
                a >= 0 && b > 0,
        ;
        vstd::arithmetic::div_mod::lemma_div_multiples_vanish(a, b);
        assert(iabs(a * b) / iabs(b) == (b * a) / b);
    } else {
        assert(a * b < 0) by (nonlinear_arith)
            requires
                a < 0 && b > 0,
        ;
        assert(-(a * b) == (-a) * b) by (nonlinear_arith);
        assert(iabs(a * b) == (-a) * b);
        vstd::arithmetic::div_mod::lemma_div_multiples_vanish(-a, b);
        assert(iabs(a * b) / iabs(b) == (b * (-a)) / b);
    }
}

/// Multiplying by the fixed-point one is the identity.
pub proof fn lemma_fmul_one(a: int)
    requires
        fits(a),
    ensures
        fmul(a, ONE as int) == a,
{
    lemma_tdiv_cancel(a, ONE as int);
}

/// Multiplying by zero gives zero.
pub proof fn lemma_fmul_zero(a: int)
    ensures
        fmul(a, 0) == 0,
        fmul(0, a) == 0,
{
    assert(a * 0 == 0) by (nonlinear_arith);
    assert(iabs(0int) / iabs(ONE as int) == 0);
}

/// Truncating division commutes with negation of the dividend.
pub proof fn lemma_tdiv_neg(a: int, b: int)
    requires
        b != 0,
    ensures
        tdiv(-a, b) == -tdiv(a, b),
{
    assert(iabs(-a) == iabs(a));
}

/// Multiplying by minus one is saturating negation.
pub proof fn lemma_fmul_neg_one(a: int)
    requires
        fits(a),
    ensures
        fmul(a, -(ONE as int)) == fneg(a),
{
    assert(a * -(ONE as int) == -(a * ONE as int)) by (nonlinear_arith);
    lemma_tdiv_cancel(a, ONE as int);
    lemma_tdiv_neg(a * ONE as int, ONE as int);
}

/// Truncating division by a positive divisor is monotone in the dividend.
pub proof fn lemma_tdiv_mono(x: int, y: int, b: int)
    requires
        x <= y,
        0 < b,
    ensures
        tdiv(x, b) <= tdiv(y, b),
{
    if 0 <= x {
        vstd::arithmetic::div_mod::lemma_div_is_ordered(x, y, b);
    } else if y < 0 {
        vstd::arithmetic::div_mod::lemma_div_is_ordered(-y, -x, b);
    } else {
        vstd::arithmetic::div_mod::lemma_div_pos_is_pos(-x, b);
        vstd::arithmetic::div_mod::lemma_div_pos_is_pos(y, b);
    }
}

/// Fixed-point division by a positive divisor is monotone in the dividend.
pub proof fn lemma_fdiv_mono(x: int, y: int, b: int)
    requires
        x <= y,
        0 < b,
    ensures
        fdiv(x, b) <= fdiv(y, b),
{
    assert(x * ONE as int <= y * ONE as int) by (nonlinear_arith)
        requires
            x <= y,
    ;
    lemma_tdiv_mono(x * ONE as int, y * ONE as int, b);
}

/// Dividing zero gives zero.
pub proof fn lemma_fdiv_zero(b: int)
    requires
        b != 0,
    ensures
        fdiv(0, b) == 0,
{
    assert(0int * ONE as int == 0) by (nonlinear_arith);
    vstd::arithmetic::div_mod::lemma_div_of0(iabs(b));
}

/// The fixed-point square root of any `i64`-ranged scalar is small.
pub proof fn lemma_fsqrt_bounds(x: int)
    requires
        x <= i64::MAX,
    ensures
        0 <= fsqrt(x) < 0x20000000000,
{
    if x >= 0 {
        lemma_isqrt_exists(x * ONE as int);
        assert((x * ONE as int) < 0x100000000000000000000) by (nonlinear_arith)
            requires
                0 <= x <= 0x7fffffffffffffff,
        ;
        let r = isqrt(x * ONE as int);
        assert(r < 0x20000000000) by (nonlinear_arith)
            requires
                0 <= r,
                r * r < 0x100000000000000000000,
        ;
    }
}

/// Clamp an `i128` into the `i64` range.
fn sat_i128(x: i128) -> (r: i64)
    ensures
        r as int == sat(x as int),
{
    if x > i64::MAX as i128 {
        i64::MAX
    } else if x < i64::MIN as i128 {
        i64::MIN
    } else {
        x as i64
    }
}

/// Saturating fixed-point addition.
pub fn add_fp(a: i64, b: i64) -> (r: i64)
    ensures
        r as int == fadd(a as int, b as int),
{
    sat_i128(a as i128 + b as i128)
}

/// Saturating fixed-point subtraction.
pub fn sub_fp(a: i64, b: i64) -> (r: i64)
    ensures
        r as int == fsub(a as int, b as int),
{
    sat_i128(a as i128 - b as i128)
}

/// Saturating fixed-point negation.
pub fn neg_fp(a: i64) -> (r: i64)
    ensures
        r as int == fneg(a as int),
{
    sat_i128(-(a as i128))
}

/// Truncating division of an `i128` by a positive divisor, by way of
/// unsigned magnitudes.
fn tdiv_i128(a: i128, b: i128) -> (r: i128)
    requires
        0 < b,
        -0x40000000000000000000000000000000 <= a,
    ensures
        r as int == tdiv(a as int, b as int),
{
    if a >= 0 {
        let q: u128 = (a as u128) / (b as u128);
        q as i128
    } else {
        let q: u128 = ((-a) as u128) / (b as u128);
        -(q as i128)
    }
}

/// Saturating fixed-point multiplication.
pub fn mul_fp(a: i64, b: i64) -> (r: i64)
    ensures
        r as int == fmul(a as int, b as int),
{
    let wa = a as i128;
    let wb = b as i128;
    assert(-0x40000000000000000000000000000000 <= wa * wb
        <= 0x40000000000000000000000000000000) by (nonlinear_arith)
        requires
            -0x8000000000000000 <= wa <= 0x7fffffffffffffff,
            -0x8000000000000000 <= wb <= 0x7fffffffffffffff,
    ;
    let p: i128 = wa * wb;
    let q = tdiv_i128(p, 65536);
    sat_i128(q)
}

/// Saturating fixed-point division. The executable version demands a
/// nonzero divisor; callers guard, matching `fdiv`'s zero case themselves
/// where the divisor can vanish.
pub fn div_fp(a: i64, b: i64) -> (r: i64)
    requires
        b != 0,
    ensures
        r as int == fdiv(a as int, b as int),
{
    let n: i128 = (a as i128) * 65536;
    if b > 0 {
        let q = tdiv_i128(n, b as i128);
        sat_i128(q)
    } else {
        let q = tdiv_i128(n, -(b as i128));
        assert(-q as int == tdiv(n as int, b as int));
        sat_i128(-q)
    }
}

/// Absolute value, saturating (the negation of `i64::MIN` saturates).
pub fn abs_fp(a: i64) -> (r: i64)
    ensures
        r as int == sat(iabs(a as int)),
{
    if a < 0 {
        neg_fp(a)
    } else {
        a
    }
}

/// Integer square root by bisection.
fn isqrt_u128(n: u128) -> (r: u64)
    requires
        n < 0x100000000000000000000,
    ensures
        is_isqrt(n as int, r as int),
        r <= 0x10000000000,
{
    let mut lo: u128 = 0;
    let mut hi: u128 = 0x10000000000;
    assert(hi * hi == 0x100000000000000000000) by (nonlinear_arith)
        requires
            hi == 0x10000000000,
    ;
    while lo + 1 < hi
        invariant
            lo < hi,
            hi <= 0x10000000000,
            lo * lo <= n,
            n < hi * hi,
        decreases hi - lo,
    {
        let mid = lo + (hi - lo) / 2;
        assert(lo < mid < hi);
        assert(mid * mid < 0x100000000000000000000) by (nonlinear_arith)
            requires
                mid < 0x10000000000,
        ;
        if mid * mid <= n {
            lo = mid;
        } else {
            hi = mid;
        }
    }
    lo as u64
}

/// Fixed-point square root of a nonnegative scalar.
pub fn sqrt_fp(x: i64) -> (r: i64)
    requires
        0 <= x,
    ensures
        r as int == fsqrt(x as int),
{
    let n: u128 = (x as u128) * 65536;
    assert(n < 0x100000000000000000000) by (nonlinear_arith)
        requires
            n == x * 65536,
            0 <= x <= 0x7fffffffffffffff,
    ;
    let r = isqrt_u128(n);
    proof {
        lemma_isqrt_unique(n as int, r as int);
    }
    r as i64
}

} // verus!
