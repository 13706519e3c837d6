//! Fixed-point scalars.
//!
//! A scalar value is an `i64` numerator over the fixed scale
//! [`FX_ONE`] = 4096, so `4096` stands for `1.0` and `2048` for `0.5`.
//! Multiplication and division round toward zero, exactly as the spec
//! functions [`smul`] and [`sdiv`] state; the square root rounds down,
//! as [`fsqrt`] states.
use vstd::prelude::*;

verus! {

use vstd::arithmetic::div_mod::lemma_div_is_ordered;
use vstd::arithmetic::div_mod::lemma_div_pos_is_pos;
use vstd::arithmetic::div_mod::lemma_div_nonincreasing;
use vstd::arithmetic::mul::lemma_mul_inequality;

/// Numerator of the scalar `1.0`.
pub const FX_ONE: i64 = 4096;

/// Does a mathematical integer fit in an `i64`?
pub open spec fn fits_i64(x: int) -> bool {
    i64::MIN <= x <= i64::MAX
}

/// Division rounding toward zero, the rounding of Rust's `/` on
/// signed integers, written over Euclidean spec division.
pub open spec fn tdiv(a: int, b: int) -> int {
    if a >= 0 {
        a / b
    } else {
        -((-a) / b)
    }
}

/// The scalar product of two fixed-point numerators.
pub open spec fn smul(a: int, b: int) -> int {
    tdiv(a * b, 4096)
}

/// The scalar quotient of two fixed-point numerators.
pub open spec fn sdiv(a: int, b: int) -> int {
    tdiv(a * 4096, b)
}

/// The integer square root: the greatest `r` with `r * r <= n`.
pub open spec fn isqrt_s(n: nat) -> nat
    decreases n,
{
    if n == 0 {
        0
    } else {
        let r = isqrt_s((n - 1) as nat);
        if (r + 1) * (r + 1) <= n {
            r + 1
        } else {
            r
        }
    }
}

/// The fixed-point square root of a nonnegative numerator.
pub open spec fn fsqrt(x: int) -> int {
    isqrt_s((x * 4096) as nat) as int
}

/// `isqrt_s(n)` is bracketed by the two neighbouring squares.
pub proof fn lemma_isqrt_bracket(n: nat)
    ensures
        isqrt_s(n) * isqrt_s(n) <= n,
        n < (isqrt_s(n) + 1) * (isqrt_s(n) + 1),
    decreases n,
{
    if n > 0 {
        lemma_isqrt_bracket((n - 1) as nat);
        let r: nat = isqrt_s((n - 1) as nat);
        assert(isqrt_s(n) == if (r + 1) * (r + 1) <= n {
            r + 1
        } else {
            r
        });
        if (r + 1) * (r + 1) <= n {
            assert((r as int + 1) * (r as int + 1) < (r as int + 2) * (r as int + 2))
                by (nonlinear_arith);
            assert(n < ((r + 1) + 1) * ((r + 1) + 1));
        } else {
            assert(r * r <= n);
            assert(n < (r + 1) * (r + 1));
        }
        assert(isqrt_s(n) * isqrt_s(n) <= n);
        assert(n < (isqrt_s(n) + 1) * (isqrt_s(n) + 1));
    } else {
        assert(isqrt_s(n) == 0);
        vstd::arithmetic::mul::lemma_mul_basics(1);
        assert(isqrt_s(n) * isqrt_s(n) <= n);
        assert(n < (isqrt_s(n) + 1) * (isqrt_s(n) + 1));
    }
}

/// The bracketing determines the integer square root uniquely.
pub proof fn lemma_isqrt_unique(n: nat, r: nat)
    requires
        r * r <= n,
        n < (r + 1) * (r + 1),
    ensures
        r == isqrt_s(n),
{
    lemma_isqrt_bracket(n);
    let s = isqrt_s(n);
    if r < s {
        lemma_mul_inequality(r as int + 1, s as int, r as int + 1);
        lemma_mul_inequality(r as int + 1, s as int, s as int);
        assert(false);
    }
    if s < r {
        lemma_mul_inequality(s as int + 1, r as int, s as int + 1);
        lemma_mul_inequality(s as int + 1, r as int, r as int);
        assert(false);
    }
}

/// Truncating division is odd in its numerator.
pub proof fn lemma_tdiv_neg(a: int, b: int)
    requires
        b > 0,
    ensures
        tdiv(-a, b) == -tdiv(a, b),
{
    if a == 0 {
        vstd::arithmetic::div_mod::lemma_div_of0(b);
    }
}

/// Truncating division by a positive divisor keeps the sign and
/// shrinks the magnitude.
pub proof fn lemma_tdiv_bounds(a: int, b: int)
    requires
        b > 0,
    ensures
        a >= 0 ==> 0 <= tdiv(a, b) <= a,
        a < 0 ==> a <= tdiv(a, b) <= 0,
{
    if a >= 0 {
        lemma_div_pos_is_pos(a, b);
        lemma_div_nonincreasing(a, b);
    } else {
        lemma_div_pos_is_pos(-a, b);
        lemma_div_nonincreasing(-a, b);
    }
}

/// Truncating division by a positive divisor is monotone.
pub proof fn lemma_tdiv_ordered(a: int, c: int, b: int)
    requires
        b > 0,
        a <= c,
    ensures
        tdiv(a, b) <= tdiv(c, b),
{
    if a >= 0 {
        lemma_div_is_ordered(a, c, b);
    } else if c >= 0 {
        lemma_tdiv_bounds(a, b);
        lemma_tdiv_bounds(c, b);
    } else {
        lemma_div_is_ordered(-c, -a, b);
    }
}

/// A quotient whose numerator is within `q` multiples of the divisor
/// is itself within `[-q, q]`.
pub proof fn lemma_tdiv_abs_le(p: int, b: int, q: int)
    requires
        b > 0,
        0 <= q,
        -(q * b) <= p <= q * b,
    ensures
        -q <= tdiv(p, b) <= q,
{
    vstd::arithmetic::div_mod::lemma_div_multiples_vanish(q, b);
    assert(q * b == b * q) by (nonlinear_arith);
    assert(q * b >= 0) by (nonlinear_arith)
        requires
            q >= 0,
            b > 0,
    ;
    lemma_tdiv_ordered(p, q * b, b);
    lemma_tdiv_ordered(-(q * b), p, b);
    lemma_tdiv_neg(q * b, b);
}

/// A product of two bounded integers is bounded by the product of
/// the bounds.
pub proof fn lemma_abs_mul_le(a: int, b: int, ma: int, mb: int)
    requires
        -ma <= a <= ma,
        -mb <= b <= mb,
        0 <= ma,
        0 <= mb,
    ensures
        -(ma * mb) <= a * b <= ma * mb,
{
    assert(-(ma * mb) <= a * b <= ma * mb) by (nonlinear_arith)
        requires
            -ma <= a <= ma,
            -mb <= b <= mb,
            0 <= ma,
            0 <= mb,
    ;
}

/// The scaled product of bounded scalars is within `q` once the
/// bounds' product is at most `q` scale units.
pub proof fn lemma_smul_fits(a: int, b: int, ma: int, mb: int, q: int)
    requires
        -ma <= a <= ma,
        -mb <= b <= mb,
        0 <= ma,
        0 <= mb,
        0 <= q,
        ma * mb <= q * 4096,
    ensures
        -q <= smul(a, b) <= q,
{
    lemma_abs_mul_le(a, b, ma, mb);
    lemma_tdiv_abs_le(a * b, 4096, q);
}

/// The scaled quotient of a bounded numerator by a positive divisor
/// is within `q` once `q` covers the numerator at full scale.
pub proof fn lemma_sdiv_fits(a: int, b: int, ma: int, q: int)
    requires
        -ma <= a <= ma,
        0 <= ma,
        b >= 1,
        ma * 4096 <= q,
    ensures
        -q <= sdiv(a, b) <= q,
{
    lemma_abs_mul_le(a, 4096, ma, 4096);
    assert(q <= q * b) by (nonlinear_arith)
        requires
            0 <= q,
            b >= 1,
    ;
    lemma_tdiv_abs_le(a * 4096, b, q);
}

/// A scaled quotient by a divisor of at least one whole unit never
/// grows past its numerator's bound.
pub proof fn lemma_sdiv_big_divisor(a: int, b: int, ma: int)
    requires
        -ma <= a <= ma,
        0 <= ma,
        b >= 4096,
    ensures
        -ma <= sdiv(a, b) <= ma,
{
    lemma_abs_mul_le(a, 4096, ma, 4096);
    assert(ma * 4096 <= ma * b) by (nonlinear_arith)
        requires
            0 <= ma,
            b >= 4096,
    ;
    lemma_tdiv_abs_le(a * 4096, b, ma);
}

/// A nonnegative integer whose square is within `m` squared is
/// within `m`.
pub proof fn lemma_sq_le(a: int, m: int)
    requires
        0 <= a,
        0 <= m,
        a * a <= m * m,
    ensures
        a <= m,
{
    assert(a <= m) by (nonlinear_arith)
        requires
            0 <= a,
            0 <= m,
            a * a <= m * m,
    ;
}

/// A quotient of a numerator by a divisor at least as large stays in
/// the unit interval.
pub proof fn lemma_sdiv_le_unit(a: int, b: int)
    requires
        0 <= a <= b,
        b >= 1,
    ensures
        0 <= sdiv(a, b) <= 4096,
{
    lemma_mul_inequality(a, b, 4096);
    assert(a * 4096 == 4096 * a) by (nonlinear_arith);
    assert(b * 4096 == 4096 * b) by (nonlinear_arith);
    lemma_tdiv_ordered(a * 4096, b * 4096, b);
    vstd::arithmetic::div_mod::lemma_div_multiples_vanish(4096, b);
    lemma_tdiv_bounds(a * 4096, b);
    assert(a * 4096 >= 0) by (nonlinear_arith)
        requires
            a >= 0,
    ;
}

/// The fixed-point square root is bracketed at full scale.
pub proof fn lemma_fsqrt_bracket(x: int)
    requires
        x >= 0,
    ensures
        fsqrt(x) >= 0,
        fsqrt(x) * fsqrt(x) <= x * 4096,
        x * 4096 < (fsqrt(x) + 1) * (fsqrt(x) + 1),
{
    lemma_isqrt_bracket((x * 4096) as nat);
}

/// Scaling by zero gives zero.
pub proof fn lemma_smul_zero(a: int)
    ensures
        smul(a, 0) == 0,
        smul(0, a) == 0,
{
    assert(a * 0 == 0) by (nonlinear_arith);
    assert(0 * a == 0) by (nonlinear_arith);
    vstd::arithmetic::div_mod::lemma_div_of0(4096);
}

/// A quotient of a numerator at least as large as its positive
/// divisor is at least one.
pub proof fn lemma_div_at_least_one(p: int, b: int)
    requires
        0 < b <= p,
    ensures
        tdiv(p, b) >= 1,
{
    vstd::arithmetic::div_mod::lemma_fundamental_div_mod(p, b);
    vstd::arithmetic::div_mod::lemma_mod_division_less_than_divisor(p, b);
    let q = p / b;
    let r = p % b;
    assert(q >= 1) by (nonlinear_arith)
        requires
            p == b * q + r,
            0 <= r < b,
            b <= p,
    ;
}

/// The rounded scalar product does not depend on the argument order.
pub proof fn lemma_smul_comm(a: int, b: int)
    ensures
        smul(a, b) == smul(b, a),
{
    assert(a * b == b * a) by (nonlinear_arith);
}

/// The product of two scalars in `[0, 1]` stays in `[0, 1]`.
pub proof fn lemma_smul_unit_range(a: int, b: int)
    requires
        0 <= a <= FX_ONE,
        0 <= b <= FX_ONE,
    ensures
        0 <= smul(a, b) <= FX_ONE,
        b == FX_ONE ==> smul(a, b) == a,
{
    lemma_mul_inequality(b, FX_ONE as int, a);
    assert(a * b == b * a) by (nonlinear_arith);
    assert(a * FX_ONE == FX_ONE * a) by (nonlinear_arith);
    lemma_tdiv_bounds(a * b, FX_ONE as int);
    lemma_tdiv_ordered(a * b, a * FX_ONE, FX_ONE as int);
    vstd::arithmetic::div_mod::lemma_div_multiples_vanish(a, FX_ONE as int);
}

/// The fixed-point product, rounding toward zero.
pub fn fx_mul(a: i64, b: i64) -> (r: i64)
    requires
        fits_i64(smul(a as int, b as int)),
    ensures
        r as int == smul(a as int, b as int),
{
    let p: i128 = (a as i128) * (b as i128);
    let q: i128 = p / 4096i128;
    proof {
        lemma_tdiv_bounds(p as int, 4096);
    }
    q as i64
}

/// The fixed-point quotient, rounding toward zero.
pub fn fx_div(a: i64, b: i64) -> (r: i64)
    requires
        b != 0,
        fits_i64(sdiv(a as int, b as int)),
    ensures
        r as int == sdiv(a as int, b as int),
{
    let p: i128 = (a as i128) * 4096i128;
    let q: i128 = p / (b as i128);
    q as i64
}

/// The fixed-point square root, rounding down.
pub fn fx_sqrt(x: i64) -> (r: i64)
    requires
        x >= 0,
    ensures
        r as int == fsqrt(x as int),
        r >= 0,
        r as int * r as int <= x as int * 4096,
        x as int * 4096 < (r as int + 1) * (r as int + 1),
{
    let v: u128 = (x as u128) * 4096u128;
    let mut lo: u128 = 0;
    let mut hi: u128 = 0x40_0000_0000u128;
    proof {
        assert(v < 0x800_0000_0000_0000_0000u128);
        assert((hi + 1) * (hi + 1) > v) by (nonlinear_arith)
            requires
                hi == 0x40_0000_0000u128,
                v < 0x800_0000_0000_0000_0000u128,
        ;
    }
    while lo < hi
        invariant
            lo <= hi <= 0x40_0000_0000u128,
            lo * lo <= v,
            v < (hi + 1) * (hi + 1),
        decreases hi - lo,
    {
        let mid: u128 = lo + (hi - lo + 1) / 2;
        proof {
            assert(lo < mid <= hi);
            assert(mid * mid <= 0x10_0000_0000_0000_0000_0000u128) by (nonlinear_arith)
                requires
                    mid <= 0x40_0000_0000u128,
            ;
        }
        let sq: u128 = mid * mid;
        if sq <= v {
            lo = mid;
        } else {
            hi = mid - 1;
        }
    }
    proof {
        lemma_isqrt_unique(v as nat, lo as nat);
        assert(lo < 0x8000_0000_0000u128) by (nonlinear_arith)
            requires
                lo * lo <= v < 0x800_0000_0000_0000_0000u128,
        ;
    }
    lo as i64
}

} // verus!
