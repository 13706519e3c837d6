//! Three-component vectors over fixed-point scalars.
//!
//! Every operation states its result exactly, component by component,
//! over the spec-level scalar arithmetic of [`crate::fx`].
use vstd::prelude::*;

verus! {

use crate::fx::fits_i64;
use crate::fx::smul;
use crate::fx::sdiv;
use crate::fx::tdiv;
use crate::fx::fsqrt;
use crate::fx::fx_mul;
use crate::fx::fx_div;
use crate::fx::fx_sqrt;
use crate::fx::lemma_tdiv_bounds;
use crate::fx::lemma_tdiv_ordered;
use crate::fx::lemma_tdiv_neg;

/// Largest component magnitude accepted by the dot and cross products;
/// keeps every intermediate product inside an `i64`.
pub const DOT_ARG_MAX: i64 = 0x10_0000_0000;

#[derive(Clone, Copy, Debug, PartialEq, Eq, Structural)]
pub struct Vec3 {
    pub x: i64,
    pub y: i64,
    pub z: i64,
}

/// All three components lie in `[-m, m]`.
pub open spec fn bounded(v: Vec3, m: int) -> bool {
    &&& -m <= v.x <= m
    &&& -m <= v.y <= m
    &&& -m <= v.z <= m
}

/// The componentwise sum, as a vector value.
pub open spec fn add_v(a: Vec3, b: Vec3) -> Vec3 {
    Vec3 { x: (a.x + b.x) as i64, y: (a.y + b.y) as i64, z: (a.z + b.z) as i64 }
}

/// The componentwise difference, as a vector value.
pub open spec fn sub_v(a: Vec3, b: Vec3) -> Vec3 {
    Vec3 { x: (a.x - b.x) as i64, y: (a.y - b.y) as i64, z: (a.z - b.z) as i64 }
}

/// The scaling by a fixed-point scalar, as a vector value.
pub open spec fn scale_v(v: Vec3, k: int) -> Vec3 {
    Vec3 {
        x: smul(v.x as int, k) as i64,
        y: smul(v.y as int, k) as i64,
        z: smul(v.z as int, k) as i64,
    }
}

/// The rounded cross product, as a vector value.
pub open spec fn cross_v(a: Vec3, b: Vec3) -> Vec3 {
    Vec3 {
        x: (smul(a.y as int, b.z as int) - smul(a.z as int, b.y as int)) as i64,
        y: (smul(a.z as int, b.x as int) - smul(a.x as int, b.z as int)) as i64,
        z: (smul(a.x as int, b.y as int) - smul(a.y as int, b.x as int)) as i64,
    }
}

/// The normalization, as a vector value; meaningful when the length
/// is nonzero.
pub open spec fn unify_v(v: Vec3) -> Vec3 {
    Vec3 {
        x: sdiv(v.x as int, len_s(v)) as i64,
        y: sdiv(v.y as int, len_s(v)) as i64,
        z: sdiv(v.z as int, len_s(v)) as i64,
    }
}

/// The rounded fixed-point dot product.
pub open spec fn dot_s(a: Vec3, b: Vec3) -> int {
    smul(a.x as int, b.x as int) + smul(a.y as int, b.y as int) + smul(a.z as int, b.z as int)
}

/// The fixed-point length: the rounded square root of the rounded
/// squared length.
pub open spec fn len_s(v: Vec3) -> int {
    fsqrt(dot_s(v, v))
}

/// One channel of the pixel quantization: `floor(c * 255.99976)`
/// over the fixed scale, clamped to `[0, 255]`.
pub open spec fn pix_s(c: int) -> int {
    let q = tdiv(c * 1048575, 16777216);
    if q < 0 {
        0
    } else if q > 255 {
        255
    } else {
        q
    }
}

/// A scaled product bounded on both sides stays within the scaled
/// product of the bounds.
pub proof fn lemma_smul_bound(a: int, b: int, ma: int, mb: int)
    requires
        -ma <= a <= ma,
        -mb <= b <= mb,
        0 <= ma,
        0 <= mb,
    ensures
        -tdiv(ma * mb, 4096) <= smul(a, b) <= tdiv(ma * mb, 4096),
        0 <= tdiv(ma * mb, 4096),
{
    assert(-(ma * mb) <= a * b <= ma * mb) by (nonlinear_arith)
        requires
            -ma <= a <= ma,
            -mb <= b <= mb,
            0 <= ma,
            0 <= mb,
    ;
    assert(0 <= ma * mb) by (nonlinear_arith)
        requires
            0 <= ma,
            0 <= mb,
    ;
    lemma_tdiv_ordered(a * b, ma * mb, 4096);
    lemma_tdiv_ordered(-(ma * mb), a * b, 4096);
    lemma_tdiv_neg(ma * mb, 4096);
    lemma_tdiv_bounds(ma * mb, 4096);
}

/// The dot product of vectors bounded by `ma` and `mb` is within
/// `3 q` once `ma * mb` is at most `q` scale units.
pub proof fn lemma_dot_abs_le(a: Vec3, b: Vec3, ma: int, mb: int, q: int)
    requires
        bounded(a, ma),
        bounded(b, mb),
        0 <= ma,
        0 <= mb,
        0 <= q,
        ma * mb <= q * 4096,
    ensures
        -3 * q <= dot_s(a, b) <= 3 * q,
{
    assert(-(q * 4096) <= a.x * b.x <= q * 4096) by (nonlinear_arith)
        requires
            -ma <= a.x <= ma,
            -mb <= b.x <= mb,
            0 <= ma,
            0 <= mb,
            ma * mb <= q * 4096,
    ;
    assert(-(q * 4096) <= a.y * b.y <= q * 4096) by (nonlinear_arith)
        requires
            -ma <= a.y <= ma,
            -mb <= b.y <= mb,
            0 <= ma,
            0 <= mb,
            ma * mb <= q * 4096,
    ;
    assert(-(q * 4096) <= a.z * b.z <= q * 4096) by (nonlinear_arith)
        requires
            -ma <= a.z <= ma,
            -mb <= b.z <= mb,
            0 <= ma,
            0 <= mb,
            ma * mb <= q * 4096,
    ;
    crate::fx::lemma_tdiv_abs_le(a.x as int * b.x as int, 4096, q);
    crate::fx::lemma_tdiv_abs_le(a.y as int * b.y as int, 4096, q);
    crate::fx::lemma_tdiv_abs_le(a.z as int * b.z as int, 4096, q);
}

/// The rounded square of any scalar is nonnegative.
pub proof fn lemma_smul_self_nonneg(a: int)
    ensures
        smul(a, a) >= 0,
{
    assert(a * a >= 0) by (nonlinear_arith);
    lemma_tdiv_bounds(a * a, 4096);
}

/// The dot product of a vector with itself is nonnegative.
pub proof fn lemma_dot_self_nonneg(v: Vec3)
    ensures
        dot_s(v, v) >= 0,
{
    lemma_smul_self_nonneg(v.x as int);
    lemma_smul_self_nonneg(v.y as int);
    lemma_smul_self_nonneg(v.z as int);
}

/// Negating one argument negates the rounded product.
pub proof fn lemma_smul_neg(a: int, b: int)
    ensures
        smul(a, -b) == -smul(a, b),
        smul(-a, b) == -smul(a, b),
{
    assert(a * (-b) == -(a * b)) by (nonlinear_arith);
    assert((-a) * b == -(a * b)) by (nonlinear_arith);
    lemma_tdiv_neg(a * b, 4096);
}

impl Vec3 {
    pub fn new(x: i64, y: i64, z: i64) -> (r: Vec3)
        ensures
            r == (Vec3 { x, y, z }),
    {
        Vec3 { x, y, z }
    }

    /// Componentwise sum.
    pub fn add(self, b: Vec3) -> (r: Vec3)
        requires
            fits_i64(self.x + b.x),
            fits_i64(self.y + b.y),
            fits_i64(self.z + b.z),
        ensures
            r.x == self.x + b.x,
            r.y == self.y + b.y,
            r.z == self.z + b.z,
    {
        Vec3 { x: self.x + b.x, y: self.y + b.y, z: self.z + b.z }
    }

    /// Componentwise difference.
    pub fn sub(self, b: Vec3) -> (r: Vec3)
        requires
            fits_i64(self.x - b.x),
            fits_i64(self.y - b.y),
            fits_i64(self.z - b.z),
        ensures
            r.x == self.x - b.x,
            r.y == self.y - b.y,
            r.z == self.z - b.z,
    {
        Vec3 { x: self.x - b.x, y: self.y - b.y, z: self.z - b.z }
    }

    /// Componentwise negation.
    pub fn neg(self) -> (r: Vec3)
        requires
            fits_i64(-self.x),
            fits_i64(-self.y),
            fits_i64(-self.z),
        ensures
            r.x == -self.x,
            r.y == -self.y,
            r.z == -self.z,
    {
        Vec3 { x: -self.x, y: -self.y, z: -self.z }
    }

    /// Scaling by a fixed-point scalar.
    pub fn scale(self, k: i64) -> (r: Vec3)
        requires
            fits_i64(smul(self.x as int, k as int)),
            fits_i64(smul(self.y as int, k as int)),
            fits_i64(smul(self.z as int, k as int)),
        ensures
            r.x == smul(self.x as int, k as int),
            r.y == smul(self.y as int, k as int),
            r.z == smul(self.z as int, k as int),
    {
        Vec3 { x: fx_mul(self.x, k), y: fx_mul(self.y, k), z: fx_mul(self.z, k) }
    }

    /// Componentwise (Hadamard) product, the channelwise product of
    /// two colors.
    pub fn mul(self, b: Vec3) -> (r: Vec3)
        requires
            fits_i64(smul(self.x as int, b.x as int)),
            fits_i64(smul(self.y as int, b.y as int)),
            fits_i64(smul(self.z as int, b.z as int)),
        ensures
            r.x == smul(self.x as int, b.x as int),
            r.y == smul(self.y as int, b.y as int),
            r.z == smul(self.z as int, b.z as int),
    {
        Vec3 { x: fx_mul(self.x, b.x), y: fx_mul(self.y, b.y), z: fx_mul(self.z, b.z) }
    }

    /// Division by a nonzero fixed-point scalar.
    pub fn div(self, k: i64) -> (r: Vec3)
        requires
            k != 0,
            fits_i64(sdiv(self.x as int, k as int)),
            fits_i64(sdiv(self.y as int, k as int)),
            fits_i64(sdiv(self.z as int, k as int)),
        ensures
            r.x == sdiv(self.x as int, k as int),
            r.y == sdiv(self.y as int, k as int),
            r.z == sdiv(self.z as int, k as int),
    {
        Vec3 { x: fx_div(self.x, k), y: fx_div(self.y, k), z: fx_div(self.z, k) }
    }

    /// The rounded fixed-point dot product.
    pub fn dot(self, b: Vec3) -> (r: i64)
        requires
            bounded(self, DOT_ARG_MAX as int),
            bounded(b, DOT_ARG_MAX as int),
        ensures
            r as int == dot_s(self, b),
    {
        proof {
            lemma_smul_bound(self.x as int, b.x as int, DOT_ARG_MAX as int, DOT_ARG_MAX as int);
            lemma_smul_bound(self.y as int, b.y as int, DOT_ARG_MAX as int, DOT_ARG_MAX as int);
            lemma_smul_bound(self.z as int, b.z as int, DOT_ARG_MAX as int, DOT_ARG_MAX as int);
        }
        let px: i64 = fx_mul(self.x, b.x);
        let py: i64 = fx_mul(self.y, b.y);
        let pz: i64 = fx_mul(self.z, b.z);
        px + py + pz
    }

    /// The rounded fixed-point cross product.
    pub fn cross(self, b: Vec3) -> (r: Vec3)
        requires
            bounded(self, DOT_ARG_MAX as int),
            bounded(b, DOT_ARG_MAX as int),
        ensures
            r.x == smul(self.y as int, b.z as int) - smul(self.z as int, b.y as int),
            r.y == smul(self.z as int, b.x as int) - smul(self.x as int, b.z as int),
            r.z == smul(self.x as int, b.y as int) - smul(self.y as int, b.x as int),
    {
        proof {
            lemma_smul_bound(self.y as int, b.z as int, DOT_ARG_MAX as int, DOT_ARG_MAX as int);
            lemma_smul_bound(self.z as int, b.y as int, DOT_ARG_MAX as int, DOT_ARG_MAX as int);
            lemma_smul_bound(self.z as int, b.x as int, DOT_ARG_MAX as int, DOT_ARG_MAX as int);
            lemma_smul_bound(self.x as int, b.z as int, DOT_ARG_MAX as int, DOT_ARG_MAX as int);
            lemma_smul_bound(self.x as int, b.y as int, DOT_ARG_MAX as int, DOT_ARG_MAX as int);
            lemma_smul_bound(self.y as int, b.x as int, DOT_ARG_MAX as int, DOT_ARG_MAX as int);
        }
        Vec3 {
            x: fx_mul(self.y, b.z) - fx_mul(self.z, b.y),
            y: fx_mul(self.z, b.x) - fx_mul(self.x, b.z),
            z: fx_mul(self.x, b.y) - fx_mul(self.y, b.x),
        }
    }

    /// The rounded squared length.
    pub fn length_squared(self) -> (r: i64)
        requires
            bounded(self, DOT_ARG_MAX as int),
        ensures
            r as int == dot_s(self, self),
            r >= 0,
    {
        proof {
            lemma_dot_self_nonneg(self);
        }
        self.dot(self)
    }

    /// The rounded length.
    pub fn length(self) -> (r: i64)
        requires
            bounded(self, DOT_ARG_MAX as int),
        ensures
            r as int == len_s(self),
            r >= 0,
    {
        let sq: i64 = self.length_squared();
        fx_sqrt(sq)
    }

    /// Normalization: division by the rounded length. Fails exactly
    /// when the rounded length is zero, instead of letting the
    /// degenerate value spread.
    pub fn unify(self) -> (r: Option<Vec3>)
        requires
            bounded(self, DOT_ARG_MAX as int),
        ensures
            r is Some <==> len_s(self) != 0,
            r is Some ==> {
                let l = len_s(self);
                &&& r->Some_0.x == sdiv(self.x as int, l)
                &&& r->Some_0.y == sdiv(self.y as int, l)
                &&& r->Some_0.z == sdiv(self.z as int, l)
            },
    {
        let l: i64 = self.length();
        if l == 0 {
            None
        } else {
            proof {
                lemma_tdiv_bounds(self.x as int * 4096, l as int);
                lemma_tdiv_bounds(self.y as int * 4096, l as int);
                lemma_tdiv_bounds(self.z as int * 4096, l as int);
                lemma_tdiv_neg(-(self.x as int) * 4096, l as int);
                lemma_tdiv_neg(-(self.y as int) * 4096, l as int);
                lemma_tdiv_neg(-(self.z as int) * 4096, l as int);
            }
            Some(self.div(l))
        }
    }

    /// Quantize a color in `[0, 1]` cubed to one 8-bit value per
    /// channel, clamping values outside the range.
    pub fn pixel(self) -> (r: [u8; 3])
        ensures
            r[0] == pix_s(self.x as int),
            r[1] == pix_s(self.y as int),
            r[2] == pix_s(self.z as int),
    {
        [quantize(self.x), quantize(self.y), quantize(self.z)]
    }
}

/// One channel of the pixel quantization.
fn quantize(c: i64) -> (r: u8)
    ensures
        r == pix_s(c as int),
{
    let p: i128 = (c as i128) * 1048575i128;
    let q: i128 = p / 16777216i128;
    proof {
        lemma_tdiv_bounds(p as int, 16777216);
    }
    if q < 0 {
        0
    } else if q > 255 {
        255
    } else {
        q as u8
    }
}

} // verus!
