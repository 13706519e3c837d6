//! The random source: uniform fixed-point scalars and derived
//! samples, drawn from a caller-owned `rand::rngs::SmallRng`.
//!
//! The generator is injected as an explicit parameter rather than
//! shared behind a process-wide lock, so each worker can own an
//! independently seeded stream.
//!
//! The ball and disk samples use rejection sampling (uniform over the
//! volume, not over directions): a candidate is drawn from the
//! bounding box and kept when it lands inside. The number of trials
//! is bounded; in the measure-zero worst case that every trial is
//! rejected, the center point is returned, which lies in the sampled
//! region.
use vstd::prelude::*;

verus! {

use crate::fx::FX_ONE;
use crate::vec::Vec3;
use crate::vec::bounded;
use crate::vec::dot_s;
use crate::vec::len_s;
use crate::vec::lemma_smul_neg;
use crate::fx::lemma_tdiv_bounds;

/// Declares rand's `SmallRng` so that generator values can pass
/// through signatures; the type stays opaque to the verifier.
#[verifier::external_type_specification]
#[verifier::external_body]
pub struct ExSmallRng(rand::rngs::SmallRng);

/// Relies on rand's `SeedableRng::seed_from_u64` for `SmallRng`:
/// builds a deterministically seeded generator.
#[verifier::external_body]
pub fn rng_from_seed(seed: u64) -> (r: rand::rngs::SmallRng) {
    <rand::rngs::SmallRng as rand::SeedableRng>::seed_from_u64(seed)
}

/// Relies on rand's `Rng::random_range` over `lo..hi`: returns a
/// uniform value of that half-open range. It panics on an empty
/// range, which the precondition rules out.
#[verifier::external_body]
fn rng_range(r: &mut rand::rngs::SmallRng, lo: i64, hi: i64) -> (v: i64)
    requires
        lo < hi,
    ensures
        lo <= v < hi,
{
    rand::Rng::random_range(r, lo..hi)
}

/// A uniform scalar in `[0, 1)`.
pub fn random_unit(r: &mut rand::rngs::SmallRng) -> (v: i64)
    ensures
        0 <= v < FX_ONE,
{
    rng_range(r, 0, 4096)
}

/// A point of the unit ball, by rejection from the cube `[-1, 1)^3`.
pub fn random_in_unit_sphere(r: &mut rand::rngs::SmallRng) -> (v: Vec3)
    ensures
        bounded(v, FX_ONE as int),
        len_s(v) < FX_ONE,
{
    let mut tries: u64 = 0;
    while tries < 64
        invariant
            true,
        decreases 64 - tries,
    {
        let x: i64 = rng_range(r, -4096, 4096);
        let y: i64 = rng_range(r, -4096, 4096);
        let z: i64 = rng_range(r, -4096, 4096);
        let cand = Vec3::new(x, y, z);
        if cand.length() < 4096 {
            return cand;
        }
        tries = tries + 1;
    }
    proof {
        lemma_zero_vector_spec();
    }
    Vec3::new(0, 0, 0)
}

/// The zero vector has zero dot square and zero length.
proof fn lemma_zero_vector_spec()
    ensures
        forall|v: Vec3| v.x == 0 && v.y == 0 && v.z == 0 ==> dot_s(v, v) == 0 && len_s(v) == 0,
{
    assert forall|v: Vec3| v.x == 0 && v.y == 0 && v.z == 0 implies dot_s(v, v) == 0 && len_s(
        v,
    ) == 0 by {
        lemma_tdiv_bounds(0, 4096);
        assert(dot_s(v, v) == 0);
        assert(crate::fx::isqrt_s(0nat) == 0);
    }
}

/// A unit-ball point turned to the side of `normal`: the returned
/// sample is itself a unit-ball point and always satisfies
/// `dot_s(v, normal) >= 0`.
pub fn random_in_hemisphere(normal: Vec3, r: &mut rand::rngs::SmallRng) -> (v: Vec3)
    requires
        bounded(normal, crate::vec::DOT_ARG_MAX as int),
    ensures
        bounded(v, FX_ONE as int),
        len_s(v) < FX_ONE,
        dot_s(v, normal) >= 0,
{
    let tmp = random_in_unit_sphere(r);
    let d: i64 = tmp.dot(normal);
    if d >= 0 {
        tmp
    } else {
        let flipped = tmp.neg();
        proof {
            lemma_smul_neg(tmp.x as int, normal.x as int);
            lemma_smul_neg(tmp.y as int, normal.y as int);
            lemma_smul_neg(tmp.z as int, normal.z as int);
            lemma_len_neg(tmp, flipped);
        }
        flipped
    }
}

/// Negating every component keeps the rounded squared length, and so
/// the rounded length.
proof fn lemma_len_neg(v: Vec3, n: Vec3)
    requires
        n.x == -v.x,
        n.y == -v.y,
        n.z == -v.z,
    ensures
        dot_s(n, n) == dot_s(v, v),
        len_s(n) == len_s(v),
{
    lemma_smul_neg(-(v.x as int), v.x as int);
    lemma_smul_neg(v.x as int, v.x as int);
    lemma_smul_neg(-(v.y as int), v.y as int);
    lemma_smul_neg(v.y as int, v.y as int);
    lemma_smul_neg(-(v.z as int), v.z as int);
    lemma_smul_neg(v.z as int, v.z as int);
}

/// A point of the unit disk in the plane `z = 0`, by rejection from
/// the square `[0, 1)^2`, as the reference sampler draws it.
pub fn random_in_unit_disk(r: &mut rand::rngs::SmallRng) -> (v: Vec3)
    ensures
        0 <= v.x < FX_ONE,
        0 <= v.y < FX_ONE,
        v.z == 0,
        len_s(v) < FX_ONE,
{
    let mut tries: u64 = 0;
    while tries < 64
        invariant
            true,
        decreases 64 - tries,
    {
        let x: i64 = rng_range(r, 0, 4096);
        let y: i64 = rng_range(r, 0, 4096);
        let cand = Vec3::new(x, y, 0);
        if cand.length() < 4096 {
            return cand;
        }
        tries = tries + 1;
    }
    proof {
        lemma_zero_vector_spec();
    }
    Vec3::new(0, 0, 0)
}

/// A color with uniform channels in `[0, 1)`.
pub fn random_color(r: &mut rand::rngs::SmallRng) -> (v: Vec3)
    ensures
        0 <= v.x < FX_ONE,
        0 <= v.y < FX_ONE,
        0 <= v.z < FX_ONE,
{
    let x: i64 = rng_range(r, 0, 4096);
    let y: i64 = rng_range(r, 0, 4096);
    let z: i64 = rng_range(r, 0, 4096);
    Vec3::new(x, y, z)
}

} // verus!
