//! Hit records and the scene aggregate.
//!
//! A hit record reports one ray–surface intersection: position,
//! oriented normal, parametric distance, which face was struck, and
//! the surface's material. The scene aggregate folds over its
//! spheres, narrowing the window to the best distance found so far,
//! and returns the closest valid intersection; which sphere that is
//! does not depend on insertion order.
use vstd::prelude::*;

verus! {

use crate::COORD_MAX;
use crate::TIME_MAX;
use crate::fx::lemma_tdiv_ordered;
use crate::material::Material;
use crate::ray::Ray;
use crate::sphere::Sphere;
use crate::sphere::hit_t_s;
use crate::sphere::is_record_of;
use crate::sphere::normal_ok;
use crate::sphere::qa_s;
use crate::sphere::qdelta_s;
use crate::sphere::qhalf_b_s;
use crate::sphere::ray_ok;
use crate::sphere::root1_s;
use crate::sphere::root2_s;
use crate::sphere::sphere_wf;
use crate::vec::Vec3;
use crate::vec::bounded;
use crate::vec::dot_s;
use crate::vec::lemma_dot_self_nonneg;

#[derive(Clone, Copy, Debug)]
pub struct HitRecord {
    pub position: Vec3,
    /// Oriented against the incoming ray; not unit length, but its
    /// components stay within [`COORD_MAX`].
    pub normal: Vec3,
    pub t: i64,
    /// True when the ray struck the outer surface.
    pub front_face: bool,
    pub material: Material,
}

/// The distance at which a sphere contributes a usable hit inside
/// the window: its intersection distance, provided the record's
/// normal passes its bounds check.
pub open spec fn eff_s(s: Sphere, r: Ray, tmin: int, tmax: int) -> Option<int> {
    match hit_t_s(s, r, tmin, tmax) {
        Some(t) => if normal_ok(s, r, t) {
            Some(t)
        } else {
            None
        },
        None => None,
    }
}

/// The distance of the closest usable hit over a scene: the minimum
/// of the spheres' effective distances, kept by the earlier sphere
/// on a tie.
pub open spec fn scene_hit_t(objs: Seq<Sphere>, r: Ray, tmin: int, tmax: int) -> Option<int>
    decreases objs.len(),
{
    if objs.len() == 0 {
        None
    } else {
        let prev = scene_hit_t(objs.drop_last(), r, tmin, tmax);
        let last = eff_s(objs.last(), r, tmin, tmax);
        if prev is None {
            last
        } else if last is None {
            prev
        } else if last->Some_0 < prev->Some_0 {
            last
        } else {
            prev
        }
    }
}

/// Every sphere of the scene satisfies its invariant.
pub open spec fn scene_wf(objs: Seq<Sphere>) -> bool {
    forall|i: int| 0 <= i < objs.len() ==> sphere_wf(#[trigger] objs[i])
}

/// An intersection distance always lies strictly inside the window.
proof fn lemma_hit_t_in_window(s: Sphere, r: Ray, tmin: int, tmax: int)
    ensures
        hit_t_s(s, r, tmin, tmax) is Some ==> tmin < hit_t_s(s, r, tmin, tmax)->Some_0 < tmax,
{
}

/// The two quadratic roots come in increasing order.
proof fn lemma_roots_ordered(s: Sphere, r: Ray)
    requires
        qa_s(r) >= 1,
    ensures
        root1_s(s, r) <= root2_s(s, r),
{
    let hb = qhalf_b_s(s, r);
    let sq = crate::fx::fsqrt(qdelta_s(s, r));
    assert(sq >= 0);
    assert((-hb - sq) * 4096 <= (-hb + sq) * 4096) by (nonlinear_arith)
        requires
            sq >= 0,
    ;
    lemma_tdiv_ordered((-hb - sq) * 4096, (-hb + sq) * 4096, qa_s(r));
}

/// Shrinking the upper end of the window keeps exactly the hits that
/// beat it: the fold may intersect against the best distance so far
/// instead of the original bound.
proof fn lemma_hit_window_shrink(s: Sphere, r: Ray, tmin: int, cur: int, tmax: int)
    requires
        cur <= tmax,
    ensures
        hit_t_s(s, r, tmin, cur) == (match hit_t_s(s, r, tmin, tmax) {
            Some(t) => if t < cur {
                Some(t)
            } else {
                None
            },
            None => None::<int>,
        }),
{
    if qa_s(r) != 0 && qdelta_s(s, r) >= 0 {
        lemma_dot_self_nonneg(r.direction);
        lemma_roots_ordered(s, r);
    }
}

/// Nearest-hit selection does not depend on insertion order: two
/// spheres seen in either order give a hit at the same distance.
pub proof fn lemma_nearest_hit_insertion_order(
    s1: Sphere,
    s2: Sphere,
    r: Ray,
    tmin: int,
    tmax: int,
)
    ensures
        scene_hit_t(seq![s1, s2], r, tmin, tmax) == scene_hit_t(seq![s2, s1], r, tmin, tmax),
{
    let a = seq![s1, s2];
    let b = seq![s2, s1];
    assert(a.drop_last() =~= seq![s1]);
    assert(b.drop_last() =~= seq![s2]);
    assert(seq![s1].drop_last() =~= Seq::<Sphere>::empty());
    assert(seq![s2].drop_last() =~= Seq::<Sphere>::empty());
    assert(scene_hit_t(Seq::<Sphere>::empty(), r, tmin, tmax) is None);
    assert(seq![s1].last() == s1);
    assert(seq![s2].last() == s2);
    assert(a.last() == s2);
    assert(b.last() == s1);
    assert(scene_hit_t(seq![s1], r, tmin, tmax) == eff_s(s1, r, tmin, tmax));
    assert(scene_hit_t(seq![s2], r, tmin, tmax) == eff_s(s2, r, tmin, tmax));
}

pub struct HittableList {
    pub objects: Vec<Sphere>,
}

impl HittableList {
    pub fn new() -> (r: Self)
        ensures
            r.objects@.len() == 0,
    {
        HittableList { objects: Vec::new() }
    }

    /// Adds one sphere to the scene, builder style.
    pub fn insert(self, object: Sphere) -> (r: Self)
        ensures
            r.objects@ == self.objects@.push(object),
    {
        let mut list = self;
        list.objects.push(object);
        list
    }

    /// The closest usable intersection along `ray` strictly inside
    /// `(tmin, tmax)`: the record of the sphere whose effective
    /// distance attains [`scene_hit_t`]. Later spheres are
    /// intersected against the best distance found so far.
    pub fn hit(&self, ray: &Ray, tmin: i64, tmax: i64) -> (r: Option<HitRecord>)
        requires
            scene_wf(self.objects@),
            ray_ok(*ray),
            0 <= tmin,
            tmax <= TIME_MAX,
        ensures
            r is Some <==> scene_hit_t(self.objects@, *ray, tmin as int, tmax as int) is Some,
            r is Some ==> {
                let t = scene_hit_t(self.objects@, *ray, tmin as int, tmax as int)->Some_0;
                &&& r->Some_0.t == t
                &&& tmin < r->Some_0.t < tmax
                &&& exists|j: int|
                    0 <= j < self.objects@.len() && eff_s(
                        #[trigger] self.objects@[j],
                        *ray,
                        tmin as int,
                        tmax as int,
                    ) == Some(t) && is_record_of(r->Some_0, self.objects@[j], *ray, t)
                &&& bounded(r->Some_0.normal, COORD_MAX as int)
                &&& dot_s(ray.direction, r->Some_0.normal) <= 0
            },
    {
        let ghost objs = self.objects@;
        let mut best: Option<HitRecord> = None;
        let mut cur: i64 = tmax;
        let n = self.objects.len();
        for i in 0..n
            invariant
                n == objs.len(),
                objs == self.objects@,
                scene_wf(objs),
                ray_ok(*ray),
                0 <= tmin,
                tmax <= TIME_MAX,
                cur <= tmax,
                best is None ==> {
                    &&& scene_hit_t(objs.subrange(0, i as int), *ray, tmin as int, tmax as int)
                        is None
                    &&& cur == tmax
                },
                best is Some ==> {
                    let rec = best->Some_0;
                    &&& scene_hit_t(objs.subrange(0, i as int), *ray, tmin as int, tmax as int)
                        == Some(rec.t as int)
                    &&& cur == rec.t
                    &&& tmin < rec.t < tmax
                    &&& exists|j: int|
                        0 <= j < i && eff_s(#[trigger] objs[j], *ray, tmin as int, tmax as int)
                            == Some(rec.t as int) && is_record_of(rec, objs[j], *ray, rec.t as int)
                    &&& bounded(rec.normal, COORD_MAX as int)
                    &&& dot_s(ray.direction, rec.normal) <= 0
                },
        {
            let res = self.objects[i].hit(ray, tmin, cur);
            proof {
                lemma_hit_window_shrink(objs[i as int], *ray, tmin as int, cur as int, tmax as int);
                lemma_hit_t_in_window(objs[i as int], *ray, tmin as int, tmax as int);
                assert(objs.subrange(0, i + 1).drop_last() =~= objs.subrange(0, i as int));
                assert(objs.subrange(0, i + 1).last() == objs[i as int]);
            }
            match res {
                Some(rec) => {
                    cur = rec.t;
                    best = Some(rec);
                },
                None => {},
            }
        }
        proof {
            assert(objs.subrange(0, n as int) =~= objs);
        }
        best
    }
}

} // verus!
