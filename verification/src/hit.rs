//! Hit records and the scene aggregate.

use vstd::prelude::*;
use crate::fx::{FX_ONE, lemma_fx_mul_bound};
use crate::vec3::{Vec3, vneg, vdot, vbounded};
use crate::ray::{Ray, DIR_BOUND, T_LIMIT};
use crate::material::Material;
use crate::sphere::{Sphere, sphere_hit_spec};

verus! {

/// The mathematical content of a hit record.
pub ghost struct SpecHit {
    pub t: int,
    pub p: (int, int, int),
    pub normal: (int, int, int),
    pub front_face: bool,
    pub mat: Material,
}

/// An accepted ray-primitive intersection.
pub struct HitRecord {
    pub p: Vec3,
    pub normal: Vec3,
    pub mat: Material,
    pub t: i64,
    pub front_face: bool,
}

impl HitRecord {
    /// The record's mathematical content.
    pub open spec fn as_spec(self) -> SpecHit {
        SpecHit {
            t: self.t as int,
            p: self.p@,
            normal: self.normal@,
            front_face: self.front_face,
            mat: self.mat,
        }
    }

    /// The normal is unit-scale bounded and the parameter non-negative.
    pub open spec fn wf(self) -> bool {
        vbounded(self.normal@, 4 * FX_ONE) && 0 <= self.t
    }

    /// Orients the outward normal against the incoming ray: `front_face` is
    /// set exactly when the ray direction opposes the outward normal, and the
    /// stored normal flips sign otherwise.
    pub fn set_face_normal(&mut self, r: &Ray, outward_normal: Vec3)
        requires
            r.wf(),
            vbounded(outward_normal@, 4 * FX_ONE),
        ensures
            final(self).front_face == (vdot(r.dir@, outward_normal@) < 0),
            final(self).normal@ == if vdot(r.dir@, outward_normal@) < 0 {
                outward_normal@
            } else {
                vneg(outward_normal@)
            },
            final(self).p == old(self).p,
            final(self).mat == old(self).mat,
            final(self).t == old(self).t,
    {
        proof {
            lemma_fx_mul_bound(r.dir@.0, outward_normal@.0, DIR_BOUND as int, 4 * FX_ONE);
            lemma_fx_mul_bound(r.dir@.1, outward_normal@.1, DIR_BOUND as int, 4 * FX_ONE);
            lemma_fx_mul_bound(r.dir@.2, outward_normal@.2, DIR_BOUND as int, 4 * FX_ONE);
        }
        let d = r.dir.dot(&outward_normal);
        self.front_face = d < 0;
        self.normal = if self.front_face {
            outward_normal
        } else {
            outward_normal.neg()
        };
    }
}

/// The spec-level hit record an exec option stands for.
pub open spec fn opt_spec_hit(o: Option<HitRecord>) -> Option<SpecHit> {
    match o {
        Some(rec) => Some(rec.as_spec()),
        None => None,
    }
}

/// Folds the linear scan over the scene: each accepted hit shrinks the upper
/// bound of the search interval, so later primitives can only come nearer.
pub open spec fn world_hit_loop(
    objs: Seq<Sphere>,
    r: Ray,
    t_min: int,
    closest: int,
    best: Option<SpecHit>,
) -> Option<SpecHit>
    decreases objs.len(),
{
    if objs.len() == 0 {
        best
    } else {
        match sphere_hit_spec(objs[0], r, t_min, closest) {
            Some(h) => world_hit_loop(objs.drop_first(), r, t_min, h.t, Some(h)),
            None => world_hit_loop(objs.drop_first(), r, t_min, closest, best),
        }
    }
}

/// The nearest intersection over the whole scene.
pub open spec fn world_hit_spec(objs: Seq<Sphere>, r: Ray, t_min: int, t_max: int) -> Option<
    SpecHit,
> {
    world_hit_loop(objs, r, t_min, t_max, None)
}

/// An ordered collection of spheres scanned linearly by every ray.
pub struct World {
    pub spheres: Vec<Sphere>,
}

impl World {
    /// Every sphere is well formed.
    pub open spec fn wf(self) -> bool {
        forall|i: int| 0 <= i < self.spheres@.len() ==> self.spheres@[i].wf()
    }

    /// An empty scene.
    pub fn new() -> (r: World)
        ensures
            r.spheres@.len() == 0,
            r.wf(),
    {
        World { spheres: Vec::new() }
    }

    /// Appends a sphere to the scene.
    pub fn push(&mut self, s: Sphere)
        requires
            old(self).wf(),
            s.wf(),
        ensures
            final(self).spheres@ == old(self).spheres@.push(s),
            final(self).wf(),
    {
        self.spheres.push(s);
        proof {
            assert forall|i: int| 0 <= i < self.spheres@.len() implies self.spheres@[i].wf() by {
                if i < old(self).spheres@.len() {
                    assert(self.spheres@[i] == old(self).spheres@[i]);
                }
            }
        }
    }

    /// Nearest intersection of `r` with any sphere inside `[t_min, t_max]`,
    /// found by the linear scan that shrinks the interval at each accepted
    /// hit.
    pub fn hit(&self, r: &Ray, t_min: i64, t_max: i64) -> (res: Option<HitRecord>)
        requires
            self.wf(),
            r.wf(),
            vdot(r.dir@, r.dir@) >= 1,
            0 <= t_min,
            t_max <= T_LIMIT,
        ensures
            opt_spec_hit(res) == world_hit_spec(self.spheres@, *r, t_min as int, t_max as int),
            res matches Some(rec) ==> rec.wf() && rec.t <= t_max && rec.mat.wf(),
    {
        let mut best: Option<HitRecord> = None;
        let mut closest: i64 = t_max;
        let n = self.spheres.len();
        let mut i: usize = 0;
        proof {
            assert(self.spheres@.skip(0) =~= self.spheres@);
        }
        while i < n
            invariant
                0 <= i <= n,
                n == self.spheres@.len(),
                self.wf(),
                r.wf(),
                vdot(r.dir@, r.dir@) >= 1,
                0 <= t_min,
                t_max <= T_LIMIT,
                closest <= t_max,
                best matches Some(b) ==> b.wf() && closest == b.t && t_min <= b.t && b.mat.wf(),
                world_hit_loop(
                    self.spheres@.skip(i as int),
                    *r,
                    t_min as int,
                    closest as int,
                    opt_spec_hit(best),
                ) == world_hit_spec(self.spheres@, *r, t_min as int, t_max as int),
            decreases n - i,
        {
            proof {
                assert(self.spheres@.skip(i as int)[0] == self.spheres@[i as int]);
                assert(self.spheres@.skip(i as int).drop_first() =~= self.spheres@.skip(
                    i as int + 1,
                ));
            }
            match self.spheres[i].hit(r, t_min, closest) {
                Some(rec) => {
                    closest = rec.t;
                    best = Some(rec);
                },
                None => {},
            }
            i = i + 1;
        }
        proof {
            assert(self.spheres@.skip(n as int).len() == 0);
        }
        best
    }
}

} // verus!
