//! Rays: an origin, a direction, and parameterized point evaluation.

use vstd::prelude::*;
use crate::fx::{iabs, lemma_fx_mul_bound};
use crate::vec3::{Vec3, vadd, vscale, vbounded};

verus! {

/// Magnitude bound on scene positions (origins, centers, radii).
pub const POS_BOUND: i64 = 0x1000000000;

/// Magnitude bound on ray direction components.
pub const DIR_BOUND: i64 = 0x10000000000;

/// Largest ray parameter a hit test will consider; stands in for infinity.
pub const T_LIMIT: i64 = 0x20000000000;

/// A ray: origin plus scaled direction.
#[derive(Clone, Copy, Debug, PartialEq, Eq, Structural)]
pub struct Ray {
    pub orig: Vec3,
    pub dir: Vec3,
}

impl Ray {
    /// The ray's components stay inside the bounds the hit tests need.
    pub open spec fn wf(self) -> bool {
        vbounded(self.orig@, POS_BOUND as int) && vbounded(self.dir@, DIR_BOUND as int)
    }

    /// Builds a ray from origin and direction.
    pub fn new(orig: Vec3, dir: Vec3) -> (r: Ray)
        ensures
            r.orig == orig,
            r.dir == dir,
    {
        Ray { orig, dir }
    }

    /// The point reached after parameter `t`: origin + t * direction.
    pub open spec fn at_spec(self, t: int) -> (int, int, int) {
        vadd(self.orig@, vscale(self.dir@, t))
    }

    /// The point reached after parameter `t`.
    pub fn at(&self, t: i64) -> (r: Vec3)
        requires
            self.wf(),
            iabs(t as int) <= T_LIMIT,
        ensures
            r@ == self.at_spec(t as int),
    {
        proof {
            lemma_fx_mul_bound(self.dir@.0, t as int, DIR_BOUND as int, T_LIMIT as int);
            lemma_fx_mul_bound(self.dir@.1, t as int, DIR_BOUND as int, T_LIMIT as int);
            lemma_fx_mul_bound(self.dir@.2, t as int, DIR_BOUND as int, T_LIMIT as int);
        }
        let scaled = self.dir.scale(t);
        self.orig.add(&scaled)
    }
}

} // verus!
