//! The camera: maps normalized image-plane coordinates and a lens sample to
//! a world-space ray, supporting depth of field.

use vstd::prelude::*;
use crate::fx::{FX_ONE, FX_HALF, fx_mul_spec, fx_mul, lemma_fx_mul_bound};
use crate::vec3::{Vec3, vadd, vsub, vscale, vcross, vdot, vunit, vbounded};
use crate::ray::Ray;

verus! {

/// The camera basis vector pointing from the target back to the eye.
pub open spec fn cam_w(lfrom: (int, int, int), lat: (int, int, int)) -> (int, int, int) {
    vunit(vsub(lfrom, lat))
}

/// The camera basis vector pointing right.
pub open spec fn cam_u(
    lfrom: (int, int, int),
    lat: (int, int, int),
    vup: (int, int, int),
) -> (int, int, int) {
    vunit(vcross(vup, cam_w(lfrom, lat)))
}

/// The camera basis vector pointing up.
pub open spec fn cam_v(
    lfrom: (int, int, int),
    lat: (int, int, int),
    vup: (int, int, int),
) -> (int, int, int) {
    vcross(cam_w(lfrom, lat), cam_u(lfrom, lat, vup))
}

/// An immutable camera basis, derived once from eye position, orientation,
/// field of view, aperture and focus distance.
pub struct Camera {
    pub origin: Vec3,
    pub lower_left_corner: Vec3,
    pub horiz: Vec3,
    pub vert: Vec3,
    pub cu: Vec3,
    pub cv: Vec3,
    pub lens_radius: i64,
}

impl Camera {
    /// The camera's fields stay inside the bounds ray generation needs.
    pub open spec fn wf(self) -> bool {
        vbounded(self.origin@, 0x100000000) && vbounded(self.lower_left_corner@, 0x4000000000)
            && vbounded(self.horiz@, 0x2000000000) && vbounded(self.vert@, 0x2000000000)
            && vbounded(self.cu@, 0x800000) && vbounded(self.cv@, 0x800000) && 0
            <= self.lens_radius <= 0x20000000
    }

    /// Builds the camera from eye position `lfrom`, target `lat`, view-up
    /// vector `vup`, the tangent of half the vertical field of view
    /// (`half_tan`, precomputed by the caller since trigonometry lies outside
    /// fixed-point scope), the aspect ratio, the aperture and the focus
    /// distance.
    pub fn new(
        lfrom: Vec3,
        lat: Vec3,
        vup: Vec3,
        half_tan: i64,
        aspect_ratio: i64,
        aperture: i64,
        focus_dist: i64,
    ) -> (r: Camera)
        requires
            vbounded(lfrom@, 0x40000000),
            vbounded(lat@, 0x40000000),
            vbounded(vup@, 0x40000000),
            vdot(vsub(lfrom@, lat@), vsub(lfrom@, lat@)) >= 2,
            vdot(
                vcross(vup@, cam_w(lfrom@, lat@)),
                vcross(vup@, cam_w(lfrom@, lat@)),
            ) >= 2,
            0 <= half_tan <= 0x400000,
            0 < aspect_ratio <= 0x800000,
            0 <= aperture <= 0x40000000,
            1 <= focus_dist <= 0x40000000,
        ensures
            r.origin == lfrom,
            r.cu@ == cam_u(lfrom@, lat@, vup@),
            r.cv@ == cam_v(lfrom@, lat@, vup@),
            r.horiz@ == vscale(
                cam_u(lfrom@, lat@, vup@),
                fx_mul_spec(
                    focus_dist as int,
                    fx_mul_spec(aspect_ratio as int, 2 * half_tan),
                ),
            ),
            r.vert@ == vscale(
                cam_v(lfrom@, lat@, vup@),
                fx_mul_spec(focus_dist as int, 2 * half_tan),
            ),
            r.lower_left_corner@ == vsub(
                vsub(
                    vsub(lfrom@, vscale(r.horiz@, FX_HALF as int)),
                    vscale(r.vert@, FX_HALF as int),
                ),
                vscale(cam_w(lfrom@, lat@), focus_dist as int),
            ),
            r.lens_radius == fx_mul_spec(aperture as int, FX_HALF as int),
            r.wf(),
    {
        let viewport_h: i64 = 2 * half_tan;
        proof {
            lemma_fx_mul_bound(aspect_ratio as int, viewport_h as int, 0x800000, 0x800000);
        }
        let viewport_w = fx_mul(aspect_ratio, viewport_h);
        let diff = lfrom.sub(&lat);
        let cw = diff.normalized();
        proof {
            lemma_fx_mul_bound(vup@.0, cw@.0, 0x40000000, 0x200000);
            lemma_fx_mul_bound(vup@.1, cw@.1, 0x40000000, 0x200000);
            lemma_fx_mul_bound(vup@.2, cw@.2, 0x40000000, 0x200000);
            lemma_fx_mul_bound(vup@.0, cw@.1, 0x40000000, 0x200000);
            lemma_fx_mul_bound(vup@.1, cw@.2, 0x40000000, 0x200000);
            lemma_fx_mul_bound(vup@.2, cw@.0, 0x40000000, 0x200000);
            lemma_fx_mul_bound(vup@.0, cw@.2, 0x40000000, 0x200000);
            lemma_fx_mul_bound(vup@.1, cw@.0, 0x40000000, 0x200000);
            lemma_fx_mul_bound(vup@.2, cw@.1, 0x40000000, 0x200000);
        }
        let cross_uw = vup.cross(&cw);
        let cu = cross_uw.normalized();
        proof {
            lemma_fx_mul_bound(cw@.0, cu@.0, 0x200000, 0x200000);
            lemma_fx_mul_bound(cw@.1, cu@.1, 0x200000, 0x200000);
            lemma_fx_mul_bound(cw@.2, cu@.2, 0x200000, 0x200000);
            lemma_fx_mul_bound(cw@.0, cu@.1, 0x200000, 0x200000);
            lemma_fx_mul_bound(cw@.1, cu@.2, 0x200000, 0x200000);
            lemma_fx_mul_bound(cw@.2, cu@.0, 0x200000, 0x200000);
            lemma_fx_mul_bound(cw@.0, cu@.2, 0x200000, 0x200000);
            lemma_fx_mul_bound(cw@.1, cu@.0, 0x200000, 0x200000);
            lemma_fx_mul_bound(cw@.2, cu@.1, 0x200000, 0x200000);
        }
        let cv = cw.cross(&cu);
        proof {
            lemma_fx_mul_bound(focus_dist as int, viewport_w as int, 0x40000000, 0x4000000);
            lemma_fx_mul_bound(focus_dist as int, viewport_h as int, 0x40000000, 0x800000);
        }
        let fw = fx_mul(focus_dist, viewport_w);
        let fh = fx_mul(focus_dist, viewport_h);
        proof {
            lemma_fx_mul_bound(cu@.0, fw as int, 0x200000, 0x1000000000);
            lemma_fx_mul_bound(cu@.1, fw as int, 0x200000, 0x1000000000);
            lemma_fx_mul_bound(cu@.2, fw as int, 0x200000, 0x1000000000);
            lemma_fx_mul_bound(cv@.0, fh as int, 0x800000, 0x200000000);
            lemma_fx_mul_bound(cv@.1, fh as int, 0x800000, 0x200000000);
            lemma_fx_mul_bound(cv@.2, fh as int, 0x800000, 0x200000000);
        }
        let h = cu.scale(fw);
        let v = cv.scale(fh);
        proof {
            lemma_fx_mul_bound(h@.0, FX_HALF as int, 0x2000000000, FX_HALF as int);
            lemma_fx_mul_bound(h@.1, FX_HALF as int, 0x2000000000, FX_HALF as int);
            lemma_fx_mul_bound(h@.2, FX_HALF as int, 0x2000000000, FX_HALF as int);
            lemma_fx_mul_bound(v@.0, FX_HALF as int, 0x2000000000, FX_HALF as int);
            lemma_fx_mul_bound(v@.1, FX_HALF as int, 0x2000000000, FX_HALF as int);
            lemma_fx_mul_bound(v@.2, FX_HALF as int, 0x2000000000, FX_HALF as int);
            lemma_fx_mul_bound(cw@.0, focus_dist as int, 0x200000, 0x40000000);
            lemma_fx_mul_bound(cw@.1, focus_dist as int, 0x200000, 0x40000000);
            lemma_fx_mul_bound(cw@.2, focus_dist as int, 0x200000, 0x40000000);
            lemma_fx_mul_bound(aperture as int, FX_HALF as int, 0x40000000, FX_HALF as int);
        }
        let half_h = h.scale(FX_HALF);
        let half_v = v.scale(FX_HALF);
        let fcw = cw.scale(focus_dist);
        let lower_left_corner = lfrom.sub(&half_h).sub(&half_v).sub(&fcw);
        Camera {
            origin: lfrom,
            horiz: h,
            vert: v,
            lower_left_corner,
            cu,
            cv,
            lens_radius: fx_mul(aperture, FX_HALF),
        }
    }

    /// The ray through normalized screen coordinates `(s, t)`, with the lens
    /// disk sample `rd` supplying the depth-of-field jitter.
    #[verifier::rlimit(80)]
    pub fn get_ray_with(&self, s: i64, t: i64, rd: &Vec3) -> (r: Ray)
        requires
            self.wf(),
            0 <= s <= 2 * FX_ONE,
            0 <= t <= 2 * FX_ONE,
            vbounded(rd@, FX_ONE as int),
        ensures
            r.orig@ == vadd(self.origin@, get_ray_offset(*self, rd@)),
            r.dir@ == vsub(
                vsub(
                    vadd(
                        vadd(self.lower_left_corner@, vscale(self.horiz@, s as int)),
                        vscale(self.vert@, t as int),
                    ),
                    self.origin@,
                ),
                get_ray_offset(*self, rd@),
            ),
            r.wf(),
    {
        proof {
            lemma_fx_mul_bound(rd@.0, self.lens_radius as int, FX_ONE as int, 0x20000000);
            lemma_fx_mul_bound(rd@.1, self.lens_radius as int, FX_ONE as int, 0x20000000);
            lemma_fx_mul_bound(rd@.2, self.lens_radius as int, FX_ONE as int, 0x20000000);
        }
        let rds = rd.scale(self.lens_radius);
        proof {
            lemma_fx_mul_bound(self.cu@.0, rds@.0, 0x800000, 0x20000000);
            lemma_fx_mul_bound(self.cu@.1, rds@.0, 0x800000, 0x20000000);
            lemma_fx_mul_bound(self.cu@.2, rds@.0, 0x800000, 0x20000000);
            lemma_fx_mul_bound(self.cv@.0, rds@.1, 0x800000, 0x20000000);
            lemma_fx_mul_bound(self.cv@.1, rds@.1, 0x800000, 0x20000000);
            lemma_fx_mul_bound(self.cv@.2, rds@.1, 0x800000, 0x20000000);
        }
        let offset = self.cu.scale(rds.x()).add(&self.cv.scale(rds.y()));
        proof {
            lemma_fx_mul_bound(self.horiz@.0, s as int, 0x2000000000, 0x200000);
            lemma_fx_mul_bound(self.horiz@.1, s as int, 0x2000000000, 0x200000);
            lemma_fx_mul_bound(self.horiz@.2, s as int, 0x2000000000, 0x200000);
            lemma_fx_mul_bound(self.vert@.0, t as int, 0x2000000000, 0x200000);
            lemma_fx_mul_bound(self.vert@.1, t as int, 0x2000000000, 0x200000);
            lemma_fx_mul_bound(self.vert@.2, t as int, 0x2000000000, 0x200000);
        }
        let target = self.lower_left_corner.add(&self.horiz.scale(s)).add(&self.vert.scale(t));
        let orig = self.origin.add(&offset);
        let dir = target.sub(&self.origin).sub(&offset);
        Ray::new(orig, dir)
    }
}

impl Camera {
    /// The ray through normalized screen coordinates `(s, t)`, drawing the
    /// lens disk sample from the given generator.
    pub fn get_ray(&self, s: i64, t: i64, rng: &mut rand::rngs::StdRng) -> (r: Ray)
        requires
            self.wf(),
            0 <= s <= 2 * FX_ONE,
            0 <= t <= 2 * FX_ONE,
        ensures
            r.wf(),
    {
        let rd = Vec3::random_in_unit_disk(rng);
        self.get_ray_with(s, t, &rd)
    }
}

/// The depth-of-field origin offset a lens sample yields.
pub open spec fn get_ray_offset(c: Camera, rd: (int, int, int)) -> (int, int, int) {
    vadd(
        vscale(c.cu@, fx_mul_spec(rd.0, c.lens_radius as int)),
        vscale(c.cv@, fx_mul_spec(rd.1, c.lens_radius as int)),
    )
}

} // verus!
