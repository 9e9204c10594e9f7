//! The camera: immutable viewport geometry derived once from the
//! user-facing parameters, and primary-ray generation with defocus blur.
//!
//! The vertical field of view enters as the tangent of its half-angle, a
//! plain scalar; evaluating the tangent itself is trigonometric work that
//! stays with the caller.

use vstd::prelude::*;

use crate::fixed::SCALE;
use crate::fixed::add_sat;
use crate::fixed::div_trunc;
use crate::fixed::fx_mul;
use crate::fixed::fx_mul_spec;
use crate::fixed::sat;
use crate::fixed::tdiv;
use crate::math::REJECT_CAP;
use crate::math::RngSource;
use crate::math::random_in_unit_disk;
use crate::math::spec_disk_sample;
use crate::ray::Ray;
use crate::ray::RayV;
use crate::vec3::Point;
use crate::vec3::V3;
use crate::vec3::Vec3;
use crate::vec3::v_add;
use crate::vec3::v_cross;
use crate::vec3::v_len;
use crate::vec3::v_len_sq;
use crate::vec3::v_scale;
use crate::vec3::v_sub;
use crate::vec3::v_unit;

verus! {

/// Model of a camera.
pub ghost struct CameraV {
    pub origin: V3,
    pub lower_left_corner: V3,
    pub horizontal: V3,
    pub vertical: V3,
    pub u: V3,
    pub v: V3,
    pub w: V3,
    pub lens_radius: int,
}

/// Derived, immutable viewport geometry.
pub struct Camera {
    pub origin: Point,
    pub lower_left_corner: Point,
    pub horizontal: Vec3,
    pub vertical: Vec3,
    pub u: Vec3,
    pub v: Vec3,
    pub w: Vec3,
    pub lens_radius: i64,
}

impl View for Camera {
    type V = CameraV;

    open spec fn view(&self) -> CameraV {
        CameraV {
            origin: self.origin@,
            lower_left_corner: self.lower_left_corner@,
            horizontal: self.horizontal@,
            vertical: self.vertical@,
            u: self.u@,
            v: self.v@,
            w: self.w@,
            lens_radius: self.lens_radius as int,
        }
    }
}

/// The backward basis vector of the camera frame.
pub open spec fn camera_w(lookfrom: V3, lookat: V3) -> V3 {
    v_unit(v_sub(lookfrom, lookat))
}

/// The rightward basis vector of the camera frame.
pub open spec fn camera_u(lookfrom: V3, lookat: V3, vup: V3) -> V3 {
    v_unit(v_cross(vup, camera_w(lookfrom, lookat)))
}

/// The whole derived geometry as a function of the parameters.
pub open spec fn camera_spec(
    lookfrom: V3,
    lookat: V3,
    vup: V3,
    half_tan_fov: int,
    aspect_ratio: int,
    aperture: int,
    focus_dist: int,
) -> CameraV {
    let w = camera_w(lookfrom, lookat);
    let u = camera_u(lookfrom, lookat, vup);
    let v = v_cross(w, u);
    let viewport_height = fx_mul_spec(sat(half_tan_fov + half_tan_fov), focus_dist);
    let viewport_width = fx_mul_spec(aspect_ratio, viewport_height);
    let horizontal = v_scale(viewport_width, u);
    let vertical = v_scale(viewport_height, v);
    let lower_left_corner = v_sub(
        v_sub(v_sub(lookfrom, v_scale(500000, horizontal)), v_scale(500000, vertical)),
        v_scale(focus_dist, w),
    );
    CameraV {
        origin: lookfrom,
        lower_left_corner: lower_left_corner,
        horizontal: horizontal,
        vertical: vertical,
        u: u,
        v: v,
        w: w,
        lens_radius: sat(tdiv(aperture, 2)),
    }
}

/// The primary ray for image-plane coordinates `(s, t)` and a given lens
/// sample `rd`.
pub open spec fn get_ray_spec(cam: CameraV, s: int, t: int, rd: V3) -> RayV {
    let scaled = v_scale(cam.lens_radius, rd);
    let offset = v_add(v_scale(scaled.x, cam.u), v_scale(scaled.y, cam.v));
    RayV {
        origin: v_add(cam.origin, offset),
        direction: v_sub(
            v_sub(
                v_add(
                    v_add(cam.lower_left_corner, v_scale(s, cam.horizontal)),
                    v_scale(t, cam.vertical),
                ),
                cam.origin,
            ),
            offset,
        ),
    }
}

impl Camera {
    /// Build the viewport geometry; `half_tan_fov` is the tangent of half
    /// the vertical field of view.  The view direction and the cross of
    /// `vup` with it must be long enough to normalize.
    pub fn new(
        lookfrom: Point,
        lookat: Point,
        vup: Vec3,
        half_tan_fov: i64,
        aspect_ratio: i64,
        aperture: i64,
        focus_dist: i64,
    ) -> (c: Camera)
        requires
            v_len(v_sub(lookfrom@, lookat@)) > 0,
            v_len(v_cross(vup@, camera_w(lookfrom@, lookat@))) > 0,
        ensures
            c@ == camera_spec(
                lookfrom@,
                lookat@,
                vup@,
                half_tan_fov as int,
                aspect_ratio as int,
                aperture as int,
                focus_dist as int,
            ),
    {
        let w: Vec3 = lookfrom.sub(&lookat).unit();
        let u: Vec3 = vup.cross(&w).unit();
        let v: Vec3 = w.cross(&u);
        let viewport_height: i64 = fx_mul(add_sat(half_tan_fov, half_tan_fov), focus_dist);
        let viewport_width: i64 = fx_mul(aspect_ratio, viewport_height);
        let horizontal: Vec3 = u.scale(viewport_width);
        let vertical: Vec3 = v.scale(viewport_height);
        let lower_left_corner: Point = lookfrom
            .sub(&horizontal.scale(500000))
            .sub(&vertical.scale(500000))
            .sub(&w.scale(focus_dist));
        Camera {
            origin: lookfrom,
            lower_left_corner,
            horizontal,
            vertical,
            u,
            v,
            w,
            lens_radius: div_trunc(aperture, 2),
        }
    }

    /// The jittered primary ray for image-plane coordinates `(s, t)`.
    /// With a closed aperture the lens sample is irrelevant and the ray
    /// is a deterministic function of `(s, t)`.
    pub fn get_ray(&self, s: i64, t: i64, rng: &mut RngSource) -> (r: Ray)
        ensures
            final(rng).external == old(rng).external,
            final(rng).values == old(rng).values,
            old(rng).external ==> final(rng).index == old(rng).index,
            !old(rng).external ==> ({
                let (d, j) = spec_disk_sample(
                    old(rng).values@,
                    old(rng).index as nat,
                    REJECT_CAP as nat,
                );
                r@ == get_ray_spec(self@, s as int, t as int, d) && final(rng).index as nat == j
            }),
            self.lens_radius == 0 ==> r@ == get_ray_spec(
                self@,
                s as int,
                t as int,
                V3 { x: 0int, y: 0int, z: 0int },
            ),
            exists|d: V3|
                #[trigger] get_ray_spec(self@, s as int, t as int, d) == r@ && v_len_sq(d)
                    < SCALE as int && d.z == 0,
    {
        let d: Vec3 = random_in_unit_disk(rng);
        let rd: Vec3 = d.scale(self.lens_radius);
        let offset: Vec3 = self.u.scale(rd.x).add(&self.v.scale(rd.y));
        let ray: Ray = Ray::new(
            self.origin.add(&offset),
            self
                .lower_left_corner
                .add(&self.horizontal.scale(s))
                .add(&self.vertical.scale(t))
                .sub(&self.origin)
                .sub(&offset),
        );
        proof {
            assert(get_ray_spec(self@, s as int, t as int, d@) == ray@ && v_len_sq(d@)
                < SCALE as int && d@.z == 0);
        }
        ray
    }
}

} // verus!
