//! The camera: turns image-plane coordinates into rays, with a thin lens
//! for depth of field.
use vstd::prelude::*;
use crate::fixed::{in_range, SCALE};
use crate::random::{
    cursor, disk_sample_spec, in_unit_sphere, moves, pos_of, random_in_unit_disk, Source, MAX_TRIES,
};
use crate::ray::Ray;
use crate::vec3::{
    add_vec, cross, cross_spec, len_spec, scale_vec, sub_vec, unit_spec, unit_vector, Vec3,
};

verus! {

#[derive(Clone, Copy, Debug, PartialEq, Eq, Structural)]
pub struct Camera {
    pub origin: Vec3,
    pub lower_left_corner: Vec3,
    pub horizontal: Vec3,
    pub vertical: Vec3,
    pub u: Vec3,
    pub v: Vec3,
    pub w: Vec3,
    pub lens_radius: i64,
}

pub open spec fn origin_vec() -> Vec3 {
    Vec3 { x: 0, y: 0, z: 0 }
}

/// The camera that `Camera::with_focus` builds.
pub open spec fn focus_spec(
    lookfrom: Vec3,
    lookat: Vec3,
    vup: Vec3,
    half_height: int,
    aspect: int,
    aperture: int,
    focus_dist: int,
) -> Camera {
    let w = unit_spec(sub_vec(lookfrom, lookat));
    let u = unit_spec(cross_spec(vup, w));
    let v = cross_spec(w, u);
    let half_width = crate::fixed::mul_spec(aspect, half_height);
    Camera {
        origin: lookfrom,
        lower_left_corner: sub_vec(
            sub_vec(
                sub_vec(lookfrom, scale_vec(scale_vec(u, focus_dist), half_width)),
                scale_vec(scale_vec(v, focus_dist), half_height),
            ),
            scale_vec(w, focus_dist),
        ),
        horizontal: scale_vec(scale_vec(scale_vec(u, 2 * SCALE), focus_dist), half_width),
        vertical: scale_vec(scale_vec(scale_vec(v, 2 * SCALE), focus_dist), half_height),
        u,
        v,
        w,
        lens_radius: (aperture / 2) as i64,
    }
}

/// The ray through image-plane point `(s, t)` from lens point `rd` of the
/// unit disk.
pub open spec fn ray_spec(c: Camera, s: int, t: int, rd: Vec3) -> Ray {
    let lens = scale_vec(rd, c.lens_radius as int);
    let offset = add_vec(scale_vec(c.u, lens.x as int), scale_vec(c.v, lens.y as int));
    Ray {
        a: add_vec(c.origin, offset),
        b: sub_vec(
            sub_vec(
                add_vec(
                    add_vec(c.lower_left_corner, scale_vec(c.horizontal, s)),
                    scale_vec(c.vertical, t),
                ),
                c.origin,
            ),
            offset,
        ),
    }
}

impl Camera {
    pub open spec fn wf(&self) -> bool {
        &&& self.origin.wf()
        &&& self.lower_left_corner.wf()
        &&& self.horizontal.wf()
        &&& self.vertical.wf()
        &&& self.u.wf()
        &&& self.v.wf()
        &&& self.w.wf()
        &&& in_range(self.lens_radius as int)
    }

    /// The fixed frame looking down `-z` over a 4 by 2 viewport.
    pub fn new() -> (c: Camera)
        ensures
            c == (Camera {
                origin: origin_vec(),
                lower_left_corner: Vec3 { x: (-2 * SCALE) as i64, y: (-SCALE) as i64, z: (-SCALE) as i64 },
                horizontal: Vec3 { x: (4 * SCALE) as i64, y: 0, z: 0 },
                vertical: Vec3 { x: 0, y: (2 * SCALE) as i64, z: 0 },
                u: origin_vec(),
                v: origin_vec(),
                w: origin_vec(),
                lens_radius: SCALE,
            }),
            c.wf(),
    {
        let z = Vec3::new(0, 0, 0);
        Camera {
            origin: z,
            lower_left_corner: Vec3::new(-2 * SCALE, -SCALE, -SCALE),
            horizontal: Vec3::new(4 * SCALE, 0, 0),
            vertical: Vec3::new(0, 2 * SCALE, 0),
            u: z,
            v: z,
            w: z,
            lens_radius: SCALE,
        }
    }

    /// A camera at the origin looking down `-z`, whose vertical half-extent
    /// at distance 1 is `half_height` (the tangent of half the field of
    /// view) and whose width is `aspect` times its height.
    pub fn with_fov(half_height: i64, aspect: i64) -> (c: Camera)
        requires
            in_range(half_height as int),
            in_range(aspect as int),
        ensures
            ({
                let hw = crate::fixed::mul_spec(aspect as int, half_height as int);
                c == (Camera {
                    origin: origin_vec(),
                    lower_left_corner: Vec3 { x: (-hw) as i64, y: (-half_height) as i64, z: (-SCALE) as i64 },
                    horizontal: Vec3 { x: crate::fixed::mul_spec(2 * SCALE, hw) as i64, y: 0, z: 0 },
                    vertical: Vec3 {
                        x: 0,
                        y: crate::fixed::mul_spec(2 * SCALE, half_height as int) as i64,
                        z: 0,
                    },
                    u: origin_vec(),
                    v: origin_vec(),
                    w: origin_vec(),
                    lens_radius: SCALE,
                })
            }),
            c.wf(),
    {
        let half_width = crate::fixed::fmul(aspect, half_height);
        let z = Vec3::new(0, 0, 0);
        Camera {
            origin: z,
            lower_left_corner: Vec3::new(-half_width, -half_height, -SCALE),
            horizontal: Vec3::new(crate::fixed::fmul(2 * SCALE, half_width), 0, 0),
            vertical: Vec3::new(0, crate::fixed::fmul(2 * SCALE, half_height), 0),
            u: z,
            v: z,
            w: z,
            lens_radius: SCALE,
        }
    }

    /// A pinhole camera at `lookfrom` facing `lookat`, with `vup` as the
    /// up hint; `half_height` and `aspect` frame it as in `with_fov`.
    pub fn with_lookat(
        lookfrom: &Vec3,
        lookat: &Vec3,
        vup: &Vec3,
        half_height: i64,
        aspect: i64,
    ) -> (c: Camera)
        requires
            lookfrom.wf(),
            lookat.wf(),
            vup.wf(),
            in_range(half_height as int),
            in_range(aspect as int),
            len_spec(sub_vec(*lookfrom, *lookat)) != 0,
            len_spec(cross_spec(*vup, unit_spec(sub_vec(*lookfrom, *lookat)))) != 0,
        ensures
            ({
                let f = focus_spec(*lookfrom, *lookat, *vup, half_height as int, aspect as int, 0, SCALE as int);
                c == (Camera { u: origin_vec(), v: origin_vec(), w: origin_vec(), ..f })
            }),
            c.wf(),
    {
        let f = Camera::with_focus(lookfrom, lookat, vup, half_height, aspect, 0, SCALE);
        let z = Vec3::new(0, 0, 0);
        Camera { u: z, v: z, w: z, ..f }
    }

    /// A thin-lens camera at `lookfrom` facing `lookat`, with `vup` as the
    /// up hint, framed by `half_height` and `aspect`, whose lens has
    /// diameter `aperture` and is in focus at distance `focus_dist`.
    pub fn with_focus(
        lookfrom: &Vec3,
        lookat: &Vec3,
        vup: &Vec3,
        half_height: i64,
        aspect: i64,
        aperture: i64,
        focus_dist: i64,
    ) -> (c: Camera)
        requires
            lookfrom.wf(),
            lookat.wf(),
            vup.wf(),
            in_range(half_height as int),
            in_range(aspect as int),
            0 <= aperture <= crate::fixed::LIMIT,
            in_range(focus_dist as int),
            len_spec(sub_vec(*lookfrom, *lookat)) != 0,
            len_spec(cross_spec(*vup, unit_spec(sub_vec(*lookfrom, *lookat)))) != 0,
        ensures
            c == focus_spec(
                *lookfrom,
                *lookat,
                *vup,
                half_height as int,
                aspect as int,
                aperture as int,
                focus_dist as int,
            ),
            c.wf(),
    {
        let lens_radius = aperture / 2;
        let w = unit_vector(&lookfrom.sub(lookat));
        let u = unit_vector(&cross(vup, &w));
        let v = cross(&w, &u);
        let half_width = crate::fixed::fmul(aspect, half_height);
        let origin = *lookfrom;
        let llc = origin.sub(&u.scale(focus_dist).scale(half_width)).sub(
            &v.scale(focus_dist).scale(half_height),
        ).sub(&w.scale(focus_dist));
        Camera {
            origin,
            lower_left_corner: llc,
            horizontal: u.scale(2 * SCALE).scale(focus_dist).scale(half_width),
            vertical: v.scale(2 * SCALE).scale(focus_dist).scale(half_height),
            u,
            v,
            w,
            lens_radius,
        }
    }

    /// The ray through image-plane point `(s, t)`, leaving the lens at
    /// `rd`, a point of the unit disk.
    pub fn get_ray_with(&self, s: i64, t: i64, rd: &Vec3) -> (r: Ray)
        requires
            self.wf(),
            in_range(s as int),
            in_range(t as int),
            rd.wf(),
        ensures
            r == ray_spec(*self, s as int, t as int, *rd),
            r.wf(),
    {
        let lens = rd.scale(self.lens_radius);
        let offset = self.u.scale(lens.x).add(&self.v.scale(lens.y));
        let dir = self.lower_left_corner.add(&self.horizontal.scale(s)).add(
            &self.vertical.scale(t),
        ).sub(&self.origin).sub(&offset);
        Ray::new(&self.origin.add(&offset), &dir)
    }

    /// The ray through image-plane point `(s, t)` from a point of the lens
    /// drawn from `src`.
    pub fn get_ray(&self, s: i64, t: i64, src: &mut Source) -> (r: Ray)
        requires
            self.wf(),
            in_range(s as int),
            in_range(t as int),
            old(src).wf(),
        ensures
            final(src).wf(),
            exists|rd: Vec3| in_unit_sphere(rd) && rd.z == 0 && r == ray_spec(*self, s as int, t as int, rd),
            r.wf(),
            cursor(*old(src)) matches Some((v, pos)) ==> ({
                let (rd, p1) = disk_sample_spec(v, pos, MAX_TRIES as nat);
                r == ray_spec(*self, s as int, t as int, rd) && pos_of(*final(src)) == p1
            }),
            moves(*old(src), *final(src), pos_of(*final(src))),
    {
        let rd = random_in_unit_disk(src);
        self.get_ray_with(s, t, &rd)
    }
}

} // verus!
