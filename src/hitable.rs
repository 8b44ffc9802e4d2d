//! Ray-surface intersection: spheres, and lists that keep the nearest hit.
use vstd::prelude::*;
use crate::fixed::{
    add_spec, clamp, div_spec, fadd, fdiv, fmul, fsqrt, fsub, in_range, mul_spec, sqrt_spec,
    sub_spec, tdiv, LIMIT, SCALE,
};
use crate::material::Material;
use crate::ray::{point_at, Ray};
use crate::vec3::{div_vec, dot, dot_spec, sub_vec, Vec3};

verus! {

/// Where a ray meets a surface: parameter `t`, point `p`, outward unit
/// normal, and the surface's material.
#[derive(Clone, Copy, Debug, PartialEq, Eq, Structural)]
pub struct HitRecord {
    pub t: i64,
    pub p: Vec3,
    pub normal: Vec3,
    pub mat: Material,
}

impl HitRecord {
    pub open spec fn wf(&self) -> bool {
        &&& in_range(self.t as int)
        &&& self.p.wf()
        &&& self.normal.wf()
        &&& self.mat.wf()
    }

    /// A record at the origin, with zero parameter and normal.
    pub fn new(m: Material) -> (r: HitRecord)
        ensures
            r.t == 0,
            r.p == (Vec3 { x: 0, y: 0, z: 0 }),
            r.normal == (Vec3 { x: 0, y: 0, z: 0 }),
            r.mat == m,
    {
        let z = Vec3::new(0, 0, 0);
        HitRecord { t: 0, p: z, normal: z, mat: m }
    }
}

/// A surface that a ray can meet: the nearest meeting with parameter in the
/// open interval `(t_min, t_max)`, if any.
pub trait Hitable {
    /// The surface is well formed.
    spec fn valid(&self) -> bool;

    /// The record that `hit` returns.
    spec fn hit_spec(&self, r: Ray, t_min: int, t_max: int) -> Option<HitRecord>;

    fn hit(&self, r: &Ray, t_min: i64, t_max: i64) -> (h: Option<HitRecord>)
        requires
            self.valid(),
            r.wf(),
        ensures
            h == self.hit_spec(*r, t_min as int, t_max as int),
            h matches Some(rec) ==> rec.wf() && t_min < rec.t < t_max,
    ;
}

#[derive(Clone, Copy, Debug, PartialEq, Eq, Structural)]
pub struct Sphere {
    pub center: Vec3,
    pub radius: i64,
    pub mat: Material,
}

/// The two roots `(t1, t2)`, `t1 <= t2`, of `|o + t d - center|^2 = radius^2`,
/// when the direction is not zero and the discriminant is positive.
pub open spec fn roots_spec(s: Sphere, r: Ray) -> Option<(int, int)> {
    let oc = sub_vec(r.a, s.center);
    let a = dot_spec(r.b, r.b);
    let b = dot_spec(oc, r.b);
    let c = sub_spec(dot_spec(oc, oc), mul_spec(s.radius as int, s.radius as int));
    let disc = sub_spec(mul_spec(b, b), mul_spec(a, c));
    if a > 0 && disc > 0 {
        let sq = sqrt_spec(disc);
        Some((div_spec(sub_spec(-b, sq), a), div_spec(add_spec(-b, sq), a)))
    } else {
        None
    }
}

/// The record of `s` hit by `r` at parameter `t`.
pub open spec fn record_spec(s: Sphere, r: Ray, t: int) -> HitRecord {
    let p = point_at(r, t);
    HitRecord { t: t as i64, p, normal: div_vec(sub_vec(p, s.center), s.radius as int), mat: s.mat }
}

/// The nearer root in `(t_min, t_max)`, tried smaller root first.
pub open spec fn sphere_hit_spec(s: Sphere, r: Ray, t_min: int, t_max: int) -> Option<HitRecord> {
    match roots_spec(s, r) {
        Some((t1, t2)) => if t_min < t1 < t_max {
            Some(record_spec(s, r, t1))
        } else if t_min < t2 < t_max {
            Some(record_spec(s, r, t2))
        } else {
            None
        },
        None => None,
    }
}

proof fn lemma_div_spec_monotone(x: int, y: int, a: int)
    requires
        x <= y,
        a > 0,
    ensures
        div_spec(x, a) <= div_spec(y, a),
{
    assert(x * SCALE <= y * SCALE) by (nonlinear_arith)
        requires
            x <= y,
    ;
    crate::fixed::lemma_tdiv_monotone(x * SCALE, y * SCALE, a);
}

/// The smaller root comes first.
pub proof fn lemma_roots_ordered(s: Sphere, r: Ray)
    ensures
        roots_spec(s, r) matches Some((t1, t2)) ==> t1 <= t2,
{
    let oc = sub_vec(r.a, s.center);
    let a = dot_spec(r.b, r.b);
    let b = dot_spec(oc, r.b);
    let c = sub_spec(dot_spec(oc, oc), mul_spec(s.radius as int, s.radius as int));
    let disc = sub_spec(mul_spec(b, b), mul_spec(a, c));
    if a > 0 && disc > 0 {
        let sq = sqrt_spec(disc);
        crate::fixed::lemma_sqrt_exists(disc);
        lemma_div_spec_monotone(sub_spec(-b, sq), add_spec(-b, sq), a);
    }
}

/// A miss in `(t_min, t_max)` is a miss in every narrower interval.
pub proof fn lemma_sphere_miss_narrower(s: Sphere, r: Ray, t_min: int, t_max: int, t: int)
    requires
        sphere_hit_spec(s, r, t_min, t_max) is None,
        t <= t_max,
    ensures
        sphere_hit_spec(s, r, t_min, t) is None,
{
}

/// A hit at `t` lies in the interval, and nothing of the same sphere is
/// hit before it.
pub proof fn lemma_sphere_hit_first(s: Sphere, r: Ray, t_min: int, t_max: int)
    requires
        sphere_hit_spec(s, r, t_min, t_max) is Some,
    ensures
        t_min < sphere_hit_spec(s, r, t_min, t_max)->0.t < t_max,
        sphere_hit_spec(s, r, t_min, sphere_hit_spec(s, r, t_min, t_max)->0.t as int) is None,
{
    lemma_roots_ordered(s, r);
}

/// `p` lies on the surface of `s`, as the intersection test measures it.
pub open spec fn on_surface(s: Sphere, p: Vec3) -> bool {
    let oc = sub_vec(p, s.center);
    dot_spec(oc, oc) == mul_spec(s.radius as int, s.radius as int)
}

/// A ray that starts on the surface of a sphere and points outward meets
/// that sphere nowhere ahead of it.
pub proof fn lemma_outward_ray_misses(s: Sphere, r: Ray, t_min: int, t_max: int)
    requires
        s.wf(),
        r.wf(),
        on_surface(s, r.a),
        dot_spec(sub_vec(r.a, s.center), r.b) > 0,
        t_min >= 0,
    ensures
        sphere_hit_spec(s, r, t_min, t_max) is None,
{
    let oc = sub_vec(r.a, s.center);
    let a = dot_spec(r.b, r.b);
    let b = dot_spec(oc, r.b);
    let c = sub_spec(dot_spec(oc, oc), mul_spec(s.radius as int, s.radius as int));
    assert(c == 0);
    assert(mul_spec(a, c) == 0);
    let disc = sub_spec(mul_spec(b, b), mul_spec(a, c));
    if a > 0 && disc > 0 {
        let sq = sqrt_spec(disc);
        crate::fixed::lemma_sqrt_exists(disc);
        assert(b * b >= 0) by (nonlinear_arith);
        crate::fixed::lemma_tdiv_bounds(b * b, SCALE as int);
        assert(disc <= tdiv(b * b, SCALE as int));
        assert(sq * sq <= b * b) by (nonlinear_arith)
            requires
                sq * sq <= disc * SCALE,
                disc <= tdiv(b * b, SCALE as int),
                SCALE * tdiv(b * b, SCALE as int) <= b * b,
                disc > 0,
        ;
        assert(sq <= b) by (nonlinear_arith)
            requires
                sq * sq <= b * b,
                0 <= sq,
                0 < b,
        ;
        let x1 = sub_spec(-b, sq);
        let x2 = add_spec(-b, sq);
        assert(x1 <= 0 && x2 <= 0);
        assert(x1 * SCALE <= 0 && x2 * SCALE <= 0) by (nonlinear_arith)
            requires
                x1 <= 0,
                x2 <= 0,
        ;
        crate::fixed::lemma_tdiv_bounds(x1 * SCALE, a);
        crate::fixed::lemma_tdiv_bounds(x2 * SCALE, a);
    }
}

impl Sphere {
    /// A sphere of positive radius with a well-formed material.
    pub open spec fn wf(&self) -> bool {
        &&& self.center.wf()
        &&& 0 < self.radius <= LIMIT
        &&& self.mat.wf()
    }

    pub fn new(cen: Vec3, r: i64, m: Material) -> (s: Sphere)
        ensures
            s == (Sphere { center: cen, radius: r, mat: m }),
    {
        Sphere { center: cen, radius: r, mat: m }
    }

    fn record(&self, r: &Ray, t: i64) -> (h: HitRecord)
        requires
            self.wf(),
            r.wf(),
            in_range(t as int),
        ensures
            h == record_spec(*self, *r, t as int),
            h.wf(),
    {
        let p = r.point_at_parameter(t);
        let normal = p.sub(&self.center).div_scalar(self.radius);
        HitRecord { t, p, normal, mat: self.mat }
    }
}

impl Hitable for Sphere {
    open spec fn valid(&self) -> bool {
        self.wf()
    }

    open spec fn hit_spec(&self, r: Ray, t_min: int, t_max: int) -> Option<HitRecord> {
        sphere_hit_spec(*self, r, t_min, t_max)
    }

    /// The nearest intersection with parameter in the open interval
    /// `(t_min, t_max)`, if any.
    fn hit(&self, r: &Ray, t_min: i64, t_max: i64) -> (h: Option<HitRecord>) {
        let oc = r.a.sub(&self.center);
        let a = dot(&r.b, &r.b);
        let b = dot(&oc, &r.b);
        let c = fsub(dot(&oc, &oc), fmul(self.radius, self.radius));
        let disc = fsub(fmul(b, b), fmul(a, c));
        if a > 0 && disc > 0 {
            let sq = fsqrt(disc);
            let t1 = fdiv(fsub(-b, sq), a);
            if t1 < t_max && t1 > t_min {
                return Some(self.record(r, t1));
            }
            let t2 = fdiv(fadd(-b, sq), a);
            if t2 < t_max && t2 > t_min {
                return Some(self.record(r, t2));
            }
        }
        None
    }
}

/// An ordered collection of spheres.
pub struct HitableList {
    pub list: Vec<Sphere>,
}

/// The parameter bound left after a scan: the hit's, or `t_max`.
pub open spec fn closest(h: Option<HitRecord>, t_max: int) -> int {
    match h {
        Some(rec) => rec.t as int,
        None => t_max,
    }
}

/// The record kept after testing the first `n` spheres in order, each
/// within `(t_min, closest so far)`.
pub open spec fn scan_spec(s: Seq<Sphere>, n: int, r: Ray, t_min: int, t_max: int) -> Option<
    HitRecord,
>
    decreases n,
{
    if n <= 0 {
        None
    } else {
        let prev = scan_spec(s, n - 1, r, t_min, t_max);
        match sphere_hit_spec(s[n - 1], r, t_min, closest(prev, t_max)) {
            Some(h) => Some(h),
            None => prev,
        }
    }
}

/// After a scan of the first `n` spheres, none of them is hit before the
/// kept record, and the kept record lies in `(t_min, t_max)`.
pub proof fn lemma_scan_nearest(s: Seq<Sphere>, n: int, r: Ray, t_min: int, t_max: int)
    requires
        0 <= n <= s.len(),
    ensures
        closest(scan_spec(s, n, r, t_min, t_max), t_max) <= t_max,
        scan_spec(s, n, r, t_min, t_max) matches Some(h) ==> t_min < h.t,
        forall|k: int|
            0 <= k < n ==> (#[trigger] sphere_hit_spec(
                s[k],
                r,
                t_min,
                closest(scan_spec(s, n, r, t_min, t_max), t_max),
            )) is None,
    decreases n,
{
    if n > 0 {
        lemma_scan_nearest(s, n - 1, r, t_min, t_max);
        let prev = scan_spec(s, n - 1, r, t_min, t_max);
        let c = closest(prev, t_max);
        let c2 = closest(scan_spec(s, n, r, t_min, t_max), t_max);
        if sphere_hit_spec(s[n - 1], r, t_min, c) is Some {
            lemma_sphere_hit_first(s[n - 1], r, t_min, c);
        }
        assert forall|k: int| 0 <= k < n implies (#[trigger] sphere_hit_spec(
            s[k],
            r,
            t_min,
            c2,
        )) is None by {
            if k < n - 1 {
                assert(sphere_hit_spec(s[k], r, t_min, c) is None);
                lemma_sphere_miss_narrower(s[k], r, t_min, c, c2);
            }
        }
    }
}

impl HitableList {
    pub open spec fn wf(&self) -> bool {
        forall|i: int| 0 <= i < self.list@.len() ==> (#[trigger] self.list@[i]).wf()
    }

    pub fn new(hitable: Vec<Sphere>) -> (r: HitableList)
        ensures
            r.list@ == hitable@,
    {
        HitableList { list: hitable }
    }

    /// The nearest hit over all members in `(t_min, t_max)`: no member is
    /// hit before it, and on `None` no member is hit at all.
    pub fn hit_nearest(&self, r: &Ray, t_min: i64, t_max: i64) -> (h: Option<HitRecord>)
        requires
            self.wf(),
            r.wf(),
        ensures
            h == scan_spec(self.list@, self.list@.len() as int, *r, t_min as int, t_max as int),
            h matches Some(rec) ==> rec.wf() && t_min < rec.t < t_max,
            forall|k: int|
                0 <= k < self.list@.len() ==> (#[trigger] sphere_hit_spec(
                    self.list@[k],
                    *r,
                    t_min as int,
                    closest(h, t_max as int),
                )) is None,
    {
        let mut rec: Option<HitRecord> = None;
        let mut closest_so_far: i64 = t_max;
        let n = self.list.len();
        let mut i: usize = 0;
        while i < n
            invariant
                n == self.list@.len(),
                i <= n,
                self.wf(),
                r.wf(),
                rec == scan_spec(self.list@, i as int, *r, t_min as int, t_max as int),
                closest_so_far as int == closest(rec, t_max as int),
                rec matches Some(h) ==> h.wf() && t_min < h.t < t_max,
            decreases n - i,
        {
            if let Some(h) = self.list[i].hit(r, t_min, closest_so_far) {
                closest_so_far = h.t;
                rec = Some(h);
            }
            i = i + 1;
        }
        proof {
            lemma_scan_nearest(self.list@, n as int, *r, t_min as int, t_max as int);
        }
        rec
    }
}

impl Hitable for HitableList {
    open spec fn valid(&self) -> bool {
        self.wf()
    }

    open spec fn hit_spec(&self, r: Ray, t_min: int, t_max: int) -> Option<HitRecord> {
        scan_spec(self.list@, self.list@.len() as int, r, t_min, t_max)
    }

    /// The nearest hit over all members; see `hit_nearest`.
    fn hit(&self, r: &Ray, t_min: i64, t_max: i64) -> (h: Option<HitRecord>) {
        self.hit_nearest(r, t_min, t_max)
    }
}

} // verus!
