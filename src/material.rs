//! Materials: how light scatters where a ray meets a surface.
use vstd::prelude::*;
use crate::fixed::{
    add_spec, div_spec, fadd, fdiv, fmul, fsqrt, fsub, in_range, mul_spec, sqrt_spec, sub_spec,
    SCALE,
};
use crate::hitable::HitRecord;
use crate::random::{
    cursor, draw_spec, in_unit_sphere, moves, pos_of, random_in_unit_sphere, sphere_sample_spec,
    Source, MAX_TRIES,
};
use crate::ray::Ray;
use crate::vec3::{
    add_vec, dot, dot_spec, len_spec, scale_vec, sub_vec, unit_spec, unit_vector, Vec3,
};

verus! {

/// A placeholder that scatters into a zero ray with zero attenuation.
#[derive(Clone, Copy, Debug, PartialEq, Eq, Structural)]
pub struct DummyMat {
    pub albedo: Vec3,
}

impl DummyMat {
    pub fn new() -> (r: DummyMat)
        ensures
            r.albedo == (Vec3 { x: 0, y: 0, z: 0 }),
    {
        DummyMat { albedo: Vec3::new(0, 0, 0) }
    }
}

/// Diffuse surface.
#[derive(Clone, Copy, Debug, PartialEq, Eq, Structural)]
pub struct Lambertian {
    pub albedo: Vec3,
}

impl Lambertian {
    pub fn new(a: Vec3) -> (r: Lambertian)
        ensures
            r.albedo == a,
    {
        Lambertian { albedo: a }
    }
}

/// Reflective surface, with a roughness `fuzz` in `[0, 1]`.
#[derive(Clone, Copy, Debug, PartialEq, Eq, Structural)]
pub struct Metal {
    pub albedo: Vec3,
    pub fuzz: i64,
}

impl Metal {
    /// A metal whose fuzz is `f` clamped into `[0, 1]`.
    pub fn new(a: Vec3, f: i64) -> (r: Metal)
        ensures
            r.albedo == a,
            r.fuzz == (if f < 0 {
                0
            } else if f < SCALE {
                f
            } else {
                SCALE
            }),
    {
        let fuzz: i64 = if f < 0 {
            0
        } else if f < SCALE {
            f
        } else {
            SCALE
        };
        Metal { albedo: a, fuzz }
    }
}

/// Transparent surface with refractive index `ref_idx`.
#[derive(Clone, Copy, Debug, PartialEq, Eq, Structural)]
pub struct Dielectric {
    pub ref_idx: i64,
}

impl Dielectric {
    pub fn new(ri: i64) -> (r: Dielectric)
        ensures
            r.ref_idx == ri,
    {
        Dielectric { ref_idx: ri }
    }
}

#[derive(Clone, Copy, Debug, PartialEq, Eq, Structural)]
pub enum Material {
    Dummy(DummyMat),
    Lambertian(Lambertian),
    Metal(Metal),
    Dielectric(Dielectric),
}

/// Components in `[0, 1]`.
pub open spec fn is_albedo(c: Vec3) -> bool {
    &&& 0 <= c.x <= SCALE
    &&& 0 <= c.y <= SCALE
    &&& 0 <= c.z <= SCALE
}

pub open spec fn white() -> Vec3 {
    Vec3 { x: SCALE, y: SCALE, z: SCALE }
}

pub open spec fn zero() -> Vec3 {
    Vec3 { x: 0, y: 0, z: 0 }
}

impl Material {
    /// A material of a well-formed scene: albedos in `[0, 1]`, fuzz in
    /// `[0, 1]`, refractive index at least 1.
    pub open spec fn wf(&self) -> bool {
        match *self {
            Material::Dummy(m) => m.albedo.wf(),
            Material::Lambertian(m) => is_albedo(m.albedo),
            Material::Metal(m) => is_albedo(m.albedo) && 0 <= m.fuzz <= SCALE,
            Material::Dielectric(m) => SCALE <= m.ref_idx <= crate::fixed::LIMIT,
        }
    }

    /// The variant's name.
    pub fn name(&self) -> (r: &'static str)
        ensures
            r@ == match *self {
                Material::Dummy(_) => "dummy"@,
                Material::Lambertian(_) => "lambertian"@,
                Material::Metal(_) => "metal"@,
                Material::Dielectric(_) => "dielectric"@,
            },
    {
        match self {
            Material::Dummy(_) => "dummy",
            Material::Lambertian(_) => "lambertian",
            Material::Metal(_) => "metal",
            Material::Dielectric(_) => "dielectric",
        }
    }

    /// Scatter `r_in` at the hit `rec`, given a point `p` inside the unit
    /// sphere and a uniform draw `u` from `[0, 1)`. `None` is absorption.
    pub fn scatter_with(&self, r_in: &Ray, rec: &HitRecord, p: &Vec3, u: i64) -> (r: Option<
        (Vec3, Ray),
    >)
        requires
            self.wf(),
            r_in.wf(),
            rec.wf(),
            in_unit_sphere(*p),
            0 <= u < SCALE,
        ensures
            r == scatter_spec(*self, *r_in, *rec, *p, u as int),
            r matches Some((att, out)) ==> out.wf() && (self.wf() ==> att.wf()),
    {
        match self {
            Material::Dummy(_) => {
                let z = Vec3::new(0, 0, 0);
                Some((z, Ray::new(&z, &z)))
            },
            Material::Lambertian(m) => {
                let target = rec.normal.add(p);
                Some((m.albedo, Ray::new(&rec.p, &target)))
            },
            Material::Metal(m) => {
                if r_in.b.len() == 0 {
                    return None;
                }
                let uv = unit_vector(&r_in.b);
                let reflected = reflect(&uv, &rec.normal).add(&p.scale(m.fuzz));
                if dot(&reflected, &rec.normal) > 0 {
                    Some((m.albedo, Ray::new(&rec.p, &reflected)))
                } else {
                    None
                }
            },
            Material::Dielectric(m) => {
                let d = &r_in.b;
                let l = d.len();
                if l == 0 {
                    return None;
                }
                let reflected = reflect(d, &rec.normal);
                let dn = dot(d, &rec.normal);
                let outward: Vec3;
                let ni_over_nt: i64;
                let cosine: i64;
                if dn > 0 {
                    outward = rec.normal.scale(-SCALE);
                    ni_over_nt = m.ref_idx;
                    cosine = fdiv(fmul(m.ref_idx, dn), l);
                } else {
                    outward = rec.normal;
                    ni_over_nt = fdiv(SCALE, m.ref_idx);
                    cosine = -fdiv(dn, l);
                }
                let white = Vec3::new(SCALE, SCALE, SCALE);
                match refract(d, &outward, ni_over_nt) {
                    Some(refracted) => {
                        let reflect_prob = schlick(cosine, m.ref_idx);
                        if u < reflect_prob {
                            Some((white, Ray::new(&rec.p, &reflected)))
                        } else {
                            Some((white, Ray::new(&rec.p, &refracted)))
                        }
                    },
                    None => Some((white, Ray::new(&rec.p, &reflected))),
                }
            },
        }
    }

    /// Scatter `r_in` at the hit `rec`, drawing from `src` the random point
    /// and the uniform value that `scatter_with` takes.
    pub fn scatter(&self, r_in: &Ray, rec: &HitRecord, src: &mut Source) -> (r: Option<(Vec3, Ray)>)
        requires
            self.wf(),
            r_in.wf(),
            rec.wf(),
            old(src).wf(),
        ensures
            final(src).wf(),
            exists|p: Vec3, u: int|
                in_unit_sphere(p) && 0 <= u < SCALE && r == scatter_spec(*self, *r_in, *rec, p, u),
            r matches Some((att, out)) ==> out.wf() && att.wf(),
            cursor(*old(src)) matches Some((v, pos)) ==> (r, pos_of(*final(src)))
                == scatter_draw_spec(*self, *r_in, *rec, v, pos),
            moves(*old(src), *final(src), pos_of(*final(src))),
    {
        let p = random_in_unit_sphere(src);
        let u = src.draw();
        self.scatter_with(r_in, rec, &p, u)
    }
}

/// Scattering with the point and the draw read from a cycle of draws at
/// `pos`: the outcome and the position after it.
pub open spec fn scatter_draw_spec(mat: Material, r_in: Ray, rec: HitRecord, vals: Seq<i64>, pos: int) -> (
    Option<(Vec3, Ray)>,
    int,
) {
    let (p, p1) = sphere_sample_spec(vals, pos, MAX_TRIES as nat);
    let (u, p2) = draw_spec(vals, p1);
    (scatter_spec(mat, r_in, rec, p, u), p2)
}

pub open spec fn reflect_spec(v: Vec3, n: Vec3) -> Vec3 {
    let d = dot_spec(v, n);
    sub_vec(v, scale_vec(n, add_spec(d, d)))
}

/// The refraction of `v` through a surface of normal `n`, when it exists.
pub open spec fn refract_spec(v: Vec3, n: Vec3, ni_over_nt: int) -> Option<Vec3> {
    let uv = unit_spec(v);
    let dt = dot_spec(uv, n);
    let disc = sub_spec(
        SCALE as int,
        mul_spec(mul_spec(ni_over_nt, ni_over_nt), sub_spec(SCALE as int, mul_spec(dt, dt))),
    );
    if disc > 0 {
        Some(
            sub_vec(
                scale_vec(sub_vec(uv, scale_vec(n, dt)), ni_over_nt),
                scale_vec(n, sqrt_spec(disc)),
            ),
        )
    } else {
        None
    }
}

/// Schlick's approximation of the reflectance at incidence cosine `cosine`.
pub open spec fn schlick_spec(cosine: int, ref_idx: int) -> int {
    let q = div_spec(sub_spec(SCALE as int, ref_idx), add_spec(SCALE as int, ref_idx));
    let r0 = mul_spec(q, q);
    let m = sub_spec(SCALE as int, cosine);
    let m5 = mul_spec(mul_spec(mul_spec(mul_spec(m, m), m), m), m);
    add_spec(r0, mul_spec(sub_spec(SCALE as int, r0), m5))
}

pub open spec fn scatter_spec(mat: Material, r_in: Ray, rec: HitRecord, p: Vec3, u: int) -> Option<
    (Vec3, Ray),
> {
    match mat {
        Material::Dummy(_) => Some((zero(), Ray { a: zero(), b: zero() })),
        Material::Lambertian(m) => Some((m.albedo, Ray { a: rec.p, b: add_vec(rec.normal, p) })),
        Material::Metal(m) => {
            if len_spec(r_in.b) == 0 {
                None
            } else {
                let reflected = add_vec(
                    reflect_spec(unit_spec(r_in.b), rec.normal),
                    scale_vec(p, m.fuzz as int),
                );
                if dot_spec(reflected, rec.normal) > 0 {
                    Some((m.albedo, Ray { a: rec.p, b: reflected }))
                } else {
                    None
                }
            }
        },
        Material::Dielectric(m) => {
            let d = r_in.b;
            let l = len_spec(d);
            if l == 0 {
                None
            } else {
                let reflected = reflect_spec(d, rec.normal);
                let dn = dot_spec(d, rec.normal);
                let ri = m.ref_idx as int;
                let outward = if dn > 0 {
                    scale_vec(rec.normal, -SCALE)
                } else {
                    rec.normal
                };
                let ni_over_nt = if dn > 0 {
                    ri
                } else {
                    div_spec(SCALE as int, ri)
                };
                let cosine = if dn > 0 {
                    div_spec(mul_spec(ri, dn), l)
                } else {
                    -div_spec(dn, l)
                };
                match refract_spec(d, outward, ni_over_nt) {
                    Some(refracted) => if u < schlick_spec(cosine, ri) {
                        Some((white(), Ray { a: rec.p, b: reflected }))
                    } else {
                        Some((white(), Ray { a: rec.p, b: refracted }))
                    },
                    None => Some((white(), Ray { a: rec.p, b: reflected })),
                }
            }
        },
    }
}

/// Mirror reflection of `v` about the normal `n`: `v - 2 (v . n) n`.
pub fn reflect(v: &Vec3, n: &Vec3) -> (r: Vec3)
    requires
        v.wf(),
        n.wf(),
    ensures
        r == reflect_spec(*v, *n),
        r.wf(),
{
    let d = dot(v, n);
    v.sub(&n.scale(fadd(d, d)))
}

/// Snell refraction of `v` through a surface of normal `n` with index
/// ratio `ni_over_nt`; `None` on total internal reflection.
pub fn refract(v: &Vec3, n: &Vec3, ni_over_nt: i64) -> (r: Option<Vec3>)
    requires
        v.wf(),
        n.wf(),
        len_spec(*v) != 0,
        in_range(ni_over_nt as int),
    ensures
        r == refract_spec(*v, *n, ni_over_nt as int),
        r matches Some(w) ==> w.wf(),
{
    let uv = unit_vector(v);
    let dt = dot(&uv, n);
    let disc = fsub(SCALE, fmul(fmul(ni_over_nt, ni_over_nt), fsub(SCALE, fmul(dt, dt))));
    if disc > 0 {
        let bent = uv.sub(&n.scale(dt)).scale(ni_over_nt);
        Some(bent.sub(&n.scale(fsqrt(disc))))
    } else {
        None
    }
}

/// Schlick's approximation `r0 + (1 - r0)(1 - cosine)^5`, where
/// `r0 = ((1 - ref_idx) / (1 + ref_idx))^2`.
pub fn schlick(cosine: i64, ref_idx: i64) -> (r: i64)
    requires
        in_range(cosine as int),
        0 < ref_idx <= crate::fixed::LIMIT,
    ensures
        r == schlick_spec(cosine as int, ref_idx as int),
{
    let q = fdiv(fsub(SCALE, ref_idx), fadd(SCALE, ref_idx));
    let r0 = fmul(q, q);
    let m = fsub(SCALE, cosine);
    let m5 = fmul(fmul(fmul(fmul(m, m), m), m), m);
    fadd(r0, fmul(fsub(SCALE, r0), m5))
}

pub open spec fn neg_vec(v: Vec3) -> Vec3 {
    Vec3 { x: (-v.x) as i64, y: (-v.y) as i64, z: (-v.z) as i64 }
}

/// A unit vector of the fixed-point grid: components in `[-1, 1]` and
/// squared length exactly 1.
pub open spec fn is_unit(n: Vec3) -> bool {
    &&& -SCALE <= n.x <= SCALE
    &&& -SCALE <= n.y <= SCALE
    &&& -SCALE <= n.z <= SCALE
    &&& dot_spec(n, n) == SCALE
}

proof fn lemma_tdiv_exact(q: int, d: int)
    requires
        d > 0,
    ensures
        crate::fixed::tdiv(q * d, d) == q,
{
    if q >= 0 {
        vstd::arithmetic::div_mod::lemma_div_by_multiple(q, d);
        assert(q * d >= 0) by (nonlinear_arith)
            requires
                q >= 0,
                d > 0,
        ;
    } else {
        vstd::arithmetic::div_mod::lemma_div_by_multiple(-q, d);
        assert(q * d < 0 && -(q * d) == (-q) * d) by (nonlinear_arith)
            requires
                q < 0,
                d > 0,
        ;
    }
}

proof fn lemma_mul_exact(x: int, k: int)
    requires
        -SCALE <= x <= SCALE,
        -2 <= k <= 2,
    ensures
        mul_spec(x, k * SCALE) == k * x,
{
    assert(x * (k * SCALE) == (k * x) * SCALE) by (nonlinear_arith);
    lemma_tdiv_exact(k * x, SCALE as int);
    assert(-2 * SCALE <= k * x <= 2 * SCALE) by (nonlinear_arith)
        requires
            -SCALE <= x <= SCALE,
            -2 <= k <= 2,
    ;
}

/// The unit vector of a grid unit vector, or of its negation, is itself.
proof fn lemma_unit_of_unit(n: Vec3)
    requires
        is_unit(n),
    ensures
        unit_spec(n) == n,
        unit_spec(neg_vec(n)) == neg_vec(n),
        dot_spec(neg_vec(n), n) == -SCALE,
{
    let m = neg_vec(n);
    assert(m.x == -n.x && m.y == -n.y && m.z == -n.z);
    assert(m.x * m.x + m.y * m.y + m.z * m.z == n.x * n.x + n.y * n.y + n.z * n.z)
        by (nonlinear_arith)
        requires
            m.x == -n.x,
            m.y == -n.y,
            m.z == -n.z,
    ;
    assert(m.x * n.x + m.y * n.y + m.z * n.z == -(n.x * n.x + n.y * n.y + n.z * n.z))
        by (nonlinear_arith)
        requires
            m.x == -n.x,
            m.y == -n.y,
            m.z == -n.z,
    ;
    assert(crate::fixed::is_sqrt(SCALE as int, SCALE as int));
    crate::fixed::lemma_sqrt_spec(SCALE as int, SCALE as int);
    lemma_mul_exact(n.x as int, 1);
    lemma_mul_exact(n.y as int, 1);
    lemma_mul_exact(n.z as int, 1);
    lemma_mul_exact(m.x as int, 1);
    lemma_mul_exact(m.y as int, 1);
    lemma_mul_exact(m.z as int, 1);
    lemma_tdiv_exact(n.x as int, SCALE as int);
    lemma_tdiv_exact(n.y as int, SCALE as int);
    lemma_tdiv_exact(n.z as int, SCALE as int);
    lemma_tdiv_exact(m.x as int, SCALE as int);
    lemma_tdiv_exact(m.y as int, SCALE as int);
    lemma_tdiv_exact(m.z as int, SCALE as int);
    assert(n.x * SCALE == n.x * SCALE);
}

/// At normal incidence the mirror reflection goes straight back:
/// `reflect(-n, n) == n` for a unit normal `n`.
pub proof fn lemma_reflect_normal_incidence(n: Vec3)
    requires
        is_unit(n),
    ensures
        reflect_spec(neg_vec(n), n) == n,
{
    lemma_unit_of_unit(n);
    lemma_mul_exact(n.x as int, -2);
    lemma_mul_exact(n.y as int, -2);
    lemma_mul_exact(n.z as int, -2);
}

/// A metal without fuzz sends a ray that meets it head-on straight back
/// along the normal, with its albedo unchanged as attenuation.
pub proof fn lemma_metal_normal_incidence(m: Metal, r_in: Ray, rec: HitRecord, p: Vec3, u: int)
    requires
        m.fuzz == 0,
        is_unit(rec.normal),
        len_spec(r_in.b) != 0,
        unit_spec(r_in.b) == neg_vec(rec.normal),
        in_unit_sphere(p),
    ensures
        scatter_spec(Material::Metal(m), r_in, rec, p, u) == Some(
            (m.albedo, Ray { a: rec.p, b: rec.normal }),
        ),
{
    lemma_reflect_normal_incidence(rec.normal);
    lemma_mul_exact(p.x as int, 0);
    lemma_mul_exact(p.y as int, 0);
    lemma_mul_exact(p.z as int, 0);
    assert(scale_vec(p, 0) == zero()) by {
        assert(p.x * 0 == 0 && p.y * 0 == 0 && p.z * 0 == 0);
    }
}

/// At incidence cosine 1 Schlick's approximation gives `r0`, which is 0
/// for a refractive index of 1.
pub proof fn lemma_schlick_head_on(ref_idx: int)
    requires
        0 < ref_idx <= crate::fixed::LIMIT,
    ensures
        ({
            let q = div_spec(sub_spec(SCALE as int, ref_idx), add_spec(SCALE as int, ref_idx));
            schlick_spec(SCALE as int, ref_idx) == mul_spec(q, q)
        }),
        ref_idx == SCALE ==> schlick_spec(SCALE as int, ref_idx) == 0,
{
    let q = div_spec(sub_spec(SCALE as int, ref_idx), add_spec(SCALE as int, ref_idx));
    assert(mul_spec(0, 0) == 0);
    assert(mul_spec(sub_spec(SCALE as int, mul_spec(q, q)), 0) == 0);
    if ref_idx == SCALE {
        assert(div_spec(0, 2 * SCALE) == 0);
    }
}

/// With index ratio 1 there is no total internal reflection: refraction
/// succeeds at every incidence short of exactly grazing.
pub proof fn lemma_unit_ratio_refracts(v: Vec3, n: Vec3)
    requires
        v.wf(),
        n.wf(),
        len_spec(v) != 0,
        mul_spec(dot_spec(unit_spec(v), n), dot_spec(unit_spec(v), n)) > 0,
    ensures
        refract_spec(v, n, SCALE as int) is Some,
{
    let dt = dot_spec(unit_spec(v), n);
    let dt2 = mul_spec(dt, dt);
    assert(mul_spec(SCALE as int, SCALE as int) == SCALE) by {
        lemma_mul_exact(SCALE as int, 1);
    }
    let x = sub_spec(SCALE as int, dt2);
    assert(SCALE * x == x * SCALE) by (nonlinear_arith);
    lemma_tdiv_exact(x, SCALE as int);
}

/// With index ratio 1 a ray that meets the surface head-on passes through
/// without bending.
pub proof fn lemma_refract_unit_ratio(n: Vec3)
    requires
        is_unit(n),
    ensures
        refract_spec(neg_vec(n), n, SCALE as int) == Some(neg_vec(n)),
{
    lemma_unit_of_unit(n);
    let v = neg_vec(n);
    assert(mul_spec(-SCALE, -SCALE) == SCALE) by {
        lemma_mul_exact(-SCALE, -1);
    }
    assert(mul_spec(SCALE as int, SCALE as int) == SCALE) by {
        lemma_mul_exact(SCALE as int, 1);
    }
    assert(mul_spec(SCALE as int, 0) == 0);
    assert(crate::fixed::is_sqrt(SCALE as int, SCALE as int));
    crate::fixed::lemma_sqrt_spec(SCALE as int, SCALE as int);
    lemma_mul_exact(n.x as int, -1);
    lemma_mul_exact(n.y as int, -1);
    lemma_mul_exact(n.z as int, -1);
    lemma_mul_exact(n.x as int, 1);
    lemma_mul_exact(n.y as int, 1);
    lemma_mul_exact(n.z as int, 1);
    lemma_mul_exact(0, 1);
}

} // verus!
