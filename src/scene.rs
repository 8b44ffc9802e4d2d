//! The demonstration scene: a ground sphere, a grid of small spheres with
//! random placement and materials, and three large feature spheres.
use vstd::prelude::*;
use crate::fixed::{fadd, fmul, SCALE};
use crate::hitable::{HitableList, Sphere};
use crate::material::{Dielectric, Lambertian, Material, Metal};
use crate::random::Source;
use crate::render::lemma_mul_unit;
use crate::vec3::Vec3;

verus! {

/// Radius of the small spheres, which rest on the ground.
pub const SMALL_RADIUS: i64 = 200_000;

/// Refractive index of the glass spheres.
pub const GLASS: i64 = 1_500_000;

proof fn lemma_half_of_sum(a: int)
    requires
        0 <= a < SCALE,
    ensures
        0 <= crate::fixed::mul_spec(SCALE / 2, SCALE + a) <= SCALE,
{
    assert(0 <= (SCALE / 2) * (SCALE + a) <= (SCALE / 2) * (2 * SCALE)) by (nonlinear_arith)
        requires
            0 <= a < SCALE,
    ;
    crate::fixed::lemma_tdiv_monotone((SCALE / 2) * (SCALE + a), (SCALE / 2) * (2 * SCALE), SCALE as int);
    crate::fixed::lemma_tdiv_monotone(0, (SCALE / 2) * (SCALE + a), SCALE as int);
    assert(SCALE / 2 == 500_000 && 2 * SCALE == 2_000_000);
    assert(500_000int * 2_000_000int == 1_000_000int * 1_000_000int);
    vstd::arithmetic::div_mod::lemma_div_by_multiple(SCALE as int, SCALE as int);
}

/// A random material for a small sphere: diffuse with chance 0.8, metal
/// with chance 0.15, glass otherwise, chosen by the draw `choose_mat`.
pub fn random_material(choose_mat: i64, src: &mut Source) -> (m: Material)
    requires
        0 <= choose_mat < SCALE,
        old(src).wf(),
    ensures
        final(src).wf(),
        m.wf(),
        choose_mat < 800_000 ==> m is Lambertian,
        800_000 <= choose_mat < 950_000 ==> m is Metal,
        950_000 <= choose_mat ==> m == Material::Dielectric(Dielectric { ref_idx: GLASS }),
{
    if choose_mat < 800_000 {
        let (a, b, c, d, e, f) = (src.draw(), src.draw(), src.draw(), src.draw(), src.draw(), src.draw());
        proof {
            lemma_mul_unit(a as int, b as int);
            lemma_mul_unit(c as int, d as int);
            lemma_mul_unit(e as int, f as int);
        }
        Material::Lambertian(Lambertian::new(Vec3::new(fmul(a, b), fmul(c, d), fmul(e, f))))
    } else if choose_mat < 950_000 {
        let (a, b, c, d) = (src.draw(), src.draw(), src.draw(), src.draw());
        proof {
            lemma_half_of_sum(a as int);
            lemma_half_of_sum(b as int);
            lemma_half_of_sum(c as int);
            lemma_mul_unit(SCALE / 2, d as int);
        }
        let half = SCALE / 2;
        let albedo = Vec3::new(
            fmul(half, fadd(SCALE, a)),
            fmul(half, fadd(SCALE, b)),
            fmul(half, fadd(SCALE, c)),
        );
        Material::Metal(Metal::new(albedo, fmul(half, d)))
    } else {
        Material::Dielectric(Dielectric::new(GLASS))
    }
}

/// The small sphere for grid cell `(a, b)`, placed and colored by draws
/// from `src`, if it keeps clear of the large metal sphere.
fn grid_sphere(a: i64, b: i64, src: &mut Source) -> (s: Option<Sphere>)
    requires
        -11 <= a < 11,
        -11 <= b < 11,
        old(src).wf(),
    ensures
        final(src).wf(),
        s matches Some(sp) ==> sp.wf() && sp.radius == SMALL_RADIUS && sp.center.y == SMALL_RADIUS,
{
    let choose_mat = src.draw();
    let cx = fadd(a * SCALE, fmul(900_000, src.draw()));
    let cz = fmul(fmul(b * SCALE, 900_000), src.draw());
    let center = Vec3::new(cx, SMALL_RADIUS, cz);
    let gap = center.sub(&Vec3::new(4 * SCALE, SMALL_RADIUS, 0));
    if gap.len() > 900_000 {
        Some(Sphere::new(center, SMALL_RADIUS, random_material(choose_mat, src)))
    } else {
        None
    }
}

/// The demonstration scene. Its first sphere is the ground, a sphere of
/// radius 1000 below the origin; its last three are the large glass,
/// diffuse and metal spheres; all others are small spheres on the ground.
pub fn random_scene(src: &mut Source) -> (w: HitableList)
    requires
        old(src).wf(),
    ensures
        final(src).wf(),
        w.wf(),
        w.list@.len() >= 4,
        w.list@[0] == (Sphere {
            center: Vec3 { x: 0, y: (-1000 * SCALE) as i64, z: 0 },
            radius: (1000 * SCALE) as i64,
            mat: Material::Lambertian(Lambertian { albedo: Vec3 { x: 500_000, y: 500_000, z: 500_000 } }),
        }),
        w.list@[w.list@.len() - 3] == (Sphere {
            center: Vec3 { x: 0, y: SCALE, z: 0 },
            radius: SCALE,
            mat: Material::Dielectric(Dielectric { ref_idx: GLASS }),
        }),
        w.list@[w.list@.len() - 2] == (Sphere {
            center: Vec3 { x: (-4 * SCALE) as i64, y: SCALE, z: 0 },
            radius: SCALE,
            mat: Material::Lambertian(Lambertian { albedo: Vec3 { x: 400_000, y: 200_000, z: 100_000 } }),
        }),
        w.list@[w.list@.len() - 1] == (Sphere {
            center: Vec3 { x: (4 * SCALE) as i64, y: SCALE, z: 0 },
            radius: SCALE,
            mat: Material::Metal(Metal { albedo: Vec3 { x: 700_000, y: 600_000, z: 500_000 }, fuzz: 0 }),
        }),
        forall|i: int|
            1 <= i < w.list@.len() - 3 ==> (#[trigger] w.list@[i]).radius == SMALL_RADIUS
                && w.list@[i].center.y == SMALL_RADIUS,
{
    let mut list: Vec<Sphere> = Vec::new();
    let ground = Lambertian::new(Vec3::new(500_000, 500_000, 500_000));
    list.push(Sphere::new(Vec3::new(0, -1000 * SCALE, 0), 1000 * SCALE, Material::Lambertian(ground)));
    let ghost first = list@[0];
    let mut a: i64 = -11;
    while a < 11
        invariant
            -11 <= a <= 11,
            src.wf(),
            list@.len() >= 1,
            list@[0] == first,
            first.wf(),
            forall|i: int| 0 <= i < list@.len() ==> (#[trigger] list@[i]).wf(),
            forall|i: int|
                1 <= i < list@.len() ==> (#[trigger] list@[i]).radius == SMALL_RADIUS
                    && list@[i].center.y == SMALL_RADIUS,
        decreases 11 - a,
    {
        let mut b: i64 = -11;
        while b < 11
            invariant
                -11 <= a < 11,
                -11 <= b <= 11,
                src.wf(),
                list@.len() >= 1,
                list@[0] == first,
                forall|i: int| 0 <= i < list@.len() ==> (#[trigger] list@[i]).wf(),
                forall|i: int|
                    1 <= i < list@.len() ==> (#[trigger] list@[i]).radius == SMALL_RADIUS
                        && list@[i].center.y == SMALL_RADIUS,
            decreases 11 - b,
        {
            if let Some(s) = grid_sphere(a, b, src) {
                list.push(s);
            }
            b = b + 1;
        }
        a = a + 1;
    }
    let glass = Dielectric::new(GLASS);
    list.push(Sphere::new(Vec3::new(0, SCALE, 0), SCALE, Material::Dielectric(glass)));
    let matte = Lambertian::new(Vec3::new(400_000, 200_000, 100_000));
    list.push(Sphere::new(Vec3::new(-4 * SCALE, SCALE, 0), SCALE, Material::Lambertian(matte)));
    let metal = Metal::new(Vec3::new(700_000, 600_000, 500_000), 0);
    list.push(Sphere::new(Vec3::new(4 * SCALE, SCALE, 0), SCALE, Material::Metal(metal)));
    HitableList::new(list)
}

} // verus!
