use raytracer::camera::Camera;
use raytracer::driver::{Action, PixelJob};
use raytracer::fixed::{fdiv, fmul, fsqrt, isqrt, SCALE};
use raytracer::hitable::{HitRecord, Hitable, HitableList, Sphere};
use raytracer::material::{reflect, refract, schlick, Dielectric, DummyMat, Lambertian, Material, Metal};
use raytracer::random::{drand48, random_in_unit_disk, random_in_unit_sphere, sphere_candidate, Source};
use raytracer::scene::{random_scene, GLASS, SMALL_RADIUS};
use raytracer::ray::Ray;
use raytracer::render::{
    background, channel, color, get_color, render_pixel, sample_coord, sum_samples, to_rgb,
};
use raytracer::vec3::{cross, dot, unit_vector, Vec3};

const S: i64 = SCALE;

fn v(x: i64, y: i64, z: i64) -> Vec3 {
    Vec3::new(x, y, z)
}

fn lambert(a: Vec3) -> Material {
    Material::Lambertian(Lambertian::new(a))
}

#[test]
fn fixed_point_arithmetic() {
    assert_eq!(fmul(3 * S / 2, 2 * S), 3 * S);
    assert_eq!(fmul(-S / 2, S / 2), -S / 4);
    assert_eq!(fdiv(S, 4 * S), S / 4);
    assert_eq!(fdiv(-S, 2 * S), -S / 2);
    assert_eq!(fsqrt(4 * S), 2 * S);
    assert_eq!(fsqrt(S / 4), S / 2);
    assert_eq!(isqrt(99), 9);
    assert_eq!(isqrt(100), 10);
}

#[test]
fn vector_algebra() {
    let a = v(S, 2 * S, 3 * S);
    let b = v(4 * S, -5 * S, 6 * S);
    assert_eq!(dot(&a, &b), 12 * S);
    assert_eq!(cross(&v(S, 0, 0), &v(0, S, 0)), v(0, 0, S));
    assert_eq!(a.add(&b), v(5 * S, -3 * S, 9 * S));
    assert_eq!(a.sub(&b), v(-3 * S, 7 * S, -3 * S));
    assert_eq!(a.mul(&b), v(4 * S, -10 * S, 18 * S));
    assert_eq!(a.scale(2 * S), v(2 * S, 4 * S, 6 * S));
    assert_eq!(b.div(&v(2 * S, 5 * S, -3 * S)), v(2 * S, -S, -2 * S));
    assert_eq!(a.div_scalar(2 * S), v(S / 2, S, 3 * S / 2));
    assert_eq!(v(3 * S, 4 * S, 0).len(), 5 * S);
    assert_eq!(v(3 * S, 4 * S, 0).squared_len(), 25 * S);
    assert_eq!(unit_vector(&v(0, 0, -7 * S)), v(0, 0, -S));
    assert_eq!((a.x(), a.y(), a.z()), (S, 2 * S, 3 * S));
}

#[test]
fn ray_accessors_and_points() {
    let r = Ray::new(&v(S, 0, 0), &v(0, 2 * S, 0));
    assert_eq!(*r.origin(), v(S, 0, 0));
    assert_eq!(*r.direction(), v(0, 2 * S, 0));
    assert_eq!(r.point_at_parameter(3 * S / 2), v(S, 3 * S, 0));
}

#[test]
fn nearest_hit_of_unit_sphere_scenario() {
    let s = Sphere::new(v(0, 0, -S), S / 2, lambert(v(S / 2, S / 2, S / 2)));
    let r = Ray::new(&v(0, 0, 0), &v(0, 0, -S));
    let h = s.hit(&r, 0, raytracer::fixed::LIMIT).expect("the ray meets the sphere");
    assert_eq!(h.t, S / 2);
    assert_eq!(h.p, v(0, 0, -S / 2));
    assert_eq!(h.normal, v(0, 0, S));
}

#[test]
fn ray_leaving_surface_outward_misses() {
    let s = Sphere::new(v(0, 0, 0), S, lambert(v(S, S, S)));
    let r = Ray::new(&v(S, 0, 0), &v(S, S / 3, 0));
    assert!(s.hit(&r, 100, raytracer::fixed::LIMIT).is_none());
    let r2 = Ray::new(&v(0, 0, -S), &v(0, S / 5, -S));
    assert!(s.hit(&r2, 100, raytracer::fixed::LIMIT).is_none());
}

#[test]
fn sphere_from_inside_hits_far_side() {
    let s = Sphere::new(v(0, 0, 0), S, lambert(v(S, S, S)));
    let r = Ray::new(&v(0, 0, 0), &v(S, 0, 0));
    let h = s.hit(&r, 1000, raytracer::fixed::LIMIT).unwrap();
    assert_eq!(h.t, S);
    assert_eq!(h.normal, v(S, 0, 0));
    assert!(s.hit(&r, 1000, S / 2).is_none());
}

#[test]
fn list_keeps_nearest_in_any_order() {
    let near = Sphere::new(v(0, 0, -2 * S), S / 2, lambert(v(S, 0, 0)));
    let far = Sphere::new(v(0, 0, -5 * S), S / 2, lambert(v(0, S, 0)));
    let r = Ray::new(&v(0, 0, 0), &v(0, 0, -S));
    let a = HitableList::new(vec![far, near]).hit(&r, 1000, raytracer::fixed::LIMIT).unwrap();
    let b = HitableList::new(vec![near, far]).hit(&r, 1000, raytracer::fixed::LIMIT).unwrap();
    assert_eq!(a.t, 3 * S / 2);
    assert_eq!(a, b);
    assert!(HitableList::new(vec![]).hit(&r, 1000, raytracer::fixed::LIMIT).is_none());
}

#[test]
fn reflect_scenario() {
    assert_eq!(reflect(&v(S, -S, 0), &v(0, S, 0)), v(S, S, 0));
}

#[test]
fn metal_without_fuzz_reflects_head_on_ray_back() {
    let albedo = v(8 * S / 10, 6 * S / 10, 2 * S / 10);
    let m = Material::Metal(Metal::new(albedo, 0));
    let rec = HitRecord { t: S, p: v(0, 0, 0), normal: v(0, S, 0), mat: m };
    let r_in = Ray::new(&v(0, 3 * S, 0), &v(0, -2 * S, 0));
    let (att, out) = m.scatter_with(&r_in, &rec, &v(S / 3, -S / 3, S / 3), 0).unwrap();
    assert_eq!(att, albedo);
    assert_eq!(out, Ray::new(&v(0, 0, 0), &v(0, S, 0)));
}

#[test]
fn metal_fuzz_is_clamped() {
    assert_eq!(Metal::new(v(0, 0, 0), 3 * S).fuzz, S);
    assert_eq!(Metal::new(v(0, 0, 0), S / 4).fuzz, S / 4);
    assert_eq!(Metal::new(v(0, 0, 0), -S).fuzz, 0);
}

#[test]
fn metal_absorbs_grazing_reflection_below_surface() {
    let m = Material::Metal(Metal::new(v(S, S, S), S));
    let rec = HitRecord { t: S, p: v(0, 0, 0), normal: v(0, S, 0), mat: m };
    let r_in = Ray::new(&v(-S, S / 100, 0), &v(S, -S / 100, 0));
    assert!(m.scatter_with(&r_in, &rec, &v(0, -9 * S / 10, 0), 0).is_none());
}

#[test]
fn lambertian_scatters_along_normal_plus_point() {
    let m = Material::Lambertian(Lambertian::new(v(S / 2, S / 4, S)));
    let rec = HitRecord { t: S, p: v(S, 0, 0), normal: v(S, 0, 0), mat: m };
    let r_in = Ray::new(&v(3 * S, 0, 0), &v(-S, 0, 0));
    let (att, out) = m.scatter_with(&r_in, &rec, &v(0, S / 2, 0), 123).unwrap();
    assert_eq!(att, v(S / 2, S / 4, S));
    assert_eq!(out, Ray::new(&v(S, 0, 0), &v(S, S / 2, 0)));
}

#[test]
fn dielectric_of_index_one_does_not_bend() {
    assert_eq!(schlick(S, S), 0);
    assert_eq!(refract(&v(0, -S, 0), &v(0, S, 0), S), Some(v(0, -S, 0)));
    let bent = refract(&v(S, -S, 0), &v(0, S, 0), S).unwrap();
    let straight = unit_vector(&v(S, -S, 0));
    assert!((bent.x - straight.x).abs() <= 2);
    assert!((bent.y - straight.y).abs() <= 2);
    assert_eq!(bent.z, 0);
    let m = Material::Dielectric(Dielectric::new(S));
    let rec = HitRecord { t: S, p: v(0, 0, 0), normal: v(0, S, 0), mat: m };
    let r_in = Ray::new(&v(0, S, 0), &v(0, -S, 0));
    let (att, out) = m.scatter_with(&r_in, &rec, &v(0, 0, 0), 0).unwrap();
    assert_eq!(att, v(S, S, S));
    assert_eq!(out.b, v(0, -S, 0));
}

#[test]
fn schlick_formula_values() {
    // r0 = ((1 - 1.5) / 2.5)^2 = 0.04; at cosine 0: 0.04 + 0.96 = 1
    assert_eq!(schlick(S, 3 * S / 2), 40_000);
    assert_eq!(schlick(0, 3 * S / 2), S);
    // cosine 0.5: 0.04 + 0.96 / 32 = 0.07
    assert_eq!(schlick(S / 2, 3 * S / 2), 70_000);
}

#[test]
fn dielectric_total_internal_reflection() {
    let m = Material::Dielectric(Dielectric::new(3 * S / 2));
    let rec = HitRecord { t: S, p: v(0, 0, 0), normal: v(0, S, 0), mat: m };
    // leaving the glass at a grazing angle: no refraction, so it reflects
    let r_in = Ray::new(&v(-S, -S / 10, 0), &v(S, S / 10, 0));
    let (att, out) = m.scatter_with(&r_in, &rec, &v(0, 0, 0), S - 1).unwrap();
    assert_eq!(att, v(S, S, S));
    assert_eq!(out.b, reflect(&v(S, S / 10, 0), &v(0, S, 0)));
    assert!(refract(&v(S, S / 10, 0), &v(0, -S, 0), 3 * S / 2).is_none());
}

#[test]
fn material_names() {
    assert_eq!(Material::Dummy(DummyMat::new()).name(), "dummy");
    assert_eq!(lambert(v(0, 0, 0)).name(), "lambertian");
    assert_eq!(Material::Metal(Metal::new(v(0, 0, 0), 0)).name(), "metal");
    assert_eq!(Material::Dielectric(Dielectric::new(S)).name(), "dielectric");
}

#[test]
fn background_gradient_scenario() {
    assert_eq!(background(&Ray::new(&v(0, 0, 0), &v(0, S, 0))), v(S / 2, 7 * S / 10, S));
    assert_eq!(background(&Ray::new(&v(0, 0, 0), &v(0, -S, 0))), v(S, S, S));
    assert_eq!(background(&Ray::new(&v(0, 0, 0), &v(S, 0, 0))), v(3 * S / 4, 85 * S / 100, S));
}

#[test]
fn color_of_empty_scene_is_sky() {
    let world = HitableList::new(vec![]);
    let r = Ray::new(&v(0, 0, 0), &v(0, 5 * S, 0));
    assert_eq!(color(&r, &world, 0, &mut Source::Thread), v(S / 2, 7 * S / 10, S));
}

#[test]
fn color_past_depth_limit_is_black() {
    let world = HitableList::new(vec![Sphere::new(v(0, 0, -S), S / 2, lambert(v(S, S, S)))]);
    let r = Ray::new(&v(0, 0, 0), &v(0, 0, -S));
    assert_eq!(color(&r, &world, 50, &mut Source::Thread), v(0, 0, 0));
}

#[test]
fn color_of_black_body_is_black() {
    let world = HitableList::new(vec![Sphere::new(v(0, 0, -S), S / 2, lambert(v(0, 0, 0)))]);
    let r = Ray::new(&v(0, 0, 0), &v(0, 0, -S));
    assert_eq!(color(&r, &world, 0, &mut Source::Thread), v(0, 0, 0));
}

#[test]
fn camera_rays() {
    let cam = Camera::new();
    let r = cam.get_ray_with(S / 2, S / 2, &v(0, 0, 0));
    assert_eq!(r, Ray::new(&v(0, 0, 0), &v(0, 0, -S)));
    let f = Camera::with_fov(S, 2 * S);
    assert_eq!(f.lower_left_corner, v(-2 * S, -S, -S));
    assert_eq!(f.horizontal, v(4 * S, 0, 0));
    assert_eq!(f.vertical, v(0, 2 * S, 0));
    let l = Camera::with_lookat(&v(0, 0, 0), &v(0, 0, -S), &v(0, S, 0), S, 2 * S);
    assert_eq!(l.lower_left_corner, v(-2 * S, -S, -S));
    assert_eq!(l.lens_radius, 0);
    let c = Camera::with_focus(&v(0, 0, 0), &v(0, 0, -S), &v(0, S, 0), S, S, 2 * S, 2 * S);
    assert_eq!(c.lens_radius, S);
    assert_eq!(c.lower_left_corner, v(-2 * S, -2 * S, -2 * S));
    assert_eq!(c.horizontal, v(4 * S, 0, 0));
    assert_eq!((c.u, c.v, c.w), (v(S, 0, 0), v(0, S, 0), v(0, 0, S)));
    // a lens offset moves the origin but keeps the focus point
    let r = c.get_ray_with(S / 2, S / 2, &v(S / 2, 0, 0));
    assert_eq!(r.a, v(S / 2, 0, 0));
    assert_eq!(r.b, v(-S / 2, 0, -2 * S));
    for _ in 0..50 {
        let g = c.get_ray(S / 2, S / 2, &mut Source::Thread);
        assert_eq!(g.a.add(&g.b), v(0, 0, -2 * S));
    }
}

#[test]
fn random_draws_in_range_and_varying() {
    let mut seen = std::collections::HashSet::new();
    for _ in 0..200 {
        let d = drand48();
        assert!(0 <= d && d < S);
        seen.insert(d);
    }
    assert!(seen.len() > 100);
    for _ in 0..200 {
        let p = random_in_unit_sphere(&mut Source::Thread);
        assert!(p.squared_len() < S);
        let q = random_in_unit_disk(&mut Source::Thread);
        assert!(q.squared_len() < S && q.z == 0);
    }
    assert_eq!(sphere_candidate(S / 2, S / 2, S / 2), Some(v(0, 0, 0)));
    assert_eq!(sphere_candidate(0, 0, 0), None);
}

#[test]
fn sample_coordinates() {
    assert_eq!(sample_coord(0, 0, 4), 0);
    assert_eq!(sample_coord(1, S / 2, 4), 375_000);
    assert_eq!(sample_coord(3, S - 1, 4), 999_999);
}

#[test]
fn sum_is_order_independent() {
    let a = vec![v(S, 0, 3), v(1, 2, 3), v(S / 2, S / 3, S)];
    let b = vec![a[2], a[0], a[1]];
    assert_eq!(sum_samples(&a), sum_samples(&b));
    assert_eq!(sum_samples(&a), v(S + S / 2 + 1, S / 3 + 2, S + 6));
}

#[test]
fn tone_mapping_values() {
    assert_eq!(channel(0, 1), 0);
    assert_eq!(channel(100 * S, 100), 255);
    assert_eq!(channel(S / 4, 1), 127);
    assert_eq!(to_rgb(&v(4 * S, S, 0), 4), (255, 127, 0));
}

fn demo_world() -> HitableList {
    HitableList::new(vec![
        Sphere::new(v(0, -100 * S - S / 2, -S), 100 * S, lambert(v(8 * S / 10, 8 * S / 10, 0))),
        Sphere::new(v(0, 0, -S), S / 2, lambert(v(S / 10, S / 5, S / 2))),
        Sphere::new(v(S, 0, -S), S / 2, Material::Metal(Metal::new(v(8 * S / 10, 6 * S / 10, S / 5), S / 10))),
        Sphere::new(v(-S, 0, -S), S / 2, Material::Dielectric(Dielectric::new(3 * S / 2))),
    ])
}

fn stand_in() -> Source {
    Source::fixed(vec![123_456, 987_654, 500_000, 31_415, 271_828, 777_777, 5, 999_999, 424_242])
        .expect("draws in range")
}

#[test]
fn pixel_with_deterministic_source_is_repeatable() {
    let world = demo_world();
    let cam = Camera::with_focus(&v(-2 * S, 2 * S, S), &v(0, 0, -S), &v(0, S, 0), S / 2, 2 * S, S / 5, 3 * S);
    let first = render_pixel(3, 2, 8, 4, 1, &cam, &world, &mut stand_in());
    let second = render_pixel(3, 2, 8, 4, 1, &cam, &world, &mut stand_in());
    assert_eq!(first, second);
    let many_a = render_pixel(5, 1, 8, 4, 20, &cam, &world, &mut stand_in());
    let many_b = render_pixel(5, 1, 8, 4, 20, &cam, &world, &mut stand_in());
    assert_eq!(many_a, many_b);
    let c1 = get_color(1, 1, 8, 4, &cam, &world, &mut stand_in());
    let c2 = get_color(1, 1, 8, 4, &cam, &world, &mut stand_in());
    assert_eq!(c1, c2);
}

#[test]
fn fixed_source_cycles_and_validates() {
    let mut src = Source::fixed(vec![1, 2, 3]).unwrap();
    let drawn: Vec<i64> = (0..7).map(|_| src.draw()).collect();
    assert_eq!(drawn, vec![1, 2, 3, 1, 2, 3, 1]);
    assert!(Source::fixed(vec![]).is_none());
    assert!(Source::fixed(vec![0, S]).is_none());
    assert!(Source::fixed(vec![-1]).is_none());
    // a draw of one half maps to the centre of the cube, which is accepted
    let mut half = Source::fixed(vec![S / 2]).unwrap();
    assert_eq!(random_in_unit_sphere(&mut half), v(0, 0, 0));
    // corners are rejected until the cycle reaches the centre
    let mut corners = Source::fixed(vec![0, 0, 0, S / 2, S / 2, S / 2]).unwrap();
    assert_eq!(random_in_unit_sphere(&mut corners), v(0, 0, 0));
    assert_eq!(corners.draw(), 0);
    // a source that never lands inside falls back to the centre
    let mut never = Source::fixed(vec![0]).unwrap();
    assert_eq!(random_in_unit_disk(&mut never), v(0, 0, 0));
}

#[test]
fn demonstration_scene_layout() {
    let w = random_scene(&mut Source::Thread);
    let n = w.list.len();
    assert!(n >= 4);
    assert_eq!(w.list[0].radius, 1000 * S);
    assert_eq!(w.list[n - 3].mat, Material::Dielectric(Dielectric::new(GLASS)));
    assert_eq!(w.list[n - 1].center, v(4 * S, S, 0));
    for s in &w.list[1..n - 3] {
        assert_eq!(s.radius, SMALL_RADIUS);
        assert_eq!(s.center.y, SMALL_RADIUS);
    }
    let a = random_scene(&mut stand_in());
    let b = random_scene(&mut stand_in());
    assert_eq!(a.list, b.list);
}

#[test]
fn render_is_repeatable_with_fixed_samples() {
    let samples = vec![v(S / 4, S / 2, S)];
    assert_eq!(to_rgb(&sum_samples(&samples), 1), to_rgb(&sum_samples(&samples), 1));
    let m = Material::Dielectric(Dielectric::new(3 * S / 2));
    let rec = HitRecord { t: S, p: v(0, 0, 0), normal: v(0, S, 0), mat: m };
    let r_in = Ray::new(&v(-S, S, 0), &v(S, -S, 0));
    let p = v(S / 5, S / 7, -S / 3);
    assert_eq!(m.scatter_with(&r_in, &rec, &p, S / 3), m.scatter_with(&r_in, &rec, &p, S / 3));
    let cam = Camera::with_focus(&v(13 * S, 2 * S, 3 * S), &v(0, 0, 0), &v(0, S, 0), S / 4, 3 * S / 2, S / 10, 10 * S);
    assert_eq!(cam.get_ray_with(S / 3, S / 5, &p), cam.get_ray_with(S / 3, S / 5, &p));
}

#[test]
fn pixels_stay_in_byte_range() {
    let world = HitableList::new(vec![
        Sphere::new(v(0, -1000 * S, 0), 1000 * S, lambert(v(S / 2, S / 2, S / 2))),
        Sphere::new(v(0, S, 0), S, Material::Dielectric(Dielectric::new(3 * S / 2))),
        Sphere::new(v(-4 * S, S, 0), S, lambert(v(S, S, S))),
        Sphere::new(v(4 * S, S, 0), S, Material::Metal(Metal::new(v(S, S, S), 0))),
    ]);
    let cam = Camera::with_focus(&v(13 * S, 2 * S, 3 * S), &v(0, 0, 0), &v(0, S, 0), 267_949, 3 * S / 2, S / 10, 10 * S);
    for (i, j) in [(0u32, 0u32), (5, 3), (9, 9), (4, 6)] {
        let (r, g, b) = render_pixel(i, j, 10, 10, 100, &cam, &world, &mut Source::Thread);
        for c in [r, g, b] {
            assert!((0..=255).contains(&c));
        }
    }
    let c = get_color(5, 5, 10, 10, &cam, &world, &mut Source::Thread);
    assert!(c.x >= 0 && c.x <= S && c.y >= 0 && c.y <= S && c.z >= 0 && c.z <= S);
}

#[test]
fn driver_sends_round_robin_then_collects() {
    let mut job = PixelJob::new(5, 2);
    let mut sent_to = vec![];
    while let Action::Send(w) = job.next_action() {
        sent_to.push(w);
        job.mark_sent();
    }
    assert_eq!(sent_to, vec![0, 1, 0, 1, 0]);
    let colors = [v(S, 0, 0), v(0, S, 0), v(0, 0, S), v(S, S, S), v(0, 0, 0)];
    for c in colors.iter().rev() {
        assert_eq!(job.next_action(), Action::Receive);
        job.receive(*c);
    }
    assert_eq!(job.next_action(), Action::Finish);
    // sums (2, 2, 2) over 5 samples: sqrt(0.4) = 0.632455, times 255.99
    assert_eq!(job.finish(), (161, 161, 161));
}
