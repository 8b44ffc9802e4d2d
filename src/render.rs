//! The radiance estimator: recursive light transport, the sky gradient,
//! and per-pixel sampling, averaging and tone mapping.
use vstd::prelude::*;
use crate::camera::Camera;
use crate::fixed::{
    add_spec, clamp, fadd, fmul, fsqrt, in_range, mul_spec, sqrt_spec, tdiv, LIMIT, SCALE,
};
use crate::hitable::{scan_spec, HitRecord, Hitable, HitableList};
use crate::camera::ray_spec;
use crate::material::{is_albedo, scatter_draw_spec, scatter_spec, white, zero};
use crate::random::{
    cursor, disk_sample_spec, draw_spec, in_unit_sphere, moves, pos_of, Source, MAX_TRIES,
};
use crate::ray::Ray;
use crate::vec3::{add_vec, len_spec, mul_vec, scale_vec, unit_spec, unit_vector, Vec3};

verus! {

/// Hits nearer than this are ignored, so a scattered ray does not meet
/// the surface it leaves.
pub const T_MIN: i64 = 1000;

/// Bounces after which a path carries no more light.
pub const MAX_DEPTH: i32 = 50;

/// The horizon color is white; straight up it is this blue.
pub open spec fn sky_blue() -> Vec3 {
    Vec3 { x: 500_000, y: 700_000, z: SCALE }
}

/// The blend factor of the sky for direction `d`: `0.5 (y + 1)` for the
/// unit direction's `y`, kept in `[0, 1]`; a zero direction counts as level.
pub open spec fn sky_t(d: Vec3) -> int {
    let y = if len_spec(d) == 0 {
        0
    } else {
        unit_spec(d).y as int
    };
    let t = mul_spec(SCALE / 2, add_spec(y, SCALE as int));
    if t < 0 {
        0
    } else if t > SCALE {
        SCALE as int
    } else {
        t
    }
}

/// The sky seen along direction `d`: `(1 - t) white + t blue`.
pub open spec fn sky_spec(d: Vec3) -> Vec3 {
    let t = sky_t(d);
    add_vec(scale_vec(white(), SCALE - t), scale_vec(sky_blue(), t))
}

/// The nearest hit of `r` in the scene, beyond `T_MIN`.
pub open spec fn world_hit_spec(world: HitableList, r: Ray) -> Option<HitRecord> {
    scan_spec(world.list@, world.list@.len() as int, r, T_MIN as int, LIMIT as int)
}

pub proof fn lemma_mul_unit(a: int, b: int)
    requires
        0 <= a <= SCALE,
        0 <= b <= SCALE,
    ensures
        0 <= mul_spec(a, b) <= b,
        mul_spec(a, b) <= a,
        mul_spec(SCALE as int, b) == b,
{
    assert(0 <= a * b <= SCALE * b) by (nonlinear_arith)
        requires
            0 <= a <= SCALE,
            0 <= b,
    ;
    assert(a * b <= a * SCALE) by (nonlinear_arith)
        requires
            0 <= a,
            0 <= b <= SCALE,
    ;
    vstd::arithmetic::div_mod::lemma_div_is_ordered(a * b, SCALE * b, SCALE as int);
    vstd::arithmetic::div_mod::lemma_div_is_ordered(a * b, a * SCALE, SCALE as int);
    vstd::arithmetic::div_mod::lemma_div_by_multiple(b, SCALE as int);
    vstd::arithmetic::div_mod::lemma_div_by_multiple(a, SCALE as int);
    assert(SCALE * b == b * SCALE) by (nonlinear_arith);
    assert(a * SCALE / (SCALE as int) == a);
}

/// The product of two colors in `[0, 1]` stays in `[0, 1]`.
pub proof fn lemma_mul_albedo(a: Vec3, b: Vec3)
    requires
        is_albedo(a),
        is_albedo(b),
    ensures
        is_albedo(mul_vec(a, b)),
{
    lemma_mul_unit(a.x as int, b.x as int);
    lemma_mul_unit(a.y as int, b.y as int);
    lemma_mul_unit(a.z as int, b.z as int);
}

/// The sky gradient for the direction of `r`.
pub fn background(r: &Ray) -> (c: Vec3)
    requires
        r.wf(),
    ensures
        c == sky_spec(r.b),
        is_albedo(c),
        c.wf(),
{
    let y: i64 = if r.b.len() == 0 {
        0
    } else {
        unit_vector(&r.b).y
    };
    let t0 = fmul(SCALE / 2, fadd(y, SCALE));
    let t: i64 = if t0 < 0 {
        0
    } else if t0 > SCALE {
        SCALE
    } else {
        t0
    };
    proof {
        lemma_mul_unit(SCALE as int, SCALE - t);
        lemma_mul_unit(500_000, t as int);
        lemma_mul_unit(700_000, t as int);
        lemma_mul_unit(SCALE as int, t as int);
        lemma_mul_unit(t as int, 500_000);
        lemma_mul_unit(t as int, 700_000);
    }
    let white = Vec3::new(SCALE, SCALE, SCALE);
    let blue = Vec3::new(500_000, 700_000, SCALE);
    white.scale(SCALE - t).add(&blue.scale(t))
}

/// The light carried back along `r` through `world` with draws from a
/// cycle read at `pos`, and the position after it.
pub open spec fn color_spec(r: Ray, world: HitableList, depth: int, vals: Seq<i64>, pos: int) -> (
    Vec3,
    int,
)
    decreases MAX_DEPTH - depth,
{
    match world_hit_spec(world, r) {
        None => (sky_spec(r.b), pos),
        Some(rec) => if depth < MAX_DEPTH {
            let (s, p1) = scatter_draw_spec(rec.mat, r, rec, vals, pos);
            match s {
                Some((att, scattered)) => {
                    let (k, p2) = color_spec(scattered, world, depth + 1, vals, p1);
                    (mul_vec(att, k), p2)
                },
                None => (zero(), p1),
            }
        } else {
            (zero(), pos)
        },
    }
}

/// The light carried back along `r` through `world`, `depth` bounces in.
/// A miss sees the sky; past `MAX_DEPTH` bounces, or on absorption, the
/// path is black; otherwise the material's attenuation multiplies the
/// light of the scattered ray. With a fixed source the result is
/// `color_spec`.
pub fn color(r: &Ray, world: &HitableList, depth: i32, src: &mut Source) -> (c: Vec3)
    requires
        r.wf(),
        world.wf(),
        old(src).wf(),
    ensures
        final(src).wf(),
        is_albedo(c),
        c.wf(),
        world_hit_spec(*world, *r) is None ==> c == sky_spec(r.b),
        world_hit_spec(*world, *r) is Some && depth >= MAX_DEPTH ==> c == zero(),
        world_hit_spec(*world, *r) matches Some(rec) ==> depth >= MAX_DEPTH || exists|
            p: Vec3,
            u: int,
        |
            in_unit_sphere(p) && 0 <= u < SCALE && match #[trigger] scatter_spec(
                rec.mat,
                *r,
                rec,
                p,
                u,
            ) {
                None => c == zero(),
                Some((att, _)) => exists|k: Vec3| is_albedo(k) && c == mul_vec(att, k),
            },
        cursor(*old(src)) matches Some((v, pos)) ==> (c, pos_of(*final(src))) == color_spec(
            *r,
            *world,
            depth as int,
            v,
            pos,
        ),
        moves(*old(src), *final(src), pos_of(*final(src))),
    decreases MAX_DEPTH - depth,
{
    match world.hit(r, T_MIN, LIMIT) {
        Some(rec) => {
            if depth < MAX_DEPTH {
                let s = rec.mat.scatter(r, &rec, src);
                let ghost pu = choose|p: Vec3, u: int|
                    in_unit_sphere(p) && 0 <= u < SCALE && s == scatter_spec(rec.mat, *r, rec, p, u);
                match s {
                    Some((att, scattered)) => {
                        let k = color(&scattered, world, depth + 1, src);
                        proof {
                            lemma_mul_albedo(att, k);
                            assert(scatter_spec(rec.mat, *r, rec, pu.0, pu.1) == s);
                        }
                        att.mul(&k)
                    },
                    None => {
                        proof {
                            assert(scatter_spec(rec.mat, *r, rec, pu.0, pu.1) == s);
                        }
                        Vec3::new(0, 0, 0)
                    },
                }
            } else {
                Vec3::new(0, 0, 0)
            }
        },
        None => background(r),
    }
}

/// The image-plane coordinate `(i + d) / n` of pixel index `i` out of
/// `n`, jittered by a draw `d` from `[0, 1)`.
pub fn sample_coord(i: u32, d: i64, n: u32) -> (r: i64)
    requires
        i < n,
        0 <= d < SCALE,
    ensures
        r == (i * SCALE + d) / (n as int),
        0 <= r < SCALE,
{
    proof {
        assert(i * SCALE + d < n * SCALE) by (nonlinear_arith)
            requires
                i < n,
                0 <= d < SCALE,
        ;
        vstd::arithmetic::div_mod::lemma_div_is_ordered(
            i * SCALE + d,
            n * SCALE,
            n as int,
        );
        vstd::arithmetic::div_mod::lemma_div_by_multiple(SCALE as int, n as int);
        assert(n * SCALE == SCALE * n) by (nonlinear_arith);
        assert((i * SCALE + d) / (n as int) <= SCALE);
        vstd::arithmetic::div_mod::lemma_fundamental_div_mod(i * SCALE + d, n as int);
        if (i * SCALE + d) / (n as int) == SCALE {
            assert(n * SCALE <= i * SCALE + d) by (nonlinear_arith)
                requires
                    (i * SCALE + d) / (n as int) == SCALE,
                    i * SCALE + d == n * ((i * SCALE + d) / (n as int)) + (i * SCALE + d) % (n as int),
                    0 <= (i * SCALE + d) % (n as int),
            ;
        }
    }
    let v: u64 = (i as u64) * (SCALE as u64) + (d as u64);
    (v / (n as u64)) as i64
}

/// One sample of pixel `(i, j)` from a cycle of draws read at `pos`, and
/// the position after it.
pub open spec fn sample_spec(
    i: int,
    j: int,
    nx: int,
    ny: int,
    cam: Camera,
    world: HitableList,
    vals: Seq<i64>,
    pos: int,
) -> (Vec3, int) {
    let (du, p1) = draw_spec(vals, pos);
    let (dv, p2) = draw_spec(vals, p1);
    let (rd, p3) = disk_sample_spec(vals, p2, MAX_TRIES as nat);
    let r = ray_spec(cam, (i * SCALE + du) / nx, (j * SCALE + dv) / ny, rd);
    color_spec(r, world, 0, vals, p3)
}

/// One sample of pixel `(i, j)` of an `nx` by `ny` image: a jittered ray
/// through the pixel, traced through `world`.
pub fn get_color(
    i: u32,
    j: u32,
    nx: u32,
    ny: u32,
    cam: &Camera,
    world: &HitableList,
    src: &mut Source,
) -> (c: Vec3)
    requires
        i < nx,
        j < ny,
        cam.wf(),
        world.wf(),
        old(src).wf(),
    ensures
        final(src).wf(),
        is_albedo(c),
        c.wf(),
        cursor(*old(src)) matches Some((v, pos)) ==> (c, pos_of(*final(src))) == sample_spec(
            i as int,
            j as int,
            nx as int,
            ny as int,
            *cam,
            *world,
            v,
            pos,
        ),
        moves(*old(src), *final(src), pos_of(*final(src))),
{
    let du = src.draw();
    let u = sample_coord(i, du, nx);
    let dv = src.draw();
    let v = sample_coord(j, dv, ny);
    let r = cam.get_ray(u, v, src);
    color(&r, world, 0, src)
}

/// Component `k` (0, 1 or 2) of `v`.
pub open spec fn comp(v: Vec3, k: int) -> int {
    if k == 0 {
        v.x as int
    } else if k == 1 {
        v.y as int
    } else {
        v.z as int
    }
}

/// The sum of component `k` over the samples.
pub open spec fn chan_sum(s: Seq<Vec3>, k: int) -> int
    decreases s.len(),
{
    if s.len() == 0 {
        0
    } else {
        chan_sum(s.drop_last(), k) + comp(s.last(), k)
    }
}

/// The componentwise sum of the samples.
pub open spec fn sum_spec(s: Seq<Vec3>) -> Vec3 {
    Vec3 { x: chan_sum(s, 0) as i64, y: chan_sum(s, 1) as i64, z: chan_sum(s, 2) as i64 }
}

proof fn lemma_chan_sum_remove(s: Seq<Vec3>, i: int, k: int)
    requires
        0 <= i < s.len(),
    ensures
        chan_sum(s, k) == chan_sum(s.remove(i), k) + comp(s[i], k),
    decreases s.len(),
{
    if i == s.len() - 1 {
        assert(s.remove(i) =~= s.drop_last());
    } else {
        let t = s.drop_last();
        lemma_chan_sum_remove(t, i, k);
        assert(s.remove(i).drop_last() =~= t.remove(i));
        assert(s.remove(i).last() == s.last());
        assert(t[i] == s[i]);
    }
}

proof fn lemma_chan_sum_permutation(s1: Seq<Vec3>, s2: Seq<Vec3>, k: int)
    requires
        s1.to_multiset() == s2.to_multiset(),
    ensures
        chan_sum(s1, k) == chan_sum(s2, k),
    decreases s1.len(),
{
    broadcast use vstd::seq_lib::group_to_multiset_ensures;

    if s1.len() == 0 {
        assert(s1.to_multiset().len() == s1.len());
        assert(s2.to_multiset().len() == s2.len());
    } else {
        let n = s1.len() - 1;
        let x = s1[n];
        assert(s1.to_multiset().count(x) > 0);
        assert(s2.contains(x));
        let i = choose|i: int| 0 <= i < s2.len() && s2[i] == x;
        lemma_chan_sum_remove(s2, i, k);
        lemma_chan_sum_remove(s1, n, k);
        assert(s1.remove(n).to_multiset() == s1.to_multiset().remove(x));
        assert(s2.remove(i).to_multiset() == s2.to_multiset().remove(x));
        lemma_chan_sum_permutation(s1.remove(n), s2.remove(i), k);
    }
}

/// Accumulation does not depend on the order in which samples arrive: two
/// sequences holding the same samples, each as often, sum to the same color.
pub proof fn lemma_sum_order_invariant(s1: Seq<Vec3>, s2: Seq<Vec3>)
    requires
        s1.to_multiset() == s2.to_multiset(),
    ensures
        sum_spec(s1) == sum_spec(s2),
{
    lemma_chan_sum_permutation(s1, s2, 0);
    lemma_chan_sum_permutation(s1, s2, 1);
    lemma_chan_sum_permutation(s1, s2, 2);
}

/// Most samples a pixel may take.
pub const MAX_SAMPLES: u32 = 1_000_000_000;

/// Each channel of a sum of colors in `[0, 1]` lies in `[0, n]` for `n`
/// samples.
pub proof fn lemma_chan_sum_bounds(s: Seq<Vec3>, k: int)
    requires
        forall|i: int| 0 <= i < s.len() ==> is_albedo(#[trigger] s[i]),
    ensures
        0 <= chan_sum(s, k) <= s.len() * SCALE,
    decreases s.len(),
{
    if s.len() > 0 {
        let t = s.drop_last();
        assert forall|i: int| 0 <= i < t.len() implies is_albedo(#[trigger] t[i]) by {
            assert(t[i] == s[i]);
        }
        lemma_chan_sum_bounds(t, k);
        assert(is_albedo(s[s.len() - 1]));
    }
}

/// Accumulate sample colors by summation.
pub fn sum_samples(samples: &Vec<Vec3>) -> (r: Vec3)
    requires
        samples@.len() <= MAX_SAMPLES,
        forall|i: int| 0 <= i < samples@.len() ==> is_albedo(#[trigger] samples@[i]),
    ensures
        r == sum_spec(samples@),
        0 <= r.x <= samples@.len() * SCALE,
        0 <= r.y <= samples@.len() * SCALE,
        0 <= r.z <= samples@.len() * SCALE,
{
    let mut acc = Vec3::new(0, 0, 0);
    let mut i: usize = 0;
    while i < samples.len()
        invariant
            i <= samples@.len() <= MAX_SAMPLES,
            forall|j: int| 0 <= j < samples@.len() ==> is_albedo(#[trigger] samples@[j]),
            acc == sum_spec(samples@.take(i as int)),
            0 <= chan_sum(samples@.take(i as int), 0) <= i * SCALE,
            0 <= chan_sum(samples@.take(i as int), 1) <= i * SCALE,
            0 <= chan_sum(samples@.take(i as int), 2) <= i * SCALE,
        decreases samples@.len() - i,
    {
        let ghost t = samples@.take(i as int);
        let ghost t1 = samples@.take(i + 1);
        proof {
            assert(t1.drop_last() == t);
            assert(t1.last() == samples@[i as int]);
            assert(is_albedo(samples@[i as int]));
            assert((i + 1) * SCALE <= MAX_SAMPLES * SCALE) by (nonlinear_arith)
                requires
                    i + 1 <= MAX_SAMPLES,
            ;
        }
        acc = acc.add(&samples[i]);
        i = i + 1;
    }
    proof {
        assert(samples@.take(samples@.len() as int) == samples@);
    }
    acc
}

/// The 8-bit value of a channel whose `ns` samples sum to `v`: the square
/// root of the average (gamma 2), times 255.99, truncated.
pub open spec fn channel_spec(v: int, ns: int) -> int {
    (25599 * sqrt_spec(v / ns)) / (100 * SCALE)
}

/// Tone-map one channel.
pub fn channel(v: i64, ns: u32) -> (r: i32)
    requires
        0 <= v <= LIMIT,
        ns > 0,
    ensures
        r == channel_spec(v as int, ns as int),
        0 <= r,
        v <= ns * SCALE ==> r <= 255,
{
    let avg: i64 = v / (ns as i64);
    let g = fsqrt(avg);
    proof {
        vstd::arithmetic::div_mod::lemma_div_is_ordered(v as int, LIMIT as int, ns as int);
        vstd::arithmetic::div_mod::lemma_div_is_ordered_by_denominator(LIMIT as int, 1, ns as int);
        assert(g <= 40_000_000_000) by (nonlinear_arith)
            requires
                g * g <= avg * SCALE,
                avg <= LIMIT,
                0 <= g,
        ;
        if v <= ns * SCALE {
            vstd::arithmetic::div_mod::lemma_div_is_ordered(v as int, ns * SCALE, ns as int);
            vstd::arithmetic::div_mod::lemma_div_by_multiple(SCALE as int, ns as int);
            assert(ns * SCALE == SCALE * ns) by (nonlinear_arith);
            assert(g <= SCALE) by (nonlinear_arith)
                requires
                    g * g <= avg * SCALE,
                    avg <= SCALE,
                    0 <= g,
            ;
            vstd::arithmetic::div_mod::lemma_div_is_ordered(
                25599 * g,
                25599 * SCALE,
                100 * SCALE,
            );
        }
        vstd::arithmetic::div_mod::lemma_div_is_ordered(
            25599 * g,
            25599 * 40_000_000_000int,
            100 * SCALE,
        );
    }
    let q: i128 = (25599 * (g as i128)) / (100 * SCALE as i128);
    q as i32
}

/// The output color of a pixel whose `ns` samples sum to `sum`.
pub fn to_rgb(sum: &Vec3, ns: u32) -> (r: (i32, i32, i32))
    requires
        0 <= sum.x <= LIMIT,
        0 <= sum.y <= LIMIT,
        0 <= sum.z <= LIMIT,
        ns > 0,
    ensures
        r.0 == channel_spec(sum.x as int, ns as int),
        r.1 == channel_spec(sum.y as int, ns as int),
        r.2 == channel_spec(sum.z as int, ns as int),
        0 <= r.0 && 0 <= r.1 && 0 <= r.2,
        sum.x <= ns * SCALE ==> r.0 <= 255,
        sum.y <= ns * SCALE ==> r.1 <= 255,
        sum.z <= ns * SCALE ==> r.2 <= 255,
{
    (channel(sum.x, ns), channel(sum.y, ns), channel(sum.z, ns))
}

/// The first `n` samples of pixel `(i, j)` from a cycle of draws read at
/// `pos`, and the position after them.
pub open spec fn pixel_samples_spec(
    i: int,
    j: int,
    nx: int,
    ny: int,
    cam: Camera,
    world: HitableList,
    vals: Seq<i64>,
    pos: int,
    n: nat,
) -> (Seq<Vec3>, int)
    decreases n,
{
    if n == 0 {
        (Seq::empty(), pos)
    } else {
        let (s, p1) = pixel_samples_spec(i, j, nx, ny, cam, world, vals, pos, (n - 1) as nat);
        let (c, p2) = sample_spec(i, j, nx, ny, cam, world, vals, p1);
        (s.push(c), p2)
    }
}

/// The output color of pixel `(i, j)` of an `nx` by `ny` image from `ns`
/// samples: the tone-mapped sum of `ns` sample colors, each in `[0, 1]`.
/// Each channel lies in `[0, 255]`. With a fixed source the samples are
/// `pixel_samples_spec`, so the output is a function of the arguments and
/// the source's read position.
pub fn render_pixel(
    i: u32,
    j: u32,
    nx: u32,
    ny: u32,
    ns: u32,
    cam: &Camera,
    world: &HitableList,
    src: &mut Source,
) -> (r: (i32, i32, i32))
    requires
        i < nx,
        j < ny,
        0 < ns <= MAX_SAMPLES,
        cam.wf(),
        world.wf(),
        old(src).wf(),
    ensures
        final(src).wf(),
        0 <= r.0 <= 255,
        0 <= r.1 <= 255,
        0 <= r.2 <= 255,
        exists|samples: Seq<Vec3>|
            samples.len() == ns && (forall|m: int|
                0 <= m < samples.len() ==> is_albedo(#[trigger] samples[m]))
                && r.0 == channel_spec(chan_sum(samples, 0), ns as int)
                && r.1 == channel_spec(chan_sum(samples, 1), ns as int)
                && r.2 == channel_spec(chan_sum(samples, 2), ns as int),
        cursor(*old(src)) matches Some((v, pos)) ==> ({
            let (samples, p1) = pixel_samples_spec(
                i as int,
                j as int,
                nx as int,
                ny as int,
                *cam,
                *world,
                v,
                pos,
                ns as nat,
            );
            &&& r.0 == channel_spec(chan_sum(samples, 0), ns as int)
            &&& r.1 == channel_spec(chan_sum(samples, 1), ns as int)
            &&& r.2 == channel_spec(chan_sum(samples, 2), ns as int)
            &&& pos_of(*final(src)) == p1
        }),
        moves(*old(src), *final(src), pos_of(*final(src))),
{
    let mut samples: Vec<Vec3> = Vec::new();
    let mut k: u32 = 0;
    while k < ns
        invariant
            k <= ns,
            i < nx,
            j < ny,
            samples@.len() == k,
            cam.wf(),
            world.wf(),
            src.wf(),
            forall|m: int| 0 <= m < samples@.len() ==> is_albedo(#[trigger] samples@[m]),
            moves(*old(src), *src, pos_of(*src)),
            cursor(*old(src)) matches Some((v, pos)) ==> (samples@, pos_of(*src))
                == pixel_samples_spec(
                i as int,
                j as int,
                nx as int,
                ny as int,
                *cam,
                *world,
                v,
                pos,
                k as nat,
            ),
        decreases ns - k,
    {
        let c = get_color(i, j, nx, ny, cam, world, src);
        samples.push(c);
        k = k + 1;
    }
    let sum = sum_samples(&samples);
    proof {
        assert(ns * SCALE <= LIMIT) by (nonlinear_arith)
            requires
                ns <= MAX_SAMPLES,
        ;
        lemma_chan_sum_bounds(samples@, 0);
        lemma_chan_sum_bounds(samples@, 1);
        lemma_chan_sum_bounds(samples@, 2);
    }
    let r = to_rgb(&sum, ns);
    assert(r.0 == channel_spec(chan_sum(samples@, 0), ns as int));
    r
}

} // verus!
