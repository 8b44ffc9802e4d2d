//! Uniform random draws and rejection sampling of the unit sphere and disk.
use vstd::prelude::*;
use rand::Rng;
use crate::fixed::SCALE;
use crate::vec3::{dot_spec, Vec3};

verus! {

/// Attempts a rejection sampler makes before it settles for the centre.
pub const MAX_TRIES: u32 = 64;

/// A uniform draw from `[0, 1)`, in fixed point.
///
/// Relies on `rand::Rng::gen_range` over the thread-local generator of
/// `rand::thread_rng`: for a non-empty integer range `low..high` it returns
/// a value in `[low, high)`.
#[verifier::external_body]
pub fn drand48() -> (r: i64)
    ensures
        0 <= r < SCALE,
{
    rand::thread_rng().gen_range(0..SCALE)
}

/// A draw `d` from `[0, 1)` mapped to `2d - 1`, in `[-1, 1)`.
pub open spec fn spread(d: int) -> int {
    2 * d - SCALE
}

/// A point strictly inside the unit sphere, whose components lie in `[-1, 1]`.
pub open spec fn in_unit_sphere(p: Vec3) -> bool {
    &&& -SCALE <= p.x <= SCALE
    &&& -SCALE <= p.y <= SCALE
    &&& -SCALE <= p.z <= SCALE
    &&& dot_spec(p, p) < SCALE
}

/// The candidate that three uniform draws give, kept when it lies strictly
/// inside the unit sphere.
pub open spec fn sphere_candidate_spec(d0: int, d1: int, d2: int) -> Option<Vec3> {
    let p = Vec3 { x: spread(d0) as i64, y: spread(d1) as i64, z: spread(d2) as i64 };
    if dot_spec(p, p) < SCALE {
        Some(p)
    } else {
        None
    }
}

/// One step of rejection sampling in the unit sphere, from three draws in `[0, 1)`.
pub fn sphere_candidate(d0: i64, d1: i64, d2: i64) -> (r: Option<Vec3>)
    requires
        0 <= d0 < SCALE,
        0 <= d1 < SCALE,
        0 <= d2 < SCALE,
    ensures
        r == sphere_candidate_spec(d0 as int, d1 as int, d2 as int),
        r matches Some(p) ==> in_unit_sphere(p),
{
    let p = Vec3::new(2 * d0 - SCALE, 2 * d1 - SCALE, 2 * d2 - SCALE);
    if p.squared_len() < SCALE {
        Some(p)
    } else {
        None
    }
}

/// One step of rejection sampling in the unit disk of the plane `z = 0`.
pub fn disk_candidate(d0: i64, d1: i64) -> (r: Option<Vec3>)
    requires
        0 <= d0 < SCALE,
        0 <= d1 < SCALE,
    ensures
        r == sphere_candidate_spec(d0 as int, d1 as int, SCALE / 2),
        r matches Some(p) ==> in_unit_sphere(p) && p.z == 0,
{
    sphere_candidate(d0, d1, SCALE / 2)
}

/// Where uniform draws come from.
pub enum Source {
    /// The thread-local generator.
    Thread,
    /// A fixed cycle of draws, each in `[0, 1)`, read from `pos` on: a
    /// deterministic stand-in for reproducible renders.
    Fixed { vals: Vec<i64>, pos: usize },
}

/// The draws and read position of a fixed source; `None` for the generator.
pub open spec fn cursor(s: Source) -> Option<(Seq<i64>, int)> {
    match s {
        Source::Thread => None,
        Source::Fixed { vals, pos } => Some((vals@, pos as int)),
    }
}

/// The read position of a fixed source.
pub open spec fn pos_of(s: Source) -> int {
    match s {
        Source::Thread => 0,
        Source::Fixed { pos, .. } => pos as int,
    }
}

/// The read position after one draw from a cycle.
pub open spec fn next_pos(vals: Seq<i64>, pos: int) -> int {
    if pos + 1 < vals.len() {
        pos + 1
    } else {
        0
    }
}

/// A draw from a cycle at `pos`, and the position after it.
pub open spec fn draw_spec(vals: Seq<i64>, pos: int) -> (int, int) {
    (vals[pos] as int, next_pos(vals, pos))
}

/// A call took a fixed source to the same cycle read from `pos`, and left
/// the generator as it was.
pub open spec fn moves(before: Source, after: Source, pos: int) -> bool {
    match cursor(before) {
        Some((v, _)) => cursor(after) == Some((v, pos)),
        None => cursor(after) is None,
    }
}

impl Source {
    pub open spec fn wf(&self) -> bool {
        match *self {
            Source::Thread => true,
            Source::Fixed { vals, pos } => {
                &&& 0 < vals@.len()
                &&& pos < vals@.len()
                &&& forall|i: int| 0 <= i < vals@.len() ==> 0 <= #[trigger] vals@[i] < SCALE
            },
        }
    }

    /// A fixed cycle of draws, if there is at least one and each lies in
    /// `[0, 1)`.
    pub fn fixed(vals: Vec<i64>) -> (r: Option<Source>)
        ensures
            r matches Some(s) ==> s.wf() && cursor(s) == Some((vals@, 0int)),
            r is None <==> (vals@.len() == 0 || exists|i: int|
                0 <= i < vals@.len() && !(0 <= #[trigger] vals@[i] < SCALE)),
    {
        if vals.len() == 0 {
            return None;
        }
        let mut i: usize = 0;
        while i < vals.len()
            invariant
                i <= vals@.len(),
                forall|k: int| 0 <= k < i ==> 0 <= #[trigger] vals@[k] < SCALE,
            decreases vals@.len() - i,
        {
            if vals[i] < 0 || vals[i] >= SCALE {
                return None;
            }
            i = i + 1;
        }
        Some(Source::Fixed { vals, pos: 0 })
    }

    /// One uniform draw from `[0, 1)`.
    pub fn draw(&mut self) -> (r: i64)
        requires
            old(self).wf(),
        ensures
            final(self).wf(),
            0 <= r < SCALE,
            cursor(*old(self)) matches Some((v, p)) ==> (r as int, pos_of(*final(self)))
                == draw_spec(v, p),
            moves(*old(self), *final(self), pos_of(*final(self))),
    {
        match self {
            Source::Thread => drand48(),
            Source::Fixed { vals, pos } => {
                let p: usize = *pos;
                let n: usize = vals.len();
                let r = vals[p];
                let next: usize = if p < n - 1 {
                    p + 1
                } else {
                    0
                };
                *pos = next;
                r
            },
        }
    }
}

/// Rejection sampling of the unit sphere from a cycle of draws, with at
/// most `tries` attempts: the point and the position after it.
pub open spec fn sphere_sample_spec(vals: Seq<i64>, pos: int, tries: nat) -> (Vec3, int)
    decreases tries,
{
    if tries == 0 {
        (Vec3 { x: 0, y: 0, z: 0 }, pos)
    } else {
        let (d0, p1) = draw_spec(vals, pos);
        let (d1, p2) = draw_spec(vals, p1);
        let (d2, p3) = draw_spec(vals, p2);
        match sphere_candidate_spec(d0, d1, d2) {
            Some(p) => (p, p3),
            None => sphere_sample_spec(vals, p3, (tries - 1) as nat),
        }
    }
}

/// Rejection sampling of the unit disk from a cycle of draws, with at most
/// `tries` attempts: the point and the position after it.
pub open spec fn disk_sample_spec(vals: Seq<i64>, pos: int, tries: nat) -> (Vec3, int)
    decreases tries,
{
    if tries == 0 {
        (Vec3 { x: 0, y: 0, z: 0 }, pos)
    } else {
        let (d0, p1) = draw_spec(vals, pos);
        let (d1, p2) = draw_spec(vals, p1);
        match sphere_candidate_spec(d0, d1, SCALE / 2) {
            Some(p) => (p, p2),
            None => disk_sample_spec(vals, p2, (tries - 1) as nat),
        }
    }
}

/// A random point strictly inside the unit sphere, by rejection sampling
/// from the cube `[-1, 1)^3`. After `MAX_TRIES` rejections in a row, which
/// a uniform source makes astronomically unlikely, it gives the centre.
pub fn random_in_unit_sphere(src: &mut Source) -> (r: Vec3)
    requires
        old(src).wf(),
    ensures
        final(src).wf(),
        in_unit_sphere(r),
        r.wf(),
        cursor(*old(src)) matches Some((v, p)) ==> (r, pos_of(*final(src)))
            == sphere_sample_spec(v, p, MAX_TRIES as nat),
        moves(*old(src), *final(src), pos_of(*final(src))),
{
    let mut tries: u32 = 0;
    while tries < MAX_TRIES
        invariant
            tries <= MAX_TRIES,
            src.wf(),
            moves(*old(src), *src, pos_of(*src)),
            cursor(*old(src)) matches Some((v, p)) ==> sphere_sample_spec(v, p, MAX_TRIES as nat)
                == sphere_sample_spec(v, pos_of(*src), (MAX_TRIES - tries) as nat),
        decreases MAX_TRIES - tries,
    {
        let d0 = src.draw();
        let d1 = src.draw();
        let d2 = src.draw();
        if let Some(p) = sphere_candidate(d0, d1, d2) {
            return p;
        }
        tries = tries + 1;
    }
    Vec3::new(0, 0, 0)
}

/// A random point strictly inside the unit disk of the plane `z = 0`, by
/// rejection sampling as `random_in_unit_sphere` does.
pub fn random_in_unit_disk(src: &mut Source) -> (r: Vec3)
    requires
        old(src).wf(),
    ensures
        final(src).wf(),
        in_unit_sphere(r),
        r.z == 0,
        r.wf(),
        cursor(*old(src)) matches Some((v, p)) ==> (r, pos_of(*final(src)))
            == disk_sample_spec(v, p, MAX_TRIES as nat),
        moves(*old(src), *final(src), pos_of(*final(src))),
{
    let mut tries: u32 = 0;
    while tries < MAX_TRIES
        invariant
            tries <= MAX_TRIES,
            src.wf(),
            moves(*old(src), *src, pos_of(*src)),
            cursor(*old(src)) matches Some((v, p)) ==> disk_sample_spec(v, p, MAX_TRIES as nat)
                == disk_sample_spec(v, pos_of(*src), (MAX_TRIES - tries) as nat),
        decreases MAX_TRIES - tries,
    {
        let d0 = src.draw();
        let d1 = src.draw();
        if let Some(p) = disk_candidate(d0, d1) {
            return p;
        }
        tries = tries + 1;
    }
    Vec3::new(0, 0, 0)
}

} // verus!
