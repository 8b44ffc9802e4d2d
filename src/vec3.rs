//! Three-component fixed-point vectors, used both as points and as colors.
use vstd::prelude::*;
use crate::fixed::{
    add_spec, clamp, div_spec, fadd, fdiv, fmul, fsqrt, fsub, in_range, mul_spec, sqrt_spec,
    sub_spec, tdiv, SCALE,
};

verus! {

#[derive(Clone, Copy, Debug, PartialEq, Eq, Structural)]
pub struct Vec3 {
    pub x: i64,
    pub y: i64,
    pub z: i64,
}

impl Vec3 {
    /// Every component lies within the scalar range.
    pub open spec fn wf(&self) -> bool {
        &&& in_range(self.x as int)
        &&& in_range(self.y as int)
        &&& in_range(self.z as int)
    }

    pub fn new(e0: i64, e1: i64, e2: i64) -> (r: Vec3)
        requires
            in_range(e0 as int),
            in_range(e1 as int),
            in_range(e2 as int),
        ensures
            r == (Vec3 { x: e0, y: e1, z: e2 }),
            r.wf(),
    {
        Vec3 { x: e0, y: e1, z: e2 }
    }

    pub fn x(&self) -> (r: i64)
        ensures
            r == self.x,
    {
        self.x
    }

    pub fn y(&self) -> (r: i64)
        ensures
            r == self.y,
    {
        self.y
    }

    pub fn z(&self) -> (r: i64)
        ensures
            r == self.z,
    {
        self.z
    }

    /// Euclidean length.
    pub fn len(&self) -> (r: i64)
        requires
            self.wf(),
        ensures
            r == len_spec(*self),
            0 <= r,
            in_range(r as int),
    {
        let sq = self.squared_len();
        fsqrt(sq)
    }

    /// Squared Euclidean length.
    pub fn squared_len(&self) -> (r: i64)
        requires
            self.wf(),
        ensures
            r == dot_spec(*self, *self),
            0 <= r,
            in_range(r as int),
    {
        proof {
            assert(self.x * self.x + self.y * self.y + self.z * self.z >= 0) by (nonlinear_arith);
            crate::fixed::lemma_tdiv_bounds(
                self.x * self.x + self.y * self.y + self.z * self.z,
                SCALE as int,
            );
        }
        dot(self, self)
    }

    /// Componentwise sum.
    pub fn add(&self, o: &Vec3) -> (r: Vec3)
        requires
            self.wf(),
            o.wf(),
        ensures
            r == add_vec(*self, *o),
            r.wf(),
    {
        Vec3 { x: fadd(self.x, o.x), y: fadd(self.y, o.y), z: fadd(self.z, o.z) }
    }

    /// Componentwise difference.
    pub fn sub(&self, o: &Vec3) -> (r: Vec3)
        requires
            self.wf(),
            o.wf(),
        ensures
            r == sub_vec(*self, *o),
            r.wf(),
    {
        Vec3 { x: fsub(self.x, o.x), y: fsub(self.y, o.y), z: fsub(self.z, o.z) }
    }

    /// Componentwise product.
    pub fn mul(&self, o: &Vec3) -> (r: Vec3)
        requires
            self.wf(),
            o.wf(),
        ensures
            r == mul_vec(*self, *o),
            r.wf(),
    {
        Vec3 { x: fmul(self.x, o.x), y: fmul(self.y, o.y), z: fmul(self.z, o.z) }
    }

    /// Product with a scalar.
    pub fn scale(&self, f: i64) -> (r: Vec3)
        requires
            self.wf(),
            in_range(f as int),
        ensures
            r == scale_vec(*self, f as int),
            r.wf(),
    {
        Vec3 { x: fmul(self.x, f), y: fmul(self.y, f), z: fmul(self.z, f) }
    }

    /// Componentwise quotient.
    pub fn div(&self, o: &Vec3) -> (r: Vec3)
        requires
            self.wf(),
            o.wf(),
            o.x != 0 && o.y != 0 && o.z != 0,
        ensures
            r == (Vec3 {
                x: div_spec(self.x as int, o.x as int) as i64,
                y: div_spec(self.y as int, o.y as int) as i64,
                z: div_spec(self.z as int, o.z as int) as i64,
            }),
            r.wf(),
    {
        Vec3 { x: fdiv(self.x, o.x), y: fdiv(self.y, o.y), z: fdiv(self.z, o.z) }
    }

    /// Quotient by a scalar.
    pub fn div_scalar(&self, f: i64) -> (r: Vec3)
        requires
            self.wf(),
            in_range(f as int),
            f != 0,
        ensures
            r == div_vec(*self, f as int),
            r.wf(),
    {
        Vec3 { x: fdiv(self.x, f), y: fdiv(self.y, f), z: fdiv(self.z, f) }
    }
}

pub open spec fn add_vec(a: Vec3, b: Vec3) -> Vec3 {
    Vec3 {
        x: add_spec(a.x as int, b.x as int) as i64,
        y: add_spec(a.y as int, b.y as int) as i64,
        z: add_spec(a.z as int, b.z as int) as i64,
    }
}

pub open spec fn sub_vec(a: Vec3, b: Vec3) -> Vec3 {
    Vec3 {
        x: sub_spec(a.x as int, b.x as int) as i64,
        y: sub_spec(a.y as int, b.y as int) as i64,
        z: sub_spec(a.z as int, b.z as int) as i64,
    }
}

pub open spec fn mul_vec(a: Vec3, b: Vec3) -> Vec3 {
    Vec3 {
        x: mul_spec(a.x as int, b.x as int) as i64,
        y: mul_spec(a.y as int, b.y as int) as i64,
        z: mul_spec(a.z as int, b.z as int) as i64,
    }
}

pub open spec fn scale_vec(a: Vec3, f: int) -> Vec3 {
    Vec3 {
        x: mul_spec(a.x as int, f) as i64,
        y: mul_spec(a.y as int, f) as i64,
        z: mul_spec(a.z as int, f) as i64,
    }
}

pub open spec fn div_vec(a: Vec3, f: int) -> Vec3 {
    Vec3 {
        x: div_spec(a.x as int, f) as i64,
        y: div_spec(a.y as int, f) as i64,
        z: div_spec(a.z as int, f) as i64,
    }
}

pub open spec fn dot_spec(a: Vec3, b: Vec3) -> int {
    clamp(tdiv(a.x * b.x + a.y * b.y + a.z * b.z, SCALE as int))
}

pub open spec fn len_spec(v: Vec3) -> int {
    sqrt_spec(dot_spec(v, v))
}

pub open spec fn unit_spec(v: Vec3) -> Vec3 {
    div_vec(v, len_spec(v))
}

pub open spec fn cross_spec(a: Vec3, b: Vec3) -> Vec3 {
    Vec3 {
        x: clamp(tdiv(a.y * b.z - a.z * b.y, SCALE as int)) as i64,
        y: clamp(tdiv(a.z * b.x - a.x * b.z, SCALE as int)) as i64,
        z: clamp(tdiv(a.x * b.y - a.y * b.x, SCALE as int)) as i64,
    }
}

proof fn lemma_product_bound(a: int, b: int)
    requires
        in_range(a),
        in_range(b),
    ensures
        -1_000_000_000_000_000_000_000_000_000_000int <= a * b
            <= 1_000_000_000_000_000_000_000_000_000_000int,
{
    assert(-1_000_000_000_000_000_000_000_000_000_000int <= a * b
        <= 1_000_000_000_000_000_000_000_000_000_000int) by (nonlinear_arith)
        requires
            in_range(a),
            in_range(b),
    ;
}

fn wide_mul(a: i64, b: i64) -> (r: i128)
    requires
        in_range(a as int),
        in_range(b as int),
    ensures
        r == a * b,
        -1_000_000_000_000_000_000_000_000_000_000int <= r
            <= 1_000_000_000_000_000_000_000_000_000_000int,
{
    proof {
        lemma_product_bound(a as int, b as int);
    }
    (a as i128) * (b as i128)
}

fn narrow(v: i128) -> (r: i64)
    requires
        -10_000_000_000_000_000_000_000_000_000_000int <= v
            <= 10_000_000_000_000_000_000_000_000_000_000int,
    ensures
        r == clamp(tdiv(v as int, SCALE as int)),
{
    proof {
        crate::fixed::lemma_tdiv_bounds(v as int, SCALE as int);
    }
    let q: i128 = if v >= 0 {
        v / (SCALE as i128)
    } else {
        -((-v) / (SCALE as i128))
    };
    if q > crate::fixed::LIMIT as i128 {
        crate::fixed::LIMIT
    } else if q < -(crate::fixed::LIMIT as i128) {
        -crate::fixed::LIMIT
    } else {
        q as i64
    }
}

/// Unit vector in the direction of `v`, which must not be of zero length.
pub fn unit_vector(v: &Vec3) -> (r: Vec3)
    requires
        v.wf(),
        len_spec(*v) != 0,
    ensures
        r == unit_spec(*v),
        r.wf(),
{
    let l = v.len();
    v.div_scalar(l)
}

/// Dot product.
pub fn dot(v1: &Vec3, v2: &Vec3) -> (r: i64)
    requires
        v1.wf(),
        v2.wf(),
    ensures
        r == dot_spec(*v1, *v2),
        in_range(r as int),
{
    let s: i128 = wide_mul(v1.x, v2.x) + wide_mul(v1.y, v2.y) + wide_mul(v1.z, v2.z);
    narrow(s)
}

/// Cross product.
pub fn cross(v1: &Vec3, v2: &Vec3) -> (r: Vec3)
    requires
        v1.wf(),
        v2.wf(),
    ensures
        r == cross_spec(*v1, *v2),
        r.wf(),
{
    let cx: i128 = wide_mul(v1.y, v2.z) - wide_mul(v1.z, v2.y);
    let cy: i128 = wide_mul(v1.z, v2.x) - wide_mul(v1.x, v2.z);
    let cz: i128 = wide_mul(v1.x, v2.y) - wide_mul(v1.y, v2.x);
    Vec3 { x: narrow(cx), y: narrow(cy), z: narrow(cz) }
}

} // verus!
