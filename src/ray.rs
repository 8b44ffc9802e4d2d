//! Rays: an origin and a direction, which need not be of unit length.
use vstd::prelude::*;
use crate::fixed::in_range;
use crate::vec3::{add_vec, scale_vec, Vec3};

verus! {

#[derive(Clone, Copy, Debug, PartialEq, Eq, Structural)]
pub struct Ray {
    pub a: Vec3,
    pub b: Vec3,
}

impl Ray {
    pub open spec fn wf(&self) -> bool {
        self.a.wf() && self.b.wf()
    }

    pub fn new(a: &Vec3, b: &Vec3) -> (r: Ray)
        ensures
            r.a == *a,
            r.b == *b,
    {
        Ray { a: *a, b: *b }
    }

    pub fn origin(&self) -> (r: &Vec3)
        ensures
            *r == self.a,
    {
        &self.a
    }

    pub fn direction(&self) -> (r: &Vec3)
        ensures
            *r == self.b,
    {
        &self.b
    }

    /// The point `origin + t * direction`.
    pub fn point_at_parameter(&self, t: i64) -> (r: Vec3)
        requires
            self.wf(),
            in_range(t as int),
        ensures
            r == point_at(*self, t as int),
            r.wf(),
    {
        self.a.add(&self.b.scale(t))
    }
}

pub open spec fn point_at(r: Ray, t: int) -> Vec3 {
    add_vec(r.a, scale_vec(r.b, t))
}

} // verus!
