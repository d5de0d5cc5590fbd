//! Half-spaces and line segments.

use vstd::prelude::*;
use crate::alg::vec3::Vec3;
use crate::fixed::Fixed;

verus! {

/// The half-space of the points `p` with `normal . p + offset > 0`.
#[derive(Clone, Copy, Debug, PartialEq, Eq, Structural)]
pub struct Plane {
    pub normal: Vec3,
    pub offset: Fixed,
}

impl Plane {
    /// Signed distance of `point` from the boundary, along the normal.
    pub open spec fn spec_distance(self, point: Vec3) -> Fixed {
        self.normal.spec_dot(point).spec_add(self.offset)
    }

    /// A plane whose normal is `normal` scaled to unit length.
    pub fn new(normal: Vec3, offset: Fixed) -> (r: Plane)
        ensures
            r == (Plane { normal: normal.spec_norm(), offset }),
    {
        Plane { normal: normal.norm(), offset }
    }

    /// A plane with the normal taken as it is.
    pub fn new_raw(normal: Vec3, offset: Fixed) -> (r: Plane)
        ensures
            r == (Plane { normal, offset }),
    {
        Plane { normal, offset }
    }

    /// Signed distance of `point` from the boundary, along the normal.
    pub fn distance(self, point: Vec3) -> (r: Fixed)
        ensures
            r == self.spec_distance(point),
    {
        self.normal.dot(point) + self.offset
    }

    /// Whether `point` lies strictly on the normal's side of the plane
    /// through the origin.
    pub fn contains(self, point: Vec3) -> (r: bool)
        ensures
            r == (self.normal.spec_dot(point)@ > 0),
    {
        self.normal.dot(point).raw > 0
    }

    /// Whether the end of `ray`, laid off from `start`, lies strictly on the
    /// far side of the plane through the origin.
    pub fn intersects(self, start: Vec3, ray: Vec3) -> (r: bool)
        ensures
            r == (self.normal.spec_dot(start.spec_add(ray))@ < 0),
    {
        self.normal.dot(start + ray).raw < 0
    }
}

/// A line segment.
#[derive(Clone, Copy, Debug, PartialEq, Eq, Structural)]
pub struct Line {
    pub start: Vec3,
    pub end: Vec3,
}

impl Line {
    pub fn new(start: Vec3, end: Vec3) -> (r: Line)
        ensures
            r == (Line { start, end }),
    {
        Line { start, end }
    }
}

} // verus!
