//! Two-component vectors of fixed-point numbers.

use vstd::prelude::*;
use crate::alg::vec3::square;
use crate::fixed::floor_sqrt;
use crate::fixed::isqrt;
use crate::fixed::magnitude;
use crate::fixed::unsigned_magnitude;
use crate::fixed::Fixed;

verus! {

/// A point or direction in the plane.
#[derive(Clone, Copy, Debug, PartialEq, Eq, Structural)]
pub struct Vec2 {
    pub x: Fixed,
    pub y: Fixed,
}

impl Vec2 {
    /// Dot product, each product and the sum rounded and saturated in turn.
    pub open spec fn spec_dot(self, other: Vec2) -> Fixed {
        self.x.spec_mul(other.x).spec_add(self.y.spec_mul(other.y))
    }

    /// Length: the rounded-down square root of the exact sum of squares.
    pub open spec fn spec_mag(self) -> Fixed {
        Fixed::of(floor_sqrt(self.x@ * self.x@ + self.y@ * self.y@))
    }

    /// The vector divided by its length; a vector of length zero is kept.
    pub open spec fn spec_norm(self) -> Vec2 {
        if self.spec_mag()@ == 0 {
            self
        } else {
            Vec2 { x: self.x.spec_div(self.spec_mag()), y: self.y.spec_div(self.spec_mag()) }
        }
    }

    pub fn new(x: Fixed, y: Fixed) -> (r: Vec2)
        ensures
            r == (Vec2 { x, y }),
    {
        Vec2 { x, y }
    }

    /// The unit vector along y.
    pub fn up() -> (r: Vec2)
        ensures
            r == (Vec2 { x: Fixed::spec_zero(), y: Fixed::spec_one() }),
    {
        Vec2 { x: Fixed::zero(), y: Fixed::one() }
    }

    /// The unit vector along x.
    pub fn right() -> (r: Vec2)
        ensures
            r == (Vec2 { x: Fixed::spec_one(), y: Fixed::spec_zero() }),
    {
        Vec2 { x: Fixed::one(), y: Fixed::zero() }
    }

    pub fn dot(self, other: Vec2) -> (r: Fixed)
        ensures
            r == self.spec_dot(other),
    {
        self.x * other.x + self.y * other.y
    }

    pub fn norm(self) -> (r: Vec2)
        ensures
            r == self.spec_norm(),
    {
        let sx: u128 = square(unsigned_magnitude(self.x.raw));
        let sy: u128 = square(unsigned_magnitude(self.y.raw));
        proof {
            assert(sx == self.x@ * self.x@) by (nonlinear_arith)
                requires
                    sx == magnitude(self.x@) * magnitude(self.x@),
            ;
            assert(sy == self.y@ * self.y@) by (nonlinear_arith)
                requires
                    sy == magnitude(self.y@) * magnitude(self.y@),
            ;
        }
        let root: u64 = isqrt(sx + sy);
        let len = if root > 0x7fff_ffff_ffff_ffff {
            Fixed { raw: i64::MAX }
        } else {
            Fixed { raw: root as i64 }
        };
        if len.raw == 0 {
            self
        } else {
            Vec2 { x: self.x / len, y: self.y / len }
        }
    }

    pub fn mag_squared(self) -> (r: Fixed)
        ensures
            r == self.spec_dot(self),
    {
        self.x * self.x + self.y * self.y
    }
}

} // verus!
