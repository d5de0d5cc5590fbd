//! Three-component vectors of fixed-point numbers.

use vstd::prelude::*;
use core::ops::Neg;
use crate::fixed::floor_sqrt;
use crate::fixed::isqrt;
use crate::fixed::unsigned_magnitude;
use crate::fixed::Fixed;
use crate::fixed::SCALE;

verus! {

/// Sum of the squares of three raw coordinates.
pub open spec fn square_sum3(x: int, y: int, z: int) -> int {
    x * x + y * y + z * z
}

/// The square of a 64-bit magnitude, which always fits in 128 bits.
pub fn square(m: u128) -> (r: u128)
    requires
        m <= 0x8000_0000_0000_0000,
    ensures
        r == m * m,
        r <= 0x4000_0000_0000_0000_0000_0000_0000_0000,
{
    assert(m * m <= 0x8000_0000_0000_0000int * 0x8000_0000_0000_0000int) by (nonlinear_arith)
        requires
            0 <= m <= 0x8000_0000_0000_0000,
    ;
    assert(0x8000_0000_0000_0000int * 0x8000_0000_0000_0000int
        == 0x4000_0000_0000_0000_0000_0000_0000_0000int) by (nonlinear_arith);
    m * m
}

/// A point or direction in space.
#[derive(Clone, Copy, Debug, PartialEq, Eq, Structural)]
pub struct Vec3 {
    pub x: Fixed,
    pub y: Fixed,
    pub z: Fixed,
}

impl Vec3 {
    /// The vector `(0, 0, 0)`.
    pub open spec fn spec_zero() -> Vec3 {
        Vec3 { x: Fixed::spec_zero(), y: Fixed::spec_zero(), z: Fixed::spec_zero() }
    }

    /// The vector `(0, 0, 1)`.
    pub open spec fn spec_fwd() -> Vec3 {
        Vec3 { x: Fixed::spec_zero(), y: Fixed::spec_zero(), z: Fixed::spec_one() }
    }

    /// Componentwise saturating sum.
    pub open spec fn spec_add(self, rhs: Vec3) -> Vec3 {
        Vec3 {
            x: self.x.spec_add(rhs.x),
            y: self.y.spec_add(rhs.y),
            z: self.z.spec_add(rhs.z),
        }
    }

    /// Componentwise saturating difference.
    pub open spec fn spec_sub(self, rhs: Vec3) -> Vec3 {
        Vec3 {
            x: self.x.spec_sub(rhs.x),
            y: self.y.spec_sub(rhs.y),
            z: self.z.spec_sub(rhs.z),
        }
    }

    /// Componentwise saturating negation.
    pub open spec fn spec_neg(self) -> Vec3 {
        Vec3 { x: self.x.spec_neg(), y: self.y.spec_neg(), z: self.z.spec_neg() }
    }

    /// Every component multiplied by `k`.
    pub open spec fn spec_scale(self, k: Fixed) -> Vec3 {
        Vec3 { x: self.x.spec_mul(k), y: self.y.spec_mul(k), z: self.z.spec_mul(k) }
    }

    /// Every component divided by `k`.
    pub open spec fn spec_unscale(self, k: Fixed) -> Vec3 {
        Vec3 { x: self.x.spec_div(k), y: self.y.spec_div(k), z: self.z.spec_div(k) }
    }

    /// Dot product, each product and sum rounded and saturated in turn.
    pub open spec fn spec_dot(self, other: Vec3) -> Fixed {
        self.x.spec_mul(other.x).spec_add(self.y.spec_mul(other.y)).spec_add(
            self.z.spec_mul(other.z),
        )
    }

    /// Cross product, each product and difference rounded and saturated in turn.
    pub open spec fn spec_cross(self, other: Vec3) -> Vec3 {
        Vec3 {
            x: self.y.spec_mul(other.z).spec_sub(self.z.spec_mul(other.y)),
            y: self.z.spec_mul(other.x).spec_sub(self.x.spec_mul(other.z)),
            z: self.x.spec_mul(other.y).spec_sub(self.y.spec_mul(other.x)),
        }
    }

    /// Squared length.
    pub open spec fn spec_mag_squared(self) -> Fixed {
        self.spec_dot(self)
    }

    /// Length: the rounded-down square root of the exact sum of squares.
    pub open spec fn spec_mag(self) -> Fixed {
        Fixed::of(floor_sqrt(square_sum3(self.x@, self.y@, self.z@)))
    }

    /// Squared distance to `other`.
    pub open spec fn spec_dist_squared(self, other: Vec3) -> Fixed {
        self.spec_sub(other).spec_mag_squared()
    }

    /// Distance to `other`.
    pub open spec fn spec_dist(self, other: Vec3) -> Fixed {
        self.spec_sub(other).spec_mag()
    }

    /// The vector divided by its length; a vector of length zero is kept.
    pub open spec fn spec_norm(self) -> Vec3 {
        if self.spec_mag()@ == 0 {
            self
        } else {
            self.spec_unscale(self.spec_mag())
        }
    }

    /// Whether every coordinate lies in `[-1, 1]`.
    pub open spec fn spec_within_unit(self) -> bool {
        &&& -SCALE <= self.x@ <= SCALE
        &&& -SCALE <= self.y@ <= SCALE
        &&& -SCALE <= self.z@ <= SCALE
    }

    /// Linear blend: `self * (1 - t) + other * t`.
    pub open spec fn spec_lerp(self, other: Vec3, t: Fixed) -> Vec3 {
        self.spec_scale(Fixed::spec_one().spec_sub(t)).spec_add(other.spec_scale(t))
    }

    pub fn new(x: Fixed, y: Fixed, z: Fixed) -> (r: Vec3)
        ensures
            r == (Vec3 { x, y, z }),
    {
        Vec3 { x, y, z }
    }

    /// The unit vector along x.
    pub fn right() -> (r: Vec3)
        ensures
            r == (Vec3 { x: Fixed::spec_one(), y: Fixed::spec_zero(), z: Fixed::spec_zero() }),
    {
        Vec3::new(Fixed::one(), Fixed::zero(), Fixed::zero())
    }

    /// The unit vector along y.
    pub fn up() -> (r: Vec3)
        ensures
            r == (Vec3 { x: Fixed::spec_zero(), y: Fixed::spec_one(), z: Fixed::spec_zero() }),
    {
        Vec3::new(Fixed::zero(), Fixed::one(), Fixed::zero())
    }

    /// The unit vector along z.
    pub fn fwd() -> (r: Vec3)
        ensures
            r == Vec3::spec_fwd(),
    {
        Vec3::new(Fixed::zero(), Fixed::zero(), Fixed::one())
    }

    pub fn zero() -> (r: Vec3)
        ensures
            r == Vec3::spec_zero(),
    {
        Vec3::new(Fixed::zero(), Fixed::zero(), Fixed::zero())
    }

    pub fn one() -> (r: Vec3)
        ensures
            r == (Vec3 { x: Fixed::spec_one(), y: Fixed::spec_one(), z: Fixed::spec_one() }),
    {
        Vec3::new(Fixed::one(), Fixed::one(), Fixed::one())
    }

    /// The vector scaled to unit length. A vector of length zero is kept;
    /// any other comes out with every coordinate in `[-1, 1]`.
    pub fn norm(self) -> (r: Vec3)
        ensures
            r == self.spec_norm(),
            r.spec_within_unit(),
    {
        proof {
            lemma_norm_within_unit(self);
        }
        let len = self.mag();
        if len.raw == 0 {
            self
        } else {
            self / len
        }
    }

    pub fn mag_squared(self) -> (r: Fixed)
        ensures
            r == self.spec_mag_squared(),
    {
        self.dot(self)
    }

    pub fn mag(self) -> (r: Fixed)
        ensures
            r == self.spec_mag(),
            r@ >= 0,
    {
        let sx: u128 = square(unsigned_magnitude(self.x.raw));
        let sy: u128 = square(unsigned_magnitude(self.y.raw));
        let sz: u128 = square(unsigned_magnitude(self.z.raw));
        proof {
            assert(sx == self.x@ * self.x@) by (nonlinear_arith)
                requires
                    sx == crate::fixed::magnitude(self.x@) * crate::fixed::magnitude(self.x@),
            ;
            assert(sy == self.y@ * self.y@) by (nonlinear_arith)
                requires
                    sy == crate::fixed::magnitude(self.y@) * crate::fixed::magnitude(self.y@),
            ;
            assert(sz == self.z@ * self.z@) by (nonlinear_arith)
                requires
                    sz == crate::fixed::magnitude(self.z@) * crate::fixed::magnitude(self.z@),
            ;
        }
        let root: u64 = isqrt(sx + sy + sz);
        if root > 0x7fff_ffff_ffff_ffff {
            Fixed { raw: i64::MAX }
        } else {
            Fixed { raw: root as i64 }
        }
    }

    pub fn dist_squared(self, other: Vec3) -> (r: Fixed)
        ensures
            r == self.spec_dist_squared(other),
    {
        (self - other).mag_squared()
    }

    pub fn dist(self, other: Vec3) -> (r: Fixed)
        ensures
            r == self.spec_dist(other),
            r@ >= 0,
    {
        (self - other).mag()
    }

    pub fn cross(self, other: Vec3) -> (r: Vec3)
        ensures
            r == self.spec_cross(other),
    {
        Vec3 {
            x: self.y * other.z - self.z * other.y,
            y: self.z * other.x - self.x * other.z,
            z: self.x * other.y - self.y * other.x,
        }
    }

    pub fn dot(self, other: Vec3) -> (r: Fixed)
        ensures
            r == self.spec_dot(other),
    {
        self.x * other.x + self.y * other.y + self.z * other.z
    }

    pub fn lerp(self, other: Vec3, t: Fixed) -> (r: Vec3)
        ensures
            r == self.spec_lerp(other, t),
    {
        self * (Fixed::one() - t) + other * t
    }
}

impl core::ops::Add for Vec3 {
    type Output = Vec3;

    fn add(self, other: Vec3) -> (r: Vec3)
        ensures
            r == self.spec_add(other),
    {
        Vec3::new(self.x + other.x, self.y + other.y, self.z + other.z)
    }
}

impl vstd::std_specs::ops::AddSpecImpl for Vec3 {
    open spec fn obeys_add_spec() -> bool {
        true
    }

    open spec fn add_req(self, other: Vec3) -> bool {
        true
    }

    open spec fn add_spec(self, other: Vec3) -> Vec3 {
        self.spec_add(other)
    }
}

impl core::ops::Sub for Vec3 {
    type Output = Vec3;

    fn sub(self, other: Vec3) -> (r: Vec3)
        ensures
            r == self.spec_sub(other),
    {
        Vec3::new(self.x - other.x, self.y - other.y, self.z - other.z)
    }
}

impl vstd::std_specs::ops::SubSpecImpl for Vec3 {
    open spec fn obeys_sub_spec() -> bool {
        true
    }

    open spec fn sub_req(self, other: Vec3) -> bool {
        true
    }

    open spec fn sub_spec(self, other: Vec3) -> Vec3 {
        self.spec_sub(other)
    }
}

impl core::ops::Neg for Vec3 {
    type Output = Vec3;

    fn neg(self) -> (r: Vec3)
        ensures
            r == self.spec_neg(),
    {
        Vec3 { x: self.x.neg(), y: self.y.neg(), z: self.z.neg() }
    }
}

impl vstd::std_specs::ops::NegSpecImpl for Vec3 {
    open spec fn obeys_neg_spec() -> bool {
        true
    }

    open spec fn neg_req(self) -> bool {
        true
    }

    open spec fn neg_spec(self) -> Vec3 {
        self.spec_neg()
    }
}

impl core::ops::Mul<Fixed> for Vec3 {
    type Output = Vec3;

    fn mul(self, scalar: Fixed) -> (r: Vec3)
        ensures
            r == self.spec_scale(scalar),
    {
        Vec3::new(self.x * scalar, self.y * scalar, self.z * scalar)
    }
}

impl vstd::std_specs::ops::MulSpecImpl<Fixed> for Vec3 {
    open spec fn obeys_mul_spec() -> bool {
        true
    }

    open spec fn mul_req(self, scalar: Fixed) -> bool {
        true
    }

    open spec fn mul_spec(self, scalar: Fixed) -> Vec3 {
        self.spec_scale(scalar)
    }
}

impl core::ops::Div<Fixed> for Vec3 {
    type Output = Vec3;

    fn div(self, scalar: Fixed) -> (r: Vec3)
        ensures
            r == self.spec_unscale(scalar),
    {
        Vec3::new(self.x / scalar, self.y / scalar, self.z / scalar)
    }
}

impl vstd::std_specs::ops::DivSpecImpl<Fixed> for Vec3 {
    open spec fn obeys_div_spec() -> bool {
        true
    }

    open spec fn div_req(self, scalar: Fixed) -> bool {
        true
    }

    open spec fn div_spec(self, scalar: Fixed) -> Vec3 {
        self.spec_unscale(scalar)
    }
}

/// The length of a vector is not negative.
pub proof fn lemma_mag_nonneg(v: Vec3)
    ensures
        v.spec_mag()@ >= 0,
{
    let total = square_sum3(v.x@, v.y@, v.z@);
    assert(v.x@ * v.x@ >= 0) by (nonlinear_arith);
    assert(v.y@ * v.y@ >= 0) by (nonlinear_arith);
    assert(v.z@ * v.z@ >= 0) by (nonlinear_arith);
    crate::fixed::lemma_floor_sqrt_exists(total as nat);
}

/// The length of a vector is at least the magnitude of each coordinate,
/// up to the end of the range.
pub proof fn lemma_mag_covers_coordinates(v: Vec3)
    ensures
        crate::fixed::magnitude(v.x@) <= v.spec_mag()@ || v.spec_mag()@ == i64::MAX,
        crate::fixed::magnitude(v.y@) <= v.spec_mag()@ || v.spec_mag()@ == i64::MAX,
        crate::fixed::magnitude(v.z@) <= v.spec_mag()@ || v.spec_mag()@ == i64::MAX,
{
    let total = square_sum3(v.x@, v.y@, v.z@);
    let (x, y, z) = (
        crate::fixed::magnitude(v.x@),
        crate::fixed::magnitude(v.y@),
        crate::fixed::magnitude(v.z@),
    );
    assert(x * x == v.x@ * v.x@ && x * x >= 0) by (nonlinear_arith)
        requires
            x == crate::fixed::magnitude(v.x@),
    ;
    assert(y * y == v.y@ * v.y@ && y * y >= 0) by (nonlinear_arith)
        requires
            y == crate::fixed::magnitude(v.y@),
    ;
    assert(z * z == v.z@ * v.z@ && z * z >= 0) by (nonlinear_arith)
        requires
            z == crate::fixed::magnitude(v.z@),
    ;
    crate::fixed::lemma_floor_sqrt_exists(total as nat);
    let root = floor_sqrt(total);
    crate::fixed::lemma_floor_sqrt_bounds(total, root, x);
    crate::fixed::lemma_floor_sqrt_bounds(total, root, y);
    crate::fixed::lemma_floor_sqrt_bounds(total, root, z);
}

/// A vector scaled to unit length has every coordinate in `[-1, 1]`,
/// unless it has no length to scale by.
pub proof fn lemma_norm_within_unit(v: Vec3)
    ensures
        v.spec_mag()@ != 0 ==> v.spec_norm().spec_within_unit(),
        v.spec_mag()@ == 0 ==> v == Vec3::spec_zero(),
{
    lemma_mag_covers_coordinates(v);
    lemma_mag_nonneg(v);
    let len = v.spec_mag();
    if len@ == i64::MAX {
        crate::fixed::lemma_share_of_largest(v.x);
        crate::fixed::lemma_share_of_largest(v.y);
        crate::fixed::lemma_share_of_largest(v.z);
    } else if len@ != 0 {
        crate::fixed::lemma_share_of_larger(v.x, len);
        crate::fixed::lemma_share_of_larger(v.y, len);
        crate::fixed::lemma_share_of_larger(v.z, len);
    }
}

} // verus!
