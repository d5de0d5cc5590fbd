//! Quaternions of fixed-point numbers, as rotations of space.

use vstd::prelude::*;
use core::ops::Neg;
use vstd::std_specs::cmp::PartialEqSpecImpl;
use crate::alg::mat::spec_dot4;
use crate::alg::mat::dot4;
use crate::alg::mat::Mat;
use crate::alg::vec3::square;
use crate::alg::vec3::Vec3;
use crate::fixed::floor_sqrt;
use crate::fixed::isqrt;
use crate::fixed::magnitude;
use crate::fixed::unsigned_magnitude;
use crate::fixed::Fixed;
use crate::fixed::SCALE;

verus! {

/// Values this close to a singular case are treated as being in it.
pub const EPSILON: i64 = 119;

/// Sum of the squares of four raw coordinates.
pub open spec fn square_sum4(x: int, y: int, z: int, w: int) -> int {
    x * x + y * y + z * z + w * w
}

/// A rotation, or any other quaternion `w + xi + yj + zk`.
#[derive(Clone, Copy, Debug)]
pub struct Quat {
    pub x: Fixed,
    pub y: Fixed,
    pub z: Fixed,
    pub w: Fixed,
}

impl Quat {
    /// The rotation that moves nothing.
    pub open spec fn spec_id() -> Quat {
        Quat { x: Fixed::spec_zero(), y: Fixed::spec_zero(), z: Fixed::spec_zero(), w: Fixed::spec_one() }
    }

    /// The half turn about y, which stands in where a rotation cannot be
    /// told from its data.
    pub open spec fn spec_half_turn() -> Quat {
        Quat { x: Fixed::spec_zero(), y: Fixed::spec_one(), z: Fixed::spec_zero(), w: Fixed::spec_zero() }
    }

    /// The vector part `(x, y, z)`.
    pub open spec fn spec_vector(self) -> Vec3 {
        Vec3 { x: self.x, y: self.y, z: self.z }
    }

    /// The quaternion with vector part `v` and scalar part `w`.
    pub open spec fn spec_from_parts(v: Vec3, w: Fixed) -> Quat {
        Quat { x: v.x, y: v.y, z: v.z, w }
    }

    /// Whether two quaternions are the same rotation written the same way or
    /// with every sign turned.
    pub open spec fn spec_same_rotation(self, other: Quat) -> bool {
        ||| (self.x == other.x && self.y == other.y && self.z == other.z && self.w == other.w)
        ||| (self.x == other.x.spec_neg() && self.y == other.y.spec_neg() && self.z
            == other.z.spec_neg() && self.w == other.w.spec_neg())
    }

    /// Squared length.
    pub open spec fn spec_mag_squared(self) -> Fixed {
        spec_dot4(self.x, self.x, self.y, self.y, self.z, self.z, self.w, self.w)
    }

    /// Length: the rounded-down square root of the exact sum of squares.
    pub open spec fn spec_mag(self) -> Fixed {
        Fixed::of(floor_sqrt(square_sum4(self.x@, self.y@, self.z@, self.w@)))
    }

    /// The quaternion divided by its length; one of length zero is kept.
    pub open spec fn spec_norm(self) -> Quat {
        let len = self.spec_mag();
        if len@ == 0 {
            self
        } else {
            Quat {
                x: self.x.spec_div(len),
                y: self.y.spec_div(len),
                z: self.z.spec_div(len),
                w: self.w.spec_div(len),
            }
        }
    }

    /// The inverse of a rotation: the vector part negated.
    pub open spec fn spec_conjugate(self) -> Quat {
        Quat { x: self.x.spec_neg(), y: self.y.spec_neg(), z: self.z.spec_neg(), w: self.w }
    }

    /// The Hamilton product `self * other`.
    pub open spec fn spec_mul(self, other: Quat) -> Quat {
        Quat {
            x: self.w.spec_mul(other.x).spec_add(self.x.spec_mul(other.w)).spec_add(
                self.y.spec_mul(other.z),
            ).spec_sub(self.z.spec_mul(other.y)),
            y: self.w.spec_mul(other.y).spec_add(self.y.spec_mul(other.w)).spec_add(
                self.z.spec_mul(other.x),
            ).spec_sub(self.x.spec_mul(other.z)),
            z: self.w.spec_mul(other.z).spec_add(self.z.spec_mul(other.w)).spec_add(
                self.x.spec_mul(other.y),
            ).spec_sub(self.y.spec_mul(other.x)),
            w: self.w.spec_mul(other.w).spec_sub(self.x.spec_mul(other.x)).spec_sub(
                self.y.spec_mul(other.y),
            ).spec_sub(self.z.spec_mul(other.z)),
        }
    }

    /// Every component multiplied by `k`.
    pub open spec fn spec_scale(self, k: Fixed) -> Quat {
        Quat {
            x: self.x.spec_mul(k),
            y: self.y.spec_mul(k),
            z: self.z.spec_mul(k),
            w: self.w.spec_mul(k),
        }
    }

    /// Componentwise sum.
    pub open spec fn spec_add(self, other: Quat) -> Quat {
        Quat {
            x: self.x.spec_add(other.x),
            y: self.y.spec_add(other.y),
            z: self.z.spec_add(other.z),
            w: self.w.spec_add(other.w),
        }
    }

    /// The rotation matrix of a unit quaternion, taken as it is.
    pub open spec fn spec_to_mat_raw(self) -> Mat {
        let o = Fixed::spec_zero();
        let i = Fixed::spec_one();
        let two = Fixed::spec_from_int(2);
        let x0 = i.spec_sub(two.spec_mul(self.y).spec_mul(self.y)).spec_sub(
            two.spec_mul(self.z).spec_mul(self.z),
        );
        let y0 = two.spec_mul(self.x).spec_mul(self.y).spec_sub(
            two.spec_mul(self.z).spec_mul(self.w),
        );
        let z0 = two.spec_mul(self.x).spec_mul(self.z).spec_add(
            two.spec_mul(self.y).spec_mul(self.w),
        );
        let x1 = two.spec_mul(self.x).spec_mul(self.y).spec_add(
            two.spec_mul(self.z).spec_mul(self.w),
        );
        let y1 = i.spec_sub(two.spec_mul(self.x).spec_mul(self.x)).spec_sub(
            two.spec_mul(self.z).spec_mul(self.z),
        );
        let z1 = two.spec_mul(self.y).spec_mul(self.z).spec_sub(
            two.spec_mul(self.x).spec_mul(self.w),
        );
        let x2 = two.spec_mul(self.x).spec_mul(self.z).spec_sub(
            two.spec_mul(self.y).spec_mul(self.w),
        );
        let y2 = two.spec_mul(self.y).spec_mul(self.z).spec_add(
            two.spec_mul(self.x).spec_mul(self.w),
        );
        let z2 = i.spec_sub(two.spec_mul(self.x).spec_mul(self.x)).spec_sub(
            two.spec_mul(self.y).spec_mul(self.y),
        );
        Mat::spec_new(x0, y0, z0, o, x1, y1, z1, o, x2, y2, z2, o, o, o, o, i)
    }

    /// The rotation matrix of the quaternion scaled to unit length.
    pub open spec fn spec_to_mat(self) -> Mat {
        self.spec_norm().spec_to_mat_raw()
    }

    /// The image of the point `v` under the rotation.
    pub open spec fn spec_rotate(self, v: Vec3) -> Vec3 {
        self.spec_to_mat().spec_apply(v)
    }

    /// The quaternion of a rotation matrix. A matrix whose trace gives no
    /// scalar part is answered by the half turn about y.
    pub open spec fn spec_from_mat(m: Mat) -> Quat {
        let w = Fixed::spec_one().spec_add(m.x0).spec_add(m.y1).spec_add(m.z2).spec_sqrt().spec_mul(
            Fixed::spec_from_ratio(1, 2),
        );
        let x4 = w.spec_mul(Fixed::spec_from_int(4));
        if x4@ == 0 {
            Quat::spec_half_turn()
        } else {
            Quat {
                x: m.z1.spec_sub(m.y2).spec_div(x4),
                y: m.x2.spec_sub(m.z0).spec_div(x4),
                z: m.y0.spec_sub(m.x1).spec_div(x4),
                w,
            }
        }
    }

    /// The rotation by `angle` about the unit vector `axis`.
    pub open spec fn spec_axis_angle_raw(axis: Vec3, angle: Fixed) -> Quat {
        let half = Fixed::spec_from_ratio(1, 2).spec_mul(angle);
        Quat::spec_from_parts(axis.spec_scale(half.spec_sin()), half.spec_cos())
    }

    /// The rotation by `angle` about `axis`.
    pub open spec fn spec_axis_angle(axis: Vec3, angle: Fixed) -> Quat {
        Quat::spec_axis_angle_raw(axis.spec_norm(), angle)
    }

    /// The shortest rotation that turns `from` into `to`, both of unit
    /// length; the half turn about y where they point opposite ways.
    pub open spec fn spec_simple(from: Vec3, to: Vec3) -> Quat {
        let axis = from.spec_cross(to);
        let dot = from.spec_dot(to);
        if dot@ < -SCALE + EPSILON {
            Quat::spec_half_turn()
        } else {
            Quat::spec_from_parts(axis, dot.spec_add(Fixed::spec_one())).spec_norm()
        }
    }

    /// The angle of a unit quaternion: twice the arccosine of its scalar
    /// part.
    pub open spec fn spec_angle(self) -> Fixed {
        self.w.spec_acos().spec_mul(Fixed::spec_from_int(2))
    }

    /// Axis and angle of a unit quaternion. Near the identity the vector
    /// part is given as the axis, unscaled.
    pub open spec fn spec_to_axis_angle_raw(self) -> (Vec3, Fixed) {
        let sine = Fixed::spec_one().spec_sub(self.w.spec_mul(self.w)).spec_sqrt();
        if sine@ < EPSILON {
            (self.spec_vector(), self.spec_angle())
        } else {
            (self.spec_vector().spec_unscale(sine), self.spec_angle())
        }
    }

    /// Axis and angle; a quaternion whose scalar part exceeds one is scaled
    /// to unit length first.
    pub open spec fn spec_to_axis_angle(self) -> (Vec3, Fixed) {
        if self.w@ > SCALE {
            self.spec_norm().spec_to_axis_angle_raw()
        } else {
            self.spec_to_axis_angle_raw()
        }
    }

    /// The rotation carried out to the fraction `t`: the same axis, `t`
    /// times the angle. The quaternion is scaled to unit length first; one
    /// with next to no vector part gives the identity.
    pub open spec fn spec_pow(self, t: Fixed) -> Quat {
        let unit = self.spec_norm();
        let sine = unit.spec_vector().spec_mag();
        if sine@ <= EPSILON {
            Quat::spec_id()
        } else {
            let half = sine.spec_atan2(unit.w).spec_mul(t);
            Quat::spec_from_parts(
                unit.spec_vector().spec_unscale(sine).spec_scale(half.spec_sin()),
                half.spec_cos(),
            )
        }
    }

    pub fn new(x: Fixed, y: Fixed, z: Fixed, w: Fixed) -> (r: Quat)
        ensures
            r == (Quat { x, y, z, w }),
    {
        Quat { x, y, z, w }
    }

    /// The quaternion of a rotation matrix.
    pub fn from_mat(m: Mat) -> (r: Quat)
        ensures
            r == Quat::spec_from_mat(m),
    {
        let w = (Fixed::one() + m.x0 + m.y1 + m.z2).sqrt() * Fixed::from_ratio(1, 2);
        let x4 = w * Fixed::from_int(4);
        if x4.raw == 0 {
            Quat::half_turn()
        } else {
            Quat { x: (m.z1 - m.y2) / x4, y: (m.x2 - m.z0) / x4, z: (m.y0 - m.x1) / x4, w }
        }
    }

    /// The rotation that moves nothing.
    pub fn id() -> (r: Quat)
        ensures
            r == Quat::spec_id(),
    {
        Quat { x: Fixed::zero(), y: Fixed::zero(), z: Fixed::zero(), w: Fixed::one() }
    }

    /// The half turn about y.
    pub fn half_turn() -> (r: Quat)
        ensures
            r == Quat::spec_half_turn(),
    {
        Quat { x: Fixed::zero(), y: Fixed::one(), z: Fixed::zero(), w: Fixed::zero() }
    }

    /// The rotation by `angle` about `axis`.
    pub fn axis_angle(axis: Vec3, angle: Fixed) -> (r: Quat)
        ensures
            r == Quat::spec_axis_angle(axis, angle),
    {
        Quat::axis_angle_raw(axis.norm(), angle)
    }

    /// The rotation by `angle` about the unit vector `axis`.
    pub fn axis_angle_raw(axis: Vec3, angle: Fixed) -> (r: Quat)
        ensures
            r == Quat::spec_axis_angle_raw(axis, angle),
            angle@ == 0 ==> r == Quat::spec_from_parts(
                axis.spec_scale(Fixed::spec_zero()),
                Fixed::spec_one(),
            ),
    {
        let half = Fixed::from_ratio(1, 2) * angle;
        proof {
            if angle@ == 0 {
                assert(Fixed::spec_from_ratio(1, 2)@ * angle@ == 0) by (nonlinear_arith)
                    requires
                        angle@ == 0,
                ;
                assert(half@ == 0);
            }
        }
        let half_sin = half.sin();
        let half_cos = half.cos();
        Quat { x: axis.x * half_sin, y: axis.y * half_sin, z: axis.z * half_sin, w: half_cos }
    }

    /// The shortest rotation that turns `from` into `to`.
    pub fn simple(from: Vec3, to: Vec3) -> (r: Quat)
        ensures
            r == Quat::spec_simple(from, to),
    {
        let axis = from.cross(to);
        let dot = from.dot(to);
        if dot.raw < -SCALE + EPSILON {
            Quat::half_turn()
        } else {
            (Quat { x: axis.x, y: axis.y, z: axis.z, w: dot + Fixed::one() }).norm()
        }
    }

    pub fn norm(self) -> (r: Quat)
        ensures
            r == self.spec_norm(),
    {
        let len = self.mag();
        if len.raw == 0 {
            self
        } else {
            Quat { x: self.x / len, y: self.y / len, z: self.z / len, w: self.w / len }
        }
    }

    pub fn mag_squared(self) -> (r: Fixed)
        ensures
            r == self.spec_mag_squared(),
    {
        dot4(self.x, self.x, self.y, self.y, self.z, self.z, self.w, self.w)
    }

    pub fn mag(self) -> (r: Fixed)
        ensures
            r == self.spec_mag(),
            r@ >= 0,
    {
        let sx: u128 = square(unsigned_magnitude(self.x.raw));
        let sy: u128 = square(unsigned_magnitude(self.y.raw));
        let sz: u128 = square(unsigned_magnitude(self.z.raw));
        let sw: u128 = square(unsigned_magnitude(self.w.raw));
        proof {
            assert(sx == self.x@ * self.x@) by (nonlinear_arith)
                requires
                    sx == magnitude(self.x@) * magnitude(self.x@),
            ;
            assert(sy == self.y@ * self.y@) by (nonlinear_arith)
                requires
                    sy == magnitude(self.y@) * magnitude(self.y@),
            ;
            assert(sz == self.z@ * self.z@) by (nonlinear_arith)
                requires
                    sz == magnitude(self.z@) * magnitude(self.z@),
            ;
            assert(sw == self.w@ * self.w@) by (nonlinear_arith)
                requires
                    sw == magnitude(self.w@) * magnitude(self.w@),
            ;
        }
        let three: u128 = sx + sy + sz;
        if sw > u128::MAX - three {
            proof {
                let total = square_sum4(self.x@, self.y@, self.z@, self.w@);
                lemma_root_of_large(total);
            }
            Fixed { raw: i64::MAX }
        } else {
            let root: u64 = isqrt(three + sw);
            if root > 0x7fff_ffff_ffff_ffff {
                Fixed { raw: i64::MAX }
            } else {
                Fixed { raw: root as i64 }
            }
        }
    }

    /// The inverse of a rotation.
    pub fn conjugate(self) -> (r: Quat)
        ensures
            r == self.spec_conjugate(),
    {
        Quat { x: self.x.neg(), y: self.y.neg(), z: self.z.neg(), w: self.w }
    }

    /// The rotation matrix of the quaternion scaled to unit length.
    pub fn to_mat(self) -> (r: Mat)
        ensures
            r == self.spec_to_mat(),
    {
        self.norm().to_mat_raw()
    }

    /// The rotation matrix of a unit quaternion, taken as it is.
    pub fn to_mat_raw(self) -> (r: Mat)
        ensures
            r == self.spec_to_mat_raw(),
    {
        let o = Fixed::zero();
        let i = Fixed::one();
        let two = Fixed::from_int(2);
        let x0 = i - two * self.y * self.y - two * self.z * self.z;
        let y0 = two * self.x * self.y - two * self.z * self.w;
        let z0 = two * self.x * self.z + two * self.y * self.w;
        let x1 = two * self.x * self.y + two * self.z * self.w;
        let y1 = i - two * self.x * self.x - two * self.z * self.z;
        let z1 = two * self.y * self.z - two * self.x * self.w;
        let x2 = two * self.x * self.z - two * self.y * self.w;
        let y2 = two * self.y * self.z + two * self.x * self.w;
        let z2 = i - two * self.x * self.x - two * self.y * self.y;
        Mat::new(x0, y0, z0, o, x1, y1, z1, o, x2, y2, z2, o, o, o, o, i)
    }

    /// Axis and angle of the rotation.
    pub fn to_axis_angle(self) -> (r: (Vec3, Fixed))
        ensures
            r == self.spec_to_axis_angle(),
    {
        let this = if self.w.raw > SCALE {
            self.norm()
        } else {
            self
        };
        this.to_axis_angle_raw()
    }

    /// Axis and angle of a unit quaternion.
    pub fn to_axis_angle_raw(self) -> (r: (Vec3, Fixed))
        ensures
            r == self.spec_to_axis_angle_raw(),
    {
        let sine = (Fixed::one() - self.w * self.w).sqrt();
        if sine.raw < EPSILON {
            (Vec3::new(self.x, self.y, self.z), self.angle())
        } else {
            (Vec3::new(self.x / sine, self.y / sine, self.z / sine), self.angle())
        }
    }

    /// The angle of a unit quaternion.
    pub fn angle(self) -> (r: Fixed)
        ensures
            r == self.spec_angle(),
    {
        self.w.acos() * Fixed::from_int(2)
    }

    /// The rotation carried out to the fraction `t`.
    pub fn pow(self, t: Fixed) -> (r: Quat)
        ensures
            r == self.spec_pow(t),
    {
        let unit = self.norm();
        let vector = Vec3::new(unit.x, unit.y, unit.z);
        let sine = vector.mag();
        if sine.raw <= EPSILON {
            Quat::id()
        } else {
            let half = sine.atan2(unit.w) * t;
            let turned = vector / sine * half.sin();
            Quat { x: turned.x, y: turned.y, z: turned.z, w: half.cos() }
        }
    }
}

/// A sum of squares past the 128-bit range has a root past the 64-bit range.
pub proof fn lemma_root_of_large(total: int)
    requires
        total >= 0x1_0000_0000_0000_0000_0000_0000_0000_0000,
    ensures
        Fixed::of(floor_sqrt(total))@ == i64::MAX,
{
    crate::fixed::lemma_floor_sqrt_exists(total as nat);
    let r = floor_sqrt(total);
    if r < 0x8000_0000_0000_0000 {
        assert((r + 1) * (r + 1) <= 0x8000_0000_0000_0000int * 0x8000_0000_0000_0000int)
            by (nonlinear_arith)
            requires
                0 <= r,
                r + 1 <= 0x8000_0000_0000_0000int,
        ;
        assert(0x8000_0000_0000_0000int * 0x8000_0000_0000_0000int
            == 0x4000_0000_0000_0000_0000_0000_0000_0000int) by (nonlinear_arith);
    }
}

impl PartialEq for Quat {
    /// Two quaternions are equal when they are the same rotation written
    /// the same way or with every sign turned.
    fn eq(&self, other: &Quat) -> (r: bool)
        ensures
            r == self.spec_same_rotation(*other),
    {
        let equal = self.x.raw == other.x.raw && self.y.raw == other.y.raw && self.z.raw
            == other.z.raw && self.w.raw == other.w.raw;
        if !equal {
            self.x == other.x.neg() && self.y == other.y.neg() && self.z == other.z.neg() && self.w
                == other.w.neg()
        } else {
            true
        }
    }
}

impl PartialEqSpecImpl for Quat {
    open spec fn obeys_eq_spec() -> bool {
        true
    }

    open spec fn eq_spec(&self, other: &Quat) -> bool {
        self.spec_same_rotation(*other)
    }
}

impl core::ops::Mul for Quat {
    type Output = Quat;

    /// The Hamilton product: `other` first, then `self`.
    fn mul(self, other: Quat) -> (r: Quat)
        ensures
            r == self.spec_mul(other),
    {
        let x = self.w * other.x + self.x * other.w + self.y * other.z - self.z * other.y;
        let y = self.w * other.y + self.y * other.w + self.z * other.x - self.x * other.z;
        let z = self.w * other.z + self.z * other.w + self.x * other.y - self.y * other.x;
        let w = self.w * other.w - self.x * other.x - self.y * other.y - self.z * other.z;
        Quat { x, y, z, w }
    }
}

impl vstd::std_specs::ops::MulSpecImpl for Quat {
    open spec fn obeys_mul_spec() -> bool {
        true
    }

    open spec fn mul_req(self, other: Quat) -> bool {
        true
    }

    open spec fn mul_spec(self, other: Quat) -> Quat {
        self.spec_mul(other)
    }
}

impl core::ops::Mul<Vec3> for Quat {
    type Output = Vec3;

    /// The image of the point `vec` under the rotation.
    fn mul(self, vec: Vec3) -> (r: Vec3)
        ensures
            r == self.spec_rotate(vec),
    {
        self.to_mat() * vec
    }
}

impl vstd::std_specs::ops::MulSpecImpl<Vec3> for Quat {
    open spec fn obeys_mul_spec() -> bool {
        true
    }

    open spec fn mul_req(self, vec: Vec3) -> bool {
        true
    }

    open spec fn mul_spec(self, vec: Vec3) -> Vec3 {
        self.spec_rotate(vec)
    }
}

impl core::ops::Mul<Fixed> for Quat {
    type Output = Quat;

    fn mul(self, scalar: Fixed) -> (r: Quat)
        ensures
            r == self.spec_scale(scalar),
    {
        Quat { x: self.x * scalar, y: self.y * scalar, z: self.z * scalar, w: self.w * scalar }
    }
}

impl vstd::std_specs::ops::MulSpecImpl<Fixed> for Quat {
    open spec fn obeys_mul_spec() -> bool {
        true
    }

    open spec fn mul_req(self, scalar: Fixed) -> bool {
        true
    }

    open spec fn mul_spec(self, scalar: Fixed) -> Quat {
        self.spec_scale(scalar)
    }
}

impl core::ops::Add for Quat {
    type Output = Quat;

    fn add(self, other: Quat) -> (r: Quat)
        ensures
            r == self.spec_add(other),
    {
        Quat { x: self.x + other.x, y: self.y + other.y, z: self.z + other.z, w: self.w + other.w }
    }
}

impl vstd::std_specs::ops::AddSpecImpl for Quat {
    open spec fn obeys_add_spec() -> bool {
        true
    }

    open spec fn add_req(self, other: Quat) -> bool {
        true
    }

    open spec fn add_spec(self, other: Quat) -> Quat {
        self.spec_add(other)
    }
}

} // verus!
