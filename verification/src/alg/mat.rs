//! Four-by-four matrices of fixed-point numbers.
//!
//! A matrix is written row by row: `x0 x1 x2 x3` is the first row, and the
//! fourth column `x3 y3 z3` holds the translation.

use vstd::prelude::*;
use core::ops::Neg;
use crate::alg::vec3::Vec3;
use crate::fixed::Fixed;

verus! {

/// Below this value of the cosine of the middle angle, a rotation matrix is
/// taken to be in gimbal lock.
pub const CARDAN_SINGULAR: i64 = 1_907;

/// `a1 * b1 + a2 * b2 + a3 * b3 + a4 * b4`, each product and sum rounded and
/// saturated in turn, from the left.
pub open spec fn spec_dot4(
    a1: Fixed,
    b1: Fixed,
    a2: Fixed,
    b2: Fixed,
    a3: Fixed,
    b3: Fixed,
    a4: Fixed,
    b4: Fixed,
) -> Fixed {
    a1.spec_mul(b1).spec_add(a2.spec_mul(b2)).spec_add(a3.spec_mul(b3)).spec_add(a4.spec_mul(b4))
}

/// `a1 * b1 + a2 * b2 + a3 * b3 + a4 * b4`.
pub fn dot4(
    a1: Fixed,
    b1: Fixed,
    a2: Fixed,
    b2: Fixed,
    a3: Fixed,
    b3: Fixed,
    a4: Fixed,
    b4: Fixed,
) -> (r: Fixed)
    ensures
        r == spec_dot4(a1, b1, a2, b2, a3, b3, a4, b4),
{
    a1 * b1 + a2 * b2 + a3 * b3 + a4 * b4
}

/// A transformation of space.
#[derive(Clone, Copy, Debug, PartialEq, Eq, Structural)]
pub struct Mat {
    pub x0: Fixed,
    pub y0: Fixed,
    pub z0: Fixed,
    pub w0: Fixed,
    pub x1: Fixed,
    pub y1: Fixed,
    pub z1: Fixed,
    pub w1: Fixed,
    pub x2: Fixed,
    pub y2: Fixed,
    pub z2: Fixed,
    pub w2: Fixed,
    pub x3: Fixed,
    pub y3: Fixed,
    pub z3: Fixed,
    pub w3: Fixed,
}

impl Mat {
    /// The matrix with the given rows.
    pub open spec fn spec_new(
        x0: Fixed,
        x1: Fixed,
        x2: Fixed,
        x3: Fixed,
        y0: Fixed,
        y1: Fixed,
        y2: Fixed,
        y3: Fixed,
        z0: Fixed,
        z1: Fixed,
        z2: Fixed,
        z3: Fixed,
        w0: Fixed,
        w1: Fixed,
        w2: Fixed,
        w3: Fixed,
    ) -> Mat {
        Mat { x0, y0, z0, w0, x1, y1, z1, w1, x2, y2, z2, w2, x3, y3, z3, w3 }
    }

    /// The identity.
    pub open spec fn spec_id() -> Mat {
        let o = Fixed::spec_zero();
        let i = Fixed::spec_one();
        Mat::spec_new(i, o, o, o, o, i, o, o, o, o, i, o, o, o, o, i)
    }

    /// The translation by `(x, y, z)`.
    pub open spec fn spec_translation(x: Fixed, y: Fixed, z: Fixed) -> Mat {
        let o = Fixed::spec_zero();
        let i = Fixed::spec_one();
        Mat::spec_new(i, o, o, x, o, i, o, y, o, o, i, z, o, o, o, i)
    }

    /// The rotation about x by `rad`.
    pub open spec fn spec_rotation_x(rad: Fixed) -> Mat {
        let o = Fixed::spec_zero();
        let i = Fixed::spec_one();
        let c = rad.spec_cos();
        let s = rad.spec_sin();
        Mat::spec_new(i, o, o, o, o, c, s.spec_neg(), o, o, s, c, o, o, o, o, i)
    }

    /// The rotation about y by `rad`.
    pub open spec fn spec_rotation_y(rad: Fixed) -> Mat {
        let o = Fixed::spec_zero();
        let i = Fixed::spec_one();
        let c = rad.spec_cos();
        let s = rad.spec_sin();
        Mat::spec_new(c, o, s, o, o, i, o, o, s.spec_neg(), o, c, o, o, o, o, i)
    }

    /// The rotation about z by `rad`.
    pub open spec fn spec_rotation_z(rad: Fixed) -> Mat {
        let o = Fixed::spec_zero();
        let i = Fixed::spec_one();
        let c = rad.spec_cos();
        let s = rad.spec_sin();
        Mat::spec_new(c, s, o, o, s.spec_neg(), c, o, o, o, o, i, o, o, o, o, i)
    }

    /// The scaling by `(x, y, z)`.
    pub open spec fn spec_scale(x: Fixed, y: Fixed, z: Fixed) -> Mat {
        let o = Fixed::spec_zero();
        let i = Fixed::spec_one();
        Mat::spec_new(x, o, o, o, o, y, o, o, o, o, z, o, o, o, o, i)
    }

    /// The matrix whose first three columns are `right`, `up` and `fwd`.
    pub open spec fn spec_axes(right: Vec3, up: Vec3, fwd: Vec3) -> Mat {
        let o = Fixed::spec_zero();
        let i = Fixed::spec_one();
        Mat::spec_new(
            right.x,
            up.x,
            fwd.x,
            o,
            right.y,
            up.y,
            fwd.y,
            o,
            right.z,
            up.z,
            fwd.z,
            o,
            o,
            o,
            o,
            i,
        )
    }

    /// The matrix whose first three rows are `right`, `up` and `fwd`.
    pub open spec fn spec_inverse_axes(right: Vec3, up: Vec3, fwd: Vec3) -> Mat {
        let o = Fixed::spec_zero();
        let i = Fixed::spec_one();
        Mat::spec_new(
            right.x,
            right.y,
            right.z,
            o,
            up.x,
            up.y,
            up.z,
            o,
            fwd.x,
            fwd.y,
            fwd.z,
            o,
            o,
            o,
            o,
            i,
        )
    }

    /// Rows and columns exchanged.
    pub open spec fn spec_transpose(self) -> Mat {
        Mat::spec_new(
            self.x0,
            self.y0,
            self.z0,
            self.w0,
            self.x1,
            self.y1,
            self.z1,
            self.w1,
            self.x2,
            self.y2,
            self.z2,
            self.w2,
            self.x3,
            self.y3,
            self.z3,
            self.w3,
        )
    }

    /// The matrix product `self * m`, row by column.
    pub open spec fn spec_mul(self, m: Mat) -> Mat {
        Mat::spec_new(
            spec_dot4(self.x0, m.x0, self.x1, m.y0, self.x2, m.z0, self.x3, m.w0),
            spec_dot4(self.x0, m.x1, self.x1, m.y1, self.x2, m.z1, self.x3, m.w1),
            spec_dot4(self.x0, m.x2, self.x1, m.y2, self.x2, m.z2, self.x3, m.w2),
            spec_dot4(self.x0, m.x3, self.x1, m.y3, self.x2, m.z3, self.x3, m.w3),
            spec_dot4(self.y0, m.x0, self.y1, m.y0, self.y2, m.z0, self.y3, m.w0),
            spec_dot4(self.y0, m.x1, self.y1, m.y1, self.y2, m.z1, self.y3, m.w1),
            spec_dot4(self.y0, m.x2, self.y1, m.y2, self.y2, m.z2, self.y3, m.w2),
            spec_dot4(self.y0, m.x3, self.y1, m.y3, self.y2, m.z3, self.y3, m.w3),
            spec_dot4(self.z0, m.x0, self.z1, m.y0, self.z2, m.z0, self.z3, m.w0),
            spec_dot4(self.z0, m.x1, self.z1, m.y1, self.z2, m.z1, self.z3, m.w1),
            spec_dot4(self.z0, m.x2, self.z1, m.y2, self.z2, m.z2, self.z3, m.w2),
            spec_dot4(self.z0, m.x3, self.z1, m.y3, self.z2, m.z3, self.z3, m.w3),
            spec_dot4(self.w0, m.x0, self.w1, m.y0, self.w2, m.z0, self.w3, m.w0),
            spec_dot4(self.w0, m.x1, self.w1, m.y1, self.w2, m.z1, self.w3, m.w1),
            spec_dot4(self.w0, m.x2, self.w1, m.y2, self.w2, m.z2, self.w3, m.w2),
            spec_dot4(self.w0, m.x3, self.w1, m.y3, self.w2, m.z3, self.w3, m.w3),
        )
    }

    /// The image of the point `v`: the upper three rows applied to
    /// `(v.x, v.y, v.z, 1)`.
    pub open spec fn spec_apply(self, v: Vec3) -> Vec3 {
        Vec3 {
            x: spec_dot4(self.x0, v.x, self.x1, v.y, self.x2, v.z, self.x3, Fixed::spec_one()),
            y: spec_dot4(self.y0, v.x, self.y1, v.y, self.y2, v.z, self.y3, Fixed::spec_one()),
            z: spec_dot4(self.z0, v.x, self.z1, v.y, self.z2, v.z, self.z3, Fixed::spec_one()),
        }
    }

    /// The rotation about x, then y, then z, as one product.
    pub open spec fn spec_rotation(x: Fixed, y: Fixed, z: Fixed) -> Mat {
        Mat::spec_rotation_x(x).spec_mul(Mat::spec_rotation_y(y)).spec_mul(Mat::spec_rotation_z(z))
    }

    /// The three Cardan angles of a rotation matrix.
    pub open spec fn spec_to_cardan(self) -> (Fixed, Fixed, Fixed) {
        let cy = self.x0.spec_mul(self.x0).spec_add(self.x1.spec_mul(self.x1)).spec_sqrt();
        if cy@ < CARDAN_SINGULAR {
            (
                self.z1.spec_neg().spec_atan2(self.y1).spec_neg(),
                self.x2.spec_neg().spec_atan2(cy).spec_neg(),
                Fixed::spec_zero(),
            )
        } else {
            (
                self.y2.spec_atan2(self.z2).spec_neg(),
                self.x2.spec_neg().spec_atan2(cy).spec_neg(),
                self.x1.spec_atan2(self.x0),
            )
        }
    }

    /// The three Cardan angles, with the third taken from the first.
    pub open spec fn spec_to_cardan_safe(self) -> (Fixed, Fixed, Fixed) {
        let cy = self.x0.spec_mul(self.x0).spec_add(self.x1.spec_mul(self.x1)).spec_sqrt();
        let ax = self.y2.spec_atan2(self.z2).spec_neg();
        let cx = ax.spec_cos();
        let sx = ax.spec_sin();
        (
            ax,
            self.x2.spec_neg().spec_atan2(cy).spec_neg(),
            sx.spec_mul(self.z0).spec_sub(cx.spec_mul(self.y0)).spec_atan2(
                cx.spec_mul(self.y1).spec_sub(sx.spec_mul(self.z1)),
            ),
        )
    }

    /// The view matrix of a camera at `position` that looks at `target`.
    pub open spec fn spec_look_at_view(position: Vec3, target: Vec3, up: Vec3) -> Mat {
        let fwd = target.spec_sub(position).spec_norm();
        let right = up.spec_cross(fwd).spec_norm();
        let up = fwd.spec_cross(right);
        Mat::spec_inverse_axes(right, up, fwd).spec_mul(
            Mat::spec_translation(
                position.x.spec_neg(),
                position.y.spec_neg(),
                position.z.spec_neg(),
            ),
        )
    }

    /// The projection with a vertical field of view of `fov` degrees.
    pub open spec fn spec_perspective(fov: Fixed, aspect: Fixed, near: Fixed, far: Fixed) -> Mat {
        let o = Fixed::spec_zero();
        let i = Fixed::spec_one();
        let half = Fixed::spec_from_ratio(1, 2).spec_mul(fov).spec_to_radians();
        let y_scale = i.spec_div(half.spec_sin().spec_div(half.spec_cos()));
        let x_scale = y_scale.spec_div(aspect);
        let z_scale = i.spec_div(far.spec_sub(near));
        let z_offset = near.spec_neg().spec_div(far.spec_sub(near));
        Mat::spec_new(
            x_scale,
            o,
            o,
            o,
            o,
            y_scale.spec_neg(),
            o,
            o,
            o,
            o,
            z_scale,
            z_offset,
            o,
            o,
            i,
            o,
        )
    }

    /// The matrix with the given rows.
    pub fn new(
        x0: Fixed,
        x1: Fixed,
        x2: Fixed,
        x3: Fixed,
        y0: Fixed,
        y1: Fixed,
        y2: Fixed,
        y3: Fixed,
        z0: Fixed,
        z1: Fixed,
        z2: Fixed,
        z3: Fixed,
        w0: Fixed,
        w1: Fixed,
        w2: Fixed,
        w3: Fixed,
    ) -> (r: Mat)
        ensures
            r == Mat::spec_new(x0, x1, x2, x3, y0, y1, y2, y3, z0, z1, z2, z3, w0, w1, w2, w3),
    {
        Mat { x0, y0, z0, w0, x1, y1, z1, w1, x2, y2, z2, w2, x3, y3, z3, w3 }
    }

    /// The identity.
    pub fn id() -> (r: Mat)
        ensures
            r == Mat::spec_id(),
    {
        let o = Fixed::zero();
        let i = Fixed::one();
        Mat::new(i, o, o, o, o, i, o, o, o, o, i, o, o, o, o, i)
    }

    /// The translation by `(x, y, z)`.
    pub fn translation(x: Fixed, y: Fixed, z: Fixed) -> (r: Mat)
        ensures
            r == Mat::spec_translation(x, y, z),
    {
        let o = Fixed::zero();
        let i = Fixed::one();
        Mat::new(i, o, o, x, o, i, o, y, o, o, i, z, o, o, o, i)
    }

    /// The translation by `translation`.
    pub fn translation_vec(translation: Vec3) -> (r: Mat)
        ensures
            r == Mat::spec_translation(translation.x, translation.y, translation.z),
    {
        Mat::translation(translation.x, translation.y, translation.z)
    }

    /// The rotation about x by `rad`.
    pub fn rotation_x(rad: Fixed) -> (r: Mat)
        ensures
            r == Mat::spec_rotation_x(rad),
    {
        let o = Fixed::zero();
        let i = Fixed::one();
        let c = rad.cos();
        let s = rad.sin();
        Mat::new(i, o, o, o, o, c, s.neg(), o, o, s, c, o, o, o, o, i)
    }

    /// The rotation about y by `rad`.
    pub fn rotation_y(rad: Fixed) -> (r: Mat)
        ensures
            r == Mat::spec_rotation_y(rad),
    {
        let o = Fixed::zero();
        let i = Fixed::one();
        let c = rad.cos();
        let s = rad.sin();
        Mat::new(c, o, s, o, o, i, o, o, s.neg(), o, c, o, o, o, o, i)
    }

    /// The rotation about z by `rad`.
    pub fn rotation_z(rad: Fixed) -> (r: Mat)
        ensures
            r == Mat::spec_rotation_z(rad),
    {
        let o = Fixed::zero();
        let i = Fixed::one();
        let c = rad.cos();
        let s = rad.sin();
        Mat::new(c, s, o, o, s.neg(), c, o, o, o, o, i, o, o, o, o, i)
    }

    /// The rotation about x, then y, then z, as one product.
    pub fn rotation(x: Fixed, y: Fixed, z: Fixed) -> (r: Mat)
        ensures
            r == Mat::spec_rotation(x, y, z),
    {
        Mat::rotation_x(x) * Mat::rotation_y(y) * Mat::rotation_z(z)
    }

    /// The scaling by `(x, y, z)`.
    pub fn scale(x: Fixed, y: Fixed, z: Fixed) -> (r: Mat)
        ensures
            r == Mat::spec_scale(x, y, z),
    {
        let o = Fixed::zero();
        let i = Fixed::one();
        Mat::new(x, o, o, o, o, y, o, o, o, o, z, o, o, o, o, i)
    }

    /// The scaling by `scale`.
    pub fn scale_vec(scale: Vec3) -> (r: Mat)
        ensures
            r == Mat::spec_scale(scale.x, scale.y, scale.z),
    {
        Mat::scale(scale.x, scale.y, scale.z)
    }

    /// The matrix whose first three columns are `right`, `up` and `fwd`.
    pub fn axes(right: Vec3, up: Vec3, fwd: Vec3) -> (r: Mat)
        ensures
            r == Mat::spec_axes(right, up, fwd),
    {
        let o = Fixed::zero();
        let i = Fixed::one();
        Mat::new(
            right.x,
            up.x,
            fwd.x,
            o,
            right.y,
            up.y,
            fwd.y,
            o,
            right.z,
            up.z,
            fwd.z,
            o,
            o,
            o,
            o,
            i,
        )
    }

    /// The matrix whose first three rows are `right`, `up` and `fwd`: the
    /// inverse of [`Mat::axes`] for an orthonormal triple.
    pub fn inverse_axes(right: Vec3, up: Vec3, fwd: Vec3) -> (r: Mat)
        ensures
            r == Mat::spec_inverse_axes(right, up, fwd),
            r == Mat::spec_axes(right, up, fwd).spec_transpose(),
    {
        let o = Fixed::zero();
        let i = Fixed::one();
        Mat::new(
            right.x,
            right.y,
            right.z,
            o,
            up.x,
            up.y,
            up.z,
            o,
            fwd.x,
            fwd.y,
            fwd.z,
            o,
            o,
            o,
            o,
            i,
        )
    }

    /// The three Cardan angles of a rotation matrix; the third is zero in
    /// gimbal lock.
    pub fn to_cardan(self) -> (r: (Fixed, Fixed, Fixed))
        ensures
            r == self.spec_to_cardan(),
    {
        let cy = (self.x0 * self.x0 + self.x1 * self.x1).sqrt();
        if cy.raw < CARDAN_SINGULAR {
            (
                self.z1.neg().atan2(self.y1).neg(),
                self.x2.neg().atan2(cy).neg(),
                Fixed::zero(),
            )
        } else {
            (
                self.y2.atan2(self.z2).neg(),
                self.x2.neg().atan2(cy).neg(),
                self.x1.atan2(self.x0),
            )
        }
    }

    /// The three Cardan angles, with the third taken from the first.
    pub fn to_cardan_safe(self) -> (r: (Fixed, Fixed, Fixed))
        ensures
            r == self.spec_to_cardan_safe(),
    {
        let cy = (self.x0 * self.x0 + self.x1 * self.x1).sqrt();
        let ax = self.y2.atan2(self.z2).neg();
        let cx = ax.cos();
        let sx = ax.sin();
        (
            ax,
            self.x2.neg().atan2(cy).neg(),
            (sx * self.z0 - cx * self.y0).atan2(cx * self.y1 - sx * self.z1),
        )
    }

    /// The view matrix of a camera at `position` that looks at `target`.
    pub fn look_at_view(position: Vec3, target: Vec3, up: Vec3) -> (r: Mat)
        ensures
            r == Mat::spec_look_at_view(position, target, up),
    {
        let fwd = (target - position).norm();
        let right = up.cross(fwd).norm();
        let up = fwd.cross(right);
        let inverse_rotation = Mat::inverse_axes(right, up, fwd);
        let inverse_position = Mat::translation(
            position.x.neg(),
            position.y.neg(),
            position.z.neg(),
        );
        inverse_rotation * inverse_position
    }

    /// The projection with a vertical field of view of `fov` degrees, onto
    /// depths from zero at `near` to one at `far`, with y pointing down.
    pub fn perspective(fov: Fixed, aspect: Fixed, near: Fixed, far: Fixed) -> (r: Mat)
        ensures
            r == Mat::spec_perspective(fov, aspect, near, far),
    {
        let o = Fixed::zero();
        let i = Fixed::one();
        let half = (Fixed::from_ratio(1, 2) * fov).to_radians();
        let y_scale = i / (half.sin() / half.cos());
        let x_scale = y_scale / aspect;
        let z_scale = i / (far - near);
        let z_offset = near.neg() / (far - near);
        Mat::new(x_scale, o, o, o, o, y_scale.neg(), o, o, o, o, z_scale, z_offset, o, o, i, o)
    }

    /// Rows and columns exchanged.
    pub fn transpose(self) -> (r: Mat)
        ensures
            r == self.spec_transpose(),
    {
        Mat::new(
            self.x0,
            self.y0,
            self.z0,
            self.w0,
            self.x1,
            self.y1,
            self.z1,
            self.w1,
            self.x2,
            self.y2,
            self.z2,
            self.w2,
            self.x3,
            self.y3,
            self.z3,
            self.w3,
        )
    }
}

impl core::ops::Mul for Mat {
    type Output = Mat;

    /// The matrix product, row by column.
    fn mul(self, m: Mat) -> (r: Mat)
        ensures
            r == self.spec_mul(m),
    {
        let x0 = dot4(self.x0, m.x0, self.x1, m.y0, self.x2, m.z0, self.x3, m.w0);
        let x1 = dot4(self.x0, m.x1, self.x1, m.y1, self.x2, m.z1, self.x3, m.w1);
        let x2 = dot4(self.x0, m.x2, self.x1, m.y2, self.x2, m.z2, self.x3, m.w2);
        let x3 = dot4(self.x0, m.x3, self.x1, m.y3, self.x2, m.z3, self.x3, m.w3);
        let y0 = dot4(self.y0, m.x0, self.y1, m.y0, self.y2, m.z0, self.y3, m.w0);
        let y1 = dot4(self.y0, m.x1, self.y1, m.y1, self.y2, m.z1, self.y3, m.w1);
        let y2 = dot4(self.y0, m.x2, self.y1, m.y2, self.y2, m.z2, self.y3, m.w2);
        let y3 = dot4(self.y0, m.x3, self.y1, m.y3, self.y2, m.z3, self.y3, m.w3);
        let z0 = dot4(self.z0, m.x0, self.z1, m.y0, self.z2, m.z0, self.z3, m.w0);
        let z1 = dot4(self.z0, m.x1, self.z1, m.y1, self.z2, m.z1, self.z3, m.w1);
        let z2 = dot4(self.z0, m.x2, self.z1, m.y2, self.z2, m.z2, self.z3, m.w2);
        let z3 = dot4(self.z0, m.x3, self.z1, m.y3, self.z2, m.z3, self.z3, m.w3);
        let w0 = dot4(self.w0, m.x0, self.w1, m.y0, self.w2, m.z0, self.w3, m.w0);
        let w1 = dot4(self.w0, m.x1, self.w1, m.y1, self.w2, m.z1, self.w3, m.w1);
        let w2 = dot4(self.w0, m.x2, self.w1, m.y2, self.w2, m.z2, self.w3, m.w2);
        let w3 = dot4(self.w0, m.x3, self.w1, m.y3, self.w2, m.z3, self.w3, m.w3);
        Mat::new(x0, x1, x2, x3, y0, y1, y2, y3, z0, z1, z2, z3, w0, w1, w2, w3)
    }
}

impl vstd::std_specs::ops::MulSpecImpl for Mat {
    open spec fn obeys_mul_spec() -> bool {
        true
    }

    open spec fn mul_req(self, m: Mat) -> bool {
        true
    }

    open spec fn mul_spec(self, m: Mat) -> Mat {
        self.spec_mul(m)
    }
}

impl core::ops::Mul<Vec3> for Mat {
    type Output = Vec3;

    /// The image of the point `vec`.
    fn mul(self, vec: Vec3) -> (r: Vec3)
        ensures
            r == self.spec_apply(vec),
    {
        let one = Fixed::one();
        Vec3::new(
            dot4(self.x0, vec.x, self.x1, vec.y, self.x2, vec.z, self.x3, one),
            dot4(self.y0, vec.x, self.y1, vec.y, self.y2, vec.z, self.y3, one),
            dot4(self.z0, vec.x, self.z1, vec.y, self.z2, vec.z, self.z3, one),
        )
    }
}

impl vstd::std_specs::ops::MulSpecImpl<Vec3> for Mat {
    open spec fn obeys_mul_spec() -> bool {
        true
    }

    open spec fn mul_req(self, vec: Vec3) -> bool {
        true
    }

    open spec fn mul_spec(self, vec: Vec3) -> Vec3 {
        self.spec_apply(vec)
    }
}

} // verus!
