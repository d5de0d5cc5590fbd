//! Joints between limbs: a child limb is held with its start at the end of
//! its parent, its swing kept inside a cone about the parent's forward axis
//! and its twist about that axis kept inside a range.
//!
//! One pass over a joint is stated by `spec_solve`, which is put together
//! from the smaller statements above it; `solve` carries it out on two
//! bodies in place.

use vstd::prelude::*;
use core::ops::Neg;
use crate::alg::mat::Mat;
use crate::alg::quat::Quat;
use crate::alg::quat::EPSILON;
use crate::alg::vec3::Vec3;
use crate::body::Instance;
use crate::body::Particle;
use crate::fixed::Fixed;
use crate::limb::spec_end;
use crate::limb::spec_inverse_orientation;
use crate::limb::spec_orientation;
use crate::limb::spec_shift;
use crate::limb::spec_shift_back;
use crate::limb::spec_start;
use crate::limb::spec_transform_around;
use crate::limb::CORNERS;
use crate::trig::HALF_PI;
use crate::tuning::JOINT_ANG_RIGID;
use crate::tuning::JOINT_POS_RIGID;

verus! {

/// How far behind a face of the cone a direction may lie and still count
/// as inside.
pub const CONE_TOLERANCE: i64 = 100_000;

/// A range of angles, in radians.
#[derive(Clone, Copy, Debug, PartialEq, Eq, Structural)]
pub struct Range {
    pub min: Fixed,
    pub max: Fixed,
}

/// A joint between the bodies in two slots of a manager.
#[derive(Clone, Copy, Debug, PartialEq, Eq, Structural)]
pub struct Joint {
    pub parent: usize,
    pub child: usize,
    /// Limits of the swing about the parent's x axis.
    pub x_limit: Range,
    /// Limits of the swing about the parent's y axis.
    pub y_limit: Range,
    /// Limits of the twist about the forward axis.
    pub z_limit: Range,
}

impl Joint {
    pub fn new(parent: usize, child: usize, x_limit: Range, y_limit: Range, z_limit: Range) -> (r:
        Joint)
        ensures
            r == (Joint { parent, child, x_limit, y_limit, z_limit }),
    {
        Joint { parent, child, x_limit, y_limit, z_limit }
    }
}

/// One face of a joint's cone: the plane through the origin and two
/// neighbouring edges of the cone, with its normal pointing inward.
#[derive(Clone, Copy, Debug, PartialEq, Eq, Structural)]
pub struct ReachPlane {
    pub normal: Vec3,
}

impl ReachPlane {
    /// Whether `point` is on the inner side, or behind the face by no more
    /// than the tolerance.
    pub open spec fn spec_contains(self, point: Vec3) -> bool {
        self.normal.spec_dot(point)@ >= -CONE_TOLERANCE
    }

    /// Whether the point one `ray` away from the forward axis is on the
    /// outer side.
    pub open spec fn spec_intersects(self, ray: Vec3) -> bool {
        self.normal.spec_dot(Vec3::spec_fwd().spec_add(ray))@ < 0
    }

    /// The step along `ray`, from the tip of the forward axis, that ends on
    /// the face.
    pub open spec fn spec_intersection(self, ray: Vec3) -> Vec3 {
        let div = self.normal.spec_dot(ray).spec_add(Fixed { raw: EPSILON });
        let scalar = Vec3::spec_fwd().spec_neg().spec_dot(self.normal).spec_div(div);
        ray.spec_scale(scalar)
    }

    /// The face through the edges `left` and `right`.
    pub fn new(left: Vec3, right: Vec3) -> (r: ReachPlane)
        ensures
            r.normal == left.spec_cross(right),
    {
        ReachPlane { normal: left.cross(right) }
    }

    /// Whether `point` is on the inner side, or behind the face by no more
    /// than the tolerance.
    pub fn contains(self, point: Vec3) -> (r: bool)
        ensures
            r == self.spec_contains(point),
    {
        self.normal.dot(point).raw >= -CONE_TOLERANCE
    }

    /// Whether the point one `ray` away from the forward axis is on the
    /// outer side.
    pub fn intersects(self, ray: Vec3) -> (r: bool)
        ensures
            r == self.spec_intersects(ray),
    {
        self.normal.dot(Vec3::fwd() + ray).raw < 0
    }

    /// The step along `ray`, from the tip of the forward axis, that ends on
    /// the face.
    pub fn intersection(self, ray: Vec3) -> (r: Vec3)
        ensures
            r == self.spec_intersection(ray),
    {
        let div = self.normal.dot(ray) + Fixed { raw: EPSILON };
        let scalar = Vec3::fwd().neg().dot(self.normal) / div;
        ray * scalar
    }
}

/// The edge of the cone that leans by `share` of a quarter turn toward y.
pub open spec fn spec_edge_y(share: Fixed) -> Vec3 {
    (Vec3 { x: Fixed::spec_zero(), y: share, z: Fixed::spec_one().spec_sub(share) }).spec_norm()
}

/// The edge of the cone that leans by `share` of a quarter turn toward x.
pub open spec fn spec_edge_x(share: Fixed) -> Vec3 {
    (Vec3 { x: share, y: Fixed::spec_zero(), z: Fixed::spec_one().spec_sub(share) }).spec_norm()
}

/// The four-sided cone about the forward axis inside which a child may
/// swing.
#[derive(Clone, Copy, Debug, PartialEq, Eq, Structural)]
pub struct Cone {
    pub lower_left: ReachPlane,
    pub lower_right: ReachPlane,
    pub upper_right: ReachPlane,
    pub upper_left: ReachPlane,
}

impl Cone {
    /// The cone of the limits `x_limit`, about x, and `y_limit`, about y.
    pub open spec fn spec_of(x_limit: Range, y_limit: Range) -> Cone {
        let quarter = Fixed { raw: HALF_PI };
        let lower = spec_edge_y(x_limit.min.spec_div(quarter));
        let right = spec_edge_x(y_limit.max.spec_div(quarter));
        let upper = spec_edge_y(x_limit.max.spec_div(quarter));
        let left = spec_edge_x(y_limit.min.spec_div(quarter));
        Cone {
            lower_left: ReachPlane { normal: left.spec_cross(lower) },
            lower_right: ReachPlane { normal: lower.spec_cross(right) },
            upper_right: ReachPlane { normal: right.spec_cross(upper) },
            upper_left: ReachPlane { normal: upper.spec_cross(left) },
        }
    }

    /// Whether `point` is inside all four faces.
    pub open spec fn spec_contains(self, point: Vec3) -> bool {
        self.lower_left.spec_contains(point) && self.lower_right.spec_contains(point)
            && self.upper_right.spec_contains(point) && self.upper_left.spec_contains(point)
    }

    /// The steps along `ray` onto the faces that it crosses, in the order
    /// lower left, lower right, upper right, upper left.
    pub open spec fn spec_candidates(self, ray: Vec3) -> Seq<Vec3> {
        let a = if self.lower_left.spec_intersects(ray) {
            seq![self.lower_left.spec_intersection(ray)]
        } else {
            Seq::<Vec3>::empty()
        };
        let b = if self.lower_right.spec_intersects(ray) {
            a.push(self.lower_right.spec_intersection(ray))
        } else {
            a
        };
        let c = if self.upper_right.spec_intersects(ray) {
            b.push(self.upper_right.spec_intersection(ray))
        } else {
            b
        };
        if self.upper_left.spec_intersects(ray) {
            c.push(self.upper_left.spec_intersection(ray))
        } else {
            c
        }
    }

    /// Whether the candidate step `step` ends inside the cone.
    pub open spec fn spec_admits(self, step: Vec3) -> bool {
        self.spec_contains(step.spec_add(Vec3::spec_fwd()))
    }

    /// The choice among the first `n` candidates: the last one after the
    /// first that ends inside the cone, and the first one if none does.
    pub open spec fn spec_pick(self, candidates: Seq<Vec3>, n: nat) -> Vec3
        decreases n,
    {
        if n <= 1 {
            candidates[0]
        } else if self.spec_admits(candidates[n - 1]) {
            candidates[n - 1]
        } else {
            self.spec_pick(candidates, (n - 1) as nat)
        }
    }

    /// The swing of a child whose forward axis, seen from the parent, is
    /// `local_fwd`: `swing` itself inside the cone or where the way back
    /// crosses no face, else the shortest rotation onto the midpoint of the
    /// forward axis and the chosen crossing.
    pub open spec fn spec_limit_swing(self, swing: Quat, local_fwd: Vec3) -> Quat {
        let ray = local_fwd.spec_sub(Vec3::spec_fwd()).spec_norm();
        let candidates = self.spec_candidates(ray);
        if self.spec_contains(local_fwd) || candidates.len() == 0 {
            swing
        } else {
            let crossing = self.spec_pick(candidates, candidates.len());
            Quat::spec_simple(Vec3::spec_fwd(), Vec3::spec_fwd().spec_add(crossing).spec_norm())
        }
    }

    /// The cone of the limits `x_limit`, about x, and `y_limit`, about y.
    pub fn of(x_limit: Range, y_limit: Range) -> (r: Cone)
        ensures
            r == Cone::spec_of(x_limit, y_limit),
    {
        let quarter = Fixed { raw: HALF_PI };
        let x_min = y_limit.min / quarter;
        let x_max = y_limit.max / quarter;
        let y_min = x_limit.min / quarter;
        let y_max = x_limit.max / quarter;
        let lower = Vec3::new(Fixed::zero(), y_min, Fixed::one() - y_min).norm();
        let right = Vec3::new(x_max, Fixed::zero(), Fixed::one() - x_max).norm();
        let upper = Vec3::new(Fixed::zero(), y_max, Fixed::one() - y_max).norm();
        let left = Vec3::new(x_min, Fixed::zero(), Fixed::one() - x_min).norm();
        Cone {
            lower_left: ReachPlane::new(left, lower),
            lower_right: ReachPlane::new(lower, right),
            upper_right: ReachPlane::new(right, upper),
            upper_left: ReachPlane::new(upper, left),
        }
    }

    /// Whether `point` is inside all four faces.
    pub fn contains(&self, point: Vec3) -> (r: bool)
        ensures
            r == self.spec_contains(point),
    {
        self.lower_left.contains(point) && self.lower_right.contains(point)
            && self.upper_right.contains(point) && self.upper_left.contains(point)
    }

    /// The steps along `ray` onto the faces that it crosses.
    pub fn candidates(&self, ray: Vec3) -> (r: Vec<Vec3>)
        ensures
            r@ == self.spec_candidates(ray),
            r@.len() <= 4,
    {
        let mut found: Vec<Vec3> = Vec::with_capacity(2);
        if self.lower_left.intersects(ray) {
            found.push(self.lower_left.intersection(ray));
        }
        if self.lower_right.intersects(ray) {
            found.push(self.lower_right.intersection(ray));
        }
        if self.upper_right.intersects(ray) {
            found.push(self.upper_right.intersection(ray));
        }
        if self.upper_left.intersects(ray) {
            found.push(self.upper_left.intersection(ray));
        }
        assert(found@ =~= self.spec_candidates(ray));
        found
    }

    /// The choice among `candidates`: the last one after the first that
    /// ends inside the cone, and the first one if none does.
    pub fn pick(&self, candidates: &Vec<Vec3>) -> (r: Vec3)
        requires
            candidates@.len() >= 1,
        ensures
            r == self.spec_pick(candidates@, candidates@.len()),
            exists|j: int|
                0 <= j < candidates@.len() && r == candidates@[j] && (j > 0 ==> self.spec_admits(
                    candidates@[j],
                )) && forall|k: int| j < k < candidates@.len() ==> !self.spec_admits(#[trigger] candidates@[k]),
    {
        let mut result = candidates[0];
        let ghost mut chosen: int = 0;
        let mut i: usize = 1;
        while i < candidates.len()
            invariant
                1 <= i <= candidates@.len(),
                result == self.spec_pick(candidates@, i as nat),
                0 <= chosen < i,
                result == candidates@[chosen],
                chosen > 0 ==> self.spec_admits(candidates@[chosen]),
                forall|k: int| chosen < k < i ==> !self.spec_admits(#[trigger] candidates@[k]),
            decreases candidates@.len() - i,
        {
            let point = candidates[i] + Vec3::fwd();
            if self.contains(point) {
                result = candidates[i];
                proof {
                    chosen = i as int;
                }
            }
            i += 1;
        }
        result
    }

    /// The swing of a child whose forward axis, seen from the parent, is
    /// `local_fwd`, held inside the cone.
    pub fn limit_swing(&self, swing: Quat, local_fwd: Vec3) -> (r: Quat)
        ensures
            r == self.spec_limit_swing(swing, local_fwd),
            self.spec_contains(local_fwd) ==> r == swing,
    {
        let ray = (local_fwd - Vec3::fwd()).norm();
        if self.contains(local_fwd) {
            return swing;
        }
        let candidates = self.candidates(ray);
        if candidates.len() == 0 {
            return swing;
        }
        let crossing = self.pick(&candidates);
        let midpoint = (Vec3::fwd() + crossing).norm();
        Quat::simple(Vec3::fwd(), midpoint)
    }
}

/// The twist of a child, held inside `z_limit`: a rotation about the
/// forward axis as `swing` turns it, and as `local_fwd` orients it, by the
/// angle of `twist` limited to the range.
pub open spec fn spec_limit_twist(twist: Quat, swing: Quat, local_fwd: Vec3, z_limit: Range) -> Quat {
    let (axis, angle) = twist.spec_to_axis_angle();
    let sign = if axis.spec_dot(local_fwd)@ > 0 {
        Fixed::spec_one()
    } else {
        Fixed::spec_one().spec_neg()
    };
    Quat::spec_axis_angle(
        swing.spec_rotate(Vec3::spec_fwd()).spec_scale(sign),
        angle.spec_clamp_to(z_limit.min, z_limit.max),
    )
}

/// The twist of a child, held inside `z_limit`.
pub fn limit_twist(twist: Quat, swing: Quat, local_fwd: Vec3, z_limit: Range) -> (r: Quat)
    ensures
        r == spec_limit_twist(twist, swing, local_fwd, z_limit),
{
    let (axis, angle) = twist.to_axis_angle();
    let sign = if axis.dot(local_fwd).raw > 0 {
        Fixed::one()
    } else {
        Fixed::one().neg()
    };
    Quat::axis_angle(swing * Vec3::fwd() * sign, angle.clamp_to(z_limit.min, z_limit.max))
}

/// The rotation, in the child's own frame, that a pass applies to a child
/// whose orientation seen from the parent is `local_child`: the part, by
/// the angular rigidity, of the rotation that would bring the child's swing
/// and twist back inside the joint's limits.
#[verifier::opaque]
pub open spec fn spec_local_correction(local_child: Quat, joint: Joint) -> Mat {
    let local_fwd = local_child.spec_rotate(Vec3::spec_fwd());
    let swing = Quat::spec_simple(Vec3::spec_fwd(), local_fwd);
    let twist = local_child.spec_mul(swing.spec_conjugate());
    let cone = Cone::spec_of(joint.x_limit, joint.y_limit);
    let held_swing = cone.spec_limit_swing(swing, local_fwd);
    let held_twist = spec_limit_twist(twist, held_swing, local_fwd, joint.z_limit);
    let reverse = local_child.spec_conjugate().spec_mul(held_twist).spec_mul(held_swing);
    reverse.spec_pow(Fixed { raw: JOINT_ANG_RIGID }).spec_to_mat()
}

/// The rotation, in the child's own frame, that a pass applies to a child
/// whose orientation seen from the parent is `local_child`.
pub fn local_correction(local_child: Quat, joint: &Joint) -> (r: Mat)
    ensures
        r == spec_local_correction(local_child, *joint),
{
    proof {
        reveal(spec_local_correction);
    }
    let local_fwd = local_child * Vec3::fwd();
    let swing = Quat::simple(Vec3::fwd(), local_fwd);
    let twist = local_child * swing.conjugate();
    let cone = Cone::of(joint.x_limit, joint.y_limit);
    let held_swing = cone.limit_swing(swing, local_fwd);
    let held_twist = limit_twist(twist, held_swing, local_fwd, joint.z_limit);
    let reverse = local_child.conjugate() * held_twist * held_swing;
    reverse.pow(Fixed { raw: JOINT_ANG_RIGID }).to_mat()
}

/// The pull that brings the child's start and the parent's end together:
/// it is taken from the parent's corners and given to the child's.
pub open spec fn spec_anchor_offset(parent: Seq<Particle>, child: Seq<Particle>) -> Vec3 {
    spec_start(child).spec_sub(spec_end(parent)).spec_scale(
        (Fixed { raw: JOINT_POS_RIGID }).spec_neg(),
    )
}

/// The parent's particles after the positional part of a pass.
pub open spec fn spec_anchored_parent(parent: Seq<Particle>, child: Seq<Particle>) -> Seq<Particle> {
    spec_shift_back(parent, spec_anchor_offset(parent, child))
}

/// The child's particles after the positional part of a pass.
pub open spec fn spec_anchored_child(parent: Seq<Particle>, child: Seq<Particle>) -> Seq<Particle> {
    spec_shift(child, spec_anchor_offset(parent, child))
}

/// The rotation, in world space, that the angular part of a pass applies
/// to the child about its start; the parent gets its transpose about its
/// end.
#[verifier::opaque]
pub open spec fn spec_world_correction(parent: Seq<Particle>, child: Seq<Particle>, joint: Joint) -> Mat {
    let child_orient = spec_orientation(child);
    let local_child = Quat::spec_from_mat(spec_inverse_orientation(parent).spec_mul(child_orient));
    child_orient.spec_mul(spec_local_correction(local_child, joint)).spec_mul(
        child_orient.spec_transpose(),
    )
}

/// The parent's and the child's particles after one pass over `joint`.
#[verifier::opaque]
pub open spec fn spec_solve(parent: Seq<Particle>, child: Seq<Particle>, joint: Joint) -> (
    Seq<Particle>,
    Seq<Particle>,
) {
    let held_parent = spec_anchored_parent(parent, child);
    let held_child = spec_anchored_child(parent, child);
    let correction = spec_world_correction(held_parent, held_child, joint);
    (
        spec_transform_around(held_parent, spec_end(held_parent), correction.spec_transpose()),
        spec_transform_around(held_child, spec_start(held_child), correction),
    )
}

/// The positional part of a pass: pulls the child's start and the
/// parent's end together.
pub fn anchor(parent: &mut Instance, child: &mut Instance)
    requires
        old(parent)@.particles.len() >= CORNERS,
        old(child)@.particles.len() >= CORNERS,
    ensures
        final(parent)@ == old(parent)@.with_particles(
            spec_anchored_parent(old(parent)@.particles, old(child)@.particles),
        ),
        final(child)@ == old(child)@.with_particles(
            spec_anchored_child(old(parent)@.particles, old(child)@.particles),
        ),
{
    let offset = (child.start() - parent.end()) * Fixed { raw: JOINT_POS_RIGID }.neg();
    parent.shift_back(offset);
    child.shift(offset);
}

/// The rotation, in world space, that the angular part of a pass applies
/// to the child about its start.
pub fn world_correction(parent: &Instance, child: &Instance, joint: &Joint) -> (r: Mat)
    requires
        parent@.particles.len() >= CORNERS,
        child@.particles.len() >= CORNERS,
    ensures
        r == spec_world_correction(parent@.particles, child@.particles, *joint),
{
    proof {
        reveal(spec_world_correction);
    }
    let child_orient = child.orientation();
    let local_child = Quat::from_mat(parent.inverse_orientation() * child_orient);
    let transformation = local_correction(local_child, joint);
    child_orient * transformation * child_orient.transpose()
}

/// One pass over `joint`: pulls the child's start and the parent's end
/// together, then turns both limbs toward the joint's limits.
pub fn solve(parent: &mut Instance, child: &mut Instance, joint: &Joint)
    requires
        old(parent)@.particles.len() >= CORNERS,
        old(child)@.particles.len() >= CORNERS,
    ensures
        final(parent)@ == old(parent)@.with_particles(
            spec_solve(old(parent)@.particles, old(child)@.particles, *joint).0,
        ),
        final(child)@ == old(child)@.with_particles(
            spec_solve(old(parent)@.particles, old(child)@.particles, *joint).1,
        ),
        final(parent)@.particles.len() == old(parent)@.particles.len(),
        final(child)@.particles.len() == old(child)@.particles.len(),
{
    proof {
        reveal(spec_solve);
    }
    anchor(parent, child);
    let correction = world_correction(parent, child, joint);
    let point = child.start();
    child.transform_around(point, correction);
    let point = parent.end();
    parent.transform_around(point, correction.transpose());
}

/// A pass over a joint leaves both bodies with as many particles as before.
pub proof fn lemma_solve_len(parent: Seq<Particle>, child: Seq<Particle>, joint: Joint)
    ensures
        spec_solve(parent, child, joint).0.len() == parent.len(),
        spec_solve(parent, child, joint).1.len() == child.len(),
{
    reveal(spec_solve);
}

/// A twist whose range is zero at both ends is held to no twist at all,
/// whatever it was.
pub proof fn law_rigid_twist_is_undone(twist: Quat, swing: Quat, local_fwd: Vec3)
    ensures
        spec_limit_twist(
            twist,
            swing,
            local_fwd,
            Range { min: Fixed::spec_zero(), max: Fixed::spec_zero() },
        ) == Quat::spec_id(),
{
    let (axis, angle) = twist.spec_to_axis_angle();
    let held = angle.spec_clamp_to(Fixed::spec_zero(), Fixed::spec_zero());
    assert(held == Fixed::spec_zero());
    let half = Fixed::spec_from_ratio(1, 2).spec_mul(held);
    assert(Fixed::spec_from_ratio(1, 2)@ * held@ == 0) by (nonlinear_arith)
        requires
            held@ == 0,
    ;
    assert(half == Fixed::spec_zero());
    crate::trig::lemma_sine_and_cosine_of_zero();
    let sign = if axis.spec_dot(local_fwd)@ > 0 {
        Fixed::spec_one()
    } else {
        Fixed::spec_one().spec_neg()
    };
    let about = swing.spec_rotate(Vec3::spec_fwd()).spec_scale(sign).spec_norm();
    assert(about.x@ * 0 == 0 && about.y@ * 0 == 0 && about.z@ * 0 == 0);
}

/// Limits of zero about x and y make a cone without an inside to leave:
/// its four faces have no normal, it holds every direction, and so it
/// leaves every swing as it is.
pub proof fn law_flat_cone_holds_every_direction(point: Vec3, swing: Quat)
    ensures
        Cone::spec_of(
            Range { min: Fixed::spec_zero(), max: Fixed::spec_zero() },
            Range { min: Fixed::spec_zero(), max: Fixed::spec_zero() },
        ).spec_contains(point),
        Cone::spec_of(
            Range { min: Fixed::spec_zero(), max: Fixed::spec_zero() },
            Range { min: Fixed::spec_zero(), max: Fixed::spec_zero() },
        ).spec_limit_swing(swing, point) == swing,
{
    let zero = Fixed::spec_zero();
    let quarter = Fixed { raw: HALF_PI };
    assert(zero.spec_div(quarter) == zero) by {
        assert(0int * crate::fixed::SCALE == 0);
        assert(crate::fixed::magnitude(0) / crate::fixed::magnitude(quarter@) == 0);
    }
    let ahead = Vec3 { x: zero, y: zero, z: Fixed::spec_one().spec_sub(zero) };
    assert(ahead == Vec3::spec_fwd());
    lemma_forward_is_unit();
    assert(spec_edge_x(zero) == Vec3::spec_fwd());
    assert(spec_edge_y(zero) == Vec3::spec_fwd());
    lemma_forward_across_itself();
    let cone = Cone::spec_of(Range { min: zero, max: zero }, Range { min: zero, max: zero });
    assert(cone.lower_left.normal == Vec3::spec_zero());
    assert(cone.lower_right.normal == Vec3::spec_zero());
    assert(cone.upper_right.normal == Vec3::spec_zero());
    assert(cone.upper_left.normal == Vec3::spec_zero());
    lemma_nothing_dot(point);
}

/// The forward axis has unit length and is its own unit vector.
pub proof fn lemma_forward_is_unit()
    ensures
        Vec3::spec_fwd().spec_mag() == Fixed::spec_one(),
        Vec3::spec_fwd().spec_norm() == Vec3::spec_fwd(),
{
    let s = crate::fixed::SCALE as int;
    let total = crate::alg::vec3::square_sum3(0, 0, s);
    assert(total == s * s);
    assert(crate::fixed::is_floor_sqrt(total, s)) by (nonlinear_arith)
        requires
            total == s * s,
            s == 1_000_000_000,
    ;
    crate::fixed::lemma_floor_sqrt_unique(total, s);
    assert(Fixed::spec_zero().spec_div(Fixed::spec_one()) == Fixed::spec_zero()) by {
        assert(0int * s == 0);
        assert(crate::fixed::magnitude(0) / crate::fixed::magnitude(s) == 0);
    }
    assert(Fixed::spec_one().spec_div(Fixed::spec_one()) == Fixed::spec_one()) by {
        assert((s * s) / s == s) by (nonlinear_arith)
            requires
                s == 1_000_000_000,
        ;
    }
}

/// The forward axis across itself is nothing.
pub proof fn lemma_forward_across_itself()
    ensures
        Vec3::spec_fwd().spec_cross(Vec3::spec_fwd()) == Vec3::spec_zero(),
{
    let s = crate::fixed::SCALE as int;
    assert(0int * s == 0 && s * 0int == 0 && 0int * 0int == 0);
    assert(crate::fixed::trunc_div(0, s) == 0);
}

/// The dot product of nothing with anything is zero.
pub proof fn lemma_nothing_dot(point: Vec3)
    ensures
        Vec3::spec_zero().spec_dot(point)@ == 0,
{
    assert(0 * point.x@ == 0 && 0 * point.y@ == 0 && 0 * point.z@ == 0);
    assert(crate::fixed::trunc_div(0, crate::fixed::SCALE as int) == 0);
}

} // verus!
