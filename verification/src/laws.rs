//! What holds of the solver whatever the bodies are: rods only ever
//! shorten, a change of gravity reaches a body only when its acceleration
//! term is recomputed, and a body at rest stays at rest.

use vstd::prelude::*;
use crate::alg::plane::Plane;
use crate::alg::vec3::square_sum3;
use crate::alg::vec3::Vec3;
use crate::body::lemma_relaxed_times_wf;
use crate::body::lemma_same_count_wf;
use crate::body::spec_accel_term;
use crate::body::spec_apply_magnets;
use crate::body::spec_collide_all;
use crate::body::spec_collide_particles;
use crate::body::spec_deform_length;
use crate::body::spec_deform_rods;
use crate::body::spec_integrate;
use crate::body::spec_project_rods;
use crate::body::spec_rod_offset;
use crate::body::InstanceView;
use crate::body::Particle;
use crate::fixed::magnitude;
use crate::fixed::trunc_div;
use crate::fixed::Fixed;
use crate::fixed::SCALE;
use crate::manager::lemma_solve_slot_wf;
use crate::manager::lemma_step_wf;
use crate::manager::spec_center_slots;
use crate::manager::spec_solve_slots;
use crate::manager::spec_step_slots;
use crate::manager::ManagerView;
use crate::tuning::BOUNCE;
use crate::tuning::DEFORM;
use crate::tuning::ITERATIONS;

verus! {

/// A product with zero is zero.
pub proof fn lemma_mul_by_zero(a: Fixed)
    ensures
        a.spec_mul(Fixed::spec_zero()) == Fixed::spec_zero(),
{
    assert(a@ * 0 == 0);
}

/// A nonzero value divided by itself is one.
pub proof fn lemma_div_by_self(a: Fixed)
    requires
        a@ != 0,
    ensures
        a.spec_div(a) == Fixed::spec_one(),
{
    let m = magnitude(a@);
    assert(magnitude(a@ * SCALE) == m * SCALE);
    assert((a@ * SCALE < 0) == (a@ < 0));
    assert((m * SCALE) / m == SCALE as int) by (nonlinear_arith)
        requires
            m > 0,
            SCALE == 1_000_000_000,
    ;
}

/// A share of a length that is no more than the whole is no longer than
/// the length, and not negative.
pub proof fn lemma_share_is_shorter(length: Fixed, factor: Fixed)
    requires
        length@ >= 0,
        0 <= factor@ <= SCALE,
    ensures
        0 <= length.spec_mul(factor)@ <= length@,
{
    let product = length@ * factor@;
    assert(0 <= product <= length@ * SCALE) by (nonlinear_arith)
        requires
            product == length@ * factor@,
            length@ >= 0,
            0 <= factor@ <= SCALE,
    ;
    assert(0 <= product / (SCALE as int) <= length@) by (nonlinear_arith)
        requires
            0 <= product <= length@ * SCALE,
            SCALE == 1_000_000_000,
    ;
}

/// The whole of a length is the length.
pub proof fn lemma_whole_share(length: Fixed)
    requires
        length@ >= 0,
    ensures
        length.spec_mul(Fixed::spec_one()) == length,
{
    assert((length@ * SCALE) / (SCALE as int) == length@) by (nonlinear_arith)
        requires
            SCALE == 1_000_000_000,
    ;
}

/// A rod that gives way ends no longer than it was and, where the share
/// `factor` is between nothing and the whole, no shorter than that share of
/// what it was.
pub proof fn law_rod_gives_way_within_bounds(length: Fixed, distance: Fixed, factor: Fixed)
    requires
        length@ >= 0,
        0 <= factor@ <= SCALE,
    ensures
        spec_deform_length(length, distance, factor)@ <= length@,
        spec_deform_length(length, distance, factor)@ >= length.spec_mul(factor)@,
{
    lemma_share_is_shorter(length, factor);
}

/// With the whole as its share, a rod keeps its length whatever the
/// distance of its ends.
pub proof fn law_rigid_rod_keeps_length(length: Fixed, distance: Fixed)
    requires
        length@ >= 0,
    ensures
        spec_deform_length(length, distance, Fixed::spec_one()) == length,
{
    lemma_whole_share(length);
}

/// Through any number of relaxation passes no rod gets longer, nor does
/// the number of rods change.
pub proof fn law_rods_never_lengthen(
    body: InstanceView,
    planes: Seq<Plane>,
    bounce: Fixed,
    factor: Fixed,
    passes: nat,
    rod: int,
)
    requires
        0 <= rod < body.rods.len(),
    ensures
        body.relaxed_times(planes, bounce, factor, passes).rods.len() == body.rods.len(),
        body.relaxed_times(planes, bounce, factor, passes).rods[rod].length@
            <= body.rods[rod].length@,
    decreases passes,
{
    if passes > 0 {
        law_rods_never_lengthen(body, planes, bounce, factor, (passes - 1) as nat, rod);
    }
}

/// Through a whole step, integration and any number of relaxation passes,
/// no rod gets longer.
pub proof fn law_step_never_lengthens_rods(
    body: InstanceView,
    planes: Seq<Plane>,
    bounce: Fixed,
    factor: Fixed,
    passes: nat,
    rod: int,
)
    requires
        0 <= rod < body.rods.len(),
    ensures
        body.stepped(planes, bounce, factor, passes).rods.len() == body.rods.len(),
        body.stepped(planes, bounce, factor, passes).rods[rod].length@ <= body.rods[rod].length@,
{
    law_rods_never_lengthen(body.integrated(), planes, bounce, factor, passes, rod);
}

/// Through one relaxation pass a rod keeps at least the share `factor` of
/// its length, where that share is between nothing and the whole.
pub proof fn law_rods_keep_their_share(
    body: InstanceView,
    planes: Seq<Plane>,
    bounce: Fixed,
    factor: Fixed,
    rod: int,
)
    requires
        body.wf(),
        0 <= factor@ <= SCALE,
        0 <= rod < body.rods.len(),
    ensures
        body.relaxed(planes, bounce, factor).rods[rod].length@ >= body.rods[rod].length.spec_mul(
            factor,
        )@,
{
    assert(body.rods[rod].valid_for(body.particles.len()));
    lemma_share_is_shorter(body.rods[rod].length, factor);
}

/// With the whole as the share, every rod keeps its length through any
/// number of relaxation passes: it never falls below the length it was
/// made with.
pub proof fn law_rigid_rods_keep_length(
    body: InstanceView,
    planes: Seq<Plane>,
    bounce: Fixed,
    passes: nat,
    rod: int,
)
    requires
        body.wf(),
        0 <= rod < body.rods.len(),
    ensures
        body.relaxed_times(planes, bounce, Fixed::spec_one(), passes).rods[rod]
            == body.rods[rod],
        body.stepped(planes, bounce, Fixed::spec_one(), passes).rods[rod] == body.rods[rod],
{
    lemma_rigid_passes(body, planes, bounce, passes, rod);
    lemma_same_count_wf(body, spec_integrate(body.particles, body.accel_dt));
    lemma_rigid_passes(body.integrated(), planes, bounce, passes, rod);
}

/// With the whole as the share, a rod is the same after any number of
/// relaxation passes.
proof fn lemma_rigid_passes(
    body: InstanceView,
    planes: Seq<Plane>,
    bounce: Fixed,
    passes: nat,
    rod: int,
)
    requires
        body.wf(),
        0 <= rod < body.rods.len(),
    ensures
        body.relaxed_times(planes, bounce, Fixed::spec_one(), passes).rods.len()
            == body.rods.len(),
        body.relaxed_times(planes, bounce, Fixed::spec_one(), passes).rods[rod]
            == body.rods[rod],
    decreases passes,
{
    if passes > 0 {
        let before = body.relaxed_times(planes, bounce, Fixed::spec_one(), (passes - 1) as nat);
        lemma_rigid_passes(body, planes, bounce, (passes - 1) as nat, rod);
        lemma_relaxed_times_wf(body, planes, bounce, Fixed::spec_one(), (passes - 1) as nat);
        assert(before.rods[rod].valid_for(before.particles.len()));
        lemma_whole_share(before.rods[rod].length);
    }
}

/// Through the passes of the first `n` joints every occupied slot stays
/// occupied, and its body changes in its particles only.
pub proof fn lemma_joints_move_particles_only(m: ManagerView, n: nat, slot: int)
    requires
        m.wf(),
        n <= m.joints.len(),
        0 <= slot < m.slots.len(),
        m.slots[slot] is Some,
    ensures
        spec_solve_slots(m.slots, m.joints, n).len() == m.slots.len(),
        spec_solve_slots(m.slots, m.joints, n)[slot] is Some,
        spec_solve_slots(m.slots, m.joints, n)[slot].unwrap() == m.slots[slot].unwrap().with_particles(
            spec_solve_slots(m.slots, m.joints, n)[slot].unwrap().particles,
        ),
        m.with_slots(spec_solve_slots(m.slots, m.joints, n)).wf(),
    decreases n,
{
    if n > 0 {
        lemma_joints_move_particles_only(m, (n - 1) as nat, slot);
        let before = m.with_slots(spec_solve_slots(m.slots, m.joints, (n - 1) as nat));
        let joint = m.joints[n - 1];
        assert(before.joints[n - 1] == joint);
        assert(before.is_limb(joint.parent as int) && before.is_limb(joint.child as int));
        lemma_solve_slot_wf(before, n - 1);
    }
}

/// One simulation step leaves every rod no longer than it was, and no
/// shorter than the share of its length that the settings let it keep.
pub proof fn law_simulation_shortens_rods_within_bounds(m: ManagerView, slot: int, rod: int)
    requires
        m.wf(),
        0 <= slot < m.slots.len(),
        m.slots[slot] is Some,
        0 <= rod < m.slots[slot].unwrap().rods.len(),
    ensures
        m.simulated().slots[slot] is Some,
        m.simulated().slots[slot].unwrap().rods.len() == m.slots[slot].unwrap().rods.len(),
        m.simulated().slots[slot].unwrap().rods[rod].length@
            <= m.slots[slot].unwrap().rods[rod].length@,
        m.simulated().slots[slot].unwrap().rods[rod].length@
            >= m.slots[slot].unwrap().rods[rod].length.spec_mul(Fixed { raw: DEFORM })@,
{
    let body = m.slots[slot].unwrap();
    let bounce = Fixed { raw: BOUNCE };
    let factor = Fixed { raw: DEFORM };
    assert(body.wf());
    law_step_never_lengthens_rods(body, m.planes, bounce, factor, ITERATIONS as nat, rod);
    lemma_same_count_wf(body, spec_integrate(body.particles, body.accel_dt));
    assert(body.integrated().relaxed_times(m.planes, bounce, factor, 1) == body.integrated().relaxed(
        m.planes,
        bounce,
        factor,
    )) by {
        assert(body.integrated().relaxed_times(m.planes, bounce, factor, 0) == body.integrated());
    }
    law_rods_keep_their_share(body.integrated(), m.planes, bounce, factor, rod);
    let stepped = m.with_slots(spec_step_slots(m.slots, m.planes));
    lemma_step_wf(m);
    lemma_joints_move_particles_only(stepped, stepped.joints.len(), slot);
}

/// The manager after `n` simulation steps.
pub open spec fn spec_simulated_times(m: ManagerView, n: nat) -> ManagerView
    decreases n,
{
    if n == 0 {
        m
    } else {
        spec_simulated_times(m, (n - 1) as nat).simulated()
    }
}

/// A simulation step keeps a manager well formed and its slots as many.
pub proof fn lemma_simulated_wf(m: ManagerView)
    requires
        m.wf(),
    ensures
        m.simulated().wf(),
        m.simulated().slots.len() == m.slots.len(),
        m.simulated().joints == m.joints,
        m.simulated().planes == m.planes,
        forall|i: int|
            0 <= i < m.slots.len() ==> ((#[trigger] m.simulated().slots[i]) is Some <==> m.slots[i] is Some),
{
    let stepped = m.with_slots(spec_step_slots(m.slots, m.planes));
    lemma_step_wf(m);
    let solved = stepped.with_slots(
        spec_solve_slots(stepped.slots, stepped.joints, stepped.joints.len()),
    );
    lemma_joints_keep_slots(stepped, stepped.joints.len());
    crate::manager::lemma_center_wf(solved);
    assert forall|i: int| 0 <= i < m.slots.len() implies ((#[trigger] m.simulated().slots[i]) is Some <==> m.slots[i] is Some) by {
        if stepped.slots[i] is Some {
            lemma_joints_move_particles_only(stepped, stepped.joints.len(), i);
        } else {
            lemma_joints_keep_empty(stepped, stepped.joints.len(), i);
        }
    }
}

/// The passes of the first `n` joints keep a manager well formed and its
/// slots as many.
pub proof fn lemma_joints_keep_slots(m: ManagerView, n: nat)
    requires
        m.wf(),
        n <= m.joints.len(),
    ensures
        spec_solve_slots(m.slots, m.joints, n).len() == m.slots.len(),
        m.with_slots(spec_solve_slots(m.slots, m.joints, n)).wf(),
    decreases n,
{
    if n > 0 {
        lemma_joints_keep_slots(m, (n - 1) as nat);
        let before = m.with_slots(spec_solve_slots(m.slots, m.joints, (n - 1) as nat));
        let joint = m.joints[n - 1];
        assert(before.joints[n - 1] == joint);
        assert(before.is_limb(joint.parent as int) && before.is_limb(joint.child as int));
        lemma_solve_slot_wf(before, n - 1);
    }
}

/// The passes of the first `n` joints leave an empty slot empty.
pub proof fn lemma_joints_keep_empty(m: ManagerView, n: nat, slot: int)
    requires
        m.wf(),
        n <= m.joints.len(),
        0 <= slot < m.slots.len(),
        m.slots[slot] is None,
    ensures
        spec_solve_slots(m.slots, m.joints, n).len() == m.slots.len(),
        spec_solve_slots(m.slots, m.joints, n)[slot] is None,
    decreases n,
{
    if n > 0 {
        lemma_joints_keep_empty(m, (n - 1) as nat, slot);
        lemma_joints_keep_slots(m, (n - 1) as nat);
        let before = m.with_slots(spec_solve_slots(m.slots, m.joints, (n - 1) as nat));
        let joint = m.joints[n - 1];
        assert(before.joints[n - 1] == joint);
        assert(before.is_limb(joint.parent as int) && before.is_limb(joint.child as int));
    }
}

/// Over any number of simulation steps no rod ever gets longer than it was
/// at the start, nor shorter than the share of its first length that the
/// settings let it keep.
pub proof fn law_rest_lengths_stay_within_bounds(m: ManagerView, steps: nat, slot: int, rod: int)
    requires
        m.wf(),
        0 <= slot < m.slots.len(),
        m.slots[slot] is Some,
        0 <= rod < m.slots[slot].unwrap().rods.len(),
    ensures
        spec_simulated_times(m, steps).wf(),
        spec_simulated_times(m, steps).slots.len() == m.slots.len(),
        spec_simulated_times(m, steps).slots[slot] is Some,
        spec_simulated_times(m, steps).slots[slot].unwrap().rods.len()
            == m.slots[slot].unwrap().rods.len(),
        spec_simulated_times(m, steps).slots[slot].unwrap().rods[rod].length@
            <= m.slots[slot].unwrap().rods[rod].length@,
        spec_simulated_times(m, steps).slots[slot].unwrap().rods[rod].length@
            >= m.slots[slot].unwrap().rods[rod].length.spec_mul(Fixed { raw: DEFORM })@,
    decreases steps,
{
    let first = m.slots[slot].unwrap().rods[rod].length;
    assert(m.slots[slot].unwrap().wf());
    assert(m.slots[slot].unwrap().rods[rod].valid_for(m.slots[slot].unwrap().particles.len()));
    lemma_whole_share(first);
    if steps > 0 {
        law_rest_lengths_stay_within_bounds(m, (steps - 1) as nat, slot, rod);
        let before = spec_simulated_times(m, (steps - 1) as nat);
        law_simulation_shortens_rods_within_bounds(before, slot, rod);
        lemma_simulated_wf(before);
        let was = before.slots[slot].unwrap().rods[rod].length;
        assert(before.slots[slot].unwrap().wf());
        assert(before.slots[slot].unwrap().rods[rod].valid_for(
            before.slots[slot].unwrap().particles.len(),
        ));
        lemma_whole_share(was);
    }
}

/// Setting gravity without recomputing changes nothing in the next step
/// but the gravity that the manager holds: every body moves as it would
/// have moved under the old gravity.
pub proof fn law_raw_gravity_is_deferred(m: ManagerView, gravity: Vec3)
    ensures
        (ManagerView { gravity, ..m }).simulated() == (ManagerView { gravity, ..m.simulated() }),
{
}

/// Once a body's acceleration term has been recomputed for `gravity`, by a
/// change of its force or of gravity, integration moves each of its
/// particles by what its force, its mass and `gravity` give.
pub proof fn law_recomputed_term_drives_integration(
    body: InstanceView,
    force: Vec3,
    gravity: Vec3,
    particle: int,
)
    requires
        0 <= particle < body.particles.len(),
    ensures
        body.refreshed(gravity).cache_fresh(gravity),
        body.with_force(force, gravity).cache_fresh(gravity),
        body.refreshed(gravity).integrated().particles[particle]
            == body.particles[particle].spec_advance(
            spec_accel_term(body.force, body.mass, gravity),
        ),
        body.with_force(force, gravity).integrated().particles[particle]
            == body.particles[particle].spec_advance(spec_accel_term(force, body.mass, gravity)),
{
}

/// Whether a coordinate is small enough to be doubled, and to be taken
/// from another such coordinate, without saturating.
pub open spec fn spec_within_half_range(c: Fixed) -> bool {
    -(i64::MAX / 2) <= c@ <= i64::MAX / 2
}

/// Whether every coordinate of a position is within half the range.
pub open spec fn spec_in_reach(v: Vec3) -> bool {
    spec_within_half_range(v.x) && spec_within_half_range(v.y) && spec_within_half_range(v.z)
}

/// What a rod takes from its left end it gives to its right end: where
/// the ends and the correction are within reach, the sum of the two
/// positions, and so their midpoint, is the same after the rod has acted.
pub proof fn law_rod_keeps_the_midpoint(left: Vec3, right: Vec3, length: Fixed, rigidity: Fixed)
    requires
        spec_in_reach(left),
        spec_in_reach(right),
        spec_in_reach(spec_rod_offset(left, right, length, rigidity)),
    ensures
        left.spec_sub(spec_rod_offset(left, right, length, rigidity)).spec_add(
            right.spec_add(spec_rod_offset(left, right, length, rigidity)),
        ) == left.spec_add(right),
{
}

/// Whether a body is at rest among `planes`: no acceleration, no particle
/// in motion or out of reach, every rod at its rest length, every particle
/// strictly in front of every plane, and every magnet content with where
/// its particle is.
pub open spec fn spec_at_rest(body: InstanceView, planes: Seq<Plane>) -> bool {
    &&& body.accel_dt == Vec3::spec_zero()
    &&& forall|i: int|
        0 <= i < body.particles.len() ==> (#[trigger] body.particles[i]).last
            == body.particles[i].position && spec_in_reach(body.particles[i].position)
    &&& forall|k: int|
        0 <= k < body.rods.len() ==> (#[trigger] body.rods[k]).length
            == body.particles[body.rods[k].right as int].position.spec_sub(
            body.particles[body.rods[k].left as int].position,
        ).spec_mag()
    &&& forall|i: int, p: int|
        0 <= i < body.particles.len() && 0 <= p < planes.len() ==> (#[trigger] planes[p]).spec_distance(
            (#[trigger] body.particles[i]).position,
        )@ > 0
    &&& forall|j: int|
        0 <= j < body.magnets.len() ==> (#[trigger] body.magnets[j]).falloff.spec_apply(
            body.particles[body.magnets[j].serf as int].position,
            body.magnets[j].target,
        ) == body.particles[body.magnets[j].serf as int].position
}

/// Twice a coordinate within half the range, less the coordinate, is the
/// coordinate.
pub proof fn lemma_double_less_once(c: Fixed)
    requires
        spec_within_half_range(c),
    ensures
        c.spec_mul(Fixed::spec_from_int(2)).spec_sub(c).spec_add(Fixed::spec_zero()) == c,
{
    let two = Fixed::spec_from_int(2);
    assert(two@ == 2 * SCALE);
    let m = magnitude(c@);
    assert(magnitude(c@ * two@) == m * (2 * SCALE)) by (nonlinear_arith)
        requires
            m == magnitude(c@),
            two@ == 2 * SCALE,
            SCALE == 1_000_000_000,
    ;
    assert((m * (2 * SCALE)) / (SCALE as int) == 2 * m) by (nonlinear_arith)
        requires
            SCALE == 1_000_000_000,
    ;
    assert((c@ * two@ < 0) == (c@ < 0)) by (nonlinear_arith)
        requires
            two@ == 2 * SCALE,
            SCALE == 1_000_000_000,
    ;
    assert(trunc_div(c@ * two@, SCALE as int) == 2 * c@);
}

/// A particle at rest within reach is not moved by integration without
/// acceleration.
pub proof fn lemma_rest_is_not_advanced(particle: Particle)
    requires
        particle.last == particle.position,
        spec_in_reach(particle.position),
    ensures
        particle.spec_advance(Vec3::spec_zero()) == particle,
{
    lemma_double_less_once(particle.position.x);
    lemma_double_less_once(particle.position.y);
    lemma_double_less_once(particle.position.z);
}

/// Within reach, the distance from `a` to `b` is the distance from `b` to
/// `a`.
pub proof fn lemma_distance_is_symmetric(a: Vec3, b: Vec3)
    requires
        spec_in_reach(a),
        spec_in_reach(b),
    ensures
        a.spec_sub(b).spec_mag() == b.spec_sub(a).spec_mag(),
{
    let d = a.spec_sub(b);
    let e = b.spec_sub(a);
    assert(e.x@ == -d.x@ && e.y@ == -d.y@ && e.z@ == -d.z@);
    assert(e.x@ * e.x@ == d.x@ * d.x@) by (nonlinear_arith)
        requires
            e.x@ == -d.x@,
    ;
    assert(e.y@ * e.y@ == d.y@ * d.y@) by (nonlinear_arith)
        requires
            e.y@ == -d.y@,
    ;
    assert(e.z@ * e.z@ == d.z@ * d.z@) by (nonlinear_arith)
        requires
            e.z@ == -d.z@,
    ;
    assert(square_sum3(d.x@, d.y@, d.z@) == square_sum3(e.x@, e.y@, e.z@));
}

/// A rod whose ends are as far apart as its rest length asks nothing of
/// them.
pub proof fn lemma_rod_at_rest_asks_nothing(left: Vec3, right: Vec3, rigidity: Fixed)
    ensures
        spec_rod_offset(left, right, right.spec_sub(left).spec_mag(), rigidity)
            == Vec3::spec_zero(),
{
    let difference = right.spec_sub(left);
    let distance = difference.spec_mag();
    if distance@ != 0 {
        lemma_div_by_self(distance);
        let stiff = difference.spec_scale(rigidity);
        lemma_mul_by_zero(stiff.x);
        lemma_mul_by_zero(stiff.y);
        lemma_mul_by_zero(stiff.z);
        assert(distance.spec_div(distance).spec_sub(Fixed::spec_one()) == Fixed::spec_zero());
    }
}

/// The rods of a body at rest leave its particles where they are.
pub proof fn lemma_rods_at_rest(body: InstanceView, planes: Seq<Plane>, n: nat)
    requires
        body.wf(),
        spec_at_rest(body, planes),
        n <= body.rods.len(),
    ensures
        spec_project_rods(body.particles, body.rods, body.rigidity, n) == body.particles,
    decreases n,
{
    if n > 0 {
        lemma_rods_at_rest(body, planes, (n - 1) as nat);
        let rod = body.rods[n - 1];
        assert(rod.valid_for(body.particles.len()));
        let left = body.particles[rod.left as int];
        let right = body.particles[rod.right as int];
        lemma_rod_at_rest_asks_nothing(left.position, right.position, body.rigidity);
        assert(left.spec_moved(left.position.spec_sub(Vec3::spec_zero())) == left);
        assert(right.spec_moved(right.position.spec_add(Vec3::spec_zero())) == right);
        assert(body.particles.update(rod.left as int, left).update(rod.right as int, right)
            =~= body.particles);
    }
}

/// Planes leave alone a position that is strictly in front of them all.
pub proof fn lemma_planes_in_front(position: Vec3, planes: Seq<Plane>, bounce: Fixed, n: nat)
    requires
        n <= planes.len(),
        forall|p: int| 0 <= p < planes.len() ==> (#[trigger] planes[p]).spec_distance(position)@ > 0,
    ensures
        spec_collide_all(position, planes, bounce, n) == position,
    decreases n,
{
    if n > 0 {
        lemma_planes_in_front(position, planes, bounce, (n - 1) as nat);
        assert(planes[n - 1].spec_distance(position)@ > 0);
    }
}

/// The magnets of a body at rest leave its particles where they are.
pub proof fn lemma_magnets_at_rest(body: InstanceView, planes: Seq<Plane>, n: nat)
    requires
        body.wf(),
        spec_at_rest(body, planes),
        n <= body.magnets.len(),
    ensures
        spec_apply_magnets(body.particles, body.magnets, n) == body.particles,
    decreases n,
{
    if n > 0 {
        lemma_magnets_at_rest(body, planes, (n - 1) as nat);
        let magnet = body.magnets[n - 1];
        assert(magnet.serf < body.particles.len());
        let serf = body.particles[magnet.serf as int];
        assert(magnet.falloff.spec_apply(serf.position, magnet.target) == serf.position);
        assert(serf.spec_moved(serf.position) == serf);
        assert(body.particles.update(magnet.serf as int, serf) =~= body.particles);
    }
}

/// A relaxation pass leaves a body at rest as it is.
pub proof fn lemma_pass_at_rest(body: InstanceView, planes: Seq<Plane>, bounce: Fixed, factor: Fixed)
    requires
        body.wf(),
        spec_at_rest(body, planes),
        0 <= factor@ <= SCALE,
    ensures
        body.relaxed(planes, bounce, factor) == body,
{
    lemma_rods_at_rest(body, planes, body.rods.len());
    let pulled = spec_project_rods(body.particles, body.rods, body.rigidity, body.rods.len());
    assert(pulled == body.particles);
    let pushed = spec_collide_particles(pulled, planes, bounce, planes.len());
    assert forall|i: int| 0 <= i < body.particles.len() implies pushed[i] == body.particles[i] by {
        let particle = body.particles[i];
        assert forall|p: int| 0 <= p < planes.len() implies (#[trigger] planes[p]).spec_distance(
            particle.position,
        )@ > 0 by {
            assert(planes[p].spec_distance(body.particles[i].position)@ > 0);
        }
        lemma_planes_in_front(particle.position, planes, bounce, planes.len());
    }
    assert(pushed =~= body.particles);
    let rods = spec_deform_rods(body.rods, pushed, factor);
    assert forall|k: int| 0 <= k < body.rods.len() implies rods[k] == body.rods[k] by {
        let rod = body.rods[k];
        assert(rod.valid_for(body.particles.len()));
        let left = body.particles[rod.left as int].position;
        let right = body.particles[rod.right as int].position;
        lemma_distance_is_symmetric(left, right);
        lemma_share_is_shorter(rod.length, factor);
    }
    assert(rods =~= body.rods);
    lemma_magnets_at_rest(body, planes, body.magnets.len());
}

/// Any number of relaxation passes leave a body at rest as it is.
pub proof fn lemma_passes_at_rest(
    body: InstanceView,
    planes: Seq<Plane>,
    bounce: Fixed,
    factor: Fixed,
    passes: nat,
)
    requires
        body.wf(),
        spec_at_rest(body, planes),
        0 <= factor@ <= SCALE,
    ensures
        body.relaxed_times(planes, bounce, factor, passes) == body,
    decreases passes,
{
    if passes > 0 {
        lemma_passes_at_rest(body, planes, bounce, factor, (passes - 1) as nat);
        lemma_pass_at_rest(body, planes, bounce, factor);
    }
}

/// A body at rest is left exactly as it is by a step of any number of
/// passes, whatever the bounce and whatever share rods may keep.
pub proof fn law_rest_is_kept(
    body: InstanceView,
    planes: Seq<Plane>,
    bounce: Fixed,
    factor: Fixed,
    passes: nat,
)
    requires
        body.wf(),
        spec_at_rest(body, planes),
        0 <= factor@ <= SCALE,
    ensures
        body.stepped(planes, bounce, factor, passes) == body,
{
    assert forall|i: int| 0 <= i < body.particles.len() implies spec_integrate(
        body.particles,
        body.accel_dt,
    )[i] == body.particles[i] by {
        lemma_rest_is_not_advanced(body.particles[i]);
    }
    assert(spec_integrate(body.particles, body.accel_dt) =~= body.particles);
    assert(body.integrated() == body);
    lemma_passes_at_rest(body, planes, bounce, factor, passes);
}

/// In a manager without joints whose bodies are all at rest, a simulation
/// step does no more than set the centres.
pub proof fn lemma_step_at_rest(m: ManagerView)
    requires
        m.wf(),
        m.joints.len() == 0,
        forall|i: int|
            0 <= i < m.slots.len() && (#[trigger] m.slots[i]) is Some ==> spec_at_rest(
                m.slots[i].unwrap(),
                m.planes,
            ),
    ensures
        m.simulated() == m.with_slots(spec_center_slots(m.slots)),
{
    let bounce = Fixed { raw: BOUNCE };
    let factor = Fixed { raw: DEFORM };
    assert forall|i: int| 0 <= i < m.slots.len() implies spec_step_slots(m.slots, m.planes)[i]
        == m.slots[i] by {
        if m.slots[i] is Some {
            assert(m.slots[i].unwrap().wf());
            law_rest_is_kept(m.slots[i].unwrap(), m.planes, bounce, factor, ITERATIONS as nat);
        }
    }
    assert(spec_step_slots(m.slots, m.planes) =~= m.slots);
    assert(spec_solve_slots(m.slots, m.joints, 0) == m.slots);
}

/// In a manager without joints whose bodies are all at rest, any number of
/// simulation steps leave every particle, rod and magnet as it is: after
/// the first step, which sets the centres, nothing changes at all.
pub proof fn law_simulation_at_rest_changes_nothing(m: ManagerView, steps: nat)
    requires
        m.wf(),
        m.joints.len() == 0,
        forall|i: int|
            0 <= i < m.slots.len() && (#[trigger] m.slots[i]) is Some ==> spec_at_rest(
                m.slots[i].unwrap(),
                m.planes,
            ),
    ensures
        steps > 0 ==> spec_simulated_times(m, steps) == m.with_slots(spec_center_slots(m.slots)),
    decreases steps,
{
    let centred = m.with_slots(spec_center_slots(m.slots));
    if steps == 1 {
        assert(spec_simulated_times(m, 0) == m);
        lemma_step_at_rest(m);
    } else if steps > 1 {
        law_simulation_at_rest_changes_nothing(m, (steps - 1) as nat);
        assert(spec_simulated_times(m, steps) == centred.simulated());
        crate::manager::lemma_center_wf(m);
        assert forall|i: int|
            0 <= i < centred.slots.len() && (#[trigger] centred.slots[i]) is Some implies spec_at_rest(
            centred.slots[i].unwrap(),
            centred.planes,
        ) by {
            assert(m.slots[i] is Some);
            lemma_centred_is_at_rest(m.slots[i].unwrap(), m.planes);
        }
        lemma_step_at_rest(centred);
        assert forall|i: int| 0 <= i < centred.slots.len() implies spec_center_slots(
            centred.slots,
        )[i] == centred.slots[i] by {
            if m.slots[i] is Some {
                assert(m.slots[i].unwrap().centered().centered() == m.slots[i].unwrap().centered());
            }
        }
        assert(spec_center_slots(centred.slots) =~= centred.slots);
    }
}

/// Setting the centre of a body at rest leaves it at rest.
pub proof fn lemma_centred_is_at_rest(body: InstanceView, planes: Seq<Plane>)
    requires
        spec_at_rest(body, planes),
    ensures
        spec_at_rest(body.centered(), planes),
{
    let after = body.centered();
    assert forall|i: int| 0 <= i < after.particles.len() implies (#[trigger] after.particles[i]).last
        == after.particles[i].position && spec_in_reach(after.particles[i].position) by {
        assert(body.particles[i].last == body.particles[i].position);
    }
    assert forall|k: int| 0 <= k < after.rods.len() implies (#[trigger] after.rods[k]).length
        == after.particles[after.rods[k].right as int].position.spec_sub(
        after.particles[after.rods[k].left as int].position,
    ).spec_mag() by {
        assert(body.rods[k].length == body.particles[body.rods[k].right as int].position.spec_sub(
            body.particles[body.rods[k].left as int].position,
        ).spec_mag());
    }
    assert forall|i: int, p: int|
        0 <= i < after.particles.len() && 0 <= p < planes.len() implies (#[trigger] planes[p]).spec_distance(
        (#[trigger] after.particles[i]).position,
    )@ > 0 by {
        assert(planes[p].spec_distance(body.particles[i].position)@ > 0);
    }
    assert forall|j: int| 0 <= j < after.magnets.len() implies (#[trigger] after.magnets[j]).falloff.spec_apply(
        after.particles[after.magnets[j].serf as int].position,
        after.magnets[j].target,
    ) == after.particles[after.magnets[j].serf as int].position by {
        assert(body.magnets[j].falloff.spec_apply(
            body.particles[body.magnets[j].serf as int].position,
            body.magnets[j].target,
        ) == body.particles[body.magnets[j].serf as int].position);
    }
}

} // verus!
