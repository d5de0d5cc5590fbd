//! The manager of all soft bodies: a growing array of slots, each empty or
//! holding one body, the joints between bodies, the planes that all bodies
//! collide with, and gravity.

use vstd::prelude::*;
use core::ops::Neg;
use crate::alg::plane::Plane;
use crate::alg::vec3::Vec3;
use crate::body::spec_new_instance;
use crate::body::Falloff;
use crate::body::Instance;
use crate::body::InstanceView;
use crate::body::Magnet;
use crate::body::Particle;
use crate::body::Rod;
use crate::fixed::Fixed;
use crate::fixed::SCALE;
use crate::joint::solve;
use crate::joint::spec_solve;
use crate::joint::Joint;
use crate::joint::Range;
use crate::limb::spec_fwd;
use crate::limb::spec_start;
use crate::limb::spec_up;
use crate::limb::CORNERS;
use crate::tuning::BOUNCE;
use crate::tuning::DEFAULT_GRAVITY_Y;
use crate::tuning::DEFORM;
use crate::tuning::ITERATIONS;
use crate::tuning::MAX_SOFTBODY_VERT;

verus! {

/// The body in each occupied slot advanced by one step of its own.
pub open spec fn spec_step_slots(
    slots: Seq<Option<InstanceView>>,
    planes: Seq<Plane>,
) -> Seq<Option<InstanceView>> {
    Seq::new(
        slots.len(),
        |i: int|
            match slots[i] {
                Some(body) => Some(
                    body.stepped(
                        planes,
                        Fixed { raw: BOUNCE },
                        Fixed { raw: DEFORM },
                        ITERATIONS as nat,
                    ),
                ),
                None => None,
            },
    )
}

/// The slots after one pass over `joint`.
pub open spec fn spec_solve_slot(slots: Seq<Option<InstanceView>>, joint: Joint) -> Seq<
    Option<InstanceView>,
> {
    let parent = slots[joint.parent as int].unwrap();
    let child = slots[joint.child as int].unwrap();
    let solved = spec_solve(parent.particles, child.particles, joint);
    slots.update(joint.parent as int, Some(parent.with_particles(solved.0))).update(
        joint.child as int,
        Some(child.with_particles(solved.1)),
    )
}

/// The slots after one pass over each of the first `n` joints, in order:
/// a joint sees what the joints before it have done.
pub open spec fn spec_solve_slots(slots: Seq<Option<InstanceView>>, joints: Seq<Joint>, n: nat) -> Seq<
    Option<InstanceView>,
>
    decreases n,
{
    if n == 0 {
        slots
    } else {
        spec_solve_slot(spec_solve_slots(slots, joints, (n - 1) as nat), joints[n - 1])
    }
}

/// The body in each occupied slot with its centre set to the mean of its
/// particles.
pub open spec fn spec_center_slots(slots: Seq<Option<InstanceView>>) -> Seq<Option<InstanceView>> {
    Seq::new(
        slots.len(),
        |i: int|
            match slots[i] {
                Some(body) => Some(body.centered()),
                None => None,
            },
    )
}

/// The centre of the body in each of the first `n` slots that hold one,
/// with the slot's index, in rising order.
pub open spec fn spec_centers(slots: Seq<Option<InstanceView>>, n: nat) -> Seq<(usize, Vec3)>
    decreases n,
{
    if n == 0 {
        Seq::empty()
    } else {
        let before = spec_centers(slots, (n - 1) as nat);
        match slots[n - 1] {
            Some(body) => before.push(((n - 1) as usize, body.position)),
            None => before,
        }
    }
}

/// The limits of a joint given in degrees, as a range in radians.
pub open spec fn spec_range(limit: (Fixed, Fixed)) -> Range {
    Range { min: limit.0.spec_to_radians(), max: limit.1.spec_to_radians() }
}

/// The corners of a box of the size `scale` about the origin, the front
/// face first.
pub open spec fn spec_limb_points(scale: Vec3) -> Seq<Vec3> {
    let h = scale.spec_scale(Fixed::spec_from_ratio(1, 2));
    let x = h.x;
    let y = h.y;
    let z = h.z;
    seq![
        Vec3 { x: x.spec_neg(), y, z: z.spec_neg() },
        Vec3 { x, y, z: z.spec_neg() },
        Vec3 { x, y: y.spec_neg(), z: z.spec_neg() },
        Vec3 { x: x.spec_neg(), y: y.spec_neg(), z: z.spec_neg() },
        Vec3 { x: x.spec_neg(), y, z },
        Vec3 { x, y, z },
        Vec3 { x, y: y.spec_neg(), z },
        Vec3 { x: x.spec_neg(), y: y.spec_neg(), z },
    ]
}

/// The rods of a limb: the edges of the front face, of the back face, those
/// that join the two faces, and six diagonals against shear.
pub open spec fn spec_limb_bindings() -> Seq<(usize, usize)> {
    seq![
        (0usize, 1usize),
        (1usize, 2usize),
        (2usize, 3usize),
        (3usize, 0usize),
        (4usize, 5usize),
        (5usize, 6usize),
        (6usize, 7usize),
        (7usize, 4usize),
        (0usize, 4usize),
        (1usize, 5usize),
        (2usize, 6usize),
        (3usize, 7usize),
        (0usize, 2usize),
        (0usize, 5usize),
        (0usize, 7usize),
        (6usize, 4usize),
        (6usize, 1usize),
        (6usize, 3usize),
    ]
}

/// The internal rigidity of a body made with the rigidity `rigidity` on the
/// scale from zero to one: half of it.
pub open spec fn spec_halved(rigidity: Fixed) -> Fixed {
    rigidity.spec_mul(Fixed::spec_from_ratio(1, 2))
}

/// A rod to draw: its two ends and how far it is from its rest length, as
/// a share of a tenth of that length.
#[derive(Clone, Copy, Debug, PartialEq, Eq, Structural)]
pub struct RodMark {
    pub left: Vec3,
    pub right: Vec3,
    pub strain: Fixed,
}

/// The frame of a jointed limb to draw: its start and its forward and up
/// vectors.
#[derive(Clone, Copy, Debug, PartialEq, Eq, Structural)]
pub struct AxesMark {
    pub origin: Vec3,
    pub fwd: Vec3,
    pub up: Vec3,
}

/// What there is to draw of one slot.
pub struct DebugMarks {
    /// One mark for each rod of the slot's body.
    pub rods: Vec<RodMark>,
    /// One mark for each joint that has the slot's body as its child.
    pub axes: Vec<AxesMark>,
}

/// The mark of `rod` among `particles`.
pub open spec fn spec_rod_mark(rod: Rod, particles: Seq<Particle>) -> RodMark {
    let left = particles[rod.left as int].position;
    let right = particles[rod.right as int].position;
    RodMark {
        left,
        right,
        strain: rod.length.spec_sub(left.spec_dist(right)).spec_abs().spec_div(
            Fixed::spec_from_ratio(1, 10).spec_mul(rod.length),
        ),
    }
}

/// The frame to draw of a limb with the particles `particles`.
pub open spec fn spec_axes_mark(particles: Seq<Particle>) -> AxesMark {
    AxesMark { origin: spec_start(particles), fwd: spec_fwd(particles), up: spec_up(particles) }
}

/// The frames to draw for slot `index`: one for each of the first `n`
/// joints that has the slot's body as its child.
pub open spec fn spec_axes_marks(
    slots: Seq<Option<InstanceView>>,
    joints: Seq<Joint>,
    index: int,
    n: nat,
) -> Seq<AxesMark>
    decreases n,
{
    if n == 0 {
        Seq::empty()
    } else {
        let before = spec_axes_marks(slots, joints, index, (n - 1) as nat);
        if joints[n - 1].child == index {
            before.push(spec_axes_mark(slots[index].unwrap().particles))
        } else {
            before
        }
    }
}

/// What a manager holds, as plain sequences and values.
pub struct ManagerView {
    pub slots: Seq<Option<InstanceView>>,
    pub joints: Seq<Joint>,
    pub planes: Seq<Plane>,
    pub gravity: Vec3,
}

impl ManagerView {
    /// Whether slot `index` holds a body with the eight corners of a limb.
    pub open spec fn is_limb(self, index: int) -> bool {
        &&& 0 <= index < self.slots.len()
        &&& self.slots[index] is Some
        &&& self.slots[index].unwrap().particles.len() >= CORNERS
    }

    /// Whether some joint has the body in slot `index` at one of its ends.
    pub open spec fn jointed(self, index: int) -> bool {
        exists|j: int|
            0 <= j < self.joints.len() && ((#[trigger] self.joints[j]).parent == index
                || self.joints[j].child == index)
    }

    /// Every body is well formed, and every joint is between two limbs in
    /// different slots.
    pub open spec fn wf(self) -> bool {
        &&& forall|i: int|
            0 <= i < self.slots.len() && (#[trigger] self.slots[i]) is Some
                ==> self.slots[i].unwrap().wf()
        &&& forall|j: int|
            0 <= j < self.joints.len() ==> (#[trigger] self.joints[j]).parent
                != self.joints[j].child && self.is_limb(self.joints[j].parent as int)
                && self.is_limb(self.joints[j].child as int)
    }

    /// The answer to a query for the render offsets of slot `index`.
    pub open spec fn offsets(self, index: int) -> Seq<Vec3> {
        Seq::new(
            MAX_SOFTBODY_VERT as nat,
            |k: int|
                if 0 <= index < self.slots.len() && self.slots[index] is Some && k
                    < self.slots[index].unwrap().particles.len() {
                    self.slots[index].unwrap().offset(k)
                } else {
                    Vec3::spec_zero()
                },
        )
    }

    /// The rods to draw for slot `index`.
    pub open spec fn rod_marks(self, index: int) -> Seq<RodMark> {
        match self.slots[index] {
            Some(body) => Seq::new(
                body.rods.len(),
                |k: int| spec_rod_mark(body.rods[k], body.particles),
            ),
            None => Seq::empty(),
        }
    }

    /// The frames to draw for slot `index`.
    pub open spec fn axes_marks(self, index: int) -> Seq<AxesMark> {
        spec_axes_marks(self.slots, self.joints, index, self.joints.len())
    }

    /// The manager with other slots.
    pub open spec fn with_slots(self, slots: Seq<Option<InstanceView>>) -> ManagerView {
        ManagerView { slots, ..self }
    }

    /// The manager with another body in slot `index`.
    pub open spec fn with_body(self, index: int, body: InstanceView) -> ManagerView {
        self.with_slots(self.slots.update(index, Some(body)))
    }

    /// The manager after one simulation step: every body takes its own
    /// step, then every joint has its pass, then every body's centre is
    /// set.
    pub open spec fn simulated(self) -> ManagerView {
        self.with_slots(
            spec_center_slots(
                spec_solve_slots(
                    spec_step_slots(self.slots, self.planes),
                    self.joints,
                    self.joints.len(),
                ),
            ),
        )
    }
}

/// The manager of all soft bodies.
pub struct Manager {
    instances: Vec<Option<Instance>>,
    joints: Vec<Joint>,
    planes: Vec<Plane>,
    gravity: Vec3,
}

/// The slots of a manager as plain values.
pub open spec fn spec_slots(instances: Seq<Option<Instance>>) -> Seq<Option<InstanceView>> {
    Seq::new(
        instances.len(),
        |i: int|
            match instances[i] {
                Some(body) => Some(body@),
                None => None,
            },
    )
}

impl View for Manager {
    type V = ManagerView;

    closed spec fn view(&self) -> ManagerView {
        ManagerView {
            slots: spec_slots(self.instances@),
            joints: self.joints@,
            planes: self.planes@,
            gravity: self.gravity,
        }
    }
}

impl Manager {
    /// A manager without slots, joints or planes, with the default
    /// gravity. The hints say how many of each to make room for.
    pub fn new(instance_hint: usize, joint_hint: usize, plane_hint: usize) -> (r: Manager)
        ensures
            r@ == (ManagerView {
                slots: Seq::empty(),
                joints: Seq::empty(),
                planes: Seq::empty(),
                gravity: Vec3 {
                    x: Fixed::spec_zero(),
                    y: Fixed { raw: DEFAULT_GRAVITY_Y },
                    z: Fixed::spec_zero(),
                },
            }),
            r@.wf(),
    {
        let made = Manager {
            instances: Vec::with_capacity(instance_hint),
            joints: Vec::with_capacity(joint_hint),
            planes: Vec::with_capacity(plane_hint),
            gravity: Vec3::new(Fixed::zero(), Fixed { raw: DEFAULT_GRAVITY_Y }, Fixed::zero()),
        };
        assert(made@.slots =~= Seq::empty());
        made
    }

    /// Makes slot `index` addressable: adds empty slots until there are
    /// more than `index`.
    pub fn register(&mut self, index: usize)
        ensures
            final(self)@ == old(self)@.with_slots(
                old(self)@.slots + Seq::new(
                    if index >= old(self)@.slots.len() {
                        (index + 1 - old(self)@.slots.len()) as nat
                    } else {
                        0
                    },
                    |i: int| None::<InstanceView>,
                ),
            ),
            old(self)@.wf() ==> final(self)@.wf(),
    {
        let ghost before = self@;
        while index >= self.instances.len()
            invariant
                self.joints@ == before.joints,
                self.planes@ == before.planes,
                self.gravity == before.gravity,
                self.instances@.len() >= before.slots.len(),
                self.instances@.len() <= index + 1 || self.instances@.len() == before.slots.len(),
                spec_slots(self.instances@) == before.slots + Seq::new(
                    (self.instances@.len() - before.slots.len()) as nat,
                    |i: int| None::<InstanceView>,
                ),
            decreases index + 1 - self.instances@.len(),
        {
            let ghost prior = self.instances@;
            self.instances.push(None);
            assert(spec_slots(self.instances@) =~= before.slots + Seq::new(
                (self.instances@.len() - before.slots.len()) as nat,
                |i: int| None::<InstanceView>,
            )) by {
                assert(spec_slots(self.instances@) =~= spec_slots(prior).push(None));
            }
        }
        proof {
            if before.wf() {
                let after = self@;
                assert forall|i: int|
                    0 <= i < after.slots.len() && (#[trigger] after.slots[i]) is Some implies after.slots[i].unwrap().wf() by {
                    assert(i < before.slots.len());
                    assert(after.slots[i] == before.slots[i]);
                }
                assert forall|j: int| 0 <= j < after.joints.len() implies (#[trigger] after.joints[j]).parent
                    != after.joints[j].child && after.is_limb(after.joints[j].parent as int)
                    && after.is_limb(after.joints[j].child as int) by {
                    let joint = before.joints[j];
                    assert(before.is_limb(joint.parent as int));
                    assert(before.is_limb(joint.child as int));
                    assert(after.slots[joint.parent as int] == before.slots[joint.parent as int]);
                    assert(after.slots[joint.child as int] == before.slots[joint.child as int]);
                }
            }
        }
    }

    /// The number of slots, empty ones included.
    pub fn count(&self) -> (r: usize)
        ensures
            r == self@.slots.len(),
    {
        self.instances.len()
    }

    /// Whether some joint has the body in slot `index` at one of its ends.
    pub fn jointed(&self, index: usize) -> (r: bool)
        ensures
            r == self@.jointed(index as int),
    {
        let mut i: usize = 0;
        while i < self.joints.len()
            invariant
                i <= self.joints@.len(),
                forall|j: int|
                    0 <= j < i ==> (#[trigger] self.joints@[j]).parent != index
                        && self.joints@[j].child != index,
            decreases self.joints@.len() - i,
        {
            if self.joints[i].parent == index || self.joints[i].child == index {
                assert(self@.joints[i as int].parent == index || self@.joints[i as int].child
                    == index);
                return true;
            }
            i += 1;
        }
        false
    }

    /// How many particles the body in slot `index` has, if there is one.
    pub fn particle_count(&self, index: usize) -> (r: Option<usize>)
        requires
            index < self@.slots.len(),
        ensures
            r == match self@.slots[index as int] {
                Some(body) => Some(body.particles.len() as usize),
                None => None,
            },
    {
        match &self.instances[index] {
            Some(body) => Some(body.particles.len()),
            None => None,
        }
    }

    /// How many magnets the body in slot `index` has, if there is one.
    pub fn magnet_count(&self, index: usize) -> (r: Option<usize>)
        requires
            index < self@.slots.len(),
        ensures
            r == match self@.slots[index as int] {
                Some(body) => Some(body.magnets.len() as usize),
                None => None,
            },
    {
        match &self.instances[index] {
            Some(body) => Some(body.magnets.len()),
            None => None,
        }
    }

    /// Takes the body out of slot `index`, which is left empty.
    fn take_body(&mut self, index: usize) -> (r: Option<Instance>)
        requires
            index < old(self).instances@.len(),
        ensures
            r == old(self).instances@[index as int],
            final(self).instances@ == old(self).instances@.update(index as int, None),
            final(self).joints == old(self).joints,
            final(self).planes == old(self).planes,
            final(self).gravity == old(self).gravity,
    {
        self.instances[index].take()
    }

    /// Puts `body` into slot `index`.
    fn put_body(&mut self, index: usize, body: Instance)
        requires
            index < old(self).instances@.len(),
        ensures
            final(self).instances@ == old(self).instances@.update(index as int, Some(body)),
            final(self).joints == old(self).joints,
            final(self).planes == old(self).planes,
            final(self).gravity == old(self).gravity,
    {
        self.instances[index] = Some(body);
    }

    /// Puts a new body into slot `index`, in place of any that was there:
    /// a particle at each of `points`, a rod for each pair of `bindings`, a
    /// magnet for each entry of `magnets`. The rigidity is given on a scale
    /// from zero to one.
    pub fn init_instance(
        &mut self,
        index: usize,
        mass: Fixed,
        rigidity: Fixed,
        points: &[Vec3],
        bindings: &[(usize, usize)],
        magnets: &[(usize, Falloff)],
    )
        requires
            index < old(self)@.slots.len(),
            mass@ > 0,
            0 < spec_halved(rigidity)@ <= SCALE / 2,
            forall|i: int|
                0 <= i < bindings@.len() ==> (#[trigger] bindings@[i]).0 < points@.len()
                    && bindings@[i].1 < points@.len(),
            forall|i: int| 0 <= i < magnets@.len() ==> (#[trigger] magnets@[i]).0 < points@.len(),
            old(self)@.jointed(index as int) ==> points@.len() >= CORNERS,
        ensures
            final(self)@ == old(self)@.with_body(
                index as int,
                spec_new_instance(
                    points@,
                    bindings@,
                    magnets@,
                    mass,
                    spec_halved(rigidity),
                    old(self)@.gravity,
                ),
            ),
            old(self)@.wf() ==> final(self)@.wf(),
    {
        let ghost before = self@;
        let body = Instance::new(
            points,
            bindings,
            magnets,
            mass,
            rigidity * Fixed::from_ratio(1, 2),
            self.gravity,
        );
        proof {
            lemma_slots_update(self.instances@, index as int, body);
            if before.wf() {
                lemma_with_body_wf(before, index as int, body@);
            }
        }
        self.put_body(index, body);
    }

    /// Puts a new limb into slot `index`: a box of the size `scale` about
    /// the origin, with rods along its edges and six diagonals.
    pub fn init_limb(&mut self, index: usize, mass: Fixed, rigidity: Fixed, scale: Vec3)
        requires
            index < old(self)@.slots.len(),
            mass@ > 0,
            0 < spec_halved(rigidity)@ <= SCALE / 2,
        ensures
            final(self)@ == old(self)@.with_body(
                index as int,
                spec_new_instance(
                    spec_limb_points(scale),
                    spec_limb_bindings(),
                    Seq::empty(),
                    mass,
                    spec_halved(rigidity),
                    old(self)@.gravity,
                ),
            ),
            old(self)@.wf() ==> final(self)@.wf(),
    {
        let half = scale * Fixed::from_ratio(1, 2);
        let points: [Vec3; 8] = [
            Vec3::new(half.x.neg(), half.y, half.z.neg()),
            Vec3::new(half.x, half.y, half.z.neg()),
            Vec3::new(half.x, half.y.neg(), half.z.neg()),
            Vec3::new(half.x.neg(), half.y.neg(), half.z.neg()),
            Vec3::new(half.x.neg(), half.y, half.z),
            Vec3::new(half.x, half.y, half.z),
            Vec3::new(half.x, half.y.neg(), half.z),
            Vec3::new(half.x.neg(), half.y.neg(), half.z),
        ];
        let bindings: [(usize, usize); 18] = [
            (0, 1),
            (1, 2),
            (2, 3),
            (3, 0),
            (4, 5),
            (5, 6),
            (6, 7),
            (7, 4),
            (0, 4),
            (1, 5),
            (2, 6),
            (3, 7),
            (0, 2),
            (0, 5),
            (0, 7),
            (6, 4),
            (6, 1),
            (6, 3),
        ];
        let magnets: [(usize, Falloff); 0] = [];
        proof {
            assert(points@ =~= spec_limb_points(scale));
            assert(bindings@ =~= spec_limb_bindings());
            assert(magnets@ =~= Seq::<(usize, Falloff)>::empty());
        }
        self.init_instance(
            index,
            mass,
            rigidity,
            points.as_slice(),
            bindings.as_slice(),
            magnets.as_slice(),
        );
    }

    /// Replaces the force on the body in slot `index`, if there is one,
    /// and recomputes its acceleration term at once.
    pub fn set_force(&mut self, index: usize, force: Vec3)
        requires
            index < old(self)@.slots.len(),
        ensures
            final(self)@ == match old(self)@.slots[index as int] {
                Some(body) => old(self)@.with_body(
                    index as int,
                    body.with_force(force, old(self)@.gravity),
                ),
                None => old(self)@,
            },
            final(self)@.slots[index as int] matches Some(body) ==> body.cache_fresh(
                final(self)@.gravity,
            ),
            old(self)@.wf() ==> final(self)@.wf(),
    {
        let ghost before = self@;
        let ghost seats = self.instances@;
        match self.take_body(index) {
            Some(mut body) => {
                body.force = force;
                body.update_cache(self.gravity);
                proof {
                    lemma_slots_update(seats, index as int, body);
                    assert(seats.update(index as int, None).update(index as int, Some(body))
                        =~= seats.update(index as int, Some(body)));
                    if before.wf() {
                        let was = before.slots[index as int].unwrap();
                        assert(was.wf());
                        assert forall|i: int| 0 <= i < body@.magnets.len() implies (
                        #[trigger] body@.magnets[i]).serf < body@.particles.len() by {
                            assert(was.magnets[i].serf < was.particles.len());
                        }
                        assert forall|i: int| 0 <= i < body@.rods.len() implies (
                        #[trigger] body@.rods[i]).valid_for(body@.particles.len()) by {
                            assert(was.rods[i].valid_for(was.particles.len()));
                        }
                        lemma_with_body_wf(before, index as int, body@);
                    }
                }
                self.put_body(index, body);
            },
            None => {
                assert(self.instances@ =~= seats);
            },
        }
    }

    /// Aims magnet `magnet` of the body in slot `index`, if there is one,
    /// at `target`.
    pub fn set_magnet(&mut self, index: usize, magnet: usize, target: Vec3)
        requires
            index < old(self)@.slots.len(),
            old(self)@.slots[index as int] matches Some(body) ==> magnet < body.magnets.len(),
        ensures
            final(self)@ == match old(self)@.slots[index as int] {
                Some(body) => old(self)@.with_body(index as int, body.with_target(magnet as int, target)),
                None => old(self)@,
            },
            old(self)@.wf() ==> final(self)@.wf(),
    {
        let ghost before = self@;
        let ghost seats = self.instances@;
        match self.take_body(index) {
            Some(mut body) => {
                let aimed = Magnet {
                    target,
                    serf: body.magnets[magnet].serf,
                    falloff: body.magnets[magnet].falloff,
                };
                body.magnets[magnet] = aimed;
                proof {
                    lemma_slots_update(seats, index as int, body);
                    assert(seats.update(index as int, None).update(index as int, Some(body))
                        =~= seats.update(index as int, Some(body)));
                    if before.wf() {
                        let was = before.slots[index as int].unwrap();
                        assert(was.wf());
                        assert forall|i: int| 0 <= i < body@.magnets.len() implies (
                        #[trigger] body@.magnets[i]).serf < body@.particles.len() by {
                            assert(was.magnets[i].serf < was.particles.len());
                        }
                        assert forall|i: int| 0 <= i < body@.rods.len() implies (
                        #[trigger] body@.rods[i]).valid_for(body@.particles.len()) by {
                            assert(was.rods[i].valid_for(was.particles.len()));
                        }
                        lemma_with_body_wf(before, index as int, body@);
                    }
                }
                self.put_body(index, body);
            },
            None => {
                assert(self.instances@ =~= seats);
            },
        }
    }

    /// The position of particle `particle` of the body in slot `index`;
    /// the origin if the slot is empty.
    pub fn get_particle(&self, index: usize, particle: usize) -> (r: Vec3)
        requires
            index < self@.slots.len(),
            self@.slots[index as int] matches Some(body) ==> particle < body.particles.len(),
        ensures
            r == match self@.slots[index as int] {
                Some(body) => body.particles[particle as int].position,
                None => Vec3::spec_zero(),
            },
    {
        match &self.instances[index] {
            Some(body) => body.particles[particle].position,
            None => Vec3::zero(),
        }
    }

    /// For each particle of the body in slot `index`, what it has moved by
    /// relative to the body's centre since the body was made; then zeros up
    /// to the fixed length of the answer. All zeros if there is no such
    /// slot or no body in it.
    pub fn get_offsets(&self, index: usize) -> (r: Vec<Vec3>)
        requires
            self@.wf(),
            index < self@.slots.len() ==> (self@.slots[index as int] matches Some(body)
                ==> body.particles.len() <= MAX_SOFTBODY_VERT),
        ensures
            r@ == self@.offsets(index as int),
    {
        let mut offsets: Vec<Vec3> = Vec::with_capacity(MAX_SOFTBODY_VERT);
        let mut k: usize = 0;
        while k < MAX_SOFTBODY_VERT
            invariant
                k <= MAX_SOFTBODY_VERT,
                offsets@.len() == k,
                forall|j: int| 0 <= j < k ==> offsets@[j] == Vec3::spec_zero(),
            decreases MAX_SOFTBODY_VERT - k,
        {
            offsets.push(Vec3::zero());
            k += 1;
        }
        if index >= self.instances.len() {
            assert(offsets@ =~= self@.offsets(index as int));
            return offsets;
        }
        match &self.instances[index] {
            Some(body) => {
                assert(self@.slots[index as int].unwrap().wf());
                let mut i: usize = 0;
                while i < body.particles.len()
                    invariant
                        i <= body@.particles.len() <= MAX_SOFTBODY_VERT,
                        body@.model.len() == body@.particles.len(),
                        offsets@.len() == MAX_SOFTBODY_VERT,
                        forall|j: int| 0 <= j < i ==> offsets@[j] == body@.offset(j),
                        forall|j: int|
                            i <= j < MAX_SOFTBODY_VERT ==> offsets@[j] == Vec3::spec_zero(),
                    decreases body@.particles.len() - i,
                {
                    offsets[i] = body.offset(i);
                    i += 1;
                }
                assert(offsets@ =~= self@.offsets(index as int));
            },
            None => {
                assert(offsets@ =~= self@.offsets(index as int));
            },
        }
        offsets
    }

    /// Adds a joint between the limbs in the slots `parent` and `child`,
    /// with limits in degrees about the parent's x, y and forward axes.
    /// Nothing happens while either slot is empty.
    pub fn add_joint(
        &mut self,
        parent: usize,
        child: usize,
        x_limit: (Fixed, Fixed),
        y_limit: (Fixed, Fixed),
        z_limit: (Fixed, Fixed),
    )
        requires
            parent < old(self)@.slots.len(),
            child < old(self)@.slots.len(),
            parent != child,
            old(self)@.slots[parent as int] is Some && old(self)@.slots[child as int] is Some
                ==> old(self)@.is_limb(parent as int) && old(self)@.is_limb(child as int),
        ensures
            final(self)@ == if old(self)@.slots[parent as int] is Some && old(
                self,
            )@.slots[child as int] is Some {
                ManagerView {
                    joints: old(self)@.joints.push(
                        Joint {
                            parent,
                            child,
                            x_limit: spec_range(x_limit),
                            y_limit: spec_range(y_limit),
                            z_limit: spec_range(z_limit),
                        },
                    ),
                    ..old(self)@
                }
            } else {
                old(self)@
            },
            old(self)@.wf() ==> final(self)@.wf(),
    {
        if self.instances[child].is_none() {
            return;
        }
        if self.instances[parent].is_none() {
            return;
        }
        let joint = Joint::new(
            parent,
            child,
            Range { min: x_limit.0.to_radians(), max: x_limit.1.to_radians() },
            Range { min: y_limit.0.to_radians(), max: y_limit.1.to_radians() },
            Range { min: z_limit.0.to_radians(), max: z_limit.1.to_radians() },
        );
        let ghost before = self@;
        self.joints.push(joint);
        proof {
            if before.wf() {
                let after = self@;
                assert forall|j: int| 0 <= j < after.joints.len() implies (
                #[trigger] after.joints[j]).parent != after.joints[j].child && after.is_limb(
                    after.joints[j].parent as int,
                ) && after.is_limb(after.joints[j].child as int) by {
                    if j < before.joints.len() {
                        let old_joint = before.joints[j];
                        assert(before.is_limb(old_joint.parent as int));
                        assert(before.is_limb(old_joint.child as int));
                    }
                }
            }
        }
    }

    /// Adds a plane that every body collides with.
    pub fn add_plane(&mut self, plane: Plane)
        ensures
            final(self)@ == (ManagerView { planes: old(self)@.planes.push(plane), ..old(self)@ }),
            old(self)@.wf() ==> final(self)@.wf(),
    {
        self.planes.push(plane);
    }

    /// Sets gravity and recomputes the acceleration term of every body at
    /// once.
    pub fn set_gravity(&mut self, gravity: Vec3)
        ensures
            final(self)@ == (ManagerView {
                gravity,
                slots: spec_refresh_slots(old(self)@.slots, gravity),
                ..old(self)@
            }),
            forall|i: int|
                0 <= i < final(self)@.slots.len() ==> ((#[trigger] final(self)@.slots[i]) matches Some(
                    body,
                ) ==> body.cache_fresh(gravity)),
            old(self)@.wf() ==> final(self)@.wf(),
    {
        let ghost before = self@;
        self.gravity = gravity;
        let mut i: usize = 0;
        while i < self.instances.len()
            invariant
                i <= self.instances@.len(),
                self.instances@.len() == before.slots.len(),
                self.joints@ == before.joints,
                self.planes@ == before.planes,
                self.gravity == gravity,
                forall|k: int|
                    0 <= k < i ==> (#[trigger] spec_slots(self.instances@)[k]) == spec_refresh_slots(
                        before.slots,
                        gravity,
                    )[k],
                forall|k: int|
                    i <= k < before.slots.len() ==> (#[trigger] spec_slots(self.instances@)[k])
                        == before.slots[k],
            decreases self.instances@.len() - i,
        {
            let ghost seats = self.instances@;
            match self.take_body(i) {
                Some(mut body) => {
                    body.update_cache(gravity);
                    self.put_body(i, body);
                },
                None => {
                    assert(self.instances@ =~= seats);
                },
            }
            assert forall|k: int| 0 <= k < i + 1 implies (#[trigger] spec_slots(
                self.instances@,
            )[k]) == spec_refresh_slots(before.slots, gravity)[k] by {
                if k < i {
                    assert(spec_slots(self.instances@)[k] == spec_slots(seats)[k]);
                }
            }
            assert forall|k: int| i + 1 <= k < before.slots.len() implies (#[trigger] spec_slots(
                self.instances@,
            )[k]) == before.slots[k] by {
                assert(spec_slots(self.instances@)[k] == spec_slots(seats)[k]);
            }
            i += 1;
        }
        proof {
            assert(self@.slots =~= spec_refresh_slots(before.slots, gravity));
            if before.wf() {
                lemma_refresh_wf(before, gravity);
            }
        }
    }

    /// Sets gravity and leaves every body's acceleration term as it is: a
    /// body goes on with its old term until its force is set or gravity is
    /// set with [`Manager::set_gravity`].
    pub fn set_gravity_raw(&mut self, gravity: Vec3)
        ensures
            final(self)@ == (ManagerView { gravity, ..old(self)@ }),
            old(self)@.wf() ==> final(self)@.wf(),
    {
        self.gravity = gravity;
    }

    /// What there is to draw of slot `index`: for each rod of its body the
    /// two ends and the strain, and for each joint that has the body as its
    /// child the body's frame.
    pub fn draw_debug(&self, index: usize) -> (r: DebugMarks)
        requires
            self@.wf(),
            index < self@.slots.len(),
        ensures
            r.rods@ == self@.rod_marks(index as int),
            r.axes@ == self@.axes_marks(index as int),
    {
        let mut rods: Vec<RodMark> = Vec::new();
        match &self.instances[index] {
            Some(body) => {
                assert(self@.slots[index as int] == Some(body@));
                assert(body@.wf());
                let mut k: usize = 0;
                while k < body.rods.len()
                    invariant
                        k <= body@.rods.len(),
                        body@.wf(),
                        rods@.len() == k,
                        forall|j: int|
                            0 <= j < k ==> rods@[j] == spec_rod_mark(body@.rods[j], body@.particles),
                    decreases body@.rods.len() - k,
                {
                    let rod = body.rods[k];
                    assert(body@.rods[k as int].valid_for(body@.particles.len()));
                    let left = body.particles[rod.left].position;
                    let right = body.particles[rod.right].position;
                    let strain = (rod.length - left.dist(right)).abs() / (Fixed::from_ratio(1, 10)
                        * rod.length);
                    rods.push(RodMark { left, right, strain });
                    k += 1;
                }
                assert(rods@ =~= self@.rod_marks(index as int));
            },
            None => {
                assert(rods@ =~= self@.rod_marks(index as int));
            },
        }
        let mut axes: Vec<AxesMark> = Vec::new();
        let mut n: usize = 0;
        while n < self.joints.len()
            invariant
                n <= self.joints@.len(),
                self@.wf(),
                index < self@.slots.len(),
                axes@ == spec_axes_marks(self@.slots, self@.joints, index as int, n as nat),
            decreases self.joints@.len() - n,
        {
            if self.joints[n].child == index {
                assert(self@.joints[n as int].child == index);
                assert(self@.is_limb(self@.joints[n as int].child as int));
                match &self.instances[index] {
                    Some(child) => {
                        assert(self@.slots[index as int] == Some(child@));
                        axes.push(AxesMark { origin: child.start(), fwd: child.fwd(), up: child.up() });
                    },
                    None => {},
                }
            }
            n += 1;
        }
        DebugMarks { rods, axes }
    }

    /// What there is to draw of every slot, by rising slot.
    pub fn draw_all_debug(&self) -> (r: Vec<DebugMarks>)
        requires
            self@.wf(),
        ensures
            r@.len() == self@.slots.len(),
            forall|i: int|
                0 <= i < r@.len() ==> (#[trigger] r@[i]).rods@ == self@.rod_marks(i) && r@[i].axes@
                    == self@.axes_marks(i),
    {
        let mut all: Vec<DebugMarks> = Vec::new();
        let mut i: usize = 0;
        while i < self.instances.len()
            invariant
                i <= self.instances@.len(),
                self@.wf(),
                self@.slots.len() == self.instances@.len(),
                all@.len() == i,
                forall|j: int|
                    0 <= j < i ==> (#[trigger] all@[j]).rods@ == self@.rod_marks(j) && all@[j].axes@
                        == self@.axes_marks(j),
            decreases self.instances@.len() - i,
        {
            let marks = self.draw_debug(i);
            all.push(marks);
            i += 1;
        }
        all
    }

    /// Lets the body in every occupied slot take its own step.
    fn step_bodies(&mut self)
        requires
            old(self)@.wf(),
        ensures
            final(self)@ == old(self)@.with_slots(
                spec_step_slots(old(self)@.slots, old(self)@.planes),
            ),
            final(self)@.wf(),
    {
        let ghost before = self@;
        let mut i: usize = 0;
        while i < self.instances.len()
            invariant
                i <= self.instances@.len(),
                self.instances@.len() == before.slots.len(),
                self.joints@ == before.joints,
                self.planes@ == before.planes,
                self.gravity == before.gravity,
                before.wf(),
                forall|k: int|
                    0 <= k < i ==> (#[trigger] spec_slots(self.instances@)[k]) == spec_step_slots(
                        before.slots,
                        before.planes,
                    )[k],
                forall|k: int|
                    i <= k < before.slots.len() ==> (#[trigger] spec_slots(self.instances@)[k])
                        == before.slots[k],
            decreases self.instances@.len() - i,
        {
            let ghost seats = self.instances@;
            assert(spec_slots(seats)[i as int] == before.slots[i as int]);
            match self.take_body(i) {
                Some(mut body) => {
                    assert(before.slots[i as int] == Some(body@));
                    assert(before.slots[i as int].unwrap().wf());
                    body.step(
                        self.planes.as_slice(),
                        Fixed { raw: BOUNCE },
                        Fixed { raw: DEFORM },
                        ITERATIONS,
                    );
                    self.put_body(i, body);
                },
                None => {
                    assert(self.instances@ =~= seats);
                },
            }
            assert forall|k: int| 0 <= k < i + 1 implies (#[trigger] spec_slots(
                self.instances@,
            )[k]) == spec_step_slots(before.slots, before.planes)[k] by {
                if k < i {
                    assert(spec_slots(self.instances@)[k] == spec_slots(seats)[k]);
                }
            }
            assert forall|k: int| i + 1 <= k < before.slots.len() implies (#[trigger] spec_slots(
                self.instances@,
            )[k]) == before.slots[k] by {
                assert(spec_slots(self.instances@)[k] == spec_slots(seats)[k]);
            }
            i += 1;
        }
        proof {
            assert(self@.slots =~= spec_step_slots(before.slots, before.planes));
            lemma_step_wf(before);
        }
    }

    /// Gives `joint` its pass.
    fn solve_joint(&mut self, joint: Joint)
        requires
            joint.parent != joint.child,
            old(self)@.is_limb(joint.parent as int),
            old(self)@.is_limb(joint.child as int),
        ensures
            final(self)@ == old(self)@.with_slots(spec_solve_slot(old(self)@.slots, joint)),
    {
        let ghost now = self@;
        let ghost seats = self.instances@;
        let mut parent = self.take_body(joint.parent).unwrap();
        let mut child = self.take_body(joint.child).unwrap();
        assert(now.slots[joint.parent as int] == Some(parent@));
        assert(now.slots[joint.child as int] == Some(child@));
        solve(&mut parent, &mut child, &joint);
        self.put_body(joint.parent, parent);
        self.put_body(joint.child, child);
        proof {
            assert(self.instances@ =~= seats.update(joint.parent as int, Some(parent)).update(
                joint.child as int,
                Some(child),
            ));
            assert(self@.slots =~= spec_solve_slot(now.slots, joint));
        }
    }

    /// Gives every joint its pass, in the order in which the joints were
    /// added.
    fn solve_joints(&mut self)
        requires
            old(self)@.wf(),
        ensures
            final(self)@ == old(self)@.with_slots(
                spec_solve_slots(old(self)@.slots, old(self)@.joints, old(self)@.joints.len()),
            ),
            final(self)@.wf(),
    {
        let ghost before = self@;
        let mut n: usize = 0;
        while n < self.joints.len()
            invariant
                n <= self.joints@.len(),
                self.joints@ == before.joints,
                self.planes@ == before.planes,
                self.gravity == before.gravity,
                self@.wf(),
                self@.slots == spec_solve_slots(before.slots, before.joints, n as nat),
            decreases self.joints@.len() - n,
        {
            let joint = self.joints[n];
            proof {
                let now = self@;
                assert(now.joints[n as int] == joint);
                assert(now.is_limb(joint.parent as int) && now.is_limb(joint.child as int));
                lemma_solve_slot_wf(now, n as int);
            }
            self.solve_joint(joint);
            n += 1;
        }
    }

    /// Sets the centre of the body in every occupied slot to the mean of
    /// its particles, and lists the centres with their slots.
    fn finalize(&mut self) -> (r: Vec<(usize, Vec3)>)
        requires
            old(self)@.wf(),
        ensures
            final(self)@ == old(self)@.with_slots(spec_center_slots(old(self)@.slots)),
            r@ == spec_centers(final(self)@.slots, final(self)@.slots.len()),
            final(self)@.wf(),
    {
        let ghost before = self@;
        let mut written: Vec<(usize, Vec3)> = Vec::new();
        let mut i: usize = 0;
        while i < self.instances.len()
            invariant
                i <= self.instances@.len(),
                self.instances@.len() == before.slots.len(),
                self.joints@ == before.joints,
                self.planes@ == before.planes,
                self.gravity == before.gravity,
                forall|k: int|
                    0 <= k < i ==> (#[trigger] spec_slots(self.instances@)[k]) == spec_center_slots(
                        before.slots,
                    )[k],
                forall|k: int|
                    i <= k < before.slots.len() ==> (#[trigger] spec_slots(self.instances@)[k])
                        == before.slots[k],
                written@ == spec_centers(spec_center_slots(before.slots), i as nat),
            decreases self.instances@.len() - i,
        {
            let ghost seats = self.instances@;
            assert(spec_slots(seats)[i as int] == before.slots[i as int]);
            match self.take_body(i) {
                Some(mut body) => {
                    let average = body.center();
                    body.position = average;
                    written.push((i, average));
                    assert(spec_center_slots(before.slots)[i as int] == Some(body@));
                    self.put_body(i, body);
                },
                None => {
                    assert(spec_center_slots(before.slots)[i as int] is None);
                    assert(self.instances@ =~= seats);
                },
            }
            assert(written@ == spec_centers(spec_center_slots(before.slots), (i + 1) as nat));
            assert forall|k: int| 0 <= k < i + 1 implies (#[trigger] spec_slots(
                self.instances@,
            )[k]) == spec_center_slots(before.slots)[k] by {
                if k < i {
                    assert(spec_slots(self.instances@)[k] == spec_slots(seats)[k]);
                }
            }
            assert forall|k: int| i + 1 <= k < before.slots.len() implies (#[trigger] spec_slots(
                self.instances@,
            )[k]) == before.slots[k] by {
                assert(spec_slots(self.instances@)[k] == spec_slots(seats)[k]);
            }
            i += 1;
        }
        proof {
            assert(self@.slots =~= spec_center_slots(before.slots));
            lemma_center_wf(before);
        }
        written
    }

    /// One simulation step. Every body is integrated and relaxed, then
    /// every joint has its pass, then every body's centre is set to the
    /// mean of its particles. The answer lists, by rising slot, each
    /// occupied slot with the centre of its body: the positions to hand on
    /// to whatever keeps the bodies' transforms.
    pub fn simulate(&mut self) -> (r: Vec<(usize, Vec3)>)
        requires
            old(self)@.wf(),
        ensures
            final(self)@ == old(self)@.simulated(),
            r@ == spec_centers(final(self)@.slots, final(self)@.slots.len()),
            final(self)@.wf(),
    {
        self.step_bodies();
        self.solve_joints();
        self.finalize()
    }
}

/// A well-formed manager stays well formed when every body takes its step.
pub proof fn lemma_step_wf(m: ManagerView)
    requires
        m.wf(),
    ensures
        m.with_slots(spec_step_slots(m.slots, m.planes)).wf(),
{
    let after = m.with_slots(spec_step_slots(m.slots, m.planes));
    assert forall|i: int| 0 <= i < after.slots.len() && (#[trigger] after.slots[i]) is Some implies after.slots[i].unwrap().wf() by {
        assert(m.slots[i] is Some);
        assert(m.slots[i].unwrap().wf());
        crate::body::lemma_stepped_wf(
            m.slots[i].unwrap(),
            m.planes,
            Fixed { raw: BOUNCE },
            Fixed { raw: DEFORM },
            ITERATIONS as nat,
        );
    }
    assert forall|j: int| 0 <= j < after.joints.len() implies (#[trigger] after.joints[j]).parent
        != after.joints[j].child && after.is_limb(after.joints[j].parent as int) && after.is_limb(
        after.joints[j].child as int,
    ) by {
        let joint = m.joints[j];
        assert(m.is_limb(joint.parent as int));
        assert(m.is_limb(joint.child as int));
        let p = m.slots[joint.parent as int].unwrap();
        let c = m.slots[joint.child as int].unwrap();
        assert(p.wf() && c.wf());
        crate::body::lemma_stepped_wf(
            p,
            m.planes,
            Fixed { raw: BOUNCE },
            Fixed { raw: DEFORM },
            ITERATIONS as nat,
        );
        crate::body::lemma_stepped_wf(
            c,
            m.planes,
            Fixed { raw: BOUNCE },
            Fixed { raw: DEFORM },
            ITERATIONS as nat,
        );
    }
}

/// A well-formed manager stays well formed through the pass of one of its
/// joints.
pub proof fn lemma_solve_slot_wf(m: ManagerView, n: int)
    requires
        m.wf(),
        0 <= n < m.joints.len(),
    ensures
        m.with_slots(spec_solve_slot(m.slots, m.joints[n])).wf(),
{
    let joint = m.joints[n];
    assert(m.is_limb(joint.parent as int) && m.is_limb(joint.child as int));
    let after = m.with_slots(spec_solve_slot(m.slots, joint));
    let parent = m.slots[joint.parent as int].unwrap();
    let child = m.slots[joint.child as int].unwrap();
    assert(parent.wf() && child.wf());
    let solved = spec_solve(parent.particles, child.particles, joint);
    crate::joint::lemma_solve_len(parent.particles, child.particles, joint);
    crate::body::lemma_same_count_wf(parent, solved.0);
    crate::body::lemma_same_count_wf(child, solved.1);
    assert forall|i: int| 0 <= i < after.slots.len() && (#[trigger] after.slots[i]) is Some implies after.slots[i].unwrap().wf() by {
        if i != joint.parent && i != joint.child {
            assert(after.slots[i] == m.slots[i]);
            assert(m.slots[i].unwrap().wf());
        }
    }
    assert forall|j: int| 0 <= j < after.joints.len() implies (#[trigger] after.joints[j]).parent
        != after.joints[j].child && after.is_limb(after.joints[j].parent as int) && after.is_limb(
        after.joints[j].child as int,
    ) by {
        let other = m.joints[j];
        assert(m.is_limb(other.parent as int));
        assert(m.is_limb(other.child as int));
    }
}

/// A well-formed manager stays well formed when every centre is set.
pub proof fn lemma_center_wf(m: ManagerView)
    requires
        m.wf(),
    ensures
        m.with_slots(spec_center_slots(m.slots)).wf(),
{
    let after = m.with_slots(spec_center_slots(m.slots));
    assert forall|i: int| 0 <= i < after.slots.len() && (#[trigger] after.slots[i]) is Some implies after.slots[i].unwrap().wf() by {
        assert(m.slots[i] is Some);
        assert(m.slots[i].unwrap().wf());
    }
    assert forall|j: int| 0 <= j < after.joints.len() implies (#[trigger] after.joints[j]).parent
        != after.joints[j].child && after.is_limb(after.joints[j].parent as int) && after.is_limb(
        after.joints[j].child as int,
    ) by {
        let joint = m.joints[j];
        assert(m.is_limb(joint.parent as int));
        assert(m.is_limb(joint.child as int));
    }
}

/// The body in each occupied slot with its acceleration term recomputed
/// for `gravity`.
pub open spec fn spec_refresh_slots(slots: Seq<Option<InstanceView>>, gravity: Vec3) -> Seq<
    Option<InstanceView>,
> {
    Seq::new(
        slots.len(),
        |i: int|
            match slots[i] {
                Some(body) => Some(body.refreshed(gravity)),
                None => None,
            },
    )
}

/// A well-formed manager stays well formed when every acceleration term is
/// recomputed.
pub proof fn lemma_refresh_wf(m: ManagerView, gravity: Vec3)
    requires
        m.wf(),
    ensures
        (ManagerView { gravity, slots: spec_refresh_slots(m.slots, gravity), ..m }).wf(),
{
    let after = ManagerView { gravity, slots: spec_refresh_slots(m.slots, gravity), ..m };
    assert forall|i: int| 0 <= i < after.slots.len() && (#[trigger] after.slots[i]) is Some implies after.slots[i].unwrap().wf() by {
        assert(m.slots[i] is Some);
        assert(m.slots[i].unwrap().wf());
    }
    assert forall|j: int| 0 <= j < after.joints.len() implies (#[trigger] after.joints[j]).parent
        != after.joints[j].child && after.is_limb(after.joints[j].parent as int) && after.is_limb(
        after.joints[j].child as int,
    ) by {
        let joint = m.joints[j];
        assert(m.is_limb(joint.parent as int));
        assert(m.is_limb(joint.child as int));
    }
}

/// Putting a body into a slot puts its view into the slot's view.
pub proof fn lemma_slots_update(instances: Seq<Option<Instance>>, index: int, body: Instance)
    requires
        0 <= index < instances.len(),
    ensures
        spec_slots(instances.update(index, Some(body))) == spec_slots(instances).update(
            index,
            Some(body@),
        ),
{
    assert(spec_slots(instances.update(index, Some(body))) =~= spec_slots(instances).update(
        index,
        Some(body@),
    ));
}

/// A well-formed manager stays well formed when a slot gets a well-formed
/// body that is a limb where a joint needs one.
pub proof fn lemma_with_body_wf(m: ManagerView, index: int, body: InstanceView)
    requires
        m.wf(),
        0 <= index < m.slots.len(),
        body.wf(),
        m.jointed(index) ==> body.particles.len() >= CORNERS,
    ensures
        m.with_body(index, body).wf(),
{
    let after = m.with_body(index, body);
    assert forall|j: int| 0 <= j < after.joints.len() implies (#[trigger] after.joints[j]).parent
        != after.joints[j].child && after.is_limb(after.joints[j].parent as int) && after.is_limb(
        after.joints[j].child as int,
    ) by {
        let joint = m.joints[j];
        assert(m.is_limb(joint.parent as int));
        assert(m.is_limb(joint.child as int));
        if joint.parent == index || joint.child == index {
            assert(m.jointed(index));
        }
    }
}

} // verus!
