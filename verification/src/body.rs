//! One soft body: point masses joined by rods, pulled by magnets and kept
//! out of planes.
//!
//! The step of a body is stated first as functions on sequences
//! (`spec_integrate`, `spec_project_rods`, ...), then carried out in place by
//! the methods of [`Instance`], each of which is tied to its statement.

use vstd::prelude::*;
use crate::alg::plane::Plane;
use crate::alg::vec3::Vec3;
use crate::fixed::Fixed;
use crate::fixed::SCALE;
use crate::tuning::FIXED_DT;

verus! {

/// A point mass: where it is and where it was one step ago.
#[derive(Clone, Copy, Debug, PartialEq, Eq, Structural)]
pub struct Particle {
    pub position: Vec3,
    pub last: Vec3,
}

impl Particle {
    /// One step of position Verlet:
    /// the new position is `2 * position - last + accel`.
    pub open spec fn spec_advance(self, accel: Vec3) -> Particle {
        Particle {
            position: self.position.spec_scale(Fixed::spec_from_int(2)).spec_sub(
                self.last,
            ).spec_add(accel),
            last: self.position,
        }
    }

    /// The particle moved to `position`, its history kept.
    pub open spec fn spec_moved(self, position: Vec3) -> Particle {
        Particle { position, last: self.last }
    }

    /// A particle at rest at `position`.
    pub fn new(position: Vec3) -> (r: Particle)
        ensures
            r.position == position,
            r.last == position,
    {
        Particle { position, last: position }
    }

    /// One step of position Verlet under the acceleration term `accel`.
    pub fn advance(self, accel: Vec3) -> (r: Particle)
        ensures
            r == self.spec_advance(accel),
    {
        let target = self.position * Fixed::from_int(2) - self.last;
        Particle { position: target + accel, last: self.position }
    }
}

/// A distance constraint between two particles of one body.
#[derive(Clone, Copy, Debug, PartialEq, Eq, Structural)]
pub struct Rod {
    pub left: usize,
    pub right: usize,
    /// Rest length.
    pub length: Fixed,
}

impl Rod {
    /// Whether both ends name one of `count` particles and the rest length
    /// is not negative.
    pub open spec fn valid_for(self, count: nat) -> bool {
        self.left < count && self.right < count && self.length@ >= 0
    }

    /// A rod between two of `particles`, at rest at their present distance.
    pub fn new(left: usize, right: usize, particles: &[Particle]) -> (r: Rod)
        requires
            left < particles@.len(),
            right < particles@.len(),
        ensures
            r.left == left,
            r.right == right,
            r.length == particles@[left as int].position.spec_dist(
                particles@[right as int].position,
            ),
            r.length@ >= 0,
    {
        let length = particles[left].position.dist(particles[right].position);
        Rod { left, right, length }
    }
}

/// How a magnet moves its particle toward its target.
#[derive(Clone, Copy, Debug, PartialEq, Eq, Structural)]
pub enum Falloff {
    /// The particle stays where it is.
    Still,
    /// The particle jumps onto the target.
    Snap,
    /// The particle covers the given fraction of the way to the target.
    Linear(Fixed),
}

impl Falloff {
    /// The corrected position of a particle at `position`.
    pub open spec fn spec_apply(self, position: Vec3, target: Vec3) -> Vec3 {
        match self {
            Falloff::Still => position,
            Falloff::Snap => target,
            Falloff::Linear(t) => position.spec_lerp(target, t),
        }
    }

    /// The corrected position of a particle at `position`.
    pub fn apply(self, position: Vec3, target: Vec3) -> (r: Vec3)
        ensures
            r == self.spec_apply(position, target),
    {
        match self {
            Falloff::Still => position,
            Falloff::Snap => target,
            Falloff::Linear(t) => position.lerp(target, t),
        }
    }
}

/// An attractor that serves one particle.
#[derive(Clone, Copy, Debug, PartialEq, Eq, Structural)]
pub struct Magnet {
    pub target: Vec3,
    /// Index of the particle that the magnet moves.
    pub serf: usize,
    pub falloff: Falloff,
}

impl Magnet {
    /// A magnet for particle `serf`, aimed at the origin.
    pub fn new(serf: usize, falloff: Falloff) -> (r: Magnet)
        ensures
            r == (Magnet { target: Vec3::spec_zero(), serf, falloff }),
    {
        Magnet { target: Vec3::zero(), serf, falloff }
    }
}

/// The acceleration term that integration adds to every particle:
/// `(force / mass + gravity) * dt * dt`.
pub open spec fn spec_accel_term(force: Vec3, mass: Fixed, gravity: Vec3) -> Vec3 {
    force.spec_unscale(mass).spec_add(gravity).spec_scale(Fixed { raw: FIXED_DT }).spec_scale(
        Fixed { raw: FIXED_DT },
    )
}

/// The acceleration term that integration adds to every particle.
pub fn accel_term(force: Vec3, mass: Fixed, gravity: Vec3) -> (r: Vec3)
    ensures
        r == spec_accel_term(force, mass, gravity),
{
    (force / mass + gravity) * Fixed { raw: FIXED_DT } * Fixed { raw: FIXED_DT }
}

/// Every particle advanced by one Verlet step.
pub open spec fn spec_integrate(particles: Seq<Particle>, accel: Vec3) -> Seq<Particle> {
    Seq::new(particles.len(), |i: int| particles[i].spec_advance(accel))
}

/// The correction that a rod asks of its ends: it is taken from the left
/// end and given to the right end. Ends that coincide are left alone.
pub open spec fn spec_rod_offset(left: Vec3, right: Vec3, length: Fixed, rigidity: Fixed) -> Vec3 {
    let difference = right.spec_sub(left);
    let distance = difference.spec_mag();
    if distance@ == 0 {
        Vec3::spec_zero()
    } else {
        difference.spec_scale(rigidity).spec_scale(
            length.spec_div(distance).spec_sub(Fixed::spec_one()),
        )
    }
}

/// The particles after `rod` has pulled or pushed its two ends.
pub open spec fn spec_project_rod(particles: Seq<Particle>, rod: Rod, rigidity: Fixed) -> Seq<
    Particle,
> {
    let left = particles[rod.left as int];
    let right = particles[rod.right as int];
    let offset = spec_rod_offset(left.position, right.position, rod.length, rigidity);
    particles.update(rod.left as int, left.spec_moved(left.position.spec_sub(offset))).update(
        rod.right as int,
        right.spec_moved(right.position.spec_add(offset)),
    )
}

/// The particles after the first `n` rods have acted, one after the other.
pub open spec fn spec_project_rods(
    particles: Seq<Particle>,
    rods: Seq<Rod>,
    rigidity: Fixed,
    n: nat,
) -> Seq<Particle>
    decreases n,
{
    if n == 0 {
        particles
    } else {
        spec_project_rod(
            spec_project_rods(particles, rods, rigidity, (n - 1) as nat),
            rods[n - 1],
            rigidity,
        )
    }
}

/// A position after one plane has acted on it: unmoved in front of the
/// plane, else pushed along the normal by `bounce` times the depth.
pub open spec fn spec_collide(position: Vec3, plane: Plane, bounce: Fixed) -> Vec3 {
    let distance = plane.spec_distance(position);
    if distance@ > 0 {
        position
    } else {
        position.spec_sub(plane.normal.spec_scale(bounce).spec_scale(distance))
    }
}

/// A position after the first `n` planes have acted on it in turn.
pub open spec fn spec_collide_all(position: Vec3, planes: Seq<Plane>, bounce: Fixed, n: nat) -> Vec3
    decreases n,
{
    if n == 0 {
        position
    } else {
        spec_collide(
            spec_collide_all(position, planes, bounce, (n - 1) as nat),
            planes[n - 1],
            bounce,
        )
    }
}

/// Every particle after the first `n` planes have acted on it.
pub open spec fn spec_collide_particles(
    particles: Seq<Particle>,
    planes: Seq<Plane>,
    bounce: Fixed,
    n: nat,
) -> Seq<Particle> {
    Seq::new(
        particles.len(),
        |i: int| particles[i].spec_moved(spec_collide_all(particles[i].position, planes, bounce, n)),
    )
}

/// The rest length of a rod after it has given way: the distance of its
/// ends, but no less than `factor` times the old length and no more than the
/// old length.
pub open spec fn spec_deform_length(length: Fixed, distance: Fixed, factor: Fixed) -> Fixed {
    distance.spec_max(length.spec_mul(factor)).spec_min(length)
}

/// One rod after it has given way to the present distance of its ends.
pub open spec fn spec_deform_rod(rod: Rod, particles: Seq<Particle>, factor: Fixed) -> Rod {
    Rod {
        left: rod.left,
        right: rod.right,
        length: spec_deform_length(
            rod.length,
            particles[rod.left as int].position.spec_dist(particles[rod.right as int].position),
            factor,
        ),
    }
}

/// Every rod after it has given way.
pub open spec fn spec_deform_rods(rods: Seq<Rod>, particles: Seq<Particle>, factor: Fixed) -> Seq<
    Rod,
> {
    Seq::new(rods.len(), |i: int| spec_deform_rod(rods[i], particles, factor))
}

/// The particles after `magnet` has moved the one it serves.
pub open spec fn spec_apply_magnet(particles: Seq<Particle>, magnet: Magnet) -> Seq<Particle> {
    let serf = particles[magnet.serf as int];
    particles.update(
        magnet.serf as int,
        serf.spec_moved(magnet.falloff.spec_apply(serf.position, magnet.target)),
    )
}

/// The particles after the first `n` magnets have acted, one after the other.
pub open spec fn spec_apply_magnets(particles: Seq<Particle>, magnets: Seq<Magnet>, n: nat) -> Seq<
    Particle,
>
    decreases n,
{
    if n == 0 {
        particles
    } else {
        spec_apply_magnet(spec_apply_magnets(particles, magnets, (n - 1) as nat), magnets[n - 1])
    }
}

/// The saturating sum of the first `n` positions.
pub open spec fn spec_position_sum(particles: Seq<Particle>, n: nat) -> Vec3
    decreases n,
{
    if n == 0 {
        Vec3::spec_zero()
    } else {
        spec_position_sum(particles, (n - 1) as nat).spec_add(particles[n - 1].position)
    }
}

/// The mean position of the particles; the origin if there are none.
pub open spec fn spec_center(particles: Seq<Particle>) -> Vec3 {
    spec_position_sum(particles, particles.len()).spec_unscale(Fixed::of(particles.len() * SCALE))
}

/// The correction that a rod asks of its ends.
pub fn rod_offset(left: Vec3, right: Vec3, length: Fixed, rigidity: Fixed) -> (r: Vec3)
    ensures
        r == spec_rod_offset(left, right, length, rigidity),
{
    let difference = right - left;
    let distance = difference.mag();
    if distance.raw == 0 {
        Vec3::zero()
    } else {
        difference * rigidity * (length / distance - Fixed::one())
    }
}

/// A position after one plane has acted on it.
pub fn collide(position: Vec3, plane: Plane, bounce: Fixed) -> (r: Vec3)
    ensures
        r == spec_collide(position, plane, bounce),
        plane.spec_distance(position)@ > 0 ==> r == position,
        plane.spec_distance(position)@ <= 0 ==> r == position.spec_sub(
            plane.normal.spec_scale(bounce).spec_scale(plane.spec_distance(position)),
        ),
{
    let distance = plane.distance(position);
    if distance.raw > 0 {
        position
    } else {
        position - plane.normal * bounce * distance
    }
}

/// The rest length of a rod after it has given way.
pub fn deform_length(length: Fixed, distance: Fixed, factor: Fixed) -> (r: Fixed)
    ensures
        r == spec_deform_length(length, distance, factor),
        r@ <= length@,
        distance@ >= 0 && length@ >= 0 ==> r@ >= 0,
{
    distance.max(length * factor).min(length)
}

/// What a soft body is, as plain sequences and values.
pub struct InstanceView {
    pub particles: Seq<Particle>,
    pub rods: Seq<Rod>,
    pub magnets: Seq<Magnet>,
    pub force: Vec3,
    pub accel_dt: Vec3,
    pub position: Vec3,
    pub mass: Fixed,
    pub model: Seq<Vec3>,
    pub rigidity: Fixed,
}

impl InstanceView {
    /// Rods and magnets name particles that exist, every particle has its
    /// rest offset, the mass is positive and the rigidity lies in `(0, 0.5]`.
    pub open spec fn wf(self) -> bool {
        &&& self.model.len() == self.particles.len()
        &&& forall|i: int| 0 <= i < self.rods.len() ==> (#[trigger] self.rods[i]).valid_for(
            self.particles.len(),
        )
        &&& forall|i: int|
            0 <= i < self.magnets.len() ==> (#[trigger] self.magnets[i]).serf
                < self.particles.len()
        &&& self.mass@ > 0
        &&& 0 < self.rigidity@ <= SCALE / 2
    }

    /// Whether the cached acceleration term is the one that `gravity` and
    /// the body's force and mass give.
    pub open spec fn cache_fresh(self, gravity: Vec3) -> bool {
        self.accel_dt == spec_accel_term(self.force, self.mass, gravity)
    }

    /// The body with other particles.
    pub open spec fn with_particles(self, particles: Seq<Particle>) -> InstanceView {
        InstanceView { particles, ..self }
    }

    /// The body with other rods.
    pub open spec fn with_rods(self, rods: Seq<Rod>) -> InstanceView {
        InstanceView { rods, ..self }
    }

    /// The body with its acceleration term recomputed for `gravity`.
    pub open spec fn refreshed(self, gravity: Vec3) -> InstanceView {
        InstanceView { accel_dt: spec_accel_term(self.force, self.mass, gravity), ..self }
    }

    /// The body under the outside force `force`, its acceleration term
    /// recomputed for `gravity`.
    pub open spec fn with_force(self, force: Vec3, gravity: Vec3) -> InstanceView {
        InstanceView { force, accel_dt: spec_accel_term(force, self.mass, gravity), ..self }
    }

    /// The body with magnet `index` aimed at `target`.
    pub open spec fn with_target(self, index: int, target: Vec3) -> InstanceView {
        InstanceView {
            magnets: self.magnets.update(
                index,
                Magnet {
                    target,
                    serf: self.magnets[index].serf,
                    falloff: self.magnets[index].falloff,
                },
            ),
            ..self
        }
    }

    /// The body after integration.
    pub open spec fn integrated(self) -> InstanceView {
        self.with_particles(spec_integrate(self.particles, self.accel_dt))
    }

    /// The body after one relaxation pass: rods pull, planes push, rods give
    /// way, magnets attract.
    pub open spec fn relaxed(self, planes: Seq<Plane>, bounce: Fixed, factor: Fixed) -> InstanceView {
        let pulled = spec_project_rods(self.particles, self.rods, self.rigidity, self.rods.len());
        let pushed = spec_collide_particles(pulled, planes, bounce, planes.len());
        let rods = spec_deform_rods(self.rods, pushed, factor);
        let attracted = spec_apply_magnets(pushed, self.magnets, self.magnets.len());
        self.with_particles(attracted).with_rods(rods)
    }

    /// The body after `n` relaxation passes.
    pub open spec fn relaxed_times(
        self,
        planes: Seq<Plane>,
        bounce: Fixed,
        factor: Fixed,
        n: nat,
    ) -> InstanceView
        decreases n,
    {
        if n == 0 {
            self
        } else {
            self.relaxed_times(planes, bounce, factor, (n - 1) as nat).relaxed(
                planes,
                bounce,
                factor,
            )
        }
    }

    /// The body after integration and `iterations` relaxation passes.
    pub open spec fn stepped(
        self,
        planes: Seq<Plane>,
        bounce: Fixed,
        factor: Fixed,
        iterations: nat,
    ) -> InstanceView {
        self.integrated().relaxed_times(planes, bounce, factor, iterations)
    }

    /// The body with its centre set to the mean of its particles.
    pub open spec fn centered(self) -> InstanceView {
        InstanceView { position: spec_center(self.particles), ..self }
    }

    /// What particle `index` has moved by, relative to the centre, since
    /// the body was made.
    pub open spec fn offset(self, index: int) -> Vec3 {
        self.particles[index].position.spec_sub(self.position).spec_sub(self.model[index])
    }
}

/// The body that `Instance::new` makes.
pub open spec fn spec_new_instance(
    points: Seq<Vec3>,
    bindings: Seq<(usize, usize)>,
    zones: Seq<(usize, Falloff)>,
    mass: Fixed,
    rigidity: Fixed,
    gravity: Vec3,
) -> InstanceView {
    InstanceView {
        particles: Seq::new(points.len(), |i: int| Particle { position: points[i], last: points[i] }),
        rods: Seq::new(
            bindings.len(),
            |i: int|
                Rod {
                    left: bindings[i].0,
                    right: bindings[i].1,
                    length: points[bindings[i].0 as int].spec_dist(points[bindings[i].1 as int]),
                },
        ),
        magnets: Seq::new(
            zones.len(),
            |i: int| Magnet { target: Vec3::spec_zero(), serf: zones[i].0, falloff: zones[i].1 },
        ),
        force: Vec3::spec_zero(),
        accel_dt: spec_accel_term(Vec3::spec_zero(), mass, gravity),
        position: Vec3::spec_zero(),
        mass,
        model: points,
        rigidity,
    }
}

/// One soft body.
pub struct Instance {
    pub particles: Vec<Particle>,
    pub rods: Vec<Rod>,
    pub magnets: Vec<Magnet>,
    /// Outside force on the body.
    pub force: Vec3,
    /// Cached acceleration term; stale until recomputed after a change of
    /// force or gravity.
    pub accel_dt: Vec3,
    /// Mean particle position as of the last finished step.
    pub position: Vec3,
    pub mass: Fixed,
    /// Rest offsets of the particles.
    pub model: Vec<Vec3>,
    /// Share of a rod's error that each end takes up per pass, in `(0, 0.5]`.
    pub rigidity: Fixed,
}

impl View for Instance {
    type V = InstanceView;

    open spec fn view(&self) -> InstanceView {
        InstanceView {
            particles: self.particles@,
            rods: self.rods@,
            magnets: self.magnets@,
            force: self.force,
            accel_dt: self.accel_dt,
            position: self.position,
            mass: self.mass,
            model: self.model@,
            rigidity: self.rigidity,
        }
    }
}

impl Instance {
    /// A body at rest with a particle at each of `points`, a rod for each
    /// pair of `bindings` and a magnet for each entry of `zones`.
    pub fn new(
        points: &[Vec3],
        bindings: &[(usize, usize)],
        zones: &[(usize, Falloff)],
        mass: Fixed,
        rigidity: Fixed,
        gravity: Vec3,
    ) -> (r: Instance)
        requires
            mass@ > 0,
            0 < rigidity@ <= SCALE / 2,
            forall|i: int|
                0 <= i < bindings@.len() ==> (#[trigger] bindings@[i]).0 < points@.len()
                    && bindings@[i].1 < points@.len(),
            forall|i: int| 0 <= i < zones@.len() ==> (#[trigger] zones@[i]).0 < points@.len(),
        ensures
            r@ == spec_new_instance(points@, bindings@, zones@, mass, rigidity, gravity),
            r@.wf(),
            r@.cache_fresh(gravity),
    {
        let mut particles: Vec<Particle> = Vec::with_capacity(points.len());
        let mut model: Vec<Vec3> = Vec::with_capacity(points.len());
        let mut i: usize = 0;
        while i < points.len()
            invariant
                i <= points@.len(),
                particles@.len() == i,
                model@.len() == i,
                forall|k: int|
                    0 <= k < i ==> particles@[k] == (Particle {
                        position: points@[k],
                        last: points@[k],
                    }),
                forall|k: int| 0 <= k < i ==> model@[k] == points@[k],
            decreases points@.len() - i,
        {
            particles.push(Particle::new(points[i]));
            model.push(points[i]);
            i += 1;
        }
        let mut rods: Vec<Rod> = Vec::with_capacity(bindings.len());
        let mut j: usize = 0;
        while j < bindings.len()
            invariant
                j <= bindings@.len(),
                rods@.len() == j,
                particles@.len() == points@.len(),
                forall|k: int|
                    0 <= k < particles@.len() ==> particles@[k] == (Particle {
                        position: points@[k],
                        last: points@[k],
                    }),
                forall|k: int|
                    0 <= k < bindings@.len() ==> (#[trigger] bindings@[k]).0 < points@.len()
                        && bindings@[k].1 < points@.len(),
                forall|k: int|
                    0 <= k < j ==> rods@[k] == (Rod {
                        left: bindings@[k].0,
                        right: bindings@[k].1,
                        length: points@[bindings@[k].0 as int].spec_dist(
                            points@[bindings@[k].1 as int],
                        ),
                    }),
                forall|k: int| 0 <= k < j ==> (#[trigger] rods@[k]).length@ >= 0,
            decreases bindings@.len() - j,
        {
            let binding = bindings[j];
            rods.push(Rod::new(binding.0, binding.1, particles.as_slice()));
            j += 1;
        }
        let mut magnets: Vec<Magnet> = Vec::with_capacity(zones.len());
        let mut k: usize = 0;
        while k < zones.len()
            invariant
                k <= zones@.len(),
                magnets@.len() == k,
                forall|m: int|
                    0 <= m < k ==> magnets@[m] == (Magnet {
                        target: Vec3::spec_zero(),
                        serf: zones@[m].0,
                        falloff: zones@[m].1,
                    }),
            decreases zones@.len() - k,
        {
            let zone = zones[k];
            magnets.push(Magnet::new(zone.0, zone.1));
            k += 1;
        }
        let made = Instance {
            particles,
            rods,
            magnets,
            force: Vec3::zero(),
            accel_dt: accel_term(Vec3::zero(), mass, gravity),
            position: Vec3::zero(),
            mass,
            model,
            rigidity,
        };
        proof {
            let want = spec_new_instance(points@, bindings@, zones@, mass, rigidity, gravity);
            assert(made@.particles =~= want.particles);
            assert(made@.rods =~= want.rods);
            assert(made@.magnets =~= want.magnets);
            assert(made@.model =~= want.model);
        }
        made
    }

    /// What particle `index` has moved by, relative to the centre, since
    /// the body was made.
    pub fn offset(&self, index: usize) -> (r: Vec3)
        requires
            index < self@.particles.len(),
            index < self@.model.len(),
        ensures
            r == self@.offset(index as int),
    {
        self.particles[index].position - self.position - self.model[index]
    }

    /// Recomputes the cached acceleration term for `gravity`.
    pub fn update_cache(&mut self, gravity: Vec3)
        ensures
            final(self)@ == old(self)@.refreshed(gravity),
            final(self)@.cache_fresh(gravity),
    {
        self.accel_dt = accel_term(self.force, self.mass, gravity);
    }

    /// Advances every particle by one Verlet step.
    pub fn integrate(&mut self)
        ensures
            final(self)@ == old(self)@.integrated(),
    {
        let ghost before = self.particles@;
        let accel = self.accel_dt;
        let mut i: usize = 0;
        while i < self.particles.len()
            invariant
                i <= self.particles@.len(),
                self.particles@.len() == before.len(),
                forall|k: int| 0 <= k < i ==> self.particles@[k] == before[k].spec_advance(accel),
                forall|k: int| i <= k < before.len() ==> self.particles@[k] == before[k],
                self@ == old(self)@.with_particles(self.particles@),
                accel == old(self)@.accel_dt,
            decreases self.particles@.len() - i,
        {
            let moved = self.particles[i].advance(accel);
            self.particles[i] = moved;
            i += 1;
        }
        assert(self.particles@ =~= spec_integrate(before, accel));
    }

    /// Lets every rod, in order, pull or push its two ends.
    pub fn project_rods(&mut self)
        requires
            old(self)@.wf(),
        ensures
            final(self)@ == old(self)@.with_particles(
                spec_project_rods(
                    old(self)@.particles,
                    old(self)@.rods,
                    old(self)@.rigidity,
                    old(self)@.rods.len(),
                ),
            ),
            final(self)@.particles.len() == old(self)@.particles.len(),
    {
        let ghost before = self.particles@;
        let ghost rods = self.rods@;
        let rigidity = self.rigidity;
        let mut i: usize = 0;
        assert forall|k: int| 0 <= k < rods.len() implies (#[trigger] rods[k]).valid_for(
            before.len(),
        ) by {
            assert(self@.rods[k].valid_for(self@.particles.len()));
        }
        while i < self.rods.len()
            invariant
                i <= rods.len(),
                self.rods@ == rods,
                rigidity == self.rigidity,
                self.particles@.len() == before.len(),
                forall|k: int| 0 <= k < rods.len() ==> (#[trigger] rods[k]).valid_for(before.len()),
                self.particles@ == spec_project_rods(before, rods, rigidity, i as nat),
                self@ == old(self)@.with_particles(self.particles@),
            decreases rods.len() - i,
        {
            let rod = self.rods[i];
            assert(rods[i as int].valid_for(before.len()));
            let left = self.particles[rod.left];
            let right = self.particles[rod.right];
            let offset = rod_offset(left.position, right.position, rod.length, rigidity);
            self.particles[rod.left] = Particle { position: left.position - offset, last: left.last };
            self.particles[rod.right] = Particle {
                position: right.position + offset,
                last: right.last,
            };
            i += 1;
        }
    }

    /// Lets every plane, in order, push out the particles that are in or
    /// behind it.
    pub fn collide_planes(&mut self, planes: &[Plane], bounce: Fixed)
        ensures
            final(self)@ == old(self)@.with_particles(
                spec_collide_particles(old(self)@.particles, planes@, bounce, planes@.len()),
            ),
    {
        let ghost before = self.particles@;
        let mut p: usize = 0;
        assert(self.particles@ =~= spec_collide_particles(before, planes@, bounce, 0));
        while p < planes.len()
            invariant
                p <= planes@.len(),
                self.particles@.len() == before.len(),
                self.particles@ == spec_collide_particles(before, planes@, bounce, p as nat),
                self@ == old(self)@.with_particles(self.particles@),
            decreases planes@.len() - p,
        {
            let plane = planes[p];
            let ghost start = self.particles@;
            let mut i: usize = 0;
            while i < self.particles.len()
                invariant
                    i <= start.len(),
                    p < planes@.len(),
                    plane == planes@[p as int],
                    self.particles@.len() == start.len(),
                    start.len() == before.len(),
                    start == spec_collide_particles(before, planes@, bounce, p as nat),
                    forall|k: int|
                        0 <= k < i ==> self.particles@[k] == start[k].spec_moved(
                            spec_collide(start[k].position, plane, bounce),
                        ),
                    forall|k: int| i <= k < start.len() ==> self.particles@[k] == start[k],
                    self@ == old(self)@.with_particles(self.particles@),
                decreases start.len() - i,
            {
                let particle = self.particles[i];
                self.particles[i] = Particle {
                    position: collide(particle.position, plane, bounce),
                    last: particle.last,
                };
                i += 1;
            }
            p += 1;
            assert(self.particles@ =~= spec_collide_particles(before, planes@, bounce, p as nat));
        }
    }

    /// Lets every rod give way to the present distance of its ends.
    pub fn deform_rods(&mut self, factor: Fixed)
        requires
            old(self)@.wf(),
        ensures
            final(self)@ == old(self)@.with_rods(
                spec_deform_rods(old(self)@.rods, old(self)@.particles, factor),
            ),
            final(self)@.wf(),
            forall|i: int|
                0 <= i < old(self)@.rods.len() ==> (#[trigger] final(self)@.rods[i]).length@ <= old(
                    self,
                )@.rods[i].length@,
    {
        let ghost before = self.rods@;
        let mut i: usize = 0;
        assert forall|k: int| 0 <= k < before.len() implies (#[trigger] before[k]).valid_for(
            self.particles@.len(),
        ) by {
            assert(self@.rods[k].valid_for(self@.particles.len()));
        }
        while i < self.rods.len()
            invariant
                i <= before.len(),
                self.rods@.len() == before.len(),
                self.particles@ == old(self)@.particles,
                forall|k: int|
                    0 <= k < before.len() ==> (#[trigger] before[k]).valid_for(
                        self.particles@.len(),
                    ),
                forall|k: int|
                    0 <= k < i ==> self.rods@[k] == spec_deform_rod(
                        before[k],
                        self.particles@,
                        factor,
                    ),
                forall|k: int| i <= k < before.len() ==> self.rods@[k] == before[k],
                forall|k: int| 0 <= k < i ==> (#[trigger] self.rods@[k]).length@ >= 0,
                self@ == old(self)@.with_rods(self.rods@),
                old(self)@.wf(),
            decreases before.len() - i,
        {
            let rod = self.rods[i];
            assert(before[i as int].valid_for(self.particles@.len()));
            let left = self.particles[rod.left].position;
            let right = self.particles[rod.right].position;
            self.rods[i] = Rod {
                left: rod.left,
                right: rod.right,
                length: deform_length(rod.length, left.dist(right), factor),
            };
            i += 1;
        }
        assert(self.rods@ =~= spec_deform_rods(before, self.particles@, factor));
        assert forall|k: int| 0 <= k < self@.rods.len() implies (#[trigger] self@.rods[k]).valid_for(
            self@.particles.len(),
        ) by {
            assert(before[k].valid_for(self.particles@.len()));
            assert(self.rods@[k].length@ >= 0);
        }
        assert forall|k: int| 0 <= k < self@.magnets.len() implies (#[trigger] self@.magnets[k]).serf
            < self@.particles.len() by {
            assert(old(self)@.magnets[k].serf < old(self)@.particles.len());
        }
    }

    /// Lets every magnet, in order, move the particle that it serves.
    pub fn apply_magnets(&mut self)
        requires
            old(self)@.wf(),
        ensures
            final(self)@ == old(self)@.with_particles(
                spec_apply_magnets(
                    old(self)@.particles,
                    old(self)@.magnets,
                    old(self)@.magnets.len(),
                ),
            ),
            final(self)@.particles.len() == old(self)@.particles.len(),
    {
        let ghost before = self.particles@;
        let ghost magnets = self.magnets@;
        let mut i: usize = 0;
        assert forall|k: int| 0 <= k < magnets.len() implies (#[trigger] magnets[k]).serf
            < before.len() by {
            assert(self@.magnets[k].serf < self@.particles.len());
        }
        while i < self.magnets.len()
            invariant
                i <= magnets.len(),
                self.magnets@ == magnets,
                self.particles@.len() == before.len(),
                forall|k: int| 0 <= k < magnets.len() ==> (#[trigger] magnets[k]).serf < before.len(),
                self.particles@ == spec_apply_magnets(before, magnets, i as nat),
                self@ == old(self)@.with_particles(self.particles@),
            decreases magnets.len() - i,
        {
            let magnet = self.magnets[i];
            assert(magnets[i as int].serf < before.len());
            let serf = self.particles[magnet.serf];
            self.particles[magnet.serf] = Particle {
                position: magnet.falloff.apply(serf.position, magnet.target),
                last: serf.last,
            };
            i += 1;
        }
    }

    /// One relaxation pass: rods pull, planes push, rods give way, magnets
    /// attract.
    pub fn relax(&mut self, planes: &[Plane], bounce: Fixed, factor: Fixed)
        requires
            old(self)@.wf(),
        ensures
            final(self)@ == old(self)@.relaxed(planes@, bounce, factor),
            final(self)@.wf(),
            final(self)@.particles.len() == old(self)@.particles.len(),
    {
        self.project_rods();
        self.collide_planes(planes, bounce);
        self.deform_rods(factor);
        self.apply_magnets();
    }

    /// One step of the body alone: integration, then `iterations`
    /// relaxation passes.
    pub fn step(&mut self, planes: &[Plane], bounce: Fixed, factor: Fixed, iterations: usize)
        requires
            old(self)@.wf(),
        ensures
            final(self)@ == old(self)@.stepped(planes@, bounce, factor, iterations as nat),
            final(self)@.wf(),
            final(self)@.particles.len() == old(self)@.particles.len(),
    {
        self.integrate();
        let ghost start = self@;
        let mut done: usize = 0;
        while done < iterations
            invariant
                done <= iterations,
                self@.wf(),
                self@.particles.len() == start.particles.len(),
                self@ == start.relaxed_times(planes@, bounce, factor, done as nat),
            decreases iterations - done,
        {
            self.relax(planes, bounce, factor);
            done += 1;
        }
    }

    /// The mean position of the particles; the origin if there are none.
    pub fn center(&self) -> (r: Vec3)
        ensures
            r == spec_center(self@.particles),
    {
        let mut sum = Vec3::zero();
        let mut i: usize = 0;
        while i < self.particles.len()
            invariant
                i <= self.particles@.len(),
                sum == spec_position_sum(self.particles@, i as nat),
            decreases self.particles@.len() - i,
        {
            sum = sum + self.particles[i].position;
            i += 1;
        }
        sum / count_as_fixed(self.particles.len())
    }
}

/// A count as a fixed-point number, saturated.
pub fn count_as_fixed(count: usize) -> (r: Fixed)
    ensures
        r == Fixed::of(count * SCALE),
{
    Fixed { raw: crate::fixed::saturate_signed(false, (count as u128) * (SCALE as u128)) }
}

/// Rods that pull leave the number of particles as it is.
pub proof fn lemma_project_rods_len(
    particles: Seq<Particle>,
    rods: Seq<Rod>,
    rigidity: Fixed,
    n: nat,
)
    requires
        n <= rods.len(),
        forall|i: int| 0 <= i < rods.len() ==> (#[trigger] rods[i]).valid_for(particles.len()),
    ensures
        spec_project_rods(particles, rods, rigidity, n).len() == particles.len(),
    decreases n,
{
    if n > 0 {
        lemma_project_rods_len(particles, rods, rigidity, (n - 1) as nat);
        assert(rods[n - 1].valid_for(particles.len()));
    }
}

/// Magnets leave the number of particles as it is.
pub proof fn lemma_apply_magnets_len(particles: Seq<Particle>, magnets: Seq<Magnet>, n: nat)
    requires
        n <= magnets.len(),
        forall|i: int| 0 <= i < magnets.len() ==> (#[trigger] magnets[i]).serf < particles.len(),
    ensures
        spec_apply_magnets(particles, magnets, n).len() == particles.len(),
    decreases n,
{
    if n > 0 {
        lemma_apply_magnets_len(particles, magnets, (n - 1) as nat);
        assert(magnets[n - 1].serf < particles.len());
    }
}

/// A well-formed body stays well formed when its particles are replaced
/// by as many others.
pub proof fn lemma_same_count_wf(body: InstanceView, particles: Seq<Particle>)
    requires
        body.wf(),
        particles.len() == body.particles.len(),
    ensures
        body.with_particles(particles).wf(),
{
    let after = body.with_particles(particles);
    assert forall|i: int| 0 <= i < after.rods.len() implies (#[trigger] after.rods[i]).valid_for(
        after.particles.len(),
    ) by {
        assert(body.rods[i].valid_for(body.particles.len()));
    }
    assert forall|i: int| 0 <= i < after.magnets.len() implies (#[trigger] after.magnets[i]).serf
        < after.particles.len() by {
        assert(body.magnets[i].serf < body.particles.len());
    }
}

/// A relaxation pass keeps a body well formed and its particles as many.
pub proof fn lemma_relaxed_wf(body: InstanceView, planes: Seq<Plane>, bounce: Fixed, factor: Fixed)
    requires
        body.wf(),
    ensures
        body.relaxed(planes, bounce, factor).wf(),
        body.relaxed(planes, bounce, factor).particles.len() == body.particles.len(),
{
    let pulled = spec_project_rods(body.particles, body.rods, body.rigidity, body.rods.len());
    lemma_project_rods_len(body.particles, body.rods, body.rigidity, body.rods.len());
    let pushed = spec_collide_particles(pulled, planes, bounce, planes.len());
    lemma_apply_magnets_len(pushed, body.magnets, body.magnets.len());
    let after = body.relaxed(planes, bounce, factor);
    assert forall|i: int| 0 <= i < after.rods.len() implies (#[trigger] after.rods[i]).valid_for(
        after.particles.len(),
    ) by {
        let rod = body.rods[i];
        assert(rod.valid_for(body.particles.len()));
        crate::alg::vec3::lemma_mag_nonneg(
            pushed[rod.left as int].position.spec_sub(pushed[rod.right as int].position),
        );
    }
    assert forall|i: int| 0 <= i < after.magnets.len() implies (#[trigger] after.magnets[i]).serf
        < after.particles.len() by {
        assert(body.magnets[i].serf < body.particles.len());
    }
}

/// Any number of relaxation passes keeps a body well formed and its
/// particles as many.
pub proof fn lemma_relaxed_times_wf(
    body: InstanceView,
    planes: Seq<Plane>,
    bounce: Fixed,
    factor: Fixed,
    n: nat,
)
    requires
        body.wf(),
    ensures
        body.relaxed_times(planes, bounce, factor, n).wf(),
        body.relaxed_times(planes, bounce, factor, n).particles.len() == body.particles.len(),
    decreases n,
{
    if n > 0 {
        lemma_relaxed_times_wf(body, planes, bounce, factor, (n - 1) as nat);
        lemma_relaxed_wf(
            body.relaxed_times(planes, bounce, factor, (n - 1) as nat),
            planes,
            bounce,
            factor,
        );
    }
}

/// A step keeps a body well formed and its particles as many.
pub proof fn lemma_stepped_wf(
    body: InstanceView,
    planes: Seq<Plane>,
    bounce: Fixed,
    factor: Fixed,
    n: nat,
)
    requires
        body.wf(),
    ensures
        body.stepped(planes, bounce, factor, n).wf(),
        body.stepped(planes, bounce, factor, n).particles.len() == body.particles.len(),
{
    lemma_same_count_wf(body, spec_integrate(body.particles, body.accel_dt));
    lemma_relaxed_times_wf(body.integrated(), planes, bounce, factor, n);
}

} // verus!
