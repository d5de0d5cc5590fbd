//! Geometry of a limb: a body whose first eight particles are the corners
//! of a box, the front face first (top left, top right, bottom right,
//! bottom left), then the back face in the same order.
//!
//! A limb runs from the middle of its front face, its start, to the middle
//! of its back face, its end. Every function here asks for a body of at
//! least eight particles.

use vstd::prelude::*;
use crate::alg::mat::Mat;
use crate::alg::vec3::Vec3;
use crate::body::Instance;
use crate::body::Particle;
use crate::fixed::Fixed;

verus! {

/// Number of corner particles of a limb.
pub const CORNERS: usize = 8;

/// A quarter, the weight of each corner in the middle of a face.
pub open spec fn spec_quarter() -> Fixed {
    Fixed::spec_from_ratio(1, 4)
}

/// The middle of the face with corners `a`, `b`, `c` and `d`.
pub open spec fn spec_face(particles: Seq<Particle>, a: int, b: int, c: int, d: int) -> Vec3 {
    particles[a].position.spec_add(particles[b].position).spec_add(particles[c].position).spec_add(
        particles[d].position,
    ).spec_scale(spec_quarter())
}

/// The middle of the front face.
pub open spec fn spec_start(particles: Seq<Particle>) -> Vec3 {
    spec_face(particles, 0, 1, 2, 3)
}

/// The middle of the back face.
pub open spec fn spec_end(particles: Seq<Particle>) -> Vec3 {
    spec_face(particles, 4, 5, 6, 7)
}

/// The middle of the top face.
pub open spec fn spec_top(particles: Seq<Particle>) -> Vec3 {
    spec_face(particles, 0, 1, 4, 5)
}

/// The middle of the bottom face.
pub open spec fn spec_bot(particles: Seq<Particle>) -> Vec3 {
    spec_face(particles, 2, 3, 6, 7)
}

/// The middle of the right face.
pub open spec fn spec_right_side(particles: Seq<Particle>) -> Vec3 {
    spec_face(particles, 1, 2, 5, 6)
}

/// The middle of the left face.
pub open spec fn spec_left_side(particles: Seq<Particle>) -> Vec3 {
    spec_face(particles, 0, 3, 4, 7)
}

/// The unit vector from start to end.
pub open spec fn spec_fwd(particles: Seq<Particle>) -> Vec3 {
    spec_end(particles).spec_sub(spec_start(particles)).spec_norm()
}

/// The unit vector from bottom to top.
pub open spec fn spec_up(particles: Seq<Particle>) -> Vec3 {
    spec_top(particles).spec_sub(spec_bot(particles)).spec_norm()
}

/// The unit vector from left to right.
pub open spec fn spec_right(particles: Seq<Particle>) -> Vec3 {
    spec_right_side(particles).spec_sub(spec_left_side(particles)).spec_norm()
}

/// The right axis of the limb's frame: across its up and forward vectors.
pub open spec fn spec_frame_right(particles: Seq<Particle>) -> Vec3 {
    spec_up(particles).spec_cross(spec_fwd(particles))
}

/// The up axis of the limb's frame: across its forward and right axes.
pub open spec fn spec_frame_up(particles: Seq<Particle>) -> Vec3 {
    spec_fwd(particles).spec_cross(spec_frame_right(particles))
}

/// The limb's frame as a matrix with the axes in its columns.
pub open spec fn spec_orientation(particles: Seq<Particle>) -> Mat {
    Mat::spec_axes(spec_frame_right(particles), spec_frame_up(particles), spec_fwd(particles))
}

/// The limb's frame as a matrix with the axes in its rows.
pub open spec fn spec_inverse_orientation(particles: Seq<Particle>) -> Mat {
    Mat::spec_inverse_axes(
        spec_frame_right(particles),
        spec_frame_up(particles),
        spec_fwd(particles),
    )
}

/// The particles with each of the eight corners moved by `offset`.
pub open spec fn spec_shift(particles: Seq<Particle>, offset: Vec3) -> Seq<Particle> {
    Seq::new(
        particles.len(),
        |i: int|
            if i < CORNERS {
                particles[i].spec_moved(particles[i].position.spec_add(offset))
            } else {
                particles[i]
            },
    )
}

/// The particles with each of the eight corners moved against `offset`.
pub open spec fn spec_shift_back(particles: Seq<Particle>, offset: Vec3) -> Seq<Particle> {
    Seq::new(
        particles.len(),
        |i: int|
            if i < CORNERS {
                particles[i].spec_moved(particles[i].position.spec_sub(offset))
            } else {
                particles[i]
            },
    )
}

/// The image of `position` under `transform` carried out about `point`.
pub open spec fn spec_about(position: Vec3, point: Vec3, transform: Mat) -> Vec3 {
    transform.spec_apply(position.spec_sub(point)).spec_add(point)
}

/// The particles with each of the eight corners transformed about `point`.
pub open spec fn spec_transform_around(particles: Seq<Particle>, point: Vec3, transform: Mat) -> Seq<
    Particle,
> {
    Seq::new(
        particles.len(),
        |i: int|
            if i < CORNERS {
                particles[i].spec_moved(spec_about(particles[i].position, point, transform))
            } else {
                particles[i]
            },
    )
}

/// The particles with each of the eight corners turned about `point`: about
/// the x axis first, then y, then z.
pub open spec fn spec_rotate_around(
    particles: Seq<Particle>,
    point: Vec3,
    x: Fixed,
    y: Fixed,
    z: Fixed,
) -> Seq<Particle> {
    Seq::new(
        particles.len(),
        |i: int|
            if i < CORNERS {
                particles[i].spec_moved(
                    Mat::spec_rotation_z(z).spec_apply(
                        Mat::spec_rotation_y(y).spec_apply(
                            Mat::spec_rotation_x(x).spec_apply(
                                particles[i].position.spec_sub(point),
                            ),
                        ),
                    ).spec_add(point),
                )
            } else {
                particles[i]
            },
    )
}

impl Instance {
    /// The middle of the face with corners `a`, `b`, `c` and `d`.
    pub fn face(&self, a: usize, b: usize, c: usize, d: usize) -> (r: Vec3)
        requires
            a < self@.particles.len(),
            b < self@.particles.len(),
            c < self@.particles.len(),
            d < self@.particles.len(),
        ensures
            r == spec_face(self@.particles, a as int, b as int, c as int, d as int),
    {
        (self.particles[a].position + self.particles[b].position + self.particles[c].position
            + self.particles[d].position) * Fixed::from_ratio(1, 4)
    }

    /// The middle of the front face.
    pub fn start(&self) -> (r: Vec3)
        requires
            self@.particles.len() >= CORNERS,
        ensures
            r == spec_start(self@.particles),
    {
        self.face(0, 1, 2, 3)
    }

    /// The middle of the back face.
    pub fn end(&self) -> (r: Vec3)
        requires
            self@.particles.len() >= CORNERS,
        ensures
            r == spec_end(self@.particles),
    {
        self.face(4, 5, 6, 7)
    }

    /// The middle of the top face.
    pub fn top(&self) -> (r: Vec3)
        requires
            self@.particles.len() >= CORNERS,
        ensures
            r == spec_top(self@.particles),
    {
        self.face(0, 1, 4, 5)
    }

    /// The middle of the bottom face.
    pub fn bot(&self) -> (r: Vec3)
        requires
            self@.particles.len() >= CORNERS,
        ensures
            r == spec_bot(self@.particles),
    {
        self.face(2, 3, 6, 7)
    }

    /// The middle of the right face.
    pub fn right_side(&self) -> (r: Vec3)
        requires
            self@.particles.len() >= CORNERS,
        ensures
            r == spec_right_side(self@.particles),
    {
        self.face(1, 2, 5, 6)
    }

    /// The middle of the left face.
    pub fn left_side(&self) -> (r: Vec3)
        requires
            self@.particles.len() >= CORNERS,
        ensures
            r == spec_left_side(self@.particles),
    {
        self.face(0, 3, 4, 7)
    }

    /// The unit vector from start to end.
    pub fn fwd(&self) -> (r: Vec3)
        requires
            self@.particles.len() >= CORNERS,
        ensures
            r == spec_fwd(self@.particles),
    {
        (self.end() - self.start()).norm()
    }

    /// The unit vector from bottom to top.
    pub fn up(&self) -> (r: Vec3)
        requires
            self@.particles.len() >= CORNERS,
        ensures
            r == spec_up(self@.particles),
    {
        (self.top() - self.bot()).norm()
    }

    /// The unit vector from left to right.
    pub fn right(&self) -> (r: Vec3)
        requires
            self@.particles.len() >= CORNERS,
        ensures
            r == spec_right(self@.particles),
    {
        (self.right_side() - self.left_side()).norm()
    }

    /// The limb's frame as a matrix with the axes in its columns. The right
    /// axis is taken across up and forward, and the up axis is then taken
    /// anew across forward and right, so that a skewed box still gives
    /// axes square to the forward vector.
    pub fn orientation(&self) -> (r: Mat)
        requires
            self@.particles.len() >= CORNERS,
        ensures
            r == spec_orientation(self@.particles),
    {
        let fwd = self.fwd();
        let up = self.up();
        let right = up.cross(fwd);
        let up = fwd.cross(right);
        Mat::axes(right, up, fwd)
    }

    /// The limb's frame as a matrix with the axes in its rows.
    pub fn inverse_orientation(&self) -> (r: Mat)
        requires
            self@.particles.len() >= CORNERS,
        ensures
            r == spec_inverse_orientation(self@.particles),
            r == spec_orientation(self@.particles).spec_transpose(),
    {
        let fwd = self.fwd();
        let up = self.up();
        let right = up.cross(fwd);
        let up = fwd.cross(right);
        Mat::inverse_axes(right, up, fwd)
    }

    /// Moves each of the eight corners by `offset`.
    pub fn shift(&mut self, offset: Vec3)
        requires
            old(self)@.particles.len() >= CORNERS,
        ensures
            final(self)@ == old(self)@.with_particles(spec_shift(old(self)@.particles, offset)),
    {
        let ghost before = self.particles@;
        let mut i: usize = 0;
        while i < CORNERS
            invariant
                i <= CORNERS,
                self.particles@.len() == before.len(),
                before.len() >= CORNERS,
                forall|k: int|
                    0 <= k < i ==> self.particles@[k] == before[k].spec_moved(
                        before[k].position.spec_add(offset),
                    ),
                forall|k: int| i <= k < before.len() ==> self.particles@[k] == before[k],
                self@ == old(self)@.with_particles(self.particles@),
            decreases CORNERS - i,
        {
            let particle = self.particles[i];
            self.particles[i] = Particle { position: particle.position + offset, last: particle.last };
            i += 1;
        }
        assert(self.particles@ =~= spec_shift(before, offset));
    }

    /// Moves each of the eight corners against `offset`.
    pub fn shift_back(&mut self, offset: Vec3)
        requires
            old(self)@.particles.len() >= CORNERS,
        ensures
            final(self)@ == old(self)@.with_particles(
                spec_shift_back(old(self)@.particles, offset),
            ),
    {
        let ghost before = self.particles@;
        let mut i: usize = 0;
        while i < CORNERS
            invariant
                i <= CORNERS,
                self.particles@.len() == before.len(),
                before.len() >= CORNERS,
                forall|k: int|
                    0 <= k < i ==> self.particles@[k] == before[k].spec_moved(
                        before[k].position.spec_sub(offset),
                    ),
                forall|k: int| i <= k < before.len() ==> self.particles@[k] == before[k],
                self@ == old(self)@.with_particles(self.particles@),
            decreases CORNERS - i,
        {
            let particle = self.particles[i];
            self.particles[i] = Particle { position: particle.position - offset, last: particle.last };
            i += 1;
        }
        assert(self.particles@ =~= spec_shift_back(before, offset));
    }

    /// Turns the eight corners about the start.
    pub fn rotate_start(&mut self, x: Fixed, y: Fixed, z: Fixed)
        requires
            old(self)@.particles.len() >= CORNERS,
        ensures
            final(self)@ == old(self)@.with_particles(
                spec_rotate_around(
                    old(self)@.particles,
                    spec_start(old(self)@.particles),
                    x,
                    y,
                    z,
                ),
            ),
    {
        let point = self.start();
        self.rotate_around(point, x, y, z);
    }

    /// Turns the eight corners about the end.
    pub fn rotate_end(&mut self, x: Fixed, y: Fixed, z: Fixed)
        requires
            old(self)@.particles.len() >= CORNERS,
        ensures
            final(self)@ == old(self)@.with_particles(
                spec_rotate_around(old(self)@.particles, spec_end(old(self)@.particles), x, y, z),
            ),
    {
        let point = self.end();
        self.rotate_around(point, x, y, z);
    }

    /// Turns the eight corners about `point`: about the x axis first, then
    /// y, then z.
    pub fn rotate_around(&mut self, point: Vec3, x: Fixed, y: Fixed, z: Fixed)
        requires
            old(self)@.particles.len() >= CORNERS,
        ensures
            final(self)@ == old(self)@.with_particles(
                spec_rotate_around(old(self)@.particles, point, x, y, z),
            ),
    {
        let ghost before = self.particles@;
        let rx = Mat::rotation_x(x);
        let ry = Mat::rotation_y(y);
        let rz = Mat::rotation_z(z);
        let mut i: usize = 0;
        while i < CORNERS
            invariant
                i <= CORNERS,
                self.particles@.len() == before.len(),
                before.len() >= CORNERS,
                rx == Mat::spec_rotation_x(x),
                ry == Mat::spec_rotation_y(y),
                rz == Mat::spec_rotation_z(z),
                forall|k: int|
                    0 <= k < i ==> self.particles@[k] == before[k].spec_moved(
                        rz.spec_apply(ry.spec_apply(rx.spec_apply(before[k].position.spec_sub(point)))).spec_add(
                            point,
                        ),
                    ),
                forall|k: int| i <= k < before.len() ==> self.particles@[k] == before[k],
                self@ == old(self)@.with_particles(self.particles@),
            decreases CORNERS - i,
        {
            let particle = self.particles[i];
            let centred = particle.position - point;
            let turned = rz * (ry * (rx * centred));
            self.particles[i] = Particle { position: turned + point, last: particle.last };
            i += 1;
        }
        assert(self.particles@ =~= spec_rotate_around(before, point, x, y, z));
    }

    /// Transforms the eight corners about `point`.
    pub fn transform_around(&mut self, point: Vec3, transform: Mat)
        requires
            old(self)@.particles.len() >= CORNERS,
        ensures
            final(self)@ == old(self)@.with_particles(
                spec_transform_around(old(self)@.particles, point, transform),
            ),
    {
        let ghost before = self.particles@;
        let mut i: usize = 0;
        while i < CORNERS
            invariant
                i <= CORNERS,
                self.particles@.len() == before.len(),
                before.len() >= CORNERS,
                forall|k: int|
                    0 <= k < i ==> self.particles@[k] == before[k].spec_moved(
                        spec_about(before[k].position, point, transform),
                    ),
                forall|k: int| i <= k < before.len() ==> self.particles@[k] == before[k],
                self@ == old(self)@.with_particles(self.particles@),
            decreases CORNERS - i,
        {
            let particle = self.particles[i];
            let centred = particle.position - point;
            self.particles[i] = Particle {
                position: transform * centred + point,
                last: particle.last,
            };
            i += 1;
        }
        assert(self.particles@ =~= spec_transform_around(before, point, transform));
    }
}

} // verus!
