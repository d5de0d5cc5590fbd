//! Deterministic soft-body physics on fixed-point numbers.
//!
//! Bodies are point masses joined by rods, moved by position Verlet
//! integration and brought back to their constraints by relaxation:
//! rods pull, planes push, magnets attract, and joints hold limbs together
//! within limits of swing and twist. All arithmetic is on signed decimal
//! fixed-point numbers that saturate instead of overflowing, so that a run
//! gives the same positions on every machine.
//!
//! - [`fixed`] and [`trig`]: the numbers and their functions.
//! - [`alg`]: vectors, matrices, quaternions and planes.
//! - [`body`]: one soft body and its step.
//! - [`limb`]: the geometry of a body shaped as a box.
//! - [`joint`]: the pass that holds a child limb to its parent.
//! - [`manager`]: the slots of all bodies, and the simulation step.
//! - [`laws`]: what holds of the solver whatever the bodies are.
//! - [`tuning`]: the settings.
//!
//! Every function states what it returns in terms of functions on plain
//! values, whose names begin with `spec_`, and is proved to meet that
//! statement and never to panic.

pub mod alg;
pub mod body;
pub mod fixed;
pub mod joint;
pub mod laws;
pub mod limb;
pub mod manager;
pub mod trig;
pub mod tuning;
