//! The solver's fixed settings, as raw counts of billionths.

use vstd::prelude::*;

verus! {

/// Constraint-relaxation passes per step.
pub const ITERATIONS: usize = 1;

/// Fraction of a plane penetration that is pushed back out in one pass.
/// Zero switches collisions off; one whole projects onto the surface.
pub const BOUNCE: i64 = 50_000_000;

/// Share of its length that a rod keeps, at least, through one pass. One
/// whole makes rods undeformable.
pub const DEFORM: i64 = 1_000_000_000;

/// Strength of the positional coupling of a joint.
pub const JOINT_POS_RIGID: i64 = 499_000_000;

/// Fraction of the angular correction of a joint that is applied in one step.
pub const JOINT_ANG_RIGID: i64 = 500_000_000;

/// Duration of one simulation step, in seconds.
pub const FIXED_DT: i64 = 10_000_000;

/// Downward pull that a new manager starts with, along y.
pub const DEFAULT_GRAVITY_Y: i64 = -9_800_000_000;

/// Number of offsets that a query for render offsets returns.
pub const MAX_SOFTBODY_VERT: usize = 64;

} // verus!
