//! Sine, cosine and arctangent of fixed-point angles, in radians.
//!
//! Each function reduces its argument to a short interval and sums a
//! truncated power series there, with every product and quotient rounded to
//! a billionth. The statements below say exactly which series is summed, and
//! bound the results.

use vstd::prelude::*;
use core::ops::Neg;
use crate::fixed::magnitude;
use crate::fixed::unsigned_magnitude;
use crate::fixed::Fixed;
use crate::fixed::SCALE;

verus! {

/// Pi, to the nearest billionth.
pub const PI: i64 = 3_141_592_654;

/// Half of pi, to the nearest billionth.
pub const HALF_PI: i64 = 1_570_796_327;

/// A quarter of pi, to the nearest billionth.
pub const QUARTER_PI: i64 = 785_398_163;

/// Twice pi, to the nearest billionth.
pub const TWO_PI: i64 = 6_283_185_307;

/// The tangent of an eighth of pi, to the nearest billionth.
pub const TAN_EIGHTH_PI: i64 = 414_213_562;

/// Levels of the nested sine series: terms up to the 17th power.
pub const SIN_LEVELS: u32 = 8;

/// Levels of the nested cosine series: terms up to the 18th power.
pub const COS_LEVELS: u32 = 9;

/// Levels of the nested arctangent series: terms up to the 23rd power.
pub const ATAN_LEVELS: u32 = 11;

/// The nested form `1 - z/(k(k+1)) * (1 - z/((k+2)(k+3)) * (...))` with `n`
/// levels. With `z = t * t` it is the cosine series of `t` for `k = 1`, and
/// the sine series of `t` divided by `t` for `k = 2`.
pub open spec fn spec_nested(z: Fixed, k: int, n: nat) -> Fixed
    decreases n,
{
    if n == 0 {
        Fixed::spec_one()
    } else {
        Fixed::spec_one().spec_sub(
            z.spec_mul(spec_nested(z, k + 2, (n - 1) as nat)).spec_div(
                Fixed::of(k * (k + 1) * SCALE),
            ),
        )
    }
}

/// The nested form `1/k - z * (1/(k+2) - z * (...))` with `n` levels below
/// the first. With `z = u * u` and `k = 1` it is the arctangent series of
/// `u` divided by `u`.
pub open spec fn spec_alternating(z: Fixed, k: int, n: nat) -> Fixed
    decreases n,
{
    let head = Fixed::spec_one().spec_div(Fixed::of(k * SCALE));
    if n == 0 {
        head
    } else {
        head.spec_sub(z.spec_mul(spec_alternating(z, k + 2, (n - 1) as nat)))
    }
}

/// The sine series of an angle in the first quadrant.
pub open spec fn spec_sin_series(t: Fixed) -> Fixed {
    t.spec_mul(spec_nested(t.spec_mul(t), 2, SIN_LEVELS as nat))
}

/// The cosine series of an angle in the first quadrant.
pub open spec fn spec_cos_series(t: Fixed) -> Fixed {
    spec_nested(t.spec_mul(t), 1, COS_LEVELS as nat)
}

/// The arctangent series of a small ratio.
pub open spec fn spec_atan_series(u: Fixed) -> Fixed {
    u.spec_mul(spec_alternating(u.spec_mul(u), 1, ATAN_LEVELS as nat))
}

/// The quadrant, counted from zero, of the angle of magnitude `a`.
pub open spec fn spec_quadrant(a: int) -> int {
    (a % (TWO_PI as int)) / (HALF_PI as int)
}

/// What is left of the angle of magnitude `a` within its quadrant.
pub open spec fn spec_within_quadrant(a: int) -> Fixed {
    Fixed { raw: ((a % (TWO_PI as int)) % (HALF_PI as int)) as i64 }
}

/// The value limited to `[-1, 1]`.
pub open spec fn spec_unit(v: Fixed) -> Fixed {
    v.spec_clamp_to(Fixed::spec_one().spec_neg(), Fixed::spec_one())
}

/// The arctangent of a ratio in `[0, 1]`, limited to `[0, pi/4]`.
pub open spec fn spec_atan_unit(t: Fixed) -> Fixed {
    let raw = if t@ <= TAN_EIGHTH_PI {
        spec_atan_series(t)
    } else {
        (Fixed { raw: QUARTER_PI }).spec_add(
            spec_atan_series(
                t.spec_sub(Fixed::spec_one()).spec_div(t.spec_add(Fixed::spec_one())),
            ),
        )
    };
    raw.spec_clamp_to(Fixed::spec_zero(), Fixed { raw: QUARTER_PI })
}

impl Fixed {
    /// Sine: by the series of the angle's remainder in its quadrant.
    pub open spec fn spec_sin(self) -> Fixed {
        let a = magnitude(self@);
        let t = spec_within_quadrant(a);
        let q = spec_quadrant(a);
        let s = spec_unit(
            if q == 0 {
                spec_sin_series(t)
            } else if q == 1 {
                spec_cos_series(t)
            } else if q == 2 {
                spec_sin_series(t).spec_neg()
            } else {
                spec_cos_series(t).spec_neg()
            },
        );
        if self@ < 0 {
            s.spec_neg()
        } else {
            s
        }
    }

    /// Cosine: by the series of the angle's remainder in its quadrant.
    pub open spec fn spec_cos(self) -> Fixed {
        let a = magnitude(self@);
        let t = spec_within_quadrant(a);
        let q = spec_quadrant(a);
        spec_unit(
            if q == 0 {
                spec_cos_series(t)
            } else if q == 1 {
                spec_sin_series(t).spec_neg()
            } else if q == 2 {
                spec_cos_series(t).spec_neg()
            } else {
                spec_sin_series(t)
            },
        )
    }

    /// The angle of the point `(x, self)` seen from the origin, in
    /// `[-pi, pi]`; zero at the origin.
    pub open spec fn spec_atan2(self, x: Fixed) -> Fixed {
        let ay = self.spec_abs();
        let ax = x.spec_abs();
        if ay@ == 0 && ax@ == 0 {
            Fixed::spec_zero()
        } else {
            let base = if ay@ <= ax@ {
                spec_atan_unit(ay.spec_div(ax))
            } else {
                (Fixed { raw: HALF_PI }).spec_sub(spec_atan_unit(ax.spec_div(ay)))
            };
            let full = if x@ < 0 {
                (Fixed { raw: PI }).spec_sub(base)
            } else {
                base
            };
            if self@ < 0 {
                full.spec_neg()
            } else {
                full
            }
        }
    }

    /// Arccosine of the value limited to `[-1, 1]`, in `[0, pi]`.
    pub open spec fn spec_acos(self) -> Fixed {
        let w = spec_unit(self);
        Fixed::spec_one().spec_sub(w.spec_mul(w)).spec_sqrt().spec_atan2(w)
    }

    /// Degrees turned into radians.
    pub open spec fn spec_to_radians(self) -> Fixed {
        self.spec_mul(Fixed { raw: PI }).spec_div(Fixed::spec_from_int(180))
    }

    /// Sine of an angle in radians.
    pub fn sin(self) -> (r: Fixed)
        ensures
            r == self.spec_sin(),
            -SCALE <= r@ <= SCALE,
            self@ == 0 ==> r@ == 0,
    {
        let a: u128 = unsigned_magnitude(self.raw);
        let turn: u128 = a % (TWO_PI as u128);
        let q: u128 = turn / (HALF_PI as u128);
        let t = Fixed { raw: (turn % (HALF_PI as u128)) as i64 };
        let s = if q == 0 {
            sin_series(t)
        } else if q == 1 {
            cos_series(t)
        } else if q == 2 {
            sin_series(t).neg()
        } else {
            cos_series(t).neg()
        };
        proof {
            if self@ == 0 {
                assert(a == 0);
                vstd::arithmetic::div_mod::lemma_small_mod(0, TWO_PI as nat);
                vstd::arithmetic::div_mod::lemma_small_mod(0, HALF_PI as nat);
                vstd::arithmetic::div_mod::lemma_basic_div(0, HALF_PI as int);
                assert(turn == 0);
                assert(t@ == 0 && q == 0);
            }
        }
        let s = unit(s);
        if self.raw < 0 {
            s.neg()
        } else {
            s
        }
    }

    /// Cosine of an angle in radians.
    pub fn cos(self) -> (r: Fixed)
        ensures
            r == self.spec_cos(),
            -SCALE <= r@ <= SCALE,
            self@ == 0 ==> r@ == SCALE,
    {
        let a: u128 = unsigned_magnitude(self.raw);
        let turn: u128 = a % (TWO_PI as u128);
        let q: u128 = turn / (HALF_PI as u128);
        let t = Fixed { raw: (turn % (HALF_PI as u128)) as i64 };
        let s = if q == 0 {
            cos_series(t)
        } else if q == 1 {
            sin_series(t).neg()
        } else if q == 2 {
            cos_series(t).neg()
        } else {
            sin_series(t)
        };
        proof {
            if self@ == 0 {
                assert(a == 0);
                vstd::arithmetic::div_mod::lemma_small_mod(0, TWO_PI as nat);
                vstd::arithmetic::div_mod::lemma_small_mod(0, HALF_PI as nat);
                vstd::arithmetic::div_mod::lemma_basic_div(0, HALF_PI as int);
                assert(turn == 0);
                assert(t@ == 0 && q == 0);
                assert(t@ * t@ == 0) by (nonlinear_arith)
                    requires
                        t@ == 0,
                ;
                assert(t.spec_mul(t)@ == 0);
                lemma_nested_at_zero(t.spec_mul(t), 1, COS_LEVELS as nat);
            }
        }
        unit(s)
    }

    /// The angle of the point `(x, self)` seen from the origin.
    pub fn atan2(self, x: Fixed) -> (r: Fixed)
        ensures
            r == self.spec_atan2(x),
            -PI <= r@ <= PI,
            self@ >= 0 ==> r@ >= 0,
    {
        let ay = self.abs();
        let ax = x.abs();
        if ay.raw == 0 && ax.raw == 0 {
            return Fixed::zero();
        }
        let base = if ay.raw <= ax.raw {
            atan_unit(ay / ax)
        } else {
            Fixed { raw: HALF_PI } - atan_unit(ax / ay)
        };
        let full = if x.raw < 0 {
            Fixed { raw: PI } - base
        } else {
            base
        };
        if self.raw < 0 {
            full.neg()
        } else {
            full
        }
    }

    /// Arccosine of the value limited to `[-1, 1]`.
    pub fn acos(self) -> (r: Fixed)
        ensures
            r == self.spec_acos(),
            0 <= r@ <= PI,
    {
        let w = unit(self);
        (Fixed::one() - w * w).sqrt().atan2(w)
    }

    /// Degrees turned into radians.
    pub fn to_radians(self) -> (r: Fixed)
        ensures
            r == self.spec_to_radians(),
    {
        self * Fixed { raw: PI } / Fixed::from_int(180)
    }
}

/// The sine of the opposite angle is the opposite sine, and the cosine of
/// the opposite angle is the same cosine.
pub proof fn law_sine_is_odd_and_cosine_even(x: Fixed)
    requires
        x@ != i64::MIN,
    ensures
        x.spec_neg().spec_sin() == x.spec_sin().spec_neg(),
        x.spec_neg().spec_cos() == x.spec_cos(),
{
    assert(x.spec_neg()@ == -x@);
    assert(magnitude(x.spec_neg()@) == magnitude(x@));
    if x@ == 0 {
        vstd::arithmetic::div_mod::lemma_small_mod(0, TWO_PI as nat);
        vstd::arithmetic::div_mod::lemma_small_mod(0, HALF_PI as nat);
        vstd::arithmetic::div_mod::lemma_basic_div(0, HALF_PI as int);
        let t = spec_within_quadrant(0);
        assert(t@ == 0);
        assert(spec_quadrant(0) == 0);
        let inner = spec_nested(t.spec_mul(t), 2, SIN_LEVELS as nat);
        assert(t@ * inner@ == 0) by (nonlinear_arith)
            requires
                t@ == 0,
        ;
        assert(spec_sin_series(t)@ == 0);
    }
}

/// The sine of zero is zero and its cosine is one.
pub proof fn lemma_sine_and_cosine_of_zero()
    ensures
        Fixed::spec_zero().spec_sin() == Fixed::spec_zero(),
        Fixed::spec_zero().spec_cos() == Fixed::spec_one(),
{
    vstd::arithmetic::div_mod::lemma_small_mod(0, TWO_PI as nat);
    vstd::arithmetic::div_mod::lemma_small_mod(0, HALF_PI as nat);
    vstd::arithmetic::div_mod::lemma_basic_div(0, HALF_PI as int);
    let t = spec_within_quadrant(0);
    assert(t@ == 0);
    assert(spec_quadrant(0) == 0);
    let inner = spec_nested(t.spec_mul(t), 2, SIN_LEVELS as nat);
    assert(t@ * inner@ == 0) by (nonlinear_arith)
        requires
            t@ == 0,
    ;
    assert(spec_sin_series(t)@ == 0);
    assert(t@ * t@ == 0) by (nonlinear_arith)
        requires
            t@ == 0,
    ;
    lemma_nested_at_zero(t.spec_mul(t), 1, COS_LEVELS as nat);
}

/// With `z` zero, the nested form is one whatever its depth.
pub proof fn lemma_nested_at_zero(z: Fixed, k: int, n: nat)
    requires
        z@ == 0,
    ensures
        spec_nested(z, k, n) == Fixed::spec_one(),
{
    if n > 0 {
        let inner = spec_nested(z, k + 2, (n - 1) as nat);
        assert(z@ * inner@ == 0);
        assert(z.spec_mul(inner)@ == 0);
        let d = Fixed::of(k * (k + 1) * SCALE);
        assert(z.spec_mul(inner).spec_div(d)@ == 0) by {
            if d@ != 0 {
                assert(0int * SCALE == 0);
                assert(magnitude(0) / magnitude(d@) == 0);
            }
        }
    }
}

/// The value limited to `[-1, 1]`.
pub fn unit(v: Fixed) -> (r: Fixed)
    ensures
        r == spec_unit(v),
        -SCALE <= r@ <= SCALE,
{
    v.clamp_to(Fixed { raw: -SCALE }, Fixed { raw: SCALE })
}

/// Sums the nested form [`spec_nested`] from the innermost level outward.
pub fn nested(z: Fixed, k: u32, n: u32) -> (r: Fixed)
    requires
        k <= 2,
        n <= 16,
    ensures
        r == spec_nested(z, k as int, n as nat),
{
    let mut acc = Fixed::one();
    let mut i: u32 = n;
    while i > 0
        invariant
            i <= n <= 16,
            k <= 2,
            acc == spec_nested(z, k + 2 * i, (n - i) as nat),
        decreases i,
    {
        i -= 1;
        let first: i64 = (k + 2 * i) as i64;
        assert(0 <= first * (first + 1) <= 1190) by (nonlinear_arith)
            requires
                0 <= first <= 34,
        ;
        let pairs: i64 = first * (first + 1);
        let divisor = Fixed { raw: pairs * SCALE };
        acc = Fixed::one() - z * acc / divisor;
    }
    acc
}

/// Sums the nested form [`spec_alternating`] from the innermost level outward.
pub fn alternating(z: Fixed, k: u32, n: u32) -> (r: Fixed)
    requires
        k <= 2,
        n <= 16,
    ensures
        r == spec_alternating(z, k as int, n as nat),
{
    let last: i64 = (k + 2 * n) as i64;
    let mut acc = Fixed::one() / Fixed { raw: last * SCALE };
    let mut i: u32 = n;
    while i > 0
        invariant
            i <= n <= 16,
            k <= 2,
            acc == spec_alternating(z, k + 2 * i, (n - i) as nat),
        decreases i,
    {
        i -= 1;
        let first: i64 = (k + 2 * i) as i64;
        let head = Fixed::one() / Fixed { raw: first * SCALE };
        acc = head - z * acc;
    }
    acc
}

/// The sine series of an angle in the first quadrant.
pub fn sin_series(t: Fixed) -> (r: Fixed)
    ensures
        r == spec_sin_series(t),
        t@ == 0 ==> r@ == 0,
{
    let r = t * nested(t * t, 2, SIN_LEVELS);
    proof {
        if t@ == 0 {
            let inner = spec_nested(t.spec_mul(t), 2, SIN_LEVELS as nat);
            assert(t@ * inner@ == 0) by (nonlinear_arith)
                requires
                    t@ == 0,
            ;
        }
    }
    r
}

/// The cosine series of an angle in the first quadrant.
pub fn cos_series(t: Fixed) -> (r: Fixed)
    ensures
        r == spec_cos_series(t),
{
    nested(t * t, 1, COS_LEVELS)
}

/// The arctangent series of a small ratio.
pub fn atan_series(u: Fixed) -> (r: Fixed)
    ensures
        r == spec_atan_series(u),
{
    u * alternating(u * u, 1, ATAN_LEVELS)
}

/// The arctangent of a ratio in `[0, 1]`.
pub fn atan_unit(t: Fixed) -> (r: Fixed)
    ensures
        r == spec_atan_unit(t),
        0 <= r@ <= QUARTER_PI,
{
    let raw = if t.raw <= TAN_EIGHTH_PI {
        atan_series(t)
    } else {
        Fixed { raw: QUARTER_PI } + atan_series((t - Fixed::one()) / (t + Fixed::one()))
    };
    raw.clamp_to(Fixed::zero(), Fixed { raw: QUARTER_PI })
}

} // verus!
