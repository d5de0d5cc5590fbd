//! Signed decimal fixed-point scalars.
//!
//! A [`Fixed`] stores a real number as an integer count of billionths. Every
//! operation is total: results that leave the representable range saturate
//! at its ends, quotients and products round toward zero, and a division by
//! zero saturates in the direction of the numerator.

use vstd::prelude::*;

verus! {

/// Number of raw units in one whole.
pub const SCALE: i64 = 1_000_000_000;

/// The nearest value to `v` that an `i64` can hold.
pub open spec fn clamp(v: int) -> int {
    if v < i64::MIN {
        i64::MIN as int
    } else if v > i64::MAX {
        i64::MAX as int
    } else {
        v
    }
}

/// Absolute value of an integer.
pub open spec fn magnitude(v: int) -> int {
    if v < 0 {
        -v
    } else {
        v
    }
}

/// Quotient of `a` by a nonzero `b`, rounded toward zero.
pub open spec fn trunc_div(a: int, b: int) -> int {
    if (a < 0) == (b < 0) {
        magnitude(a) / magnitude(b)
    } else {
        -(magnitude(a) / magnitude(b))
    }
}

/// `r` is the integer square root of `n`, rounded down.
pub open spec fn is_floor_sqrt(n: int, r: int) -> bool {
    0 <= r && r * r <= n && n < (r + 1) * (r + 1)
}

/// The integer square root of `n`, rounded down (meaningful for `n >= 0`).
pub open spec fn floor_sqrt(n: int) -> int {
    choose|r: int| is_floor_sqrt(n, r)
}

/// A number has at most one rounded-down square root.
pub proof fn lemma_floor_sqrt_unique(n: int, r: int)
    requires
        is_floor_sqrt(n, r),
    ensures
        floor_sqrt(n) == r,
{
    let s = floor_sqrt(n);
    assert(is_floor_sqrt(n, s));
    if s < r {
        assert((s + 1) * (s + 1) <= r * r) by (nonlinear_arith)
            requires
                0 <= s,
                s + 1 <= r,
        ;
    } else if r < s {
        assert((r + 1) * (r + 1) <= s * s) by (nonlinear_arith)
            requires
                0 <= r,
                r + 1 <= s,
        ;
    }
}

/// Every natural number has a rounded-down square root.
pub proof fn lemma_floor_sqrt_exists(n: nat)
    ensures
        is_floor_sqrt(n as int, floor_sqrt(n as int)),
    decreases n,
{
    if n == 0 {
        assert(is_floor_sqrt(0, 0));
    } else {
        lemma_floor_sqrt_exists((n - 1) as nat);
        let r = floor_sqrt(n - 1);
        if (r + 1) * (r + 1) <= n {
            assert((r + 2) * (r + 2) > n) by (nonlinear_arith)
                requires
                    0 <= r,
                    n - 1 < (r + 1) * (r + 1),
            ;
            assert(is_floor_sqrt(n as int, r + 1));
        } else {
            assert(is_floor_sqrt(n as int, r));
        }
    }
}

/// A rounded-down square root is at least every number whose square is no
/// more than its argument.
pub proof fn lemma_floor_sqrt_bounds(n: int, r: int, c: int)
    requires
        is_floor_sqrt(n, r),
        0 <= c,
        c * c <= n,
    ensures
        c <= r,
{
    if r < c {
        assert((r + 1) * (r + 1) <= c * c) by (nonlinear_arith)
            requires
                0 <= r,
                r + 1 <= c,
        ;
    }
}

/// A quotient of any value by the largest value lies in `[-1, 1]`.
pub proof fn lemma_share_of_largest(a: Fixed)
    ensures
        -SCALE <= a.spec_div(Fixed { raw: i64::MAX })@ <= SCALE,
{
    let m = magnitude(a@);
    let top = i64::MAX as int;
    assert(magnitude(a@ * SCALE) == m * SCALE);
    assert(0 <= (m * SCALE) / top <= SCALE as int) by (nonlinear_arith)
        requires
            0 <= m <= top + 1,
            top == 0x7fff_ffff_ffff_ffff,
            SCALE == 1_000_000_000,
    ;
}

/// A quotient of a value by one at least as large in magnitude lies in
/// `[-1, 1]`.
pub proof fn lemma_share_of_larger(a: Fixed, b: Fixed)
    requires
        magnitude(a@) <= b@,
        b@ > 0,
    ensures
        -SCALE <= a.spec_div(b)@ <= SCALE,
{
    let m = magnitude(a@);
    assert(magnitude(a@ * SCALE) == m * SCALE);
    assert(0 <= (m * SCALE) / b@ <= SCALE as int) by (nonlinear_arith)
        requires
            0 <= m <= b@,
            b@ > 0,
            SCALE == 1_000_000_000,
    ;
}

/// Integer square root by bisection.
pub fn isqrt(n: u128) -> (r: u64)
    ensures
        is_floor_sqrt(n as int, r as int),
        r as int == floor_sqrt(n as int),
{
    let mut lo: u128 = 0;
    let mut hi: u128 = 0x1_0000_0000_0000_0000;
    assert(0x1_0000_0000_0000_0000int * 0x1_0000_0000_0000_0000int
        == 0x1_0000_0000_0000_0000_0000_0000_0000_0000int) by (nonlinear_arith);
    while hi - lo > 1
        invariant
            lo < hi <= 0x1_0000_0000_0000_0000,
            lo * lo <= n,
            n < hi * hi,
        decreases hi - lo,
    {
        let mid: u128 = lo + (hi - lo) / 2;
        assert(mid * mid <= 0xffff_ffff_ffff_ffffint * 0xffff_ffff_ffff_ffffint)
            by (nonlinear_arith)
            requires
                0 <= mid <= 0xffff_ffff_ffff_ffff,
        ;
        assert(0xffff_ffff_ffff_ffffint * 0xffff_ffff_ffff_ffffint < u128::MAX)
            by (nonlinear_arith);
        if mid * mid <= n {
            lo = mid;
        } else {
            hi = mid;
        }
    }
    proof {
        lemma_floor_sqrt_unique(n as int, lo as int);
    }
    lo as u64
}

/// Absolute value of a 64-bit integer, widened so that it cannot overflow.
pub fn unsigned_magnitude(v: i64) -> (r: u128)
    ensures
        r == magnitude(v as int),
{
    if v < 0 {
        (-(v as i128)) as u128
    } else {
        v as u128
    }
}

/// Narrows a signed wide integer to the `i64` range.
pub fn saturate(v: i128) -> (r: i64)
    ensures
        r == clamp(v as int),
{
    if v < i64::MIN as i128 {
        i64::MIN
    } else if v > i64::MAX as i128 {
        i64::MAX
    } else {
        v as i64
    }
}

/// Narrows a magnitude with a sign to the `i64` range.
pub fn saturate_signed(negative: bool, mag: u128) -> (r: i64)
    ensures
        r == clamp(if negative { -(mag as int) } else { mag as int }),
{
    if negative {
        if mag >= 0x8000_0000_0000_0000 {
            i64::MIN
        } else {
            -(mag as i64)
        }
    } else {
        if mag > 0x7fff_ffff_ffff_ffff {
            i64::MAX
        } else {
            mag as i64
        }
    }
}

/// A real number held as a whole count of billionths.
#[derive(Clone, Copy, Debug, PartialEq, Eq, Structural)]
pub struct Fixed {
    /// The value multiplied by [`SCALE`].
    pub raw: i64,
}

impl View for Fixed {
    type V = int;

    /// The raw count of billionths.
    open spec fn view(&self) -> int {
        self.raw as int
    }
}

impl Fixed {
    /// The value made of `v` raw units, saturated to the representable range.
    pub open spec fn of(v: int) -> Fixed {
        Fixed { raw: clamp(v) as i64 }
    }

    /// Zero.
    pub open spec fn spec_zero() -> Fixed {
        Fixed { raw: 0 }
    }

    /// One.
    pub open spec fn spec_one() -> Fixed {
        Fixed { raw: SCALE }
    }

    /// Saturating sum.
    pub open spec fn spec_add(self, rhs: Fixed) -> Fixed {
        Fixed::of(self@ + rhs@)
    }

    /// Saturating difference.
    pub open spec fn spec_sub(self, rhs: Fixed) -> Fixed {
        Fixed::of(self@ - rhs@)
    }

    /// Saturating negation.
    pub open spec fn spec_neg(self) -> Fixed {
        Fixed::of(-self@)
    }

    /// Saturating product, rounded toward zero.
    pub open spec fn spec_mul(self, rhs: Fixed) -> Fixed {
        Fixed::of(trunc_div(self@ * rhs@, SCALE as int))
    }

    /// Saturating quotient, rounded toward zero. A zero divisor gives the
    /// end of the range on the numerator's side, and zero for `0 / 0`.
    pub open spec fn spec_div(self, rhs: Fixed) -> Fixed {
        if rhs@ == 0 {
            if self@ > 0 {
                Fixed { raw: i64::MAX }
            } else if self@ < 0 {
                Fixed { raw: i64::MIN }
            } else {
                Fixed { raw: 0 }
            }
        } else {
            Fixed::of(trunc_div(self@ * SCALE, rhs@))
        }
    }

    /// Specification of [`Fixed::abs`].
    pub open spec fn spec_abs(self) -> Fixed {
        Fixed::of(magnitude(self@))
    }

    /// Specification of [`Fixed::min`].
    pub open spec fn spec_min(self, other: Fixed) -> Fixed {
        if other@ < self@ {
            other
        } else {
            self
        }
    }

    /// Specification of [`Fixed::max`].
    pub open spec fn spec_max(self, other: Fixed) -> Fixed {
        if other@ > self@ {
            other
        } else {
            self
        }
    }

    /// Specification of [`Fixed::clamp_to`].
    pub open spec fn spec_clamp_to(self, lo: Fixed, hi: Fixed) -> Fixed {
        self.spec_max(lo).spec_min(hi)
    }

    /// Specification of [`Fixed::sqrt`].
    pub open spec fn spec_sqrt(self) -> Fixed {
        if self@ <= 0 {
            Fixed::spec_zero()
        } else {
            Fixed::of(floor_sqrt(self@ * SCALE))
        }
    }

    /// Specification of [`Fixed::from_int`].
    pub open spec fn spec_from_int(n: i32) -> Fixed {
        Fixed { raw: (n * SCALE) as i64 }
    }

    /// Specification of [`Fixed::from_ratio`].
    pub open spec fn spec_from_ratio(num: i64, den: i64) -> Fixed {
        (Fixed { raw: num }).spec_div(Fixed { raw: den })
    }

    /// Wraps a raw count of billionths.
    pub fn from_raw(raw: i64) -> (r: Fixed)
        ensures
            r@ == raw,
    {
        Fixed { raw }
    }

    /// Zero.
    pub fn zero() -> (r: Fixed)
        ensures
            r == Fixed::spec_zero(),
    {
        Fixed { raw: 0 }
    }

    /// One.
    pub fn one() -> (r: Fixed)
        ensures
            r == Fixed::spec_one(),
    {
        Fixed { raw: SCALE }
    }

    /// The whole number `n`.
    pub fn from_int(n: i32) -> (r: Fixed)
        ensures
            r == Fixed::spec_from_int(n),
            r@ == n * SCALE,
    {
        let wide: i64 = n as i64;
        Fixed { raw: wide * SCALE }
    }

    /// The fraction `num / den`, rounded toward zero to a billionth.
    pub fn from_ratio(num: i64, den: i64) -> (r: Fixed)
        ensures
            r == Fixed::spec_from_ratio(num, den),
    {
        Fixed { raw: num } / Fixed { raw: den }
    }

    /// Absolute value; the most negative value saturates.
    pub fn abs(self) -> (r: Fixed)
        ensures
            r == self.spec_abs(),
    {
        if self.raw == i64::MIN {
            Fixed { raw: i64::MAX }
        } else if self.raw < 0 {
            Fixed { raw: -self.raw }
        } else {
            self
        }
    }

    /// The smaller of two values.
    pub fn min(self, other: Fixed) -> (r: Fixed)
        ensures
            r == self.spec_min(other),
    {
        if other.raw < self.raw {
            other
        } else {
            self
        }
    }

    /// The larger of two values.
    pub fn max(self, other: Fixed) -> (r: Fixed)
        ensures
            r == self.spec_max(other),
    {
        if other.raw > self.raw {
            other
        } else {
            self
        }
    }

    /// Raises the value to at least `lo`, then lowers it to at most `hi`.
    pub fn clamp_to(self, lo: Fixed, hi: Fixed) -> (r: Fixed)
        ensures
            r == self.spec_clamp_to(lo, hi),
            lo@ <= hi@ ==> lo@ <= r@ <= hi@,
            lo@ <= self@ <= hi@ ==> r == self,
    {
        self.max(lo).min(hi)
    }

    /// Square root rounded down to a billionth; zero for a negative value.
    pub fn sqrt(self) -> (r: Fixed)
        ensures
            r == self.spec_sqrt(),
            r@ >= 0,
            self@ > 0 ==> is_floor_sqrt(self@ * SCALE, r@),
    {
        if self.raw <= 0 {
            Fixed { raw: 0 }
        } else {
            let wide: u128 = (self.raw as u128) * (SCALE as u128);
            let root: u64 = isqrt(wide);
            proof {
                let r = root as int;
                if r > 0x7fff_ffff_ffff_ffff {
                    assert(r * r >= 0x8000_0000_0000_0000int * 0x8000_0000_0000_0000int)
                        by (nonlinear_arith)
                        requires
                            r >= 0x8000_0000_0000_0000int,
                    ;
                }
            }
            Fixed { raw: root as i64 }
        }
    }
}

impl core::ops::Add for Fixed {
    type Output = Fixed;

    /// Saturating sum.
    fn add(self, rhs: Fixed) -> (r: Fixed)
        ensures
            r == self.spec_add(rhs),
    {
        Fixed { raw: saturate(self.raw as i128 + rhs.raw as i128) }
    }
}

impl vstd::std_specs::ops::AddSpecImpl for Fixed {
    open spec fn obeys_add_spec() -> bool {
        true
    }

    open spec fn add_req(self, rhs: Fixed) -> bool {
        true
    }

    open spec fn add_spec(self, rhs: Fixed) -> Fixed {
        self.spec_add(rhs)
    }
}

impl core::ops::Sub for Fixed {
    type Output = Fixed;

    /// Saturating difference.
    fn sub(self, rhs: Fixed) -> (r: Fixed)
        ensures
            r == self.spec_sub(rhs),
    {
        Fixed { raw: saturate(self.raw as i128 - rhs.raw as i128) }
    }
}

impl vstd::std_specs::ops::SubSpecImpl for Fixed {
    open spec fn obeys_sub_spec() -> bool {
        true
    }

    open spec fn sub_req(self, rhs: Fixed) -> bool {
        true
    }

    open spec fn sub_spec(self, rhs: Fixed) -> Fixed {
        self.spec_sub(rhs)
    }
}

impl core::ops::Neg for Fixed {
    type Output = Fixed;

    /// Saturating negation.
    fn neg(self) -> (r: Fixed)
        ensures
            r == self.spec_neg(),
    {
        Fixed { raw: saturate(-(self.raw as i128)) }
    }
}

impl vstd::std_specs::ops::NegSpecImpl for Fixed {
    open spec fn obeys_neg_spec() -> bool {
        true
    }

    open spec fn neg_req(self) -> bool {
        true
    }

    open spec fn neg_spec(self) -> Fixed {
        self.spec_neg()
    }
}

impl core::ops::Mul for Fixed {
    type Output = Fixed;

    /// Saturating product, rounded toward zero.
    fn mul(self, rhs: Fixed) -> (r: Fixed)
        ensures
            r == self.spec_mul(rhs),
    {
        let a: u128 = unsigned_magnitude(self.raw);
        let b: u128 = unsigned_magnitude(rhs.raw);
        assert(a * b <= 0x8000_0000_0000_0000int * 0x8000_0000_0000_0000int)
            by (nonlinear_arith)
            requires
                0 <= a <= 0x8000_0000_0000_0000,
                0 <= b <= 0x8000_0000_0000_0000,
        ;
        assert(0x8000_0000_0000_0000int * 0x8000_0000_0000_0000int < u128::MAX)
            by (nonlinear_arith);
        let product: u128 = a * b;
        let quotient: u128 = product / (SCALE as u128);
        let negative: bool = (self.raw < 0) != (rhs.raw < 0);
        proof {
            lemma_magnitude_of_product(self@, rhs@);
        }
        Fixed { raw: saturate_signed(negative, quotient) }
    }
}

impl vstd::std_specs::ops::MulSpecImpl for Fixed {
    open spec fn obeys_mul_spec() -> bool {
        true
    }

    open spec fn mul_req(self, rhs: Fixed) -> bool {
        true
    }

    open spec fn mul_spec(self, rhs: Fixed) -> Fixed {
        self.spec_mul(rhs)
    }
}

impl core::ops::Div for Fixed {
    type Output = Fixed;

    /// Saturating quotient, rounded toward zero. Dividing by zero gives the
    /// end of the range on the numerator's side, and zero for `0 / 0`.
    fn div(self, rhs: Fixed) -> (r: Fixed)
        ensures
            r == self.spec_div(rhs),
    {
        if rhs.raw == 0 {
            if self.raw > 0 {
                Fixed { raw: i64::MAX }
            } else if self.raw < 0 {
                Fixed { raw: i64::MIN }
            } else {
                Fixed { raw: 0 }
            }
        } else {
            let a: u128 = unsigned_magnitude(self.raw);
            let b: u128 = unsigned_magnitude(rhs.raw);
            assert(a * SCALE <= 0x8000_0000_0000_0000int * 1_000_000_000int) by (nonlinear_arith)
                requires
                    0 <= a <= 0x8000_0000_0000_0000,
                    SCALE == 1_000_000_000,
            ;
            let scaled: u128 = a * (SCALE as u128);
            let quotient: u128 = scaled / b;
            let negative: bool = (self.raw < 0) != (rhs.raw < 0);
            proof {
                assert(SCALE == 1_000_000_000);
                assert(magnitude(self@ * SCALE) == a * SCALE);
                assert((self@ * SCALE < 0) == (self@ < 0));
                assert(magnitude(rhs@) == b);
                assert(quotient == magnitude(self@ * SCALE) / magnitude(rhs@));
                assert(trunc_div(self@ * SCALE, rhs@) == if negative { -(quotient as int) } else { quotient as int });
            }
            let out = Fixed { raw: saturate_signed(negative, quotient) };
            assert(out == self.spec_div(rhs));
            out
        }
    }
}

impl vstd::std_specs::ops::DivSpecImpl for Fixed {
    open spec fn obeys_div_spec() -> bool {
        true
    }

    open spec fn div_req(self, rhs: Fixed) -> bool {
        true
    }

    open spec fn div_spec(self, rhs: Fixed) -> Fixed {
        self.spec_div(rhs)
    }
}

/// The magnitude of a product is the product of the magnitudes, and the
/// product is negative exactly when the factors are nonzero with unlike signs.
pub proof fn lemma_magnitude_of_product(a: int, b: int)
    ensures
        magnitude(a * b) == magnitude(a) * magnitude(b),
        (a * b < 0) ==> ((a < 0) != (b < 0)),
        ((a < 0) != (b < 0)) ==> a * b <= 0,
{
    assert(magnitude(a * b) == magnitude(a) * magnitude(b)) by (nonlinear_arith);
    assert((a * b < 0) ==> ((a < 0) != (b < 0))) by (nonlinear_arith);
    assert(((a < 0) != (b < 0)) ==> a * b <= 0) by (nonlinear_arith);
}

} // verus!
