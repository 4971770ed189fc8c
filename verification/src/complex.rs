//! The escape-time evaluator.
//!
//! A point of the complex plane is held in the fixed-point encoding of
//! [`crate::fixed`]. The evaluator repeats the quadratic recurrence
//! `z <- z^2 + origin` up to a caller-chosen cap, reporting a point stable
//! when it never leaves the disc of radius 2 (squared magnitude below 4)
//! within that many steps.

use vstd::prelude::*;

use crate::fixed::{scale_down, FIXED_ONE, STEP_LIMIT};

verus! {

/// A point of the complex plane, both components in fixed-point encoding.
#[derive(Clone, Copy, Debug, PartialEq, Eq, Structural)]
pub struct Complex {
    pub real: i64,
    pub imaginary: i64,
}

/// The squared escape radius (4), in the raw units of a product of two
/// fixed-point values, which carry 48 fractional bits: the raw value of
/// `4 * FIXED_ONE * FIXED_ONE`.
pub const ESCAPE_THRESHOLD: i64 = 1125899906842624;

/// [`ESCAPE_THRESHOLD`] as a mathematical integer.
pub open spec fn escape_threshold() -> int {
    ESCAPE_THRESHOLD as int
}

proof fn lemma_sq_bound(a: int, b: int)
    by (nonlinear_arith)
    requires
        -b <= a <= b,
    ensures
        0 <= a * a <= b * b,
{
}

proof fn lemma_big_component_escapes(a: int, t: int)
    by (nonlinear_arith)
    requires
        0 <= t,
        a <= -t || t <= a,
    ensures
        a * a >= t * t,
{
}

proof fn lemma_mul_bound(a: int, b: int, m: int)
    by (nonlinear_arith)
    requires
        -m <= a <= m,
        -m <= b <= m,
    ensures
        -(m * m) <= a * b <= m * m,
{
}

proof fn lemma_sq_nonneg(a: int)
    by (nonlinear_arith)
    ensures
        a * a >= 0,
{
}

/// A squared magnitude below the escape threshold bounds each component
/// strictly by 2 (raw: twice `FIXED_ONE`, the literal 33554432 below, whose
/// square is the threshold).
proof fn lemma_small_magnitude_bounds_components(c: Complex)
    requires
        c.sq_magnitude() < escape_threshold(),
    ensures
        -2 * (FIXED_ONE as int) < c.real < 2 * (FIXED_ONE as int),
        -2 * (FIXED_ONE as int) < c.imaginary < 2 * (FIXED_ONE as int),
{
    let t: int = 2 * (FIXED_ONE as int);
    lemma_sq_nonneg(c.real as int);
    lemma_sq_nonneg(c.imaginary as int);
    if c.real <= -t || t <= c.real {
        lemma_big_component_escapes(c.real as int, 33554432);
        assert(false);
    }
    if c.imaginary <= -t || t <= c.imaginary {
        lemma_big_component_escapes(c.imaginary as int, 33554432);
        assert(false);
    }
}

impl Complex {
    /// Squared magnitude, in the raw units of a product (48 fractional bits).
    pub open spec fn sq_magnitude(self) -> int {
        self.real * self.real + self.imaginary * self.imaginary
    }

    /// Whether the point lies at or beyond the escape radius.
    pub open spec fn spec_escaped(self) -> bool {
        self.sq_magnitude() >= escape_threshold()
    }

    /// One step of the recurrence `z^2 + origin` on `self`.
    pub open spec fn spec_step(self, origin: Complex) -> Complex {
        Complex {
            real: (scale_down(self.real * self.real - self.imaginary * self.imaginary)
                + origin.real) as i64,
            imaginary: (scale_down(2 * (self.real * self.imaginary)) + origin.imaginary) as i64,
        }
    }

    /// Stability of the working value `z` under the recurrence toward
    /// `origin`, with `fuel` steps left before the cap declares it stable.
    pub open spec fn spec_stable_from(origin: Complex, z: Complex, fuel: nat) -> bool
        decreases fuel,
    {
        if fuel == 0 {
            true
        } else if z.spec_escaped() {
            false
        } else {
            Complex::spec_stable_from(origin, z.spec_step(origin), (fuel - 1) as nat)
        }
    }

    /// The classification [`Complex::is_stable`] returns: the whole
    /// recurrence starting at the point itself. A cap that is zero or
    /// negative allows no escape test, so every point counts as stable.
    pub open spec fn spec_stable(self, stable_iterations: i32) -> bool {
        Complex::spec_stable_from(
            self,
            self,
            if stable_iterations >= 0 {
                stable_iterations as nat
            } else {
                0
            },
        )
    }

    /// Returns a new complex number.
    pub fn new(x: i64, y: i64) -> (c: Complex)
        ensures
            c == (Complex { real: x, imaginary: y }),
    {
        Complex { real: x, imaginary: y }
    }

    /// Checks whether the point has gone past the escape radius.
    pub fn has_escaped(&self) -> (r: bool)
        ensures
            r == self.spec_escaped(),
    {
        let bound: i64 = 2 * FIXED_ONE;
        if self.real <= -bound || bound <= self.real || self.imaginary <= -bound
            || bound <= self.imaginary {
            proof {
                lemma_sq_nonneg(self.real as int);
                lemma_sq_nonneg(self.imaginary as int);
                if self.real <= -bound || bound <= self.real {
                    lemma_big_component_escapes(self.real as int, 33554432);
                } else {
                    lemma_big_component_escapes(self.imaginary as int, 33554432);
                }
            }
            true
        } else {
            proof {
                lemma_sq_bound(self.real as int, 33554432);
                lemma_sq_bound(self.imaginary as int, 33554432);
            }
            self.real * self.real + self.imaginary * self.imaginary >= ESCAPE_THRESHOLD
        }
    }

    /// Advances the point once along the recurrence toward `origin`.
    pub fn iterate(&mut self, origin: &Complex)
        requires
            -STEP_LIMIT <= old(self).real <= STEP_LIMIT,
            -STEP_LIMIT <= old(self).imaginary <= STEP_LIMIT,
            -STEP_LIMIT <= origin.real <= STEP_LIMIT,
            -STEP_LIMIT <= origin.imaginary <= STEP_LIMIT,
        ensures
            *final(self) == old(self).spec_step(*origin),
    {
        let re: i128 = self.real as i128;
        let im: i128 = self.imaginary as i128;
        proof {
            // With components at most STEP_LIMIT (2^42, written out so that
            // the products fold to numerals), the wide intermediates stay
            // within 2 * STEP_LIMIT^2 = 2^85, and rescaling brings them
            // under 2^61, comfortably inside `i64` once the origin is added.
            lemma_sq_bound(re as int, 4398046511104);
            lemma_sq_bound(im as int, 4398046511104);
            lemma_mul_bound(re as int, im as int, 4398046511104);
            crate::fixed::lemma_scale_down_bound(
                re * re - im * im,
                38685626227668133590597632,
                2305843009213693952,
            );
            crate::fixed::lemma_scale_down_bound(
                2 * (re * im),
                38685626227668133590597632,
                2305843009213693952,
            );
        }
        let real_wide: i128 = crate::fixed::scale_down_wide(re * re - im * im)
            + (origin.real as i128);
        let imaginary_wide: i128 = crate::fixed::scale_down_wide(2 * (re * im))
            + (origin.imaginary as i128);
        self.real = real_wide as i64;
        self.imaginary = imaginary_wide as i64;
    }

    /// Runs the complete escape-time algorithm: the point is iterated at most
    /// `stable_iterations` times, and counts as stable when it never reaches
    /// the escape radius before the cap.
    pub fn is_stable(&self, stable_iterations: i32) -> (r: bool)
        ensures
            r == self.spec_stable(stable_iterations),
    {
        let ghost fuel: int = if stable_iterations >= 0 {
            stable_iterations as int
        } else {
            0
        };
        let mut copy: Complex = self.clone();
        let mut k: i32 = 0;
        while k < stable_iterations
            invariant
                0 <= k <= fuel,
                fuel == if stable_iterations >= 0 {
                    stable_iterations as int
                } else {
                    0
                },
                Complex::spec_stable_from(*self, copy, (fuel - k) as nat) == self.spec_stable(
                    stable_iterations,
                ),
                k == 0 ==> copy == *self,
                k > 0 ==> !self.spec_escaped(),
                k > 0 ==> -10 * (FIXED_ONE as int) <= copy.real <= 10 * (FIXED_ONE as int),
                k > 0 ==> -10 * (FIXED_ONE as int) <= copy.imaginary <= 10 * (FIXED_ONE as int),
            decreases fuel - k,
        {
            if copy.has_escaped() {
                return false;
            }
            proof {
                lemma_small_magnitude_bounds_components(copy);
                lemma_small_magnitude_bounds_components(*self);
                lemma_step_stays_bounded(copy, *self);
            }
            copy.iterate(self);
            k = k + 1;
        }
        true
    }
}

/// After one step from a not-yet-escaped working value toward a
/// not-yet-escaped origin, each component stays within 10 plane units.
proof fn lemma_step_stays_bounded(z: Complex, origin: Complex)
    requires
        !z.spec_escaped(),
        !origin.spec_escaped(),
    ensures
        -STEP_LIMIT <= z.real <= STEP_LIMIT,
        -STEP_LIMIT <= z.imaginary <= STEP_LIMIT,
        -STEP_LIMIT <= origin.real <= STEP_LIMIT,
        -STEP_LIMIT <= origin.imaginary <= STEP_LIMIT,
        -10 * (FIXED_ONE as int) <= z.spec_step(origin).real <= 10 * (FIXED_ONE as int),
        -10 * (FIXED_ONE as int) <= z.spec_step(origin).imaginary <= 10 * (FIXED_ONE as int),
{
    // Components below 2 plane units (raw 33554432) square to at most the
    // threshold; rescaling 2 * threshold gives 8 units (raw 134217728), and
    // adding an origin component below 2 units stays within 10.
    lemma_small_magnitude_bounds_components(z);
    lemma_small_magnitude_bounds_components(origin);
    lemma_sq_bound(z.real as int, 33554432);
    lemma_sq_bound(z.imaginary as int, 33554432);
    lemma_mul_bound(z.real as int, z.imaginary as int, 33554432);
    crate::fixed::lemma_scale_down_bound(
        z.real * z.real - z.imaginary * z.imaginary,
        2251799813685248,
        134217728,
    );
    crate::fixed::lemma_scale_down_bound(2 * (z.real * z.imaginary), 2251799813685248, 134217728);
}

/// A point already at or past the escape radius is classified unstable by
/// any positive iteration cap: the escape test fires before any iteration.
pub proof fn lemma_escape_is_immediate(c: Complex, stable_iterations: i32)
    requires
        c.spec_escaped(),
        stable_iterations >= 1,
    ensures
        !c.spec_stable(stable_iterations),
{
}

/// The origin is a fixed point of the recurrence, so it is classified stable
/// under every iteration cap.
pub proof fn lemma_origin_always_stable(stable_iterations: i32)
    ensures
        (Complex { real: 0, imaginary: 0 }).spec_stable(stable_iterations),
{
    if stable_iterations >= 0 {
        lemma_origin_stable_from(stable_iterations as nat);
    }
}

proof fn lemma_origin_stable_from(fuel: nat)
    ensures
        Complex::spec_stable_from(
            Complex { real: 0, imaginary: 0 },
            Complex { real: 0, imaginary: 0 },
            fuel,
        ),
    decreases fuel,
{
    let z = Complex { real: 0, imaginary: 0 };
    if fuel > 0 {
        assert(!z.spec_escaped());
        assert(z.spec_step(z) == z);
        lemma_origin_stable_from((fuel - 1) as nat);
    }
}

} // verus!
