//! Scalar recursive (Kalman-style) smoothing filter over fixed-point
//! arithmetic.
//!
//! The estimate and the noise parameters are carried in units of
//! `1 / SCALE` of a sensor unit, so the classic predict/update recursion
//! can be stated and verified over integers: the uncertainty grows by the
//! process variance each step, a gain of `p / (p + r)` blends the new raw
//! reading into the estimate, and the uncertainty shrinks by the
//! complementary factor.

use vstd::prelude::*;
use vstd::arithmetic::div_mod::lemma_div_is_ordered;
use vstd::arithmetic::mul::{lemma_mul_inequality, lemma_mul_upper_bound};
use crate::math::lemma_mul_div_le;

verus! {

/// Fixed-point scale: one filter unit is `1 / SCALE` of a sensor unit.
pub const SCALE: u64 = 1024;

/// Upper bound admitted for the noise parameters, so that every
/// intermediate product below fits its machine type.
pub const NOISE_MAX: u64 = 0x1_0000_0000;

/// Largest representable estimate: the largest raw reading, scaled.
pub const ESTIMATE_MAX: u128 = 0xFFFF_FFFF_FFFF_FFFF * 1024;

pub struct Kalman {
    /// Process-noise variance, in scaled units.
    pub q: u64,
    /// Measurement-noise variance, in scaled units.
    pub r: u64,
    /// Current error covariance, in scaled units.
    pub p: u64,
    /// Current smoothed estimate, scaled by `SCALE`.
    pub estimate: u128,
    /// Warm-up phase: 0 before any reading, 1 once the estimate has been
    /// seeded by the first reading, 2 once the recursion has run.
    pub phase: u8,
}

impl Kalman {
    /// Machine-size bounds under which the recursion cannot overflow.
    pub open spec fn wf(self) -> bool {
        &&& self.q <= NOISE_MAX
        &&& 1 <= self.r <= NOISE_MAX
        &&& self.p <= 2 * NOISE_MAX
        &&& self.estimate <= ESTIMATE_MAX
        &&& self.phase <= 2
    }

    /// The filter trusts its output only after the update recursion has run
    /// at least once, i.e. from the second reading on.
    pub open spec fn is_initialized(self) -> bool {
        self.phase == 2
    }

    /// Covariance after the predict step.
    pub open spec fn predicted_p(self) -> int {
        self.p + self.q
    }

    /// Denominator of the gain `p / (p + r)` after the predict step.
    pub open spec fn gain_denom(self) -> int {
        self.p + self.q + self.r
    }

    /// Estimate after blending reading `z` in: the gain times the innovation
    /// is added to the previous estimate, in fixed point.
    pub open spec fn next_estimate(self, z: u64) -> int {
        let zs = z * SCALE;
        if zs >= self.estimate {
            self.estimate + self.predicted_p() * (zs - self.estimate) / self.gain_denom()
        } else {
            self.estimate - self.predicted_p() * (self.estimate - zs) / self.gain_denom()
        }
    }

    /// Covariance after the update step: shrunk by `1 - gain`.
    pub open spec fn next_p(self) -> int {
        self.predicted_p() * self.r / self.gain_denom()
    }

    /// The estimate in sensor units, rounded to nearest.
    pub open spec fn rounded_estimate(self) -> int {
        (self.estimate + SCALE / 2) / (SCALE as int)
    }

    pub fn new(q: u64, r: u64, p: u64) -> (k: Kalman)
        requires
            q <= NOISE_MAX,
            1 <= r <= NOISE_MAX,
            p <= NOISE_MAX,
        ensures
            k == (Kalman { q, r, p, estimate: 0, phase: 0 }),
            k.wf(),
            !k.is_initialized(),
    {
        Kalman { q, r, p, estimate: 0, phase: 0 }
    }

    pub fn initialized(&self) -> (r: bool)
        ensures
            r == self.is_initialized(),
    {
        self.phase == 2
    }

    /// Feeds one raw reading through the filter and returns the smoothed
    /// estimate, rounded to sensor units.  The first reading seeds the
    /// estimate; every later one runs the predict/update recursion.
    pub fn process(&mut self, z: u64) -> (out: u64)
        requires
            old(self).wf(),
        ensures
            final(self).q == old(self).q,
            final(self).r == old(self).r,
            old(self).phase == 0 ==> final(self).estimate == z * SCALE
                && final(self).p == old(self).p
                && final(self).phase == 1,
            old(self).phase >= 1 ==> final(self).estimate == old(self).next_estimate(z)
                && final(self).p == old(self).next_p()
                && final(self).phase == 2,
            out == final(self).rounded_estimate(),
            final(self).wf(),
    {
        proof {
            lemma_mul_inequality(z as int, 0xFFFF_FFFF_FFFF_FFFF, SCALE as int);
        }
        if self.phase == 0 {
            self.estimate = (z as u128) * (SCALE as u128);
            self.phase = 1;
        } else {
            let p_pred: u64 = self.p + self.q;
            let denom: u64 = p_pred + self.r;
            let zs: u128 = (z as u128) * (SCALE as u128);
            if zs >= self.estimate {
                let delta: u128 = zs - self.estimate;
                proof {
                    lemma_mul_upper_bound(
                        p_pred as int,
                        0x4_0000_0000,
                        delta as int,
                        ESTIMATE_MAX as int,
                    );
                    lemma_mul_div_le(p_pred as int, delta as int, denom as int);
                }
                let step: u128 = (p_pred as u128) * delta / (denom as u128);
                self.estimate = self.estimate + step;
            } else {
                let delta: u128 = self.estimate - zs;
                proof {
                    lemma_mul_upper_bound(
                        p_pred as int,
                        0x4_0000_0000,
                        delta as int,
                        ESTIMATE_MAX as int,
                    );
                    lemma_mul_div_le(p_pred as int, delta as int, denom as int);
                }
                let step: u128 = (p_pred as u128) * delta / (denom as u128);
                self.estimate = self.estimate - step;
            }
            proof {
                lemma_mul_upper_bound(
                    p_pred as int,
                    0x4_0000_0000,
                    self.r as int,
                    NOISE_MAX as int,
                );
                lemma_mul_div_le(p_pred as int, self.r as int, denom as int);
            }
            self.p = ((p_pred as u128) * (self.r as u128) / (denom as u128)) as u64;
            self.phase = 2;
        }
        proof {
            lemma_div_is_ordered(
                self.estimate + 512,
                ESTIMATE_MAX as int + 512,
                SCALE as int,
            );
        }
        ((self.estimate + (SCALE / 2) as u128) / (SCALE as u128)) as u64
    }
}

} // verus!
