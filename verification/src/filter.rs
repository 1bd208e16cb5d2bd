//! The attitude filter: a quaternion complementary filter with integrated
//! gyroscope-bias estimation and hysteretic disturbance rejection.
//!
//! `predict` integrates one gyroscope sample into the orientation estimate
//! and renormalizes it; `correct` classifies the accelerometer error against
//! the disturbance thresholds, builds a reference orientation from the
//! (possibly suppressed) accelerometer and the magnetometer, and recomputes
//! the correction angular rate and the bias integral. Every step is stated
//! exactly over the fixed-point views.

use vstd::prelude::*;
use vstd::arithmetic::div_mod::{lemma_div_pos_is_pos, lemma_div_is_ordered_by_denominator};
use crate::fixed::{SCALE, HALF, fx_mul_spec, fx_div_spec, fx_mul, fx_div};
use crate::fixed::{lemma_fx_mul_bound, lemma_isqrt_zero};
use crate::vec3::{Vec3, Vec3View};
use crate::vec3::{v3_in_mag, v3_add, v3_sub, v3_neg, v3_scale, v3_cross, v3_zero_z, v3_norm,
    v3_norm_sq};
use crate::vec3::{lemma_v3_cross_bound, lemma_v3_scale_bound, lemma_sq_bound};
use crate::quat::{Quat, QuatView};
use crate::quat::{q_in_mag, q_mul, q_dot, q_norm_sq, q_normalize, q_frame_rotation,
    q_vector_rotation, q_integrate, rotate_a_to_b, spec_rotate_a_to_b};
use crate::quat::{lemma_q_mul_bound, lemma_sq_nonneg};
use crate::disturbance::{DisturbanceState, spec_classify, classify};

verus! {

/// Standard gravity (9.80665) in fixed-point representation.
pub const G_FX: i64 = 642689;

/// Magnitude cap for one gyroscope sample (2^22, about 64 rad/s).
pub const GLIM: i64 = 4194304;

/// Magnitude cap for accelerometer and magnetometer samples (2^21).
pub const VLIM: i64 = 2097152;

/// Magnitude cap kept for the correction angular rate (2^26).
pub const CORRLIM: i64 = 67108864;

/// Magnitude cap kept for the bias integral between calls (2^27).
pub const IMAX: i64 = 134217728;

/// Magnitude cap the bias integral must satisfy before a `correct` call
/// (2^26), leaving headroom for one update step.
pub const ILIM: i64 = 67108864;

/// Cap for the correction gain `2 / alpha` (2^20, i.e. `alpha >= 1/8`).
pub const CLIM: i64 = 1048576;

/// Cap for the integration gain `beta` (one quarter).
pub const BLIM: i64 = 16384;

/// Cap for the disturbance thresholds (2^30).
pub const TLIM: i64 = 1073741824;

/// Reference-frame gravity vector `(0, 0, g)`.
pub open spec fn acc_r_view() -> Vec3View {
    Vec3View { x: 0, y: 0, z: G_FX as int }
}

/// Reference-frame magnetic field direction `(0, 1, 0)`.
pub open spec fn mag_r_view() -> Vec3View {
    Vec3View { x: 0, y: SCALE as int, z: 0 }
}

/// Reference-frame gravity vector `(0, 0, g)`.
pub fn acc_r() -> (r: Vec3)
    ensures
        r@ == acc_r_view(),
{
    Vec3 { x: 0, y: 0, z: G_FX }
}

/// Reference-frame magnetic field direction `(0, 1, 0)`.
pub fn mag_r() -> (r: Vec3)
    ensures
        r@ == mag_r_view(),
{
    Vec3 { x: 0, y: SCALE, z: 0 }
}

/// Why a filter could not be constructed.
#[derive(Clone, Copy, PartialEq, Eq, Structural, Debug)]
pub enum ConfigError {
    NonPositiveAlpha,
    NonPositiveDt,
    ThresholdOrder,
}

/// The accelerometer reading the filter expects given orientation `q`: the
/// reference gravity vector seen in the body frame.
pub open spec fn spec_acc_predicted(q: QuatView) -> Vec3View {
    q_frame_rotation(q, acc_r_view())
}

/// Normalized accelerometer error `e = |acc - predicted| / g`.
pub open spec fn spec_acc_error(q: QuatView, acc: Vec3View) -> int {
    fx_div_spec(v3_norm(v3_sub(acc, spec_acc_predicted(q))), G_FX as int)
}

/// Reference orientation from an accelerometer and a magnetometer reading
/// (tilt-compensated compass): align gravity first, then align the heading.
pub open spec fn spec_q_gm(acc: Vec3View, mag: Vec3View) -> QuatView {
    let q_g = spec_rotate_a_to_b(acc, acc_r_view());
    let mag_b2r = v3_zero_z(q_vector_rotation(q_g, mag));
    let q_e = spec_rotate_a_to_b(mag_b2r, mag_r_view());
    q_mul(q_e, q_g)
}

/// Quaternion-error cross term between the estimate `q` and the reference
/// orientation `q_gm`.
pub open spec fn spec_corr_term(q: QuatView, q_gm: QuatView) -> Vec3View {
    v3_add(v3_sub(v3_scale(q.w, q_gm.v), v3_scale(q_gm.w, q.v)), v3_cross(q_gm.v, q.v))
}

/// The quaternion-based complementary attitude filter.
#[derive(Clone, Copy, PartialEq, Eq, Structural, Debug)]
pub struct AttitudeFilter {
    /// Current unit-quaternion orientation estimate.
    pub q: Quat,
    /// Instantaneous angular-rate correction, consumed by the next `predict`.
    pub gyr_correct: Vec3,
    /// Running integral of the correction signal: the persistent bias
    /// estimate.
    pub gyr_integ: Vec3,
    /// Correction gain `2 / alpha`, fixed at construction.
    pub coef_gyr_c: i64,
    /// Integration gain `beta`, fixed at construction.
    pub coef_integ: i64,
    /// Weak-disturbance threshold.
    pub thr_weak: i64,
    /// Strong-disturbance threshold.
    pub thr_strong: i64,
    /// Fixed sample period.
    pub dt: i64,
    /// Hysteretic disturbance-detector state.
    pub state: DisturbanceState,
}

impl AttitudeFilter {
    /// Well-formedness: all state is within the magnitude caps the
    /// fixed-point arithmetic needs, and the orientation is a nonzero
    /// quaternion.
    pub open spec fn wf(self) -> bool {
        &&& q_in_mag(self.q@, SCALE as int)
        &&& q_norm_sq(self.q@) >= 1
        &&& v3_in_mag(self.gyr_correct@, CORRLIM as int)
        &&& v3_in_mag(self.gyr_integ@, IMAX as int)
        &&& 0 <= self.coef_gyr_c <= CLIM
        &&& -BLIM <= self.coef_integ <= BLIM
        &&& 0 <= self.thr_weak < self.thr_strong <= TLIM
        &&& 0 < self.dt <= SCALE
    }

    /// Construct a filter from the time constant `alpha`, the integration
    /// gain `beta`, the two disturbance thresholds and the sample period,
    /// starting from the identity orientation. Rejects a non-positive
    /// `alpha`, a non-positive `dt`, and thresholds out of order.
    pub fn new(alpha: i64, beta: i64, thr_weak: i64, thr_strong: i64, dt: i64) -> (r: Result<
        AttitudeFilter,
        ConfigError,
    >)
        requires
            alpha <= 0 || alpha >= 8192,
            -BLIM <= beta <= BLIM,
            0 <= thr_weak,
            thr_strong <= TLIM,
            dt <= SCALE,
        ensures
            r is Ok <==> (alpha > 0 && dt > 0 && thr_weak < thr_strong),
            alpha <= 0 ==> (r matches Err(c) && c is NonPositiveAlpha),
            (alpha > 0 && dt <= 0) ==> (r matches Err(c) && c is NonPositiveDt),
            (alpha > 0 && dt > 0 && thr_weak >= thr_strong) ==> (r matches Err(c)
                && c is ThresholdOrder),
            r matches Ok(f) ==> {
                &&& f.q@ == (QuatView { w: SCALE as int, v: Vec3View { x: 0, y: 0, z: 0 } })
                &&& f.gyr_correct@ == (Vec3View { x: 0, y: 0, z: 0 })
                &&& f.gyr_integ@ == (Vec3View { x: 0, y: 0, z: 0 })
                &&& f.coef_gyr_c == fx_div_spec(2 * (SCALE as int), alpha as int)
                &&& f.coef_integ == beta
                &&& f.thr_weak == thr_weak
                &&& f.thr_strong == thr_strong
                &&& f.dt == dt
                &&& f.state is Calm
                &&& f.wf()
            },
    {
        if alpha <= 0 {
            return Err(ConfigError::NonPositiveAlpha);
        }
        if dt <= 0 {
            return Err(ConfigError::NonPositiveDt);
        }
        if thr_weak >= thr_strong {
            return Err(ConfigError::ThresholdOrder);
        }
        let coef: i64 = fx_div(131072, alpha);
        proof {
            lemma_div_pos_is_pos(131072 * (SCALE as int), alpha as int);
            lemma_div_is_ordered_by_denominator(131072 * (SCALE as int), 8192, alpha as int);
        }
        Ok(
            AttitudeFilter {
                q: Quat::identity(),
                gyr_correct: Vec3::zero(),
                gyr_integ: Vec3::zero(),
                coef_gyr_c: coef,
                coef_integ: beta,
                thr_weak,
                thr_strong,
                dt,
                state: DisturbanceState::Calm,
            },
        )
    }

    /// Prediction step: integrate one gyroscope sample, combined with the
    /// current correction term, and renormalize the orientation. If the
    /// integrated quaternion collapses to zero (a numerical degeneracy no
    /// realistic input produces), the orientation is kept unchanged.
    ///
    /// The contract carries the unit-norm invariant: after every renormalized
    /// step the squared norm of the orientation lies between
    /// `(SCALE/2 - 1)^2` and `4 * SCALE^2`.
    pub fn predict(&mut self, gyr: Vec3)
        requires
            old(self).wf(),
            v3_in_mag(gyr@, GLIM as int),
        ensures
            ({
                let omega = v3_add(gyr@, old(self).gyr_correct@);
                let qi = q_integrate(old(self).q@, omega, old(self).dt as int);
                &&& (q_norm_sq(qi) >= 1 ==> final(self).q@ == q_normalize(qi))
                &&& (q_norm_sq(qi) >= 1 ==> q_norm_sq(final(self).q@) >= 1073676289)
                &&& (q_norm_sq(qi) < 1 ==> final(self).q@ == old(self).q@)
            }),
            q_norm_sq(final(self).q@) <= 4 * (SCALE as int) * (SCALE as int),
            final(self).gyr_correct == old(self).gyr_correct,
            final(self).gyr_integ == old(self).gyr_integ,
            final(self).coef_gyr_c == old(self).coef_gyr_c,
            final(self).coef_integ == old(self).coef_integ,
            final(self).thr_weak == old(self).thr_weak,
            final(self).thr_strong == old(self).thr_strong,
            final(self).dt == old(self).dt,
            final(self).state == old(self).state,
            final(self).wf(),
    {
        let omega = gyr.add(self.gyr_correct);
        let qi = self.q.integrate(omega, self.dt);
        let n = qi.norm();
        if n > 0 {
            proof {
                assert(q_norm_sq(qi@) >= 1) by (nonlinear_arith)
                    requires
                        n >= 1,
                        (n as int) * (n as int) <= q_norm_sq(qi@),
                ;
            }
            self.q = qi.normalize();
        } else {
            proof {
                lemma_sq_nonneg(qi@.w);
                lemma_sq_nonneg(qi@.v.x);
                lemma_sq_nonneg(qi@.v.y);
                lemma_sq_nonneg(qi@.v.z);
                lemma_isqrt_zero(q_norm_sq(qi@));
            }
        }
        proof {
            lemma_sq_bound(self.q.w as int, SCALE as int);
            lemma_sq_bound(self.q.v.x as int, SCALE as int);
            lemma_sq_bound(self.q.v.y as int, SCALE as int);
            lemma_sq_bound(self.q.v.z as int, SCALE as int);
        }
    }

    /// Correction step: detect disturbances, build the reference orientation
    /// from the accelerometer and magnetometer, and recompute the correction
    /// angular rate and the bias integral.
    ///
    /// The bias integral grows without bound in the worst case, so the
    /// fixed-point arithmetic asks the caller to keep it under `ILIM`
    /// (an enormous accumulated drift no real sensor stream approaches).
    #[verifier::rlimit(100)]
    pub fn correct(&mut self, acc: Vec3, mag: Vec3)
        requires
            old(self).wf(),
            v3_in_mag(acc@, VLIM as int),
            v3_in_mag(mag@, VLIM as int),
            v3_in_mag(old(self).gyr_integ@, ILIM as int),
        ensures
            ({
                let e = spec_acc_error(old(self).q@, acc@);
                let cls = spec_classify(
                    old(self).state,
                    e,
                    old(self).thr_weak as int,
                    old(self).thr_strong as int,
                );
                let acc_used = if cls.suppress_acc {
                    spec_acc_predicted(old(self).q@)
                } else {
                    acc@
                };
                let coef = if cls.halve_gain {
                    fx_mul_spec(old(self).coef_gyr_c as int, HALF as int)
                } else {
                    old(self).coef_gyr_c as int
                };
                let q_gm = spec_q_gm(acc_used, mag@);
                let raw = v3_scale(coef, spec_corr_term(old(self).q@, q_gm));
                let corr0 = if q_dot(old(self).q@, q_gm) < 0 {
                    v3_neg(raw)
                } else {
                    raw
                };
                let integ1 = v3_add(old(self).gyr_integ@, v3_scale(old(self).dt as int, corr0));
                let corr1 = v3_add(corr0, v3_scale(old(self).coef_integ as int, integ1));
                &&& final(self).state == cls.state
                &&& final(self).gyr_integ@ == integ1
                &&& final(self).gyr_correct@ == corr1
            }),
            final(self).q == old(self).q,
            final(self).coef_gyr_c == old(self).coef_gyr_c,
            final(self).coef_integ == old(self).coef_integ,
            final(self).thr_weak == old(self).thr_weak,
            final(self).thr_strong == old(self).thr_strong,
            final(self).dt == old(self).dt,
            final(self).wf(),
    {
        // Disturbance detection on the raw accelerometer sample.
        let acc_pred = self.q.frame_rotation(acc_r());
        let diff = acc.sub(acc_pred);
        let nv = diff.norm();
        let e = fx_div(nv, G_FX);
        proof {
            lemma_div_pos_is_pos((nv as int) * (SCALE as int), G_FX as int);
        }
        let cls = classify(self.state, e, self.thr_weak, self.thr_strong);
        let acc_used = if cls.suppress_acc {
            acc_pred
        } else {
            acc
        };
        let coef = if cls.halve_gain {
            proof {
                lemma_fx_mul_bound(self.coef_gyr_c as int, HALF as int, CLIM as int, HALF as int);
            }
            fx_mul(self.coef_gyr_c, HALF)
        } else {
            self.coef_gyr_c
        };
        // Reference orientation from the (possibly suppressed) accelerometer
        // and the magnetometer.
        let q_gm = get_q_gm(acc_used, mag);
        // Correction angular rate toward the reference orientation.
        proof {
            lemma_v3_scale_bound(self.q.w as int, q_gm.v@, SCALE as int, 262144);
            lemma_v3_scale_bound(q_gm.w as int, self.q.v@, 262144, SCALE as int);
            lemma_v3_cross_bound(q_gm.v@, self.q.v@, 262144, SCALE as int);
        }
        let term = q_gm.v.scale(self.q.w).sub(self.q.v.scale(q_gm.w)).add(q_gm.v.cross(self.q.v));
        proof {
            lemma_v3_scale_bound(coef as int, term@, CLIM as int, 1048576);
        }
        let raw = term.scale(coef);
        let d = self.q.dot(q_gm);
        let corr0 = if d < 0 {
            raw.neg()
        } else {
            raw
        };
        // Update the bias integral, then fold it back into the correction.
        proof {
            lemma_v3_scale_bound(self.dt as int, corr0@, SCALE as int, 16777216);
        }
        let integ1 = self.gyr_integ.add(corr0.scale(self.dt));
        proof {
            lemma_v3_scale_bound(self.coef_integ as int, integ1@, BLIM as int, 83886080);
        }
        let corr1 = corr0.add(integ1.scale(self.coef_integ));
        self.state = cls.state;
        self.gyr_integ = integ1;
        self.gyr_correct = corr1;
    }

    /// Current orientation estimate.
    pub fn orientation(&self) -> (r: Quat)
        ensures
            r == self.q,
    {
        self.q
    }

    /// Current bias integral (the persistent bias estimate, before the
    /// integration gain is applied).
    pub fn bias_integral(&self) -> (r: Vec3)
        ensures
            r == self.gyr_integ,
    {
        self.gyr_integ
    }

    /// The integration gain `beta`.
    pub fn integration_gain(&self) -> (r: i64)
        ensures
            r == self.coef_integ,
    {
        self.coef_integ
    }

    /// Current disturbance-detector state.
    pub fn disturbance_state(&self) -> (r: DisturbanceState)
        ensures
            r == self.state,
    {
        self.state
    }
}

/// Reference orientation from a body-frame accelerometer and magnetometer
/// reading: align the accelerometer with reference gravity, rotate the
/// magnetometer into the reference frame with that rotation, remove its
/// vertical component, align the rest with the reference field, and compose.
pub fn get_q_gm(acc: Vec3, mag: Vec3) -> (r: Quat)
    requires
        v3_in_mag(acc@, 33554432),
        v3_in_mag(mag@, VLIM as int),
    ensures
        r@ == spec_q_gm(acc@, mag@),
        q_in_mag(r@, 262144),
{
    let q_g = rotate_a_to_b(acc, acc_r());
    let mag_b2r = q_g.vector_rotation(mag).with_zero_z();
    let q_e = rotate_a_to_b(mag_b2r, mag_r());
    proof {
        lemma_q_mul_bound(q_e@, q_g@, SCALE as int, SCALE as int);
    }
    q_e.mul(q_g)
}

} // verus!
