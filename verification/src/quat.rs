//! Fixed-point quaternions.
//!
//! A quaternion is a fixed-point scalar part plus a `Vec3` vector part. The
//! view is the quadruple of mathematical integers; every operation's contract
//! gives the exact view of its result. An orientation quaternion represents a
//! rotation from the reference frame to the body frame.

use vstd::prelude::*;
use crate::fixed::{SCALE, LIM, HALF, fx_mul_spec, fx_div_spec, fx_mul, fx_div};
use crate::fixed::{is_isqrt, sqrt_floor, isqrt, lemma_isqrt_zero};
use crate::fixed::lemma_fx_mul_bound;
use crate::vec3::{Vec3, Vec3View, NLIM};
use crate::vec3::{v3_in_mag, v3_add, v3_neg, v3_scale, v3_dot, v3_cross, v3_norm_sq};
use crate::vec3::{lemma_v3_dot_bound, lemma_v3_cross_bound, lemma_v3_scale_bound};
use crate::vec3::{lemma_sq_bound, lemma_comp_le_norm, lemma_unit_div_bound};

verus! {

/// Magnitude cap accepted by quaternion multiplication (2^26).
pub const MLIM: i64 = 67108864;

/// A quaternion: scalar part `w` plus vector part `v`.
#[derive(Clone, Copy, PartialEq, Eq, Structural, Debug)]
pub struct Quat {
    pub w: i64,
    pub v: Vec3,
}

/// Mathematical value of a `Quat`.
pub struct QuatView {
    pub w: int,
    pub v: Vec3View,
}

impl View for Quat {
    type V = QuatView;

    open spec fn view(&self) -> QuatView {
        QuatView { w: self.w as int, v: self.v@ }
    }
}

/// Every component of `q` has magnitude at most `m`.
pub open spec fn q_in_mag(q: QuatView, m: int) -> bool {
    &&& -m <= q.w <= m
    &&& v3_in_mag(q.v, m)
}

/// Conjugate: the vector part negated.
pub open spec fn q_conj(a: QuatView) -> QuatView {
    QuatView { w: a.w, v: v3_neg(a.v) }
}

/// Hamilton product in fixed-point arithmetic.
pub open spec fn q_mul(a: QuatView, b: QuatView) -> QuatView {
    QuatView {
        w: fx_mul_spec(a.w, b.w) - v3_dot(a.v, b.v),
        v: v3_add(v3_add(v3_scale(a.w, b.v), v3_scale(b.w, a.v)), v3_cross(a.v, b.v)),
    }
}

/// Four-component fixed-point dot product.
pub open spec fn q_dot(a: QuatView, b: QuatView) -> int {
    fx_mul_spec(a.w, b.w) + v3_dot(a.v, b.v)
}

/// Squared norm in raw integer units.
pub open spec fn q_norm_sq(a: QuatView) -> int {
    a.w * a.w + v3_norm_sq(a.v)
}

/// Norm: the integer square root of the squared norm.
pub open spec fn q_norm(a: QuatView) -> int {
    sqrt_floor(q_norm_sq(a))
}

/// Normalization to a fixed-point unit quaternion (rounded toward zero).
pub open spec fn q_normalize(a: QuatView) -> QuatView {
    QuatView {
        w: fx_div_spec(a.w, q_norm(a)),
        v: Vec3View {
            x: fx_div_spec(a.v.x, q_norm(a)),
            y: fx_div_spec(a.v.y, q_norm(a)),
            z: fx_div_spec(a.v.z, q_norm(a)),
        },
    }
}

/// Body-frame view of a reference-frame vector: the sandwich product
/// `q* (0, v) q`.
pub open spec fn q_frame_rotation(q: QuatView, v: Vec3View) -> Vec3View {
    q_mul(q_mul(q_conj(q), QuatView { w: 0, v }), q).v
}

/// Reference-frame view of a body-frame vector: the sandwich product
/// `q (0, v) q*`.
pub open spec fn q_vector_rotation(q: QuatView, v: Vec3View) -> Vec3View {
    q_mul(q_mul(q, QuatView { w: 0, v }), q_conj(q)).v
}

/// One first-order integration step:
/// `q' = q + (dt/2) * (q  (0, omega))`, written in closed form.
pub open spec fn q_integrate(q: QuatView, omega: Vec3View, dt: int) -> QuatView {
    let h = fx_mul_spec(dt, HALF as int);
    let dw = -v3_dot(q.v, omega);
    let dv = v3_add(v3_scale(q.w, omega), v3_cross(q.v, omega));
    QuatView {
        w: q.w + fx_mul_spec(h, dw),
        v: v3_add(q.v, v3_scale(h, dv)),
    }
}

/// Magnitude bound for the Hamilton product.
pub proof fn lemma_q_mul_bound(a: QuatView, b: QuatView, am: int, bm: int)
    requires
        q_in_mag(a, am),
        q_in_mag(b, bm),
        0 <= am,
        0 <= bm,
    ensures
        q_in_mag(q_mul(a, b), 4 * ((am * bm) / (SCALE as int))),
{
    lemma_fx_mul_bound(a.w, b.w, am, bm);
    lemma_v3_dot_bound(a.v, b.v, am, bm);
    lemma_v3_scale_bound(a.w, b.v, am, bm);
    lemma_v3_scale_bound(b.w, a.v, bm, am);
    lemma_v3_cross_bound(a.v, b.v, am, bm);
    assert(am * bm == bm * am) by (nonlinear_arith);
}

impl Quat {
    /// The identity rotation.
    pub fn identity() -> (r: Quat)
        ensures
            r@ == (QuatView { w: SCALE as int, v: Vec3View { x: 0, y: 0, z: 0 } }),
    {
        Quat { w: SCALE, v: Vec3 { x: 0, y: 0, z: 0 } }
    }

    /// Conjugate: the vector part negated.
    pub fn conj(self) -> (r: Quat)
        requires
            q_in_mag(self@, LIM as int),
        ensures
            r@ == q_conj(self@),
    {
        Quat { w: self.w, v: self.v.neg() }
    }

    /// Hamilton product in fixed-point arithmetic.
    pub fn mul(self, b: Quat) -> (r: Quat)
        requires
            q_in_mag(self@, MLIM as int),
            q_in_mag(b@, MLIM as int),
        ensures
            r@ == q_mul(self@, b@),
    {
        proof {
            lemma_fx_mul_bound(self.w as int, b.w as int, MLIM as int, MLIM as int);
            lemma_v3_dot_bound(self.v@, b.v@, MLIM as int, MLIM as int);
            lemma_v3_scale_bound(self.w as int, b.v@, MLIM as int, MLIM as int);
            lemma_v3_scale_bound(b.w as int, self.v@, MLIM as int, MLIM as int);
            lemma_v3_cross_bound(self.v@, b.v@, MLIM as int, MLIM as int);
        }
        let w = fx_mul(self.w, b.w) - self.v.dot(b.v);
        let vv = b.v.scale(self.w).add(self.v.scale(b.w)).add(self.v.cross(b.v));
        Quat { w, v: vv }
    }

    /// Four-component fixed-point dot product.
    pub fn dot(self, b: Quat) -> (r: i64)
        requires
            q_in_mag(self@, NLIM as int),
            q_in_mag(b@, NLIM as int),
        ensures
            r == q_dot(self@, b@),
    {
        proof {
            lemma_fx_mul_bound(self.w as int, b.w as int, NLIM as int, NLIM as int);
            lemma_v3_dot_bound(self.v@, b.v@, NLIM as int, NLIM as int);
        }
        fx_mul(self.w, b.w) + self.v.dot(b.v)
    }

    /// Norm: the integer square root of the squared norm.
    pub fn norm(self) -> (r: i64)
        requires
            q_in_mag(self@, NLIM as int),
        ensures
            r == q_norm(self@),
            is_isqrt(q_norm_sq(self@), r as int),
            0 <= r <= 4294967295,
    {
        proof {
            lemma_sq_bound(self.w as int, NLIM as int);
            lemma_sq_bound(self.v.x as int, NLIM as int);
            lemma_sq_bound(self.v.y as int, NLIM as int);
            lemma_sq_bound(self.v.z as int, NLIM as int);
        }
        let ww: u64 = ((self.w as i128) * (self.w as i128)) as u64;
        let xx: u64 = ((self.v.x as i128) * (self.v.x as i128)) as u64;
        let yy: u64 = ((self.v.y as i128) * (self.v.y as i128)) as u64;
        let zz: u64 = ((self.v.z as i128) * (self.v.z as i128)) as u64;
        let s: u64 = ww + xx + yy + zz;
        isqrt(s) as i64
    }

    /// Normalization to a unit quaternion. Besides the exact result value,
    /// the contract states the unit-norm invariant: every component stays
    /// within one fixed-point unit, and the squared norm stays at least
    /// `(SCALE/2 - 1)^2`, so a normalized quaternion is never close to zero.
    pub fn normalize(self) -> (r: Quat)
        requires
            q_in_mag(self@, NLIM as int),
            q_norm_sq(self@) >= 1,
        ensures
            r@ == q_normalize(self@),
            q_in_mag(r@, SCALE as int),
            q_norm_sq(r@) >= 1073676289,
    {
        let n: i64 = self.norm();
        proof {
            let ni = n as int;
            let nsq = q_norm_sq(self@);
            assert(ni >= 1) by (nonlinear_arith)
                requires
                    0 <= ni,
                    ni * ni <= nsq,
                    nsq < (ni + 1) * (ni + 1),
                    nsq >= 1,
            ;
            lemma_sq_bound(self.w as int, NLIM as int);
            lemma_sq_bound(self.v.x as int, NLIM as int);
            lemma_sq_bound(self.v.y as int, NLIM as int);
            lemma_sq_bound(self.v.z as int, NLIM as int);
            lemma_comp_le_norm(self.w as int, ni, nsq);
            lemma_comp_le_norm(self.v.x as int, ni, nsq);
            lemma_comp_le_norm(self.v.y as int, ni, nsq);
            lemma_comp_le_norm(self.v.z as int, ni, nsq);
            lemma_unit_div_bound(self.w as int, ni);
            lemma_unit_div_bound(self.v.x as int, ni);
            lemma_unit_div_bound(self.v.y as int, ni);
            lemma_unit_div_bound(self.v.z as int, ni);
            lemma_normalized_not_small(self@, ni);
        }
        Quat {
            w: fx_div(self.w, n),
            v: Vec3 { x: fx_div(self.v.x, n), y: fx_div(self.v.y, n), z: fx_div(self.v.z, n) },
        }
    }

    /// Body-frame view of a reference-frame vector (sandwich product
    /// `q* (0, v) q`).
    pub fn frame_rotation(self, v: Vec3) -> (r: Vec3)
        requires
            q_in_mag(self@, SCALE as int),
            v3_in_mag(v@, 2097152),
        ensures
            r@ == q_frame_rotation(self@, v@),
            v3_in_mag(r@, 33554432),
    {
        proof {
            lemma_q_mul_bound(q_conj(self@), QuatView { w: 0, v: v@ }, SCALE as int, 2097152);
            lemma_q_mul_bound(
                q_mul(q_conj(self@), QuatView { w: 0, v: v@ }),
                self@,
                8388608,
                SCALE as int,
            );
        }
        let t = self.conj().mul(Quat { w: 0, v });
        let u = t.mul(self);
        u.v
    }

    /// Reference-frame view of a body-frame vector (sandwich product
    /// `q (0, v) q*`).
    pub fn vector_rotation(self, v: Vec3) -> (r: Vec3)
        requires
            q_in_mag(self@, SCALE as int),
            v3_in_mag(v@, 2097152),
        ensures
            r@ == q_vector_rotation(self@, v@),
            v3_in_mag(r@, 33554432),
    {
        proof {
            lemma_q_mul_bound(self@, QuatView { w: 0, v: v@ }, SCALE as int, 2097152);
            lemma_q_mul_bound(
                q_mul(self@, QuatView { w: 0, v: v@ }),
                q_conj(self@),
                8388608,
                SCALE as int,
            );
        }
        let t = self.mul(Quat { w: 0, v });
        let u = t.mul(self.conj());
        u.v
    }

    /// One first-order integration step with angular rate `omega` over the
    /// sample period `dt`.
    pub fn integrate(self, omega: Vec3, dt: i64) -> (r: Quat)
        requires
            q_in_mag(self@, SCALE as int),
            v3_in_mag(omega@, 134217728),
            0 < dt <= SCALE,
        ensures
            r@ == q_integrate(self@, omega@, dt as int),
            q_in_mag(r@, 268435456),
    {
        proof {
            lemma_fx_mul_bound(dt as int, HALF as int, SCALE as int, HALF as int);
            lemma_v3_dot_bound(self.v@, omega@, SCALE as int, 134217728);
            lemma_v3_scale_bound(self.w as int, omega@, SCALE as int, 134217728);
            lemma_v3_cross_bound(self.v@, omega@, SCALE as int, 134217728);
            let h = fx_mul_spec(dt as int, HALF as int);
            let dw = -v3_dot(self.v@, omega@);
            let dv = v3_add(
                v3_scale(self.w as int, omega@),
                v3_cross(self.v@, omega@),
            );
            lemma_fx_mul_bound(h, dw, HALF as int, 402653184);
            lemma_v3_scale_bound(h, dv, HALF as int, 402653184);
        }
        let h: i64 = fx_mul(dt, HALF);
        let dw: i64 = -(self.v.dot(omega));
        let dv: Vec3 = omega.scale(self.w).add(self.v.cross(omega));
        Quat { w: self.w + fx_mul(h, dw), v: self.v.add(dv.scale(h)) }
    }
}

/// The shortest-arc rotation taking direction `a` to direction `b`:
/// `normalize((1 + an . bn, an x bn))` over the normalized inputs. Edge
/// cases get a defined fallback: a zero input vector gives the identity, and
/// antiparallel inputs (where the axis is ambiguous) give a half-turn about
/// an axis orthogonal to `a`.
pub open spec fn spec_rotate_a_to_b(a: Vec3View, b: Vec3View) -> QuatView {
    if v3_norm_sq(a) == 0 || v3_norm_sq(b) == 0 {
        QuatView { w: SCALE as int, v: Vec3View { x: 0, y: 0, z: 0 } }
    } else {
        let an = crate::vec3::v3_normalize(a);
        let bn = crate::vec3::v3_normalize(b);
        let w = SCALE + v3_dot(an, bn);
        if w >= 1 {
            q_normalize(QuatView { w, v: v3_cross(an, bn) })
        } else {
            if an.x != 0 || an.y != 0 {
                QuatView {
                    w: 0,
                    v: crate::vec3::v3_normalize(Vec3View { x: -an.y, y: an.x, z: 0 }),
                }
            } else {
                QuatView { w: 0, v: Vec3View { x: SCALE as int, y: 0, z: 0 } }
            }
        }
    }
}

/// The shortest-arc rotation taking direction `a` to direction `b`, with the
/// defined fallbacks of `spec_rotate_a_to_b` for zero and antiparallel
/// inputs.
pub fn rotate_a_to_b(a: Vec3, b: Vec3) -> (r: Quat)
    requires
        v3_in_mag(a@, NLIM as int),
        v3_in_mag(b@, NLIM as int),
    ensures
        r@ == spec_rotate_a_to_b(a@, b@),
        q_in_mag(r@, SCALE as int),
{
    proof {
        lemma_sq_bound(a.x as int, NLIM as int);
        lemma_sq_bound(a.y as int, NLIM as int);
        lemma_sq_bound(a.z as int, NLIM as int);
        lemma_sq_bound(b.x as int, NLIM as int);
        lemma_sq_bound(b.y as int, NLIM as int);
        lemma_sq_bound(b.z as int, NLIM as int);
    }
    let na = a.norm();
    let nb = b.norm();
    if na == 0 || nb == 0 {
        proof {
            if na == 0 {
                lemma_isqrt_zero(v3_norm_sq(a@));
            } else {
                lemma_isqrt_zero(v3_norm_sq(b@));
            }
        }
        return Quat::identity();
    }
    proof {
        assert(v3_norm_sq(a@) >= 1) by (nonlinear_arith)
            requires
                na >= 1,
                (na as int) * (na as int) <= v3_norm_sq(a@),
        ;
        assert(v3_norm_sq(b@) >= 1) by (nonlinear_arith)
            requires
                nb >= 1,
                (nb as int) * (nb as int) <= v3_norm_sq(b@),
        ;
    }
    let an = a.normalize();
    let bn = b.normalize();
    proof {
        lemma_v3_dot_bound(an@, bn@, SCALE as int, SCALE as int);
    }
    let d = an.dot(bn);
    let w = SCALE + d;
    if w >= 1 {
        proof {
            lemma_v3_cross_bound(an@, bn@, SCALE as int, SCALE as int);
            lemma_sq_nonneg(v3_cross(an@, bn@).x);
            lemma_sq_nonneg(v3_cross(an@, bn@).y);
            lemma_sq_nonneg(v3_cross(an@, bn@).z);
            assert((w as int) * (w as int) >= 1) by (nonlinear_arith)
                requires
                    w >= 1,
            ;
        }
        let qu = Quat { w, v: an.cross(bn) };
        qu.normalize()
    } else {
        if an.x != 0 || an.y != 0 {
            proof {
                lemma_sq_nonneg(an@.x);
                lemma_sq_nonneg(an@.y);
                assert((-(an@.y)) * (-(an@.y)) == (an@.y) * (an@.y)) by (nonlinear_arith);
                if an.x != 0 {
                    assert((an.x as int) * (an.x as int) >= 1) by (nonlinear_arith)
                        requires
                            an.x as int != 0,
                    ;
                } else {
                    assert((an.y as int) * (an.y as int) >= 1) by (nonlinear_arith)
                        requires
                            an.y as int != 0,
                    ;
                }
            }
            let axis = Vec3 { x: -an.y, y: an.x, z: 0 }.normalize();
            Quat { w: 0, v: axis }
        } else {
            Quat { w: 0, v: Vec3 { x: SCALE, y: 0, z: 0 } }
        }
    }
}

/// After division by the norm, at least one component keeps magnitude at
/// least `SCALE/2 - 1`, so the squared norm stays at least
/// `(SCALE/2 - 1)^2 = 1073676289`.
proof fn lemma_normalized_not_small(a: QuatView, n: int)
    requires
        1 <= n,
        is_isqrt(q_norm_sq(a), n),
        -n <= a.w <= n,
        -n <= a.v.x <= n,
        -n <= a.v.y <= n,
        -n <= a.v.z <= n,
    ensures
        q_norm_sq(q_normalize(a)) >= 1073676289,
{
    assert(n * n >= 1) by (nonlinear_arith)
        requires
            n >= 1,
    ;
    crate::fixed::lemma_sqrt_floor(q_norm_sq(a));
    crate::fixed::lemma_isqrt_unique(q_norm_sq(a), n, sqrt_floor(q_norm_sq(a)));
    let aw = abs1(a.w);
    let ax = abs1(a.v.x);
    let ay = abs1(a.v.y);
    let az = abs1(a.v.z);
    assert(2 * aw >= n || 2 * ax >= n || 2 * ay >= n || 2 * az >= n) by (nonlinear_arith)
        requires
            aw == abs1(a.w),
            ax == abs1(a.v.x),
            ay == abs1(a.v.y),
            az == abs1(a.v.z),
            n * n <= q_norm_sq(a),
            q_norm_sq(a) == a.w * a.w + a.v.x * a.v.x + a.v.y * a.v.y + a.v.z * a.v.z,
            1 <= n,
    ;
    let r = q_normalize(a);
    lemma_sq_nonneg(r.w);
    lemma_sq_nonneg(r.v.x);
    lemma_sq_nonneg(r.v.y);
    lemma_sq_nonneg(r.v.z);
    if 2 * aw >= n {
        lemma_half_div_abs(a.w, n);
    } else if 2 * ax >= n {
        lemma_half_div_abs(a.v.x, n);
    } else if 2 * ay >= n {
        lemma_half_div_abs(a.v.y, n);
    } else {
        lemma_half_div_abs(a.v.z, n);
    }
}

/// Magnitude of an integer.
pub open spec fn abs1(c: int) -> int {
    if c >= 0 {
        c
    } else {
        -c
    }
}

pub proof fn lemma_sq_nonneg(c: int)
    ensures
        c * c >= 0,
{
    assert(c * c >= 0) by (nonlinear_arith);
}

/// A component of magnitude at least half the norm keeps, after division by
/// the norm, a square of at least `(SCALE/2 - 1)^2`.
proof fn lemma_half_div_abs(c: int, n: int)
    requires
        1 <= n,
        -n <= c <= n,
        2 * abs1(c) >= n,
    ensures
        fx_div_spec(c, n) * fx_div_spec(c, n) >= 1073676289,
{
    if c >= 0 {
        lemma_half_div(c, n);
        let d = fx_div_spec(c, n);
        assert(d * d >= 1073676289) by (nonlinear_arith)
            requires
                d >= 32767,
        ;
    } else {
        lemma_half_div(-c, n);
        let d = fx_div_spec(c, n);
        assert(d == -fx_div_spec(-c, n));
        assert(d * d >= 1073676289) by (nonlinear_arith)
            requires
                d <= -32767,
        ;
    }
}

/// A nonnegative component of magnitude at least half the norm divides to at
/// least `SCALE/2 - 1`.
proof fn lemma_half_div(c: int, n: int)
    requires
        1 <= n,
        0 <= c,
        2 * c >= n,
    ensures
        fx_div_spec(c, n) >= 32767,
{
    let p = c * (SCALE as int);
    assert(p >= 0) by (nonlinear_arith)
        requires
            c >= 0,
            p == c * 65536,
    ;
    vstd::arithmetic::div_mod::lemma_fundamental_div_mod(p, n);
    assert(p / n >= 32767) by (nonlinear_arith)
        requires
            p == n * (p / n) + (p % n),
            0 <= p % n < n,
            2 * c >= n,
            1 <= n,
            p == c * 65536,
    ;
}

} // verus!
