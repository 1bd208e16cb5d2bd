//! Fixed-point 3-vectors.
//!
//! Components are fixed-point values (see `fixed::SCALE`). The view of a
//! vector is its triple of mathematical integers, and every operation's
//! contract gives the exact view of its result.

use vstd::prelude::*;
use crate::fixed::{SCALE, LIM, fx_mul_spec, fx_div_spec, fx_mul, fx_div};
use crate::fixed::{is_isqrt, sqrt_floor, isqrt};
use crate::fixed::{lemma_fx_mul_bound, lemma_div_trunc_bound, lemma_mul_div_exact};

verus! {

/// Magnitude cap accepted by the norm-related operations (2^31 - 1): the sum
/// of three squares of such components stays inside `u64`.
pub const NLIM: i64 = 2147483647;

/// A 3-vector of fixed-point components.
#[derive(Clone, Copy, PartialEq, Eq, Structural, Debug)]
pub struct Vec3 {
    pub x: i64,
    pub y: i64,
    pub z: i64,
}

/// Mathematical value of a `Vec3`: a triple of unbounded integers.
pub struct Vec3View {
    pub x: int,
    pub y: int,
    pub z: int,
}

impl View for Vec3 {
    type V = Vec3View;

    open spec fn view(&self) -> Vec3View {
        Vec3View { x: self.x as int, y: self.y as int, z: self.z as int }
    }
}

/// Every component of `v` has magnitude at most `m`.
pub open spec fn v3_in_mag(v: Vec3View, m: int) -> bool {
    &&& -m <= v.x <= m
    &&& -m <= v.y <= m
    &&& -m <= v.z <= m
}

/// Componentwise sum.
pub open spec fn v3_add(a: Vec3View, b: Vec3View) -> Vec3View {
    Vec3View { x: a.x + b.x, y: a.y + b.y, z: a.z + b.z }
}

/// Componentwise difference.
pub open spec fn v3_sub(a: Vec3View, b: Vec3View) -> Vec3View {
    Vec3View { x: a.x - b.x, y: a.y - b.y, z: a.z - b.z }
}

/// Componentwise negation.
pub open spec fn v3_neg(a: Vec3View) -> Vec3View {
    Vec3View { x: -a.x, y: -a.y, z: -a.z }
}

/// Fixed-point scaling.
pub open spec fn v3_scale(k: int, a: Vec3View) -> Vec3View {
    Vec3View { x: fx_mul_spec(k, a.x), y: fx_mul_spec(k, a.y), z: fx_mul_spec(k, a.z) }
}

/// Fixed-point dot product.
pub open spec fn v3_dot(a: Vec3View, b: Vec3View) -> int {
    fx_mul_spec(a.x, b.x) + fx_mul_spec(a.y, b.y) + fx_mul_spec(a.z, b.z)
}

/// Fixed-point cross product.
pub open spec fn v3_cross(a: Vec3View, b: Vec3View) -> Vec3View {
    Vec3View {
        x: fx_mul_spec(a.y, b.z) - fx_mul_spec(a.z, b.y),
        y: fx_mul_spec(a.z, b.x) - fx_mul_spec(a.x, b.z),
        z: fx_mul_spec(a.x, b.y) - fx_mul_spec(a.y, b.x),
    }
}

/// The same vector with its vertical (z) component removed.
pub open spec fn v3_zero_z(a: Vec3View) -> Vec3View {
    Vec3View { x: a.x, y: a.y, z: 0 }
}

/// Squared Euclidean norm (in raw integer units, i.e. at twice the
/// fixed-point scale).
pub open spec fn v3_norm_sq(a: Vec3View) -> int {
    a.x * a.x + a.y * a.y + a.z * a.z
}

/// Euclidean norm: the integer square root of the squared norm.
pub open spec fn v3_norm(a: Vec3View) -> int {
    sqrt_floor(v3_norm_sq(a))
}

/// Normalization to a fixed-point unit vector (rounded toward zero).
pub open spec fn v3_normalize(a: Vec3View) -> Vec3View {
    Vec3View {
        x: fx_div_spec(a.x, v3_norm(a)),
        y: fx_div_spec(a.y, v3_norm(a)),
        z: fx_div_spec(a.z, v3_norm(a)),
    }
}

/// Magnitude bound for a fixed-point dot product.
pub proof fn lemma_v3_dot_bound(a: Vec3View, b: Vec3View, am: int, bm: int)
    requires
        v3_in_mag(a, am),
        v3_in_mag(b, bm),
        0 <= am,
        0 <= bm,
    ensures
        -(3 * ((am * bm) / (SCALE as int))) <= v3_dot(a, b) <= 3 * ((am * bm) / (SCALE as int)),
{
    lemma_fx_mul_bound(a.x, b.x, am, bm);
    lemma_fx_mul_bound(a.y, b.y, am, bm);
    lemma_fx_mul_bound(a.z, b.z, am, bm);
}

/// Magnitude bound for a fixed-point cross product.
pub proof fn lemma_v3_cross_bound(a: Vec3View, b: Vec3View, am: int, bm: int)
    requires
        v3_in_mag(a, am),
        v3_in_mag(b, bm),
        0 <= am,
        0 <= bm,
    ensures
        v3_in_mag(v3_cross(a, b), 2 * ((am * bm) / (SCALE as int))),
{
    lemma_fx_mul_bound(a.y, b.z, am, bm);
    lemma_fx_mul_bound(a.z, b.y, am, bm);
    lemma_fx_mul_bound(a.z, b.x, am, bm);
    lemma_fx_mul_bound(a.x, b.z, am, bm);
    lemma_fx_mul_bound(a.x, b.y, am, bm);
    lemma_fx_mul_bound(a.y, b.x, am, bm);
}

/// Magnitude bound for fixed-point scaling.
pub proof fn lemma_v3_scale_bound(k: int, a: Vec3View, km: int, am: int)
    requires
        -km <= k <= km,
        v3_in_mag(a, am),
        0 <= km,
        0 <= am,
    ensures
        v3_in_mag(v3_scale(k, a), (km * am) / (SCALE as int)),
{
    lemma_fx_mul_bound(k, a.x, km, am);
    lemma_fx_mul_bound(k, a.y, km, am);
    lemma_fx_mul_bound(k, a.z, km, am);
}

impl Vec3 {
    /// The zero vector.
    pub fn zero() -> (r: Vec3)
        ensures
            r@ == (Vec3View { x: 0, y: 0, z: 0 }),
    {
        Vec3 { x: 0, y: 0, z: 0 }
    }

    /// Componentwise sum.
    pub fn add(self, b: Vec3) -> (r: Vec3)
        requires
            v3_in_mag(self@, LIM as int),
            v3_in_mag(b@, LIM as int),
        ensures
            r@ == v3_add(self@, b@),
    {
        Vec3 { x: self.x + b.x, y: self.y + b.y, z: self.z + b.z }
    }

    /// Componentwise difference.
    pub fn sub(self, b: Vec3) -> (r: Vec3)
        requires
            v3_in_mag(self@, LIM as int),
            v3_in_mag(b@, LIM as int),
        ensures
            r@ == v3_sub(self@, b@),
    {
        Vec3 { x: self.x - b.x, y: self.y - b.y, z: self.z - b.z }
    }

    /// Componentwise negation.
    pub fn neg(self) -> (r: Vec3)
        requires
            v3_in_mag(self@, LIM as int),
        ensures
            r@ == v3_neg(self@),
    {
        Vec3 { x: -self.x, y: -self.y, z: -self.z }
    }

    /// Fixed-point scaling by `k`.
    pub fn scale(self, k: i64) -> (r: Vec3)
        requires
            v3_in_mag(self@, LIM as int),
            -LIM <= k <= LIM,
        ensures
            r@ == v3_scale(k as int, self@),
    {
        Vec3 { x: fx_mul(k, self.x), y: fx_mul(k, self.y), z: fx_mul(k, self.z) }
    }

    /// Fixed-point dot product.
    pub fn dot(self, b: Vec3) -> (r: i64)
        requires
            v3_in_mag(self@, NLIM as int),
            v3_in_mag(b@, NLIM as int),
        ensures
            r == v3_dot(self@, b@),
    {
        proof {
            lemma_v3_dot_bound(self@, b@, NLIM as int, NLIM as int);
            lemma_fx_mul_bound(self.x as int, b.x as int, NLIM as int, NLIM as int);
            lemma_fx_mul_bound(self.y as int, b.y as int, NLIM as int, NLIM as int);
            lemma_fx_mul_bound(self.z as int, b.z as int, NLIM as int, NLIM as int);
        }
        fx_mul(self.x, b.x) + fx_mul(self.y, b.y) + fx_mul(self.z, b.z)
    }

    /// Fixed-point cross product.
    pub fn cross(self, b: Vec3) -> (r: Vec3)
        requires
            v3_in_mag(self@, NLIM as int),
            v3_in_mag(b@, NLIM as int),
        ensures
            r@ == v3_cross(self@, b@),
    {
        proof {
            lemma_fx_mul_bound(self.y as int, b.z as int, NLIM as int, NLIM as int);
            lemma_fx_mul_bound(self.z as int, b.y as int, NLIM as int, NLIM as int);
            lemma_fx_mul_bound(self.z as int, b.x as int, NLIM as int, NLIM as int);
            lemma_fx_mul_bound(self.x as int, b.z as int, NLIM as int, NLIM as int);
            lemma_fx_mul_bound(self.x as int, b.y as int, NLIM as int, NLIM as int);
            lemma_fx_mul_bound(self.y as int, b.x as int, NLIM as int, NLIM as int);
        }
        Vec3 {
            x: fx_mul(self.y, b.z) - fx_mul(self.z, b.y),
            y: fx_mul(self.z, b.x) - fx_mul(self.x, b.z),
            z: fx_mul(self.x, b.y) - fx_mul(self.y, b.x),
        }
    }

    /// The same vector with its vertical (z) component removed, as tilt
    /// compensation does.
    pub fn with_zero_z(self) -> (r: Vec3)
        ensures
            r@ == v3_zero_z(self@),
    {
        Vec3 { x: self.x, y: self.y, z: 0 }
    }

    /// Euclidean norm: the integer square root of the squared norm.
    pub fn norm(self) -> (r: i64)
        requires
            v3_in_mag(self@, NLIM as int),
        ensures
            r == v3_norm(self@),
            is_isqrt(v3_norm_sq(self@), r as int),
            0 <= r <= 4294967295,
    {
        proof {
            lemma_sq_bound(self.x as int, NLIM as int);
            lemma_sq_bound(self.y as int, NLIM as int);
            lemma_sq_bound(self.z as int, NLIM as int);
        }
        let xx: u64 = ((self.x as i128) * (self.x as i128)) as u64;
        let yy: u64 = ((self.y as i128) * (self.y as i128)) as u64;
        let zz: u64 = ((self.z as i128) * (self.z as i128)) as u64;
        let s: u64 = xx + yy + zz;
        isqrt(s) as i64
    }

    /// Normalization to a unit vector (fixed-point one): each component is
    /// divided by the norm, rounded toward zero. The caller must rule the
    /// zero vector out.
    pub fn normalize(self) -> (r: Vec3)
        requires
            v3_in_mag(self@, NLIM as int),
            v3_norm_sq(self@) >= 1,
        ensures
            r@ == v3_normalize(self@),
            v3_in_mag(r@, SCALE as int),
    {
        let n: i64 = self.norm();
        proof {
            let ni = n as int;
            let nsq = v3_norm_sq(self@);
            assert(ni >= 1) by (nonlinear_arith)
                requires
                    0 <= ni,
                    ni * ni <= nsq,
                    nsq < (ni + 1) * (ni + 1),
                    nsq >= 1,
            ;
            lemma_sq_bound(self.x as int, NLIM as int);
            lemma_sq_bound(self.y as int, NLIM as int);
            lemma_sq_bound(self.z as int, NLIM as int);
            lemma_comp_le_norm(self.x as int, ni, nsq);
            lemma_comp_le_norm(self.y as int, ni, nsq);
            lemma_comp_le_norm(self.z as int, ni, nsq);
            lemma_unit_div_bound(self.x as int, ni);
            lemma_unit_div_bound(self.y as int, ni);
            lemma_unit_div_bound(self.z as int, ni);
        }
        Vec3 { x: fx_div(self.x, n), y: fx_div(self.y, n), z: fx_div(self.z, n) }
    }
}

pub proof fn lemma_sq_bound(a: int, m: int)
    requires
        -m <= a <= m,
        0 <= m,
    ensures
        0 <= a * a <= m * m,
{
    assert(0 <= a * a <= m * m) by (nonlinear_arith)
        requires
            -m <= a <= m,
            0 <= m,
    ;
}

/// A component of a vector is bounded in magnitude by the vector's norm.
pub proof fn lemma_comp_le_norm(c: int, n: int, nsq: int)
    requires
        0 <= n,
        c * c <= nsq,
        nsq < (n + 1) * (n + 1),
    ensures
        -n <= c <= n,
{
    assert(-n <= c <= n) by (nonlinear_arith)
        requires
            0 <= n,
            c * c <= nsq,
            nsq < (n + 1) * (n + 1),
    ;
}

/// Dividing a component bounded by `n` by the norm `n` keeps it within one
/// fixed-point unit.
pub proof fn lemma_unit_div_bound(c: int, n: int)
    requires
        1 <= n,
        -n <= c <= n,
    ensures
        -(SCALE as int) <= fx_div_spec(c, n) <= SCALE as int,
{
    assert(-(n * (SCALE as int)) <= c * (SCALE as int) <= n * (SCALE as int)) by (nonlinear_arith)
        requires
            -n <= c <= n,
            1 <= n,
    ;
    lemma_div_trunc_bound(c * (SCALE as int), n * (SCALE as int), n);
    lemma_mul_div_exact(SCALE as int, n);
    assert(n * (SCALE as int) == (SCALE as int) * n) by (nonlinear_arith);
}

} // verus!
