//! Homogeneous 4x4 matrices and 3/4-component vectors over exact rationals.
//!
//! The model of a matrix is [`QMat4`], sixteen model rationals in row-major
//! order; applying transform `A` then `B` to a vector `v` is `B * A * v`.
//! Model-level multiplication, application, transposition and the 3x3
//! determinant are spec functions; the executable operations are proved to
//! compute them exactly.

use vstd::prelude::*;
use vstd::arithmetic::mul::lemma_mul_basics;
use vstd::arithmetic::mul::lemma_mul_is_distributive_add_other_way;
use crate::rational::{
    Q, Rat, lemma_add_fits, lemma_mul_congr, lemma_mul_fits, q_add, q_bounded, q_eq, q_mul,
    q_one, q_sub, q_wf, q_zero, rat_add, rat_mul,
};

verus! {

/// Model of a 3-component vector.
pub struct QVec3 {
    pub x: Q,
    pub y: Q,
    pub z: Q,
}

/// Model of a homogeneous 4-component vector.
pub struct QVec4 {
    pub x: Q,
    pub y: Q,
    pub z: Q,
    pub w: Q,
}

/// Model of a 4x4 row-major matrix.
pub struct QMat4 {
    pub m00: Q, pub m01: Q, pub m02: Q, pub m03: Q,
    pub m10: Q, pub m11: Q, pub m12: Q, pub m13: Q,
    pub m20: Q, pub m21: Q, pub m22: Q, pub m23: Q,
    pub m30: Q, pub m31: Q, pub m32: Q, pub m33: Q,
}

pub open spec fn qvec3_wf(v: QVec3) -> bool {
    q_wf(v.x) && q_wf(v.y) && q_wf(v.z)
}

pub open spec fn qvec4_wf(v: QVec4) -> bool {
    q_wf(v.x) && q_wf(v.y) && q_wf(v.z) && q_wf(v.w)
}

pub open spec fn qmat_wf(m: QMat4) -> bool {
    &&& q_wf(m.m00) && q_wf(m.m01) && q_wf(m.m02) && q_wf(m.m03)
    &&& q_wf(m.m10) && q_wf(m.m11) && q_wf(m.m12) && q_wf(m.m13)
    &&& q_wf(m.m20) && q_wf(m.m21) && q_wf(m.m22) && q_wf(m.m23)
    &&& q_wf(m.m30) && q_wf(m.m31) && q_wf(m.m32) && q_wf(m.m33)
}

/// Every entry bounded by `b`.
pub open spec fn qvec3_bounded(v: QVec3, b: int) -> bool {
    q_bounded(v.x, b) && q_bounded(v.y, b) && q_bounded(v.z, b)
}

/// Every entry bounded by `b`.
pub open spec fn qvec4_bounded(v: QVec4, b: int) -> bool {
    q_bounded(v.x, b) && q_bounded(v.y, b) && q_bounded(v.z, b) && q_bounded(v.w, b)
}

/// Every entry bounded by `b`.
pub open spec fn qmat_bounded(m: QMat4, b: int) -> bool {
    &&& q_bounded(m.m00, b) && q_bounded(m.m01, b) && q_bounded(m.m02, b) && q_bounded(m.m03, b)
    &&& q_bounded(m.m10, b) && q_bounded(m.m11, b) && q_bounded(m.m12, b) && q_bounded(m.m13, b)
    &&& q_bounded(m.m20, b) && q_bounded(m.m21, b) && q_bounded(m.m22, b) && q_bounded(m.m23, b)
    &&& q_bounded(m.m30, b) && q_bounded(m.m31, b) && q_bounded(m.m32, b) && q_bounded(m.m33, b)
}

/// The identity matrix.
pub open spec fn qmat_id() -> QMat4 {
    QMat4 {
        m00: q_one(),  m01: q_zero(), m02: q_zero(), m03: q_zero(),
        m10: q_zero(), m11: q_one(),  m12: q_zero(), m13: q_zero(),
        m20: q_zero(), m21: q_zero(), m22: q_one(),  m23: q_zero(),
        m30: q_zero(), m31: q_zero(), m32: q_zero(), m33: q_one(),
    }
}

/// Four-term inner product of model rationals.
pub open spec fn q_dot4(a0: Q, a1: Q, a2: Q, a3: Q, b0: Q, b1: Q, b2: Q, b3: Q) -> Q {
    q_add(q_add(q_add(q_mul(a0, b0), q_mul(a1, b1)), q_mul(a2, b2)), q_mul(a3, b3))
}

/// Row-major matrix product `a * b`.
pub open spec fn qmat_mul(a: QMat4, b: QMat4) -> QMat4 {
    QMat4 {
        m00: q_dot4(a.m00, a.m01, a.m02, a.m03, b.m00, b.m10, b.m20, b.m30),
        m01: q_dot4(a.m00, a.m01, a.m02, a.m03, b.m01, b.m11, b.m21, b.m31),
        m02: q_dot4(a.m00, a.m01, a.m02, a.m03, b.m02, b.m12, b.m22, b.m32),
        m03: q_dot4(a.m00, a.m01, a.m02, a.m03, b.m03, b.m13, b.m23, b.m33),
        m10: q_dot4(a.m10, a.m11, a.m12, a.m13, b.m00, b.m10, b.m20, b.m30),
        m11: q_dot4(a.m10, a.m11, a.m12, a.m13, b.m01, b.m11, b.m21, b.m31),
        m12: q_dot4(a.m10, a.m11, a.m12, a.m13, b.m02, b.m12, b.m22, b.m32),
        m13: q_dot4(a.m10, a.m11, a.m12, a.m13, b.m03, b.m13, b.m23, b.m33),
        m20: q_dot4(a.m20, a.m21, a.m22, a.m23, b.m00, b.m10, b.m20, b.m30),
        m21: q_dot4(a.m20, a.m21, a.m22, a.m23, b.m01, b.m11, b.m21, b.m31),
        m22: q_dot4(a.m20, a.m21, a.m22, a.m23, b.m02, b.m12, b.m22, b.m32),
        m23: q_dot4(a.m20, a.m21, a.m22, a.m23, b.m03, b.m13, b.m23, b.m33),
        m30: q_dot4(a.m30, a.m31, a.m32, a.m33, b.m00, b.m10, b.m20, b.m30),
        m31: q_dot4(a.m30, a.m31, a.m32, a.m33, b.m01, b.m11, b.m21, b.m31),
        m32: q_dot4(a.m30, a.m31, a.m32, a.m33, b.m02, b.m12, b.m22, b.m32),
        m33: q_dot4(a.m30, a.m31, a.m32, a.m33, b.m03, b.m13, b.m23, b.m33),
    }
}

/// Matrix applied to a homogeneous vector.
pub open spec fn qmat_apply(m: QMat4, v: QVec4) -> QVec4 {
    QVec4 {
        x: q_dot4(m.m00, m.m01, m.m02, m.m03, v.x, v.y, v.z, v.w),
        y: q_dot4(m.m10, m.m11, m.m12, m.m13, v.x, v.y, v.z, v.w),
        z: q_dot4(m.m20, m.m21, m.m22, m.m23, v.x, v.y, v.z, v.w),
        w: q_dot4(m.m30, m.m31, m.m32, m.m33, v.x, v.y, v.z, v.w),
    }
}

/// Transpose.
pub open spec fn qmat_transpose(m: QMat4) -> QMat4 {
    QMat4 {
        m00: m.m00, m01: m.m10, m02: m.m20, m03: m.m30,
        m10: m.m01, m11: m.m11, m12: m.m21, m13: m.m31,
        m20: m.m02, m21: m.m12, m22: m.m22, m23: m.m32,
        m30: m.m03, m31: m.m13, m32: m.m23, m33: m.m33,
    }
}

/// Entrywise equality of the denoted rationals.
pub open spec fn qmat_eqv(a: QMat4, b: QMat4) -> bool {
    &&& q_eq(a.m00, b.m00) && q_eq(a.m01, b.m01) && q_eq(a.m02, b.m02) && q_eq(a.m03, b.m03)
    &&& q_eq(a.m10, b.m10) && q_eq(a.m11, b.m11) && q_eq(a.m12, b.m12) && q_eq(a.m13, b.m13)
    &&& q_eq(a.m20, b.m20) && q_eq(a.m21, b.m21) && q_eq(a.m22, b.m22) && q_eq(a.m23, b.m23)
    &&& q_eq(a.m30, b.m30) && q_eq(a.m31, b.m31) && q_eq(a.m32, b.m32) && q_eq(a.m33, b.m33)
}

/// Componentwise equality of the denoted rationals.
pub open spec fn qvec4_eqv(a: QVec4, b: QVec4) -> bool {
    q_eq(a.x, b.x) && q_eq(a.y, b.y) && q_eq(a.z, b.z) && q_eq(a.w, b.w)
}

/// The components of a four-term inner product, written out over the
/// components of its operands. Expansions like this one cannot be left to
/// the solver, which does not push equalities through products; every later
/// inner-product argument goes through this lemma first.
pub proof fn lemma_dot4_comp(a0: Q, a1: Q, a2: Q, a3: Q, b0: Q, b1: Q, b2: Q, b3: Q)
    ensures
        q_dot4(a0, a1, a2, a3, b0, b1, b2, b3).n
            == (((a0.n * b0.n) * (a1.d * b1.d) + (a1.n * b1.n) * (a0.d * b0.d)) * (a2.d * b2.d)
                + (a2.n * b2.n) * ((a0.d * b0.d) * (a1.d * b1.d))) * (a3.d * b3.d)
                + (a3.n * b3.n) * (((a0.d * b0.d) * (a1.d * b1.d)) * (a2.d * b2.d)),
        q_dot4(a0, a1, a2, a3, b0, b1, b2, b3).d
            == (((a0.d * b0.d) * (a1.d * b1.d)) * (a2.d * b2.d)) * (a3.d * b3.d),
{
    let m0 = q_mul(a0, b0);
    let m1 = q_mul(a1, b1);
    let m2 = q_mul(a2, b2);
    let m3 = q_mul(a3, b3);
    let s01 = q_add(m0, m1);
    lemma_mul_congr(m0.n, m1.d, a0.n * b0.n, a1.d * b1.d);
    lemma_mul_congr(m1.n, m0.d, a1.n * b1.n, a0.d * b0.d);
    lemma_mul_congr(m0.d, m1.d, a0.d * b0.d, a1.d * b1.d);
    let s012 = q_add(s01, m2);
    lemma_mul_congr(
        s01.n,
        m2.d,
        (a0.n * b0.n) * (a1.d * b1.d) + (a1.n * b1.n) * (a0.d * b0.d),
        a2.d * b2.d,
    );
    lemma_mul_congr(m2.n, s01.d, a2.n * b2.n, (a0.d * b0.d) * (a1.d * b1.d));
    lemma_mul_congr(s01.d, m2.d, (a0.d * b0.d) * (a1.d * b1.d), a2.d * b2.d);
    let s = q_add(s012, m3);
    lemma_mul_congr(
        s012.n,
        m3.d,
        ((a0.n * b0.n) * (a1.d * b1.d) + (a1.n * b1.n) * (a0.d * b0.d)) * (a2.d * b2.d)
            + (a2.n * b2.n) * ((a0.d * b0.d) * (a1.d * b1.d)),
        a3.d * b3.d,
    );
    lemma_mul_congr(m3.n, s012.d, a3.n * b3.n, ((a0.d * b0.d) * (a1.d * b1.d)) * (a2.d * b2.d));
    lemma_mul_congr(s012.d, m3.d, ((a0.d * b0.d) * (a1.d * b1.d)) * (a2.d * b2.d), a3.d * b3.d);
}

/// An inner product against `(1, 0, 0, t)`-shaped rows, as the view matrix
/// has them: it selects the matching vector component and adds `t`.
#[verifier::rlimit(80)]
pub proof fn lemma_dot4_select0(t: Q, v0: Q, v1: Q, v2: Q)
    requires
        q_wf(t),
        q_wf(v0),
        q_wf(v1),
        q_wf(v2),
    ensures
        q_eq(q_dot4(q_one(), q_zero(), q_zero(), t, v0, v1, v2, q_one()), q_add(v0, t)),
        q_wf(q_dot4(q_one(), q_zero(), q_zero(), t, v0, v1, v2, q_one())),
{
    let o = q_one();
    let z = q_zero();
    lemma_dot4_comp(o, z, z, t, v0, v1, v2, o);
    let r = q_dot4(o, z, z, t, v0, v1, v2, o);
    let g = q_add(v0, t);
    lemma_mul_basics(v0.n);
    lemma_mul_basics(v0.d);
    lemma_mul_basics(v1.n);
    lemma_mul_basics(v1.d);
    lemma_mul_basics(v2.n);
    lemma_mul_basics(v2.d);
    lemma_mul_basics(t.n);
    lemma_mul_basics(t.d);
    lemma_mul_basics(v0.d * v1.d);
    lemma_mul_basics(v0.n * v1.d);
    lemma_mul_basics(v1.n * v0.d);
    lemma_mul_basics(v2.n * (v0.d * v1.d));
    lemma_mul_basics((v0.n * v1.d) * v2.d);
    lemma_mul_basics((v1.n * v0.d) * v2.d);
    lemma_mul_basics((v0.d * v1.d) * v2.d);
    lemma_mul_congr(o.n, v0.n, 1, v0.n);
    lemma_mul_congr(z.d, v1.d, 1, v1.d);
    lemma_mul_congr(o.n * v0.n, z.d * v1.d, v0.n, v1.d);
    lemma_mul_congr(z.n, v1.n, 0, v1.n);
    lemma_mul_congr(o.d, v0.d, 1, v0.d);
    lemma_mul_congr(z.n * v1.n, o.d * v0.d, 0, v0.d);
    lemma_mul_congr(z.d, v2.d, 1, v2.d);
    lemma_mul_congr(
        (o.n * v0.n) * (z.d * v1.d) + (z.n * v1.n) * (o.d * v0.d),
        z.d * v2.d,
        v0.n * v1.d,
        v2.d,
    );
    lemma_mul_congr(z.n, v2.n, 0, v2.n);
    lemma_mul_congr(o.d * v0.d, z.d * v1.d, v0.d, v1.d);
    lemma_mul_congr(z.n * v2.n, (o.d * v0.d) * (z.d * v1.d), 0, v0.d * v1.d);
    lemma_mul_congr(t.d, o.d, t.d, 1);
    lemma_mul_congr(
        ((o.n * v0.n) * (z.d * v1.d) + (z.n * v1.n) * (o.d * v0.d)) * (z.d * v2.d) + (z.n * v2.n)
            * ((o.d * v0.d) * (z.d * v1.d)),
        t.d * o.d,
        (v0.n * v1.d) * v2.d,
        t.d,
    );
    lemma_mul_congr(t.n, o.n, t.n, 1);
    lemma_mul_congr((o.d * v0.d) * (z.d * v1.d), z.d * v2.d, v0.d * v1.d, v2.d);
    lemma_mul_congr(
        t.n * o.n,
        ((o.d * v0.d) * (z.d * v1.d)) * (z.d * v2.d),
        t.n,
        (v0.d * v1.d) * v2.d,
    );
    lemma_mul_congr(
        ((o.d * v0.d) * (z.d * v1.d)) * (z.d * v2.d),
        t.d * o.d,
        (v0.d * v1.d) * v2.d,
        t.d,
    );
    lemma_mul_congr(
        r.n,
        g.d,
        ((v0.n * v1.d) * v2.d) * t.d + t.n * ((v0.d * v1.d) * v2.d),
        v0.d * t.d,
    );
    lemma_mul_congr(g.n, r.d, v0.n * t.d + t.n * v0.d, ((v0.d * v1.d) * v2.d) * t.d);
    lemma_mul_is_distributive_add_other_way(
        v0.d * t.d,
        ((v0.n * v1.d) * v2.d) * t.d,
        t.n * ((v0.d * v1.d) * v2.d),
    );
    lemma_mul_is_distributive_add_other_way(
        ((v0.d * v1.d) * v2.d) * t.d,
        v0.n * t.d,
        t.n * v0.d,
    );
    assert((((v0.n * v1.d) * v2.d) * t.d) * (v0.d * t.d) == (v0.n * t.d) * (((v0.d * v1.d) * v2.d)
        * t.d)) by (nonlinear_arith);
    assert((t.n * ((v0.d * v1.d) * v2.d)) * (v0.d * t.d) == (t.n * v0.d) * (((v0.d * v1.d) * v2.d)
        * t.d)) by (nonlinear_arith);
    assert(((v0.d * v1.d) * v2.d) * t.d > 0) by (nonlinear_arith)
        requires
            v0.d > 0,
            v1.d > 0,
            v2.d > 0,
            t.d > 0,
    ;
}

/// As [`lemma_dot4_select0`], for `(0, 1, 0, t)` rows.
#[verifier::rlimit(80)]
pub proof fn lemma_dot4_select1(t: Q, v0: Q, v1: Q, v2: Q)
    requires
        q_wf(t),
        q_wf(v0),
        q_wf(v1),
        q_wf(v2),
    ensures
        q_eq(q_dot4(q_zero(), q_one(), q_zero(), t, v0, v1, v2, q_one()), q_add(v1, t)),
        q_wf(q_dot4(q_zero(), q_one(), q_zero(), t, v0, v1, v2, q_one())),
{
    let o = q_one();
    let z = q_zero();
    lemma_dot4_comp(z, o, z, t, v0, v1, v2, o);
    let r = q_dot4(z, o, z, t, v0, v1, v2, o);
    let g = q_add(v1, t);
    lemma_mul_basics(v0.n);
    lemma_mul_basics(v0.d);
    lemma_mul_basics(v1.n);
    lemma_mul_basics(v1.d);
    lemma_mul_basics(v2.n);
    lemma_mul_basics(v2.d);
    lemma_mul_basics(t.n);
    lemma_mul_basics(t.d);
    lemma_mul_basics(v0.d * v1.d);
    lemma_mul_basics(v0.n * v1.d);
    lemma_mul_basics(v1.n * v0.d);
    lemma_mul_basics(v2.n * (v0.d * v1.d));
    lemma_mul_basics((v0.n * v1.d) * v2.d);
    lemma_mul_basics((v1.n * v0.d) * v2.d);
    lemma_mul_basics((v0.d * v1.d) * v2.d);
    lemma_mul_congr(z.n, v0.n, 0, v0.n);
    lemma_mul_congr(o.d, v1.d, 1, v1.d);
    lemma_mul_congr(z.n * v0.n, o.d * v1.d, 0, v1.d);
    lemma_mul_congr(o.n, v1.n, 1, v1.n);
    lemma_mul_congr(z.d, v0.d, 1, v0.d);
    lemma_mul_congr(o.n * v1.n, z.d * v0.d, v1.n, v0.d);
    lemma_mul_congr(z.d, v2.d, 1, v2.d);
    lemma_mul_congr(
        (z.n * v0.n) * (o.d * v1.d) + (o.n * v1.n) * (z.d * v0.d),
        z.d * v2.d,
        v1.n * v0.d,
        v2.d,
    );
    lemma_mul_congr(z.n, v2.n, 0, v2.n);
    lemma_mul_congr(z.d * v0.d, o.d * v1.d, v0.d, v1.d);
    lemma_mul_congr(z.n * v2.n, (z.d * v0.d) * (o.d * v1.d), 0, v0.d * v1.d);
    lemma_mul_congr(t.d, o.d, t.d, 1);
    lemma_mul_congr(
        ((z.n * v0.n) * (o.d * v1.d) + (o.n * v1.n) * (z.d * v0.d)) * (z.d * v2.d) + (z.n * v2.n)
            * ((z.d * v0.d) * (o.d * v1.d)),
        t.d * o.d,
        (v1.n * v0.d) * v2.d,
        t.d,
    );
    lemma_mul_congr(t.n, o.n, t.n, 1);
    lemma_mul_congr((z.d * v0.d) * (o.d * v1.d), z.d * v2.d, v0.d * v1.d, v2.d);
    lemma_mul_congr(
        t.n * o.n,
        ((z.d * v0.d) * (o.d * v1.d)) * (z.d * v2.d),
        t.n,
        (v0.d * v1.d) * v2.d,
    );
    lemma_mul_congr(
        ((z.d * v0.d) * (o.d * v1.d)) * (z.d * v2.d),
        t.d * o.d,
        (v0.d * v1.d) * v2.d,
        t.d,
    );
    lemma_mul_congr(
        r.n,
        g.d,
        ((v1.n * v0.d) * v2.d) * t.d + t.n * ((v0.d * v1.d) * v2.d),
        v1.d * t.d,
    );
    lemma_mul_congr(g.n, r.d, v1.n * t.d + t.n * v1.d, ((v0.d * v1.d) * v2.d) * t.d);
    lemma_mul_is_distributive_add_other_way(
        v1.d * t.d,
        ((v1.n * v0.d) * v2.d) * t.d,
        t.n * ((v0.d * v1.d) * v2.d),
    );
    lemma_mul_is_distributive_add_other_way(
        ((v0.d * v1.d) * v2.d) * t.d,
        v1.n * t.d,
        t.n * v1.d,
    );
    assert((((v1.n * v0.d) * v2.d) * t.d) * (v1.d * t.d) == (v1.n * t.d) * (((v0.d * v1.d) * v2.d)
        * t.d)) by (nonlinear_arith);
    assert((t.n * ((v0.d * v1.d) * v2.d)) * (v1.d * t.d) == (t.n * v1.d) * (((v0.d * v1.d) * v2.d)
        * t.d)) by (nonlinear_arith);
    assert(((v0.d * v1.d) * v2.d) * t.d > 0) by (nonlinear_arith)
        requires
            v0.d > 0,
            v1.d > 0,
            v2.d > 0,
            t.d > 0,
    ;
}

/// As [`lemma_dot4_select0`], for `(0, 0, 1, t)` rows.
#[verifier::rlimit(20)]
pub proof fn lemma_dot4_select2(t: Q, v0: Q, v1: Q, v2: Q)
    requires
        q_wf(t),
        q_wf(v0),
        q_wf(v1),
        q_wf(v2),
    ensures
        q_eq(q_dot4(q_zero(), q_zero(), q_one(), t, v0, v1, v2, q_one()), q_add(v2, t)),
        q_wf(q_dot4(q_zero(), q_zero(), q_one(), t, v0, v1, v2, q_one())),
{
    let o = q_one();
    let z = q_zero();
    lemma_dot4_comp(z, z, o, t, v0, v1, v2, o);
    let r = q_dot4(z, z, o, t, v0, v1, v2, o);
    let g = q_add(v2, t);
    lemma_mul_basics(v0.n);
    lemma_mul_basics(v0.d);
    lemma_mul_basics(v1.n);
    lemma_mul_basics(v1.d);
    lemma_mul_basics(v2.n);
    lemma_mul_basics(v2.d);
    lemma_mul_basics(t.n);
    lemma_mul_basics(t.d);
    lemma_mul_basics(v0.d * v1.d);
    lemma_mul_basics(v0.n * v1.d);
    lemma_mul_basics(v1.n * v0.d);
    lemma_mul_basics(v2.n * (v0.d * v1.d));
    lemma_mul_basics((v0.n * v1.d) * v2.d);
    lemma_mul_basics((v1.n * v0.d) * v2.d);
    lemma_mul_basics((v0.d * v1.d) * v2.d);
    lemma_mul_congr(z.n, v0.n, 0, v0.n);
    lemma_mul_congr(z.d, v1.d, 1, v1.d);
    lemma_mul_congr(z.n * v0.n, z.d * v1.d, 0, v1.d);
    lemma_mul_congr(z.n, v1.n, 0, v1.n);
    lemma_mul_congr(z.d, v0.d, 1, v0.d);
    lemma_mul_congr(z.n * v1.n, z.d * v0.d, 0, v0.d);
    lemma_mul_congr(o.d, v2.d, 1, v2.d);
    lemma_mul_congr(
        (z.n * v0.n) * (z.d * v1.d) + (z.n * v1.n) * (z.d * v0.d),
        o.d * v2.d,
        0,
        v2.d,
    );
    lemma_mul_congr(o.n, v2.n, 1, v2.n);
    lemma_mul_congr(z.d * v0.d, z.d * v1.d, v0.d, v1.d);
    lemma_mul_congr(o.n * v2.n, (z.d * v0.d) * (z.d * v1.d), v2.n, v0.d * v1.d);
    lemma_mul_congr(t.d, o.d, t.d, 1);
    lemma_mul_congr(
        ((z.n * v0.n) * (z.d * v1.d) + (z.n * v1.n) * (z.d * v0.d)) * (o.d * v2.d) + (o.n * v2.n)
            * ((z.d * v0.d) * (z.d * v1.d)),
        t.d * o.d,
        v2.n * (v0.d * v1.d),
        t.d,
    );
    lemma_mul_congr(t.n, o.n, t.n, 1);
    lemma_mul_congr((z.d * v0.d) * (z.d * v1.d), o.d * v2.d, v0.d * v1.d, v2.d);
    lemma_mul_congr(
        t.n * o.n,
        ((z.d * v0.d) * (z.d * v1.d)) * (o.d * v2.d),
        t.n,
        (v0.d * v1.d) * v2.d,
    );
    lemma_mul_congr(
        ((z.d * v0.d) * (z.d * v1.d)) * (o.d * v2.d),
        t.d * o.d,
        (v0.d * v1.d) * v2.d,
        t.d,
    );
    assert(r.n * g.d == g.n * r.d && r.d > 0) by (nonlinear_arith)
        requires
            r.n == (v2.n * (v0.d * v1.d)) * t.d + t.n * ((v0.d * v1.d) * v2.d),
            r.d == ((v0.d * v1.d) * v2.d) * t.d,
            g.n == v2.n * t.d + t.n * v2.d,
            g.d == v2.d * t.d,
            v0.d > 0,
            v1.d > 0,
            v2.d > 0,
            t.d > 0,
    ;
}

/// An inner product against a `(0, 0, 0, 1)` row picks out the last vector
/// component.
#[verifier::rlimit(20)]
pub proof fn lemma_dot4_select3(v0: Q, v1: Q, v2: Q, v3: Q)
    requires
        q_wf(v0),
        q_wf(v1),
        q_wf(v2),
        q_wf(v3),
    ensures
        q_eq(q_dot4(q_zero(), q_zero(), q_zero(), q_one(), v0, v1, v2, v3), v3),
        q_wf(q_dot4(q_zero(), q_zero(), q_zero(), q_one(), v0, v1, v2, v3)),
{
    let o = q_one();
    let z = q_zero();
    lemma_dot4_comp(z, z, z, o, v0, v1, v2, v3);
    let r = q_dot4(z, z, z, o, v0, v1, v2, v3);
    assert(r.n * v3.d == v3.n * r.d && r.d > 0) by (nonlinear_arith)
        requires
            r.n == (((z.n * v0.n) * (z.d * v1.d) + (z.n * v1.n) * (z.d * v0.d)) * (z.d * v2.d)
                + (z.n * v2.n) * ((z.d * v0.d) * (z.d * v1.d))) * (o.d * v3.d) + (o.n * v3.n)
                * (((z.d * v0.d) * (z.d * v1.d)) * (z.d * v2.d)),
            r.d == (((z.d * v0.d) * (z.d * v1.d)) * (z.d * v2.d)) * (o.d * v3.d),
            o.n == 1,
            o.d == 1,
            z.n == 0,
            z.d == 1,
            v0.d > 0,
            v1.d > 0,
            v2.d > 0,
            v3.d > 0,
    ;
}

/// An inner product against a `(0, 0, a2, a3)` row, as the projection matrix
/// has them: the two live terms remain.
#[verifier::rlimit(20)]
pub proof fn lemma_dot4_pair23(a2: Q, a3: Q, v0: Q, v1: Q, v2: Q, v3: Q)
    requires
        q_wf(a2),
        q_wf(a3),
        q_wf(v0),
        q_wf(v1),
        q_wf(v2),
        q_wf(v3),
    ensures
        q_eq(
            q_dot4(q_zero(), q_zero(), a2, a3, v0, v1, v2, v3),
            q_add(q_mul(a2, v2), q_mul(a3, v3)),
        ),
        q_wf(q_dot4(q_zero(), q_zero(), a2, a3, v0, v1, v2, v3)),
{
    let z = q_zero();
    lemma_dot4_comp(z, z, a2, a3, v0, v1, v2, v3);
    let r = q_dot4(z, z, a2, a3, v0, v1, v2, v3);
    let m2 = q_mul(a2, v2);
    let m3 = q_mul(a3, v3);
    let g = q_add(m2, m3);
    assert(r.n * g.d == g.n * r.d && r.d > 0) by (nonlinear_arith)
        requires
            r.n == (((z.n * v0.n) * (z.d * v1.d) + (z.n * v1.n) * (z.d * v0.d)) * (a2.d * v2.d)
                + (a2.n * v2.n) * ((z.d * v0.d) * (z.d * v1.d))) * (a3.d * v3.d) + (a3.n * v3.n)
                * (((z.d * v0.d) * (z.d * v1.d)) * (a2.d * v2.d)),
            r.d == (((z.d * v0.d) * (z.d * v1.d)) * (a2.d * v2.d)) * (a3.d * v3.d),
            g.n == m2.n * m3.d + m3.n * m2.d,
            g.d == m2.d * m3.d,
            m2.n == a2.n * v2.n,
            m2.d == a2.d * v2.d,
            m3.n == a3.n * v3.n,
            m3.d == a3.d * v3.d,
            z.n == 0,
            z.d == 1,
            a2.d > 0,
            a3.d > 0,
            v0.d > 0,
            v1.d > 0,
            v2.d > 0,
            v3.d > 0,
    ;
}

/// An inner product against an `(a0, 0, 0, 0)` row keeps only the first term.
#[verifier::rlimit(20)]
pub proof fn lemma_dot4_first(a0: Q, v0: Q, v1: Q, v2: Q, v3: Q)
    requires
        q_wf(a0),
        q_wf(v0),
        q_wf(v1),
        q_wf(v2),
        q_wf(v3),
    ensures
        q_eq(q_dot4(a0, q_zero(), q_zero(), q_zero(), v0, v1, v2, v3), q_mul(a0, v0)),
        q_wf(q_dot4(a0, q_zero(), q_zero(), q_zero(), v0, v1, v2, v3)),
{
    let z = q_zero();
    lemma_dot4_comp(a0, z, z, z, v0, v1, v2, v3);
    let r = q_dot4(a0, z, z, z, v0, v1, v2, v3);
    let g = q_mul(a0, v0);
    assert(r.n * g.d == g.n * r.d && r.d > 0) by (nonlinear_arith)
        requires
            r.n == (((a0.n * v0.n) * (z.d * v1.d) + (z.n * v1.n) * (a0.d * v0.d)) * (z.d * v2.d)
                + (z.n * v2.n) * ((a0.d * v0.d) * (z.d * v1.d))) * (z.d * v3.d) + (z.n * v3.n)
                * (((a0.d * v0.d) * (z.d * v1.d)) * (z.d * v2.d)),
            r.d == (((a0.d * v0.d) * (z.d * v1.d)) * (z.d * v2.d)) * (z.d * v3.d),
            g.n == a0.n * v0.n,
            g.d == a0.d * v0.d,
            z.n == 0,
            z.d == 1,
            a0.d > 0,
            v0.d > 0,
            v1.d > 0,
            v2.d > 0,
            v3.d > 0,
    ;
}


/// An inner product against a `(0, a1, 0, 0)` row keeps only the second
/// term.
#[verifier::rlimit(80)]
pub proof fn lemma_dot4_second(a1: Q, v0: Q, v1: Q, v2: Q, v3: Q)
    requires
        q_wf(a1),
        q_wf(v0),
        q_wf(v1),
        q_wf(v2),
        q_wf(v3),
    ensures
        q_eq(q_dot4(q_zero(), a1, q_zero(), q_zero(), v0, v1, v2, v3), q_mul(a1, v1)),
        q_wf(q_dot4(q_zero(), a1, q_zero(), q_zero(), v0, v1, v2, v3)),
{
    let z = q_zero();
    lemma_dot4_comp(z, a1, z, z, v0, v1, v2, v3);
    let r = q_dot4(z, a1, z, z, v0, v1, v2, v3);
    let g = q_mul(a1, v1);
    assert(r.n * g.d == g.n * r.d && r.d > 0) by (nonlinear_arith)
        requires
            r.n == (((z.n * v0.n) * (a1.d * v1.d) + (a1.n * v1.n) * (z.d * v0.d)) * (z.d * v2.d)
                + (z.n * v2.n) * ((z.d * v0.d) * (a1.d * v1.d))) * (z.d * v3.d) + (z.n * v3.n)
                * (((z.d * v0.d) * (a1.d * v1.d)) * (z.d * v2.d)),
            r.d == (((z.d * v0.d) * (a1.d * v1.d)) * (z.d * v2.d)) * (z.d * v3.d),
            g.n == a1.n * v1.n,
            g.d == a1.d * v1.d,
            z.n == 0,
            z.d == 1,
            a1.d > 0,
            v0.d > 0,
            v1.d > 0,
            v2.d > 0,
            v3.d > 0,
    ;
}

/// An executable 3-component vector of rationals.
#[derive(Clone, Copy, Debug)]
pub struct Vec3 {
    pub x: Rat,
    pub y: Rat,
    pub z: Rat,
}

impl View for Vec3 {
    type V = QVec3;

    open spec fn view(&self) -> QVec3 {
        QVec3 { x: self.x@, y: self.y@, z: self.z@ }
    }
}

impl Vec3 {
    pub open spec fn wf(&self) -> bool {
        qvec3_wf(self@)
    }

    pub fn new(x: Rat, y: Rat, z: Rat) -> (r: Vec3)
        ensures
            r@ == (QVec3 { x: x@, y: y@, z: z@ }),
    {
        Vec3 { x, y, z }
    }
}

/// An executable homogeneous 4-component vector of rationals.
#[derive(Clone, Copy, Debug)]
pub struct Vec4 {
    pub x: Rat,
    pub y: Rat,
    pub z: Rat,
    pub w: Rat,
}

impl View for Vec4 {
    type V = QVec4;

    open spec fn view(&self) -> QVec4 {
        QVec4 { x: self.x@, y: self.y@, z: self.z@, w: self.w@ }
    }
}

impl Vec4 {
    pub open spec fn wf(&self) -> bool {
        qvec4_wf(self@)
    }

    pub fn new(x: Rat, y: Rat, z: Rat, w: Rat) -> (r: Vec4)
        ensures
            r@ == (QVec4 { x: x@, y: y@, z: z@, w: w@ }),
    {
        Vec4 { x, y, z, w }
    }
}

/// An executable 4x4 row-major matrix of rationals.
#[derive(Clone, Copy, Debug)]
pub struct Mat4 {
    pub m00: Rat, pub m01: Rat, pub m02: Rat, pub m03: Rat,
    pub m10: Rat, pub m11: Rat, pub m12: Rat, pub m13: Rat,
    pub m20: Rat, pub m21: Rat, pub m22: Rat, pub m23: Rat,
    pub m30: Rat, pub m31: Rat, pub m32: Rat, pub m33: Rat,
}

impl View for Mat4 {
    type V = QMat4;

    open spec fn view(&self) -> QMat4 {
        QMat4 {
            m00: self.m00@, m01: self.m01@, m02: self.m02@, m03: self.m03@,
            m10: self.m10@, m11: self.m11@, m12: self.m12@, m13: self.m13@,
            m20: self.m20@, m21: self.m21@, m22: self.m22@, m23: self.m23@,
            m30: self.m30@, m31: self.m31@, m32: self.m32@, m33: self.m33@,
        }
    }
}

impl Mat4 {
    pub open spec fn wf(&self) -> bool {
        qmat_wf(self@)
    }

    /// The identity matrix.
    pub fn identity() -> (r: Mat4)
        ensures
            r@ == qmat_id(),
            r.wf(),
    {
        let zero = Rat::zero();
        let one = Rat::one();
        Mat4 {
            m00: one,  m01: zero, m02: zero, m03: zero,
            m10: zero, m11: one,  m12: zero, m13: zero,
            m20: zero, m21: zero, m22: one,  m23: zero,
            m30: zero, m31: zero, m32: zero, m33: one,
        }
    }

    /// Transpose.
    pub fn transpose(&self) -> (r: Mat4)
        ensures
            r@ == qmat_transpose(self@),
    {
        Mat4 {
            m00: self.m00, m01: self.m10, m02: self.m20, m03: self.m30,
            m10: self.m01, m11: self.m11, m12: self.m21, m13: self.m31,
            m20: self.m02, m21: self.m12, m22: self.m22, m23: self.m32,
            m30: self.m03, m31: self.m13, m32: self.m23, m33: self.m33,
        }
    }
}

/// Entry bound under which a four-term inner product of rationals provably
/// fits in `i128`. A machine limit on the executable `mat_apply`/`mat_mul`.
pub const DOT_BOUND: i128 = 0x8000;

/// `DOT_BOUND` as a model integer.
pub open spec fn dot_bound() -> int {
    0x8000
}

/// Executable four-term inner product, exact.
fn rat_dot4(a0: &Rat, a1: &Rat, a2: &Rat, a3: &Rat, b0: &Rat, b1: &Rat, b2: &Rat, b3: &Rat)
    -> (r: Rat)
    requires
        q_bounded(a0@, dot_bound()),
        q_bounded(a1@, dot_bound()),
        q_bounded(a2@, dot_bound()),
        q_bounded(a3@, dot_bound()),
        q_bounded(b0@, dot_bound()),
        q_bounded(b1@, dot_bound()),
        q_bounded(b2@, dot_bound()),
        q_bounded(b3@, dot_bound()),
    ensures
        r@ == q_dot4(a0@, a1@, a2@, a3@, b0@, b1@, b2@, b3@),
        r.wf(),
{
    proof {
        lemma_mul_fits(a0@, b0@, dot_bound(), dot_bound());
        lemma_mul_fits(a1@, b1@, dot_bound(), dot_bound());
        lemma_mul_fits(a2@, b2@, dot_bound(), dot_bound());
        lemma_mul_fits(a3@, b3@, dot_bound(), dot_bound());
        lemma_add_fits(q_mul(a0@, b0@), q_mul(a1@, b1@), 0x40000000, 0x40000000);
        lemma_add_fits(
            q_add(q_mul(a0@, b0@), q_mul(a1@, b1@)),
            q_mul(a2@, b2@),
            0x2000000000000000,
            0x40000000,
        );
        lemma_add_fits(
            q_add(q_add(q_mul(a0@, b0@), q_mul(a1@, b1@)), q_mul(a2@, b2@)),
            q_mul(a3@, b3@),
            0x100000000000000000000000,
            0x40000000,
        );
    }
    let t0 = rat_mul(a0, b0);
    let t1 = rat_mul(a1, b1);
    let t2 = rat_mul(a2, b2);
    let t3 = rat_mul(a3, b3);
    let s01 = rat_add(&t0, &t1);
    let s012 = rat_add(&s01, &t2);
    rat_add(&s012, &t3)
}

/// Applies `m` to the homogeneous vector `v`, exactly.
///
/// The entry bound is a machine limit: it keeps every intermediate product of
/// the exact rational arithmetic inside `i128`.
pub fn mat_apply(m: &Mat4, v: &Vec4) -> (r: Vec4)
    requires
        qmat_bounded(m@, dot_bound()),
        qvec4_bounded(v@, dot_bound()),
    ensures
        r@ == qmat_apply(m@, v@),
        r.wf(),
{
    Vec4 {
        x: rat_dot4(&m.m00, &m.m01, &m.m02, &m.m03, &v.x, &v.y, &v.z, &v.w),
        y: rat_dot4(&m.m10, &m.m11, &m.m12, &m.m13, &v.x, &v.y, &v.z, &v.w),
        z: rat_dot4(&m.m20, &m.m21, &m.m22, &m.m23, &v.x, &v.y, &v.z, &v.w),
        w: rat_dot4(&m.m30, &m.m31, &m.m32, &m.m33, &v.x, &v.y, &v.z, &v.w),
    }
}

/// Row-major matrix product `a * b`, exact.
///
/// The entry bound is a machine limit, as for [`mat_apply`].
pub fn mat_mul(a: &Mat4, b: &Mat4) -> (r: Mat4)
    requires
        qmat_bounded(a@, dot_bound()),
        qmat_bounded(b@, dot_bound()),
    ensures
        r@ == qmat_mul(a@, b@),
        r.wf(),
{
    Mat4 {
        m00: rat_dot4(&a.m00, &a.m01, &a.m02, &a.m03, &b.m00, &b.m10, &b.m20, &b.m30),
        m01: rat_dot4(&a.m00, &a.m01, &a.m02, &a.m03, &b.m01, &b.m11, &b.m21, &b.m31),
        m02: rat_dot4(&a.m00, &a.m01, &a.m02, &a.m03, &b.m02, &b.m12, &b.m22, &b.m32),
        m03: rat_dot4(&a.m00, &a.m01, &a.m02, &a.m03, &b.m03, &b.m13, &b.m23, &b.m33),
        m10: rat_dot4(&a.m10, &a.m11, &a.m12, &a.m13, &b.m00, &b.m10, &b.m20, &b.m30),
        m11: rat_dot4(&a.m10, &a.m11, &a.m12, &a.m13, &b.m01, &b.m11, &b.m21, &b.m31),
        m12: rat_dot4(&a.m10, &a.m11, &a.m12, &a.m13, &b.m02, &b.m12, &b.m22, &b.m32),
        m13: rat_dot4(&a.m10, &a.m11, &a.m12, &a.m13, &b.m03, &b.m13, &b.m23, &b.m33),
        m20: rat_dot4(&a.m20, &a.m21, &a.m22, &a.m23, &b.m00, &b.m10, &b.m20, &b.m30),
        m21: rat_dot4(&a.m20, &a.m21, &a.m22, &a.m23, &b.m01, &b.m11, &b.m21, &b.m31),
        m22: rat_dot4(&a.m20, &a.m21, &a.m22, &a.m23, &b.m02, &b.m12, &b.m22, &b.m32),
        m23: rat_dot4(&a.m20, &a.m21, &a.m22, &a.m23, &b.m03, &b.m13, &b.m23, &b.m33),
        m30: rat_dot4(&a.m30, &a.m31, &a.m32, &a.m33, &b.m00, &b.m10, &b.m20, &b.m30),
        m31: rat_dot4(&a.m30, &a.m31, &a.m32, &a.m33, &b.m01, &b.m11, &b.m21, &b.m31),
        m32: rat_dot4(&a.m30, &a.m31, &a.m32, &a.m33, &b.m02, &b.m12, &b.m22, &b.m32),
        m33: rat_dot4(&a.m30, &a.m31, &a.m32, &a.m33, &b.m03, &b.m13, &b.m23, &b.m33),
    }
}

} // verus!
