//! Transform builders: view, model (Rodrigues rotation) and perspective
//! projection matrices over exact rationals.
//!
//! Angles enter through their cosine and sine (and the field of view through
//! the tangent of its half), supplied as rational scalars: evaluating the
//! trigonometric functions is a floating-point step that belongs to the
//! caller at the boundary, while everything built from those values is exact
//! and verified here. Likewise the rotation axis is supplied already
//! normalized, since normalization takes a square root.

use vstd::prelude::*;
use crate::rational::{
    Q, Rat, lemma_add_fits, lemma_inv_bound, lemma_mul_congr, lemma_mul_fits, lemma_neg_bound,
    lemma_q_add_eqv, lemma_q_add_neg, lemma_q_assoc, lemma_q_distrib_right, lemma_q_eq_trans,
    lemma_q_inv_char, lemma_q_mul_eqv, lemma_q_mul_one_right, lemma_q_mul_zero_right,
    lemma_q_neg_eqv, lemma_q_neg_mul_left, lemma_q_swap23, lemma_q_wf_ops, q_add, q_div, q_eq,
    q_mul, q_neg, q_one, q_small, q_sub, q_wf, q_zero, rat_add, rat_bound, rat_div, rat_mul,
    rat_neg, rat_sub,
};
use crate::matrix::{
    Mat4, QMat4, QVec3, QVec4, Vec3, lemma_dot4_first, lemma_dot4_pair23, lemma_dot4_second,
    lemma_dot4_select0, lemma_dot4_select1, lemma_dot4_select2, lemma_dot4_select3, q_dot4,
    qmat_apply, qmat_eqv, qmat_id, qvec3_wf, qvec4_eqv,
};
use vstd::arithmetic::mul::lemma_mul_basics;
use vstd::arithmetic::mul::lemma_mul_is_distributive_add_other_way;

verus! {

/// The model view matrix: translation by the negated eye position, no
/// rotation component.
pub open spec fn qmat_view(e: QVec3) -> QMat4 {
    QMat4 {
        m00: q_one(),  m01: q_zero(), m02: q_zero(), m03: q_neg(e.x),
        m10: q_zero(), m11: q_one(),  m12: q_zero(), m13: q_neg(e.y),
        m20: q_zero(), m21: q_zero(), m22: q_one(),  m23: q_neg(e.z),
        m30: q_zero(), m31: q_zero(), m32: q_zero(), m33: q_one(),
    }
}

/// The Rodrigues rotation matrix for unit axis `n` and an angle given by its
/// cosine `c` and sine `s`:
/// `R = c * I + (1 - c) * (n n^T) + s * K`, embedded homogeneously,
/// where `K` is the cross-product skew matrix of `n`.
pub open spec fn rodrigues_q(c: Q, s: Q, n: QVec3) -> QMat4 {
    QMat4 {
        m00: rod_diag(c, n.x),
        m01: rod_off_sub(c, s, n.x, n.y, n.z),
        m02: rod_off_add(c, s, n.x, n.z, n.y),
        m03: q_zero(),
        m10: rod_off_add(c, s, n.y, n.x, n.z),
        m11: rod_diag(c, n.y),
        m12: rod_off_sub(c, s, n.y, n.z, n.x),
        m13: q_zero(),
        m20: rod_off_sub(c, s, n.z, n.x, n.y),
        m21: rod_off_add(c, s, n.z, n.y, n.x),
        m22: rod_diag(c, n.z),
        m23: q_zero(),
        m30: q_zero(), m31: q_zero(), m32: q_zero(), m33: q_one(),
    }
}

/// A diagonal entry of the Rodrigues 3x3 block: `c + (1 - c) * a * a`.
pub open spec fn rod_diag(c: Q, a: Q) -> Q {
    q_add(c, q_mul(q_sub(q_one(), c), q_mul(a, a)))
}

/// An off-diagonal Rodrigues entry with positive skew: `(1-c)*a*b + s*k`.
pub open spec fn rod_off_add(c: Q, s: Q, a: Q, b: Q, k: Q) -> Q {
    q_add(q_mul(q_sub(q_one(), c), q_mul(a, b)), q_mul(s, k))
}

/// An off-diagonal Rodrigues entry with negative skew: `(1-c)*a*b - s*k`.
pub open spec fn rod_off_sub(c: Q, s: Q, a: Q, b: Q, k: Q) -> Q {
    q_sub(q_mul(q_sub(q_one(), c), q_mul(a, b)), q_mul(s, k))
}

/// The unit +z axis.
pub open spec fn q_unit_z() -> QVec3 {
    QVec3 { x: q_zero(), y: q_zero(), z: q_one() }
}

/// The closed-form in-plane (about +z) rotation matrix for an angle given by
/// cosine `c` and sine `s`.
pub open spec fn qmat_rot2d(c: Q, s: Q) -> QMat4 {
    QMat4 {
        m00: c,        m01: q_neg(s), m02: q_zero(), m03: q_zero(),
        m10: s,        m11: c,        m12: q_zero(), m13: q_zero(),
        m20: q_zero(), m21: q_zero(), m22: q_one(),  m23: q_zero(),
        m30: q_zero(), m31: q_zero(), m32: q_zero(), m33: q_one(),
    }
}

/// The components of a diagonal Rodrigues entry, written out.
proof fn lemma_rod_diag_comp(c: Q, a: Q)
    ensures
        rod_diag(c, a).n == c.n * (c.d * (a.d * a.d)) + ((c.d - c.n) * (a.n * a.n)) * c.d,
        rod_diag(c, a).d == c.d * (c.d * (a.d * a.d)),
{
    let omc = q_sub(q_one(), c);
    let nn = q_mul(a, a);
    let t = q_mul(omc, nn);
    lemma_mul_congr(omc.n, nn.n, c.d - c.n, a.n * a.n);
    lemma_mul_congr(omc.d, nn.d, c.d, a.d * a.d);
    lemma_mul_congr(c.n, t.d, c.n, c.d * (a.d * a.d));
    lemma_mul_congr(t.n, c.d, (c.d - c.n) * (a.n * a.n), c.d);
    lemma_mul_congr(c.d, t.d, c.d, c.d * (a.d * a.d));
}

/// The components of a positive-skew off-diagonal Rodrigues entry.
proof fn lemma_rod_off_add_comp(c: Q, s: Q, a: Q, b: Q, k: Q)
    ensures
        rod_off_add(c, s, a, b, k).n == ((c.d - c.n) * (a.n * b.n)) * (s.d * k.d) + (s.n * k.n) * (
        c.d * (a.d * b.d)),
        rod_off_add(c, s, a, b, k).d == (c.d * (a.d * b.d)) * (s.d * k.d),
{
    let omc = q_sub(q_one(), c);
    let ab = q_mul(a, b);
    let t1 = q_mul(omc, ab);
    let t2 = q_mul(s, k);
    lemma_mul_congr(omc.n, ab.n, c.d - c.n, a.n * b.n);
    lemma_mul_congr(omc.d, ab.d, c.d, a.d * b.d);
    lemma_mul_congr(t1.n, t2.d, (c.d - c.n) * (a.n * b.n), s.d * k.d);
    lemma_mul_congr(t2.n, t1.d, s.n * k.n, c.d * (a.d * b.d));
    lemma_mul_congr(t1.d, t2.d, c.d * (a.d * b.d), s.d * k.d);
}

/// The components of a negative-skew off-diagonal Rodrigues entry.
proof fn lemma_rod_off_sub_comp(c: Q, s: Q, a: Q, b: Q, k: Q)
    ensures
        rod_off_sub(c, s, a, b, k).n == ((c.d - c.n) * (a.n * b.n)) * (s.d * k.d) + (-(s.n * k.n))
            * (c.d * (a.d * b.d)),
        rod_off_sub(c, s, a, b, k).d == (c.d * (a.d * b.d)) * (s.d * k.d),
{
    let omc = q_sub(q_one(), c);
    let ab = q_mul(a, b);
    let t1 = q_mul(omc, ab);
    let t2 = q_mul(s, k);
    let nt2 = q_neg(t2);
    lemma_mul_congr(omc.n, ab.n, c.d - c.n, a.n * b.n);
    lemma_mul_congr(omc.d, ab.d, c.d, a.d * b.d);
    lemma_mul_congr(t1.n, nt2.d, (c.d - c.n) * (a.n * b.n), s.d * k.d);
    lemma_mul_congr(nt2.n, t1.d, -(s.n * k.n), c.d * (a.d * b.d));
    lemma_mul_congr(t1.d, nt2.d, c.d * (a.d * b.d), s.d * k.d);
}

/// A diagonal Rodrigues entry over an axis component that is zero denotes
/// plain `c`.
proof fn lemma_rod_diag_axis_zero(c: Q, a: Q)
    requires
        q_wf(c),
        q_wf(a),
        a.n == 0,
    ensures
        q_eq(rod_diag(c, a), c),
{
    lemma_rod_diag_comp(c, a);
    let e = rod_diag(c, a);
    assert(e.n * c.d == c.n * e.d) by (nonlinear_arith)
        requires
            e.n == c.n * (c.d * (a.d * a.d)) + ((c.d - c.n) * (a.n * a.n)) * c.d,
            e.d == c.d * (c.d * (a.d * a.d)),
            a.n == 0,
    ;
}

/// A diagonal Rodrigues entry over an axis component that denotes one (for
/// any cosine) denotes one: `c + (1 - c) = 1`.
proof fn lemma_rod_diag_axis_one(c: Q, a: Q)
    requires
        q_wf(c),
        q_wf(a),
        a.n == a.d,
    ensures
        q_eq(rod_diag(c, a), q_one()),
{
    lemma_rod_diag_comp(c, a);
    let e = rod_diag(c, a);
    assert(e.n * 1 == 1 * e.d) by (nonlinear_arith)
        requires
            e.n == c.n * (c.d * (a.d * a.d)) + ((c.d - c.n) * (a.n * a.n)) * c.d,
            e.d == c.d * (c.d * (a.d * a.d)),
            a.n == a.d,
    ;
}

/// A diagonal Rodrigues entry at the zero angle (cosine denoting one)
/// denotes one, whatever the axis component.
proof fn lemma_rod_diag_zero_angle(c: Q, a: Q)
    requires
        q_wf(c),
        q_wf(a),
        c.n == c.d,
    ensures
        q_eq(rod_diag(c, a), q_one()),
{
    lemma_rod_diag_comp(c, a);
    let e = rod_diag(c, a);
    assert(e.n * 1 == 1 * e.d) by (nonlinear_arith)
        requires
            e.n == c.n * (c.d * (a.d * a.d)) + ((c.d - c.n) * (a.n * a.n)) * c.d,
            e.d == c.d * (c.d * (a.d * a.d)),
            c.n == c.d,
    ;
}

/// A positive-skew off-diagonal entry vanishes when both of its terms do.
proof fn lemma_rod_off_add_vanishes(c: Q, s: Q, a: Q, b: Q, k: Q)
    requires
        q_wf(c),
        q_wf(s),
        q_wf(a),
        q_wf(b),
        q_wf(k),
        a.n == 0 || b.n == 0 || c.d == c.n,
        s.n == 0 || k.n == 0,
    ensures
        q_eq(rod_off_add(c, s, a, b, k), q_zero()),
{
    lemma_rod_off_add_comp(c, s, a, b, k);
    let e = rod_off_add(c, s, a, b, k);
    assert(e.n * 1 == 0 * e.d) by (nonlinear_arith)
        requires
            e.n == ((c.d - c.n) * (a.n * b.n)) * (s.d * k.d) + (s.n * k.n) * (c.d * (a.d * b.d)),
            a.n == 0 || b.n == 0 || c.d == c.n,
            s.n == 0 || k.n == 0,
    ;
}

/// A negative-skew off-diagonal entry vanishes when both of its terms do.
proof fn lemma_rod_off_sub_vanishes(c: Q, s: Q, a: Q, b: Q, k: Q)
    requires
        q_wf(c),
        q_wf(s),
        q_wf(a),
        q_wf(b),
        q_wf(k),
        a.n == 0 || b.n == 0 || c.d == c.n,
        s.n == 0 || k.n == 0,
    ensures
        q_eq(rod_off_sub(c, s, a, b, k), q_zero()),
{
    lemma_rod_off_sub_comp(c, s, a, b, k);
    let e = rod_off_sub(c, s, a, b, k);
    assert(e.n * 1 == 0 * e.d) by (nonlinear_arith)
        requires
            e.n == ((c.d - c.n) * (a.n * b.n)) * (s.d * k.d) + (-(s.n * k.n)) * (c.d * (a.d * b.d)),
            a.n == 0 || b.n == 0 || c.d == c.n,
            s.n == 0 || k.n == 0,
    ;
}

/// A positive-skew off-diagonal entry whose product term vanishes and whose
/// skew component denotes one reduces to the sine.
proof fn lemma_rod_off_add_skew(c: Q, s: Q, a: Q, b: Q, k: Q)
    requires
        q_wf(c),
        q_wf(s),
        q_wf(a),
        q_wf(b),
        q_wf(k),
        a.n == 0 || b.n == 0,
        k.n == k.d,
    ensures
        q_eq(rod_off_add(c, s, a, b, k), s),
{
    lemma_rod_off_add_comp(c, s, a, b, k);
    let e = rod_off_add(c, s, a, b, k);
    assert(e.n * s.d == s.n * e.d) by (nonlinear_arith)
        requires
            e.n == ((c.d - c.n) * (a.n * b.n)) * (s.d * k.d) + (s.n * k.n) * (c.d * (a.d * b.d)),
            e.d == (c.d * (a.d * b.d)) * (s.d * k.d),
            a.n == 0 || b.n == 0,
            k.n == k.d,
    ;
}

/// A negative-skew off-diagonal entry whose product term vanishes and whose
/// skew component denotes one reduces to the negated sine.
proof fn lemma_rod_off_sub_skew(c: Q, s: Q, a: Q, b: Q, k: Q)
    requires
        q_wf(c),
        q_wf(s),
        q_wf(a),
        q_wf(b),
        q_wf(k),
        a.n == 0 || b.n == 0,
        k.n == k.d,
    ensures
        q_eq(rod_off_sub(c, s, a, b, k), q_neg(s)),
{
    lemma_rod_off_sub_comp(c, s, a, b, k);
    let e = rod_off_sub(c, s, a, b, k);
    assert(e.n * s.d == (-s.n) * e.d) by (nonlinear_arith)
        requires
            e.n == ((c.d - c.n) * (a.n * b.n)) * (s.d * k.d) + (-(s.n * k.n)) * (c.d * (a.d * b.d)),
            e.d == (c.d * (a.d * b.d)) * (s.d * k.d),
            a.n == 0 || b.n == 0,
            k.n == k.d,
    ;
}

/// The rotation by the zero angle (cosine one, sine zero) about any axis is
/// the identity: with `1 - cos = 0` and `sin = 0` every formula term beyond
/// `c * I` vanishes.
pub proof fn lemma_model_zero_angle_identity(n: QVec3)
    requires
        qvec3_wf(n),
    ensures
        qmat_eqv(rodrigues_q(q_one(), q_zero(), n), qmat_id()),
{
    let c = q_one();
    let s = q_zero();
    lemma_rod_diag_zero_angle(c, n.x);
    lemma_rod_diag_zero_angle(c, n.y);
    lemma_rod_diag_zero_angle(c, n.z);
    lemma_rod_off_sub_vanishes(c, s, n.x, n.y, n.z);
    lemma_rod_off_add_vanishes(c, s, n.x, n.z, n.y);
    lemma_rod_off_add_vanishes(c, s, n.y, n.x, n.z);
    lemma_rod_off_sub_vanishes(c, s, n.y, n.z, n.x);
    lemma_rod_off_sub_vanishes(c, s, n.z, n.x, n.y);
    lemma_rod_off_add_vanishes(c, s, n.z, n.y, n.x);
}

/// The Rodrigues formula instantiated at the unit +z axis equals the
/// closed-form in-plane rotation matrix, entry for entry.
pub proof fn lemma_rodrigues_z_closed_form(c: Q, s: Q)
    requires
        q_wf(c),
        q_wf(s),
    ensures
        qmat_eqv(rodrigues_q(c, s, q_unit_z()), qmat_rot2d(c, s)),
{
    let z = q_zero();
    let o = q_one();
    lemma_rod_diag_axis_zero(c, z);
    lemma_rod_diag_axis_one(c, o);
    lemma_rod_off_sub_skew(c, s, z, z, o);
    lemma_rod_off_add_skew(c, s, z, z, o);
    lemma_rod_off_add_vanishes(c, s, z, o, z);
    lemma_rod_off_sub_vanishes(c, s, z, o, z);
    lemma_rod_off_sub_vanishes(c, s, o, z, z);
    lemma_rod_off_add_vanishes(c, s, o, z, z);
}

/// The view matrix sends the eye itself to the origin: applied to the
/// homogeneous point `(e.x, e.y, e.z, 1)` it yields `(0, 0, 0, 1)`, exactly.
pub proof fn lemma_view_maps_eye_to_origin(e: QVec3)
    requires
        qvec3_wf(e),
    ensures
        qvec4_eqv(
            qmat_apply(qmat_view(e), QVec4 { x: e.x, y: e.y, z: e.z, w: q_one() }),
            QVec4 { x: q_zero(), y: q_zero(), z: q_zero(), w: q_one() },
        ),
{
    let res = qmat_apply(qmat_view(e), QVec4 { x: e.x, y: e.y, z: e.z, w: q_one() });
    lemma_dot4_select0(q_neg(e.x), e.x, e.y, e.z);
    lemma_q_add_neg(e.x);
    assert(q_wf(q_add(e.x, q_neg(e.x)))) by (nonlinear_arith)
        requires
            e.x.d > 0,
    ;
    lemma_q_eq_trans(res.x, q_add(e.x, q_neg(e.x)), q_zero());
    lemma_dot4_select1(q_neg(e.y), e.x, e.y, e.z);
    lemma_q_add_neg(e.y);
    assert(q_wf(q_add(e.y, q_neg(e.y)))) by (nonlinear_arith)
        requires
            e.y.d > 0,
    ;
    lemma_q_eq_trans(res.y, q_add(e.y, q_neg(e.y)), q_zero());
    lemma_dot4_select2(q_neg(e.z), e.x, e.y, e.z);
    lemma_q_add_neg(e.z);
    assert(q_wf(q_add(e.z, q_neg(e.z)))) by (nonlinear_arith)
        requires
            e.z.d > 0,
    ;
    lemma_q_eq_trans(res.z, q_add(e.z, q_neg(e.z)), q_zero());
    lemma_dot4_select3(e.x, e.y, e.z, q_one());
}

/// Builds the view matrix for an axis-aligned camera at `eye_pos`: world
/// space is translated so the camera sits at the origin looking down -z.
pub fn get_view_matrix(eye_pos: &Vec3) -> (r: Mat4)
    requires
        q_small(eye_pos@.x),
        q_small(eye_pos@.y),
        q_small(eye_pos@.z),
    ensures
        r@ == qmat_view(eye_pos@),
        r.wf(),
{
    let zero = Rat::zero();
    let one = Rat::one();
    Mat4 {
        m00: one,  m01: zero, m02: zero, m03: rat_neg(&eye_pos.x),
        m10: zero, m11: one,  m12: zero, m13: rat_neg(&eye_pos.y),
        m20: zero, m21: zero, m22: one,  m23: rat_neg(&eye_pos.z),
        m30: zero, m31: zero, m32: zero, m33: one,
    }
}

/// A diagonal entry of the Rodrigues 3x3 block, executed exactly.
fn rodrigues_diag(c: &Rat, ni: &Rat) -> (r: Rat)
    requires
        q_small(c@),
        q_small(ni@),
    ensures
        r@ == rod_diag(c@, ni@),
        r.wf(),
{
    proof {
        lemma_neg_bound(c@, rat_bound());
        lemma_add_fits(q_one(), q_neg(c@), 1, rat_bound());
        lemma_mul_fits(ni@, ni@, rat_bound(), rat_bound());
        lemma_mul_fits(
            q_sub(q_one(), c@),
            q_mul(ni@, ni@),
            2 * rat_bound(),
            rat_bound() * rat_bound(),
        );
        lemma_add_fits(
            c@,
            q_mul(q_sub(q_one(), c@), q_mul(ni@, ni@)),
            rat_bound(),
            2 * (rat_bound() * rat_bound() * rat_bound()),
        );
    }
    let one = Rat::one();
    let omc = rat_sub(&one, c);
    let nn = rat_mul(ni, ni);
    let t = rat_mul(&omc, &nn);
    rat_add(c, &t)
}

/// A positive-skew off-diagonal Rodrigues entry, executed exactly.
fn rodrigues_off_add(c: &Rat, s: &Rat, ni: &Rat, nj: &Rat, nk: &Rat) -> (r: Rat)
    requires
        q_small(c@),
        q_small(s@),
        q_small(ni@),
        q_small(nj@),
        q_small(nk@),
    ensures
        r@ == rod_off_add(c@, s@, ni@, nj@, nk@),
        r.wf(),
{
    proof {
        lemma_neg_bound(c@, rat_bound());
        lemma_add_fits(q_one(), q_neg(c@), 1, rat_bound());
        lemma_mul_fits(ni@, nj@, rat_bound(), rat_bound());
        lemma_mul_fits(
            q_sub(q_one(), c@),
            q_mul(ni@, nj@),
            2 * rat_bound(),
            rat_bound() * rat_bound(),
        );
        lemma_mul_fits(s@, nk@, rat_bound(), rat_bound());
        lemma_add_fits(
            q_mul(q_sub(q_one(), c@), q_mul(ni@, nj@)),
            q_mul(s@, nk@),
            2 * (rat_bound() * rat_bound() * rat_bound()),
            rat_bound() * rat_bound(),
        );
    }
    let one = Rat::one();
    let omc = rat_sub(&one, c);
    let ninj = rat_mul(ni, nj);
    let t1 = rat_mul(&omc, &ninj);
    let t2 = rat_mul(s, nk);
    rat_add(&t1, &t2)
}

/// A negative-skew off-diagonal Rodrigues entry, executed exactly.
fn rodrigues_off_sub(c: &Rat, s: &Rat, ni: &Rat, nj: &Rat, nk: &Rat) -> (r: Rat)
    requires
        q_small(c@),
        q_small(s@),
        q_small(ni@),
        q_small(nj@),
        q_small(nk@),
    ensures
        r@ == rod_off_sub(c@, s@, ni@, nj@, nk@),
        r.wf(),
{
    proof {
        lemma_neg_bound(c@, rat_bound());
        lemma_add_fits(q_one(), q_neg(c@), 1, rat_bound());
        lemma_mul_fits(ni@, nj@, rat_bound(), rat_bound());
        lemma_mul_fits(
            q_sub(q_one(), c@),
            q_mul(ni@, nj@),
            2 * rat_bound(),
            rat_bound() * rat_bound(),
        );
        lemma_mul_fits(s@, nk@, rat_bound(), rat_bound());
        lemma_neg_bound(q_mul(s@, nk@), rat_bound() * rat_bound());
        lemma_add_fits(
            q_mul(q_sub(q_one(), c@), q_mul(ni@, nj@)),
            q_neg(q_mul(s@, nk@)),
            2 * (rat_bound() * rat_bound() * rat_bound()),
            rat_bound() * rat_bound(),
        );
    }
    let one = Rat::one();
    let omc = rat_sub(&one, c);
    let ninj = rat_mul(ni, nj);
    let t1 = rat_mul(&omc, &ninj);
    let t2 = rat_mul(s, nk);
    rat_sub(&t1, &t2)
}

/// Builds the model matrix: rotation about the unit axis `axis` through the
/// origin, by the angle whose cosine is `cos_angle` and sine is `sin_angle`,
/// via the Rodrigues rotation formula.
///
/// Preconditions, documented rather than checked at run time: the axis must
/// be nonzero, and is expected to be unit length for the result to be a
/// rotation; the caller normalizes it at the floating-point boundary.
pub fn get_model_matrix(cos_angle: &Rat, sin_angle: &Rat, axis: &Vec3) -> (r: Mat4)
    requires
        q_small(cos_angle@),
        q_small(sin_angle@),
        q_small(axis@.x),
        q_small(axis@.y),
        q_small(axis@.z),
        !(axis@.x.n == 0 && axis@.y.n == 0 && axis@.z.n == 0),
    ensures
        r@ == rodrigues_q(cos_angle@, sin_angle@, axis@),
        r.wf(),
{
    let zero = Rat::zero();
    let one = Rat::one();
    Mat4 {
        m00: rodrigues_diag(cos_angle, &axis.x),
        m01: rodrigues_off_sub(cos_angle, sin_angle, &axis.x, &axis.y, &axis.z),
        m02: rodrigues_off_add(cos_angle, sin_angle, &axis.x, &axis.z, &axis.y),
        m03: zero,
        m10: rodrigues_off_add(cos_angle, sin_angle, &axis.y, &axis.x, &axis.z),
        m11: rodrigues_diag(cos_angle, &axis.y),
        m12: rodrigues_off_sub(cos_angle, sin_angle, &axis.y, &axis.z, &axis.x),
        m13: zero,
        m20: rodrigues_off_sub(cos_angle, sin_angle, &axis.z, &axis.x, &axis.y),
        m21: rodrigues_off_add(cos_angle, sin_angle, &axis.z, &axis.y, &axis.x),
        m22: rodrigues_diag(cos_angle, &axis.z),
        m23: zero,
        m30: zero, m31: zero, m32: zero, m33: one,
    }
}

/// The in-plane rotation matrix (about +z), the degenerate two-argument
/// variant of [`get_model_matrix`]: it instantiates the general Rodrigues
/// formula at the fixed axis rather than duplicating the matrix literal, and
/// its result equals the closed-form 2D rotation matrix.
pub fn get_model_matrix_z(cos_angle: &Rat, sin_angle: &Rat) -> (r: Mat4)
    requires
        q_small(cos_angle@),
        q_small(sin_angle@),
    ensures
        r@ == rodrigues_q(cos_angle@, sin_angle@, q_unit_z()),
        qmat_eqv(r@, qmat_rot2d(cos_angle@, sin_angle@)),
        r.wf(),
{
    let axis = Vec3::new(Rat::zero(), Rat::zero(), Rat::one());
    let r = get_model_matrix(cos_angle, sin_angle, &axis);
    proof {
        lemma_rodrigues_z_closed_form(cos_angle@, sin_angle@);
    }
    r
}

/// The rational two.
pub open spec fn q_two() -> Q {
    Q { n: 2, d: 1 }
}

/// Near-plane half-height of the frustum: `h = -z_near * tan(fov/2)`.
pub open spec fn proj_h(tan_half_fov: Q, z_near: Q) -> Q {
    q_mul(q_neg(z_near), tan_half_fov)
}

/// Near-plane half-width of the frustum: `w = h * aspect_ratio`.
pub open spec fn proj_w(tan_half_fov: Q, aspect_ratio: Q, z_near: Q) -> Q {
    q_mul(proj_h(tan_half_fov, z_near), aspect_ratio)
}

/// First projection stage: the perspective-to-orthographic squash matrix.
pub open spec fn qmat_persp(z_near: Q, z_far: Q) -> QMat4 {
    QMat4 {
        m00: z_near,   m01: q_zero(), m02: q_zero(), m03: q_zero(),
        m10: q_zero(), m11: z_near,   m12: q_zero(), m13: q_zero(),
        m20: q_zero(), m21: q_zero(), m22: q_add(z_near, z_far),
        m23: q_neg(q_mul(z_near, z_far)),
        m30: q_zero(), m31: q_zero(), m32: q_one(),  m33: q_zero(),
    }
}

/// Second projection stage: the translation that centers the z-range at the
/// origin.
pub open spec fn qmat_ztrans(z_near: Q, z_far: Q) -> QMat4 {
    QMat4 {
        m00: q_one(),  m01: q_zero(), m02: q_zero(), m03: q_zero(),
        m10: q_zero(), m11: q_one(),  m12: q_zero(), m13: q_zero(),
        m20: q_zero(), m21: q_zero(), m22: q_one(),
        m23: q_neg(q_div(q_add(z_near, z_far), q_two())),
        m30: q_zero(), m31: q_zero(), m32: q_zero(), m33: q_one(),
    }
}

/// Third projection stage: the scale that maps the frustum to the unit cube.
/// The z factor is `2/(z_near - z_far)`, so that the full near-to-far range
/// lands on `[-1, 1]` as the contract demands.
pub open spec fn qmat_scale(tan_half_fov: Q, aspect_ratio: Q, z_near: Q, z_far: Q) -> QMat4 {
    QMat4 {
        m00: q_div(q_one(), proj_w(tan_half_fov, aspect_ratio, z_near)),
        m01: q_zero(), m02: q_zero(), m03: q_zero(),
        m10: q_zero(),
        m11: q_div(q_one(), proj_h(tan_half_fov, z_near)),
        m12: q_zero(), m13: q_zero(),
        m20: q_zero(), m21: q_zero(),
        m22: q_div(q_two(), q_sub(z_near, z_far)),
        m23: q_zero(),
        m30: q_zero(), m31: q_zero(), m32: q_zero(), m33: q_one(),
    }
}

/// The perspective projection matrix: entry for entry, the product of the
/// three stages `scale * (ztrans * persp)` written in closed form.
pub open spec fn qmat_proj(tan_half_fov: Q, aspect_ratio: Q, z_near: Q, z_far: Q) -> QMat4 {
    QMat4 {
        m00: q_div(z_near, proj_w(tan_half_fov, aspect_ratio, z_near)),
        m01: q_zero(), m02: q_zero(), m03: q_zero(),
        m10: q_zero(),
        m11: q_div(z_near, proj_h(tan_half_fov, z_near)),
        m12: q_zero(), m13: q_zero(),
        m20: q_zero(), m21: q_zero(),
        m22: q_div(q_add(z_near, z_far), q_sub(z_near, z_far)),
        m23: q_neg(q_div(q_mul(q_two(), q_mul(z_near, z_far)), q_sub(z_near, z_far))),
        m30: q_zero(), m31: q_zero(), m32: q_one(),  m33: q_zero(),
    }
}

/// Builds the perspective projection matrix from the tangent of half the
/// vertical field of view, the aspect ratio, and the near and far plane
/// z-coordinates. Per the stage construction, a point `(0, 0, z_near, 1)`
/// lands on one clip plane and `(0, 0, z_far, 1)` on the other after the
/// homogeneous divide; with the planes given as negative z-coordinates the
/// near plane maps to +1. Degenerate inputs (zero tangent, aspect or near
/// plane, equal planes) are excluded by precondition: they would make the
/// matrix singular.
pub fn get_projection_matrix(tan_half_fov: &Rat, aspect_ratio: &Rat, z_near: &Rat, z_far: &Rat)
    -> (r: Mat4)
    requires
        q_small(tan_half_fov@),
        q_small(aspect_ratio@),
        q_small(z_near@),
        q_small(z_far@),
        tan_half_fov@.n != 0,
        aspect_ratio@.n != 0,
        z_near@.n != 0,
        !q_eq(z_near@, z_far@),
    ensures
        r@ == qmat_proj(tan_half_fov@, aspect_ratio@, z_near@, z_far@),
        r.wf(),
{
    let b: Ghost<int> = Ghost(rat_bound());
    proof {
        lemma_neg_bound(z_near@, b@);
        lemma_mul_fits(q_neg(z_near@), tan_half_fov@, b@, b@);
        lemma_mul_fits(proj_h(tan_half_fov@, z_near@), aspect_ratio@, b@ * b@, b@);
        lemma_mul_congr(q_neg(z_near@).n, tan_half_fov@.n, -z_near@.n, tan_half_fov@.n);
        assert(proj_h(tan_half_fov@, z_near@).n != 0) by (nonlinear_arith)
            requires
                proj_h(tan_half_fov@, z_near@).n == (-z_near@.n) * tan_half_fov@.n,
                z_near@.n != 0,
                tan_half_fov@.n != 0,
        ;
        assert(proj_w(tan_half_fov@, aspect_ratio@, z_near@).n != 0) by (nonlinear_arith)
            requires
                proj_w(tan_half_fov@, aspect_ratio@, z_near@).n == proj_h(
                    tan_half_fov@,
                    z_near@,
                ).n * aspect_ratio@.n,
                proj_h(tan_half_fov@, z_near@).n != 0,
                aspect_ratio@.n != 0,
        ;
        lemma_inv_bound(proj_w(tan_half_fov@, aspect_ratio@, z_near@), (b@ * b@) * b@);
        lemma_mul_fits(
            z_near@,
            crate::rational::q_inv(proj_w(tan_half_fov@, aspect_ratio@, z_near@)),
            b@,
            (b@ * b@) * b@,
        );
        lemma_inv_bound(proj_h(tan_half_fov@, z_near@), b@ * b@);
        lemma_mul_fits(
            z_near@,
            crate::rational::q_inv(proj_h(tan_half_fov@, z_near@)),
            b@,
            b@ * b@,
        );
        lemma_add_fits(z_near@, z_far@, b@, b@);
        lemma_neg_bound(z_far@, b@);
        lemma_add_fits(z_near@, q_neg(z_far@), b@, b@);
        lemma_mul_congr(z_near@.n, q_neg(z_far@).d, z_near@.n, z_far@.d);
        lemma_mul_congr(q_neg(z_far@).n, z_near@.d, -z_far@.n, z_near@.d);
        assert(q_sub(z_near@, z_far@).n != 0) by (nonlinear_arith)
            requires
                q_sub(z_near@, z_far@).n == z_near@.n * z_far@.d + (-z_far@.n) * z_near@.d,
                z_near@.n * z_far@.d != z_far@.n * z_near@.d,
        ;
        lemma_inv_bound(q_sub(z_near@, z_far@), 2 * (b@ * b@));
        lemma_mul_fits(
            q_add(z_near@, z_far@),
            crate::rational::q_inv(q_sub(z_near@, z_far@)),
            2 * (b@ * b@),
            2 * (b@ * b@),
        );
        lemma_mul_fits(z_near@, z_far@, b@, b@);
        lemma_mul_fits(q_two(), q_mul(z_near@, z_far@), 2, b@ * b@);
        lemma_mul_fits(
            q_mul(q_two(), q_mul(z_near@, z_far@)),
            crate::rational::q_inv(q_sub(z_near@, z_far@)),
            2 * (b@ * b@),
            2 * (b@ * b@),
        );
    }
    let zero = Rat::zero();
    let one = Rat::one();
    let two = Rat::from_int(2);
    let nn = rat_neg(z_near);
    let h = rat_mul(&nn, tan_half_fov);
    let w = rat_mul(&h, aspect_ratio);
    let m00 = rat_div(z_near, &w);
    let m11 = rat_div(z_near, &h);
    let sum = rat_add(z_near, z_far);
    let diff = rat_sub(z_near, z_far);
    let m22 = rat_div(&sum, &diff);
    let nf = rat_mul(z_near, z_far);
    let nf2 = rat_mul(&two, &nf);
    let q = rat_div(&nf2, &diff);
    let m23 = rat_neg(&q);
    Mat4 {
        m00, m01: zero, m02: zero, m03: zero,
        m10: zero, m11, m12: zero, m13: zero,
        m20: zero, m21: zero, m22, m23,
        m30: zero, m31: zero, m32: one, m33: zero,
    }
}

/// The one-axis blend `1 * zq + 0 * 1` denotes `zq` again.
proof fn lemma_w_blend_ident(zq: Q)
    requires
        q_wf(zq),
    ensures
        q_eq(q_add(q_mul(q_one(), zq), q_mul(q_zero(), q_one())), zq),
        q_wf(q_add(q_mul(q_one(), zq), q_mul(q_zero(), q_one()))),
{
    let m1 = q_mul(q_one(), zq);
    let m2 = q_mul(q_zero(), q_one());
    let su = q_add(m1, m2);
    lemma_mul_basics(zq.n);
    lemma_mul_basics(zq.d);
    lemma_mul_congr(q_one().n, zq.n, 1, zq.n);
    lemma_mul_congr(q_one().d, zq.d, 1, zq.d);
    lemma_mul_congr(q_zero().n, q_one().n, 0, 1);
    lemma_mul_congr(q_zero().d, q_one().d, 1, 1);
    lemma_mul_congr(m1.n, m2.d, zq.n, 1);
    lemma_mul_congr(m2.n, m1.d, 0, zq.d);
    lemma_mul_congr(m1.d, m2.d, zq.d, 1);
    lemma_mul_congr(su.n, zq.d, zq.n, zq.d);
    lemma_mul_congr(zq.n, su.d, zq.n, zq.d);
}

/// The z-row algebra at the near plane:
/// `(n + f) * n - 2 * n * f == n * (n - f)`, as denoted rationals.
#[verifier::rlimit(100)]
proof fn lemma_proj_core_near(n: Q, f: Q)
    requires
        q_wf(n),
        q_wf(f),
    ensures
        q_eq(
            q_sub(q_mul(q_add(n, f), n), q_mul(q_two(), q_mul(n, f))),
            q_mul(n, q_sub(n, f)),
        ),
{
    let ss = q_add(n, f);
    let p2 = q_mul(q_two(), q_mul(n, f));
    let l = q_sub(q_mul(ss, n), p2);
    let dd = q_sub(n, f);
    let r = q_mul(n, dd);
    lemma_mul_basics(n.d * f.d);
    lemma_mul_congr(ss.n, n.n, n.n * f.d + f.n * n.d, n.n);
    lemma_mul_congr(ss.d, n.d, n.d * f.d, n.d);
    lemma_mul_congr(q_two().n, q_mul(n, f).n, 2, n.n * f.n);
    lemma_mul_congr(q_two().d, q_mul(n, f).d, 1, n.d * f.d);
    lemma_mul_congr(q_mul(ss, n).n, q_neg(p2).d, (n.n * f.d + f.n * n.d) * n.n, n.d * f.d);
    lemma_mul_congr(q_neg(p2).n, q_mul(ss, n).d, -(2 * (n.n * f.n)), (n.d * f.d) * n.d);
    lemma_mul_congr(q_mul(ss, n).d, q_neg(p2).d, (n.d * f.d) * n.d, n.d * f.d);
    lemma_mul_congr(n.n, q_neg(f).d, n.n, f.d);
    lemma_mul_congr(q_neg(f).n, n.d, -f.n, n.d);
    lemma_mul_congr(n.n, dd.n, n.n, n.n * f.d + (-f.n) * n.d);
    lemma_mul_congr(n.d, dd.d, n.d, n.d * f.d);
    lemma_mul_congr(
        l.n,
        r.d,
        ((n.n * f.d + f.n * n.d) * n.n) * (n.d * f.d) + (-(2 * (n.n * f.n))) * ((n.d * f.d)
            * n.d),
        n.d * (n.d * f.d),
    );
    lemma_mul_congr(
        r.n,
        l.d,
        n.n * (n.n * f.d + (-f.n) * n.d),
        ((n.d * f.d) * n.d) * (n.d * f.d),
    );
    lemma_mul_is_distributive_add_other_way(n.n, n.n * f.d, f.n * n.d);
    lemma_mul_congr(
        (n.n * f.d + f.n * n.d) * n.n,
        n.d * f.d,
        (n.n * f.d) * n.n + (f.n * n.d) * n.n,
        n.d * f.d,
    );
    lemma_mul_is_distributive_add_other_way(n.d * f.d, (n.n * f.d) * n.n, (f.n * n.d) * n.n);
    lemma_mul_is_distributive_add_other_way(
        n.d * (n.d * f.d),
        ((n.n * f.d) * n.n) * (n.d * f.d) + ((f.n * n.d) * n.n) * (n.d * f.d),
        (-(2 * (n.n * f.n))) * ((n.d * f.d) * n.d),
    );
    lemma_mul_is_distributive_add_other_way(
        n.d * (n.d * f.d),
        ((n.n * f.d) * n.n) * (n.d * f.d),
        ((f.n * n.d) * n.n) * (n.d * f.d),
    );
    lemma_mul_congr(
        ((n.n * f.d + f.n * n.d) * n.n) * (n.d * f.d) + (-(2 * (n.n * f.n))) * ((n.d * f.d)
            * n.d),
        n.d * (n.d * f.d),
        ((n.n * f.d) * n.n) * (n.d * f.d) + ((f.n * n.d) * n.n) * (n.d * f.d) + (-(2 * (n.n
            * f.n))) * ((n.d * f.d) * n.d),
        n.d * (n.d * f.d),
    );
    assert(n.n * (n.n * f.d + (-f.n) * n.d) == n.n * (n.n * f.d) + n.n * ((-f.n) * n.d))
        by (nonlinear_arith);
    lemma_mul_congr(
        n.n * (n.n * f.d + (-f.n) * n.d),
        ((n.d * f.d) * n.d) * (n.d * f.d),
        n.n * (n.n * f.d) + n.n * ((-f.n) * n.d),
        ((n.d * f.d) * n.d) * (n.d * f.d),
    );
    lemma_mul_is_distributive_add_other_way(
        ((n.d * f.d) * n.d) * (n.d * f.d),
        n.n * (n.n * f.d),
        n.n * ((-f.n) * n.d),
    );
    assert((((n.n * f.d) * n.n) * (n.d * f.d)) * (n.d * (n.d * f.d)) == (n.n * (n.n * f.d)) * ((
    (n.d * f.d) * n.d) * (n.d * f.d))) by (nonlinear_arith);
    assert((((f.n * n.d) * n.n) * (n.d * f.d)) * (n.d * (n.d * f.d)) + ((-(2 * (n.n * f.n))) * ((
    n.d * f.d) * n.d)) * (n.d * (n.d * f.d)) == (n.n * ((-f.n) * n.d)) * (((n.d * f.d) * n.d) * (
    n.d * f.d))) by (nonlinear_arith);
}

/// The z-row algebra at the far plane:
/// `(n + f) * f - 2 * n * f == (-f) * (n - f)`, as denoted rationals.
#[verifier::rlimit(100)]
proof fn lemma_proj_core_far(n: Q, f: Q)
    requires
        q_wf(n),
        q_wf(f),
    ensures
        q_eq(
            q_sub(q_mul(q_add(n, f), f), q_mul(q_two(), q_mul(n, f))),
            q_mul(q_neg(f), q_sub(n, f)),
        ),
{
    let ss = q_add(n, f);
    let p2 = q_mul(q_two(), q_mul(n, f));
    let l = q_sub(q_mul(ss, f), p2);
    let dd = q_sub(n, f);
    let r = q_mul(q_neg(f), dd);
    lemma_mul_basics(n.d * f.d);
    lemma_mul_congr(ss.n, f.n, n.n * f.d + f.n * n.d, f.n);
    lemma_mul_congr(ss.d, f.d, n.d * f.d, f.d);
    lemma_mul_congr(q_two().n, q_mul(n, f).n, 2, n.n * f.n);
    lemma_mul_congr(q_two().d, q_mul(n, f).d, 1, n.d * f.d);
    lemma_mul_congr(q_mul(ss, f).n, q_neg(p2).d, (n.n * f.d + f.n * n.d) * f.n, n.d * f.d);
    lemma_mul_congr(q_neg(p2).n, q_mul(ss, f).d, -(2 * (n.n * f.n)), (n.d * f.d) * f.d);
    lemma_mul_congr(q_mul(ss, f).d, q_neg(p2).d, (n.d * f.d) * f.d, n.d * f.d);
    lemma_mul_congr(n.n, q_neg(f).d, n.n, f.d);
    lemma_mul_congr(q_neg(f).n, n.d, -f.n, n.d);
    lemma_mul_congr(q_neg(f).n, dd.n, -f.n, n.n * f.d + (-f.n) * n.d);
    lemma_mul_congr(q_neg(f).d, dd.d, f.d, n.d * f.d);
    lemma_mul_congr(
        l.n,
        r.d,
        ((n.n * f.d + f.n * n.d) * f.n) * (n.d * f.d) + (-(2 * (n.n * f.n))) * ((n.d * f.d)
            * f.d),
        f.d * (n.d * f.d),
    );
    lemma_mul_congr(
        r.n,
        l.d,
        (-f.n) * (n.n * f.d + (-f.n) * n.d),
        ((n.d * f.d) * f.d) * (n.d * f.d),
    );
    lemma_mul_is_distributive_add_other_way(f.n, n.n * f.d, f.n * n.d);
    lemma_mul_congr(
        (n.n * f.d + f.n * n.d) * f.n,
        n.d * f.d,
        (n.n * f.d) * f.n + (f.n * n.d) * f.n,
        n.d * f.d,
    );
    lemma_mul_is_distributive_add_other_way(n.d * f.d, (n.n * f.d) * f.n, (f.n * n.d) * f.n);
    lemma_mul_congr(
        ((n.n * f.d + f.n * n.d) * f.n) * (n.d * f.d) + (-(2 * (n.n * f.n))) * ((n.d * f.d)
            * f.d),
        f.d * (n.d * f.d),
        ((n.n * f.d) * f.n) * (n.d * f.d) + ((f.n * n.d) * f.n) * (n.d * f.d) + (-(2 * (n.n
            * f.n))) * ((n.d * f.d) * f.d),
        f.d * (n.d * f.d),
    );
    lemma_mul_is_distributive_add_other_way(
        f.d * (n.d * f.d),
        ((n.n * f.d) * f.n) * (n.d * f.d) + ((f.n * n.d) * f.n) * (n.d * f.d),
        (-(2 * (n.n * f.n))) * ((n.d * f.d) * f.d),
    );
    lemma_mul_is_distributive_add_other_way(
        f.d * (n.d * f.d),
        ((n.n * f.d) * f.n) * (n.d * f.d),
        ((f.n * n.d) * f.n) * (n.d * f.d),
    );
    assert((-f.n) * (n.n * f.d + (-f.n) * n.d) == (-f.n) * (n.n * f.d) + (-f.n) * ((-f.n) * n.d))
        by (nonlinear_arith);
    lemma_mul_congr(
        (-f.n) * (n.n * f.d + (-f.n) * n.d),
        ((n.d * f.d) * f.d) * (n.d * f.d),
        (-f.n) * (n.n * f.d) + (-f.n) * ((-f.n) * n.d),
        ((n.d * f.d) * f.d) * (n.d * f.d),
    );
    lemma_mul_is_distributive_add_other_way(
        ((n.d * f.d) * f.d) * (n.d * f.d),
        (-f.n) * (n.n * f.d),
        (-f.n) * ((-f.n) * n.d),
    );
    assert((((f.n * n.d) * f.n) * (n.d * f.d)) * (f.d * (n.d * f.d)) == ((-f.n) * ((-f.n) * n.d))
        * (((n.d * f.d) * f.d) * (n.d * f.d))) by (nonlinear_arith);
    assert((((n.n * f.d) * f.n) * (n.d * f.d)) * (f.d * (n.d * f.d)) + ((-(2 * (n.n * f.n))) * ((
    n.d * f.d) * f.d)) * (f.d * (n.d * f.d)) == ((-f.n) * (n.n * f.d)) * (((n.d * f.d) * f.d) * (
    n.d * f.d))) by (nonlinear_arith);
}

/// The projection applied to the frustum-center point `(0, 0, zq, 1)`: the
/// x and y components vanish, the clip w is `zq` again, and the clip z is
/// whatever the z-row algebra says it is.
proof fn lemma_proj_point(t: Q, a: Q, n: Q, f: Q, zq: Q, target: Q)
    requires
        q_wf(t),
        q_wf(a),
        q_wf(n),
        q_wf(f),
        q_wf(zq),
        q_wf(target),
        t.n != 0,
        a.n != 0,
        n.n != 0,
        !q_eq(n, f),
        q_eq(
            q_sub(q_mul(q_add(n, f), zq), q_mul(q_two(), q_mul(n, f))),
            q_mul(target, q_sub(n, f)),
        ),
    ensures
        ({
            let r = qmat_apply(
                qmat_proj(t, a, n, f),
                QVec4 { x: q_zero(), y: q_zero(), z: zq, w: q_one() },
            );
            q_eq(r.x, q_zero()) && q_eq(r.y, q_zero()) && q_eq(r.z, target) && q_eq(r.w, zq)
                && q_wf(r.z) && q_wf(r.w)
        }),
{
    let m = qmat_proj(t, a, n, f);
    let p = QVec4 { x: q_zero(), y: q_zero(), z: zq, w: q_one() };
    let r = qmat_apply(m, p);
    let dd = q_sub(n, f);
    let ss = q_add(n, f);
    let p2 = q_mul(q_two(), q_mul(n, f));
    let id = crate::rational::q_inv(dd);
    lemma_mul_congr(n.n, q_neg(f).d, n.n, f.d);
    lemma_mul_congr(q_neg(f).n, n.d, -f.n, n.d);
    assert(dd.n != 0) by (nonlinear_arith)
        requires
            dd.n == n.n * f.d + (-f.n) * n.d,
            n.n * f.d != f.n * n.d,
    ;
    lemma_q_wf_ops(n, q_neg(f));
    lemma_q_wf_ops(n, f);
    lemma_q_wf_ops(q_two(), q_mul(n, f));
    lemma_q_inv_char(dd);
    lemma_q_wf_ops(ss, id);
    lemma_q_wf_ops(p2, id);
    lemma_mul_congr(q_neg(n).n, t.n, -n.n, t.n);
    assert(proj_h(t, n).n != 0) by (nonlinear_arith)
        requires
            proj_h(t, n).n == (-n.n) * t.n,
            n.n != 0,
            t.n != 0,
    ;
    assert(proj_w(t, a, n).n != 0) by (nonlinear_arith)
        requires
            proj_w(t, a, n).n == proj_h(t, n).n * a.n,
            proj_h(t, n).n != 0,
            a.n != 0,
    ;
    lemma_q_wf_ops(q_neg(n), t);
    lemma_q_wf_ops(proj_h(t, n), a);
    lemma_q_inv_char(proj_w(t, a, n));
    lemma_q_wf_ops(n, crate::rational::q_inv(proj_w(t, a, n)));
    lemma_q_inv_char(proj_h(t, n));
    lemma_q_wf_ops(n, crate::rational::q_inv(proj_h(t, n)));
    // x and y rows keep only a product with the zero component.
    lemma_dot4_first(m.m00, q_zero(), q_zero(), zq, q_one());
    lemma_q_mul_zero_right(m.m00);
    lemma_q_eq_trans(r.x, q_mul(m.m00, q_zero()), q_zero());
    lemma_dot4_second(m.m11, q_zero(), q_zero(), zq, q_one());
    lemma_q_mul_zero_right(m.m11);
    lemma_q_eq_trans(r.y, q_mul(m.m11, q_zero()), q_zero());
    // w row reads the z component back.
    lemma_q_wf_ops(q_one(), zq);
    lemma_q_wf_ops(q_zero(), q_one());
    lemma_dot4_pair23(q_one(), q_zero(), q_zero(), q_zero(), zq, q_one());
    lemma_w_blend_ident(zq);
    lemma_q_eq_trans(r.w, q_add(q_mul(q_one(), zq), q_mul(q_zero(), q_one())), zq);
    // z row: m22 * zq + m23, rewritten until the z-row algebra applies.
    lemma_dot4_pair23(m.m22, m.m23, q_zero(), q_zero(), zq, q_one());
    let t1 = q_mul(q_mul(ss, id), zq);
    let t2 = q_mul(q_neg(q_mul(p2, id)), q_one());
    let aa = q_add(t1, t2);
    let x1 = q_mul(q_mul(ss, zq), id);
    let x2 = q_mul(q_neg(p2), id);
    lemma_q_swap23(ss, id, zq);
    lemma_q_mul_one_right(q_neg(q_mul(p2, id)));
    lemma_q_neg_mul_left(p2, id);
    lemma_q_eq_trans(t2, q_neg(q_mul(p2, id)), q_mul(q_neg(p2), id));
    lemma_q_wf_ops(ss, zq);
    lemma_q_wf_ops(q_mul(ss, zq), id);
    lemma_q_wf_ops(q_neg(p2), id);
    lemma_q_add_eqv(t1, x1, t2, x2);
    lemma_q_distrib_right(q_mul(ss, zq), q_neg(p2), id);
    lemma_q_wf_ops(q_mul(ss, zq), q_neg(p2));
    lemma_q_wf_ops(target, dd);
    lemma_q_mul_eqv(q_sub(q_mul(ss, zq), p2), q_mul(target, dd), id, id);
    lemma_q_assoc(target, dd, id);
    lemma_q_wf_ops(dd, id);
    lemma_q_mul_eqv(target, target, q_mul(dd, id), q_one());
    lemma_q_mul_one_right(target);
    let y1 = q_mul(q_sub(q_mul(ss, zq), p2), id);
    let y2 = q_mul(q_mul(target, dd), id);
    let y3 = q_mul(target, q_mul(dd, id));
    let y4 = q_mul(target, q_one());
    lemma_q_wf_ops(t1, t2);
    lemma_q_wf_ops(x1, x2);
    lemma_q_wf_ops(q_mul(target, dd), id);
    lemma_q_eq_trans(aa, q_add(x1, x2), y1);
    lemma_q_eq_trans(aa, y1, y2);
    lemma_q_eq_trans(aa, y2, y3);
    lemma_q_eq_trans(aa, y3, y4);
    lemma_q_eq_trans(aa, y4, target);
    lemma_q_eq_trans(r.z, aa, target);
}

/// The projection sends the frustum centers of the near and far planes to
/// the two clip planes: `(0, 0, z_near, 1)` maps to clip coordinates with
/// `x = y = 0` and `z' = +1` after the homogeneous divide (the clip z equals
/// the clip w), and `(0, 0, z_far, 1)` to `z' = -1`. With the planes given
/// as negative z-coordinates, the visible near point `(0, 0, -near, 1)` is
/// exactly the first of these.
pub proof fn lemma_projection_clip_planes(t: Q, a: Q, n: Q, f: Q)
    requires
        q_wf(t),
        q_wf(a),
        q_wf(n),
        q_wf(f),
        t.n != 0,
        a.n != 0,
        n.n != 0,
        !q_eq(n, f),
    ensures
        ({
            let r = qmat_apply(
                qmat_proj(t, a, n, f),
                QVec4 { x: q_zero(), y: q_zero(), z: n, w: q_one() },
            );
            q_eq(r.x, q_zero()) && q_eq(r.y, q_zero()) && q_eq(r.z, r.w)
        }),
        ({
            let r = qmat_apply(
                qmat_proj(t, a, n, f),
                QVec4 { x: q_zero(), y: q_zero(), z: f, w: q_one() },
            );
            q_eq(r.x, q_zero()) && q_eq(r.y, q_zero()) && q_eq(r.z, q_neg(r.w))
        }),
{
    lemma_proj_core_near(n, f);
    lemma_proj_point(t, a, n, f, n, n);
    let rn = qmat_apply(
        qmat_proj(t, a, n, f),
        QVec4 { x: q_zero(), y: q_zero(), z: n, w: q_one() },
    );
    lemma_q_eq_trans(rn.z, n, rn.w);
    lemma_proj_core_far(n, f);
    lemma_proj_point(t, a, n, f, f, q_neg(f));
    let rf = qmat_apply(
        qmat_proj(t, a, n, f),
        QVec4 { x: q_zero(), y: q_zero(), z: f, w: q_one() },
    );
    lemma_q_neg_eqv(rf.w, f);
    lemma_q_eq_trans(rf.z, q_neg(f), q_neg(rf.w));
}

} // verus!
