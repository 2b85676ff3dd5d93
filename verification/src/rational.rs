//! Exact rational scalars.
//!
//! Every scalar that flows through the transform builders and the texture
//! sampler is an exact rational number: an `i128` numerator over a positive
//! `i128` denominator. The mathematical model of such a value is `Q`, a pair
//! of unbounded integers, and every executable operation is proved to compute
//! exactly the model-level operation on the operands' models.

use vstd::prelude::*;
use vstd::arithmetic::mul::lemma_mul_basics;
use vstd::arithmetic::mul::lemma_mul_is_commutative;
use vstd::arithmetic::mul::lemma_mul_is_distributive_add_other_way;

verus! {

/// Mathematical model of a rational number: numerator `n` over denominator `d`.
/// A value is well formed when `d > 0`. Two models denote the same rational
/// when they cross-multiply equal, see [`q_eq`].
pub struct Q {
    pub n: int,
    pub d: int,
}

/// Well-formedness of a model rational: positive denominator.
pub open spec fn q_wf(q: Q) -> bool {
    q.d > 0
}

/// The rational zero.
pub open spec fn q_zero() -> Q {
    Q { n: 0, d: 1 }
}

/// The rational one.
pub open spec fn q_one() -> Q {
    Q { n: 1, d: 1 }
}

/// Equality of the denoted rationals: `a.n/a.d == b.n/b.d` by cross-multiplication.
pub open spec fn q_eq(a: Q, b: Q) -> bool {
    a.n * b.d == b.n * a.d
}

/// Exact model-level product.
pub open spec fn q_mul(a: Q, b: Q) -> Q {
    Q { n: a.n * b.n, d: a.d * b.d }
}

/// Exact model-level sum.
pub open spec fn q_add(a: Q, b: Q) -> Q {
    Q { n: a.n * b.d + b.n * a.d, d: a.d * b.d }
}

/// Exact model-level negation.
pub open spec fn q_neg(a: Q) -> Q {
    Q { n: -a.n, d: a.d }
}

/// Exact model-level difference.
pub open spec fn q_sub(a: Q, b: Q) -> Q {
    q_add(a, q_neg(b))
}

/// Model-level reciprocal, oriented so the denominator stays positive.
/// Meaningful only when `a` is nonzero.
pub open spec fn q_inv(a: Q) -> Q {
    if a.n >= 0 {
        Q { n: a.d, d: a.n }
    } else {
        Q { n: -a.d, d: -a.n }
    }
}

/// Exact model-level quotient. Meaningful only when `b` is nonzero.
pub open spec fn q_div(a: Q, b: Q) -> Q {
    q_mul(a, q_inv(b))
}

/// `a <= b` on the denoted rationals, for well-formed operands.
pub open spec fn q_le(a: Q, b: Q) -> bool {
    a.n * b.d <= b.n * a.d
}

/// Both components bounded in magnitude by `b`, denominator positive.
pub open spec fn q_bounded(q: Q, b: int) -> bool {
    -b <= q.n <= b && 0 < q.d <= b
}

/// Magnitude bound under which every scalar handed to the public builders and
/// samplers must fall, so that all intermediate products provably fit in
/// `i128`. A machine limit, not a mathematical one: callers quantize their
/// inputs to denominators no larger than this.
pub const RAT_BOUND: i128 = 0x1000000;

/// `RAT_BOUND` as a model integer.
pub open spec fn rat_bound() -> int {
    0x1000000
}

/// A scalar small enough to enter the public entry points.
pub open spec fn q_small(q: Q) -> bool {
    q_bounded(q, rat_bound())
}

/// Largest magnitude an `i128` component may take.
pub open spec fn i128_max() -> int {
    0x7fffffff_ffffffff_ffffffff_ffffffff
}

/// The exact product of `a` and `b` has components that fit in `i128`.
pub open spec fn q_mul_fits(a: Q, b: Q) -> bool {
    &&& -i128_max() <= a.n * b.n <= i128_max()
    &&& a.d * b.d <= i128_max()
}

/// The two cross products of `a` and `b` fit in `i128`.
pub open spec fn q_cross_fits(a: Q, b: Q) -> bool {
    &&& -i128_max() <= a.n * b.d <= i128_max()
    &&& -i128_max() <= b.n * a.d <= i128_max()
}

/// The exact sum of `a` and `b`, and the products formed on the way to it,
/// fit in `i128`.
pub open spec fn q_add_fits(a: Q, b: Q) -> bool {
    &&& q_cross_fits(a, b)
    &&& -i128_max() <= a.n * b.d + b.n * a.d <= i128_max()
    &&& a.d * b.d <= i128_max()
}

/// Product of two bounded rationals is bounded by the product of the bounds
/// and, when that product fits, the executable multiplication cannot overflow.
pub proof fn lemma_mul_fits(a: Q, b: Q, ba: int, bb: int)
    requires
        q_bounded(a, ba),
        q_bounded(b, bb),
        1 <= ba,
        1 <= bb,
        ba * bb <= i128_max(),
    ensures
        q_mul_fits(a, b),
        q_bounded(q_mul(a, b), ba * bb),
        q_wf(q_mul(a, b)),
{
    assert(-(ba * bb) <= a.n * b.n <= ba * bb && 0 < a.d * b.d <= ba * bb)
        by (nonlinear_arith)
        requires
            -ba <= a.n <= ba,
            0 < a.d <= ba,
            -bb <= b.n <= bb,
            0 < b.d <= bb,
            1 <= ba,
            1 <= bb,
    ;
}

/// Sum of two bounded rationals is bounded by twice the product of the bounds
/// and, when that fits, the executable addition cannot overflow.
pub proof fn lemma_add_fits(a: Q, b: Q, ba: int, bb: int)
    requires
        q_bounded(a, ba),
        q_bounded(b, bb),
        1 <= ba,
        1 <= bb,
        2 * (ba * bb) <= i128_max(),
    ensures
        q_add_fits(a, b),
        q_bounded(q_add(a, b), 2 * (ba * bb)),
        q_wf(q_add(a, b)),
{
    assert(-(ba * bb) <= a.n * b.d <= ba * bb
        && -(ba * bb) <= b.n * a.d <= ba * bb
        && 0 < a.d * b.d <= ba * bb)
        by (nonlinear_arith)
        requires
            -ba <= a.n <= ba,
            0 < a.d <= ba,
            -bb <= b.n <= bb,
            0 < b.d <= bb,
            1 <= ba,
            1 <= bb,
    ;
}

/// The reciprocal of a bounded nonzero rational is bounded by the same bound.
pub proof fn lemma_inv_bound(b: Q, bb: int)
    requires
        q_bounded(b, bb),
        b.n != 0,
    ensures
        q_bounded(q_inv(b), bb),
        q_wf(q_inv(b)),
{
}

/// Negation keeps a bound.
pub proof fn lemma_neg_bound(a: Q, ba: int)
    requires
        q_bounded(a, ba),
    ensures
        q_bounded(q_neg(a), ba),
        q_wf(q_neg(a)),
{
}

/// Equal factors give equal products. The solver does not carry equalities
/// into the factors of a product on its own, so this bridge is applied at
/// each product node when an expression is expanded into its components.
pub proof fn lemma_mul_congr(x: int, y: int, x2: int, y2: int)
    requires
        x == x2,
        y == y2,
    ensures
        x * y == x2 * y2,
{
    assert(x * y == x2 * y2) by (nonlinear_arith)
        requires
            x == x2,
            y == y2,
    ;
}

/// `q_eq` is transitive on well-formed rationals.
pub proof fn lemma_q_eq_trans(a: Q, b: Q, c: Q)
    requires
        q_wf(a),
        q_wf(b),
        q_wf(c),
        q_eq(a, b),
        q_eq(b, c),
    ensures
        q_eq(a, c),
{
    assert(a.n * c.d == c.n * a.d) by (nonlinear_arith)
        requires
            a.n * b.d == b.n * a.d,
            b.n * c.d == c.n * b.d,
            a.d > 0,
            b.d > 0,
            c.d > 0,
    ;
}

/// A rational plus its negation denotes zero.
pub proof fn lemma_q_add_neg(a: Q)
    requires
        q_wf(a),
    ensures
        q_eq(q_add(a, q_neg(a)), q_zero()),
{
    let s = q_add(a, q_neg(a));
    lemma_mul_basics(s.n);
    lemma_mul_basics(s.d);
    lemma_mul_congr(a.n, q_neg(a).d, a.n, a.d);
    lemma_mul_congr(q_neg(a).n, a.d, -a.n, a.d);
    assert(a.n * a.d + (-a.n) * a.d == 0) by (nonlinear_arith);
}

/// Adding a rational whose numerator is zero changes nothing, up to `q_eq`.
pub proof fn lemma_q_add_zero_right(a: Q, z: Q)
    requires
        q_wf(a),
        z.n == 0,
        z.d > 0,
    ensures
        q_eq(q_add(a, z), a),
{
    let s = q_add(a, z);
    lemma_mul_congr(s.n, a.d, a.n * z.d, a.d);
    assert((a.n * z.d) * a.d == a.n * (a.d * z.d)) by (nonlinear_arith);
}

/// Adding onto a rational whose numerator is zero yields the addend, up to
/// `q_eq`.
pub proof fn lemma_q_add_zero_left(z: Q, a: Q)
    requires
        q_wf(a),
        z.n == 0,
        z.d > 0,
    ensures
        q_eq(q_add(z, a), a),
{
    let s = q_add(z, a);
    lemma_mul_congr(s.n, a.d, a.n * z.d, a.d);
    assert((a.n * z.d) * a.d == a.n * (z.d * a.d)) by (nonlinear_arith);
}

/// A scalar under the entry-point bound, seen as a bounded rational.
pub proof fn lemma_small_bounded(a: Q)
    requires
        q_small(a),
    ensures
        q_bounded(a, rat_bound()),
        q_wf(a),
{
}


/// Well-formed operands give well-formed products and sums.
pub proof fn lemma_q_wf_ops(a: Q, b: Q)
    requires
        q_wf(a),
        q_wf(b),
    ensures
        q_wf(q_mul(a, b)),
        q_wf(q_add(a, b)),
{
    assert(a.d * b.d > 0) by (nonlinear_arith)
        requires
            a.d > 0,
            b.d > 0,
    ;
}

/// Multiplying by zero denotes zero.
pub proof fn lemma_q_mul_zero_right(a: Q)
    requires
        q_wf(a),
    ensures
        q_eq(q_mul(a, q_zero()), q_zero()),
        q_wf(q_mul(a, q_zero())),
{
    let e = q_mul(a, q_zero());
    lemma_mul_basics(a.n);
    lemma_mul_basics(a.d);
    lemma_mul_basics(e.n);
    lemma_mul_basics(e.d);
}

/// Multiplying by one denotes the same rational.
pub proof fn lemma_q_mul_one_right(a: Q)
    requires
        q_wf(a),
    ensures
        q_eq(q_mul(a, q_one()), a),
        q_wf(q_mul(a, q_one())),
{
    let e = q_mul(a, q_one());
    lemma_mul_basics(a.n);
    lemma_mul_basics(a.d);
    lemma_mul_congr(e.n, a.d, a.n, a.d);
    lemma_mul_congr(a.n, e.d, a.n, a.d);
}

/// `q_eq` is a congruence for multiplication.
pub proof fn lemma_q_mul_eqv(a: Q, a2: Q, b: Q, b2: Q)
    requires
        q_wf(a),
        q_wf(a2),
        q_wf(b),
        q_wf(b2),
        q_eq(a, a2),
        q_eq(b, b2),
    ensures
        q_eq(q_mul(a, b), q_mul(a2, b2)),
{
    let l = q_mul(a, b);
    let r = q_mul(a2, b2);
    lemma_mul_congr(l.n, r.d, a.n * b.n, a2.d * b2.d);
    lemma_mul_congr(r.n, l.d, a2.n * b2.n, a.d * b.d);
    assert((a.n * b.n) * (a2.d * b2.d) == (a.n * a2.d) * (b.n * b2.d)) by (nonlinear_arith);
    lemma_mul_congr(a.n * a2.d, b.n * b2.d, a2.n * a.d, b2.n * b.d);
    assert((a2.n * a.d) * (b2.n * b.d) == (a2.n * b2.n) * (a.d * b.d)) by (nonlinear_arith);
}

/// `q_eq` is a congruence for addition.
pub proof fn lemma_q_add_eqv(a: Q, a2: Q, b: Q, b2: Q)
    requires
        q_wf(a),
        q_wf(a2),
        q_wf(b),
        q_wf(b2),
        q_eq(a, a2),
        q_eq(b, b2),
    ensures
        q_eq(q_add(a, b), q_add(a2, b2)),
{
    let l = q_add(a, b);
    let r = q_add(a2, b2);
    lemma_mul_congr(l.n, r.d, a.n * b.d + b.n * a.d, a2.d * b2.d);
    lemma_mul_congr(r.n, l.d, a2.n * b2.d + b2.n * a2.d, a.d * b.d);
    lemma_mul_is_distributive_add_other_way(a2.d * b2.d, a.n * b.d, b.n * a.d);
    lemma_mul_is_distributive_add_other_way(a.d * b.d, a2.n * b2.d, b2.n * a2.d);
    assert((a.n * b.d) * (a2.d * b2.d) == (a.n * a2.d) * (b.d * b2.d)) by (nonlinear_arith);
    lemma_mul_congr(a.n * a2.d, b.d * b2.d, a2.n * a.d, b.d * b2.d);
    assert((a2.n * a.d) * (b.d * b2.d) == (a2.n * b2.d) * (a.d * b.d)) by (nonlinear_arith);
    assert((b.n * a.d) * (a2.d * b2.d) == (b.n * b2.d) * (a.d * a2.d)) by (nonlinear_arith);
    lemma_mul_congr(b.n * b2.d, a.d * a2.d, b2.n * b.d, a.d * a2.d);
    assert((b2.n * b.d) * (a.d * a2.d) == (b2.n * a2.d) * (a.d * b.d)) by (nonlinear_arith);
}

/// Swapping the two outer factors of a nested product keeps the value.
pub proof fn lemma_q_swap23(a: Q, b: Q, c: Q)
    requires
        q_wf(a),
        q_wf(b),
        q_wf(c),
    ensures
        q_eq(q_mul(q_mul(a, b), c), q_mul(q_mul(a, c), b)),
        q_wf(q_mul(q_mul(a, b), c)),
        q_wf(q_mul(q_mul(a, c), b)),
{
    let l = q_mul(q_mul(a, b), c);
    let r = q_mul(q_mul(a, c), b);
    lemma_mul_congr(q_mul(a, b).n, c.n, a.n * b.n, c.n);
    lemma_mul_congr(q_mul(a, b).d, c.d, a.d * b.d, c.d);
    lemma_mul_congr(q_mul(a, c).n, b.n, a.n * c.n, b.n);
    lemma_mul_congr(q_mul(a, c).d, b.d, a.d * c.d, b.d);
    lemma_mul_congr(l.n, r.d, (a.n * b.n) * c.n, (a.d * c.d) * b.d);
    lemma_mul_congr(r.n, l.d, (a.n * c.n) * b.n, (a.d * b.d) * c.d);
    assert(((a.n * b.n) * c.n) * ((a.d * c.d) * b.d) == ((a.n * c.n) * b.n) * ((a.d * b.d) * c.d))
        by (nonlinear_arith);
    assert((a.d * b.d) * c.d > 0 && (a.d * c.d) * b.d > 0) by (nonlinear_arith)
        requires
            a.d > 0,
            b.d > 0,
            c.d > 0,
    ;
}

/// Multiplication associates, up to `q_eq`.
pub proof fn lemma_q_assoc(a: Q, b: Q, c: Q)
    requires
        q_wf(a),
        q_wf(b),
        q_wf(c),
    ensures
        q_eq(q_mul(q_mul(a, b), c), q_mul(a, q_mul(b, c))),
        q_wf(q_mul(q_mul(a, b), c)),
        q_wf(q_mul(a, q_mul(b, c))),
{
    let l = q_mul(q_mul(a, b), c);
    let r = q_mul(a, q_mul(b, c));
    lemma_mul_congr(q_mul(a, b).n, c.n, a.n * b.n, c.n);
    lemma_mul_congr(q_mul(a, b).d, c.d, a.d * b.d, c.d);
    lemma_mul_congr(a.n, q_mul(b, c).n, a.n, b.n * c.n);
    lemma_mul_congr(a.d, q_mul(b, c).d, a.d, b.d * c.d);
    lemma_mul_congr(l.n, r.d, (a.n * b.n) * c.n, a.d * (b.d * c.d));
    lemma_mul_congr(r.n, l.d, a.n * (b.n * c.n), (a.d * b.d) * c.d);
    assert(((a.n * b.n) * c.n) * (a.d * (b.d * c.d)) == (a.n * (b.n * c.n)) * ((a.d * b.d) * c.d))
        by (nonlinear_arith);
    assert((a.d * b.d) * c.d > 0 && a.d * (b.d * c.d) > 0) by (nonlinear_arith)
        requires
            a.d > 0,
            b.d > 0,
            c.d > 0,
    ;
}

/// Negation moves through a product.
pub proof fn lemma_q_neg_mul_left(a: Q, b: Q)
    requires
        q_wf(a),
        q_wf(b),
    ensures
        q_eq(q_neg(q_mul(a, b)), q_mul(q_neg(a), b)),
        q_wf(q_neg(q_mul(a, b))),
        q_wf(q_mul(q_neg(a), b)),
{
    let l = q_neg(q_mul(a, b));
    let r = q_mul(q_neg(a), b);
    lemma_mul_congr(l.n, r.d, -(a.n * b.n), a.d * b.d);
    lemma_mul_congr(r.n, l.d, (-a.n) * b.n, a.d * b.d);
    assert((-(a.n * b.n)) * (a.d * b.d) == ((-a.n) * b.n) * (a.d * b.d)) by (nonlinear_arith);
    assert(a.d * b.d > 0) by (nonlinear_arith)
        requires
            a.d > 0,
            b.d > 0,
    ;
}

/// A shared right factor distributes out of a sum.
#[verifier::rlimit(100)]
pub proof fn lemma_q_distrib_right(x: Q, y: Q, c: Q)
    requires
        q_wf(x),
        q_wf(y),
        q_wf(c),
    ensures
        q_eq(q_add(q_mul(x, c), q_mul(y, c)), q_mul(q_add(x, y), c)),
        q_wf(q_add(q_mul(x, c), q_mul(y, c))),
        q_wf(q_mul(q_add(x, y), c)),
{
    let l = q_add(q_mul(x, c), q_mul(y, c));
    let r = q_mul(q_add(x, y), c);
    lemma_mul_congr(q_mul(x, c).n, q_mul(y, c).d, x.n * c.n, y.d * c.d);
    lemma_mul_congr(q_mul(y, c).n, q_mul(x, c).d, y.n * c.n, x.d * c.d);
    lemma_mul_congr(q_mul(x, c).d, q_mul(y, c).d, x.d * c.d, y.d * c.d);
    lemma_mul_congr(q_add(x, y).n, c.n, x.n * y.d + y.n * x.d, c.n);
    lemma_mul_congr(q_add(x, y).d, c.d, x.d * y.d, c.d);
    lemma_mul_congr(l.n, r.d, (x.n * c.n) * (y.d * c.d) + (y.n * c.n) * (x.d * c.d), (x.d * y.d)
        * c.d);
    lemma_mul_congr(r.n, l.d, (x.n * y.d + y.n * x.d) * c.n, (x.d * c.d) * (y.d * c.d));
    lemma_mul_is_distributive_add_other_way(
        (x.d * y.d) * c.d,
        (x.n * c.n) * (y.d * c.d),
        (y.n * c.n) * (x.d * c.d),
    );
    lemma_mul_is_distributive_add_other_way(c.n, x.n * y.d, y.n * x.d);
    lemma_mul_congr((x.n * y.d + y.n * x.d) * c.n, (x.d * c.d) * (y.d * c.d), (x.n * y.d) * c.n
        + (y.n * x.d) * c.n, (x.d * c.d) * (y.d * c.d));
    lemma_mul_is_distributive_add_other_way(
        (x.d * c.d) * (y.d * c.d),
        (x.n * y.d) * c.n,
        (y.n * x.d) * c.n,
    );
    assert(((x.n * c.n) * (y.d * c.d)) * ((x.d * y.d) * c.d) == ((x.n * y.d) * c.n) * ((x.d * c.d)
        * (y.d * c.d))) by (nonlinear_arith);
    assert(((y.n * c.n) * (x.d * c.d)) * ((x.d * y.d) * c.d) == ((y.n * x.d) * c.n) * ((x.d * c.d)
        * (y.d * c.d))) by (nonlinear_arith);
    assert((x.d * c.d) * (y.d * c.d) > 0 && (x.d * y.d) * c.d > 0) by (nonlinear_arith)
        requires
            x.d > 0,
            y.d > 0,
            c.d > 0,
    ;
}

/// A nonzero rational times its reciprocal denotes one.
pub proof fn lemma_q_inv_char(b: Q)
    requires
        q_wf(b),
        b.n != 0,
    ensures
        q_wf(q_inv(b)),
        q_eq(q_mul(b, q_inv(b)), q_one()),
        q_wf(q_mul(b, q_inv(b))),
{
    let i = q_inv(b);
    let l = q_mul(b, i);
    lemma_mul_basics(l.n);
    lemma_mul_basics(l.d);
    if b.n >= 0 {
        lemma_mul_congr(b.n, i.n, b.n, b.d);
        lemma_mul_congr(b.d, i.d, b.d, b.n);
        lemma_mul_is_commutative(b.n, b.d);
        assert(b.d * b.n > 0) by (nonlinear_arith)
            requires
                b.d > 0,
                b.n > 0,
        ;
    } else {
        lemma_mul_congr(b.n, i.n, b.n, -b.d);
        lemma_mul_congr(b.d, i.d, b.d, -b.n);
        assert(b.n * (-b.d) == b.d * (-b.n) && b.d * (-b.n) > 0) by (nonlinear_arith)
            requires
                b.d > 0,
                b.n < 0,
        ;
    }
}


/// `q_eq` is a congruence for negation.
pub proof fn lemma_q_neg_eqv(x: Q, y: Q)
    requires
        q_eq(x, y),
    ensures
        q_eq(q_neg(x), q_neg(y)),
{
    assert((-x.n) * y.d == (-y.n) * x.d) by (nonlinear_arith)
        requires
            x.n * y.d == y.n * x.d,
    ;
}

/// An executable rational scalar: numerator over positive denominator.
#[derive(Clone, Copy, Debug)]
pub struct Rat {
    pub num: i128,
    pub den: i128,
}

impl View for Rat {
    type V = Q;

    open spec fn view(&self) -> Q {
        Q { n: self.num as int, d: self.den as int }
    }
}

impl Rat {
    /// Well-formedness: positive denominator.
    pub open spec fn wf(&self) -> bool {
        q_wf(self@)
    }

    /// Builds the rational `num / den`.
    pub fn new(num: i128, den: i128) -> (r: Rat)
        requires
            den > 0,
        ensures
            r@ == (Q { n: num as int, d: den as int }),
            r.wf(),
    {
        Rat { num, den }
    }

    /// The rational denoting the integer `n`.
    pub fn from_int(n: i128) -> (r: Rat)
        ensures
            r@ == (Q { n: n as int, d: 1 }),
            r.wf(),
    {
        Rat { num: n, den: 1 }
    }

    /// The rational zero.
    pub fn zero() -> (r: Rat)
        ensures
            r@ == q_zero(),
            r.wf(),
    {
        Rat { num: 0, den: 1 }
    }

    /// The rational one.
    pub fn one() -> (r: Rat)
        ensures
            r@ == q_one(),
            r.wf(),
    {
        Rat { num: 1, den: 1 }
    }
}

/// Exact product of two rationals.
pub fn rat_mul(a: &Rat, b: &Rat) -> (r: Rat)
    requires
        a.wf(),
        b.wf(),
        q_mul_fits(a@, b@),
    ensures
        r@ == q_mul(a@, b@),
        r.wf(),
{
    proof {
        assert(0 < a.den as int * b.den as int) by (nonlinear_arith)
            requires
                a.den > 0,
                b.den > 0,
        ;
    }
    Rat { num: a.num * b.num, den: a.den * b.den }
}

/// Exact sum of two rationals.
pub fn rat_add(a: &Rat, b: &Rat) -> (r: Rat)
    requires
        a.wf(),
        b.wf(),
        q_add_fits(a@, b@),
    ensures
        r@ == q_add(a@, b@),
        r.wf(),
{
    proof {
        assert(0 < a.den as int * b.den as int) by (nonlinear_arith)
            requires
                a.den > 0,
                b.den > 0,
        ;
    }
    Rat { num: a.num * b.den + b.num * a.den, den: a.den * b.den }
}

/// Exact negation of a rational.
pub fn rat_neg(a: &Rat) -> (r: Rat)
    requires
        a.wf(),
        a.num != i128::MIN,
    ensures
        r@ == q_neg(a@),
        r.wf(),
{
    Rat { num: -a.num, den: a.den }
}

/// Exact difference of two rationals.
pub fn rat_sub(a: &Rat, b: &Rat) -> (r: Rat)
    requires
        a.wf(),
        b.wf(),
        b.num != i128::MIN,
        q_add_fits(a@, q_neg(b@)),
    ensures
        r@ == q_sub(a@, b@),
        r.wf(),
{
    let nb = rat_neg(b);
    rat_add(a, &nb)
}

/// Exact quotient of two rationals; the divisor must be nonzero.
pub fn rat_div(a: &Rat, b: &Rat) -> (r: Rat)
    requires
        a.wf(),
        b.wf(),
        b@.n != 0,
        b.num != i128::MIN,
        q_mul_fits(a@, q_inv(b@)),
    ensures
        r@ == q_div(a@, b@),
        r.wf(),
{
    let inv = if b.num >= 0 {
        Rat { num: b.den, den: b.num }
    } else {
        Rat { num: -b.den, den: -b.num }
    };
    rat_mul(a, &inv)
}

/// Whether two rationals denote the same number.
pub fn rat_eq(a: &Rat, b: &Rat) -> (r: bool)
    requires
        a.wf(),
        b.wf(),
        q_cross_fits(a@, b@),
    ensures
        r == q_eq(a@, b@),
{
    a.num * b.den == b.num * a.den
}

/// Whether `a <= b` as denoted rationals.
pub fn rat_le(a: &Rat, b: &Rat) -> (r: bool)
    requires
        a.wf(),
        b.wf(),
        q_cross_fits(a@, b@),
    ensures
        r == q_le(a@, b@),
{
    a.num * b.den <= b.num * a.den
}

} // verus!
