use crate::rational::Fraction;
use vstd::arithmetic::mul::{
    lemma_mul_is_distributive_add_other_way, lemma_mul_is_distributive_sub_other_way,
    lemma_mul_unary_negation,
};
use vstd::prelude::*;

verus! {

/// Two fractions that equal a third, valid one denote the same number.
pub proof fn lemma_eqv_transitive(a: Fraction, b: Fraction, c: Fraction)
    requires
        b.valid(),
        a.eqv(b),
        b.eqv(c),
    ensures
        a.eqv(c),
{
    assert((a.n * c.d) * b.d == (c.n * a.d) * b.d) by (nonlinear_arith)
        requires
            a.n * b.d == b.n * a.d,
            b.n * c.d == c.n * b.d,
    ;
    assert(a.n * c.d == c.n * a.d) by (nonlinear_arith)
        requires
            (a.n * c.d) * b.d == (c.n * a.d) * b.d,
            b.d > 0,
    ;
}

/// `(p * q) * (r * s)` regrouped as `(p * r) * (q * s)` and as `(p * s) * (q * r)`.
pub proof fn lemma_regroup(p: int, q: int, r: int, s: int)
    ensures
        (p * q) * (r * s) == (p * r) * (q * s),
        (p * q) * (r * s) == (p * s) * (q * r),
        (p * q) * (r * s) == (p * s) * (r * q),
{
    assert((p * q) * (r * s) == (p * r) * (q * s)) by (nonlinear_arith);
    assert((p * q) * (r * s) == (p * s) * (q * r)) by (nonlinear_arith);
    assert((p * s) * (q * r) == (p * s) * (r * q)) by (nonlinear_arith);
}

/// The two cross terms of a sum or difference, given `a == c` and `b == d`
/// as fractions.
proof fn lemma_cross_terms(a: Fraction, b: Fraction, c: Fraction, d: Fraction)
    requires
        a.eqv(c),
        b.eqv(d),
    ensures
        (a.n * b.d) * (c.d * d.d) == (c.n * d.d) * (a.d * b.d),
        (b.n * a.d) * (c.d * d.d) == (d.n * c.d) * (a.d * b.d),
{
    lemma_regroup(a.n, b.d, c.d, d.d);
    lemma_regroup(c.n, a.d, b.d, d.d);
    assert((a.n * c.d) * (b.d * d.d) == (c.n * a.d) * (b.d * d.d));
    lemma_regroup(b.n, a.d, c.d, d.d);
    lemma_regroup(d.n, b.d, a.d, c.d);
    assert((b.n * d.d) * (a.d * c.d) == (d.n * b.d) * (a.d * c.d));
}

/// Sums of equal numbers are equal.
pub proof fn lemma_plus_congruent(a: Fraction, b: Fraction, c: Fraction, d: Fraction)
    requires
        a.eqv(c),
        b.eqv(d),
    ensures
        a.plus(b).eqv(c.plus(d)),
        a.valid() && b.valid() ==> a.plus(b).valid(),
{
    lemma_cross_terms(a, b, c, d);
    lemma_mul_is_distributive_add_other_way(c.d * d.d, a.n * b.d, b.n * a.d);
    lemma_mul_is_distributive_add_other_way(a.d * b.d, c.n * d.d, d.n * c.d);
    if a.valid() && b.valid() {
        assert(a.d * b.d > 0) by (nonlinear_arith)
            requires
                a.d > 0,
                b.d > 0,
        ;
    }
}

/// Differences of equal numbers are equal.
pub proof fn lemma_minus_congruent(a: Fraction, b: Fraction, c: Fraction, d: Fraction)
    requires
        a.eqv(c),
        b.eqv(d),
    ensures
        a.minus(b).eqv(c.minus(d)),
        a.valid() && b.valid() ==> a.minus(b).valid(),
{
    lemma_cross_terms(a, b, c, d);
    lemma_mul_is_distributive_sub_other_way(c.d * d.d, a.n * b.d, b.n * a.d);
    lemma_mul_is_distributive_sub_other_way(a.d * b.d, c.n * d.d, d.n * c.d);
    if a.valid() && b.valid() {
        assert(a.d * b.d > 0) by (nonlinear_arith)
            requires
                a.d > 0,
                b.d > 0,
        ;
    }
}

/// Products of equal numbers are equal.
pub proof fn lemma_times_congruent(a: Fraction, b: Fraction, c: Fraction, d: Fraction)
    requires
        a.eqv(c),
        b.eqv(d),
    ensures
        a.times(b).eqv(c.times(d)),
        a.valid() && b.valid() ==> a.times(b).valid(),
{
    assert((a.n * b.n) * (c.d * d.d) == (c.n * d.n) * (a.d * b.d)) by (nonlinear_arith)
        requires
            a.n * c.d == c.n * a.d,
            b.n * d.d == d.n * b.d,
    ;
    if a.valid() && b.valid() {
        assert(a.d * b.d > 0) by (nonlinear_arith)
            requires
                a.d > 0,
                b.d > 0,
        ;
    }
}

/// Equal valid numbers have the same sign.
pub proof fn lemma_eqv_sign(a: Fraction, b: Fraction)
    requires
        a.valid(),
        b.valid(),
        a.eqv(b),
    ensures
        a.n > 0 <==> b.n > 0,
        a.n < 0 <==> b.n < 0,
        a.n == 0 <==> b.n == 0,
{
    assert((a.n > 0 <==> b.n > 0) && (a.n < 0 <==> b.n < 0)) by (nonlinear_arith)
        requires
            a.n * b.d == b.n * a.d,
            a.d > 0,
            b.d > 0,
    ;
}

/// Quotients of equal numbers are equal.
pub proof fn lemma_over_congruent(a: Fraction, b: Fraction, c: Fraction, d: Fraction)
    requires
        b.valid(),
        d.valid(),
        a.eqv(c),
        b.eqv(d),
    ensures
        a.over(b).eqv(c.over(d)),
        a.valid() && b.n != 0 ==> a.over(b).valid(),
{
    lemma_eqv_sign(b, d);
    assert((a.n * b.d) * (c.d * d.n) == (c.n * d.d) * (a.d * b.n)) by (nonlinear_arith)
        requires
            a.n * c.d == c.n * a.d,
            b.n * d.d == d.n * b.d,
    ;
    if b.n < 0 {
        assert((-(a.n * b.d)) * (c.d * (-d.n)) == (-(c.n * d.d)) * (a.d * (-b.n)))
            by (nonlinear_arith)
            requires
                (a.n * b.d) * (c.d * d.n) == (c.n * d.d) * (a.d * b.n),
        ;
    }
    if a.valid() && b.n != 0 {
        if b.n > 0 {
            assert(a.d * b.n > 0) by (nonlinear_arith)
                requires
                    a.d > 0,
                    b.n > 0,
            ;
        } else {
            assert(a.d * (-b.n) > 0) by (nonlinear_arith)
                requires
                    a.d > 0,
                    b.n < 0,
            ;
        }
    }
}

/// Order does not depend on the representation.
pub proof fn lemma_le_congruent(a: Fraction, b: Fraction, c: Fraction, d: Fraction)
    requires
        a.valid(),
        b.valid(),
        c.valid(),
        d.valid(),
        a.eqv(c),
        b.eqv(d),
    ensures
        a.le(b) == c.le(d),
        a.lt(b) == c.lt(d),
{
    lemma_cross_terms(a, b, c, d);
    lemma_mul_is_distributive_sub_other_way(c.d * d.d, a.n * b.d, b.n * a.d);
    lemma_mul_is_distributive_sub_other_way(a.d * b.d, c.n * d.d, d.n * c.d);
    let x = a.n * b.d - b.n * a.d;
    let y = c.n * d.d - d.n * c.d;
    let p = c.d * d.d;
    let q = a.d * b.d;
    assert(p > 0 && q > 0) by (nonlinear_arith)
        requires
            p == c.d * d.d,
            q == a.d * b.d,
            a.d > 0,
            b.d > 0,
            c.d > 0,
            d.d > 0,
    ;
    assert((x <= 0 <==> y <= 0) && (x < 0 <==> y < 0)) by (nonlinear_arith)
        requires
            x * p == y * q,
            p > 0,
            q > 0,
    ;
}

/// `(yn * xd - xn * yd) * k` written out: the difference of two products
/// that share the factor `k`.
proof fn lemma_common_factor(yn: int, xd: int, xn: int, yd: int, k: int)
    ensures
        (yn * xd) * k - (xn * yd) * k == (yn * xd - xn * yd) * k,
{
    lemma_mul_is_distributive_sub_other_way(k, yn * xd, xn * yd);
}

/// A product with a factor that is not negative keeps its sign.
proof fn lemma_sign_kept(d: int, k: int)
    ensures
        d >= 0 && k >= 0 ==> d * k >= 0,
        d >= 0 && k <= 0 ==> d * k <= 0,
{
    assert(d >= 0 && k >= 0 ==> d * k >= 0) by (nonlinear_arith);
    assert(d >= 0 && k <= 0 ==> d * k <= 0) by (nonlinear_arith);
}

/// A product of two positive numbers is positive.
proof fn lemma_positive(a: int, b: int)
    ensures
        a > 0 && b > 0 ==> a * b > 0,
{
    assert(a > 0 && b > 0 ==> a * b > 0) by (nonlinear_arith);
}

/// Adding and then taking away the same number changes nothing.
pub proof fn lemma_plus_minus_cancel(p: Fraction, a: Fraction)
    requires
        a.valid(),
    ensures
        p.plus(a).minus(a).eqv(p),
{
    let s = p.plus(a);
    assert((s.n * a.d - a.n * s.d) * p.d == p.n * (s.d * a.d)) by (nonlinear_arith)
        requires
            s.n == p.n * a.d + a.n * p.d,
            s.d == p.d * a.d,
    ;
}

/// Multiplying by a number that is not zero and then dividing by it changes
/// nothing.
pub proof fn lemma_times_over_cancel(w: Fraction, t: Fraction)
    requires
        w.n != 0,
    ensures
        w.times(t).over(w).eqv(t),
{
    let m = w.times(t);
    assert((m.n * w.d) * t.d == t.n * (m.d * w.n)) by (nonlinear_arith)
        requires
            m.n == w.n * t.n,
            m.d == w.d * t.d,
    ;
    if w.n < 0 {
        assert((-(m.n * w.d)) * t.d == t.n * (m.d * (-w.n))) by (nonlinear_arith)
            requires
                (m.n * w.d) * t.d == t.n * (m.d * w.n),
        ;
    }
}

/// Taking the same number away keeps the order.
pub proof fn lemma_minus_monotone(x: Fraction, y: Fraction, a: Fraction)
    requires
        x.valid(),
        y.valid(),
        a.valid(),
        x.le(y),
    ensures
        x.minus(a).le(y.minus(a)),
        x.minus(a).valid(),
        y.minus(a).valid(),
{
    let k = a.d * a.d;
    lemma_positive(a.d, a.d);
    lemma_positive(x.d, a.d);
    lemma_positive(y.d, a.d);
    // the two cross products of the differences, each split into its two products
    lemma_mul_is_distributive_sub_other_way(x.d * a.d, y.n * a.d, a.n * y.d);
    lemma_mul_is_distributive_sub_other_way(y.d * a.d, x.n * a.d, a.n * x.d);
    // the products with `a.n` are the same
    lemma_regroup(a.n, y.d, x.d, a.d);
    lemma_regroup(a.n, x.d, y.d, a.d);
    assert((a.n * y.d) * (x.d * a.d) == (a.n * x.d) * (y.d * a.d)) by {
        assert(x.d * y.d == y.d * x.d) by (nonlinear_arith);
        assert(a.d * y.d == y.d * a.d) by (nonlinear_arith);
    }
    // the others share the factor `k`
    lemma_regroup(y.n, a.d, x.d, a.d);
    lemma_regroup(x.n, a.d, y.d, a.d);
    lemma_common_factor(y.n, x.d, x.n, y.d, k);
    lemma_sign_kept(y.n * x.d - x.n * y.d, k);
}

/// Adding the same number keeps the order.
pub proof fn lemma_plus_monotone(x: Fraction, y: Fraction, a: Fraction)
    requires
        x.valid(),
        y.valid(),
        a.valid(),
        x.le(y),
    ensures
        x.plus(a).le(y.plus(a)),
        x.plus(a).valid(),
        y.plus(a).valid(),
{
    let k = a.d * a.d;
    lemma_positive(a.d, a.d);
    lemma_positive(x.d, a.d);
    lemma_positive(y.d, a.d);
    lemma_mul_is_distributive_add_other_way(x.d * a.d, y.n * a.d, a.n * y.d);
    lemma_mul_is_distributive_add_other_way(y.d * a.d, x.n * a.d, a.n * x.d);
    lemma_regroup(a.n, y.d, x.d, a.d);
    lemma_regroup(a.n, x.d, y.d, a.d);
    assert((a.n * y.d) * (x.d * a.d) == (a.n * x.d) * (y.d * a.d)) by {
        assert(x.d * y.d == y.d * x.d) by (nonlinear_arith);
        assert(a.d * y.d == y.d * a.d) by (nonlinear_arith);
    }
    lemma_regroup(y.n, a.d, x.d, a.d);
    lemma_regroup(x.n, a.d, y.d, a.d);
    lemma_common_factor(y.n, x.d, x.n, y.d, k);
    lemma_sign_kept(y.n * x.d - x.n * y.d, k);
}

/// Dividing by the same positive number keeps the order.
pub proof fn lemma_over_monotone(x: Fraction, y: Fraction, w: Fraction)
    requires
        x.valid(),
        y.valid(),
        w.valid(),
        w.n > 0,
        x.le(y),
    ensures
        x.over(w).le(y.over(w)),
        x.over(w).valid(),
        y.over(w).valid(),
{
    let k = w.d * w.n;
    lemma_positive(w.d, w.n);
    lemma_positive(x.d, w.n);
    lemma_positive(y.d, w.n);
    lemma_regroup(y.n, w.d, x.d, w.n);
    lemma_regroup(x.n, w.d, y.d, w.n);
    lemma_common_factor(y.n, x.d, x.n, y.d, k);
    lemma_sign_kept(y.n * x.d - x.n * y.d, k);
}

/// Multiplying by a number that is not negative keeps the order; by one that
/// is not positive, it turns the order round.
pub proof fn lemma_times_monotone(c: Fraction, x: Fraction, y: Fraction)
    requires
        x.valid(),
        y.valid(),
        c.valid(),
        x.le(y),
    ensures
        c.n >= 0 ==> c.times(x).le(c.times(y)),
        c.n <= 0 ==> c.times(y).le(c.times(x)),
        c.times(x).valid(),
        c.times(y).valid(),
{
    let k = c.n * c.d;
    lemma_positive(c.d, x.d);
    lemma_positive(c.d, y.d);
    // (c.n * y.n) * (c.d * x.d) == (y.n * x.d) * k, and the same for x
    lemma_regroup(c.n, y.n, c.d, x.d);
    lemma_regroup(c.n, x.n, c.d, y.d);
    assert((c.n * c.d) * (y.n * x.d) == (y.n * x.d) * k) by (nonlinear_arith)
        requires
            k == c.n * c.d,
    ;
    assert((c.n * c.d) * (x.n * y.d) == (x.n * y.d) * k) by (nonlinear_arith)
        requires
            k == c.n * c.d,
    ;
    lemma_common_factor(y.n, x.d, x.n, y.d, k);
    lemma_sign_kept(y.n * x.d - x.n * y.d, k);
    lemma_sign_kept(c.d, c.n);
    assert(c.d * c.n == c.n * c.d) by (nonlinear_arith);
}

/// Dividing by the same negative number turns the order round.
pub proof fn lemma_over_antitone(x: Fraction, y: Fraction, w: Fraction)
    requires
        x.valid(),
        y.valid(),
        w.valid(),
        w.n < 0,
        x.le(y),
    ensures
        y.over(w).le(x.over(w)),
        x.over(w).valid(),
        y.over(w).valid(),
{
    let m = -w.n;
    let k = w.d * m;
    lemma_positive(w.d, m);
    lemma_positive(x.d, m);
    lemma_positive(y.d, m);
    // x.over(w) is -(x.n * w.d) over x.d * m, and the same for y
    lemma_regroup(y.n, w.d, x.d, m);
    lemma_regroup(x.n, w.d, y.d, m);
    lemma_common_factor(y.n, x.d, x.n, y.d, k);
    lemma_sign_kept(y.n * x.d - x.n * y.d, k);
    lemma_mul_unary_negation(y.n * w.d, x.d * m);
    lemma_mul_unary_negation(x.n * w.d, y.d * m);
}

/// A number taken from itself leaves zero.
pub proof fn lemma_minus_self(x: Fraction, a: Fraction)
    requires
        x.eqv(a),
    ensures
        x.minus(a).n == 0,
{
}

} // verus!
