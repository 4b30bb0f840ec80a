//! The linear mapping shared by the continuous scales: a value is first
//! normalized against the domain, then interpolated into the range.

use crate::arith::mul_i64;
use crate::fraction_laws::lemma_eqv_sign;
use crate::rational::{Fraction, Rational};
use vstd::math::abs;
use vstd::prelude::*;

verus! {

/// Two bounds closer than `1 / TOLERANCE_DENOMINATOR` count as equal.
pub const TOLERANCE_DENOMINATOR: i128 = 8_388_608;

/// The bounds `a` and `b` are closer than the tolerance.
pub open spec fn degenerate(a: Fraction, b: Fraction) -> bool {
    abs(b.minus(a).n) * TOLERANCE_DENOMINATOR < b.minus(a).d
}

/// One half.
pub open spec fn half() -> Rational {
    Rational::from_parts(Fraction { n: 1, d: 2 })
}

/// Where `x` lies between `a` and `b`, as a share of the way: `(x - a) / (b - a)`,
/// and one half where the bounds are degenerate. `None` when a step of the
/// computation has no 64-bit representation.
pub open spec fn normalized(a: Rational, b: Rational, x: Rational) -> Option<Rational> {
    if degenerate(a@, b@) {
        Some(half())
    } else {
        match (Rational::narrow(x@.minus(a@)), Rational::narrow(b@.minus(a@))) {
            (Some(u), Some(w)) => Rational::narrow(u@.over(w@)),
            _ => None,
        }
    }
}

/// The point a share `t` of the way from `a` to `b`: `(b - a) * t + a`.
/// `None` when a step of the computation has no 64-bit representation.
pub open spec fn interpolated(a: Rational, b: Rational, t: Rational) -> Option<Rational> {
    match Rational::narrow(b@.minus(a@)) {
        Some(w) => match Rational::narrow(w@.times(t@)) {
            Some(p) => Rational::narrow(p@.plus(a@)),
            None => None,
        },
        None => None,
    }
}

/// The inverse of `normalized`: `x * (b - a) + a`, and one half where the
/// bounds are degenerate.
pub open spec fn denormalized(a: Rational, b: Rational, x: Rational) -> Option<Rational> {
    if degenerate(a@, b@) {
        Some(half())
    } else {
        match Rational::narrow(b@.minus(a@)) {
            Some(w) => match Rational::narrow(x@.times(w@)) {
                Some(p) => Rational::narrow(p@.plus(a@)),
                None => None,
            },
            None => None,
        }
    }
}

/// Whether the two bounds are closer than the tolerance.
pub fn is_degenerate(a: &Rational, b: &Rational) -> (r: bool)
    ensures
        r == degenerate(a@, b@),
{
    let d: i128 = mul_i64(b.denominator(), a.denominator());
    let n: i128 = mul_i64(b.numerator(), a.denominator()) - mul_i64(
        a.numerator(),
        b.denominator(),
    );
    let m: i128 = if n < 0 {
        -n
    } else {
        n
    };
    if m >= 0x80_0000_0000_0000_0000_0000_0000 {
        false
    } else {
        m * TOLERANCE_DENOMINATOR < d
    }
}

/// Takes a value `x` in `[a, b]` and returns the corresponding value in `[0, 1]`.
pub fn normalize(a: &Rational, b: &Rational, x: &Rational) -> (r: Option<Rational>)
    ensures
        r == normalized(*a, *b, *x),
{
    if is_degenerate(a, b) {
        return Some(Rational::one_half());
    }
    let u = x.checked_sub(a);
    let w = b.checked_sub(a);
    match (u, w) {
        (Some(u), Some(w)) => {
            proof {
                use_type_invariant(a);
                use_type_invariant(b);
                use_type_invariant(&w);
                let s = b@.minus(a@);
                assert(s.d > 0) by (nonlinear_arith)
                    requires
                        s.d == b@.d * a@.d,
                        b@.d > 0,
                        a@.d > 0,
                ;
                lemma_eqv_sign(w@, s);
            }
            u.checked_div(&w)
        },
        _ => None,
    }
}

/// Takes a value `t` in `[0, 1]` and returns the corresponding value in `[a, b]`.
pub fn interpolate(a: &Rational, b: &Rational, t: &Rational) -> (r: Option<Rational>)
    ensures
        r == interpolated(*a, *b, *t),
{
    match b.checked_sub(a) {
        Some(w) => match w.checked_mul(t) {
            Some(p) => p.checked_add(a),
            None => None,
        },
        None => None,
    }
}

/// Takes a value `x` in `[0, 1]` and returns the corresponding value in `[a, b]`,
/// or one half where the bounds are degenerate.
pub fn denormalize(a: &Rational, b: &Rational, x: &Rational) -> (r: Option<Rational>)
    ensures
        r == denormalized(*a, *b, *x),
{
    if is_degenerate(a, b) {
        return Some(Rational::one_half());
    }
    match b.checked_sub(a) {
        Some(w) => match x.checked_mul(&w) {
            Some(p) => p.checked_add(a),
            None => None,
        },
        None => None,
    }
}

} // verus!
