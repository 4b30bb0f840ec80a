//! What holds of the scales and the axis as a whole, beyond what each
//! function promises of its own result.

use crate::arith::{ceil_div, floor_div, lemma_pow10_increases, lemma_pow10_positive, pow10};
use crate::axis::AxisView;
use crate::components::axis::AxisTickView;
use crate::fraction_laws::{
    lemma_eqv_sign, lemma_eqv_transitive, lemma_le_congruent, lemma_minus_congruent,
    lemma_minus_monotone, lemma_minus_self, lemma_over_antitone, lemma_over_congruent,
    lemma_over_monotone, lemma_plus_congruent, lemma_plus_minus_cancel, lemma_plus_monotone,
    lemma_times_congruent, lemma_times_monotone, lemma_times_over_cancel,
};
use crate::rational::{Fraction, Rational};
use crate::scales::linear::{pixel, scaled};
use crate::scales::mapping::{degenerate, half, interpolated, normalized};
use crate::scales::linear::raw_step;
use crate::scales::logarithmic::{adjusted, is_distance, last_step, power_of_ten, step_at};
use crate::scales::ticks::{
    first_index, in_decade, increment, is_increment, is_multiplier, is_nice, last_index, mantissa,
    multiples_between, multiplier, step_of, tick_at,
};
use vstd::arithmetic::div_mod::{lemma_fundamental_div_mod, lemma_mod_bound};
use vstd::arithmetic::mul::lemma_mul_is_distributive_add_other_way;
use crate::text::pixels_text;
use vstd::prelude::*;

verus! {

/// The exact share of the way from `a` to `b` at which `x` lies.
pub open spec fn exact_normalized(a: Fraction, b: Fraction, x: Fraction) -> Fraction {
    x.minus(a).over(b.minus(a))
}

/// The exact point a share `t` of the way from `a` to `b`.
pub open spec fn exact_interpolated(a: Fraction, b: Fraction, t: Fraction) -> Fraction {
    b.minus(a).times(t).plus(a)
}

/// Bounds that are not degenerate differ.
pub proof fn lemma_distinct(a: Fraction, b: Fraction)
    requires
        a.valid(),
        b.valid(),
        !degenerate(a, b),
    ensures
        b.minus(a).n != 0,
        b.minus(a).valid(),
{
    assert(b.minus(a).d > 0) by (nonlinear_arith)
        requires
            b.minus(a).d == b.d * a.d,
            a.d > 0,
            b.d > 0,
    ;
}

/// Where `normalize` answers for bounds that are not degenerate, its answer
/// is the exact share `(x - a) / (b - a)`.
pub proof fn law_normalize_exact(a: Rational, b: Rational, x: Rational, t: Rational)
    requires
        a.wf(),
        b.wf(),
        x.wf(),
        !degenerate(a@, b@),
        normalized(a, b, x) == Some(t),
    ensures
        t.wf(),
        t@.valid(),
        t@.eqv(exact_normalized(a@, b@, x@)),
{
    lemma_distinct(a@, b@);
    lemma_minus_congruent(x@, a@, x@, a@);
    Rational::lemma_narrow(x@.minus(a@));
    Rational::lemma_narrow(b@.minus(a@));
    let u = Rational::narrow(x@.minus(a@))->Some_0;
    let w = Rational::narrow(b@.minus(a@))->Some_0;
    lemma_eqv_sign(w@, b@.minus(a@));
    lemma_over_congruent(u@, w@, x@.minus(a@), b@.minus(a@));
    Rational::lemma_narrow(u@.over(w@));
    lemma_eqv_transitive(t@, u@.over(w@), exact_normalized(a@, b@, x@));
}

/// Where the bounds are degenerate, `normalize` answers one half.
pub proof fn law_normalize_degenerate(a: Rational, b: Rational, x: Rational)
    requires
        degenerate(a@, b@),
    ensures
        normalized(a, b, x) == Some(half()),
        half()@ == (Fraction { n: 1, d: 2 }),
{
    Rational::lemma_from_parts(Fraction { n: 1, d: 2 });
}

/// Where `interpolate` answers, its answer is the exact point
/// `(b - a) * t + a`.
pub proof fn law_interpolate_exact(a: Rational, b: Rational, t: Rational, y: Rational)
    requires
        a.wf(),
        b.wf(),
        t.wf(),
        interpolated(a, b, t) == Some(y),
    ensures
        y.wf(),
        y@.valid(),
        y@.eqv(exact_interpolated(a@, b@, t@)),
{
    lemma_minus_congruent(b@, a@, b@, a@);
    Rational::lemma_narrow(b@.minus(a@));
    let w = Rational::narrow(b@.minus(a@))->Some_0;
    lemma_times_congruent(w@, t@, b@.minus(a@), t@);
    Rational::lemma_narrow(w@.times(t@));
    let p = Rational::narrow(w@.times(t@))->Some_0;
    lemma_eqv_transitive(p@, w@.times(t@), b@.minus(a@).times(t@));
    lemma_plus_congruent(p@, a@, b@.minus(a@).times(t@), a@);
    Rational::lemma_narrow(p@.plus(a@));
    lemma_eqv_transitive(y@, p@.plus(a@), exact_interpolated(a@, b@, t@));
}

/// The exact round trip: the share of the point that lies a share `t` of the
/// way is `t`, whenever the bounds differ.
pub proof fn law_round_trip_exact(a: Fraction, b: Fraction, t: Fraction)
    requires
        a.valid(),
        b.valid(),
        t.valid(),
        b.minus(a).n != 0,
    ensures
        exact_normalized(a, b, exact_interpolated(a, b, t)).eqv(t),
{
    let w = b.minus(a);
    let p = w.times(t);
    lemma_minus_congruent(b, a, b, a);
    lemma_times_congruent(w, t, w, t);
    lemma_plus_minus_cancel(p, a);
    lemma_plus_congruent(p, a, p, a);
    lemma_minus_congruent(p.plus(a), a, p.plus(a), a);
    lemma_over_congruent(p.plus(a).minus(a), w, p, w);
    lemma_over_congruent(p, w, p, w);
    lemma_times_over_cancel(w, t);
    lemma_eqv_transitive(p.plus(a).minus(a).over(w), p.over(w), t);
}

/// The round trip: normalizing what `interpolate` made of `t` gives `t`
/// back, whenever the bounds are not degenerate.
pub proof fn law_round_trip(a: Rational, b: Rational, t: Rational, y: Rational, back: Rational)
    requires
        a.wf(),
        b.wf(),
        t.wf(),
        !degenerate(a@, b@),
        interpolated(a, b, t) == Some(y),
        normalized(a, b, y) == Some(back),
    ensures
        back@.eqv(t@),
        back == t,
{
    lemma_round_trip_value(a, b, t, y, back);
    law_interpolate_exact(a, b, t, y);
    law_normalize_exact(a, b, y, back);
    Rational::lemma_same_value(back, t);
}

/// The round trip, as a statement about values.
proof fn lemma_round_trip_value(a: Rational, b: Rational, t: Rational, y: Rational, back: Rational)
    requires
        a.wf(),
        b.wf(),
        t.wf(),
        !degenerate(a@, b@),
        interpolated(a, b, t) == Some(y),
        normalized(a, b, y) == Some(back),
    ensures
        back@.eqv(t@),
{
    lemma_distinct(a@, b@);
    law_interpolate_exact(a, b, t, y);
    law_normalize_exact(a, b, y, back);
    let exact = exact_interpolated(a@, b@, t@);
    lemma_minus_congruent(b@, a@, b@, a@);
    lemma_times_congruent(b@.minus(a@), t@, b@.minus(a@), t@);
    lemma_plus_congruent(b@.minus(a@).times(t@), a@, b@.minus(a@).times(t@), a@);
    // The exact share of `y` is the exact share of the exact point.
    lemma_minus_congruent(y@, a@, exact, a@);
    lemma_over_congruent(y@.minus(a@), b@.minus(a@), exact.minus(a@), b@.minus(a@));
    lemma_minus_congruent(exact, a@, exact, a@);
    lemma_over_congruent(exact.minus(a@), b@.minus(a@), exact.minus(a@), b@.minus(a@));
    lemma_eqv_transitive(back@, exact_normalized(a@, b@, y@), exact_normalized(a@, b@, exact));
    law_round_trip_exact(a@, b@, t@);
    lemma_eqv_transitive(back@, exact_normalized(a@, b@, exact), t@);
}

/// Interpolating, normalizing and interpolating again gives the first
/// interpolation back. So the result equals `t` itself on just those inputs on
/// which the first interpolation does.
pub proof fn law_interpolate_again(
    a: Rational,
    b: Rational,
    t: Rational,
    y: Rational,
    back: Rational,
    again: Rational,
)
    requires
        a.wf(),
        b.wf(),
        t.wf(),
        !degenerate(a@, b@),
        interpolated(a, b, t) == Some(y),
        normalized(a, b, y) == Some(back),
        interpolated(a, b, back) == Some(again),
    ensures
        again == y,
        again == t <==> y == t,
{
    law_round_trip(a, b, t, y, back);
    law_interpolate_exact(a, b, t, y);
    law_normalize_exact(a, b, y, back);
    lemma_distinct(a@, b@);
    law_interpolate_exact(a, b, back, again);
    lemma_minus_congruent(b@, a@, b@, a@);
    lemma_times_congruent(b@.minus(a@), back@, b@.minus(a@), t@);
    lemma_plus_congruent(b@.minus(a@).times(back@), a@, b@.minus(a@).times(t@), a@);
    lemma_times_congruent(b@.minus(a@), t@, b@.minus(a@), t@);
    lemma_plus_congruent(b@.minus(a@).times(t@), a@, b@.minus(a@).times(t@), a@);
    lemma_eqv_transitive(again@, exact_interpolated(a@, b@, back@), exact_interpolated(a@, b@, t@));
    assert(y@.eqv(exact_interpolated(a@, b@, t@)));
    assert(exact_interpolated(a@, b@, t@).eqv(y@));
    lemma_eqv_transitive(again@, exact_interpolated(a@, b@, t@), y@);
    Rational::lemma_same_value(again, y);
}

/// The exact pixel of `x`: the exact share of `x` in the domain, carried
/// into the range.
pub open spec fn exact_scaled(d0: Fraction, d1: Fraction, r0: int, r1: int, x: Fraction) -> Fraction {
    exact_interpolated(Fraction::integer(r0), Fraction::integer(r1), exact_normalized(d0, d1, x))
}

/// What `pixel` answers: the integer itself, where it fits.
pub proof fn lemma_pixel(r: isize)
    ensures
        pixel(r) matches Some(p) ==> p@ == Fraction::integer(r as int) && p.wf(),
{
    Rational::lemma_narrow_integer(r as int);
    Rational::lemma_narrow(Fraction::integer(r as int));
}

/// Where `scale` answers for a domain that is not degenerate, its answer is
/// the exact pixel `r0 + (r1 - r0) * (x - d0) / (d1 - d0)`.
pub proof fn law_scale_exact(
    d0: Rational,
    d1: Rational,
    r0: isize,
    r1: isize,
    x: Rational,
    y: Rational,
)
    requires
        d0.wf(),
        d1.wf(),
        x.wf(),
        !degenerate(d0@, d1@),
        scaled(d0, d1, r0, r1, x) == Some(y),
    ensures
        y.wf(),
        y@.valid(),
        exact_scaled(d0@, d1@, r0 as int, r1 as int, x@).valid(),
        y@.eqv(exact_scaled(d0@, d1@, r0 as int, r1 as int, x@)),
{
    let t = normalized(d0, d1, x)->Some_0;
    let a = pixel(r0)->Some_0;
    let b = pixel(r1)->Some_0;
    lemma_pixel(r0);
    lemma_pixel(r1);
    lemma_distinct(d0@, d1@);
    law_normalize_exact(d0, d1, x, t);
    law_interpolate_exact(a, b, t, y);
    let exact_t = exact_normalized(d0@, d1@, x@);
    lemma_minus_congruent(x@, d0@, x@, d0@);
    lemma_over_congruent(x@.minus(d0@), d1@.minus(d0@), x@.minus(d0@), d1@.minus(d0@));
    lemma_minus_congruent(b@, a@, b@, a@);
    lemma_times_congruent(b@.minus(a@), t@, b@.minus(a@), exact_t);
    lemma_plus_congruent(b@.minus(a@).times(t@), a@, b@.minus(a@).times(exact_t), a@);
    lemma_times_congruent(b@.minus(a@), exact_t, b@.minus(a@), exact_t);
    lemma_plus_congruent(b@.minus(a@).times(exact_t), a@, b@.minus(a@).times(exact_t), a@);
    lemma_eqv_transitive(
        y@,
        exact_interpolated(a@, b@, t@),
        exact_scaled(d0@, d1@, r0 as int, r1 as int, x@),
    );
}

/// The lower bound of the domain maps to the start of the range, exactly.
pub proof fn law_scale_start(d0: Rational, d1: Rational, r0: isize, r1: isize, x: Rational, y: Rational)
    requires
        d0.wf(),
        d1.wf(),
        x.wf(),
        !degenerate(d0@, d1@),
        x@.eqv(d0@),
        scaled(d0, d1, r0, r1, x) == Some(y),
    ensures
        y@ == Fraction::integer(r0 as int),
        Some(y) == pixel(r0),
{
    lemma_scale_start_value(d0, d1, r0, r1, x, y);
    lemma_pixel(r0);
    Rational::lemma_same_value(y, pixel(r0)->Some_0);
}

/// The lower bound maps to the start of the range, as a statement about values.
proof fn lemma_scale_start_value(
    d0: Rational,
    d1: Rational,
    r0: isize,
    r1: isize,
    x: Rational,
    y: Rational,
)
    requires
        d0.wf(),
        d1.wf(),
        x.wf(),
        !degenerate(d0@, d1@),
        x@.eqv(d0@),
        scaled(d0, d1, r0, r1, x) == Some(y),
    ensures
        y.wf(),
        y@.eqv(Fraction::integer(r0 as int)),
{
    law_scale_exact(d0, d1, r0, r1, x, y);
    lemma_distinct(d0@, d1@);
    let t = exact_normalized(d0@, d1@, x@);
    lemma_minus_self(x@, d0@);
    assert(t.n == 0) by (nonlinear_arith)
        requires
            x@.minus(d0@).n == 0,
            t.n == x@.minus(d0@).n * d1@.minus(d0@).d || t.n == -(x@.minus(d0@).n * d1@.minus(
                d0@,
            ).d),
    ;
    lemma_over_congruent(x@.minus(d0@), d1@.minus(d0@), x@.minus(d0@), d1@.minus(d0@));
    lemma_minus_congruent(x@, d0@, x@, d0@);
    let e = exact_scaled(d0@, d1@, r0 as int, r1 as int, x@);
    let c = Fraction::integer(r1 as int).minus(Fraction::integer(r0 as int));
    assert(e.n == r0 * e.d) by (nonlinear_arith)
        requires
            t.n == 0,
            e.n == (c.n * t.n) * 1 + r0 * (c.d * t.d),
            e.d == (c.d * t.d) * 1,
    ;
    lemma_eqv_transitive(y@, e, Fraction::integer(r0 as int));
}

/// The upper bound of the domain maps to the end of the range, exactly.
pub proof fn law_scale_end(d0: Rational, d1: Rational, r0: isize, r1: isize, x: Rational, y: Rational)
    requires
        d0.wf(),
        d1.wf(),
        x.wf(),
        !degenerate(d0@, d1@),
        x@.eqv(d1@),
        scaled(d0, d1, r0, r1, x) == Some(y),
    ensures
        y@ == Fraction::integer(r1 as int),
        Some(y) == pixel(r1),
{
    lemma_scale_end_value(d0, d1, r0, r1, x, y);
    lemma_pixel(r1);
    Rational::lemma_same_value(y, pixel(r1)->Some_0);
}

/// The upper bound maps to the end of the range, as a statement about values.
proof fn lemma_scale_end_value(
    d0: Rational,
    d1: Rational,
    r0: isize,
    r1: isize,
    x: Rational,
    y: Rational,
)
    requires
        d0.wf(),
        d1.wf(),
        x.wf(),
        !degenerate(d0@, d1@),
        x@.eqv(d1@),
        scaled(d0, d1, r0, r1, x) == Some(y),
    ensures
        y.wf(),
        y@.eqv(Fraction::integer(r1 as int)),
{
    law_scale_exact(d0, d1, r0, r1, x, y);
    lemma_distinct(d0@, d1@);
    let s = d1@.minus(d0@);
    // The share of `x` is the share of `d1`, which is one.
    lemma_minus_congruent(x@, d0@, d1@, d0@);
    lemma_over_congruent(x@.minus(d0@), s, s, s);
    let t = exact_normalized(d0@, d1@, x@);
    let one = s.over(s);
    assert(one.n == one.d) by (nonlinear_arith)
        requires
            (one.n == s.n * s.d && one.d == s.d * s.n) || (one.n == -(s.n * s.d) && one.d == s.d
                * (-s.n)),
    ;
    assert(t.n * one.d == one.n * t.d);
    lemma_over_congruent(s, s, s, s);
    assert(one.d > 0);
    assert(t.n == t.d) by (nonlinear_arith)
        requires
            t.n * one.d == one.n * t.d,
            one.n == one.d,
            one.d > 0,
    ;
    let e = exact_scaled(d0@, d1@, r0 as int, r1 as int, x@);
    let c = Fraction::integer(r1 as int).minus(Fraction::integer(r0 as int));
    assert(e.n == r1 * e.d) by (nonlinear_arith)
        requires
            t.n == t.d,
            c.n == r1 * 1 - r0 * 1,
            c.d == 1 * 1,
            e.n == (c.n * t.n) * 1 + r0 * (c.d * t.d),
            e.d == (c.d * t.d) * 1,
    ;
    lemma_minus_congruent(x@, d0@, x@, d0@);
    lemma_over_congruent(x@.minus(d0@), s, x@.minus(d0@), s);
    lemma_eqv_transitive(y@, e, Fraction::integer(r1 as int));
}

/// A scale keeps or turns the order of the values it maps. Where domain and
/// range run the same way, a smaller value maps to a pixel that is not
/// larger; where they run opposite ways, to one that is not smaller. A
/// degenerate domain runs both ways.
pub proof fn law_scale_monotone(
    d0: Rational,
    d1: Rational,
    r0: isize,
    r1: isize,
    x1: Rational,
    x2: Rational,
    y1: Rational,
    y2: Rational,
)
    requires
        d0.wf(),
        d1.wf(),
        x1.wf(),
        x2.wf(),
        x1@.le(x2@),
        scaled(d0, d1, r0, r1, x1) == Some(y1),
        scaled(d0, d1, r0, r1, x2) == Some(y2),
    ensures
        (d0@.le(d1@) || degenerate(d0@, d1@)) && r0 <= r1 ==> y1@.le(y2@),
        (d0@.le(d1@) || degenerate(d0@, d1@)) && r0 >= r1 ==> y2@.le(y1@),
        (d1@.le(d0@) || degenerate(d0@, d1@)) && r0 <= r1 ==> y2@.le(y1@),
        (d1@.le(d0@) || degenerate(d0@, d1@)) && r0 >= r1 ==> y1@.le(y2@),
{
    let a = pixel(r0)->Some_0;
    let b = pixel(r1)->Some_0;
    lemma_pixel(r0);
    lemma_pixel(r1);
    let t1 = normalized(d0, d1, x1)->Some_0;
    let t2 = normalized(d0, d1, x2)->Some_0;
    if degenerate(d0@, d1@) {
        assert(y1 == y2);
    } else {
        lemma_distinct(d0@, d1@);
        let s = d1@.minus(d0@);
        law_normalize_exact(d0, d1, x1, t1);
        law_normalize_exact(d0, d1, x2, t2);
        let e1 = exact_normalized(d0@, d1@, x1@);
        let e2 = exact_normalized(d0@, d1@, x2@);
        lemma_minus_monotone(x1@, x2@, d0@);
        // The shares are ordered as the values, or the other way round.
        if s.n > 0 {
            lemma_over_monotone(x1@.minus(d0@), x2@.minus(d0@), s);
            lemma_le_congruent(e1, e2, t1@, t2@);
        } else {
            lemma_over_antitone(x1@.minus(d0@), x2@.minus(d0@), s);
            lemma_le_congruent(e2, e1, t2@, t1@);
        }
        law_interpolate_exact(a, b, t1, y1);
        law_interpolate_exact(a, b, t2, y2);
        let c = b@.minus(a@);
        lemma_minus_congruent(b@, a@, b@, a@);
        let i1 = exact_interpolated(a@, b@, t1@);
        let i2 = exact_interpolated(a@, b@, t2@);
        if s.n > 0 {
            lemma_times_monotone(c, t1@, t2@);
            if r0 <= r1 {
                lemma_plus_monotone(c.times(t1@), c.times(t2@), a@);
                lemma_le_congruent(i1, i2, y1@, y2@);
            }
            if r0 >= r1 {
                lemma_plus_monotone(c.times(t2@), c.times(t1@), a@);
                lemma_le_congruent(i2, i1, y2@, y1@);
            }
        } else {
            lemma_times_monotone(c, t2@, t1@);
            if r0 <= r1 {
                lemma_plus_monotone(c.times(t2@), c.times(t1@), a@);
                lemma_le_congruent(i2, i1, y2@, y1@);
            }
            if r0 >= r1 {
                lemma_plus_monotone(c.times(t1@), c.times(t2@), a@);
                lemma_le_congruent(i1, i2, y1@, y2@);
            }
        }
    }
}

/// Of two decades that hold the same raw step, the second is not above the first.
proof fn lemma_decades_apart(s: Fraction, p: int, q: int)
    requires
        s.valid(),
        in_decade(s, p),
        in_decade(s, q),
    ensures
        q <= p,
{
    if q <= p {
    } else if p >= 0 {
        lemma_pow10_increases((p + 1) as nat, q as nat);
        assert(s.d * pow10((p + 1) as nat) <= s.d * pow10(q as nat)) by (nonlinear_arith)
            requires
                s.d > 0,
                pow10((p + 1) as nat) <= pow10(q as nat),
        ;
    } else if q < 0 {
        let j = (-p) as nat;
        let k = (-q) as nat;
        lemma_pow10_increases(k + 1, j);
        lemma_pow10_positive(k);
        assert(pow10(k + 1) == 10 * pow10(k));
        assert(s.n > 0) by (nonlinear_arith)
            requires
                s.d <= s.n * pow10(k),
                s.d > 0,
                pow10(k) >= 1,
        ;
        assert(s.n * pow10(j) >= 10 * (s.n * pow10(k))) by (nonlinear_arith)
            requires
                s.n > 0,
                pow10(j) >= 10 * pow10(k),
        ;
    } else {
        let j = (-p) as nat;
        lemma_pow10_increases(1, j);
        assert(pow10(1) == 10) by {
            reveal_with_fuel(pow10, 2);
        }
        lemma_pow10_positive(q as nat);
        assert(s.d <= s.n) by (nonlinear_arith)
            requires
                s.d * pow10(q as nat) <= s.n,
                s.d > 0,
                pow10(q as nat) >= 1,
        ;
        assert(s.n * pow10(j) >= 10 * s.n) by (nonlinear_arith)
            requires
                s.n > 0,
                pow10(j) >= 10,
        ;
    }
}

/// A raw step lies in one decade only.
pub proof fn law_decade_unique(s: Fraction, p: int, q: int)
    requires
        s.valid(),
        in_decade(s, p),
        in_decade(s, q),
    ensures
        p == q,
{
    lemma_decades_apart(s, p, q);
    lemma_decades_apart(s, q, p);
}

/// A raw step has one nice increment only: what `tick_step` answers is
/// determined by its contract.
pub proof fn law_increment_unique(s: Fraction, first: int, second: int)
    requires
        s.valid(),
        is_increment(s, first),
        is_increment(s, second),
    ensures
        first == second,
{
    let p = choose|p: int| #[trigger]
        in_decade(s, p) && first == increment(p, multiplier(mantissa(s, p)));
    let q = choose|q: int| #[trigger]
        in_decade(s, q) && second == increment(q, multiplier(mantissa(s, q)));
    law_decade_unique(s, p, q);
}

/// The nice increment of a raw step stands for one, two, five or ten times a
/// power of ten.
pub proof fn law_increment_nice(s: Fraction, inc: int)
    requires
        is_increment(s, inc),
    ensures
        is_nice(inc),
{
    let p = choose|p: int| #[trigger]
        in_decade(s, p) && inc == increment(p, multiplier(mantissa(s, p)));
    let m = multiplier(mantissa(s, p));
    assert(is_multiplier(m) && inc == increment(p, m));
}

/// The label of an axis on the left is turned a quarter against the clock,
/// that of an axis on the right a quarter with it, and that of a horizontal
/// axis is not turned; and the markup of the label says so.
pub proof fn law_label_rotation(axis: AxisView, upper_bound_length: nat)
    ensures
        axis.position is Left ==> axis.position.label_angle() == -90,
        axis.position is Right ==> axis.position.label_angle() == 90,
        axis.position is Top || axis.position is Bottom ==> axis.position.label_angle() == 0,
        axis.label_markup(upper_bound_length)->attributes["transform"@] == "rotate("@
            + crate::text::integer_text(axis.position.label_angle()) + ")"@,
{
}

/// The font size that a tick holds is the one that its markup writes on the
/// label.
pub proof fn law_font_size_drawn(tick: AxisTickView, text: Seq<char>)
    ensures
        tick.markup(text)->children.len() == 2,
        tick.markup(text)->children[1]->attributes["font-size"@] == tick.label_font_size,
{
    reveal_strlit("font-size");
    reveal_strlit("font-family");
    reveal_strlit("fill");
    assert("font-size"@.len() == 9 && "font-family"@.len() == 11 && "fill"@.len() == 4);
}

/// After the tick label font size of an axis was set, every tick that the
/// axis holds is drawn in that size.
pub proof fn law_font_size_reaches_ticks(before: AxisView, after: AxisView, size: usize, i: int)
    requires
        after == (AxisView {
            tick_label_font_size: Some(size),
            ticks: before.ticks.map_values(
                |t: AxisTickView| AxisTickView { label_font_size: pixels_text(size as nat), ..t },
            ),
            ..before
        }),
        0 <= i < before.ticks.len(),
    ensures
        after.ticks.len() == before.ticks.len(),
        after.ticks[i].label_font_size == pixels_text(size as nat),
        forall|text: Seq<char>|
            (#[trigger] after.ticks[i].markup(text))->children[1]->attributes["font-size"@]
                == pixels_text(size as nat),
{
    assert forall|text: Seq<char>|
        (#[trigger] after.ticks[i].markup(text))->children[1]->attributes["font-size"@]
            == pixels_text(size as nat) by {
        law_font_size_drawn(after.ticks[i], text);
    }
}

/// A positive increment stands for itself, a negative one for the
/// reciprocal of its negation: either way the increment of the multiplier
/// `m` and the exponent `p` stands for the step `m * 10^p`.
pub proof fn law_increment_step(p: int, m: int)
    requires
        is_multiplier(m),
    ensures
        increment(p, m) != 0,
        p >= 0 ==> increment(p, m) > 0,
        p < 0 ==> increment(p, m) < 0,
        step_of(increment(p, m)).eqv(Fraction::integer(m).times(power_of_ten(p))),
{
    if p >= 0 {
        lemma_pow10_positive(p as nat);
        assert(m * pow10(p as nat) > 0) by (nonlinear_arith)
            requires
                m >= 1,
                pow10(p as nat) >= 1,
        ;
    } else {
        let j = (-p) as nat;
        let w = pow10((j - 1) as nat);
        lemma_pow10_positive((j - 1) as nat);
        assert(pow10(j) == 10 * w);
        let r = pow10(j) / m;
        // ten times `w` is `m` times `r`, for each of the four multipliers
        assert(m * r == 10 * w && r >= 1) by {
            if m == 1 {
                assert(r == 10 * w);
            } else if m == 2 {
                assert(10 * w == 2 * (5 * w));
                assert(r == 5 * w);
            } else if m == 5 {
                assert(10 * w == 5 * (2 * w));
                assert(r == 2 * w);
            } else {
                assert(r == w);
            }
        }
        assert(step_of(-r) == Fraction { n: 1, d: r });
    }
}

/// The values that `multiples_between` lists are the multiples of the step.
pub proof fn law_tick_is_multiple(k: int, inc: int)
    requires
        inc != 0,
    ensures
        tick_at(k, inc).valid(),
        tick_at(k, inc).eqv(Fraction::integer(k).times(step_of(inc))),
{
}

/// What `ceil_div` and `floor_div` are: the quotient rounded up and down.
pub proof fn lemma_rounded_quotients(n: int, d: int)
    requires
        d > 0,
    ensures
        ceil_div(n, d) * d - d < n <= ceil_div(n, d) * d,
        floor_div(n, d) * d <= n < floor_div(n, d) * d + d,
{
    lemma_fundamental_div_mod(n, d);
    lemma_fundamental_div_mod(-n, d);
    lemma_mod_bound(n, d);
    lemma_mod_bound(-n, d);
    let f = n / d;
    let c = (-n) / d;
    assert(f * d == d * f) by (nonlinear_arith);
    assert((-c) * d == -(d * c)) by (nonlinear_arith);
}

/// Every tick lies inside the interval, and every multiple of the step that
/// lies inside the interval is a tick.
pub proof fn law_ticks_fill_the_interval(lo: Fraction, hi: Fraction, inc: int, k: int)
    requires
        lo.valid(),
        hi.valid(),
        inc != 0,
    ensures
        first_index(lo, inc) <= k <= last_index(hi, inc) <==> lo.le(tick_at(k, inc)) && tick_at(
            k,
            inc,
        ).le(hi),
{
    let k0 = first_index(lo, inc);
    let k1 = last_index(hi, inc);
    if inc > 0 {
        let a = lo.d * inc;
        let b = hi.d * inc;
        assert(a > 0 && b > 0) by (nonlinear_arith)
            requires
                a == lo.d * inc,
                b == hi.d * inc,
                lo.d > 0,
                hi.d > 0,
                inc > 0,
        ;
        lemma_rounded_quotients(lo.n, a);
        lemma_rounded_quotients(hi.n, b);
        assert((k * inc) * lo.d == k * a && (k * inc) * hi.d == k * b) by (nonlinear_arith)
            requires
                a == lo.d * inc,
                b == hi.d * inc,
        ;
        assert(k0 <= k <==> lo.n <= k * a) by (nonlinear_arith)
            requires
                k0 * a - a < lo.n <= k0 * a,
                a > 0,
        ;
        assert(k <= k1 <==> k * b <= hi.n) by (nonlinear_arith)
            requires
                k1 * b <= hi.n < k1 * b + b,
                b > 0,
        ;
    } else {
        let r = -inc;
        lemma_rounded_quotients(lo.n * r, lo.d);
        lemma_rounded_quotients(hi.n * r, hi.d);
        let a = lo.n * r;
        let b = hi.n * r;
        assert(k0 <= k <==> a <= k * lo.d) by (nonlinear_arith)
            requires
                k0 * lo.d - lo.d < a <= k0 * lo.d,
                lo.d > 0,
        ;
        assert(k <= k1 <==> k * hi.d <= b) by (nonlinear_arith)
            requires
                k1 * hi.d <= b < k1 * hi.d + hi.d,
                hi.d > 0,
        ;
    }
}

/// The ticks are the multiples of the step from the first index to the last,
/// one step apart.
pub proof fn law_ticks_in_order(lo: Fraction, hi: Fraction, inc: int, i: int)
    requires
        inc != 0,
        0 <= i < multiples_between(lo, hi, inc).len(),
    ensures
        multiples_between(lo, hi, inc).len() == last_index(hi, inc) - first_index(lo, inc) + 1,
        multiples_between(lo, hi, inc)[i] == tick_at(first_index(lo, inc) + i, inc),
        tick_at(first_index(lo, inc) + i + 1, inc).minus(multiples_between(lo, hi, inc)[i]).eqv(
            step_of(inc),
        ),
{
    let k = first_index(lo, inc) + i;
    if inc > 0 {
        assert((k + 1) * inc - k * inc == inc) by (nonlinear_arith);
    } else {
        let r = -inc;
        assert(((k + 1) * r - k * r) * r == 1 * (r * r)) by (nonlinear_arith);
    }
}

/// A domain has one tick distance only: what `compute_tick_distance`
/// answers is determined by its contract.
pub proof fn law_distance_unique(
    first: Fraction,
    second: Fraction,
    d0: Fraction,
    d1: Fraction,
    count: int,
)
    requires
        d0.valid(),
        d1.valid(),
        count > 0,
        is_distance(first, d0, d1, count),
        is_distance(second, d0, d1, count),
    ensures
        first == second,
{
    let raw = raw_step(d0, d1, count);
    let p = choose|p: int| #[trigger]
        in_decade(raw, p) && first == adjusted(d1.minus(d0), power_of_ten(p));
    let q = choose|q: int| #[trigger]
        in_decade(raw, q) && second == adjusted(d1.minus(d0), power_of_ten(q));
    assert(raw.d > 0) by (nonlinear_arith)
        requires
            raw.d == (d1.d * d0.d) * count,
            d1.d > 0,
            d0.d > 0,
            count > 0,
    ;
    law_decade_unique(raw, p, q);
}

/// The ticks of a logarithmic scale start at the lower bound, lie one tick
/// distance apart, and end with the last that is not above the upper bound.
pub proof fn law_steps_fill_the_interval(lo: Fraction, hi: Fraction, td: Fraction, i: int)
    requires
        lo.valid(),
        hi.valid(),
        td.valid(),
        td.n > 0,
        0 <= i,
    ensures
        step_at(lo, td, 0).eqv(lo),
        step_at(lo, td, i).eqv(lo.plus(Fraction::integer(i).times(td))),
        i <= last_step(lo, hi, td) <==> step_at(lo, td, i).le(hi),
{
    let n = hi.minus(lo).n;
    let dd = hi.minus(lo).d;
    let a = n * td.d;
    let b = dd * td.n;
    assert(b > 0 && dd > 0) by (nonlinear_arith)
        requires
            b == dd * td.n,
            dd == hi.d * lo.d,
            hi.d > 0,
            lo.d > 0,
            td.n > 0,
    ;
    lemma_rounded_quotients(a, b);
    let last = last_step(lo, hi, td);
    assert(i <= last <==> i * b <= a) by (nonlinear_arith)
        requires
            last * b <= a < last * b + b,
            b > 0,
    ;
    let s = step_at(lo, td, i);
    // s <= hi, cross-multiplied, is i * b <= a
    assert(hi.n * s.d - s.n * hi.d == a - i * b) by {
        lemma_step_gap(lo, hi, td, i);
    }
    assert(s.n * (lo.d * (1 * td.d)) == (lo.n * (1 * td.d) + (i * td.n) * lo.d) * s.d)
        by (nonlinear_arith)
        requires
            s.n == lo.n * td.d + (i * td.n) * lo.d,
            s.d == lo.d * td.d,
    ;
    assert((lo.n * td.d + (0 * td.n) * lo.d) * lo.d == lo.n * (lo.d * td.d)) by (nonlinear_arith);
}

/// How far the `i`-th step is below the upper bound, cross-multiplied.
proof fn lemma_step_gap(lo: Fraction, hi: Fraction, td: Fraction, i: int)
    ensures
        hi.n * step_at(lo, td, i).d - step_at(lo, td, i).n * hi.d == hi.minus(lo).n * td.d - i * (
        hi.minus(lo).d * td.n),
{
    let s = step_at(lo, td, i);
    assert(hi.n * (lo.d * td.d) == (hi.n * lo.d) * td.d) by (nonlinear_arith);
    lemma_mul_is_distributive_add_other_way(hi.d, lo.n * td.d, (i * td.n) * lo.d);
    assert((lo.n * td.d) * hi.d == (lo.n * hi.d) * td.d) by (nonlinear_arith);
    assert(((i * td.n) * lo.d) * hi.d == (i * td.n) * (lo.d * hi.d)) by (nonlinear_arith);
    assert((i * td.n) * (lo.d * hi.d) == i * (td.n * (lo.d * hi.d))) by (nonlinear_arith);
    assert(td.n * (lo.d * hi.d) == (hi.d * lo.d) * td.n) by (nonlinear_arith);
    assert((hi.n * lo.d - lo.n * hi.d) * td.d == (hi.n * lo.d) * td.d - (lo.n * hi.d) * td.d)
        by (nonlinear_arith);
}

/// The magnitude of the numerator is at most `n`, the denominator is
/// positive and at most `d`.
pub open spec fn within(f: Fraction, n: int, d: int) -> bool {
    -n <= f.n <= n && 0 < f.d <= d
}

/// A fraction within bounds that fit has a machine value within the same bounds.
proof fn lemma_narrow_within(f: Fraction, n: int, d: int)
    requires
        within(f, n, d),
        n <= 0x7fff_ffff_ffff_ffff,
        d <= 0x7fff_ffff_ffff_ffff,
    ensures
        Rational::narrow(f) matches Some(v) && within(v@, n, d) && v.wf() && v@.eqv(f),
{
    crate::rational::lemma_reduced_eqv(f);
    Rational::lemma_narrow(f);
}

/// Bounds of a sum and of a difference.
proof fn lemma_sum_within(x: Fraction, a: Fraction, nx: int, dx: int, na: int, da: int)
    requires
        within(x, nx, dx),
        within(a, na, da),
    ensures
        within(x.plus(a), nx * da + na * dx, dx * da),
        within(x.minus(a), nx * da + na * dx, dx * da),
{
    assert(-(nx * da) <= x.n * a.d <= nx * da) by (nonlinear_arith)
        requires
            -nx <= x.n <= nx,
            0 < a.d <= da,
    ;
    assert(-(na * dx) <= a.n * x.d <= na * dx) by (nonlinear_arith)
        requires
            -na <= a.n <= na,
            0 < x.d <= dx,
    ;
    assert(0 < x.d * a.d <= dx * da) by (nonlinear_arith)
        requires
            0 < x.d <= dx,
            0 < a.d <= da,
    ;
}

/// Bounds of a product and of a quotient.
proof fn lemma_product_within(x: Fraction, a: Fraction, nx: int, dx: int, na: int, da: int)
    requires
        within(x, nx, dx),
        within(a, na, da),
    ensures
        within(x.times(a), nx * na, dx * da),
        a.n != 0 ==> within(x.over(a), nx * da, dx * na),
{
    assert(-(nx * na) <= x.n * a.n <= nx * na) by (nonlinear_arith)
        requires
            -nx <= x.n <= nx,
            -na <= a.n <= na,
    ;
    assert(0 < x.d * a.d <= dx * da) by (nonlinear_arith)
        requires
            0 < x.d <= dx,
            0 < a.d <= da,
    ;
    if a.n != 0 {
        assert(-(nx * da) <= x.n * a.d <= nx * da) by (nonlinear_arith)
            requires
                -nx <= x.n <= nx,
                0 < a.d <= da,
        ;
        if a.n > 0 {
            assert(0 < x.d * a.n <= dx * na) by (nonlinear_arith)
                requires
                    0 < x.d <= dx,
                    0 < a.n <= na,
            ;
        } else {
            assert(0 < x.d * (-a.n) <= dx * na) by (nonlinear_arith)
                requires
                    0 < x.d <= dx,
                    0 < -a.n <= na,
            ;
        }
    }
}

/// `scale` answers whenever the parts of the domain bounds and of the value
/// are at most a thousand in magnitude and the range lies within a million
/// pixels of zero.
pub proof fn law_scale_succeeds(d0: Rational, d1: Rational, r0: isize, r1: isize, x: Rational)
    requires
        within(d0@, 1000, 1000),
        within(d1@, 1000, 1000),
        within(x@, 1000, 1000),
        -1_000_000 <= r0 <= 1_000_000,
        -1_000_000 <= r1 <= 1_000_000,
    ensures
        scaled(d0, d1, r0, r1, x) is Some,
{
    // the share, within two million millions over two million millions
    let share = normalized(d0, d1, x);
    if degenerate(d0@, d1@) {
        law_normalize_degenerate(d0, d1, x);
    } else {
        lemma_distinct(d0@, d1@);
        lemma_sum_within(x@, d0@, 1000, 1000, 1000, 1000);
        lemma_sum_within(d1@, d0@, 1000, 1000, 1000, 1000);
        lemma_narrow_within(x@.minus(d0@), 2_000_000, 1_000_000);
        lemma_narrow_within(d1@.minus(d0@), 2_000_000, 1_000_000);
        let u = Rational::narrow(x@.minus(d0@))->Some_0;
        let w = Rational::narrow(d1@.minus(d0@))->Some_0;
        lemma_eqv_sign(w@, d1@.minus(d0@));
        lemma_product_within(u@, w@, 2_000_000, 1_000_000, 2_000_000, 1_000_000);
        lemma_narrow_within(u@.over(w@), 2_000_000_000_000, 2_000_000_000_000);
    }
    let t = share->Some_0;
    assert(within(t@, 2_000_000_000_000, 2_000_000_000_000));
    // the pixel, within six million million millions over two million millions
    Rational::lemma_narrow_integer(r0 as int);
    Rational::lemma_narrow_integer(r1 as int);
    lemma_pixel(r0);
    lemma_pixel(r1);
    let a = pixel(r0)->Some_0;
    let b = pixel(r1)->Some_0;
    lemma_sum_within(b@, a@, 1_000_000, 1, 1_000_000, 1);
    lemma_narrow_within(b@.minus(a@), 2_000_000, 1);
    let c = Rational::narrow(b@.minus(a@))->Some_0;
    lemma_product_within(c@, t@, 2_000_000, 1, 2_000_000_000_000, 2_000_000_000_000);
    lemma_narrow_within(c@.times(t@), 4_000_000_000_000_000_000, 2_000_000_000_000);
    let p = Rational::narrow(c@.times(t@))->Some_0;
    lemma_sum_within(p@, a@, 4_000_000_000_000_000_000, 2_000_000_000_000, 1_000_000, 1);
    lemma_narrow_within(p@.plus(a@), 6_000_000_000_000_000_000, 2_000_000_000_000);
}

/// The ticks of a step of one or more always have a machine value; those of
/// a step below one have one whenever the bounds, counted in steps, fit. So
/// `get_ticks` fails on no domain that a chart is likely to see.
pub proof fn law_ticks_fit(lo: Rational, hi: Rational, inc: int, i: int)
    requires
        lo.wf(),
        hi.wf(),
        inc != 0,
        -0x7fff_ffff_ffff_ffff <= inc,
        inc < 0 ==> -0x7fff_ffff_ffff_ffff <= lo@.n * inc <= 0x7fff_ffff_ffff_ffff,
        inc < 0 ==> -0x7fff_ffff_ffff_ffff <= hi@.n * inc <= 0x7fff_ffff_ffff_ffff,
        0 <= i < multiples_between(lo@, hi@, inc).len(),
    ensures
        Rational::narrow(multiples_between(lo@, hi@, inc)[i]) is Some,
{
    let k = first_index(lo@, inc) + i;
    let t = tick_at(k, inc);
    law_ticks_fill_the_interval(lo@, hi@, inc, k);
    assert(lo@.le(t) && t.le(hi@));
    if inc > 0 {
        let v = k * inc;
        assert(-0x7fff_ffff_ffff_ffff <= v <= 0x7fff_ffff_ffff_ffff) by (nonlinear_arith)
            requires
                lo@.n * 1 <= v * lo@.d,
                v * hi@.d <= hi@.n * 1,
                -0x7fff_ffff_ffff_ffff <= lo@.n,
                hi@.n <= 0x7fff_ffff_ffff_ffff,
                lo@.d >= 1,
                hi@.d >= 1,
        ;
    } else {
        let r = -inc;
        assert(lo@.n * r == -(lo@.n * inc) && hi@.n * r == -(hi@.n * inc)) by (nonlinear_arith)
            requires
                r == -inc,
        ;
        assert(-0x7fff_ffff_ffff_ffff <= k <= 0x7fff_ffff_ffff_ffff) by (nonlinear_arith)
            requires
                lo@.n * r <= k * lo@.d,
                k * hi@.d <= hi@.n * r,
                -0x7fff_ffff_ffff_ffff <= lo@.n * r,
                hi@.n * r <= 0x7fff_ffff_ffff_ffff,
                lo@.d >= 1,
                hi@.d >= 1,
        ;
    }
    crate::rational::lemma_narrow_fits(t);
}

} // verus!
