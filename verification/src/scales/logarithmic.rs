//! The scale for logarithmic data.
//!
//! Values are mapped linearly, as on the linear scale; only the ticks differ:
//! they run from the lower bound in equal distances of a power of ten,
//! halved or doubled once to keep their number moderate.

use crate::arith::{floor_div, floor_div_i128, mul_i64, pow10};
use crate::rational::{lemma_reduced_eqv, Fraction, Rational};
use crate::scales::linear::{
    copy_values, has_step, raw_step, scale_value, scaled, step_supported,
};
use crate::scales::mapping::{
    denormalize, denormalized, interpolate, interpolated, normalize, normalized,
};
use crate::scales::ticks::{find_decade, holds_exactly, in_decade, MAGNITUDE_LIMIT};
use crate::scales::{ContinuousView, Scale, ScaleError, ScaleKind};
use vstd::prelude::*;

verus! {

/// Ten to the power `p`, for any integer `p`.
pub open spec fn power_of_ten(p: int) -> Fraction {
    if p >= 0 {
        Fraction { n: pow10(p as nat), d: 1 }
    } else {
        Fraction { n: 1, d: pow10((-p) as nat) }
    }
}

/// The distance `base` after its one adjustment: halved where fewer than two
/// of it fit into `distance`, doubled where more than five do.
pub open spec fn adjusted(distance: Fraction, base: Fraction) -> Fraction {
    let ticks = distance.over(base);
    if ticks.lt(Fraction::integer(2)) {
        Fraction { n: base.n, d: base.d * 2 }
    } else if Fraction::integer(5).lt(ticks) {
        Fraction { n: base.n * 2, d: base.d }
    } else {
        base
    }
}

/// `td` is the tick distance for the domain `[d0, d1]` and `count` ticks: the
/// power of ten at or below the raw step, adjusted once.
pub open spec fn is_distance(td: Fraction, d0: Fraction, d1: Fraction, count: int) -> bool {
    exists|p: int| #[trigger]
        in_decade(raw_step(d0, d1, count), p) && td == adjusted(d1.minus(d0), power_of_ten(p))
}

/// What `compute_tick_distance` answers for the domain and the tick count.
pub open spec fn is_tick_distance(
    r: Result<Rational, ScaleError>,
    d0: Fraction,
    d1: Fraction,
    count: int,
) -> bool {
    match r {
        Ok(td) => {
            &&& has_step(d0, d1, count)
            &&& step_supported(d0, d1, count)
            &&& exists|f: Fraction| #[trigger]
                is_distance(f, d0, d1, count) && Some(td) == Rational::narrow(f)
            &&& 0 < td@.n <= 20 * MAGNITUDE_LIMIT
            &&& 0 < td@.d <= 20 * MAGNITUDE_LIMIT
        },
        Err(e) => if has_step(d0, d1, count) {
            e == ScaleError::OutOfRange && !step_supported(d0, d1, count)
        } else {
            e == ScaleError::EmptySpan
        },
    }
}

/// Index of the last tick: how many whole distances fit between the bounds.
pub open spec fn last_step(lo: Fraction, hi: Fraction, td: Fraction) -> int {
    floor_div(hi.minus(lo).n * td.d, hi.minus(lo).d * td.n)
}

/// The value `lo + i * td`.
pub open spec fn step_at(lo: Fraction, td: Fraction, i: int) -> Fraction {
    Fraction { n: lo.n * td.d + (i * td.n) * lo.d, d: lo.d * td.d }
}

/// The values `lo`, `lo + td`, `lo + 2 td`, ... up to the last that is not
/// above `hi`.
pub open spec fn steps_between(lo: Fraction, hi: Fraction, td: Fraction) -> Seq<Fraction> {
    Seq::new((last_step(lo, hi, td) + 1) as nat, |i: int| step_at(lo, td, i))
}

/// What `get_ticks` answers for the domain `[d0, d1]` and the tick count.
pub open spec fn is_logarithmic_ticks(
    r: Result<Vec<Rational>, ScaleError>,
    d0: Rational,
    d1: Rational,
    count: int,
) -> bool {
    if d1@.lt(d0@) {
        r matches Ok(v) && v@.len() == 0
    } else if !has_step(d0@, d1@, count) {
        r matches Ok(v) && v@ == seq![d0]
    } else if !step_supported(d0@, d1@, count) {
        r == Err::<Vec<Rational>, ScaleError>(ScaleError::OutOfRange)
    } else {
        exists|f: Fraction, td: Rational|
            #![trigger is_distance(f, d0@, d1@, count), Rational::narrow(f), td@]
            is_distance(f, d0@, d1@, count) && Some(td) == Rational::narrow(f) && holds_exactly(
                r,
                steps_between(d0@, d1@, td@),
            )
    }
}

/// The distance between the ticks of the domain `[d0, d1]` for `count` ticks.
pub fn tick_distance(d0: &Rational, d1: &Rational, count: usize) -> (r: Result<
    Rational,
    ScaleError,
>)
    ensures
        is_tick_distance(r, d0@, d1@, count as int),
{
    proof {
        use_type_invariant(d0);
        use_type_invariant(d1);
    }
    if count == 0 || !d0.less_than(d1) {
        return Err(ScaleError::EmptySpan);
    }
    let n: i128 = mul_i64(d1.numerator(), d0.denominator()) - mul_i64(
        d0.numerator(),
        d1.denominator(),
    );
    let dd: i128 = mul_i64(d1.denominator(), d0.denominator());
    let ghost raw = raw_step(d0@, d1@, count as int);
    let ghost distance = d1@.minus(d0@);
    assert(dd > 0) by (nonlinear_arith)
        requires
            dd == d1@.d * d0@.d,
            d1@.d > 0,
            d0@.d > 0,
    ;
    if n >= MAGNITUDE_LIMIT || dd >= MAGNITUDE_LIMIT || count as u128 >= MAGNITUDE_LIMIT as u128 {
        assert(raw.d >= MAGNITUDE_LIMIT || raw.n >= MAGNITUDE_LIMIT) by (nonlinear_arith)
            requires
                raw.d == dd * count,
                raw.n == n,
                dd >= 1,
                count >= 1,
                n >= MAGNITUDE_LIMIT || dd >= MAGNITUDE_LIMIT || count >= MAGNITUDE_LIMIT,
        ;
        return Err(ScaleError::OutOfRange);
    }
    assert(0 <= dd * count <= MAGNITUDE_LIMIT * MAGNITUDE_LIMIT) by (nonlinear_arith)
        requires
            0 < dd < MAGNITUDE_LIMIT,
            0 < count < MAGNITUDE_LIMIT,
    ;
    let d: i128 = dd * (count as i128);
    if d >= MAGNITUDE_LIMIT {
        return Err(ScaleError::OutOfRange);
    }
    assert(d > 0 && dd <= d) by (nonlinear_arith)
        requires
            d == dd * count,
            dd > 0,
            count > 0,
    ;
    let decade = find_decade(n, d);
    let w: i128 = decade.power;
    let ghost p = decade.exponent@;
    let ghost base = power_of_ten(p);
    let ghost ticks = distance.over(base);
    let tn: i128;
    let td: i128;
    if decade.up {
        // The base is `w`; `n / (dd * w)` of it fit into the distance.
        assert(0 < dd * w <= d * w) by (nonlinear_arith)
            requires
                0 < dd <= d,
                w >= 1,
        ;
        let q: i128 = dd * w;
        assert(ticks == Fraction { n: n * 1, d: dd * w });
        assert(ticks.lt(Fraction::integer(2)) == (n < 2 * q));
        assert(Fraction::integer(5).lt(ticks) == (5 * q < n));
        if n < 2 * q {
            tn = w;
            td = 2;
        } else if 5 * q < n {
            tn = 2 * w;
            td = 1;
        } else {
            tn = w;
            td = 1;
        }
    } else {
        // The base is `1 / w`; `n * w / dd` of it fit into the distance.
        let u: i128 = decade.numerator;
        assert(ticks == Fraction { n: n * w, d: dd * 1 });
        assert(ticks.lt(Fraction::integer(2)) == (u < 2 * dd));
        assert(Fraction::integer(5).lt(ticks) == (5 * dd < u));
        if u < 2 * dd {
            tn = 1;
            td = 2 * w;
        } else if 5 * dd < u {
            tn = 2;
            td = w;
        } else {
            tn = 1;
            td = w;
        }
    }
    let ghost f = Fraction { n: tn as int, d: td as int };
    assert(0 < tn <= 20 * MAGNITUDE_LIMIT && 0 < td <= 20 * MAGNITUDE_LIMIT);
    assert(f == adjusted(distance, base));
    assert(is_distance(f, d0@, d1@, count as int));
    proof {
        lemma_reduced_eqv(f);
        Rational::lemma_narrow(f);
    }
    match Rational::from_wide(tn, td) {
        Some(t) => {
            proof {
                crate::fraction_laws::lemma_eqv_sign(t@, f);
            }
            Ok(t)
        },
        None => Err(ScaleError::OutOfRange),
    }
}

/// The values `lo`, `lo + td`, ... up to the last that is not above `hi`.
fn steps(lo: &Rational, hi: &Rational, td: &Rational) -> (r: Result<Vec<Rational>, ScaleError>)
    requires
        0 <= hi@.minus(lo@).n < MAGNITUDE_LIMIT,
        hi@.minus(lo@).d < MAGNITUDE_LIMIT,
        0 < td@.n <= 20 * MAGNITUDE_LIMIT,
        0 < td@.d <= 20 * MAGNITUDE_LIMIT,
    ensures
        holds_exactly(r, steps_between(lo@, hi@, td@)),
{
    proof {
        use_type_invariant(lo);
        use_type_invariant(hi);
    }
    let ghost all = steps_between(lo@, hi@, td@);
    let n: i128 = mul_i64(hi.numerator(), lo.denominator()) - mul_i64(
        lo.numerator(),
        hi.denominator(),
    );
    let dd: i128 = mul_i64(hi.denominator(), lo.denominator());
    let tn: i128 = td.numerator() as i128;
    let tdd: i128 = td.denominator() as i128;
    let lod: i128 = lo.denominator() as i128;
    assert(dd > 0 && lod <= dd) by (nonlinear_arith)
        requires
            dd == hi@.d * lo@.d,
            lod == lo@.d,
            hi@.d > 0,
            lo@.d > 0,
    ;
    assert(0 <= n * tdd <= MAGNITUDE_LIMIT * (20 * MAGNITUDE_LIMIT)) by (nonlinear_arith)
        requires
            0 <= n < MAGNITUDE_LIMIT,
            0 < tdd <= 20 * MAGNITUDE_LIMIT,
    ;
    assert(0 < dd * tn <= MAGNITUDE_LIMIT * (20 * MAGNITUDE_LIMIT)) by (nonlinear_arith)
        requires
            0 < dd < MAGNITUDE_LIMIT,
            0 < tn <= 20 * MAGNITUDE_LIMIT,
    ;
    let m: i128 = n * tdd;
    let last: i128 = floor_div_i128(m, dd * tn);
    assert(last == last_step(lo@, hi@, td@));
    let base: i128 = mul_i64(lo.numerator(), td.denominator());
    let den: i128 = mul_i64(lo.denominator(), td.denominator());
    assert(den > 0) by (nonlinear_arith)
        requires
            den == lo@.d * td@.d,
            lo@.d > 0,
            td@.d > 0,
    ;
    let mut v: Vec<Rational> = Vec::new();
    let mut i: i128 = 0;
    while i <= last
        invariant
            0 <= i <= last + 1,
            0 <= last <= m,
            0 <= m <= MAGNITUDE_LIMIT * (20 * MAGNITUDE_LIMIT),
            last * (dd * tn) <= m,
            last == last_step(lo@, hi@, td@),
            all == steps_between(lo@, hi@, td@),
            tn == td@.n,
            tn >= 1,
            lod == lo@.d,
            1 <= lod <= dd,
            base == lo@.n * td@.d,
            den == lo@.d * td@.d,
            den > 0,
            -0x4000_0000_0000_0000_0000_0000_0000_0000 <= base
                <= 0x4000_0000_0000_0000_0000_0000_0000_0000,
            v@.len() == i,
            forall|k: int| 0 <= k < v@.len() ==> Some(#[trigger] v@[k]) == Rational::narrow(all[k]),
        decreases last - i + 1,
    {
        assert(0 <= i * tn <= last * (dd * tn) && 0 <= (i * tn) * lod <= last * (dd * tn))
            by (nonlinear_arith)
            requires
                0 <= i <= last,
                tn >= 1,
                1 <= lod <= dd,
        ;
        let offset: i128 = (i * tn) * lod;
        let num: i128 = base + offset;
        assert(all[i as int] == step_at(lo@, td@, i as int));
        let next = Rational::from_wide(num, den);
        assert(next == Rational::narrow(all[i as int]));
        match next {
            Some(t) => {
                v.push(t);
            },
            None => {
                return Err(ScaleError::OutOfRange);
            },
        }
        i = i + 1;
    }
    Ok(v)
}

/// The ticks of the domain `[d0, d1]` for `count` ticks asked for.
pub fn distance_ticks(d0: &Rational, d1: &Rational, count: usize) -> (r: Result<
    Vec<Rational>,
    ScaleError,
>)
    ensures
        is_logarithmic_ticks(r, *d0, *d1, count as int),
{
    let mut ticks: Vec<Rational> = Vec::new();
    if d1.less_than(d0) {
        return Ok(ticks);
    }
    match tick_distance(d0, d1, count) {
        Ok(td) => {
            proof {
                use_type_invariant(d0);
                use_type_invariant(d1);
                let dd = d1@.minus(d0@).d;
                assert(dd > 0) by (nonlinear_arith)
                    requires
                        dd == d1@.d * d0@.d,
                        d1@.d > 0,
                        d0@.d > 0,
                ;
                assert(dd <= dd * count) by (nonlinear_arith)
                    requires
                        dd > 0,
                        count >= 1,
                ;
            }
            let r = steps(d0, d1, &td);
            proof {
                let f = choose|f: Fraction| #[trigger]
                    is_distance(f, d0@, d1@, count as int) && Some(td) == Rational::narrow(f);
                assert(is_distance(f, d0@, d1@, count as int) && Some(td) == Rational::narrow(f)
                    && holds_exactly(r, steps_between(d0@, d1@, td@)));
            }
            r
        },
        Err(ScaleError::EmptySpan) => {
            ticks.push(*d0);
            Ok(ticks)
        },
        Err(e) => Err(e),
    }
}

/// The scale to represent logarithmic data.
#[derive(Debug, Clone, PartialEq)]
pub struct ScaleLogarithmic {
    /// The domain limits of the dataset that the scale is going to represent.
    domain: Vec<Rational>,
    /// The range limits of the drawable area on the chart.
    range: Vec<isize>,
    /// The amount of ticks to display.
    tick_count: usize,
}

impl View for ScaleLogarithmic {
    type V = ContinuousView;

    closed spec fn view(&self) -> ContinuousView {
        ContinuousView { domain: self.domain@, range: self.range@, tick_count: self.tick_count }
    }
}

impl Default for ScaleLogarithmic {
    /// The domain from one to a thousand, the range from zero to one, ten
    /// ticks.
    fn default() -> (s: Self)
        ensures
            s@.domain.len() == 2,
            s@.domain[0]@ == Fraction::integer(1),
            s@.domain[1]@ == Fraction::integer(1000),
            s@.range == seq![0isize, 1isize],
            s@.tick_count == 10,
    {
        let mut domain: Vec<Rational> = Vec::new();
        domain.push(Rational::from_i32(1));
        domain.push(Rational::from_i32(1000));
        let mut range: Vec<isize> = Vec::new();
        range.push(0);
        range.push(1);
        ScaleLogarithmic { domain, range, tick_count: 10 }
    }
}

impl ScaleLogarithmic {
    /// Create a new logarithmic scale with default values.
    pub fn new() -> (s: Self)
        ensures
            s@.domain.len() == 2,
            s@.domain[0]@ == Fraction::integer(1),
            s@.domain[1]@ == Fraction::integer(1000),
            s@.range == seq![0isize, 1isize],
            s@.tick_count == 10,
    {
        ScaleLogarithmic::default()
    }

    /// Set the domain limits for the scale.
    pub fn set_domain(self, range: Vec<Rational>) -> (s: Self)
        ensures
            s@ == (ContinuousView { domain: range@, ..self@ }),
    {
        ScaleLogarithmic { domain: range, range: self.range, tick_count: self.tick_count }
    }

    /// Get the domain limits of the scale.
    pub fn domain(&self) -> (d: &Vec<Rational>)
        ensures
            d@ == self@.domain,
    {
        &self.domain
    }

    /// Set the range limits for the scale.
    pub fn set_range(self, range: Vec<isize>) -> (s: Self)
        ensures
            s@ == (ContinuousView { range: range@, ..self@ }),
    {
        ScaleLogarithmic { domain: self.domain, range, tick_count: self.tick_count }
    }

    /// Get the range limits of the scale.
    pub fn range(&self) -> (r: &Vec<isize>)
        ensures
            r@ == self@.range,
    {
        &self.range
    }

    /// Set the amount of ticks to aim for.
    pub fn set_tick_count(self, tick_count: usize) -> (s: Self)
        ensures
            s@ == (ContinuousView { tick_count, ..self@ }),
    {
        ScaleLogarithmic { domain: self.domain, range: self.range, tick_count }
    }

    /// Get the amount of ticks to aim for.
    pub fn tick_count(&self) -> (c: usize)
        ensures
            c == self@.tick_count,
    {
        self.tick_count
    }

    /// Takes a value x in [a, b] and returns the corresponding value in [0, 1].
    pub fn normalize(&self, domain_min: &Rational, domain_max: &Rational, x: &Rational) -> (r:
        Option<Rational>)
        ensures
            r == normalized(*domain_min, *domain_max, *x),
    {
        normalize(domain_min, domain_max, x)
    }

    /// Takes a value x in [0, 1] and returns the corresponding value in [a, b].
    pub fn denormalize(&self, a: &Rational, b: &Rational, x: &Rational) -> (r: Option<Rational>)
        ensures
            r == denormalized(*a, *b, *x),
    {
        denormalize(a, b, x)
    }

    /// Takes a value t in [0, 1] and returns the corresponding range in [a, b].
    pub fn interpolate(&self, a: &Rational, b: &Rational, t: &Rational) -> (r: Option<Rational>)
        ensures
            r == interpolated(*a, *b, *t),
    {
        interpolate(a, b, t)
    }

    /// Compute the distance between the ticks.
    pub fn compute_tick_distance(&self) -> (r: Result<Rational, ScaleError>)
        requires
            self@.defined(),
        ensures
            is_tick_distance(r, self@.domain[0]@, self@.domain[1]@, self@.tick_count as int),
    {
        tick_distance(&self.domain[0], &self.domain[1], self.tick_count)
    }
}

impl Scale<Rational> for ScaleLogarithmic {
    open spec fn defined(&self) -> bool {
        self@.defined()
    }

    /// Get the type of the scale.
    fn get_type(&self) -> (k: ScaleKind)
        ensures
            k == ScaleKind::Logarithmic,
    {
        ScaleKind::Logarithmic
    }

    /// Get the domain of the scale.
    fn get_domain(&self) -> (d: Vec<Rational>)
        ensures
            d@ == self@.domain,
    {
        copy_values(&self.domain)
    }

    /// Get the domain max of the scale.
    fn domain_max(&self) -> (m: Option<Rational>)
        ensures
            m == Some(self@.domain[1]),
    {
        Some(self.domain[1])
    }

    /// Get the range value for the given domain entry.
    fn scale(&self, x: &Rational) -> (r: Result<Rational, ScaleError>)
        ensures
            r == match scaled(
                self@.domain[0],
                self@.domain[1],
                self@.range[0],
                self@.range[1],
                *x,
            ) {
                Some(v) => Ok::<Rational, ScaleError>(v),
                None => Err::<Rational, ScaleError>(ScaleError::OutOfRange),
            },
    {
        scale_value(&self.domain[0], &self.domain[1], self.range[0], self.range[1], x)
    }

    /// Get the bandwidth (if present).
    fn bandwidth(&self) -> (b: Option<Rational>)
        ensures
            b matches Some(w) && w@ == Fraction::integer(0),
    {
        Some(Rational::zero())
    }

    /// Get the start range value.
    fn range_start(&self) -> (r: isize)
        ensures
            r == self@.range[0],
    {
        self.range[0]
    }

    /// Get the end range value.
    fn range_end(&self) -> (r: isize)
        ensures
            r == self@.range[1],
    {
        self.range[1]
    }

    /// Tell whether the range runs from a larger start to a smaller end.
    fn is_range_reversed(&self) -> (b: bool)
        ensures
            b == (self@.range[0] > self@.range[1]),
    {
        self.range[0] > self.range[1]
    }

    /// Get the ticks for the scale.
    fn get_ticks(&self) -> (r: Result<Vec<Rational>, ScaleError>)
        ensures
            is_logarithmic_ticks(r, self@.domain[0], self@.domain[1], self@.tick_count as int),
    {
        distance_ticks(&self.domain[0], &self.domain[1], self.tick_count)
    }
}

} // verus!
