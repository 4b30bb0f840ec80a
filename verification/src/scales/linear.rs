//! The scale for linear data.

use crate::arith::mul_i64;
use crate::rational::{Fraction, Rational};
use crate::scales::mapping::{
    degenerate, interpolate, interpolated, is_degenerate, normalize, normalized,
};
use crate::scales::ticks::{
    holds_exactly, is_increment, is_nice, multiples_between, nice_increment, ticks_between,
    MAGNITUDE_LIMIT,
};
use crate::scales::{ContinuousView, Scale, ScaleError, ScaleKind};
use vstd::prelude::*;

verus! {

/// The machine value of a pixel coordinate.
pub open spec fn pixel(r: isize) -> Option<Rational> {
    Rational::narrow(Fraction::integer(r as int))
}

/// The pixel that `x` maps to: `x` normalized against the domain `[d0, d1]`,
/// then interpolated into the range `[r0, r1]`.
pub open spec fn scaled(d0: Rational, d1: Rational, r0: isize, r1: isize, x: Rational) -> Option<
    Rational,
> {
    match (normalized(d0, d1, x), pixel(r0), pixel(r1)) {
        (Some(t), Some(a), Some(b)) => interpolated(a, b, t),
        _ => None,
    }
}

/// The raw step: the span from `start` to `stop` divided by the tick count.
pub open spec fn raw_step(start: Fraction, stop: Fraction, count: int) -> Fraction {
    Fraction { n: stop.minus(start).n, d: stop.minus(start).d * count }
}

/// A step exists: ticks are asked for and the interval is not empty.
pub open spec fn has_step(start: Fraction, stop: Fraction, count: int) -> bool {
    count > 0 && start.lt(stop)
}

/// The raw step is within the magnitude that the step search accepts.
pub open spec fn step_supported(start: Fraction, stop: Fraction, count: int) -> bool {
    raw_step(start, stop, count).n < MAGNITUDE_LIMIT && raw_step(start, stop, count).d
        < MAGNITUDE_LIMIT
}

/// What `tick_step` answers for the interval and the tick count.
pub open spec fn is_tick_step(
    r: Result<i64, ScaleError>,
    start: Fraction,
    stop: Fraction,
    count: int,
) -> bool {
    match r {
        Ok(inc) => {
            &&& has_step(start, stop, count)
            &&& step_supported(start, stop, count)
            &&& is_increment(raw_step(start, stop, count), inc as int)
            &&& is_nice(inc as int)
            &&& inc != 0
            &&& inc > i64::MIN
        },
        Err(e) => if has_step(start, stop, count) {
            e == ScaleError::OutOfRange && !step_supported(start, stop, count)
        } else {
            e == ScaleError::EmptySpan
        },
    }
}

/// What `get_ticks` answers for the domain `[d0, d1]` and the tick count.
pub open spec fn is_linear_ticks(
    r: Result<Vec<Rational>, ScaleError>,
    d0: Rational,
    d1: Rational,
    count: int,
) -> bool {
    if degenerate(d0@, d1@) && count > 0 {
        r matches Ok(v) && v@ == seq![d0]
    } else if !has_step(d0@, d1@, count) {
        r matches Ok(v) && v@.len() == 0
    } else if !step_supported(d0@, d1@, count) {
        r == Err::<Vec<Rational>, ScaleError>(ScaleError::OutOfRange)
    } else {
        exists|inc: int|
            #[trigger] is_increment(raw_step(d0@, d1@, count), inc) && holds_exactly(
                r,
                multiples_between(d0@, d1@, inc),
            )
    }
}

/// The nice increment for the interval from `start` to `stop` and `count` ticks.
pub fn tick_increment(start: &Rational, stop: &Rational, count: usize) -> (r: Result<
    i64,
    ScaleError,
>)
    ensures
        is_tick_step(r, start@, stop@, count as int),
{
    proof {
        use_type_invariant(start);
        use_type_invariant(stop);
    }
    if count == 0 || !start.less_than(stop) {
        return Err(ScaleError::EmptySpan);
    }
    let n: i128 = mul_i64(stop.numerator(), start.denominator()) - mul_i64(
        start.numerator(),
        stop.denominator(),
    );
    let d0: i128 = mul_i64(stop.denominator(), start.denominator());
    let ghost raw = raw_step(start@, stop@, count as int);
    assert(d0 > 0) by (nonlinear_arith)
        requires
            d0 == stop@.d * start@.d,
            stop@.d > 0,
            start@.d > 0,
    ;
    if n >= MAGNITUDE_LIMIT || d0 >= MAGNITUDE_LIMIT || count as u128 >= MAGNITUDE_LIMIT as u128 {
        assert(raw.d >= MAGNITUDE_LIMIT || raw.n >= MAGNITUDE_LIMIT) by (nonlinear_arith)
            requires
                raw.d == d0 * count,
                raw.n == n,
                d0 >= 1,
                count >= 1,
                n >= MAGNITUDE_LIMIT || d0 >= MAGNITUDE_LIMIT || count >= MAGNITUDE_LIMIT,
        ;
        return Err(ScaleError::OutOfRange);
    }
    assert(0 <= d0 * count <= MAGNITUDE_LIMIT * MAGNITUDE_LIMIT) by (nonlinear_arith)
        requires
            0 < d0 < MAGNITUDE_LIMIT,
            0 < count < MAGNITUDE_LIMIT,
    ;
    let d: i128 = d0 * (count as i128);
    if d >= MAGNITUDE_LIMIT {
        return Err(ScaleError::OutOfRange);
    }
    assert(d > 0) by (nonlinear_arith)
        requires
            d == d0 * count,
            d0 > 0,
            count > 0,
    ;
    Ok(nice_increment(n, d))
}

/// The nice ticks of the domain `[d0, d1]` for `count` ticks asked for.
pub fn nice_ticks(d0: &Rational, d1: &Rational, count: usize) -> (r: Result<
    Vec<Rational>,
    ScaleError,
>)
    ensures
        is_linear_ticks(r, *d0, *d1, count as int),
{
    let mut ticks: Vec<Rational> = Vec::new();
    if is_degenerate(d0, d1) && count > 0 {
        ticks.push(*d0);
        return Ok(ticks);
    }
    match tick_increment(d0, d1, count) {
        Ok(inc) => ticks_between(d0, d1, inc),
        Err(ScaleError::EmptySpan) => Ok(ticks),
        Err(e) => Err(e),
    }
}

/// A copy of the values.
pub fn copy_values(values: &Vec<Rational>) -> (r: Vec<Rational>)
    ensures
        r@ == values@,
{
    let mut r: Vec<Rational> = Vec::new();
    let mut i: usize = 0;
    while i < values.len()
        invariant
            i <= values.len(),
            r@ == values@.subrange(0, i as int),
        decreases values.len() - i,
    {
        r.push(values[i]);
        assert(values@.subrange(0, i as int).push(values@[i as int]) == values@.subrange(
            0,
            i + 1,
        ));
        i = i + 1;
    }
    assert(values@.subrange(0, values@.len() as int) == values@);
    r
}

/// The scale to represent linear data.
#[derive(Debug, PartialEq)]
pub struct ScaleLinear {
    /// The domain limits of the dataset that the scale is going to represent.
    domain: Vec<Rational>,
    /// The range limits of the drawable area on the chart.
    range: Vec<isize>,
    /// The amount of ticks to display.
    tick_count: usize,
}

impl View for ScaleLinear {
    type V = ContinuousView;

    closed spec fn view(&self) -> ContinuousView {
        ContinuousView { domain: self.domain@, range: self.range@, tick_count: self.tick_count }
    }
}

impl Default for ScaleLinear {
    /// No domain yet, the range from zero to one, ten ticks.
    fn default() -> (s: Self)
        ensures
            s@.domain == Seq::<Rational>::empty(),
            s@.range == seq![0isize, 1isize],
            s@.tick_count == 10,
    {
        let mut range: Vec<isize> = Vec::new();
        range.push(0);
        range.push(1);
        ScaleLinear { domain: Vec::new(), range, tick_count: 10 }
    }
}

impl ScaleLinear {
    /// Create a new linear scale with default values.
    pub fn new() -> (s: Self)
        ensures
            s@.domain == Seq::<Rational>::empty(),
            s@.range == seq![0isize, 1isize],
            s@.tick_count == 10,
    {
        ScaleLinear::default()
    }

    /// Set the domain limits for the scale.
    pub fn set_domain(self, range: Vec<Rational>) -> (s: Self)
        ensures
            s@ == (ContinuousView { domain: range@, ..self@ }),
    {
        ScaleLinear { domain: range, range: self.range, tick_count: self.tick_count }
    }

    /// Get the domain limits of the scale.
    pub fn domain(&self) -> (d: &Vec<Rational>)
        ensures
            d@ == self@.domain,
    {
        &self.domain
    }

    /// Set the range limits for the scale.
    pub fn set_range(self, range: Vec<isize>) -> (s: Self)
        ensures
            s@ == (ContinuousView { range: range@, ..self@ }),
    {
        ScaleLinear { domain: self.domain, range, tick_count: self.tick_count }
    }

    /// Get the range limits of the scale.
    pub fn range(&self) -> (r: &Vec<isize>)
        ensures
            r@ == self@.range,
    {
        &self.range
    }

    /// Set the amount of ticks to aim for.
    pub fn set_tick_count(self, tick_count: usize) -> (s: Self)
        ensures
            s@ == (ContinuousView { tick_count, ..self@ }),
    {
        ScaleLinear { domain: self.domain, range: self.range, tick_count }
    }

    /// Get the amount of ticks to aim for.
    pub fn tick_count(&self) -> (c: usize)
        ensures
            c == self@.tick_count,
    {
        self.tick_count
    }

    /// Takes a value x in [a, b] and returns the corresponding value in [0, 1].
    pub fn normalize(&self, a: &Rational, b: &Rational, x: &Rational) -> (r: Option<Rational>)
        ensures
            r == normalized(*a, *b, *x),
    {
        normalize(a, b, x)
    }

    /// Takes a value t in [0, 1] and returns the corresponding range in [a, b].
    pub fn interpolate(&self, a: &Rational, b: &Rational, t: &Rational) -> (r: Option<Rational>)
        ensures
            r == interpolated(*a, *b, *t),
    {
        interpolate(a, b, t)
    }

    /// Compute the distance between the ticks, as an increment: positive for a
    /// step of one or more, negative for the reciprocal of a step below one.
    pub fn tick_step(&self, start: &Rational, stop: &Rational) -> (r: Result<i64, ScaleError>)
        ensures
            is_tick_step(r, start@, stop@, self@.tick_count as int),
    {
        tick_increment(start, stop, self.tick_count)
    }
}

/// The pixel that `x` maps to on a continuous scale.
pub fn scale_value(d0: &Rational, d1: &Rational, r0: isize, r1: isize, x: &Rational) -> (r: Result<
    Rational,
    ScaleError,
>)
    ensures
        r == match scaled(*d0, *d1, r0, r1, *x) {
            Some(v) => Ok::<Rational, ScaleError>(v),
            None => Err::<Rational, ScaleError>(ScaleError::OutOfRange),
        },
{
    let t = normalize(d0, d1, x);
    let a = Rational::from_integer(r0 as i64);
    let b = Rational::from_integer(r1 as i64);
    match (t, a, b) {
        (Some(t), Some(a), Some(b)) => match interpolate(&a, &b, &t) {
            Some(v) => Ok(v),
            None => Err(ScaleError::OutOfRange),
        },
        _ => Err(ScaleError::OutOfRange),
    }
}

impl Scale<Rational> for ScaleLinear {
    open spec fn defined(&self) -> bool {
        self@.defined()
    }

    /// Get the type of the scale.
    fn get_type(&self) -> (k: ScaleKind)
        ensures
            k == ScaleKind::Linear,
    {
        ScaleKind::Linear
    }

    /// Get the domain of the scale.
    fn get_domain(&self) -> (d: Vec<Rational>)
        ensures
            d@ == self@.domain,
    {
        copy_values(&self.domain)
    }

    /// Get the domain max of the scale.
    fn domain_max(&self) -> (m: Option<Rational>)
        ensures
            m == Some(self@.domain[1]),
    {
        Some(self.domain[1])
    }

    /// Get the range value for the given domain entry.
    fn scale(&self, domain: &Rational) -> (r: Result<Rational, ScaleError>)
        ensures
            r == match scaled(
                self@.domain[0],
                self@.domain[1],
                self@.range[0],
                self@.range[1],
                *domain,
            ) {
                Some(v) => Ok::<Rational, ScaleError>(v),
                None => Err::<Rational, ScaleError>(ScaleError::OutOfRange),
            },
    {
        scale_value(&self.domain[0], &self.domain[1], self.range[0], self.range[1], domain)
    }

    /// Get the bandwidth (if present).
    fn bandwidth(&self) -> (b: Option<Rational>)
        ensures
            b matches Some(w) && w@ == Fraction::integer(0),
    {
        Some(Rational::zero())
    }

    /// Get the start range value.
    fn range_start(&self) -> (r: isize)
        ensures
            r == self@.range[0],
    {
        self.range[0]
    }

    /// Get the end range value.
    fn range_end(&self) -> (r: isize)
        ensures
            r == self@.range[1],
    {
        self.range[1]
    }

    /// Tell whether the range runs from a larger start to a smaller end.
    fn is_range_reversed(&self) -> (b: bool)
        ensures
            b == (self@.range[0] > self@.range[1]),
    {
        self.range[0] > self.range[1]
    }

    /// Get the list of ticks that represent the scale on a chart axis.
    fn get_ticks(&self) -> (r: Result<Vec<Rational>, ScaleError>)
        ensures
            is_linear_ticks(r, self@.domain[0], self@.domain[1], self@.tick_count as int),
    {
        nice_ticks(&self.domain[0], &self.domain[1], self.tick_count)
    }
}

} // verus!
