//! Nice tick steps: a spacing of one, two, five or ten times a power of ten,
//! and the multiples of such a spacing that lie inside an interval.
//!
//! A step is carried as an integer increment: a positive increment is the
//! step itself, a negative one is the negated reciprocal of a step below one.
//! Either way the ticks are exact.

use crate::arith::{ceil_div, ceil_div_i128, floor_div, floor_div_i128, mul_i64, pow10};
use crate::rational::{Fraction, Rational};
use crate::scales::ScaleError;
use vstd::math::abs;
use vstd::prelude::*;

verus! {

/// What the numerator and the denominator of a raw step must stay below for
/// the step search to run in 128 bits: ten to the seventeenth.
pub const MAGNITUDE_LIMIT: i128 = 100_000_000_000_000_000;

/// `10^p <= s < 10^(p + 1)`.
pub open spec fn in_decade(s: Fraction, p: int) -> bool {
    if p >= 0 {
        s.d * pow10(p as nat) <= s.n < s.d * pow10((p + 1) as nat)
    } else {
        s.d <= s.n * pow10((-p) as nat) < 10 * s.d
    }
}

/// `s / 10^p`.
pub open spec fn mantissa(s: Fraction, p: int) -> Fraction {
    if p >= 0 {
        Fraction { n: s.n, d: s.d * pow10(p as nat) }
    } else {
        Fraction { n: s.n * pow10((-p) as nat), d: s.d }
    }
}

/// The multiplier that a mantissa in `[1, 10)` snaps to: ten from the square
/// root of fifty on, five from the square root of ten on, two from the square
/// root of two on, else one.
pub open spec fn multiplier(e: Fraction) -> int {
    if e.n * e.n >= 50 * (e.d * e.d) {
        10
    } else if e.n * e.n >= 10 * (e.d * e.d) {
        5
    } else if e.n * e.n >= 2 * (e.d * e.d) {
        2
    } else {
        1
    }
}

/// `m` is one, two, five or ten.
pub open spec fn is_multiplier(m: int) -> bool {
    m == 1 || m == 2 || m == 5 || m == 10
}

/// The increment that stands for the step `m * 10^p`.
pub open spec fn increment(p: int, m: int) -> int {
    if p >= 0 {
        m * pow10(p as nat)
    } else {
        -(pow10((-p) as nat) / m)
    }
}

/// `inc` is the increment of the nice step nearest to the raw step `s`.
pub open spec fn is_increment(s: Fraction, inc: int) -> bool {
    exists|p: int| #[trigger] in_decade(s, p) && inc == increment(p, multiplier(mantissa(s, p)))
}

/// `inc` stands for one, two, five or ten times a power of ten.
pub open spec fn is_nice(inc: int) -> bool {
    exists|p: int, m: int| is_multiplier(m) && inc == #[trigger] increment(p, m)
}

/// The step that an increment stands for.
pub open spec fn step_of(inc: int) -> Fraction {
    if inc > 0 {
        Fraction { n: inc, d: 1 }
    } else {
        Fraction { n: 1, d: -inc }
    }
}

/// Index of the first multiple of the step that is not below `lo`.
pub open spec fn first_index(lo: Fraction, inc: int) -> int {
    if inc > 0 {
        ceil_div(lo.n, lo.d * inc)
    } else {
        ceil_div(lo.n * (-inc), lo.d)
    }
}

/// Index of the last multiple of the step that is not above `hi`.
pub open spec fn last_index(hi: Fraction, inc: int) -> int {
    if inc > 0 {
        floor_div(hi.n, hi.d * inc)
    } else {
        floor_div(hi.n * (-inc), hi.d)
    }
}

/// The `k`-th multiple of the step.
pub open spec fn tick_at(k: int, inc: int) -> Fraction {
    if inc > 0 {
        Fraction { n: k * inc, d: 1 }
    } else {
        Fraction { n: k, d: -inc }
    }
}

/// Every multiple of the step from the first not below `lo` to the last not
/// above `hi`, ascending.
pub open spec fn multiples_between(lo: Fraction, hi: Fraction, inc: int) -> Seq<Fraction> {
    let k0 = first_index(lo, inc);
    let k1 = last_index(hi, inc);
    if k1 < k0 {
        Seq::empty()
    } else {
        Seq::new((k1 - k0 + 1) as nat, |i: int| tick_at(k0 + i, inc))
    }
}

/// `r` holds each of the exact values in lowest terms, in order; or it is
/// the error `OutOfRange`, and one of the values has no 64-bit representation.
pub open spec fn holds_exactly(r: Result<Vec<Rational>, ScaleError>, exact: Seq<Fraction>) -> bool {
    match r {
        Ok(v) => {
            &&& v@.len() == exact.len()
            &&& forall|i: int|
                0 <= i < v@.len() ==> Some(#[trigger] v@[i]) == Rational::narrow(exact[i])
        },
        Err(e) => {
            &&& e == ScaleError::OutOfRange
            &&& exists|i: int| 0 <= i < exact.len() && Rational::narrow(#[trigger] exact[i]) is None
        },
    }
}

/// The multiplier that the mantissa `x / y` snaps to.
fn snap(x: i128, y: i128) -> (m: i128)
    requires
        0 < y <= x,
        x < 10 * MAGNITUDE_LIMIT,
    ensures
        m == multiplier(Fraction { n: x as int, d: y as int }),
        is_multiplier(m as int),
{
    assert(0 < x * x < 1_000_000_000_000_000_000_000_000_000_000_000_000 && 0 < y * y <= x * x)
        by (nonlinear_arith)
        requires
            0 < y <= x,
            x < 1_000_000_000_000_000_000,
    ;
    let xx: i128 = x * x;
    let yy: i128 = y * y;
    if xx / 50 >= yy {
        10
    } else if xx / 10 >= yy {
        5
    } else if xx / 2 >= yy {
        2
    } else {
        1
    }
}

/// The decade of the raw step `n / d`: whether it is one or more, the power
/// of ten `10^|p|`, and the raw step scaled into `[1, 10)` as a numerator over
/// the denominator handed back with it.
pub(crate) struct Decade {
    /// The raw step is at least one, so the exponent is not negative.
    pub up: bool,
    /// Ten to the absolute value of the exponent.
    pub power: i128,
    /// Numerator of the mantissa.
    pub numerator: i128,
    /// Denominator of the mantissa.
    pub denominator: i128,
    /// The exponent.
    pub exponent: Ghost<int>,
}

impl Decade {
    /// The decade belongs to the raw step `s`.
    pub(crate) open spec fn of(self, s: Fraction) -> bool {
        &&& in_decade(s, self.exponent@)
        &&& self.up == (self.exponent@ >= 0)
        &&& self.power == pow10(abs(self.exponent@))
        &&& mantissa(s, self.exponent@) == (Fraction {
            n: self.numerator as int,
            d: self.denominator as int,
        })
        &&& 0 < self.denominator <= self.numerator < 10 * self.denominator
        &&& self.numerator < 10 * MAGNITUDE_LIMIT
        &&& 1 <= self.power <= self.numerator
        &&& self.up ==> self.denominator == s.d * self.power && self.numerator == s.n
        &&& !self.up ==> self.numerator == s.n * self.power && self.denominator == s.d
            && self.power >= 10
    }
}

/// Finds the decade of the raw step `n / d`.
pub(crate) fn find_decade(n: i128, d: i128) -> (r: Decade)
    requires
        0 < n < MAGNITUDE_LIMIT,
        0 < d < MAGNITUDE_LIMIT,
    ensures
        r.of(Fraction { n: n as int, d: d as int }),
{
    if n >= d {
        let mut q: i128 = d;
        let mut w: i128 = 1;
        let ghost mut p: nat = 0;
        while q * 10 <= n
            invariant
                0 < d <= q <= n < MAGNITUDE_LIMIT,
                q == d * w,
                w == pow10(p),
                1 <= w <= q,
            decreases n - q,
        {
            assert(d * (w * 10) == (d * w) * 10) by (nonlinear_arith);
            q = q * 10;
            w = w * 10;
            proof {
                p = p + 1;
            }
        }
        proof {
            assert(d * (10 * w) == 10 * (d * w)) by (nonlinear_arith);
            assert(pow10((p + 1) as nat) == 10 * pow10(p));
        }
        Decade { up: true, power: w, numerator: n, denominator: q, exponent: Ghost(p as int) }
    } else {
        let mut u: i128 = n;
        let mut w: i128 = 1;
        let ghost mut j: nat = 0;
        while u < d
            invariant
                0 < n < d < MAGNITUDE_LIMIT,
                u == n * w,
                w == pow10(j),
                1 <= w <= u < 10 * d,
                j == 0 ==> u == n,
            decreases 10 * d - u,
        {
            assert(n * (w * 10) == (n * w) * 10) by (nonlinear_arith);
            assert(w * 10 <= u * 10) by (nonlinear_arith)
                requires
                    w <= u,
            ;
            u = u * 10;
            w = w * 10;
            proof {
                j = j + 1;
            }
        }
        proof {
            assert(j >= 1);
            assert(pow10(j) == 10 * pow10((j - 1) as nat));
            crate::arith::lemma_pow10_positive((j - 1) as nat);
        }
        Decade { up: false, power: w, numerator: u, denominator: d, exponent: Ghost(-(j as int)) }
    }
}

/// The increment of the nice step nearest to the raw step `n / d`.
pub fn nice_increment(n: i128, d: i128) -> (inc: i64)
    requires
        0 < n < MAGNITUDE_LIMIT,
        0 < d < MAGNITUDE_LIMIT,
    ensures
        is_increment(Fraction { n: n as int, d: d as int }, inc as int),
        is_nice(inc as int),
        inc != 0,
        -10 * MAGNITUDE_LIMIT <= inc <= 10 * MAGNITUDE_LIMIT,
{
    let decade = find_decade(n, d);
    let m: i128 = snap(decade.numerator, decade.denominator);
    let ghost p = decade.exponent@;
    if decade.up {
        assert(0 < m * decade.power <= 10 * decade.power) by (nonlinear_arith)
            requires
                1 <= m <= 10,
                decade.power >= 1,
        ;
        assert(m * decade.power == increment(p, m as int));
        (m * decade.power) as i64
    } else {
        let r: i128 = decade.power / m;
        assert(-r == increment(p, m as int));
        (-r) as i64
    }
}

/// The multiples of the step that `inc` stands for, from the first not
/// below `lo` to the last not above `hi`, each in lowest terms.
///
/// Fails exactly when one of those multiples has no 64-bit representation.
pub fn ticks_between(lo: &Rational, hi: &Rational, inc: i64) -> (r: Result<
    Vec<Rational>,
    ScaleError,
>)
    requires
        inc != 0,
        inc > i64::MIN,
    ensures
        holds_exactly(r, multiples_between(lo@, hi@, inc as int)),
{
    let ghost all = multiples_between(lo@, hi@, inc as int);
    let k0: i128;
    let k1: i128;
    if inc > 0 {
        let d_lo: i128 = mul_i64(lo.denominator(), inc);
        let d_hi: i128 = mul_i64(hi.denominator(), inc);
        assert(d_lo > 0 && d_hi > 0) by (nonlinear_arith)
            requires
                d_lo == lo@.d * inc,
                d_hi == hi@.d * inc,
                lo@.d > 0,
                hi@.d > 0,
                inc > 0,
        ;
        k0 = ceil_div_i128(lo.numerator() as i128, d_lo);
        k1 = floor_div_i128(hi.numerator() as i128, d_hi);
    } else {
        let r: i64 = -inc;
        k0 = ceil_div_i128(mul_i64(lo.numerator(), r), lo.denominator() as i128);
        k1 = floor_div_i128(mul_i64(hi.numerator(), r), hi.denominator() as i128);
    }
    assert(k0 == first_index(lo@, inc as int));
    assert(k1 == last_index(hi@, inc as int));
    let mut v: Vec<Rational> = Vec::new();
    let mut k: i128 = k0;
    while k <= k1
        invariant
            inc != 0,
            inc > i64::MIN,
            k0 == first_index(lo@, inc as int),
            k1 == last_index(hi@, inc as int),
            all == multiples_between(lo@, hi@, inc as int),
            -0x4000_0000_0000_0000_0000_0000_0000_0000 <= k0,
            k1 <= 0x4000_0000_0000_0000_0000_0000_0000_0000,
            k0 <= k <= k1 + 1 || (k1 < k0 && k == k0),
            v@.len() == k - k0,
            forall|i: int| 0 <= i < v@.len() ==> Some(#[trigger] v@[i]) == Rational::narrow(all[i]),
        decreases k1 - k + 1,
    {
        let ghost i = k - k0;
        assert(all[i] == tick_at(k as int, inc as int));
        let next: Option<Rational> = if inc > 0 {
            match k.checked_mul(inc as i128) {
                Some(t) => {
                    if t == i128::MIN {
                        None
                    } else {
                        Rational::from_wide(t, 1)
                    }
                },
                None => None,
            }
        } else {
            Rational::from_wide(k, (-inc) as i128)
        };
        proof {
            if inc > 0 {
                Rational::lemma_narrow_integer(k * inc);
            }
        }
        assert(next == Rational::narrow(all[i]));
        match next {
            Some(t) => {
                v.push(t);
            },
            None => {
                return Err(ScaleError::OutOfRange);
            },
        }
        k = k + 1;
    }
    Ok(v)
}

} // verus!
