//! Exact rational numbers.
//!
//! [`Fraction`] is the mathematical model: a pair of unbounded integers.
//! [`Rational`] is the machine value: a fraction in lowest terms whose
//! numerator and denominator fit in 64 bits. Every operation on `Rational`
//! computes the exact result and reports `None` when that result has no
//! 64-bit representation.

use crate::arith::{
    ceil_div, ceil_div_i128, floor_div, floor_div_i128, gcd, gcd_u128, lemma_gcd_divides,
    lemma_gcd_greatest, lemma_gcd_scales, lemma_pow10_increases, lemma_pow10_positive, mul_i64,
    pow10,
};
use crate::text::{digits, fraction_digits, push_digits};
use vstd::arithmetic::div_mod::{lemma_fundamental_div_mod, lemma_mod_multiples_basic};
use vstd::math::abs;
use vstd::prelude::*;

verus! {

/// A fraction `n / d` of mathematical integers.
pub ghost struct Fraction {
    pub n: int,
    pub d: int,
}

impl Fraction {
    /// The denominator is positive.
    pub open spec fn valid(self) -> bool {
        self.d > 0
    }

    /// The integer `i` as a fraction.
    pub open spec fn integer(i: int) -> Fraction {
        Fraction { n: i, d: 1 }
    }

    /// Both fractions denote the same number.
    pub open spec fn eqv(self, other: Fraction) -> bool {
        self.n * other.d == other.n * self.d
    }

    /// The fraction is less than `other`; both are valid.
    pub open spec fn lt(self, other: Fraction) -> bool {
        self.n * other.d < other.n * self.d
    }

    /// The fraction is at most `other`; both are valid.
    pub open spec fn le(self, other: Fraction) -> bool {
        self.n * other.d <= other.n * self.d
    }

    /// The sum, over the product of the denominators.
    pub open spec fn plus(self, other: Fraction) -> Fraction {
        Fraction { n: self.n * other.d + other.n * self.d, d: self.d * other.d }
    }

    /// The difference, over the product of the denominators.
    pub open spec fn minus(self, other: Fraction) -> Fraction {
        Fraction { n: self.n * other.d - other.n * self.d, d: self.d * other.d }
    }

    /// The product.
    pub open spec fn times(self, other: Fraction) -> Fraction {
        Fraction { n: self.n * other.n, d: self.d * other.d }
    }

    /// The quotient, with the sign carried by the numerator. Meaningful when
    /// `other` is not zero.
    pub open spec fn over(self, other: Fraction) -> Fraction {
        if other.n >= 0 {
            Fraction { n: self.n * other.d, d: self.d * other.n }
        } else {
            Fraction { n: -(self.n * other.d), d: self.d * (-other.n) }
        }
    }

    /// The largest integer not above the fraction.
    pub open spec fn floor(self) -> int {
        floor_div(self.n, self.d)
    }

    /// The smallest integer not below the fraction.
    pub open spec fn ceil(self) -> int {
        ceil_div(self.n, self.d)
    }

    /// Numerator and denominator divided by their greatest common divisor.
    pub open spec fn reduced(self) -> Fraction {
        let g = gcd(abs(self.n), self.d as nat) as int;
        if self.n >= 0 {
            Fraction { n: self.n / g, d: self.d / g }
        } else {
            Fraction { n: -((-self.n) / g), d: self.d / g }
        }
    }

    /// The magnitude times `10^places`, rounded to the nearest integer, a
    /// half rounded up.
    pub open spec fn scaled_magnitude(self, places: nat) -> nat {
        ((2 * abs(self.n) * pow10(places) + self.d) / (2 * self.d)) as nat
    }

    /// The decimal text with at most `places` digits after the point: the
    /// value rounded to that many places, without trailing zeros, without a
    /// point where no digit follows it, and with a minus sign where the
    /// rounded value is below zero.
    pub open spec fn decimal_text(self, places: nat) -> Seq<char> {
        let m = self.scaled_magnitude(places);
        let unit = pow10(places) as nat;
        let sign = if self.n < 0 && m > 0 {
            seq!['-']
        } else {
            Seq::empty()
        };
        if m % unit == 0 {
            sign + digits(m / unit)
        } else {
            sign + digits(m / unit) + seq!['.'] + fraction_digits(m % unit, places)
        }
    }

    /// The fraction is in lowest terms: numerator and denominator have no
    /// common divisor but one.
    pub open spec fn lowest(self) -> bool {
        gcd(abs(self.n), self.d as nat) == 1
    }

    /// Numerator and denominator fit the machine representation.
    pub open spec fn fits(self) -> bool {
        &&& -0x7fff_ffff_ffff_ffff <= self.n <= 0x7fff_ffff_ffff_ffff
        &&& 0 < self.d <= 0x7fff_ffff_ffff_ffff
    }
}

/// Reducing a fraction keeps its value and its validity.
pub proof fn lemma_reduced_eqv(f: Fraction)
    requires
        f.valid(),
    ensures
        f.reduced().valid(),
        f.reduced().eqv(f),
        abs(f.reduced().n) <= abs(f.n),
        f.reduced().d <= f.d,
{
    let a = abs(f.n);
    let g = gcd(a, f.d as nat) as int;
    lemma_gcd_divides(a, f.d as nat);
    lemma_fundamental_div_mod(a as int, g);
    lemma_fundamental_div_mod(f.d, g);
    let an = a as int / g;
    let dn = f.d / g;
    assert(a == g * an);
    assert(f.d == g * dn);
    assert(dn > 0) by (nonlinear_arith)
        requires
            f.d == g * dn,
            f.d > 0,
            g > 0,
    ;
    assert(an >= 0 && an <= a) by (nonlinear_arith)
        requires
            a == g * an,
            a >= 0,
            g > 0,
    ;
    assert(dn <= f.d) by (nonlinear_arith)
        requires
            f.d == g * dn,
            dn > 0,
            g > 0,
    ;
    assert(an * f.d == a * dn) by (nonlinear_arith)
        requires
            a == g * an,
            f.d == g * dn,
    ;
    if f.n < 0 {
        assert((-an) * f.d == f.n * dn) by (nonlinear_arith)
            requires
                an * f.d == a * dn,
                a == -f.n,
        ;
    }
}

/// A reduced fraction is in lowest terms: its numerator and denominator
/// have no common divisor but one.
pub proof fn lemma_reduced_lowest(f: Fraction)
    requires
        f.valid(),
    ensures
        f.reduced().lowest(),
{
    let a = abs(f.n);
    let g = gcd(a, f.d as nat);
    lemma_gcd_divides(a, f.d as nat);
    lemma_fundamental_div_mod(a as int, g as int);
    lemma_fundamental_div_mod(f.d, g as int);
    let an = (a / g) as nat;
    let dn = (f.d / (g as int)) as nat;
    assert(dn > 0) by (nonlinear_arith)
        requires
            f.d == g * dn,
            f.d > 0,
            g > 0,
    ;
    assert(a == g * an && f.d == g * dn);
    lemma_gcd_scales(g, an, dn);
    let h = gcd(an, dn);
    assert(h == 1) by (nonlinear_arith)
        requires
            g == g * h,
            g > 0,
    ;
    assert(abs(f.reduced().n) == an);
}

/// The denominator of a fraction in lowest terms divides the denominator of
/// every fraction of the same value.
proof fn lemma_lowest_denominator_divides(a: Fraction, b: Fraction)
    requires
        a.valid(),
        b.valid(),
        a.eqv(b),
        a.lowest(),
    ensures
        b.d % a.d == 0,
        a.d <= b.d,
{
    let x = abs(a.n);
    let y = abs(b.n);
    let ad = a.d as nat;
    let bd = b.d as nat;
    crate::fraction_laws::lemma_eqv_sign(a, b);
    assert(x * bd == y * ad) by (nonlinear_arith)
        requires
            a.n * b.d == b.n * a.d,
            (a.n >= 0 && b.n >= 0 && x == a.n && y == b.n) || (a.n < 0 && b.n < 0 && x == -a.n && y
                == -b.n),
            ad == a.d,
            bd == b.d,
    ;
    // `a.d` divides both `b.d * x` and `b.d * a.d`, so it divides their gcd, `b.d`
    lemma_gcd_scales(bd, x, ad);
    assert(bd * x == y * ad) by (nonlinear_arith)
        requires
            x * bd == y * ad,
    ;
    lemma_mod_multiples_basic(y as int, ad as int);
    lemma_mod_multiples_basic(bd as int, ad as int);
    lemma_gcd_greatest(ad, bd * x, bd * ad);
    assert(bd * 1 == bd) by (nonlinear_arith);
    lemma_fundamental_div_mod(b.d, a.d);
    let k = b.d / a.d;
    assert(a.d <= b.d) by (nonlinear_arith)
        requires
            b.d == a.d * k,
            b.d > 0,
            a.d > 0,
    ;
}

/// Two fractions in lowest terms that denote the same number are the same
/// fraction.
pub proof fn lemma_lowest_unique(a: Fraction, b: Fraction)
    requires
        a.valid(),
        b.valid(),
        a.eqv(b),
        a.lowest(),
        b.lowest(),
    ensures
        a == b,
{
    lemma_lowest_denominator_divides(a, b);
    lemma_lowest_denominator_divides(b, a);
    assert(a.n == b.n) by (nonlinear_arith)
        requires
            a.n * b.d == b.n * a.d,
            a.d == b.d,
            a.d > 0,
    ;
}

/// A fraction whose parts fit has a machine value.
pub proof fn lemma_narrow_fits(f: Fraction)
    requires
        f.fits(),
    ensures
        Rational::narrow(f) is Some,
{
    lemma_reduced_eqv(f);
}

/// An exact rational number in lowest terms with 64-bit parts.
#[derive(Clone, Copy, Debug, PartialEq, Eq, Structural)]
pub struct Rational {
    num: i64,
    den: i64,
}

impl View for Rational {
    type V = Fraction;

    closed spec fn view(&self) -> Fraction {
        Fraction { n: self.num as int, d: self.den as int }
    }
}

impl Rational {
    /// The parts fit in 64 bits, and the fraction is in lowest terms.
    #[verifier::type_invariant]
    pub open spec fn wf(self) -> bool {
        self@.fits() && self@.lowest()
    }

    /// The machine value with the given parts.
    pub closed spec fn from_parts(f: Fraction) -> Rational {
        Rational { num: f.n as i64, den: f.d as i64 }
    }

    /// The machine value of a fraction: its reduced form where that fits,
    /// nothing otherwise.
    pub open spec fn narrow(f: Fraction) -> Option<Rational> {
        if f.reduced().fits() {
            Some(Rational::from_parts(f.reduced()))
        } else {
            None
        }
    }

    /// `from_parts` and the view are inverse on fractions that fit.
    pub proof fn lemma_from_parts(f: Fraction)
        requires
            f.fits(),
        ensures
            Rational::from_parts(f)@ == f,
    {
    }

    /// What `narrow` returns: the reduced fraction where it fits.
    pub proof fn lemma_narrow(f: Fraction)
        requires
            f.valid(),
        ensures
            match Rational::narrow(f) {
                Some(v) => v@ == f.reduced() && v@.eqv(f) && v@.valid() && v.wf(),
                None => !f.reduced().fits(),
            },
    {
        lemma_reduced_eqv(f);
        lemma_reduced_lowest(f);
        if f.reduced().fits() {
            Rational::lemma_from_parts(f.reduced());
        }
    }

    /// A fraction with denominator one is its own reduced form.
    pub proof fn lemma_narrow_integer(i: int)
        ensures
            Fraction::integer(i).reduced() == Fraction::integer(i),
            Fraction::integer(i).lowest(),
            Rational::narrow(Fraction::integer(i)) is Some <==> -0x7fff_ffff_ffff_ffff <= i
                <= 0x7fff_ffff_ffff_ffff,
    {
        let a = abs(i);
        assert(a % 1 == 0);
        assert(gcd(1, 0) == 1);
        assert(gcd(a, 1) == gcd(1, a % 1));
        assert(gcd(a, 1) == 1);
        let f = Fraction::integer(i);
        assert(f.n / 1 == f.n && (-f.n) / 1 == -f.n && f.d / 1 == 1);
        assert(f.reduced() == f);
    }

    /// Two rationals that denote the same number are equal: `==` is equality
    /// of value.
    pub proof fn lemma_same_value(a: Rational, b: Rational)
        requires
            a.wf(),
            b.wf(),
        ensures
            a@.eqv(b@) <==> a == b,
    {
        if a@.eqv(b@) {
            lemma_lowest_unique(a@, b@);
        }
    }

    /// The rational `num / den` in lowest terms; `None` when `den` is zero or
    /// the reduced parts do not fit.
    pub fn new(num: i64, den: i64) -> (r: Option<Rational>)
        ensures
            den == 0 ==> r is None,
            den > 0 ==> r == Rational::narrow(Fraction { n: num as int, d: den as int }),
            den < 0 ==> r == Rational::narrow(Fraction { n: -(num as int), d: -(den as int) }),
            r matches Some(v) ==> v.wf(),
    {
        if den == 0 {
            None
        } else if den > 0 {
            Rational::from_wide(num as i128, den as i128)
        } else {
            Rational::from_wide(-(num as i128), -(den as i128))
        }
    }

    /// The integer `i`, or `None` for the one integer whose negation does not fit.
    pub fn from_integer(i: i64) -> (r: Option<Rational>)
        ensures
            r is Some <==> i > i64::MIN,
            r == Rational::narrow(Fraction::integer(i as int)),
            r matches Some(v) ==> v@ == Fraction::integer(i as int) && v.wf(),
    {
        proof {
            Rational::lemma_narrow_integer(i as int);
        }
        if i == i64::MIN {
            None
        } else {
            Some(Rational { num: i, den: 1 })
        }
    }

    /// One half.
    pub fn one_half() -> (r: Rational)
        ensures
            r@ == (Fraction { n: 1, d: 2 }),
            r == Rational::from_parts(Fraction { n: 1, d: 2 }),
            r.wf(),
    {
        assert(gcd(1, 2) == 1) by {
            reveal_with_fuel(gcd, 3);
        }
        Rational { num: 1, den: 2 }
    }

    /// Zero.
    pub fn zero() -> (r: Rational)
        ensures
            r@ == Fraction::integer(0),
            r == Rational::from_parts(Fraction::integer(0)),
            r.wf(),
    {
        proof {
            Rational::lemma_narrow_integer(0);
        }
        Rational { num: 0, den: 1 }
    }

    /// The integer `i`. Every 32-bit integer is representable.
    pub fn from_i32(i: i32) -> (r: Rational)
        ensures
            r@ == Fraction::integer(i as int),
            r.wf(),
    {
        proof {
            Rational::lemma_narrow_integer(i as int);
        }
        Rational { num: i as i64, den: 1 }
    }

    /// The numerator; it carries the sign.
    pub fn numerator(&self) -> (n: i64)
        ensures
            n == self@.n,
            n > i64::MIN,
    {
        proof {
            use_type_invariant(self);
        }
        self.num
    }

    /// The denominator, which is positive.
    pub fn denominator(&self) -> (d: i64)
        ensures
            d == self@.d,
            d > 0,
    {
        proof {
            use_type_invariant(self);
        }
        self.den
    }

    /// Reduces `n / d` and narrows it to 64-bit parts.
    pub fn from_wide(n: i128, d: i128) -> (r: Option<Rational>)
        requires
            d > 0,
            n > i128::MIN,
        ensures
            r == Rational::narrow(Fraction { n: n as int, d: d as int }),
            r matches Some(v) ==> {
                &&& v@ == (Fraction { n: n as int, d: d as int }).reduced()
                &&& v@.eqv(Fraction { n: n as int, d: d as int })
                &&& v.wf()
            },
    {
        let ghost f = Fraction { n: n as int, d: d as int };
        let negative = n < 0;
        let m: u128 = if negative {
            (-n) as u128
        } else {
            n as u128
        };
        let g: u128 = gcd_u128(m, d as u128);
        proof {
            lemma_gcd_divides(m as nat, d as nat);
            lemma_reduced_eqv(f);
            lemma_reduced_lowest(f);
        }
        let mr: u128 = m / g;
        let dr: u128 = (d as u128) / g;
        if mr > 0x7fff_ffff_ffff_ffff || dr > 0x7fff_ffff_ffff_ffff {
            None
        } else {
            let num: i64 = if negative {
                -(mr as i64)
            } else {
                mr as i64
            };
            Some(Rational { num, den: dr as i64 })
        }
    }

    /// The exact sum, or `None` when it has no 64-bit representation.
    pub fn checked_add(&self, other: &Rational) -> (r: Option<Rational>)
        ensures
            r == Rational::narrow(self@.plus(other@)),
            r matches Some(v) ==> v@.eqv(self@.plus(other@)) && v.wf(),
    {
        proof {
            use_type_invariant(self);
            use_type_invariant(other);
        }
        let d: i128 = mul_i64(self.den, other.den);
        assert(d > 0) by (nonlinear_arith)
            requires
                d == self.den * other.den,
                self.den > 0,
                other.den > 0,
        ;
        let n: i128 = mul_i64(self.num, other.den) + mul_i64(other.num, self.den);
        Rational::from_wide(n, d)
    }

    /// The exact difference, or `None` when it has no 64-bit representation.
    pub fn checked_sub(&self, other: &Rational) -> (r: Option<Rational>)
        ensures
            r == Rational::narrow(self@.minus(other@)),
            r matches Some(v) ==> v@.eqv(self@.minus(other@)) && v.wf(),
    {
        proof {
            use_type_invariant(self);
            use_type_invariant(other);
        }
        let d: i128 = mul_i64(self.den, other.den);
        assert(d > 0) by (nonlinear_arith)
            requires
                d == self.den * other.den,
                self.den > 0,
                other.den > 0,
        ;
        let n: i128 = mul_i64(self.num, other.den) - mul_i64(other.num, self.den);
        Rational::from_wide(n, d)
    }

    /// The exact product, or `None` when it has no 64-bit representation.
    pub fn checked_mul(&self, other: &Rational) -> (r: Option<Rational>)
        ensures
            r == Rational::narrow(self@.times(other@)),
            r matches Some(v) ==> v@.eqv(self@.times(other@)) && v.wf(),
    {
        proof {
            use_type_invariant(self);
            use_type_invariant(other);
        }
        let d: i128 = mul_i64(self.den, other.den);
        assert(d > 0) by (nonlinear_arith)
            requires
                d == self.den * other.den,
                self.den > 0,
                other.den > 0,
        ;
        let n: i128 = mul_i64(self.num, other.num);
        Rational::from_wide(n, d)
    }

    /// The exact quotient; `None` when `other` is zero or the quotient has no
    /// 64-bit representation.
    pub fn checked_div(&self, other: &Rational) -> (r: Option<Rational>)
        ensures
            other@.n == 0 ==> r is None,
            other@.n != 0 ==> r == Rational::narrow(self@.over(other@)),
            r matches Some(v) ==> v@.eqv(self@.over(other@)) && v.wf(),
    {
        proof {
            use_type_invariant(self);
            use_type_invariant(other);
        }
        if other.num == 0 {
            None
        } else if other.num > 0 {
            let d: i128 = mul_i64(self.den, other.num);
            assert(d > 0) by (nonlinear_arith)
                requires
                    d == self.den * other.num,
                    self.den > 0,
                    other.num > 0,
            ;
            let n: i128 = mul_i64(self.num, other.den);
            Rational::from_wide(n, d)
        } else {
            let d: i128 = mul_i64(self.den, -other.num);
            assert(d > 0) by (nonlinear_arith)
                requires
                    d == self.den * (-other.num),
                    self.den > 0,
                    other.num < 0,
            ;
            let n: i128 = -mul_i64(self.num, other.den);
            Rational::from_wide(n, d)
        }
    }

    /// Whether both denote the same number, which is whether they are equal.
    pub fn same_value(&self, other: &Rational) -> (b: bool)
        ensures
            b == self@.eqv(other@),
            b == (*self == *other),
    {
        proof {
            use_type_invariant(self);
            use_type_invariant(other);
            Rational::lemma_same_value(*self, *other);
        }
        mul_i64(self.num, other.den) == mul_i64(other.num, self.den)
    }

    /// Whether the value is less than that of `other`.
    pub fn less_than(&self, other: &Rational) -> (b: bool)
        ensures
            b == self@.lt(other@),
    {
        mul_i64(self.num, other.den) < mul_i64(other.num, self.den)
    }

    /// Whether the value is at most that of `other`.
    pub fn at_most(&self, other: &Rational) -> (b: bool)
        ensures
            b == self@.le(other@),
    {
        mul_i64(self.num, other.den) <= mul_i64(other.num, self.den)
    }

    /// The largest integer not above the value.
    pub fn floor(&self) -> (q: i64)
        ensures
            q == self@.floor(),
    {
        proof {
            use_type_invariant(self);
        }
        let n: i128 = self.num as i128;
        let d: i128 = self.den as i128;
        let q: i128 = floor_div_i128(n, d);
        assert(-0x7fff_ffff_ffff_ffff <= q <= 0x7fff_ffff_ffff_ffff) by (nonlinear_arith)
            requires
                q * d <= n < q * d + d,
                d >= 1,
                -0x7fff_ffff_ffff_ffff <= n <= 0x7fff_ffff_ffff_ffff,
        ;
        q as i64
    }

    /// The smallest integer not below the value.
    pub fn ceil(&self) -> (q: i64)
        ensures
            q == self@.ceil(),
    {
        proof {
            use_type_invariant(self);
        }
        let n: i128 = self.num as i128;
        let d: i128 = self.den as i128;
        let q: i128 = ceil_div_i128(n, d);
        assert(-0x7fff_ffff_ffff_ffff <= q <= 0x7fff_ffff_ffff_ffff) by (nonlinear_arith)
            requires
                q * d - d < n <= q * d,
                d >= 1,
                -0x7fff_ffff_ffff_ffff <= n <= 0x7fff_ffff_ffff_ffff,
        ;
        q as i64
    }

    /// The decimal text of the value with at most `places` digits after the
    /// point.
    pub fn to_decimal(&self, places: u8) -> (s: String)
        requires
            places <= 18,
        ensures
            s@ == self@.decimal_text(places as nat),
    {
        proof {
            use_type_invariant(self);
        }
        let mut unit: u128 = 1;
        let mut k: u8 = 0;
        while k < places
            invariant
                k <= places <= 18,
                unit == pow10(k as nat),
                1 <= unit <= 1_000_000_000_000_000_000,
            decreases places - k,
        {
            proof {
                lemma_pow10_increases((k + 1) as nat, 18);
                assert(pow10(18) == 1_000_000_000_000_000_000) by {
                    reveal_with_fuel(pow10, 19);
                }
            }
            unit = unit * 10;
            k = k + 1;
        }
        let negative = self.num < 0;
        let a: u128 = if negative {
            (-(self.num as i128)) as u128
        } else {
            self.num as u128
        };
        let d: u128 = self.den as u128;
        assert(0 <= a * unit <= 0x8000_0000_0000_0000 * 1_000_000_000_000_000_000)
            by (nonlinear_arith)
            requires
                0 <= a <= 0x8000_0000_0000_0000,
                1 <= unit <= 1_000_000_000_000_000_000,
        ;
        let m: u128 = (2 * (a * unit) + d) / (2 * d);
        assert(m == self@.scaled_magnitude(places as nat)) by {
            assert(2 * (a * unit) == 2 * a * unit) by (nonlinear_arith);
        }
        let whole: u128 = m / unit;
        let frac: u128 = m % unit;
        let mut s = String::new();
        if negative && m > 0 {
            s.push('-');
        }
        let ghost sign = s@;
        push_digits(&mut s, whole);
        if frac != 0 {
            s.push('.');
            let ghost head = s@;
            let ghost target = head + fraction_digits(frac as nat, places as nat);
            let mut rem: u128 = frac;
            let mut left: u8 = places;
            let mut u: u128 = unit;
            while rem != 0 && left > 0
                invariant
                    left <= 18,
                    u == pow10(left as nat),
                    rem < u,
                    s@ + fraction_digits(rem as nat, left as nat) == target,
                decreases left,
            {
                proof {
                    lemma_pow10_positive((left - 1) as nat);
                }
                u = u / 10;
                let digit: u128 = rem / u;
                assert(digit < 10) by (nonlinear_arith)
                    requires
                        digit == rem / u,
                        rem < 10 * u,
                        u > 0,
                ;
                let ghost before = s@;
                let ghost rest = fraction_digits((rem % u) as nat, (left - 1) as nat);
                push_digits(&mut s, digit);
                proof {
                    assert(digits(digit as nat) == seq![crate::text::digit_char(digit as int)]);
                    assert(fraction_digits(rem as nat, left as nat) == seq![
                        crate::text::digit_char(digit as int),
                    ] + rest);
                    assert(before + (seq![crate::text::digit_char(digit as int)] + rest) == (before
                        + seq![crate::text::digit_char(digit as int)]) + rest);
                }
                rem = rem % u;
                left = left - 1;
            }
            proof {
                assert(fraction_digits(rem as nat, left as nat) == Seq::<char>::empty());
                assert(s@ + Seq::<char>::empty() == s@);
                assert(head == sign + digits(whole as nat) + seq!['.']);
            }
        } else {
            assert(m % unit == 0);
        }
        s
    }

    /// The decimal text of the value: exact where it has at most eighteen
    /// digits after the point, rounded to eighteen otherwise.
    pub fn to_string(&self) -> (s: String)
        ensures
            s@ == self@.decimal_text(18),
    {
        self.to_decimal(18)
    }
}

} // verus!
