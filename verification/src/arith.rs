//! Integer helpers shared by the rational arithmetic and the tick algorithms.

use vstd::arithmetic::div_mod::{
    lemma_fundamental_div_mod, lemma_fundamental_div_mod_converse, lemma_mod_multiples_basic,
    lemma_truncate_middle,
};
use vstd::arithmetic::mul::{
    lemma_mul_is_associative, lemma_mul_is_distributive_add, lemma_mul_is_distributive_sub,
};
use vstd::prelude::*;

verus! {

/// Greatest common divisor by Euclid's recursion; `gcd(a, 0) == a`.
pub open spec fn gcd(a: nat, b: nat) -> nat
    decreases b,
{
    if b == 0 {
        a
    } else {
        gcd(b, a % b)
    }
}

/// The largest integer not above `n / d`, for a positive `d`.
pub open spec fn floor_div(n: int, d: int) -> int {
    n / d
}

/// The smallest integer not below `n / d`, for a positive `d`.
pub open spec fn ceil_div(n: int, d: int) -> int {
    -((-n) / d)
}

/// Ten to the power `e`.
pub open spec fn pow10(e: nat) -> int
    decreases e,
{
    if e == 0 {
        1
    } else {
        10 * pow10((e - 1) as nat)
    }
}

/// A power of ten is at least one.
pub proof fn lemma_pow10_positive(e: nat)
    ensures
        pow10(e) >= 1,
    decreases e,
{
    if e > 0 {
        lemma_pow10_positive((e - 1) as nat);
    }
}

/// A larger exponent gives a power of ten that is not smaller.
pub proof fn lemma_pow10_increases(a: nat, b: nat)
    requires
        a <= b,
    ensures
        pow10(a) <= pow10(b),
    decreases b,
{
    lemma_pow10_positive(a);
    if a < b {
        lemma_pow10_increases(a, (b - 1) as nat);
    }
}

/// The gcd of two numbers that are not both zero is positive and divides both.
pub proof fn lemma_gcd_divides(a: nat, b: nat)
    requires
        a > 0 || b > 0,
    ensures
        gcd(a, b) > 0,
        a % gcd(a, b) == 0,
        b % gcd(a, b) == 0,
    decreases b,
{
    if b == 0 {
        lemma_mod_multiples_basic(1, a as int);
    } else {
        let r = a % b;
        lemma_gcd_divides(b, r);
        let g = gcd(b, r) as int;
        let q = a as int / b as int;
        lemma_fundamental_div_mod(a as int, b as int);
        lemma_fundamental_div_mod(b as int, g);
        lemma_fundamental_div_mod(r as int, g);
        let bq = b as int / g;
        let rq = r as int / g;
        assert(a == g * (bq * q + rq)) by {
            lemma_mul_is_associative(g, bq, q);
            lemma_mul_is_distributive_add(g, bq * q, rq);
        }
        lemma_mod_multiples_basic(bq * q + rq, g);
        assert((bq * q + rq) * g == g * (bq * q + rq)) by (nonlinear_arith);
    }
}

/// A common factor of both numbers is a factor of their gcd:
/// `gcd(g * a, g * b) == g * gcd(a, b)`.
pub proof fn lemma_gcd_scales(g: nat, a: nat, b: nat)
    requires
        g > 0,
    ensures
        gcd(g * a, g * b) == g * gcd(a, b),
    decreases b,
{
    if b == 0 {
        assert(g * b == 0) by (nonlinear_arith)
            requires
                b == 0,
        ;
    } else {
        lemma_truncate_middle(a as int, g as int, b as int);
        assert(g * b > 0) by (nonlinear_arith)
            requires
                g > 0,
                b > 0,
        ;
        lemma_gcd_scales(g, b, a % b);
        assert((g * a) % (g * b) == g * (a % b));
    }
}

/// A common divisor of two numbers divides their gcd.
pub proof fn lemma_gcd_greatest(c: nat, a: nat, b: nat)
    requires
        c > 0,
        a % c == 0,
        b % c == 0,
    ensures
        gcd(a, b) % c == 0,
    decreases b,
{
    if b > 0 {
        let r = a % b;
        let q = a / b;
        lemma_fundamental_div_mod(a as int, b as int);
        lemma_fundamental_div_mod(a as int, c as int);
        lemma_fundamental_div_mod(b as int, c as int);
        let ac = a as int / c as int;
        let bc = b as int / c as int;
        assert(r == c * (ac - bc * q)) by {
            lemma_mul_is_associative(c as int, bc, q as int);
            lemma_mul_is_distributive_sub(c as int, ac, bc * q);
        }
        lemma_mod_multiples_basic(ac - bc * q, c as int);
        assert((ac - bc * q) * c == c * (ac - bc * q)) by (nonlinear_arith);
        lemma_gcd_greatest(c, b, r);
    }
}

/// Euclid's algorithm.
pub fn gcd_u128(a: u128, b: u128) -> (g: u128)
    ensures
        g == gcd(a as nat, b as nat),
{
    let mut x: u128 = a;
    let mut y: u128 = b;
    while y != 0
        invariant
            gcd(x as nat, y as nat) == gcd(a as nat, b as nat),
        decreases y,
    {
        let r: u128 = x % y;
        x = y;
        y = r;
    }
    x
}

/// The product of two 64-bit integers, which always fits in 128 bits.
pub fn mul_i64(a: i64, b: i64) -> (p: i128)
    ensures
        p == a * b,
        -0x4000_0000_0000_0000_0000_0000_0000_0000 <= p <= 0x4000_0000_0000_0000_0000_0000_0000_0000,
        (a > i64::MIN && b > i64::MIN) ==> -0x3fff_ffff_ffff_ffff_0000_0000_0000_0001 <= p
            <= 0x3fff_ffff_ffff_ffff_0000_0000_0000_0001,
{
    proof {
        lemma_mul_i64_bounds(a as int, b as int);
    }
    (a as i128) * (b as i128)
}

/// How large the product of two 64-bit integers can be.
pub proof fn lemma_mul_i64_bounds(a: int, b: int)
    requires
        -0x8000_0000_0000_0000 <= a <= 0x7fff_ffff_ffff_ffff,
        -0x8000_0000_0000_0000 <= b <= 0x7fff_ffff_ffff_ffff,
    ensures
        -0x4000_0000_0000_0000_0000_0000_0000_0000 <= a * b
            <= 0x4000_0000_0000_0000_0000_0000_0000_0000,
        (a > -0x8000_0000_0000_0000 && b > -0x8000_0000_0000_0000)
            ==> -0x3fff_ffff_ffff_ffff_0000_0000_0000_0001 <= a * b
            <= 0x3fff_ffff_ffff_ffff_0000_0000_0000_0001,
{
    assert(-0x4000_0000_0000_0000_0000_0000_0000_0000 <= a * b
        <= 0x4000_0000_0000_0000_0000_0000_0000_0000) by (nonlinear_arith)
        requires
            -0x8000_0000_0000_0000 <= a <= 0x7fff_ffff_ffff_ffff,
            -0x8000_0000_0000_0000 <= b <= 0x7fff_ffff_ffff_ffff,
    ;
    if a > -0x8000_0000_0000_0000 && b > -0x8000_0000_0000_0000 {
        assert(-0x3fff_ffff_ffff_ffff_0000_0000_0000_0001 <= a * b
            <= 0x3fff_ffff_ffff_ffff_0000_0000_0000_0001) by (nonlinear_arith)
            requires
                -0x7fff_ffff_ffff_ffff <= a <= 0x7fff_ffff_ffff_ffff,
                -0x7fff_ffff_ffff_ffff <= b <= 0x7fff_ffff_ffff_ffff,
        ;
    }
}

/// Floor of the quotient of a 128-bit integer by a positive one.
pub fn floor_div_i128(n: i128, d: i128) -> (q: i128)
    requires
        d > 0,
        n > i128::MIN,
    ensures
        q == floor_div(n as int, d as int),
        q * d <= n < q * d + d,
        n >= 0 ==> 0 <= q <= n,
        n < 0 ==> n <= q < 0,
{
    proof {
        lemma_fundamental_div_mod(n as int, d as int);
        assert((n as int / d as int) * d == d * (n as int / d as int)) by (nonlinear_arith);
    }
    if n >= 0 {
        n / d
    } else {
        let m: i128 = -n;
        let t: i128 = m / d;
        let r: i128 = m % d;
        proof {
            lemma_fundamental_div_mod(m as int, d as int);
        }
        if r == 0 {
            proof {
                assert(d * (-t) == -(d * t)) by (nonlinear_arith);
                lemma_fundamental_div_mod_converse(n as int, d as int, -(t as int), 0);
                assert(1 <= t <= m) by (nonlinear_arith)
                    requires
                        m == d * t,
                        m > 0,
                        d >= 1,
                        t >= 0,
                ;
            }
            -t
        } else {
            proof {
                assert(d * (-t - 1) == -(d * t) - d) by (nonlinear_arith);
                lemma_fundamental_div_mod_converse(n as int, d as int, -(t as int) - 1, d - r);
                assert(d as int * t as int <= m) by (nonlinear_arith)
                    requires
                        m == d * t + r,
                        r >= 0,
                ;
                assert(t + 1 <= m) by (nonlinear_arith)
                    requires
                        m == d * t + r,
                        r >= 1,
                        d >= 1,
                        t >= 0,
                ;
            }
            -t - 1
        }
    }
}

/// Ceiling of the quotient of a 128-bit integer by a positive one.
pub fn ceil_div_i128(n: i128, d: i128) -> (q: i128)
    requires
        d > 0,
        n > i128::MIN,
    ensures
        q == ceil_div(n as int, d as int),
        q * d - d < n <= q * d,
        n > 0 ==> 0 < q <= n,
        n <= 0 ==> n <= q <= 0,
{
    let f: i128 = floor_div_i128(-n, d);
    proof {
        assert((-f) * d == -(f * d)) by (nonlinear_arith);
        assert(f > i128::MIN) by (nonlinear_arith)
            requires
                f * d + d > -n,
                d >= 1,
                -n >= -0x7fff_ffff_ffff_ffff_ffff_ffff_ffff_ffff,
                f >= -0x8000_0000_0000_0000_0000_0000_0000_0000,
        ;
    }
    -f
}

} // verus!
