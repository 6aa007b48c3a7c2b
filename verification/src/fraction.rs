//! The mathematical model of a fraction: a numerator and a denominator over
//! the unbounded integers, and its normal form.

use vstd::prelude::*;
use vstd::arithmetic::div_mod::lemma_fundamental_div_mod_converse;
use crate::gcd::gcd;
use crate::gcd::divides;
use crate::gcd::lemma_gcd_positive;
use crate::gcd::lemma_gcd_divides;
use crate::gcd::lemma_gcd_of_quotients;
use crate::gcd::lemma_divides_quotient;
use crate::gcd::lemma_divides_multiple;
use crate::gcd::lemma_gcd_scale;
use crate::gcd::lemma_gcd_greatest;

verus! {

/// A numerator over a denominator.
pub struct Fraction {
    pub num: int,
    pub den: int,
}

/// The absolute value of an integer.
pub open spec fn magnitude(x: int) -> nat {
    if x < 0 {
        (-x) as nat
    } else {
        x as nat
    }
}

impl Fraction {
    /// The denominator is positive and shares no divisor but 1 with the
    /// numerator: the sign lives in the numerator alone.
    pub open spec fn in_lowest_terms(self) -> bool {
        self.den > 0 && gcd(magnitude(self.num), self.den as nat) == 1
    }

    /// Two fractions stand for the same number where their cross products
    /// agree.
    pub open spec fn same_value(self, other: Fraction) -> bool {
        self.num * other.den == other.num * self.den
    }

    /// The sum, by cross-multiplication, not yet reduced.
    pub open spec fn plus(self, other: Fraction) -> Fraction {
        Fraction { num: self.num * other.den + self.den * other.num, den: self.den * other.den }
    }

    /// The difference, by cross-multiplication, not yet reduced.
    pub open spec fn minus(self, other: Fraction) -> Fraction {
        Fraction { num: self.num * other.den - self.den * other.num, den: self.den * other.den }
    }

    /// The product, not yet reduced.
    pub open spec fn times(self, other: Fraction) -> Fraction {
        Fraction { num: self.num * other.num, den: self.den * other.den }
    }

    /// The fraction with the opposite numerator.
    pub open spec fn opposite(self) -> Fraction {
        Fraction { num: -self.num, den: self.den }
    }

    /// The normal form of this fraction.
    pub open spec fn reduced(self) -> Fraction {
        reduce(self.num, self.den)
    }
}

/// The fraction `n/d`, as it is written.
pub open spec fn ratio(n: int, d: int) -> Fraction {
    Fraction { num: n, den: d }
}

/// The integer `k` as the fraction `k/1`.
pub open spec fn whole(k: int) -> Fraction {
    ratio(k, 1)
}

/// The normal form of `n/d`: the sign moves to the numerator, then both
/// parts are divided by the greatest common divisor of their magnitudes.
pub open spec fn reduce(n: int, d: int) -> Fraction {
    let g = gcd(magnitude(n), magnitude(d)) as int;
    Fraction { num: (if d < 0 { -n } else { n }) / g, den: (magnitude(d) as int) / g }
}

/// What `reduce` divides by is positive and divides both parts exactly: the
/// parts of the normal form, times the divisor, give back the sign-adjusted
/// numerator and the magnitude of the denominator.
pub proof fn lemma_reduce_exact(n: int, d: int)
    requires
        d != 0,
    ensures
        gcd(magnitude(n), magnitude(d)) > 0,
        reduce(n, d).num * gcd(magnitude(n), magnitude(d)) == (if d < 0 { -n } else { n }),
        reduce(n, d).den * gcd(magnitude(n), magnitude(d)) == magnitude(d),
        magnitude(reduce(n, d).num) == magnitude(n) / gcd(magnitude(n), magnitude(d)),
        reduce(n, d).den == magnitude(d) / gcd(magnitude(n), magnitude(d)),
{
    let a = magnitude(n);
    let b = magnitude(d);
    let g = gcd(a, b);
    lemma_gcd_positive(a, b);
    lemma_gcd_divides(a, b);
    lemma_divides_quotient(g, a);
    lemma_divides_quotient(g, b);
    let sn = if d < 0 { -n } else { n };
    let qa = (a / g) as int;
    if sn < 0 {
        assert(sn == (-qa) * g + 0) by (nonlinear_arith)
            requires
                -sn == qa * g,
        ;
        lemma_fundamental_div_mod_converse(sn, g as int, -qa, 0);
    } else {
        assert(sn / (g as int) == qa);
    }
}

/// The normal form is in lowest terms: its denominator is positive and its
/// parts share no divisor but 1.
pub proof fn lemma_reduce_lowest_terms(n: int, d: int)
    requires
        d != 0,
    ensures
        reduce(n, d).in_lowest_terms(),
{
    let a = magnitude(n);
    let b = magnitude(d);
    let g = gcd(a, b);
    lemma_reduce_exact(n, d);
    lemma_gcd_of_quotients(a, b);
    assert(reduce(n, d).den > 0) by (nonlinear_arith)
        requires
            reduce(n, d).den * g == b,
            b > 0,
            g > 0,
    ;
}

/// The normal form stands for the same number as the fraction it was made
/// from.
pub proof fn lemma_reduce_same_value(n: int, d: int)
    requires
        d != 0,
    ensures
        reduce(n, d).same_value(ratio(n, d)),
{
    let g = gcd(magnitude(n), magnitude(d)) as int;
    let r = reduce(n, d);
    lemma_reduce_exact(n, d);
    if d < 0 {
        assert(r.num * d == n * r.den) by (nonlinear_arith)
            requires
                r.num * g == -n,
                r.den * g == -d,
                g > 0,
        ;
    } else {
        assert(r.num * d == n * r.den) by (nonlinear_arith)
            requires
                r.num * g == n,
                r.den * g == d,
                g > 0,
        ;
    }
}

/// The normal form of the opposite fraction is the opposite of the normal
/// form.
pub proof fn lemma_reduce_opposite(n: int, d: int)
    requires
        d != 0,
    ensures
        reduce(-n, d) == reduce(n, d).opposite(),
{
    let g = gcd(magnitude(n), magnitude(d)) as int;
    lemma_reduce_exact(n, d);
    lemma_reduce_exact(-n, d);
    let r = reduce(n, d);
    let o = reduce(-n, d);
    assert(o.num == -r.num) by (nonlinear_arith)
        requires
            o.num * g == -(r.num * g),
            g > 0,
    ;
}

/// A fraction already in lowest terms is its own normal form.
pub proof fn lemma_reduce_idempotent(f: Fraction)
    requires
        f.in_lowest_terms(),
    ensures
        f.reduced() == f,
{
    assert(magnitude(f.den) == f.den as nat);
    assert(gcd(magnitude(f.num), magnitude(f.den)) == 1);
    assert(f.num / 1 == f.num && f.den / 1 == f.den);
}

/// Where `q` and `t` are positive, `a` and `q` share no divisor but 1, and
/// `a * t == b * q`, the number `q` divides `t`.
proof fn lemma_coprime_divides(a: nat, q: nat, b: nat, t: nat)
    requires
        q > 0,
        t > 0,
        gcd(a, q) == 1,
        a * t == b * q,
    ensures
        divides(q, t),
        q <= t,
{
    lemma_gcd_scale(t, a, q);
    assert(t * a == b * q && t * gcd(a, q) == t) by (nonlinear_arith)
        requires
            a * t == b * q,
            gcd(a, q) == 1,
    ;
    lemma_divides_multiple(q, b);
    lemma_divides_multiple(q, t);
    lemma_gcd_greatest(q, t * a, t * q);
    lemma_divides_quotient(q, t);
    assert(q <= t) by (nonlinear_arith)
        requires
            t == q * (t / q),
            t > 0,
            q > 0,
    ;
}

/// Two fractions in lowest terms that stand for the same number are the
/// same pair: the normal form of a number is unique.
pub proof fn lemma_lowest_terms_unique(f: Fraction, h: Fraction)
    requires
        f.in_lowest_terms(),
        h.in_lowest_terms(),
        f.same_value(h),
    ensures
        f == h,
{
    let a = magnitude(f.num);
    let b = magnitude(h.num);
    let q = f.den as nat;
    let t = h.den as nat;
    assert(a * t == b * q) by (nonlinear_arith)
        requires
            f.num * h.den == h.num * f.den,
            a == (if f.num < 0 { -f.num } else { f.num }),
            b == (if h.num < 0 { -h.num } else { h.num }),
            q == f.den,
            t == h.den,
            q > 0,
            t > 0,
    ;
    lemma_coprime_divides(a, q, b, t);
    assert(b * q == a * t);
    lemma_coprime_divides(b, t, a, q);
    assert(f.num == h.num) by (nonlinear_arith)
        requires
            f.num * h.den == h.num * f.den,
            f.den == h.den,
            f.den > 0,
    ;
}

/// Two fractions have the same normal form exactly where they stand for
/// the same number.
pub proof fn lemma_reduce_decides_value(n: int, d: int, m: int, e: int)
    requires
        d != 0,
        e != 0,
    ensures
        reduce(n, d) == reduce(m, e) <==> ratio(n, d).same_value(ratio(m, e)),
{
    let r = reduce(n, d);
    let s = reduce(m, e);
    lemma_reduce_same_value(n, d);
    lemma_reduce_same_value(m, e);
    lemma_reduce_lowest_terms(n, d);
    lemma_reduce_lowest_terms(m, e);
    if r == s {
        assert(r.den * (n * e - m * d) == 0) by (nonlinear_arith)
            requires
                r.num * d == n * r.den,
                r.num * e == m * r.den,
        ;
        assert(n * e == m * d) by (nonlinear_arith)
            requires
                r.den * (n * e - m * d) == 0,
                r.den > 0,
        ;
    }
    if n * e == m * d {
        assert((r.num * s.den) * (d * e) == (n * e) * (r.den * s.den)) by (nonlinear_arith)
            requires
                r.num * d == n * r.den,
        ;
        assert((s.num * r.den) * (d * e) == (m * d) * (r.den * s.den)) by (nonlinear_arith)
            requires
                s.num * e == m * s.den,
        ;
        assert(r.num * s.den == s.num * r.den) by (nonlinear_arith)
            requires
                (r.num * s.den) * (d * e) == (s.num * r.den) * (d * e),
                d != 0,
                e != 0,
        ;
        lemma_lowest_terms_unique(r, s);
    }
}

/// The sum does not depend on the order of its terms.
pub proof fn lemma_plus_commutative(f: Fraction, h: Fraction)
    ensures
        f.plus(h) == h.plus(f),
{
    assert(f.num * h.den + f.den * h.num == h.num * f.den + h.den * f.num) by (nonlinear_arith);
    assert(f.den * h.den == h.den * f.den) by (nonlinear_arith);
}

/// The product does not depend on the order of its factors.
pub proof fn lemma_times_commutative(f: Fraction, h: Fraction)
    ensures
        f.times(h) == h.times(f),
{
    assert(f.num * h.num == h.num * f.num) by (nonlinear_arith);
    assert(f.den * h.den == h.den * f.den) by (nonlinear_arith);
}

/// Swapping the terms of a difference gives the opposite number.
pub proof fn lemma_minus_swapped(f: Fraction, h: Fraction)
    ensures
        h.minus(f) == f.minus(h).opposite(),
{
    assert(h.num * f.den - h.den * f.num == -(f.num * h.den - f.den * h.num)) by (nonlinear_arith);
    assert(f.den * h.den == h.den * f.den) by (nonlinear_arith);
}

} // verus!
