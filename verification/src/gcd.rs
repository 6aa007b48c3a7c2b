//! The greatest common divisor of two natural numbers, and what follows
//! from Euclid's recursion.

use vstd::prelude::*;
use vstd::arithmetic::div_mod::lemma_fundamental_div_mod;
use vstd::arithmetic::div_mod::lemma_mod_multiples_basic;
use vstd::arithmetic::div_mod::lemma_truncate_middle;
use vstd::arithmetic::div_mod::lemma_div_multiples_vanish;

verus! {

/// Euclid's recursion: `gcd(a, 0) = a`, and `gcd(a, b) = gcd(b, a mod b)`
/// otherwise.
pub open spec fn gcd(a: nat, b: nat) -> nat
    decreases b,
{
    if b == 0 {
        a
    } else {
        gcd(b, a % b)
    }
}

/// `c` divides `x`: `x` is a multiple of the positive number `c`.
pub open spec fn divides(c: nat, x: nat) -> bool {
    c > 0 && x % c == 0
}

/// A multiple of `c` has remainder zero, and a number with remainder zero
/// is the multiple `c * (x / c)`.
pub proof fn lemma_divides_multiple(c: nat, k: nat)
    requires
        c > 0,
    ensures
        divides(c, k * c),
        divides(c, c * k),
        (k * c) / c == k,
        (c * k) / c == k,
{
    lemma_mod_multiples_basic(k as int, c as int);
    lemma_div_multiples_vanish(k as int, c as int);
    assert(k * c == c * k) by (nonlinear_arith);
}

/// The quotient of a multiple gives the multiple back.
pub proof fn lemma_divides_quotient(c: nat, x: nat)
    requires
        divides(c, x),
    ensures
        x == c * (x / c),
        x == (x / c) * c,
{
    lemma_fundamental_div_mod(x as int, c as int);
    assert(c * (x / c) == (x / c) * c) by (nonlinear_arith);
}

/// The greatest common divisor is zero only where both numbers are zero.
pub proof fn lemma_gcd_positive(a: nat, b: nat)
    requires
        a > 0 || b > 0,
    ensures
        gcd(a, b) > 0,
    decreases b,
{
    if b != 0 {
        lemma_gcd_positive(b, a % b);
    }
}

/// The greatest common divisor divides both numbers.
pub proof fn lemma_gcd_divides(a: nat, b: nat)
    requires
        a > 0 || b > 0,
    ensures
        divides(gcd(a, b), a),
        divides(gcd(a, b), b),
    decreases b,
{
    lemma_gcd_positive(a, b);
    let g = gcd(a, b);
    if b == 0 {
        lemma_divides_multiple(g, 1);
        lemma_divides_multiple(g, 0);
    } else {
        let r = a % b;
        lemma_gcd_divides(b, r);
        lemma_divides_quotient(g, b);
        lemma_divides_quotient(g, r);
        lemma_fundamental_div_mod(a as int, b as int);
        let q = a / b;
        let bq = b / g;
        let rq = r / g;
        assert(a == (bq * q + rq) * g) by (nonlinear_arith)
            requires
                a == b * q + r,
                b == bq * g,
                r == rq * g,
        ;
        lemma_divides_multiple(g, bq * q + rq);
    }
}

/// Every common divisor of two numbers divides their greatest common
/// divisor.
pub proof fn lemma_gcd_greatest(c: nat, a: nat, b: nat)
    requires
        divides(c, a),
        divides(c, b),
    ensures
        divides(c, gcd(a, b)),
    decreases b,
{
    if b != 0 {
        let r = a % b;
        lemma_divides_quotient(c, a);
        lemma_divides_quotient(c, b);
        lemma_fundamental_div_mod(a as int, b as int);
        let q = a / b;
        let aq = a / c;
        let bq = b / c;
        assert(r == (aq - bq * q) * c) by (nonlinear_arith)
            requires
                a == b * q + r,
                a == aq * c,
                b == bq * c,
        ;
        assert(aq - bq * q >= 0) by (nonlinear_arith)
            requires
                r == (aq - bq * q) * c,
                r >= 0,
                c > 0,
        ;
        lemma_divides_multiple(c, (aq - bq * q) as nat);
        lemma_gcd_greatest(c, b, r);
    }
}

/// Scaling both numbers by `k` scales their greatest common divisor by `k`.
pub proof fn lemma_gcd_scale(k: nat, a: nat, b: nat)
    requires
        k > 0,
    ensures
        gcd(k * a, k * b) == k * gcd(a, b),
    decreases b,
{
    if b == 0 {
        assert(k * b == 0) by (nonlinear_arith)
            requires
                b == 0,
        ;
    } else {
        assert(k * b > 0) by (nonlinear_arith)
            requires
                k > 0,
                b > 0,
        ;
        lemma_truncate_middle(a as int, k as int, b as int);
        assert((k * a) % (k * b) == k * (a % b));
        lemma_gcd_scale(k, b, a % b);
    }
}

/// Dividing two numbers by their greatest common divisor leaves two numbers
/// with no common divisor but 1.
pub proof fn lemma_gcd_of_quotients(a: nat, b: nat)
    requires
        a > 0 || b > 0,
    ensures
        gcd(a / gcd(a, b), b / gcd(a, b)) == 1,
{
    let g = gcd(a, b);
    lemma_gcd_divides(a, b);
    lemma_divides_quotient(g, a);
    lemma_divides_quotient(g, b);
    lemma_gcd_scale(g, a / g, b / g);
    let h = gcd(a / g, b / g);
    assert(h == 1) by (nonlinear_arith)
        requires
            g == g * h,
            g > 0,
    ;
}

} // verus!
