//! What holds of the arithmetic of `Rational` as a whole: the normal form,
//! equality, and the order of operands.

use vstd::prelude::*;
use vstd::std_specs::ops::AddSpec;
use vstd::std_specs::ops::MulSpec;
use crate::rational::Rational;
use crate::rational::lemma_view_determines;
use crate::gcd::gcd;
use crate::fraction::magnitude;
use crate::fraction::ratio;
use crate::fraction::reduce;
use crate::fraction::whole;
use crate::fraction::lemma_reduce_lowest_terms;
use crate::fraction::lemma_reduce_same_value;
use crate::fraction::lemma_reduce_idempotent;
use crate::fraction::lemma_lowest_terms_unique;
use crate::fraction::lemma_plus_commutative;
use crate::fraction::lemma_times_commutative;
use crate::fraction::lemma_minus_swapped;
use crate::fraction::lemma_reduce_opposite;
use crate::fraction::lemma_reduce_decides_value;

verus! {

/// Whatever the numerator and the nonzero denominator, the normal form has a
/// positive denominator that shares no divisor but 1 with the numerator, and
/// stands for the same number.
pub proof fn lemma_normal_form(n: int, d: int)
    requires
        d != 0,
    ensures
        reduce(n, d).den > 0,
        gcd(magnitude(reduce(n, d).num), reduce(n, d).den as nat) == 1,
        reduce(n, d).in_lowest_terms(),
        reduce(n, d).same_value(ratio(n, d)),
{
    lemma_reduce_lowest_terms(n, d);
    lemma_reduce_same_value(n, d);
}

/// Changing the sign of both parts changes nothing, and a sign on the
/// denominator is the same as one on the numerator.
pub proof fn lemma_sign_canonical(n: int, d: int)
    requires
        d != 0,
    ensures
        reduce(-n, -d) == reduce(n, d),
        reduce(n, -d) == reduce(-n, d),
{
}

/// Normalizing the parts of a value that is already in lowest terms gives
/// the value back: here `r` is what `Rational::new` returns on the parts of
/// `a`.
pub proof fn lemma_new_idempotent(a: Rational, r: Rational)
    requires
        a.wf(),
        r@ == reduce(a@.num, a@.den),
    ensures
        r == a,
{
    lemma_reduce_idempotent(a@);
    lemma_view_determines(r, a);
}

/// Two fractions are normalized to equal values exactly where they stand
/// for the same number: here `r` and `s` are what `Rational::new` returns on
/// `n/d` and on `m/e`.
pub proof fn lemma_new_decides_value(n: i32, d: i32, m: i32, e: i32, r: Rational, s: Rational)
    requires
        d != 0,
        e != 0,
        r@ == reduce(n as int, d as int),
        s@ == reduce(m as int, e as int),
    ensures
        r == s <==> n * e == m * d,
{
    lemma_reduce_decides_value(n as int, d as int, m as int, e as int);
    lemma_view_determines(r, s);
}

/// Two values are equal exactly where they stand for the same number.
pub proof fn lemma_equal_iff_same_value(a: Rational, b: Rational)
    requires
        a.wf(),
        b.wf(),
    ensures
        a == b <==> a@.same_value(b@),
{
    lemma_view_determines(a, b);
    if a@.same_value(b@) {
        lemma_lowest_terms_unique(a@, b@);
    }
}

/// `a + b == b + a`, and one order is free of overflow where the other is.
pub proof fn lemma_add_commutative(a: Rational, b: Rational)
    ensures
        a.add_req(b) == b.add_req(a),
        a.add_spec(b) == b.add_spec(a),
        a@.plus(b@).reduced() == b@.plus(a@).reduced(),
{
    lemma_plus_commutative(a@, b@);
    assert(a@.num * b@.den == b@.den * a@.num) by (nonlinear_arith);
    assert(a@.den * b@.num == b@.num * a@.den) by (nonlinear_arith);
}

/// `a * b == b * a`, and one order is free of overflow where the other is.
pub proof fn lemma_mul_commutative(a: Rational, b: Rational)
    ensures
        a.mul_req(b) == b.mul_req(a),
        a.mul_spec(b) == b.mul_spec(a),
        a@.times(b@).reduced() == b@.times(a@).reduced(),
{
    lemma_times_commutative(a@, b@);
}

/// `a + k == k + a` for an integer `k`, and both are the sum of `a` and
/// `k/1`.
pub proof fn lemma_add_integer_commutative(a: Rational, k: i32)
    ensures
        a.add_req(k) == k.add_req(a),
        a.add_spec(k) == k.add_spec(a),
        whole(k as int).plus(a@).reduced() == a@.plus(whole(k as int)).reduced(),
{
    lemma_plus_commutative(a@, whole(k as int));
    assert(a@.den * k == k * a@.den) by (nonlinear_arith);
}

/// `a * k == k * a` for an integer `k`.
pub proof fn lemma_mul_integer_commutative(a: Rational, k: i32)
    ensures
        a.mul_req(k) == k.mul_req(a),
        a.mul_spec(k) == k.mul_spec(a),
        whole(k as int).times(a@).reduced() == a@.times(whole(k as int)).reduced(),
{
    lemma_times_commutative(a@, whole(k as int));
}

/// Subtraction is not commutative: `k - a` is the opposite of `a - k`, for
/// an integer `k`, before reduction and after it.
pub proof fn lemma_sub_integer_swapped(a: Rational, k: i32)
    requires
        a.wf(),
    ensures
        whole(k as int).minus(a@) == a@.minus(whole(k as int)).opposite(),
        whole(k as int).minus(a@).reduced() == a@.minus(whole(k as int)).reduced().opposite(),
{
    lemma_minus_swapped(a@, whole(k as int));
    let f = a@.minus(whole(k as int));
    lemma_reduce_opposite(f.num, f.den);
}

/// `b - a` is the opposite of `a - b`, before reduction and after it.
pub proof fn lemma_sub_swapped(a: Rational, b: Rational)
    requires
        a.wf(),
        b.wf(),
    ensures
        b@.minus(a@) == a@.minus(b@).opposite(),
        b@.minus(a@).reduced() == a@.minus(b@).reduced().opposite(),
{
    lemma_minus_swapped(a@, b@);
    let f = a@.minus(b@);
    assert(f.den > 0) by (nonlinear_arith)
        requires
            f.den == a@.den * b@.den,
            a@.den > 0,
            b@.den > 0,
    ;
    lemma_reduce_opposite(f.num, f.den);
}

} // verus!
