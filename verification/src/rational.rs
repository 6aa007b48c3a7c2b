//! Exact fractions over `i32`, always held in lowest terms.

use vstd::prelude::*;
use vstd::string::StringExecFns;
use crate::gcd::gcd;
use crate::decimal::decimal;
use crate::decimal::append_decimal;
use crate::fraction::lemma_reduce_exact;
use crate::fraction::lemma_reduce_lowest_terms;
use crate::fraction::lemma_reduce_same_value;
use crate::fraction::Fraction;
use crate::fraction::magnitude;
use crate::fraction::ratio;
use crate::fraction::reduce;
use crate::fraction::whole;
use crate::fraction::lemma_reduce_idempotent;

verus! {

/// An exact fraction. The denominator is positive and the two parts share no
/// divisor but 1, so two values are equal exactly where they stand for the
/// same number.
#[derive(Debug, Clone, Copy, PartialEq, Eq, Structural)]
pub struct Rational {
    n: i32,
    d: i32,
}

impl View for Rational {
    type V = Fraction;

    closed spec fn view(&self) -> Fraction {
        Fraction { num: self.n as int, den: self.d as int }
    }
}

/// A fraction as text: the numerator, a slash, the denominator.
pub open spec fn rendered(f: Fraction) -> Seq<char> {
    decimal(f.num) + seq!['/'] + decimal(f.den)
}

/// `x` is the value of some `i32`.
pub open spec fn fits(x: int) -> bool {
    i32::MIN <= x <= i32::MAX
}

/// `x` and `-x` are both values of some `i32`.
pub open spec fn fits_negated(x: int) -> bool {
    i32::MIN < x <= i32::MAX
}

/// The magnitude of `x`, which fits for every value but `i32::MIN`.
fn magnitude_of(x: i32) -> (m: i32)
    requires
        x != i32::MIN,
    ensures
        m == magnitude(x as int),
{
    if x < 0 {
        -x
    } else {
        x
    }
}

impl Rational {
    /// What holds of every value: it is in lowest terms, and the magnitude
    /// of its numerator fits in an `i32`.
    #[verifier::type_invariant]
    pub open spec fn wf(self) -> bool {
        self@.in_lowest_terms() && fits_negated(self@.num) && fits(self@.den)
    }

    /// The value whose parts are those of `f`, where they fit.
    pub closed spec fn of(f: Fraction) -> Rational {
        Rational { n: f.num as i32, d: f.den as i32 }
    }

    /// The greatest common divisor of two nonnegative numbers, by Euclid's
    /// recursion.
    pub fn gcd(a: i32, b: i32) -> (g: i32)
        requires
            a >= 0,
            b >= 0,
        ensures
            g == gcd(a as nat, b as nat),
        decreases b,
    {
        if b == 0 {
            a
        } else {
            Rational::gcd(b, a % b)
        }
    }

    /// The numerator, which carries the sign.
    pub fn numerator(&self) -> (n: i32)
        ensures
            n == self@.num,
    {
        self.n
    }

    /// The denominator, which is positive.
    pub fn denominator(&self) -> (d: i32)
        ensures
            d == self@.den,
            d > 0,
    {
        proof {
            use_type_invariant(self);
        }
        self.d
    }

    /// The text `<n>/<d>`: numerator and denominator in base ten, as they
    /// are held.
    pub fn to_string(&self) -> (s: String)
        ensures
            s@ == rendered(self@),
    {
        let mut s = String::new();
        append_decimal(&mut s, self.n);
        s.append("/");
        append_decimal(&mut s, self.d);
        proof {
            reveal_strlit("/");
            assert("/"@ =~= seq!['/']);
            assert(s@ =~= rendered(self@));
        }
        s
    }

    /// The fraction `n/d` in lowest terms. The denominator must not be zero,
    /// and neither part may be `i32::MIN`, whose magnitude does not fit.
    pub fn new(n: i32, d: i32) -> (r: Rational)
        requires
            d != 0,
            n != i32::MIN,
            d != i32::MIN,
        ensures
            r@ == reduce(n as int, d as int),
            r.wf(),
            r@.same_value(ratio(n as int, d as int)),
    {
        let sn: i32 = if d < 0 { -n } else { n };
        let sd: i32 = magnitude_of(d);
        let g: i32 = Rational::gcd(magnitude_of(sn), sd);
        proof {
            lemma_reduce_exact(n as int, d as int);
            lemma_reduce_lowest_terms(n as int, d as int);
            lemma_reduce_same_value(n as int, d as int);
        }
        let num: i32 = sn / g;
        let den: i32 = sd / g;
        assert(num == reduce(n as int, d as int).num);
        assert(den == reduce(n as int, d as int).den);
        Rational { n: num, d: den }
    }
}

impl core::ops::Add for Rational {
    type Output = Rational;

    /// The sum `(a/b) + (c/d) = (a*d + b*c)/(b*d)`, in lowest terms.
    fn add(self, rhs: Rational) -> (r: Rational)
        ensures
            r@ == self@.plus(rhs@).reduced(),
            r@.same_value(self@.plus(rhs@)),
            r.wf(),
    {
        proof {
            use_type_invariant(self);
            use_type_invariant(rhs);
            lemma_positive_product(self.d as int, rhs.d as int);
        }
        Rational::new(self.n * rhs.d + self.d * rhs.n, self.d * rhs.d)
    }
}

impl vstd::std_specs::ops::AddSpecImpl for Rational {
    /// The operator does what the two functions below say.
    open spec fn obeys_add_spec() -> bool {
        true
    }

    /// Holds where no product, and neither part handed on for reduction,
    /// leaves the range of `i32`, and the magnitude of the new numerator fits.
    open spec fn add_req(self, rhs: Rational) -> bool {
        &&& fits(self@.num * rhs@.den)
        &&& fits(self@.den * rhs@.num)
        &&& fits_negated(self@.plus(rhs@).num)
        &&& fits(self@.plus(rhs@).den)
    }

    /// The sum, in lowest terms, as a value.
    open spec fn add_spec(self, rhs: Rational) -> Rational {
        Rational::of(self@.plus(rhs@).reduced())
    }
}

impl core::ops::Add<i32> for Rational {
    type Output = Rational;

    /// The sum with the integer `rhs`, taken as `rhs/1`.
    fn add(self, rhs: i32) -> (r: Rational)
        ensures
            r@ == self@.plus(whole(rhs as int)).reduced(),
            r@.same_value(self@.plus(whole(rhs as int))),
            r.wf(),
    {
        proof {
            use_type_invariant(self);
        }
        Rational::new(self.d * rhs + self.n, self.d)
    }
}

impl vstd::std_specs::ops::AddSpecImpl<i32> for Rational {
    /// The operator does what the two functions below say.
    open spec fn obeys_add_spec() -> bool {
        true
    }

    /// Holds where no product, and neither part handed on for reduction,
    /// leaves the range of `i32`, and the magnitude of the new numerator fits.
    open spec fn add_req(self, rhs: i32) -> bool {
        &&& fits(self@.den * rhs)
        &&& fits_negated(self@.plus(whole(rhs as int)).num)
    }

    /// The sum, in lowest terms, as a value.
    open spec fn add_spec(self, rhs: i32) -> Rational {
        Rational::of(self@.plus(whole(rhs as int)).reduced())
    }
}

impl core::ops::Add<Rational> for i32 {
    type Output = Rational;

    /// The sum of the integer `self`, taken as `self/1`, and `rhs`.
    fn add(self, rhs: Rational) -> (r: Rational)
        ensures
            r@ == whole(self as int).plus(rhs@).reduced(),
            r@.same_value(whole(self as int).plus(rhs@)),
            r.wf(),
    {
        proof {
            lemma_commute(self as int, rhs@.den);
        }
        rhs + self
    }
}

impl vstd::std_specs::ops::AddSpecImpl<Rational> for i32 {
    /// The operator does what the two functions below say.
    open spec fn obeys_add_spec() -> bool {
        true
    }

    /// Holds where no product, and neither part handed on for reduction,
    /// leaves the range of `i32`, and the magnitude of the new numerator fits.
    open spec fn add_req(self, rhs: Rational) -> bool {
        &&& fits(self * rhs@.den)
        &&& fits_negated(whole(self as int).plus(rhs@).num)
    }

    /// The sum, in lowest terms, as a value.
    open spec fn add_spec(self, rhs: Rational) -> Rational {
        Rational::of(whole(self as int).plus(rhs@).reduced())
    }
}

impl core::ops::Sub for Rational {
    type Output = Rational;

    /// The difference `(a/b) - (c/d) = (a*d - b*c)/(b*d)`, in lowest terms.
    fn sub(self, rhs: Rational) -> (r: Rational)
        ensures
            r@ == self@.minus(rhs@).reduced(),
            r@.same_value(self@.minus(rhs@)),
            r.wf(),
    {
        proof {
            use_type_invariant(self);
            use_type_invariant(rhs);
            lemma_positive_product(self.d as int, rhs.d as int);
        }
        Rational::new(self.n * rhs.d - self.d * rhs.n, self.d * rhs.d)
    }
}

impl vstd::std_specs::ops::SubSpecImpl for Rational {
    /// The operator does what the two functions below say.
    open spec fn obeys_sub_spec() -> bool {
        true
    }

    /// Holds where no product, and neither part handed on for reduction,
    /// leaves the range of `i32`, and the magnitude of the new numerator fits.
    open spec fn sub_req(self, rhs: Rational) -> bool {
        &&& fits(self@.num * rhs@.den)
        &&& fits(self@.den * rhs@.num)
        &&& fits_negated(self@.minus(rhs@).num)
        &&& fits(self@.minus(rhs@).den)
    }

    /// The difference, in lowest terms, as a value.
    open spec fn sub_spec(self, rhs: Rational) -> Rational {
        Rational::of(self@.minus(rhs@).reduced())
    }
}

impl core::ops::Sub<i32> for Rational {
    type Output = Rational;

    /// The difference with the integer `rhs`, taken as `rhs/1`.
    fn sub(self, rhs: i32) -> (r: Rational)
        ensures
            r@ == self@.minus(whole(rhs as int)).reduced(),
            r@.same_value(self@.minus(whole(rhs as int))),
            r.wf(),
    {
        proof {
            use_type_invariant(self);
        }
        Rational::new(self.n - self.d * rhs, self.d)
    }
}

impl vstd::std_specs::ops::SubSpecImpl<i32> for Rational {
    /// The operator does what the two functions below say.
    open spec fn obeys_sub_spec() -> bool {
        true
    }

    /// Holds where no product, and neither part handed on for reduction,
    /// leaves the range of `i32`, and the magnitude of the new numerator fits.
    open spec fn sub_req(self, rhs: i32) -> bool {
        &&& fits(self@.den * rhs)
        &&& fits_negated(self@.minus(whole(rhs as int)).num)
    }

    /// The difference, in lowest terms, as a value.
    open spec fn sub_spec(self, rhs: i32) -> Rational {
        Rational::of(self@.minus(whole(rhs as int)).reduced())
    }
}

impl core::ops::Sub<Rational> for i32 {
    type Output = Rational;

    /// The difference of the integer `self`, taken as `self/1`, and `rhs`.
    fn sub(self, rhs: Rational) -> (r: Rational)
        ensures
            r@ == whole(self as int).minus(rhs@).reduced(),
            r@.same_value(whole(self as int).minus(rhs@)),
            r.wf(),
    {
        proof {
            use_type_invariant(rhs);
            lemma_commute(self as int, rhs@.den);
        }
        Rational::new(rhs.d * self - rhs.n, rhs.d)
    }
}

impl vstd::std_specs::ops::SubSpecImpl<Rational> for i32 {
    /// The operator does what the two functions below say.
    open spec fn obeys_sub_spec() -> bool {
        true
    }

    /// Holds where no product, and neither part handed on for reduction,
    /// leaves the range of `i32`, and the magnitude of the new numerator fits.
    open spec fn sub_req(self, rhs: Rational) -> bool {
        &&& fits(self * rhs@.den)
        &&& fits_negated(whole(self as int).minus(rhs@).num)
    }

    /// The difference, in lowest terms, as a value.
    open spec fn sub_spec(self, rhs: Rational) -> Rational {
        Rational::of(whole(self as int).minus(rhs@).reduced())
    }
}

impl core::ops::Mul for Rational {
    type Output = Rational;

    /// The product `(a/b) * (c/d) = (a*c)/(b*d)`, in lowest terms.
    fn mul(self, rhs: Rational) -> (r: Rational)
        ensures
            r@ == self@.times(rhs@).reduced(),
            r@.same_value(self@.times(rhs@)),
            r.wf(),
    {
        proof {
            use_type_invariant(self);
            use_type_invariant(rhs);
            lemma_positive_product(self.d as int, rhs.d as int);
        }
        Rational::new(self.n * rhs.n, self.d * rhs.d)
    }
}

impl vstd::std_specs::ops::MulSpecImpl for Rational {
    /// The operator does what the two functions below say.
    open spec fn obeys_mul_spec() -> bool {
        true
    }

    /// Holds where no product, and neither part handed on for reduction,
    /// leaves the range of `i32`, and the magnitude of the new numerator fits.
    open spec fn mul_req(self, rhs: Rational) -> bool {
        &&& fits_negated(self@.times(rhs@).num)
        &&& fits(self@.times(rhs@).den)
    }

    /// The product, in lowest terms, as a value.
    open spec fn mul_spec(self, rhs: Rational) -> Rational {
        Rational::of(self@.times(rhs@).reduced())
    }
}

impl core::ops::Mul<i32> for Rational {
    type Output = Rational;

    /// The product with the integer `rhs`, taken as `rhs/1`.
    fn mul(self, rhs: i32) -> (r: Rational)
        ensures
            r@ == self@.times(whole(rhs as int)).reduced(),
            r@.same_value(self@.times(whole(rhs as int))),
            r.wf(),
    {
        proof {
            use_type_invariant(self);
        }
        Rational::new(self.n * rhs, self.d)
    }
}

impl vstd::std_specs::ops::MulSpecImpl<i32> for Rational {
    /// The operator does what the two functions below say.
    open spec fn obeys_mul_spec() -> bool {
        true
    }

    /// Holds where no product, and neither part handed on for reduction,
    /// leaves the range of `i32`, and the magnitude of the new numerator fits.
    open spec fn mul_req(self, rhs: i32) -> bool {
        fits_negated(self@.times(whole(rhs as int)).num)
    }

    /// The product, in lowest terms, as a value.
    open spec fn mul_spec(self, rhs: i32) -> Rational {
        Rational::of(self@.times(whole(rhs as int)).reduced())
    }
}

impl core::ops::Mul<Rational> for i32 {
    type Output = Rational;

    /// The product of the integer `self`, taken as `self/1`, and `rhs`.
    fn mul(self, rhs: Rational) -> (r: Rational)
        ensures
            r@ == whole(self as int).times(rhs@).reduced(),
            r@.same_value(whole(self as int).times(rhs@)),
            r.wf(),
    {
        proof {
            lemma_commute(self as int, rhs@.num);
        }
        rhs * self
    }
}

impl vstd::std_specs::ops::MulSpecImpl<Rational> for i32 {
    /// The operator does what the two functions below say.
    open spec fn obeys_mul_spec() -> bool {
        true
    }

    /// Holds where no product, and neither part handed on for reduction,
    /// leaves the range of `i32`, and the magnitude of the new numerator fits.
    open spec fn mul_req(self, rhs: Rational) -> bool {
        fits_negated(whole(self as int).times(rhs@).num)
    }

    /// The product, in lowest terms, as a value.
    open spec fn mul_spec(self, rhs: Rational) -> Rational {
        Rational::of(whole(self as int).times(rhs@).reduced())
    }
}

impl core::ops::Neg for Rational {
    type Output = Rational;

    /// The opposite number: the numerator changes sign, and nothing is left
    /// to reduce.
    fn neg(self) -> (r: Rational)
        ensures
            r@ == self@.opposite(),
            r@ == self@.opposite().reduced(),
            r.wf(),
    {
        proof {
            use_type_invariant(self);
            lemma_reduce_idempotent(self@.opposite());
        }
        Rational::new(-self.n, self.d)
    }
}

impl vstd::std_specs::ops::NegSpecImpl for Rational {
    /// The operator does what the two functions below say.
    open spec fn obeys_neg_spec() -> bool {
        true
    }

    /// Every value can be negated.
    open spec fn neg_req(self) -> bool {
        true
    }

    /// The opposite number, as a value.
    open spec fn neg_spec(self) -> Rational {
        Rational::of(self@.opposite())
    }
}

/// Multiplication does not depend on the order of its factors.
proof fn lemma_commute(x: int, y: int)
    ensures
        x * y == y * x,
{
    assert(x * y == y * x) by (nonlinear_arith);
}

/// A value is known by its view: two values with the same parts are equal,
/// and `of` gives a value back from its view.
pub proof fn lemma_view_determines(a: Rational, b: Rational)
    ensures
        a@ == b@ <==> a == b,
        Rational::of(a@) == a,
{
}

/// The product of two positive numbers is positive.
proof fn lemma_positive_product(x: int, y: int)
    requires
        x > 0,
        y > 0,
    ensures
        x * y > 0,
{
    assert(x * y > 0) by (nonlinear_arith)
        requires
            x > 0,
            y > 0,
    ;
}

} // verus!
