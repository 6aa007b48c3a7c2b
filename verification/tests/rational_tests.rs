use rational::rational::Rational;

#[test]
fn new_test() {
    assert_eq!("1/3", Rational::new(1, 3).to_string());
    assert_eq!("1/3", Rational::new(6, 18).to_string());
    assert_eq!("1/3", Rational::new(-6, -18).to_string());
    assert_eq!("-1/3", Rational::new(6, -18).to_string());
    assert_eq!("-1/3", Rational::new(-6, 18).to_string());
}

#[test]
fn add_test() {
    let instance1 = Rational::new(1, 3);
    let instance2 = Rational::new(3, 2);
    let instance3 = Rational::new(4, 9);
    let res1 = instance1 + 1;
    let res2 = 1 + instance1;
    let res3 = instance1 + instance2;
    let res4 = instance1 + instance3;
    assert_eq!("4/3", res1.to_string());
    assert_eq!("4/3", res2.to_string());
    assert_eq!("11/6", res3.to_string());
    assert_eq!("7/9", res4.to_string());
}

#[test]
fn sub_test() {
    let instance1 = Rational::new(1, 3);
    let instance2 = Rational::new(3, 2);
    let instance3 = Rational::new(4, 9);
    let res1 = instance1 - 1;
    let res2 = 1 - instance1;
    let res3 = instance1 - instance2;
    let res4 = instance1 - instance3;
    assert_eq!("-2/3", res1.to_string());
    assert_eq!("2/3", res2.to_string());
    assert_eq!("-7/6", res3.to_string());
    assert_eq!("-1/9", res4.to_string());
}

#[test]
fn mul_test() {
    let instance1 = Rational::new(1, 3);
    let instance2 = Rational::new(3, 2);
    let instance3 = Rational::new(4, 9);
    let res1 = instance1 * 2;
    let res2 = 2 * instance1;
    let res3 = instance1 * instance2;
    let res4 = instance1 * instance3;
    assert_eq!("2/3", res1.to_string());
    assert_eq!("2/3", res2.to_string());
    assert_eq!("1/2", res3.to_string());
    assert_eq!("4/27", res4.to_string());
}

#[test]
fn neg_test() {
    let instance1 = Rational::new(1, 3);
    let instance2 = Rational::new(1, -3);
    let res1 = -instance1;
    let res2 = -instance2;
    assert_eq!("-1/3", res1.to_string());
    assert_eq!("1/3", res2.to_string());
}

#[test]
fn gcd_follows_euclid() {
    assert_eq!(Rational::gcd(12, 18), 6);
    assert_eq!(Rational::gcd(18, 12), 6);
    assert_eq!(Rational::gcd(7, 0), 7);
    assert_eq!(Rational::gcd(0, 7), 7);
    assert_eq!(Rational::gcd(0, 0), 0);
    assert_eq!(Rational::gcd(17, 5), 1);
    assert_eq!(Rational::gcd(2147483647, 2147483647), 2147483647);
}

#[test]
fn new_gives_lowest_terms_with_positive_denominator() {
    let pairs: [(i32, i32); 8] = [
        (6, 18),
        (-6, 18),
        (6, -18),
        (-6, -18),
        (0, -5),
        (2147483647, -2147483647),
        (-2147483647, 2),
        (1000000, 250),
    ];
    for (n, d) in pairs {
        let r = Rational::new(n, d);
        assert!(r.denominator() > 0);
        assert_eq!(Rational::gcd(r.numerator().abs(), r.denominator()), 1);
        assert_eq!(
            (r.numerator() as i64) * (d as i64),
            (n as i64) * (r.denominator() as i64)
        );
    }
}

#[test]
fn new_exact_parts() {
    let r = Rational::new(1000000, 250);
    assert_eq!((r.numerator(), r.denominator()), (4000, 1));
    let z = Rational::new(0, -5);
    assert_eq!((z.numerator(), z.denominator()), (0, 1));
    let m = Rational::new(2147483647, -2147483647);
    assert_eq!((m.numerator(), m.denominator()), (-1, 1));
    let p = Rational::new(-2147483647, 2);
    assert_eq!((p.numerator(), p.denominator()), (-2147483647, 2));
}

#[test]
fn sign_is_canonical() {
    assert_eq!(Rational::new(6, 18), Rational::new(-6, -18));
    assert_eq!(Rational::new(6, -18), Rational::new(-6, 18));
    assert_ne!(Rational::new(6, 18), Rational::new(6, -18));
    assert_eq!(Rational::new(6, 18).to_string(), "1/3");
    assert_eq!(Rational::new(-6, -18).to_string(), "1/3");
    assert_eq!(Rational::new(6, -18).to_string(), "-1/3");
    assert_eq!(Rational::new(-6, 18).to_string(), "-1/3");
}

#[test]
fn equal_values_are_equal() {
    assert_eq!(Rational::new(2, 4), Rational::new(1, 2));
    assert_eq!(Rational::new(0, 3), Rational::new(0, -7));
    assert_ne!(Rational::new(1, 2), Rational::new(1, 3));
    assert_eq!(Rational::new(3, -9), Rational::new(-1, 3));
    assert_eq!(Rational::new(46341, 92682), Rational::new(-5, -10));
    assert_ne!(Rational::new(46341, 92682), Rational::new(46340, 92682));
}

#[test]
fn arithmetic_examples() {
    assert_eq!((Rational::new(1, 3) + Rational::new(3, 2)).to_string(), "11/6");
    assert_eq!((Rational::new(1, 3) - 1).to_string(), "-2/3");
    assert_eq!((2 * Rational::new(1, 3)).to_string(), "2/3");
    assert_eq!((-Rational::new(1, -3)).to_string(), "1/3");
}

#[test]
fn addition_and_multiplication_commute() {
    let values = [
        Rational::new(1, 3),
        Rational::new(-3, 2),
        Rational::new(4, 9),
        Rational::new(0, 1),
        Rational::new(-7, 5),
    ];
    for a in values {
        for b in values {
            assert_eq!(a + b, b + a);
            assert_eq!(a * b, b * a);
        }
        for k in [-3, 0, 1, 12] {
            assert_eq!(a + k, k + a);
            assert_eq!(a * k, k * a);
        }
    }
}

#[test]
fn subtraction_does_not_commute() {
    let r = Rational::new(1, 3);
    assert_eq!((1 - r).to_string(), "2/3");
    assert_eq!((r - 1).to_string(), "-2/3");
    assert_ne!(1 - r, r - 1);
    assert_eq!(1 - r, -(r - 1));
    let s = Rational::new(3, 2);
    assert_eq!(s - r, -(r - s));
    assert_eq!((s - r).to_string(), "7/6");
}

#[test]
fn integer_is_a_fraction_over_one() {
    let r = Rational::new(5, 6);
    for k in [-4, 0, 3] {
        let w = Rational::new(k, 1);
        assert_eq!(r + k, r + w);
        assert_eq!(k + r, w + r);
        assert_eq!(r - k, r - w);
        assert_eq!(k - r, w - r);
        assert_eq!(r * k, r * w);
        assert_eq!(k * r, w * r);
    }
}

#[test]
fn renormalizing_changes_nothing() {
    for (n, d) in [(6, 18), (-6, 18), (0, 9), (7, -1), (2147483647, 3)] {
        let r = Rational::new(n, d);
        assert_eq!(Rational::new(r.numerator(), r.denominator()), r);
    }
}

#[test]
fn negation_keeps_the_denominator() {
    let r = -Rational::new(3, 7);
    assert_eq!((r.numerator(), r.denominator()), (-3, 7));
    let z = -Rational::new(0, 7);
    assert_eq!((z.numerator(), z.denominator()), (0, 1));
    assert_eq!(-(-Rational::new(3, 7)), Rational::new(3, 7));
}

#[test]
fn results_are_reduced() {
    assert_eq!((Rational::new(1, 6) + Rational::new(1, 3)).to_string(), "1/2");
    assert_eq!((Rational::new(1, 2) - Rational::new(1, 2)).to_string(), "0/1");
    assert_eq!((Rational::new(2, 3) * Rational::new(3, 2)).to_string(), "1/1");
    assert_eq!((Rational::new(1, 4) * 4).to_string(), "1/1");
    assert_eq!((Rational::new(1, 4) * 0).to_string(), "0/1");
}

#[test]
fn renders_many_digits() {
    assert_eq!(Rational::new(123, -4567).to_string(), "-123/4567");
    assert_eq!(Rational::new(2147483647, 1000000007).to_string(), "2147483647/1000000007");
    assert_eq!(Rational::new(-100, 1).to_string(), "-100/1");
    assert_eq!(Rational::new(0, 10).to_string(), "0/1");
}
