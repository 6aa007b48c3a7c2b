use rational::decimal::append_decimal;

fn written(i: i32) -> String {
    let mut s = String::new();
    append_decimal(&mut s, i);
    s
}

#[test]
fn decimal_of_small_numbers() {
    assert_eq!(written(0), "0");
    assert_eq!(written(7), "7");
    assert_eq!(written(-7), "-7");
    assert_eq!(written(10), "10");
    assert_eq!(written(-10), "-10");
    assert_eq!(written(1234567890), "1234567890");
}

#[test]
fn decimal_of_the_extremes() {
    assert_eq!(written(i32::MAX), "2147483647");
    assert_eq!(written(i32::MIN), "-2147483648");
}

#[test]
fn decimal_agrees_with_std() {
    for i in [-1000001, -99, -1, 0, 1, 9, 10, 11, 99, 100, 101, 65536, 999999999] {
        assert_eq!(written(i), format!("{}", i));
    }
}

#[test]
fn decimal_appends_after_what_is_there() {
    let mut s = String::new();
    s.push_str("x=");
    append_decimal(&mut s, -42);
    append_decimal(&mut s, 7);
    assert_eq!(s, "x=-427");
}
