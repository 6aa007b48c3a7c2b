use rational::expression::BinOp;
use rational::expression::BinaryExpr;
use rational::expression::Expr;
use rational::expression::UnaryExpr;
use rational::expression::UnaryOp;
use rational::expression::Value;
use std::rc::Rc;

#[test]
fn literal_holds_its_constant() {
    assert_eq!(Value::new(1).val, 1);
    assert_eq!(Value::new(-2147483648).val, -2147483648);
}

#[test]
fn unary_node_holds_its_child() {
    let child = Rc::new(Expr::Literal(Value::new(1)));
    let e = UnaryExpr::new(UnaryOp::Neg, child.clone());
    assert!(matches!(e.op, UnaryOp::Neg));
    assert!(Rc::ptr_eq(&e.value, &child));
}

#[test]
fn binary_node_keeps_left_and_right_apart() {
    let one = Rc::new(Expr::Literal(Value::new(1)));
    let four = Rc::new(Expr::Literal(Value::new(4)));
    let e = BinaryExpr::new(BinOp::Div, one.clone(), four.clone());
    assert!(matches!(e.op, BinOp::Div));
    assert!(Rc::ptr_eq(&e.left, &one));
    assert!(Rc::ptr_eq(&e.right, &four));
    assert!(matches!(*e.left, Expr::Literal(Value { val: 1 })));
    assert!(matches!(*e.right, Expr::Literal(Value { val: 4 })));
}

#[test]
fn one_child_under_two_parents() {
    let shared = Rc::new(Expr::Literal(Value::new(3)));
    let neg = Rc::new(Expr::Unary(UnaryExpr::new(UnaryOp::Neg, shared.clone())));
    let sum = BinaryExpr::new(BinOp::Add, shared.clone(), neg.clone());
    assert_eq!(Rc::strong_count(&shared), 3);
    assert!(Rc::ptr_eq(&sum.left, &shared));
    match &*sum.right {
        Expr::Unary(u) => assert!(Rc::ptr_eq(&u.value, &shared)),
        _ => panic!("the right child is the negation"),
    }
}
