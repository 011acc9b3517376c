//! Canonical text rendering of expressions and operators.

use roundme::bool_to_rounding;
use roundme::Expr;
use roundme::Opcode;
use roundme::Rounding;

#[test]
fn test_display_number() {
    let expr = Expr::Number(42);
    assert_eq!(expr.to_text(), "42");
}

#[test]
fn test_display_id() {
    let expr = Expr::Id("x".to_string());
    assert_eq!(expr.to_text(), "x");
}

#[test]
fn test_display_op() {
    let left = Expr::Number(1);
    let right = Expr::Number(2);
    let op = Opcode::Add;
    let expr = Expr::Op(Box::new(left), op, Box::new(right));
    assert_eq!(expr.to_text(), "(1 + 2)");
}

#[test]
fn test_display_error() {
    let expr = Expr::Error;
    assert_eq!(expr.to_text(), "error");
}

#[test]
fn test_display_opcode_mul_init() {
    let op = Opcode::Mul(Rounding::Init);
    assert_eq!(op.to_text(), "*");
}

#[test]
fn test_display_opcode_mul_up() {
    let op = Opcode::Mul(Rounding::Up);
    assert_eq!(op.to_text(), "*↑");
}

#[test]
fn test_display_opcode_mul_down() {
    let op = Opcode::Mul(Rounding::Down);
    assert_eq!(op.to_text(), "*↓");
}

#[test]
fn test_display_opcode_mul_unknown() {
    let op = Opcode::Mul(Rounding::Unknown);
    assert_eq!(op.to_text(), "*↕");
}

#[test]
fn test_display_opcode_div_init() {
    let op = Opcode::Div(Rounding::Init);
    assert_eq!(op.to_text(), "/");
}

#[test]
fn test_display_opcode_div_up() {
    let op = Opcode::Div(Rounding::Up);
    assert_eq!(op.to_text(), "/↑");
}

#[test]
fn test_display_opcode_div_down() {
    let op = Opcode::Div(Rounding::Down);
    assert_eq!(op.to_text(), "/↓");
}

#[test]
fn test_display_opcode_div_unknown() {
    let op = Opcode::Div(Rounding::Unknown);
    assert_eq!(op.to_text(), "/↕");
}

#[test]
fn test_bool_to_rounding() {
    assert_eq!(bool_to_rounding(true), Rounding::Up);
    assert_eq!(bool_to_rounding(false), Rounding::Down);
}

#[test]
fn test_display_opcode() {
    let rounding = Rounding::Up;
    let opcode = Opcode::Mul(rounding);
    assert_eq!(opcode.to_text(), "*↑");

    let rounding = Rounding::Down;
    let opcode = Opcode::Div(rounding);
    assert_eq!(opcode.to_text(), "/↓");

    let opcode = Opcode::Add;
    assert_eq!(opcode.to_text(), "+");

    let opcode = Opcode::Sub;
    assert_eq!(opcode.to_text(), "-");

    let opcode = Opcode::Pow;
    assert_eq!(opcode.to_text(), "**");
}
