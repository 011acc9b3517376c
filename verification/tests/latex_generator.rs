//! LaTeX rendering of expressions.

use roundme::latex_generator;
use roundme::Expr;
use roundme::Opcode;
use roundme::Rounding;

#[test]
fn test_visit() {
    let expr = Expr::Op(
        Box::new(Expr::Id(String::from("a"))),
        Opcode::Add,
        Box::new(Expr::Number(3)),
    );
    let result = latex_generator::visit(&expr);
    assert_eq!(result, "({a} + {3})");
}

#[test]
fn test_latex_div_up() {
    let expr = Expr::Op(
        Box::new(Expr::Id(String::from("a"))),
        Opcode::Div(Rounding::Up),
        Box::new(Expr::Id(String::from("b"))),
    );
    let result = latex_generator::visit(&expr);
    assert_eq!(result, "(\\frac{a}{b}{\\uparrow})");
}

#[test]
fn test_latex_mul_down() {
    let expr = Expr::Op(
        Box::new(Expr::Id(String::from("a"))),
        Opcode::Mul(Rounding::Down),
        Box::new(Expr::Number(2)),
    );
    let result = latex_generator::visit(&expr);
    assert_eq!(result, "({a} *_\\downarrow {2})");
}

#[test]
fn test_latex_pow_and_sub() {
    let expr = Expr::Op(
        Box::new(Expr::Op(
            Box::new(Expr::Id(String::from("a"))),
            Opcode::Pow,
            Box::new(Expr::Id(String::from("b"))),
        )),
        Opcode::Sub,
        Box::new(Expr::Id(String::from("c"))),
    );
    let result = latex_generator::visit(&expr);
    assert_eq!(result, "({({a} ^ {b})} - {c})");
}
