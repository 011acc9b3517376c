//! The LaTeX math form of an annotated expression: every operand is wrapped
//! in braces, a division becomes `\frac`, and the rounding annotations
//! become arrow commands. Document assembly around this form is the
//! caller's.

use vstd::prelude::*;
use vstd::string::StringExecFns;

use crate::ast::i32_to_string;
use crate::ast::spec_int_str;
use crate::ast::Expr;
use crate::ast::Opcode;
use crate::ast::Rounding;

verus! {

/// The LaTeX form of a rounding annotation.
pub open spec fn spec_latex_rounding(r: Rounding) -> Seq<char> {
    match r {
        Rounding::Init => ""@,
        Rounding::Up => "\\uparrow"@,
        Rounding::Down => "\\downarrow"@,
        Rounding::Unknown => "updownarrow"@,
    }
}

/// The LaTeX math form of an expression.
pub open spec fn spec_latex(e: Expr) -> Seq<char>
    decreases e,
{
    match e {
        Expr::Number(n) => spec_int_str(n as int),
        Expr::Id(s) => s@,
        Expr::Negative(x) => "-"@ + spec_latex(*x),
        Expr::Op(l, op, r) => match op {
            Opcode::Div(rd) => "(\\frac{"@ + spec_latex(*l) + "}{"@ + spec_latex(*r) + "}{"@
                + spec_latex_rounding(rd) + "})"@,
            Opcode::Mul(rd) => "({"@ + spec_latex(*l) + "} *_"@ + spec_latex_rounding(rd) + " {"@
                + spec_latex(*r) + "})"@,
            Opcode::Add => "({"@ + spec_latex(*l) + "} + {"@ + spec_latex(*r) + "})"@,
            Opcode::Sub => "({"@ + spec_latex(*l) + "} - {"@ + spec_latex(*r) + "})"@,
            Opcode::Pow => "({"@ + spec_latex(*l) + "} ^ {"@ + spec_latex(*r) + "})"@,
        },
        Expr::Error => Seq::<char>::empty(),
    }
}

fn latex_rounding_str(r: &Rounding) -> (s: &'static str)
    ensures
        s@ == spec_latex_rounding(*r),
{
    match r {
        Rounding::Init => "",
        Rounding::Up => "\\uparrow",
        Rounding::Down => "\\downarrow",
        Rounding::Unknown => "updownarrow",
    }
}

/// The LaTeX math form of `expr` (see `spec_latex`).
pub fn visit(expr: &Expr) -> (r: String)
    ensures
        r@ == spec_latex(*expr),
    decreases *expr,
{
    match expr {
        Expr::Number(n) => i32_to_string(*n),
        Expr::Id(s) => s.clone(),
        Expr::Negative(x) => {
            let mut s = "-".to_owned();
            let inner = visit(x);
            s.append(inner.as_str());
            s
        },
        Expr::Op(l, op, r2) => {
            let left_str = visit(l);
            let right_str = visit(r2);
            match op {
                Opcode::Div(rd) => {
                    let mut s = "(\\frac{".to_owned();
                    s.append(left_str.as_str());
                    s.append("}{");
                    s.append(right_str.as_str());
                    s.append("}{");
                    s.append(latex_rounding_str(rd));
                    s.append("})");
                    s
                },
                Opcode::Mul(rd) => {
                    let mut s = "({".to_owned();
                    s.append(left_str.as_str());
                    s.append("} *_");
                    s.append(latex_rounding_str(rd));
                    s.append(" {");
                    s.append(right_str.as_str());
                    s.append("})");
                    s
                },
                Opcode::Add => {
                    let mut s = "({".to_owned();
                    s.append(left_str.as_str());
                    s.append("} + {");
                    s.append(right_str.as_str());
                    s.append("})");
                    s
                },
                Opcode::Sub => {
                    let mut s = "({".to_owned();
                    s.append(left_str.as_str());
                    s.append("} - {");
                    s.append(right_str.as_str());
                    s.append("})");
                    s
                },
                Opcode::Pow => {
                    let mut s = "({".to_owned();
                    s.append(left_str.as_str());
                    s.append("} ^ {");
                    s.append(right_str.as_str());
                    s.append("})");
                    s
                },
            }
        },
        Expr::Error => String::new(),
    }
}

} // verus!
