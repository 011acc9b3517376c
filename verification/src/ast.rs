//! The expression tree: parsed formulas together with the per-operator
//! rounding annotation, and their canonical text rendering.

use vstd::prelude::*;
use vstd::string::StringExecFns;

verus! {

/// The rounding directions an operator can be annotated with.
#[derive(Clone, Copy, Debug, PartialEq, Eq, Structural)]
pub enum Rounding {
    /// Not yet annotated.
    Init,
    /// Round up (toward positive infinity).
    Up,
    /// Round down (toward zero / negative infinity).
    Down,
    /// Reserved display-only value; the analysis never assigns it.
    Unknown,
}

/// A binary operator. Only `Mul` and `Div` round, so only they carry a
/// rounding annotation.
#[derive(Debug)]
pub enum Opcode {
    Mul(Rounding),
    Div(Rounding),
    Add,
    Sub,
    Pow,
}

/// An expression tree.
#[derive(Debug)]
pub enum Expr {
    /// A numeric literal.
    Number(i32),
    /// An identifier.
    Id(String),
    /// Unary negation of the operand.
    Negative(Box<Expr>),
    /// An operation with two operands.
    Op(Box<Expr>, Opcode, Box<Expr>),
    /// An error expression (a malformed sub-tree).
    Error,
}

/// Converts a rounding flag (`true` = up, `false` = down) to the
/// corresponding annotation.
pub fn bool_to_rounding(flag: bool) -> (r: Rounding)
    ensures
        r == spec_bool_to_rounding(flag),
{
    if flag {
        Rounding::Up
    } else {
        Rounding::Down
    }
}

pub open spec fn spec_bool_to_rounding(flag: bool) -> Rounding {
    if flag {
        Rounding::Up
    } else {
        Rounding::Down
    }
}

/// The mathematical model of an expression: the same tree with identifiers
/// as character sequences and numbers as unbounded integers. Contracts about
/// parsing speak of this model, since a specification cannot conjure the
/// `String` values that the tree itself holds.
pub enum ExprModel {
    Number(int),
    Id(Seq<char>),
    Negative(Box<ExprModel>),
    Op(Box<ExprModel>, Opcode, Box<ExprModel>),
    Error,
}

/// The model of an expression.
pub open spec fn expr_model(e: Expr) -> ExprModel
    decreases e,
{
    match e {
        Expr::Number(n) => ExprModel::Number(n as int),
        Expr::Id(s) => ExprModel::Id(s@),
        Expr::Negative(x) => ExprModel::Negative(Box::new(expr_model(*x))),
        Expr::Op(l, op, r) => ExprModel::Op(
            Box::new(expr_model(*l)),
            op,
            Box::new(expr_model(*r)),
        ),
        Expr::Error => ExprModel::Error,
    }
}

/// The decimal digit character for `d` (which must be below ten).
pub open spec fn spec_digit_char(d: nat) -> char {
    if d == 0 {
        '0'
    } else if d == 1 {
        '1'
    } else if d == 2 {
        '2'
    } else if d == 3 {
        '3'
    } else if d == 4 {
        '4'
    } else if d == 5 {
        '5'
    } else if d == 6 {
        '6'
    } else if d == 7 {
        '7'
    } else if d == 8 {
        '8'
    } else {
        '9'
    }
}

/// The decimal rendering of a non-negative integer.
pub open spec fn spec_udec(n: nat) -> Seq<char>
    decreases n,
{
    if n < 10 {
        seq![spec_digit_char(n)]
    } else {
        spec_udec(n / 10).push(spec_digit_char(n % 10))
    }
}

/// The decimal rendering of an integer, with a leading minus sign when it is
/// negative.
pub open spec fn spec_int_str(n: int) -> Seq<char> {
    if n < 0 {
        seq!['-'] + spec_udec((-n) as nat)
    } else {
        spec_udec(n as nat)
    }
}

/// The suffix that the canonical rendering appends to `*` and `/` once the
/// operator is annotated.
pub open spec fn spec_rounding_suffix(r: Rounding) -> Seq<char> {
    match r {
        Rounding::Init => Seq::<char>::empty(),
        Rounding::Up => seq!['\u{2191}'],
        Rounding::Down => seq!['\u{2193}'],
        Rounding::Unknown => seq!['\u{2195}'],
    }
}

/// The canonical symbol of an operator, including the rounding suffix of an
/// annotated `*` or `/`.
pub open spec fn spec_opcode_str(op: Opcode) -> Seq<char> {
    match op {
        Opcode::Mul(r) => seq!['*'] + spec_rounding_suffix(r),
        Opcode::Div(r) => seq!['/'] + spec_rounding_suffix(r),
        Opcode::Add => seq!['+'],
        Opcode::Sub => seq!['-'],
        Opcode::Pow => seq!['*', '*'],
    }
}

/// The canonical, fully parenthesized rendering of an expression. It is both
/// the display form and the key under which sub-expressions are classified.
pub open spec fn spec_render(e: Expr) -> Seq<char>
    decreases e,
{
    match e {
        Expr::Number(n) => spec_int_str(n as int),
        Expr::Id(s) => s@,
        Expr::Negative(x) => seq!['-'] + spec_render(*x),
        Expr::Op(l, op, r) => seq!['('] + spec_render(*l) + seq![' '] + spec_opcode_str(op)
            + seq![' '] + spec_render(*r) + seq![')'],
        Expr::Error => seq!['e', 'r', 'r', 'o', 'r'],
    }
}

fn digit_str(d: u64) -> (r: &'static str)
    requires
        d < 10,
    ensures
        r@ == seq![spec_digit_char(d as nat)],
{
    proof {
        reveal_strlit("0");
        reveal_strlit("1");
        reveal_strlit("2");
        reveal_strlit("3");
        reveal_strlit("4");
        reveal_strlit("5");
        reveal_strlit("6");
        reveal_strlit("7");
        reveal_strlit("8");
        reveal_strlit("9");
    }
    let r = if d == 0 {
        "0"
    } else if d == 1 {
        "1"
    } else if d == 2 {
        "2"
    } else if d == 3 {
        "3"
    } else if d == 4 {
        "4"
    } else if d == 5 {
        "5"
    } else if d == 6 {
        "6"
    } else if d == 7 {
        "7"
    } else if d == 8 {
        "8"
    } else {
        "9"
    };
    proof {
        assert(r@ =~= seq![spec_digit_char(d as nat)]);
    }
    r
}

fn u64_to_string(n: u64) -> (r: String)
    ensures
        r@ == spec_udec(n as nat),
    decreases n,
{
    if n < 10 {
        let r = digit_str(n).to_owned();
        r
    } else {
        let mut s = u64_to_string(n / 10);
        s.append(digit_str(n % 10));
        proof {
            assert(s@ =~= spec_udec(n as nat));
        }
        s
    }
}

pub(crate) fn i32_to_string(n: i32) -> (r: String)
    ensures
        r@ == spec_int_str(n as int),
{
    if n >= 0 {
        u64_to_string(n as u64)
    } else {
        let m = -(n as i64);
        let mut s = "-".to_owned();
        proof {
            reveal_strlit("-");
            assert(s@ =~= seq!['-']);
        }
        let digits = u64_to_string(m as u64);
        s.append(digits.as_str());
        s
    }
}

fn rounding_suffix_str(r: &Rounding) -> (s: &'static str)
    ensures
        s@ == spec_rounding_suffix(*r),
{
    proof {
        reveal_strlit("");
        reveal_strlit("\u{2191}");
        reveal_strlit("\u{2193}");
        reveal_strlit("\u{2195}");
    }
    let s = match r {
        Rounding::Init => "",
        Rounding::Up => "\u{2191}",
        Rounding::Down => "\u{2193}",
        Rounding::Unknown => "\u{2195}",
    };
    proof {
        assert(s@ =~= spec_rounding_suffix(*r));
    }
    s
}

impl Opcode {
    /// The canonical text of this operator, e.g. `*` or `/` followed by an
    /// arrow once the operator is annotated.
    pub fn to_text(&self) -> (r: String)
        ensures
            r@ == spec_opcode_str(*self),
    {
        proof {
            reveal_strlit("*");
            reveal_strlit("/");
            reveal_strlit("+");
            reveal_strlit("-");
            reveal_strlit("**");
        }
        match self {
            Opcode::Mul(rd) => {
                let mut s = "*".to_owned();
                s.append(rounding_suffix_str(rd));
                proof {
                    assert(s@ =~= spec_opcode_str(*self));
                }
                s
            },
            Opcode::Div(rd) => {
                let mut s = "/".to_owned();
                s.append(rounding_suffix_str(rd));
                proof {
                    assert(s@ =~= spec_opcode_str(*self));
                }
                s
            },
            Opcode::Add => {
                let s = "+".to_owned();
                proof {
                    assert(s@ =~= spec_opcode_str(*self));
                }
                s
            },
            Opcode::Sub => {
                let s = "-".to_owned();
                proof {
                    assert(s@ =~= spec_opcode_str(*self));
                }
                s
            },
            Opcode::Pow => {
                let s = "**".to_owned();
                proof {
                    assert(s@ =~= spec_opcode_str(*self));
                }
                s
            },
        }
    }
}

impl Expr {
    /// The canonical, fully parenthesized text of this expression.
    pub fn to_text(&self) -> (r: String)
        ensures
            r@ == spec_render(*self),
        decreases *self,
    {
        match self {
            Expr::Number(n) => i32_to_string(*n),
            Expr::Id(s) => s.clone(),
            Expr::Negative(x) => {
                let mut s = "-".to_owned();
                proof {
                    reveal_strlit("-");
                }
                let inner = x.to_text();
                s.append(inner.as_str());
                proof {
                    assert(s@ =~= spec_render(*self));
                }
                s
            },
            Expr::Op(l, op, r2) => {
                let mut s = "(".to_owned();
                proof {
                    reveal_strlit("(");
                    reveal_strlit(" ");
                    reveal_strlit(")");
                }
                let lt = l.to_text();
                s.append(lt.as_str());
                s.append(" ");
                let opt = op.to_text();
                s.append(opt.as_str());
                s.append(" ");
                let rt = r2.to_text();
                s.append(rt.as_str());
                s.append(")");
                proof {
                    assert(s@ =~= spec_render(*self));
                }
                s
            },
            Expr::Error => {
                let s = "error".to_owned();
                proof {
                    reveal_strlit("error");
                    assert(s@ =~= spec_render(*self));
                }
                s
            },
        }
    }
}

} // verus!
