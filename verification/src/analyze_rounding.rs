//! The rounding propagator: walks a canonicalized tree top-down and assigns
//! a rounding direction to every multiplication and division, consulting the
//! classification sets whenever a power requires knowing whether its base is
//! at least one.

use vstd::prelude::*;

use crate::ast::bool_to_rounding;
use crate::ast::spec_bool_to_rounding;
use crate::ast::spec_render;
use crate::ast::Expr;
use crate::ast::Opcode;
use crate::formula_config::has_text;
use crate::formula_config::list_contains;
use crate::formula_config::FormulaConfig;

verus! {

/// Why an analysis stopped.
#[derive(Debug)]
pub enum AnalyzeError {
    /// The formula text is not a well-formed formula; the payload is the
    /// formula itself.
    Parse(String),
    /// A power's base is in neither classification set; the payload is the
    /// base's canonical text. The caller must classify that text (add it to
    /// one of the two sets) and retry.
    Unclassified(String),
}

/// What the propagator does at one operator node, given the rounding bias of
/// the node: the annotated operator it becomes and the biases of its two
/// operands. A power needs its base classified; when the base's canonical
/// text is in neither set the result is that text, as a query. A text in
/// both sets counts as below one.
pub open spec fn spec_node_dirs(op: Opcode, base: Expr, up: bool, lt: Seq<Seq<char>>, gt: Seq<
    Seq<char>,
>) -> Result<(Opcode, bool, bool), Seq<char>> {
    match op {
        Opcode::Add => Result::Ok((Opcode::Add, up, up)),
        Opcode::Sub => Result::Ok((Opcode::Sub, up, !up)),
        Opcode::Mul(_) => Result::Ok((Opcode::Mul(spec_bool_to_rounding(up)), up, up)),
        Opcode::Div(_) => Result::Ok((Opcode::Div(spec_bool_to_rounding(up)), up, !up)),
        Opcode::Pow => {
            let t = spec_render(base);
            if has_text(lt, t) {
                Result::Ok((Opcode::Pow, up, !up))
            } else if has_text(gt, t) {
                Result::Ok((Opcode::Pow, up, up))
            } else {
                Result::Err(t)
            }
        },
    }
}

/// The propagation itself: leaves are unchanged, a negation passes its bias
/// through, and an operator is annotated as `spec_node_dirs` says before its
/// operands are visited with their biases, left before right. The result is
/// the annotated tree, or the canonical text of the first power base (in
/// visit order, node before operands) that no classification set covers.
pub open spec fn spec_visit(e: Expr, up: bool, lt: Seq<Seq<char>>, gt: Seq<Seq<char>>) -> Result<
    Expr,
    Seq<char>,
>
    decreases e,
{
    match e {
        Expr::Negative(x) => match spec_visit(*x, up, lt, gt) {
            Result::Ok(x2) => Result::Ok(Expr::Negative(Box::new(x2))),
            Result::Err(t) => Result::Err(t),
        },
        Expr::Op(l, op, r) => match spec_node_dirs(op, *l, up, lt, gt) {
            Result::Err(t) => Result::Err(t),
            Result::Ok(dirs) => match spec_visit(*l, dirs.1, lt, gt) {
                Result::Err(t) => Result::Err(t),
                Result::Ok(l2) => match spec_visit(*r, dirs.2, lt, gt) {
                    Result::Err(t) => Result::Err(t),
                    Result::Ok(r2) => Result::Ok(Expr::Op(Box::new(l2), dirs.0, Box::new(r2))),
                },
            },
        },
        _ => Result::Ok(e),
    }
}

/// How an executable propagation result states `spec_visit`: equal annotated
/// trees on success, and on failure an `Unclassified` error whose text reads
/// exactly as the specification's query.
pub open spec fn visit_result_matches(r: Result<Expr, AnalyzeError>, s: Result<
    Expr,
    Seq<char>,
>) -> bool {
    match r {
        Result::Ok(e) => s == Result::<Expr, Seq<char>>::Ok(e),
        Result::Err(err) => err matches AnalyzeError::Unclassified(t) && s == Result::<
            Expr,
            Seq<char>,
        >::Err(t@),
    }
}

// Multiplication: the node rounds with its own bias, and both factors
// follow the node's bias.
fn handle_mul(rounding_direction: bool) -> (r: (Opcode, bool, bool))
    ensures
        r == (
            Opcode::Mul(spec_bool_to_rounding(rounding_direction)),
            rounding_direction,
            rounding_direction,
        ),
{
    (Opcode::Mul(bool_to_rounding(rounding_direction)), rounding_direction, rounding_direction)
}

// Division: the node rounds with its own bias; the numerator follows the
// bias and the denominator opposes it.
fn handle_div(rounding_direction: bool) -> (r: (Opcode, bool, bool))
    ensures
        r == (
            Opcode::Div(spec_bool_to_rounding(rounding_direction)),
            rounding_direction,
            !rounding_direction,
        ),
{
    (Opcode::Div(bool_to_rounding(rounding_direction)), rounding_direction, !rounding_direction)
}

// Power: the base always follows the node's bias; the exponent follows it
// when the base is at least one and opposes it when the base is below one.
// An unclassified base stops the analysis with a query for its text.
fn handle_pow(left: &Expr, rounding_direction: bool, formula_config: &FormulaConfig) -> (r: Result<
    (Opcode, bool, bool),
    AnalyzeError,
>)
    ensures
        match r {
            Result::Ok(dirs) => spec_node_dirs(
                Opcode::Pow,
                *left,
                rounding_direction,
                formula_config.lt_texts(),
                formula_config.gt_texts(),
            ) == Result::<(Opcode, bool, bool), Seq<char>>::Ok(dirs),
            Result::Err(err) => err matches AnalyzeError::Unclassified(t) && spec_node_dirs(
                Opcode::Pow,
                *left,
                rounding_direction,
                formula_config.lt_texts(),
                formula_config.gt_texts(),
            ) == Result::<(Opcode, bool, bool), Seq<char>>::Err(t@),
        },
{
    let expr_str = left.to_text();
    if list_contains(&formula_config.less_than_one, &expr_str) {
        return Ok((Opcode::Pow, rounding_direction, !rounding_direction));
    }
    if list_contains(&formula_config.greater_than_one, &expr_str) {
        return Ok((Opcode::Pow, rounding_direction, rounding_direction));
    }
    Err(AnalyzeError::Unclassified(expr_str))
}

fn visit(expr: &Expr, rounding_direction: bool, formula_config: &FormulaConfig) -> (r: Result<
    Expr,
    AnalyzeError,
>)
    ensures
        visit_result_matches(
            r,
            spec_visit(
                *expr,
                rounding_direction,
                formula_config.lt_texts(),
                formula_config.gt_texts(),
            ),
        ),
    decreases *expr,
{
    match expr {
        Expr::Number(n) => Ok(Expr::Number(*n)),
        Expr::Id(s) => Ok(Expr::Id(s.clone())),
        Expr::Error => Ok(Expr::Error),
        Expr::Negative(x) => match visit(x, rounding_direction, formula_config) {
            Ok(x2) => Ok(Expr::Negative(Box::new(x2))),
            Err(e) => Err(e),
        },
        Expr::Op(left, op, right) => {
            let dirs = match op {
                Opcode::Add => (Opcode::Add, rounding_direction, rounding_direction),
                Opcode::Sub => (Opcode::Sub, rounding_direction, !rounding_direction),
                Opcode::Mul(_) => handle_mul(rounding_direction),
                Opcode::Div(_) => handle_div(rounding_direction),
                Opcode::Pow => match handle_pow(left, rounding_direction, formula_config) {
                    Ok(d) => d,
                    Err(e) => {
                        return Err(e);
                    },
                },
            };
            let l2 = match visit(left, dirs.1, formula_config) {
                Ok(v) => v,
                Err(e) => {
                    return Err(e);
                },
            };
            let r2 = match visit(right, dirs.2, formula_config) {
                Ok(v) => v,
                Err(e) => {
                    return Err(e);
                },
            };
            Ok(Expr::Op(Box::new(l2), dirs.0, Box::new(r2)))
        },
    }
}

/// Annotates a canonicalized tree with rounding directions: every
/// multiplication and division receives the direction that makes the whole
/// tree's value round as `rounding_direction` asks (`true` = up). Returns the
/// annotated tree, or, for the first power base (node before operands, left
/// before right) in neither classification set, an `Unclassified` query
/// carrying the base's canonical text.
pub fn analyze(expr: &Expr, rounding_direction: bool, formula_config: &FormulaConfig) -> (r:
    Result<Expr, AnalyzeError>)
    ensures
        visit_result_matches(
            r,
            spec_visit(
                *expr,
                rounding_direction,
                formula_config.lt_texts(),
                formula_config.gt_texts(),
            ),
        ),
{
    visit(expr, rounding_direction, formula_config)
}

/// The sub-expression at `path` within `e`: `false` descends into the left
/// operand, `true` into the right.
pub open spec fn node_at(e: Expr, path: Seq<bool>) -> Option<Expr>
    decreases path.len(),
{
    if path.len() == 0 {
        Option::Some(e)
    } else {
        match e {
            Expr::Op(l, _, r) => node_at(
                if path[0] {
                    *r
                } else {
                    *l
                },
                path.drop_first(),
            ),
            _ => Option::None,
        }
    }
}

/// Whether every node that `path` passes through (excluding the node it ends
/// on) is an arithmetic operator: an addition, subtraction, multiplication
/// or division.
pub open spec fn arith_path(e: Expr, path: Seq<bool>) -> bool
    decreases path.len(),
{
    if path.len() == 0 {
        true
    } else {
        match e {
            Expr::Op(l, op, r) => !(op is Pow) && arith_path(
                if path[0] {
                    *r
                } else {
                    *l
                },
                path.drop_first(),
            ),
            _ => false,
        }
    }
}

/// The number of bias-flipping edges along `path`: right edges of
/// subtractions and right edges of divisions.
pub open spec fn flips(e: Expr, path: Seq<bool>) -> nat
    decreases path.len(),
{
    if path.len() == 0 {
        0
    } else {
        match e {
            Expr::Op(l, op, r) => (
            if path[0] && (op is Sub || op is Div) {
                1nat
            } else {
                0nat
            }) + flips(
                if path[0] {
                    *r
                } else {
                    *l
                },
                path.drop_first(),
            ),
            _ => 0,
        }
    }
}

/// Whether the node at the end of `path`, if it is an annotated
/// multiplication or division, carries exactly the direction `up` XOR'd with
/// the parity of the flipping edges above it.
pub open spec fn slot_obeys_bias(out: Expr, path: Seq<bool>, up: bool) -> bool {
    match node_at(out, path) {
        Option::Some(n) => match n {
            Expr::Op(_, Opcode::Mul(s), _) => s == spec_bool_to_rounding(
                up != (flips(out, path) % 2 == 1),
            ),
            Expr::Op(_, Opcode::Div(s), _) => s == spec_bool_to_rounding(
                up != (flips(out, path) % 2 == 1),
            ),
            _ => true,
        },
        Option::None => true,
    }
}

/// The rounding-bias law: in a tree annotated for bias `up`, every
/// multiplication and division reached from the root through arithmetic
/// operators only is annotated with `up` XOR'd with the parity of the
/// subtraction-right and division-right edges traversed to reach it.
pub proof fn lemma_rounding_bias(
    e: Expr,
    up: bool,
    lt: Seq<Seq<char>>,
    gt: Seq<Seq<char>>,
    out: Expr,
    path: Seq<bool>,
)
    requires
        spec_visit(e, up, lt, gt) == Result::<Expr, Seq<char>>::Ok(out),
        arith_path(out, path),
    ensures
        slot_obeys_bias(out, path, up),
    decreases path.len(),
{
    if path.len() == 0 {
        match e {
            Expr::Op(l, op, r) => {
                assert(slot_obeys_bias(out, path, up));
            },
            _ => {
                assert(slot_obeys_bias(out, path, up));
            },
        }
    } else {
        match e {
            Expr::Op(l, op, r) => {
                match spec_node_dirs(op, *l, up, lt, gt) {
                    Result::Ok(dirs) => {
                        match spec_visit(*l, dirs.1, lt, gt) {
                            Result::Ok(l2) => {
                                match spec_visit(*r, dirs.2, lt, gt) {
                                    Result::Ok(r2) => {
                                        assert(out == Expr::Op(
                                            Box::new(l2),
                                            dirs.0,
                                            Box::new(r2),
                                        ));
                                        let rest = path.drop_first();
                                        let child = if path[0] {
                                            r2
                                        } else {
                                            l2
                                        };
                                        let edge: nat = if path[0] && (dirs.0 is Sub || dirs.0
                                            is Div) {
                                            1nat
                                        } else {
                                            0nat
                                        };
                                        let childbias = if path[0] {
                                            dirs.2
                                        } else {
                                            dirs.1
                                        };
                                        assert(node_at(out, path) == node_at(child, rest));
                                        assert(flips(out, path) == edge + flips(child, rest));
                                        assert(arith_path(child, rest));
                                        if path[0] {
                                            lemma_rounding_bias(*r, dirs.2, lt, gt, r2, rest);
                                        } else {
                                            lemma_rounding_bias(*l, dirs.1, lt, gt, l2, rest);
                                        }
                                        assert(childbias == (up != (edge % 2 == 1)));
                                        let c = flips(child, rest);
                                        assert((edge + c) % 2 == 1 <==> ((edge == 1) != (c % 2
                                            == 1)));
                                        assert(slot_obeys_bias(out, path, up));
                                    },
                                    Result::Err(_) => {},
                                }
                            },
                            Result::Err(_) => {},
                        }
                    },
                    Result::Err(_) => {},
                }
            },
            _ => {},
        }
    }
}

/// Every multiplication and division in an annotated tree carries `Up` or
/// `Down`: the analysis annotates them all, and never with `Unknown`.
pub open spec fn all_annotated(e: Expr) -> bool
    decreases e,
{
    match e {
        Expr::Negative(x) => all_annotated(*x),
        Expr::Op(l, op, r) => {
            let op_done = match op {
                Opcode::Mul(s) => s is Up || s is Down,
                Opcode::Div(s) => s is Up || s is Down,
                _ => true,
            };
            op_done && all_annotated(*l) && all_annotated(*r)
        },
        _ => true,
    }
}

/// A successful analysis leaves no multiplication or division without a
/// direction, and never assigns the reserved `Unknown` value.
pub proof fn lemma_all_annotated(e: Expr, up: bool, lt: Seq<Seq<char>>, gt: Seq<Seq<char>>)
    ensures
        spec_visit(e, up, lt, gt) matches Result::Ok(out) ==> all_annotated(out),
    decreases e,
{
    match e {
        Expr::Negative(x) => {
            lemma_all_annotated(*x, up, lt, gt);
        },
        Expr::Op(l, op, r) => {
            lemma_all_annotated(*l, true, lt, gt);
            lemma_all_annotated(*l, false, lt, gt);
            lemma_all_annotated(*r, true, lt, gt);
            lemma_all_annotated(*r, false, lt, gt);
        },
        _ => {},
    }
}

/// Classification is deterministic: the analysis queries only texts that
/// neither classification set holds, so once a text is in a set, no analysis
/// of any tree asks about it again.
pub proof fn lemma_no_reprompt(e: Expr, up: bool, lt: Seq<Seq<char>>, gt: Seq<Seq<char>>)
    ensures
        spec_visit(e, up, lt, gt) matches Result::Err(t) ==> !has_text(lt, t) && !has_text(gt, t),
    decreases e,
{
    match e {
        Expr::Negative(x) => {
            lemma_no_reprompt(*x, up, lt, gt);
        },
        Expr::Op(l, op, r) => {
            lemma_no_reprompt(*l, true, lt, gt);
            lemma_no_reprompt(*l, false, lt, gt);
            lemma_no_reprompt(*r, true, lt, gt);
            lemma_no_reprompt(*r, false, lt, gt);
        },
        _ => {},
    }
}

} // verus!
