//! Pre-scanning a tree for power bases that still need a classification, so
//! that a caller can collect the answers before or during an analysis.

use vstd::prelude::*;

use crate::ast::spec_render;
use crate::ast::Expr;
use crate::ast::Opcode;
use crate::config::Config;
use crate::formula_config::has_text;
use crate::formula_config::list_contains;

verus! {

/// The canonical text of the first power base (node before operands, left
/// before right) that neither classification set covers, if any.
pub open spec fn spec_first_unclassified(e: Expr, lt: Seq<Seq<char>>, gt: Seq<Seq<char>>) -> Option<
    Seq<char>,
>
    decreases e,
{
    match e {
        Expr::Negative(x) => spec_first_unclassified(*x, lt, gt),
        Expr::Op(l, op, r) => {
            let here = if op is Pow && !has_text(lt, spec_render(*l)) && !has_text(
                gt,
                spec_render(*l),
            ) {
                Option::Some(spec_render(*l))
            } else {
                Option::<Seq<char>>::None
            };
            if here is Some {
                here
            } else {
                let inl = spec_first_unclassified(*l, lt, gt);
                if inl is Some {
                    inl
                } else {
                    spec_first_unclassified(*r, lt, gt)
                }
            }
        },
        _ => Option::None,
    }
}

/// How an executable scan result states its model: the same text, or nothing
/// together.
pub open spec fn text_matches(r: Option<String>, s: Option<Seq<char>>) -> bool {
    match r {
        Option::Some(t) => s == Option::Some(t@),
        Option::None => s is None,
    }
}

fn visit(expr: &Expr, config: &Config) -> (r: Option<String>)
    ensures
        text_matches(r, spec_first_unclassified(*expr, config.lt_texts(), config.gt_texts())),
    decreases *expr,
{
    match expr {
        Expr::Negative(x) => visit(x, config),
        Expr::Op(l, op, r2) => {
            if matches!(op, Opcode::Pow) {
                let t = l.to_text();
                if !list_contains(&config.less_than_one, &t) && !list_contains(
                    &config.greater_than_one,
                    &t,
                ) {
                    return Some(t);
                }
            }
            let found_left = visit(l, config);
            match found_left {
                Option::Some(t) => Some(t),
                Option::None => visit(r2, config),
            }
        },
        _ => None,
    }
}

/// Finds the canonical text of the first power base (node before operands,
/// left before right) that neither classification set of `config` covers.
/// The caller classifies that text — adds it to one of the two sets — and
/// scans again, until the scan returns nothing.
pub fn find_less_greater_than_one(expr: &Expr, config: &Config) -> (r: Option<String>)
    ensures
        text_matches(r, spec_first_unclassified(*expr, config.lt_texts(), config.gt_texts())),
{
    visit(expr, config)
}

} // verus!
