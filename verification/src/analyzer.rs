//! The analysis pipeline: parse the configured formula, canonicalize its
//! signs, and annotate every multiplication and division with the rounding
//! direction that realizes the configured bias.

use vstd::prelude::*;

use crate::analyze_rounding;
use crate::analyze_rounding::spec_visit;
use crate::analyze_rounding::AnalyzeError;
use crate::ast::expr_model;
use crate::ast::Expr;
use crate::formula_config::FormulaConfig;
use crate::grammar;
use crate::grammar::spec_parse_formula;
use crate::simplify_expr::simplify_sign;
use crate::simplify_expr::spec_simplify;

verus! {

/// Analyzes the formula of `formula_config` under its rounding direction:
/// the text is parsed, the tree's signs are canonicalized, and the rounding
/// directions are propagated against the configuration's classification
/// sets.
///
/// On success the annotated canonical tree comes back. `Parse` carries the
/// formula that the grammar rejected. `Unclassified` carries the canonical
/// text of the first power base in neither classification set; the caller
/// classifies that text and retries, and `lemma_no_reprompt` guarantees the
/// same text is never asked twice.
pub fn analyze(formula_config: &FormulaConfig) -> (r: Result<Expr, AnalyzeError>)
    ensures
        spec_parse_formula(formula_config.formula@) is None <==> r matches Result::Err(
            AnalyzeError::Parse(_),
        ),
        match r {
            Result::Ok(t) => exists|e0: Expr|
                spec_parse_formula(formula_config.formula@) == Option::Some(expr_model(e0))
                    && #[trigger] spec_visit(
                    spec_simplify(e0),
                    formula_config.round_up,
                    formula_config.lt_texts(),
                    formula_config.gt_texts(),
                ) == Result::<Expr, Seq<char>>::Ok(t),
            Result::Err(AnalyzeError::Unclassified(q)) => exists|e0: Expr|
                spec_parse_formula(formula_config.formula@) == Option::Some(expr_model(e0))
                    && #[trigger] spec_visit(
                    spec_simplify(e0),
                    formula_config.round_up,
                    formula_config.lt_texts(),
                    formula_config.gt_texts(),
                ) == Result::<Expr, Seq<char>>::Err(q@),
            Result::Err(AnalyzeError::Parse(f)) => f@ == formula_config.formula@,
        },
{
    let ast = match grammar::parse(formula_config.formula.as_str()) {
        Ok(e) => e,
        Err(pe) => {
            return Err(AnalyzeError::Parse(pe.formula));
        },
    };
    let ghost e0 = ast;
    let simplified = simplify_sign(ast);
    let r = analyze_rounding::analyze(
        &simplified,
        formula_config.round_up,
        formula_config,
    );
    let ghost rg = r;
    proof {
        match rg {
            Result::Ok(t) => {
                assert(spec_visit(
                    spec_simplify(e0),
                    formula_config.round_up,
                    formula_config.lt_texts(),
                    formula_config.gt_texts(),
                ) == Result::<Expr, Seq<char>>::Ok(t));
            },
            Result::Err(err) => match err {
                AnalyzeError::Unclassified(q) => {
                    assert(spec_visit(
                        spec_simplify(e0),
                        formula_config.round_up,
                        formula_config.lt_texts(),
                        formula_config.gt_texts(),
                    ) == Result::<Expr, Seq<char>>::Err(q@));
                },
                AnalyzeError::Parse(_) => {
                    assert(false);
                },
            },
        }
    }
    r
}

} // verus!
