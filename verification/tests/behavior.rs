//! Grammar corner cases, classification queries, the canonicalization and
//! bias laws on concrete values, and the configuration types.

use roundme::analyze_rounding::AnalyzeError;
use roundme::analyzer::analyze;
use roundme::expression_utils::find_less_greater_than_one;
use roundme::grammar::parse;
use roundme::printer::OutputFormat;
use roundme::printer::Printer;
use roundme::simplify_expr::simplify_sign;
use roundme::Config;
use roundme::Expr;
use roundme::FormulaConfig;

#[test]
fn test_parse_precedence() {
    assert_eq!(parse("a + b * c").unwrap().to_text(), "(a + (b * c))");
    assert_eq!(parse("a * b / c").unwrap().to_text(), "((a * b) / c)");
    assert_eq!(parse("a - b - c").unwrap().to_text(), "((a - b) - c)");
    assert_eq!(parse("2 ** 3 ** 4").unwrap().to_text(), "(2 ** (3 ** 4))");
    assert_eq!(parse("-a * b").unwrap().to_text(), "(-a * b)");
    assert_eq!(parse("(a + b) * c").unwrap().to_text(), "((a + b) * c)");
    assert_eq!(parse("  spot  ").unwrap().to_text(), "spot");
}

#[test]
fn test_parse_rejects() {
    assert!(parse("a ^ b").is_err());
    assert!(parse("a +").is_err());
    assert!(parse("(a + b").is_err());
    assert!(parse("a b").is_err());
    assert!(parse("").is_err());
    assert!(parse("x1").is_err());
}

#[test]
fn test_parse_number_limits() {
    assert_eq!(parse("2147483647").unwrap().to_text(), "2147483647");
    assert!(parse("2147483648").is_err());
}

#[test]
fn test_number_rendering() {
    assert_eq!(Expr::Number(0).to_text(), "0");
    assert_eq!(Expr::Number(-5).to_text(), "-5");
    assert_eq!(Expr::Number(i32::MIN).to_text(), "-2147483648");
}

#[test]
fn test_parse_error_carries_formula() {
    let err = parse("a ^ b").unwrap_err();
    assert_eq!(err.formula, "a ^ b");
}

#[test]
fn test_analyze_parse_error() {
    let formula_config = FormulaConfig::new("a ^ b".to_string(), true, None, None);
    match analyze(&formula_config) {
        Err(AnalyzeError::Parse(f)) => assert_eq!(f, "a ^ b"),
        other => panic!("expected a parse error, got {other:?}"),
    }
}

#[test]
fn test_analyze_unclassified_then_retry() {
    let mut formula_config = FormulaConfig::new("a ** b".to_string(), true, None, None);
    match analyze(&formula_config) {
        Err(AnalyzeError::Unclassified(t)) => assert_eq!(t, "a"),
        other => panic!("expected a classification query, got {other:?}"),
    }
    formula_config.add_greater_than_one("a".to_string());
    let ast = analyze(&formula_config).unwrap().to_text();
    assert_eq!(ast, "(a ** b)");
}

#[test]
fn test_classification_key_ignores_annotations() {
    // The cache key of a power base is its canonical text before any
    // rounding annotation, so "(a * b)" is the key even though the base is
    // rendered annotated in the result.
    let formula_config = FormulaConfig::new(
        "((a * b)**(e/f)) / (c * d)".to_string(),
        true,
        None,
        Some(vec!["(a * b)".to_string()]),
    );
    let ast = analyze(&formula_config).unwrap().to_text();
    assert_eq!(ast, "(((a *↑ b) ** (e /↑ f)) /↑ (c *↓ d))");
}

#[test]
fn test_bias_flips_on_sub_and_div_right() {
    let formula_config = FormulaConfig::new("a - b / c".to_string(), true, None, None);
    let ast = analyze(&formula_config).unwrap().to_text();
    assert_eq!(ast, "(a - (b /↓ c))");

    let formula_config = FormulaConfig::new("a / (b - c * d)".to_string(), true, None, None);
    let ast = analyze(&formula_config).unwrap().to_text();
    assert_eq!(ast, "(a /↑ (b - (c *↑ d)))");
}

#[test]
fn test_simplify_idempotent_concrete() {
    let once = simplify_sign(parse("-a + b").unwrap());
    assert_eq!(once.to_text(), "(b - a)");
    let text_once = once.to_text();
    let twice = simplify_sign(once);
    assert_eq!(twice.to_text(), text_once);

    let once = simplify_sign(parse("-(-(-a * b)) + c").unwrap());
    let text_once = once.to_text();
    assert_eq!(text_once, "(c - (a * b))");
    let twice = simplify_sign(once);
    assert_eq!(twice.to_text(), text_once);
}

#[test]
fn test_find_unclassified_bases_in_order() {
    let expr = parse("(x ** y) + (z ** w)").unwrap();
    let mut config = Config {
        formula: "(x ** y) + (z ** w)".to_string(),
        round_up: true,
        less_than_one: None,
        greater_than_one: None,
    };
    let first = find_less_greater_than_one(&expr, &config).unwrap();
    assert_eq!(first, "x");
    config.add_less_than_one(first);
    let second = find_less_greater_than_one(&expr, &config).unwrap();
    assert_eq!(second, "z");
    config.add_greater_than_one(second);
    assert!(find_less_greater_than_one(&expr, &config).is_none());
}

#[test]
fn test_config_add_methods() {
    let mut config = Config::default();
    assert_eq!(config.formula, "((a * b)**(e/f)) / (c * d)");
    assert!(config.round_up);
    assert!(config.less_than_one.is_none());
    assert!(config.greater_than_one.is_none());
    config.add_less_than_one("a".to_string());
    config.add_less_than_one("b".to_string());
    config.add_greater_than_one("c".to_string());
    assert_eq!(config.less_than_one, Some(vec!["a".to_string(), "b".to_string()]));
    assert_eq!(config.greater_than_one, Some(vec!["c".to_string()]));
}

#[test]
fn test_formula_config_default_and_add() {
    let mut formula_config = FormulaConfig::default();
    assert_eq!(formula_config.formula, "((a * b)**(e/f)) / (c * d)");
    assert!(formula_config.round_up);
    formula_config.add_less_than_one("q".to_string());
    assert_eq!(formula_config.less_than_one, Some(vec!["q".to_string()]));
    assert!(formula_config.greater_than_one.is_none());
}

#[test]
fn test_less_than_one_wins_over_greater() {
    // A text in both sets counts as below one.
    let formula_config = FormulaConfig::new(
        "a ** b".to_string(),
        true,
        Some(vec!["a".to_string()]),
        Some(vec!["a".to_string()]),
    );
    let ast = analyze(&formula_config).unwrap().to_text();
    // Base below one: the exponent's bias is flipped; nothing else changes
    // in the rendering of this formula.
    assert_eq!(ast, "(a ** b)");
    let formula_config = FormulaConfig::new(
        "a ** (b * c)".to_string(),
        true,
        Some(vec!["a".to_string()]),
        Some(vec!["a".to_string()]),
    );
    let ast = analyze(&formula_config).unwrap().to_text();
    assert_eq!(ast, "(a ** (b *↓ c))");
}

#[test]
fn test_printer_new() {
    let printer = Printer::new(OutputFormat::Text);
    assert_eq!(printer.output_format, OutputFormat::Text);
    let printer = Printer::new(OutputFormat::PDF);
    assert_eq!(printer.output_format, OutputFormat::PDF);
}

#[test]
fn test_negative_root_kept() {
    // A negation left at the root by canonicalization stays there; the bias
    // passes through it unchanged.
    let formula_config = FormulaConfig::new("-a * b".to_string(), true, None, None);
    let ast = analyze(&formula_config).unwrap().to_text();
    assert_eq!(ast, "-(a *↑ b)");
}
