//! End-to-end analyses: formula text in, canonical annotated rendering out.

use roundme::analyzer::analyze;
use roundme::FormulaConfig;

#[test]
fn test_mul_up() {
    let formula_config = FormulaConfig::new("a * b".to_string(), true, None, None);
    let ast = analyze(&formula_config).unwrap().to_text();
    assert_eq!(ast, "(a *↑ b)");
}

#[test]
fn test_mul_down() {
    let formula_config = FormulaConfig::new("a * b".to_string(), false, None, None);
    let ast = analyze(&formula_config).unwrap().to_text();
    assert_eq!(ast, "(a *↓ b)");
}

#[test]
fn test_div_up() {
    let formula_config = FormulaConfig::new("a / b".to_string(), true, None, None);
    let ast = analyze(&formula_config).unwrap().to_text();
    assert_eq!(ast, "(a /↑ b)");
}

#[test]
fn test_div_down() {
    let formula_config = FormulaConfig::new("a / b".to_string(), false, None, None);
    let ast = analyze(&formula_config).unwrap().to_text();
    assert_eq!(ast, "(a /↓ b)");
}

#[test]
fn test_pow_greater_than_one_up() {
    let formula_config = FormulaConfig::new(
        "a ** (b * c)".to_string(),
        true,
        None,
        Some(vec!["a".to_string()]),
    );
    let ast = analyze(&formula_config).unwrap().to_text();
    assert_eq!(ast, "(a ** (b *↑ c))");
}

#[test]
fn test_pow_less_than_one_up() {
    let formula_config = FormulaConfig::new(
        "a ** (b * c)".to_string(),
        true,
        Some(vec!["a".to_string()]),
        None,
    );
    let ast = analyze(&formula_config).unwrap().to_text();
    assert_eq!(ast, "(a ** (b *↓ c))");
}

#[test]
fn test_pow_greater_than_one_down() {
    let formula_config = FormulaConfig::new(
        "a ** (b * c)".to_string(),
        false,
        None,
        Some(vec!["a".to_string()]),
    );
    let ast = analyze(&formula_config).unwrap().to_text();
    assert_eq!(ast, "(a ** (b *↓ c))");
}

#[test]
fn test_pow_less_than_one_down() {
    let formula_config = FormulaConfig::new(
        "a ** (b * c)".to_string(),
        false,
        Some(vec!["a".to_string()]),
        None,
    );
    let ast = analyze(&formula_config).unwrap().to_text();
    assert_eq!(ast, "(a ** (b *↑ c))");
}

#[test]
fn test_negative() {
    let formula_config = FormulaConfig::new("-(-(-a * b)) + c".to_string(), true, None, None);
    let ast = analyze(&formula_config).unwrap().to_text();
    assert_eq!(ast, "(c - (a *↓ b))");
}

#[test]
fn test_double_negative() {
    let formula_config = FormulaConfig::new("-(-(a * b)) + c".to_string(), true, None, None);
    let ast = analyze(&formula_config).unwrap().to_text();
    assert_eq!(ast, "((a *↑ b) + c)");
}

#[test]
fn test_negative_exponent() {
    let formula_config = FormulaConfig::new(
        "a ** (-b * c)".to_string(),
        true,
        None,
        Some(vec!["a".to_string()]),
    );
    let ast = analyze(&formula_config).unwrap().to_text();
    assert_eq!(ast, "(1 /↑ (a ** (b *↓ c)))");
}
