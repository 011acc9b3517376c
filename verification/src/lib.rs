//! Rounding-direction analysis for arithmetic formulas.
//!
//! A formula (text using `+ - * / **` and parentheses) is parsed into an
//! expression tree, the tree is sign-canonicalized, and a rounding direction
//! is then assigned to every multiplication and division so that the value of
//! the whole formula is biased in a caller-chosen direction.

pub mod analyze_rounding;
pub mod analyzer;
pub mod ast;
pub mod config;
pub mod expression_utils;
pub mod formula_config;
pub mod grammar;
pub mod latex_generator;
pub mod printer;
pub mod simplify_expr;

pub use ast::bool_to_rounding;
pub use ast::Expr;
pub use ast::Opcode;
pub use ast::Rounding;
pub use config::Config;
pub use formula_config::FormulaConfig;
