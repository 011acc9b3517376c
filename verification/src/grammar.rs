//! The formula grammar: turns formula text into an expression tree.
//!
//! Formulas use `+ - * /`, the power operator `**`, parentheses, decimal
//! number literals and alphabetic identifiers. `*` and `/` bind tighter than
//! `+` and `-`, unary minus binds tighter still, and `**` tightest of all;
//! `+ - * /` associate to the left.

use vstd::prelude::*;
use vstd::string::StrSliceExecFns;

use crate::ast::expr_model;
use crate::ast::Expr;
use crate::ast::ExprModel;
use crate::ast::Opcode;
use crate::ast::Rounding;

verus! {

/// A lexical token of the formula grammar.
pub enum Token {
    Plus,
    Minus,
    Star,
    Slash,
    DStar,
    LParen,
    RParen,
    Num(i32),
    Ident(String),
}

/// The mathematical model of a token, with the identifier as a character
/// sequence.
pub enum TokenModel {
    Plus,
    Minus,
    Star,
    Slash,
    DStar,
    LParen,
    RParen,
    Num(int),
    Ident(Seq<char>),
}

/// The model of a token.
pub open spec fn token_model(t: Token) -> TokenModel {
    match t {
        Token::Plus => TokenModel::Plus,
        Token::Minus => TokenModel::Minus,
        Token::Star => TokenModel::Star,
        Token::Slash => TokenModel::Slash,
        Token::DStar => TokenModel::DStar,
        Token::LParen => TokenModel::LParen,
        Token::RParen => TokenModel::RParen,
        Token::Num(n) => TokenModel::Num(n as int),
        Token::Ident(s) => TokenModel::Ident(s@),
    }
}

/// The models of a token sequence.
pub open spec fn tokens_model(ts: Seq<Token>) -> Seq<TokenModel> {
    ts.map_values(|t: Token| token_model(t))
}

/// Whether `c` is a decimal digit.
pub open spec fn is_digit(c: char) -> bool {
    '0' <= c && c <= '9'
}

/// Whether `c` is an ASCII letter.
pub open spec fn is_alpha(c: char) -> bool {
    ('a' <= c && c <= 'z') || ('A' <= c && c <= 'Z')
}

/// Whether `c` is whitespace that the grammar skips.
pub open spec fn is_space(c: char) -> bool {
    c == ' ' || c == '\t' || c == '\r' || c == '\n'
}

/// The numeric value of a digit character.
pub open spec fn digit_val(c: char) -> int {
    c as int - '0' as int
}

/// The length of the run of digits starting at `i`.
pub open spec fn num_len(s: Seq<char>, i: nat) -> nat
    decreases s.len() - i,
    when i <= s.len()
{
    if i < s.len() && is_digit(s[i as int]) {
        1 + num_len(s, i + 1)
    } else {
        0
    }
}

/// The length of the run of letters starting at `i`.
pub open spec fn ident_len(s: Seq<char>, i: nat) -> nat
    decreases s.len() - i,
    when i <= s.len()
{
    if i < s.len() && is_alpha(s[i as int]) {
        1 + ident_len(s, i + 1)
    } else {
        0
    }
}

/// The value of the digit run `s[i..j)`.
pub open spec fn num_val(s: Seq<char>, i: nat, j: nat) -> int
    decreases j - i,
    when i <= j
{
    if i >= j {
        0
    } else {
        num_val(s, i, (j - 1) as nat) * 10 + digit_val(s[j - 1])
    }
}

/// The largest value a number literal may take.
pub open spec fn max_literal() -> int {
    0x7fff_ffff
}

/// The token models of the formula text from position `i` on: whitespace is
/// skipped, `**` is one token (taken greedily before `*`), a digit starts a
/// number literal (rejected when it exceeds `max_literal()`), a letter
/// starts an identifier, and any other character is rejected.
pub open spec fn spec_tokens(s: Seq<char>, i: nat) -> Option<Seq<TokenModel>>
    decreases s.len() - i,
    when i <= s.len()
{
    if i >= s.len() {
        Option::Some(Seq::<TokenModel>::empty())
    } else {
        let c = s[i as int];
        if is_space(c) {
            spec_tokens(s, i + 1)
        } else if c == '+' {
            cons_token(TokenModel::Plus, spec_tokens(s, i + 1))
        } else if c == '-' {
            cons_token(TokenModel::Minus, spec_tokens(s, i + 1))
        } else if c == '/' {
            cons_token(TokenModel::Slash, spec_tokens(s, i + 1))
        } else if c == '(' {
            cons_token(TokenModel::LParen, spec_tokens(s, i + 1))
        } else if c == ')' {
            cons_token(TokenModel::RParen, spec_tokens(s, i + 1))
        } else if c == '*' {
            if i + 1 < s.len() && s[i as int + 1] == '*' {
                cons_token(TokenModel::DStar, spec_tokens(s, i + 2))
            } else {
                cons_token(TokenModel::Star, spec_tokens(s, i + 1))
            }
        } else if is_digit(c) {
            let j0 = i + num_len(s, i);
            let j = if j0 <= s.len() {
                j0
            } else {
                s.len()
            };
            let v = num_val(s, i, j);
            if v <= max_literal() {
                cons_token(TokenModel::Num(v), spec_tokens(s, j))
            } else {
                Option::None
            }
        } else if is_alpha(c) {
            let j0 = i + ident_len(s, i);
            let j = if j0 <= s.len() {
                j0
            } else {
                s.len()
            };
            cons_token(TokenModel::Ident(s.subrange(i as int, j as int)), spec_tokens(s, j))
        } else {
            Option::None
        }
    }
}

/// Prepends a token to a tokenization result.
pub open spec fn cons_token(t: TokenModel, rest: Option<Seq<TokenModel>>) -> Option<
    Seq<TokenModel>,
> {
    match rest {
        Option::Some(ts) => Option::Some(seq![t] + ts),
        Option::None => Option::None,
    }
}

/// Appends pending tokens in front of a tokenization result.
pub open spec fn tokens_then(pre: Seq<TokenModel>, rest: Option<Seq<TokenModel>>) -> Option<
    Seq<TokenModel>,
> {
    match rest {
        Option::Some(ts) => Option::Some(pre + ts),
        Option::None => Option::None,
    }
}

fn ch_is_digit(c: char) -> (r: bool)
    ensures
        r == is_digit(c),
{
    c >= '0' && c <= '9'
}

fn ch_is_alpha(c: char) -> (r: bool)
    ensures
        r == is_alpha(c),
{
    (c >= 'a' && c <= 'z') || (c >= 'A' && c <= 'Z')
}

fn ch_is_space(c: char) -> (r: bool)
    ensures
        r == is_space(c),
{
    c == ' ' || c == '\t' || c == '\r' || c == '\n'
}

/// Turns the formula text into tokens; fails on a character the grammar does
/// not know or on a number literal beyond `max_literal()`.
fn tokenize(s: &str) -> (r: Option<Vec<Token>>)
    ensures
        match r {
            Option::Some(v) => spec_tokens(s@, 0) == Option::Some(tokens_model(v@)),
            Option::None => spec_tokens(s@, 0) is None,
        },
{
    let n = s.unicode_len();
    let mut tokens: Vec<Token> = Vec::new();
    let mut i: usize = 0;
    while i < n
        invariant
            n == s@.len(),
            i <= n,
            spec_tokens(s@, 0) == tokens_then(tokens_model(tokens@), spec_tokens(s@, i as nat)),
        decreases n - i,
    {
        let c = s.get_char(i);
        let ghost toks0 = tokens@;
        if ch_is_space(c) {
            i = i + 1;
        } else if c == '+' {
            tokens.push(Token::Plus);
            i = i + 1;
            proof {
                lemma_push_token(toks0, Token::Plus, spec_tokens(s@, i as nat));
            }
        } else if c == '-' {
            tokens.push(Token::Minus);
            i = i + 1;
            proof {
                lemma_push_token(toks0, Token::Minus, spec_tokens(s@, i as nat));
            }
        } else if c == '/' {
            tokens.push(Token::Slash);
            i = i + 1;
            proof {
                lemma_push_token(toks0, Token::Slash, spec_tokens(s@, i as nat));
            }
        } else if c == '(' {
            tokens.push(Token::LParen);
            i = i + 1;
            proof {
                lemma_push_token(toks0, Token::LParen, spec_tokens(s@, i as nat));
            }
        } else if c == ')' {
            tokens.push(Token::RParen);
            i = i + 1;
            proof {
                lemma_push_token(toks0, Token::RParen, spec_tokens(s@, i as nat));
            }
        } else if c == '*' {
            if i + 1 < n && s.get_char(i + 1) == '*' {
                tokens.push(Token::DStar);
                i = i + 2;
                proof {
                    lemma_push_token(toks0, Token::DStar, spec_tokens(s@, i as nat));
                }
            } else {
                tokens.push(Token::Star);
                i = i + 1;
                proof {
                    lemma_push_token(toks0, Token::Star, spec_tokens(s@, i as nat));
                }
            }
        } else if ch_is_digit(c) {
            let start = i;
            let mut val: u64 = 0;
            let mut too_big = false;
            while i < n && ch_is_digit(s.get_char(i))
                invariant
                    n == s@.len(),
                    start <= i <= n,
                    num_len(s@, start as nat) == (i - start) + num_len(s@, i as nat),
                    forall|p: int| start <= p < i ==> is_digit(s@[p]),
                    !too_big ==> val == num_val(s@, start as nat, i as nat) && val
                        <= 0x7fff_ffffu64,
                    too_big ==> num_val(s@, start as nat, i as nat) > max_literal(),
                decreases n - i,
            {
                let d = (c_digit(s.get_char(i))) as u64;
                proof {
                    assert(num_len(s@, i as nat) == 1 + num_len(s@, (i + 1) as nat));
                    assert(num_val(s@, start as nat, (i + 1) as nat) == num_val(
                        s@,
                        start as nat,
                        i as nat,
                    ) * 10 + digit_val(s@[i as int]));
                }
                if too_big {
                    proof {
                        assert(num_val(s@, start as nat, (i + 1) as nat) > max_literal());
                    }
                } else {
                    let next = val * 10 + d;
                    if next > 0x7fff_ffffu64 {
                        too_big = true;
                    } else {
                        val = next;
                    }
                }
                i = i + 1;
            }
            proof {
                assert(num_len(s@, i as nat) == 0);
                assert(num_len(s@, start as nat) == i - start);
            }
            if too_big {
                return None;
            }
            tokens.push(Token::Num(val as i32));
            proof {
                lemma_push_token(toks0, Token::Num(val as i32), spec_tokens(s@, i as nat));
            }
        } else if ch_is_alpha(c) {
            let start = i;
            while i < n && ch_is_alpha(s.get_char(i))
                invariant
                    n == s@.len(),
                    start <= i <= n,
                    ident_len(s@, start as nat) == (i - start) + ident_len(s@, i as nat),
                decreases n - i,
            {
                proof {
                    assert(ident_len(s@, i as nat) == 1 + ident_len(s@, (i + 1) as nat));
                }
                i = i + 1;
            }
            proof {
                assert(ident_len(s@, i as nat) == 0);
                assert(ident_len(s@, start as nat) == i - start);
            }
            let name = s.substring_char(start, i).to_owned();
            proof {
                lemma_push_token(toks0, Token::Ident(name), spec_tokens(s@, i as nat));
            }
            tokens.push(Token::Ident(name));
        } else {
            return None;
        }
    }
    proof {
        assert(spec_tokens(s@, i as nat) == Option::Some(Seq::<TokenModel>::empty()));
        assert(tokens_model(tokens@) + Seq::<TokenModel>::empty() =~= tokens_model(tokens@));
    }
    Some(tokens)
}

fn c_digit(c: char) -> (d: u32)
    requires
        is_digit(c),
    ensures
        d == digit_val(c),
        d < 10,
{
    (c as u32) - ('0' as u32)
}

/// Pushing one token onto the collected prefix keeps the tokenization
/// decomposition intact.
proof fn lemma_push_token(toks0: Seq<Token>, tok: Token, rest: Option<Seq<TokenModel>>)
    ensures
        tokens_then(tokens_model(toks0), cons_token(token_model(tok), rest)) == tokens_then(
            tokens_model(toks0.push(tok)),
            rest,
        ),
{
    assert(tokens_model(toks0.push(tok)) =~= tokens_model(toks0).push(token_model(tok)));
    match rest {
        Option::Some(ts) => {
            assert(tokens_model(toks0) + (seq![token_model(tok)] + ts) =~= tokens_model(
                toks0,
            ).push(token_model(tok)) + ts);
        },
        Option::None => {},
    }
}

/// How an executable parse step states its model: equal models and equal
/// next positions on success, and failure exactly together.
pub open spec fn parse_matches(r: Option<(Expr, usize)>, s: Option<(ExprModel, nat)>) -> bool {
    match r {
        Option::Some(p) => s == Option::Some((expr_model(p.0), p.1 as nat)),
        Option::None => s is None,
    }
}

/// A sum: a factor followed by `+`- or `-`-factors, associated to the left.
pub open spec fn spec_parse_expr(ts: Seq<TokenModel>, i: nat) -> Option<(ExprModel, nat)>
    decreases ts.len() - i, 5int,
    when i <= ts.len()
{
    match spec_parse_factor(ts, i) {
        Option::Some(p) => if i < p.1 <= ts.len() {
            spec_parse_expr_tail(ts, p.0, p.1)
        } else {
            Option::None
        },
        Option::None => Option::None,
    }
}

/// The `+`/`-` continuations of a sum.
pub open spec fn spec_parse_expr_tail(ts: Seq<TokenModel>, acc: ExprModel, i: nat) -> Option<
    (ExprModel, nat),
>
    decreases ts.len() - i, 6int,
    when i <= ts.len()
{
    if i < ts.len() && (ts[i as int] is Plus || ts[i as int] is Minus) {
        match spec_parse_factor(ts, i + 1) {
            Option::Some(p) => if i < p.1 <= ts.len() {
                let op = if ts[i as int] is Plus {
                    Opcode::Add
                } else {
                    Opcode::Sub
                };
                spec_parse_expr_tail(ts, ExprModel::Op(Box::new(acc), op, Box::new(p.0)), p.1)
            } else {
                Option::None
            },
            Option::None => Option::None,
        }
    } else {
        Option::Some((acc, i))
    }
}

/// A product: a unary operand followed by `*`- or `/`-operands, associated
/// to the left.
pub open spec fn spec_parse_factor(ts: Seq<TokenModel>, i: nat) -> Option<(ExprModel, nat)>
    decreases ts.len() - i, 3int,
    when i <= ts.len()
{
    match spec_parse_unary(ts, i) {
        Option::Some(p) => if i < p.1 <= ts.len() {
            spec_parse_factor_tail(ts, p.0, p.1)
        } else {
            Option::None
        },
        Option::None => Option::None,
    }
}

/// The `*`/`/` continuations of a product; a fresh operator is unannotated.
pub open spec fn spec_parse_factor_tail(ts: Seq<TokenModel>, acc: ExprModel, i: nat) -> Option<
    (ExprModel, nat),
>
    decreases ts.len() - i, 4int,
    when i <= ts.len()
{
    if i < ts.len() && (ts[i as int] is Star || ts[i as int] is Slash) {
        match spec_parse_unary(ts, i + 1) {
            Option::Some(p) => if i < p.1 <= ts.len() {
                let op = if ts[i as int] is Star {
                    Opcode::Mul(Rounding::Init)
                } else {
                    Opcode::Div(Rounding::Init)
                };
                spec_parse_factor_tail(ts, ExprModel::Op(Box::new(acc), op, Box::new(p.0)), p.1)
            } else {
                Option::None
            },
            Option::None => Option::None,
        }
    } else {
        Option::Some((acc, i))
    }
}

/// A possibly negated operand: any number of leading `-` signs, then a
/// power.
pub open spec fn spec_parse_unary(ts: Seq<TokenModel>, i: nat) -> Option<(ExprModel, nat)>
    decreases ts.len() - i, 2int,
    when i <= ts.len()
{
    if i < ts.len() && ts[i as int] is Minus {
        match spec_parse_unary(ts, i + 1) {
            Option::Some(p) => Option::Some((ExprModel::Negative(Box::new(p.0)), p.1)),
            Option::None => Option::None,
        }
    } else {
        spec_parse_power(ts, i)
    }
}

/// A power: an atom, optionally raised by `**` to a unary exponent (so the
/// exponent may carry its own `-` signs).
pub open spec fn spec_parse_power(ts: Seq<TokenModel>, i: nat) -> Option<(ExprModel, nat)>
    decreases ts.len() - i, 1int,
    when i <= ts.len()
{
    match spec_parse_atom(ts, i) {
        Option::Some(p) => if i < p.1 <= ts.len() {
            if p.1 < ts.len() && ts[p.1 as int] is DStar {
                match spec_parse_unary(ts, p.1 + 1) {
                    Option::Some(q) => Option::Some(
                        (ExprModel::Op(Box::new(p.0), Opcode::Pow, Box::new(q.0)), q.1),
                    ),
                    Option::None => Option::None,
                }
            } else {
                Option::Some(p)
            }
        } else {
            Option::None
        },
        Option::None => Option::None,
    }
}

/// An atom: a number literal, an identifier, or a parenthesized sum.
pub open spec fn spec_parse_atom(ts: Seq<TokenModel>, i: nat) -> Option<(ExprModel, nat)>
    decreases ts.len() - i, 0int,
    when i <= ts.len()
{
    if i >= ts.len() {
        Option::None
    } else {
        match ts[i as int] {
            TokenModel::Num(n) => Option::Some((ExprModel::Number(n), (i + 1) as nat)),
            TokenModel::Ident(nm) => Option::Some((ExprModel::Id(nm), (i + 1) as nat)),
            TokenModel::LParen => match spec_parse_expr(ts, i + 1) {
                Option::Some(p) => if p.1 < ts.len() && ts[p.1 as int] is RParen {
                    Option::Some((p.0, (p.1 + 1) as nat))
                } else {
                    Option::None
                },
                Option::None => Option::None,
            },
            _ => Option::None,
        }
    }
}

/// The model-level parse of a whole formula: tokenize, parse one sum, and
/// require that it consumes every token.
pub open spec fn spec_parse_formula(s: Seq<char>) -> Option<ExprModel> {
    match spec_tokens(s, 0) {
        Option::None => Option::None,
        Option::Some(ts) => match spec_parse_expr(ts, 0) {
            Option::Some(p) => if p.1 == ts.len() {
                Option::Some(p.0)
            } else {
                Option::None
            },
            Option::None => Option::None,
        },
    }
}


fn parse_expr(toks: &Vec<Token>, pos: usize) -> (r: Option<(Expr, usize)>)
    requires
        pos <= toks@.len(),
    ensures
        parse_matches(r, spec_parse_expr(tokens_model(toks@), pos as nat)),
    decreases toks@.len() - pos, 5int,
{
    match parse_factor(toks, pos) {
        Option::None => None,
        Option::Some((m, j)) => {
            if pos < j && j <= toks.len() {
                parse_expr_tail(toks, m, j)
            } else {
                None
            }
        },
    }
}

fn parse_expr_tail(toks: &Vec<Token>, acc: Expr, pos: usize) -> (r: Option<(Expr, usize)>)
    requires
        pos <= toks@.len(),
    ensures
        parse_matches(
            r,
            spec_parse_expr_tail(tokens_model(toks@), expr_model(acc), pos as nat),
        ),
    decreases toks@.len() - pos, 6int,
{
    proof {
        if pos < toks@.len() {
            assert(tokens_model(toks@)[pos as int] == token_model(toks@[pos as int]));
        }
    }
    if pos < toks.len() {
        let is_add = matches!(&toks[pos], Token::Plus);
        let is_sub = matches!(&toks[pos], Token::Minus);
        if is_add || is_sub {
            match parse_factor(toks, pos + 1) {
                Option::None => None,
                Option::Some((m, j)) => {
                    if pos < j && j <= toks.len() {
                        let op = if is_add {
                            Opcode::Add
                        } else {
                            Opcode::Sub
                        };
                        parse_expr_tail(toks, Expr::Op(Box::new(acc), op, Box::new(m)), j)
                    } else {
                        None
                    }
                },
            }
        } else {
            Some((acc, pos))
        }
    } else {
        Some((acc, pos))
    }
}

fn parse_factor(toks: &Vec<Token>, pos: usize) -> (r: Option<(Expr, usize)>)
    requires
        pos <= toks@.len(),
    ensures
        parse_matches(r, spec_parse_factor(tokens_model(toks@), pos as nat)),
    decreases toks@.len() - pos, 3int,
{
    match parse_unary(toks, pos) {
        Option::None => None,
        Option::Some((m, j)) => {
            if pos < j && j <= toks.len() {
                parse_factor_tail(toks, m, j)
            } else {
                None
            }
        },
    }
}

fn parse_factor_tail(toks: &Vec<Token>, acc: Expr, pos: usize) -> (r: Option<(Expr, usize)>)
    requires
        pos <= toks@.len(),
    ensures
        parse_matches(
            r,
            spec_parse_factor_tail(tokens_model(toks@), expr_model(acc), pos as nat),
        ),
    decreases toks@.len() - pos, 4int,
{
    proof {
        if pos < toks@.len() {
            assert(tokens_model(toks@)[pos as int] == token_model(toks@[pos as int]));
        }
    }
    if pos < toks.len() {
        let is_mul = matches!(&toks[pos], Token::Star);
        let is_div = matches!(&toks[pos], Token::Slash);
        if is_mul || is_div {
            match parse_unary(toks, pos + 1) {
                Option::None => None,
                Option::Some((m, j)) => {
                    if pos < j && j <= toks.len() {
                        let op = if is_mul {
                            Opcode::Mul(Rounding::Init)
                        } else {
                            Opcode::Div(Rounding::Init)
                        };
                        parse_factor_tail(toks, Expr::Op(Box::new(acc), op, Box::new(m)), j)
                    } else {
                        None
                    }
                },
            }
        } else {
            Some((acc, pos))
        }
    } else {
        Some((acc, pos))
    }
}

fn parse_unary(toks: &Vec<Token>, pos: usize) -> (r: Option<(Expr, usize)>)
    requires
        pos <= toks@.len(),
    ensures
        parse_matches(r, spec_parse_unary(tokens_model(toks@), pos as nat)),
    decreases toks@.len() - pos, 2int,
{
    proof {
        if pos < toks@.len() {
            assert(tokens_model(toks@)[pos as int] == token_model(toks@[pos as int]));
        }
    }
    if pos < toks.len() && matches!(&toks[pos], Token::Minus) {
        match parse_unary(toks, pos + 1) {
            Option::None => None,
            Option::Some((m, j)) => Some((Expr::Negative(Box::new(m)), j)),
        }
    } else {
        parse_power(toks, pos)
    }
}

fn parse_power(toks: &Vec<Token>, pos: usize) -> (r: Option<(Expr, usize)>)
    requires
        pos <= toks@.len(),
    ensures
        parse_matches(r, spec_parse_power(tokens_model(toks@), pos as nat)),
    decreases toks@.len() - pos, 1int,
{
    match parse_atom(toks, pos) {
        Option::None => None,
        Option::Some((m, j)) => {
            if pos < j && j <= toks.len() {
                proof {
                    if j < toks@.len() {
                        assert(tokens_model(toks@)[j as int] == token_model(toks@[j as int]));
                    }
                }
                if j < toks.len() && matches!(&toks[j], Token::DStar) {
                    match parse_unary(toks, j + 1) {
                        Option::None => None,
                        Option::Some((m2, k)) => Some(
                            (Expr::Op(Box::new(m), Opcode::Pow, Box::new(m2)), k),
                        ),
                    }
                } else {
                    Some((m, j))
                }
            } else {
                None
            }
        },
    }
}

fn parse_atom(toks: &Vec<Token>, pos: usize) -> (r: Option<(Expr, usize)>)
    requires
        pos <= toks@.len(),
    ensures
        parse_matches(r, spec_parse_atom(tokens_model(toks@), pos as nat)),
    decreases toks@.len() - pos, 0int,
{
    proof {
        if pos < toks@.len() {
            assert(tokens_model(toks@)[pos as int] == token_model(toks@[pos as int]));
        }
    }
    if pos >= toks.len() {
        None
    } else {
        match &toks[pos] {
            Token::Num(n) => Some((Expr::Number(*n), pos + 1)),
            Token::Ident(nm) => Some((Expr::Id(nm.clone()), pos + 1)),
            Token::LParen => match parse_expr(toks, pos + 1) {
                Option::None => None,
                Option::Some((m, j)) => {
                    proof {
                        if j < toks@.len() {
                            assert(tokens_model(toks@)[j as int] == token_model(
                                toks@[j as int],
                            ));
                        }
                    }
                    if j < toks.len() && matches!(&toks[j], Token::RParen) {
                        Some((m, j + 1))
                    } else {
                        None
                    }
                },
            },
            _ => None,
        }
    }
}

/// A rejected formula; it carries the formula text itself.
#[derive(Debug)]
pub struct ParseError {
    /// The text that could not be parsed.
    pub formula: String,
}

/// Parses formula text into an expression tree. The result's model is
/// exactly `spec_parse_formula` of the text: the grammar accepts `+ - * /`,
/// `**` and parentheses over number literals (up to `max_literal()`) and
/// alphabetic identifiers, and rejects everything else.
pub fn parse(formula: &str) -> (r: Result<Expr, ParseError>)
    ensures
        match r {
            Result::Ok(e) => spec_parse_formula(formula@) == Option::Some(expr_model(e)),
            Result::Err(pe) => spec_parse_formula(formula@) is None && pe.formula@ == formula@,
        },
{
    match tokenize(formula) {
        Option::None => Err(ParseError { formula: formula.to_owned() }),
        Option::Some(toks) => {
            proof {
                assert(tokens_model(toks@).len() == toks@.len());
            }
            match parse_expr(&toks, 0) {
                Option::Some((e, j)) => {
                    if j == toks.len() {
                        Ok(e)
                    } else {
                        Err(ParseError { formula: formula.to_owned() })
                    }
                },
                Option::None => Err(ParseError { formula: formula.to_owned() }),
            }
        },
    }
}

} // verus!
