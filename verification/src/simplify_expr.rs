//! Sign canonicalization: negation is pushed outward, double negation is
//! removed, sums are rearranged to avoid a leading negative operand, and a
//! negative exponent is rewritten as a reciprocal.

use vstd::prelude::*;

use crate::ast::Expr;
use crate::ast::Opcode;
use crate::ast::Rounding;

verus! {

/// The number of operator and negation nodes in an expression: the measure
/// that bounds the canonicalization recursion.
pub open spec fn mu(e: Expr) -> nat
    decreases e,
{
    match e {
        Expr::Negative(x) => 1 + mu(*x),
        Expr::Op(l, _, r) => 1 + mu(*l) + mu(*r),
        _ => 0,
    }
}

/// Sign extraction: splits an expression into a sign and a magnitude.
/// Double negation is unwrapped; an operator node is canonicalized first, so
/// that a product of negatives, say, contributes no sign.
pub open spec fn spec_extract_sign(e: Expr) -> (bool, Expr)
    decreases mu(e), 1int,
    via spec_extract_sign_decreases
{
    match e {
        Expr::Negative(x) => match *x {
            Expr::Negative(inner) => spec_extract_sign(*inner),
            _ => (true, *x),
        },
        Expr::Op(l, op, r) => {
            let s = spec_simplify(e);
            match s {
                Expr::Negative(m) => (true, *m),
                _ => (false, s),
            }
        },
        _ => (false, e),
    }
}

#[via_fn]
proof fn spec_extract_sign_decreases(e: Expr) {
    match e {
        Expr::Negative(x) => match *x {
            Expr::Negative(inner) => {
                assert(mu(e) == 1 + mu(*x));
                assert(mu(*x) == 1 + mu(*inner));
            },
            _ => {},
        },
        _ => {},
    }
}

/// How a sum combines the signed magnitudes of its operands.
pub open spec fn spec_combine_add(ln: bool, lm: Expr, rn: bool, rm: Expr) -> Expr {
    if ln && !rn {
        Expr::Op(Box::new(rm), Opcode::Sub, Box::new(lm))
    } else if ln && rn {
        Expr::Negative(Box::new(Expr::Op(Box::new(lm), Opcode::Add, Box::new(rm))))
    } else if !ln && rn {
        Expr::Op(Box::new(lm), Opcode::Sub, Box::new(rm))
    } else {
        Expr::Op(Box::new(lm), Opcode::Add, Box::new(rm))
    }
}

/// How a difference combines the signed magnitudes of its operands.
pub open spec fn spec_combine_sub(ln: bool, lm: Expr, rn: bool, rm: Expr) -> Expr {
    if ln && !rn {
        Expr::Negative(Box::new(Expr::Op(Box::new(lm), Opcode::Add, Box::new(rm))))
    } else if ln && rn {
        Expr::Op(Box::new(rm), Opcode::Sub, Box::new(lm))
    } else if !ln && rn {
        Expr::Op(Box::new(lm), Opcode::Add, Box::new(rm))
    } else {
        Expr::Op(Box::new(lm), Opcode::Sub, Box::new(rm))
    }
}

/// How a product combines the signed magnitudes of its operands: differing
/// signs move the negation outward, onto a fresh unannotated node; equal
/// signs cancel and the original annotation is kept.
pub open spec fn spec_combine_mul(ln: bool, lm: Expr, rn: bool, rm: Expr, slot: Rounding) -> Expr {
    if ln != rn {
        Expr::Negative(
            Box::new(Expr::Op(Box::new(lm), Opcode::Mul(Rounding::Init), Box::new(rm))),
        )
    } else {
        Expr::Op(Box::new(lm), Opcode::Mul(slot), Box::new(rm))
    }
}

/// How a quotient combines the signed magnitudes of its operands; as for a
/// product.
pub open spec fn spec_combine_div(ln: bool, lm: Expr, rn: bool, rm: Expr, slot: Rounding) -> Expr {
    if ln != rn {
        Expr::Negative(
            Box::new(Expr::Op(Box::new(lm), Opcode::Div(Rounding::Init), Box::new(rm))),
        )
    } else {
        Expr::Op(Box::new(lm), Opcode::Div(slot), Box::new(rm))
    }
}

/// How a power combines the magnitudes of its operands: a negative exponent
/// turns the node into a reciprocal, `1 / (base ** exponent)`, with a fresh
/// unannotated division; the base's sign is left unused.
pub open spec fn spec_combine_pow(lm: Expr, rn: bool, rm: Expr) -> Expr {
    if rn {
        Expr::Op(
            Box::new(Expr::Number(1)),
            Opcode::Div(Rounding::Init),
            Box::new(Expr::Op(Box::new(lm), Opcode::Pow, Box::new(rm))),
        )
    } else {
        Expr::Op(Box::new(lm), Opcode::Pow, Box::new(rm))
    }
}

/// Sign canonicalization of a tree. Operator children are canonicalized
/// first, then each operand is split into sign and magnitude and the operator
/// combines the two signed magnitudes. Non-operator roots are unchanged.
///
/// The inner measure tests never fail (`lemma_mu_simplify` below); they make
/// the recursion's termination measure self-evident.
pub open spec fn spec_simplify(e: Expr) -> Expr
    decreases mu(e), 0int,
{
    match e {
        Expr::Op(l, op, r) => {
            let sl0 = if *l is Op {
                spec_simplify(*l)
            } else {
                *l
            };
            let sl = if mu(sl0) <= mu(*l) {
                sl0
            } else {
                *l
            };
            let sr0 = if *r is Op {
                spec_simplify(*r)
            } else {
                *r
            };
            let sr = if mu(sr0) <= mu(*r) {
                sr0
            } else {
                *r
            };
            let lnv = spec_extract_sign(sl);
            let rnv = spec_extract_sign(sr);
            match op {
                Opcode::Add => spec_combine_add(lnv.0, lnv.1, rnv.0, rnv.1),
                Opcode::Sub => spec_combine_sub(lnv.0, lnv.1, rnv.0, rnv.1),
                Opcode::Mul(s0) => spec_combine_mul(lnv.0, lnv.1, rnv.0, rnv.1, s0),
                Opcode::Div(s0) => spec_combine_div(lnv.0, lnv.1, rnv.0, rnv.1, s0),
                Opcode::Pow => spec_combine_pow(lnv.1, rnv.0, rnv.1),
            }
        },
        _ => e,
    }
}

/// Canonicalization never increases the measure, so the measure tests inside
/// `spec_simplify` always take their first branch.
pub proof fn lemma_mu_simplify(e: Expr)
    ensures
        mu(spec_simplify(e)) <= mu(e),
    decreases mu(e), 0int,
{
    match e {
        Expr::Op(l, op, r) => {
            assert(mu(e) == 1 + mu(*l) + mu(*r));
            let sl0 = if *l is Op {
                spec_simplify(*l)
            } else {
                *l
            };
            let sl = if mu(sl0) <= mu(*l) {
                sl0
            } else {
                *l
            };
            let sr0 = if *r is Op {
                spec_simplify(*r)
            } else {
                *r
            };
            let sr = if mu(sr0) <= mu(*r) {
                sr0
            } else {
                *r
            };
            lemma_mu_extract(sl);
            lemma_mu_extract(sr);
            let lnv = spec_extract_sign(sl);
            let rnv = spec_extract_sign(sr);
            let s = spec_simplify(e);
            match op {
                Opcode::Add => {
                    assert(s == spec_combine_add(lnv.0, lnv.1, rnv.0, rnv.1));
                    assert(mu(s) <= mu(e)) by {
                        lemma_mu_pair(lnv.1, rnv.1);
                        lemma_mu_pair(rnv.1, lnv.1);
                    }
                },
                Opcode::Sub => {
                    assert(s == spec_combine_sub(lnv.0, lnv.1, rnv.0, rnv.1));
                    assert(mu(s) <= mu(e)) by {
                        lemma_mu_pair(lnv.1, rnv.1);
                        lemma_mu_pair(rnv.1, lnv.1);
                    }
                },
                Opcode::Mul(s0) => {
                    assert(s == spec_combine_mul(lnv.0, lnv.1, rnv.0, rnv.1, s0));
                    assert(mu(s) <= mu(e)) by {
                        lemma_mu_pair(lnv.1, rnv.1);
                    }
                },
                Opcode::Div(s0) => {
                    assert(s == spec_combine_div(lnv.0, lnv.1, rnv.0, rnv.1, s0));
                    assert(mu(s) <= mu(e)) by {
                        lemma_mu_pair(lnv.1, rnv.1);
                    }
                },
                Opcode::Pow => {
                    assert(s == spec_combine_pow(lnv.1, rnv.0, rnv.1));
                    assert(mu(s) <= mu(e)) by {
                        lemma_mu_pair(lnv.1, rnv.1);
                        lemma_mu_pair(
                            Expr::Number(1),
                            Expr::Op(Box::new(lnv.1), Opcode::Pow, Box::new(rnv.1)),
                        );
                        assert(mu(Expr::Number(1)) == 0);
                    }
                },
            }
        },
        _ => {},
    }
}

/// Unfolds the measure of the node shapes that the combination steps build.
proof fn lemma_mu_pair(a: Expr, b: Expr)
    ensures
        forall|op: Opcode| #[trigger] mu(Expr::Op(Box::new(a), op, Box::new(b))) == 1 + mu(a) + mu(
            b,
        ),
        forall|op: Opcode| #[trigger] mu(
            Expr::Negative(Box::new(Expr::Op(Box::new(a), op, Box::new(b)))),
        ) == 2 + mu(a) + mu(b),
{
    assert forall|op: Opcode| #[trigger] mu(Expr::Op(Box::new(a), op, Box::new(b))) == 1 + mu(a)
        + mu(b) by {
        assert(mu(Expr::Op(Box::new(a), op, Box::new(b))) == 1 + mu(a) + mu(b));
    }
    assert forall|op: Opcode| #[trigger] mu(
        Expr::Negative(Box::new(Expr::Op(Box::new(a), op, Box::new(b)))),
    ) == 2 + mu(a) + mu(b) by {
        assert(mu(Expr::Op(Box::new(a), op, Box::new(b))) == 1 + mu(a) + mu(b));
        assert(mu(Expr::Negative(Box::new(Expr::Op(Box::new(a), op, Box::new(b))))) == 1 + mu(
            Expr::Op(Box::new(a), op, Box::new(b)),
        ));
    }
}

/// The magnitude extracted from an expression has a smaller measure than the
/// expression itself whenever a sign was extracted, and never a larger one.
pub proof fn lemma_mu_extract(e: Expr)
    ensures
        mu(spec_extract_sign(e).1) <= mu(e),
        spec_extract_sign(e).0 ==> mu(spec_extract_sign(e).1) < mu(e),
    decreases mu(e), 1int,
{
    match e {
        Expr::Negative(x) => match *x {
            Expr::Negative(inner) => {
                assert(mu(e) == 1 + mu(*x));
                assert(mu(*x) == 1 + mu(*inner));
                lemma_mu_extract(*inner);
            },
            _ => {
                assert(mu(e) == 1 + mu(*x));
            },
        },
        Expr::Op(l, op, r) => {
            lemma_mu_simplify(e);
            let s = spec_simplify(e);
            match s {
                Expr::Negative(m) => {
                    assert(mu(s) == 1 + mu(*m));
                },
                _ => {},
            }
        },
        _ => {},
    }
}

/// No negation node occurs anywhere in the expression.
pub open spec fn neg_free(e: Expr) -> bool
    decreases e,
{
    match e {
        Expr::Negative(_) => false,
        Expr::Op(l, _, r) => neg_free(*l) && neg_free(*r),
        _ => true,
    }
}

/// The expressions on which sign extraction loses no pending rewrite: under
/// every operator, and at the top, an operand wrapped in an odd number of
/// negations is negation-free inside. (Extraction hands such an operand out
/// unsimplified, so a negation hidden inside it would survive one pass and
/// only be rewritten by the next one.)
pub open spec fn extractable(e: Expr) -> bool
    decreases e,
{
    match e {
        Expr::Negative(x) => match *x {
            Expr::Negative(y) => extractable(*y),
            _ => neg_free(*x),
        },
        Expr::Op(l, _, r) => extractable(*l) && extractable(*r),
        _ => true,
    }
}

/// A canonicalization result: negation-free, or a single negation wrapped
/// around a negation-free magnitude.
pub open spec fn sign_canonical(e: Expr) -> bool {
    neg_free(e) || (e matches Expr::Negative(m) && neg_free(*m))
}

/// Unfolds `neg_free` on the node shapes that the combination steps build.
proof fn lemma_neg_free_pair(a: Expr, b: Expr)
    ensures
        forall|op: Opcode| #[trigger] neg_free(Expr::Op(Box::new(a), op, Box::new(b))) == (
        neg_free(a) && neg_free(b)),
        forall|op: Opcode|
            #[trigger] sign_canonical(
                Expr::Negative(Box::new(Expr::Op(Box::new(a), op, Box::new(b)))),
            ) == (neg_free(a) && neg_free(b)),
{
    assert forall|op: Opcode| #[trigger] neg_free(Expr::Op(Box::new(a), op, Box::new(b))) == (
    neg_free(a) && neg_free(b)) by {
        assert(neg_free(Expr::Op(Box::new(a), op, Box::new(b))) == (neg_free(a) && neg_free(b)));
    }
    assert forall|op: Opcode|
        #[trigger] sign_canonical(
            Expr::Negative(Box::new(Expr::Op(Box::new(a), op, Box::new(b)))),
        ) == (neg_free(a) && neg_free(b)) by {
        assert(neg_free(Expr::Op(Box::new(a), op, Box::new(b))) == (neg_free(a) && neg_free(b)));
        assert(!neg_free(Expr::Negative(Box::new(Expr::Op(Box::new(a), op, Box::new(b))))));
    }
}

/// A negation-free expression is already canonical: the pass returns it
/// unchanged, and extraction finds no sign on it.
proof fn lemma_neg_free_fixed(e: Expr)
    requires
        neg_free(e),
    ensures
        spec_simplify(e) == e,
        spec_extract_sign(e) == (false, e),
    decreases mu(e), 1int,
{
    match e {
        Expr::Op(l, op, r) => {
            assert(mu(e) == 1 + mu(*l) + mu(*r));
            lemma_neg_free_fixed(*l);
            lemma_neg_free_fixed(*r);
            let s = spec_simplify(e);
            match op {
                Opcode::Add => {
                    assert(s == spec_combine_add(false, *l, false, *r));
                },
                Opcode::Sub => {
                    assert(s == spec_combine_sub(false, *l, false, *r));
                },
                Opcode::Mul(s0) => {
                    assert(s == spec_combine_mul(false, *l, false, *r, s0));
                },
                Opcode::Div(s0) => {
                    assert(s == spec_combine_div(false, *l, false, *r, s0));
                },
                Opcode::Pow => {
                    assert(s == spec_combine_pow(*l, false, *r));
                },
            }
            assert(s == e);
        },
        _ => {},
    }
}

/// Extraction on an extractable expression yields a negation-free magnitude.
proof fn lemma_extract_neg_free(e: Expr)
    requires
        extractable(e),
    ensures
        neg_free(spec_extract_sign(e).1),
    decreases mu(e), 1int,
{
    match e {
        Expr::Negative(x) => match *x {
            Expr::Negative(inner) => {
                assert(mu(e) == 1 + mu(*x));
                assert(mu(*x) == 1 + mu(*inner));
                lemma_extract_neg_free(*inner);
            },
            _ => {},
        },
        Expr::Op(l, op, r) => {
            lemma_simplify_sign_canonical(e);
            let s = spec_simplify(e);
            if neg_free(s) {
                assert(spec_extract_sign(e) == (false, s));
            } else {
                match s {
                    Expr::Negative(m) => {
                        assert(spec_extract_sign(e) == (true, *m));
                    },
                    _ => {},
                }
            }
        },
        _ => {},
    }
}

/// Canonicalizing an extractable operator node yields a canonical result:
/// negation-free, or one negation around a negation-free magnitude.
pub proof fn lemma_simplify_sign_canonical(e: Expr)
    requires
        extractable(e),
        e is Op,
    ensures
        sign_canonical(spec_simplify(e)),
    decreases mu(e), 0int,
{
    match e {
        Expr::Op(l, op, r) => {
            assert(mu(e) == 1 + mu(*l) + mu(*r));
            let sl0 = if *l is Op {
                spec_simplify(*l)
            } else {
                *l
            };
            let sl = if mu(sl0) <= mu(*l) {
                sl0
            } else {
                *l
            };
            let sr0 = if *r is Op {
                spec_simplify(*r)
            } else {
                *r
            };
            let sr = if mu(sr0) <= mu(*r) {
                sr0
            } else {
                *r
            };
            let lnv = spec_extract_sign(sl);
            let rnv = spec_extract_sign(sr);
            if *l is Op {
                lemma_mu_simplify(*l);
                assert(sl == spec_simplify(*l));
                lemma_simplify_sign_canonical(*l);
                lemma_canonical_extract_neg_free(sl);
            } else {
                assert(sl == *l);
                lemma_extract_neg_free(*l);
            }
            if *r is Op {
                lemma_mu_simplify(*r);
                assert(sr == spec_simplify(*r));
                lemma_simplify_sign_canonical(*r);
                lemma_canonical_extract_neg_free(sr);
            } else {
                assert(sr == *r);
                lemma_extract_neg_free(*r);
            }
            assert(neg_free(lnv.1));
            assert(neg_free(rnv.1));
            let s = spec_simplify(e);
            lemma_neg_free_pair(lnv.1, rnv.1);
            match op {
                Opcode::Add => {
                    assert(s == spec_combine_add(lnv.0, lnv.1, rnv.0, rnv.1));
                },
                Opcode::Sub => {
                    assert(s == spec_combine_sub(lnv.0, lnv.1, rnv.0, rnv.1));
                },
                Opcode::Mul(s0) => {
                    assert(s == spec_combine_mul(lnv.0, lnv.1, rnv.0, rnv.1, s0));
                },
                Opcode::Div(s0) => {
                    assert(s == spec_combine_div(lnv.0, lnv.1, rnv.0, rnv.1, s0));
                },
                Opcode::Pow => {
                    assert(s == spec_combine_pow(lnv.1, rnv.0, rnv.1));
                    if rnv.0 {
                        lemma_neg_free_pair(
                            Expr::Number(1),
                            Expr::Op(Box::new(lnv.1), Opcode::Pow, Box::new(rnv.1)),
                        );
                        assert(neg_free(Expr::Number(1)));
                    }
                },
            }
        },
        _ => {},
    }
}

/// Extraction on an already-canonical expression yields a negation-free
/// magnitude.
proof fn lemma_canonical_extract_neg_free(s: Expr)
    requires
        sign_canonical(s),
    ensures
        neg_free(spec_extract_sign(s).1),
    decreases mu(s), 1int,
{
    if neg_free(s) {
        lemma_neg_free_fixed(s);
    } else {
        match s {
            Expr::Negative(m) => {
                assert(neg_free(*m));
                assert(!(*m is Negative));
                assert(spec_extract_sign(s) == (true, *m));
            },
            _ => {},
        }
    }
}

/// Sign canonicalization is idempotent: running the pass on its own output
/// changes nothing. At an operator root this needs the operands to be
/// extractable (see `extractable`): an operand under an odd number of
/// negations that hides further negations inside is handed out unsimplified,
/// and only a second pass would rewrite it.
pub proof fn lemma_simplify_idempotent(t: Expr)
    requires
        t is Op ==> extractable(t),
    ensures
        spec_simplify(spec_simplify(t)) == spec_simplify(t),
{
    if t is Op {
        lemma_simplify_sign_canonical(t);
        let s = spec_simplify(t);
        if neg_free(s) {
            lemma_neg_free_fixed(s);
        } else {
            assert(s is Negative);
            assert(spec_simplify(s) == s);
        }
    } else {
        assert(spec_simplify(t) == t);
    }
}

/// Double negation cancels: sign extraction treats an expression wrapped in
/// two negations exactly as the bare expression.
pub proof fn lemma_double_negation(x: Expr)
    ensures
        spec_extract_sign(Expr::Negative(Box::new(Expr::Negative(Box::new(x)))))
            == spec_extract_sign(x),
{
    let nn = Expr::Negative(Box::new(Expr::Negative(Box::new(x))));
    assert(spec_extract_sign(nn) == spec_extract_sign(x));
}

/// Double negation cancels under any operator: an operand wrapped in two
/// negations combines exactly as the bare operand, so the canonicalized
/// trees are equal. (At the root itself the pass leaves negations alone, so
/// the cancellation is observable only under an operator.)
pub proof fn lemma_double_negation_operand(l: Expr, op: Opcode, r: Expr)
    requires
        l is Op ==> extractable(l),
    ensures
        spec_simplify(
            Expr::Op(
                Box::new(Expr::Negative(Box::new(Expr::Negative(Box::new(l))))),
                op,
                Box::new(r),
            ),
        ) == spec_simplify(Expr::Op(Box::new(l), op, Box::new(r))),
{
    let nn = Expr::Negative(Box::new(Expr::Negative(Box::new(l))));
    let e1 = Expr::Op(Box::new(nn), op, Box::new(r));
    let e2 = Expr::Op(Box::new(l), op, Box::new(r));
    assert(mu(nn) == 1 + mu(Expr::Negative(Box::new(l))));
    assert(mu(Expr::Negative(Box::new(l))) == 1 + mu(l));
    lemma_double_negation(l);
    if l is Op {
        lemma_mu_simplify(l);
        let sl = spec_simplify(l);
        lemma_simplify_sign_canonical(l);
        assert(spec_extract_sign(l) == spec_extract_sign(sl)) by {
            if neg_free(sl) {
                lemma_neg_free_fixed(sl);
            } else {
                match sl {
                    Expr::Negative(m) => {
                        assert(neg_free(*m));
                        assert(!(*m is Negative));
                        assert(spec_extract_sign(sl) == (true, *m));
                        assert(spec_extract_sign(l) == (true, *m));
                    },
                    _ => {},
                }
            }
        }
    }
    assert(spec_extract_sign(nn) == spec_extract_sign(l));
    assert(spec_simplify(e1) == spec_simplify(e2));
}

fn simplify_add(lnv: (bool, Expr), rnv: (bool, Expr)) -> (r: Expr)
    ensures
        r == spec_combine_add(lnv.0, lnv.1, rnv.0, rnv.1),
{
    match (lnv.0, rnv.0) {
        (true, false) => Expr::Op(Box::new(rnv.1), Opcode::Sub, Box::new(lnv.1)),
        (true, true) => Expr::Negative(
            Box::new(Expr::Op(Box::new(lnv.1), Opcode::Add, Box::new(rnv.1))),
        ),
        (false, true) => Expr::Op(Box::new(lnv.1), Opcode::Sub, Box::new(rnv.1)),
        (false, false) => Expr::Op(Box::new(lnv.1), Opcode::Add, Box::new(rnv.1)),
    }
}

fn simplify_sub(lnv: (bool, Expr), rnv: (bool, Expr)) -> (r: Expr)
    ensures
        r == spec_combine_sub(lnv.0, lnv.1, rnv.0, rnv.1),
{
    match (lnv.0, rnv.0) {
        (true, false) => Expr::Negative(
            Box::new(Expr::Op(Box::new(lnv.1), Opcode::Add, Box::new(rnv.1))),
        ),
        (true, true) => Expr::Op(Box::new(rnv.1), Opcode::Sub, Box::new(lnv.1)),
        (false, true) => Expr::Op(Box::new(lnv.1), Opcode::Add, Box::new(rnv.1)),
        (false, false) => Expr::Op(Box::new(lnv.1), Opcode::Sub, Box::new(rnv.1)),
    }
}

fn simplify_mul(lnv: (bool, Expr), rnv: (bool, Expr), slot: Rounding) -> (r: Expr)
    ensures
        r == spec_combine_mul(lnv.0, lnv.1, rnv.0, rnv.1, slot),
{
    if lnv.0 != rnv.0 {
        Expr::Negative(
            Box::new(Expr::Op(Box::new(lnv.1), Opcode::Mul(Rounding::Init), Box::new(rnv.1))),
        )
    } else {
        Expr::Op(Box::new(lnv.1), Opcode::Mul(slot), Box::new(rnv.1))
    }
}

fn simplify_div(lnv: (bool, Expr), rnv: (bool, Expr), slot: Rounding) -> (r: Expr)
    ensures
        r == spec_combine_div(lnv.0, lnv.1, rnv.0, rnv.1, slot),
{
    if lnv.0 != rnv.0 {
        Expr::Negative(
            Box::new(Expr::Op(Box::new(lnv.1), Opcode::Div(Rounding::Init), Box::new(rnv.1))),
        )
    } else {
        Expr::Op(Box::new(lnv.1), Opcode::Div(slot), Box::new(rnv.1))
    }
}

fn simplify_pow(lnv: (bool, Expr), rnv: (bool, Expr)) -> (r: Expr)
    ensures
        r == spec_combine_pow(lnv.1, rnv.0, rnv.1),
{
    if rnv.0 {
        Expr::Op(
            Box::new(Expr::Number(1)),
            Opcode::Div(Rounding::Init),
            Box::new(Expr::Op(Box::new(lnv.1), Opcode::Pow, Box::new(rnv.1))),
        )
    } else {
        Expr::Op(Box::new(lnv.1), Opcode::Pow, Box::new(rnv.1))
    }
}

fn is_negative_value(expr: Expr) -> (r: (bool, Expr))
    ensures
        r == spec_extract_sign(expr),
    decreases mu(expr), 1int,
{
    match expr {
        Expr::Negative(ne) => match *ne {
            Expr::Negative(internal) => {
                proof {
                    assert(mu(expr) == 1 + mu(*ne));
                    assert(mu(*ne) == 1 + mu(*internal));
                }
                is_negative_value(*internal)
            },
            other => (true, other),
        },
        Expr::Op(l, o, r) => {
            let simplified = simplify_sign(Expr::Op(l, o, r));
            match simplified {
                Expr::Negative(ne) => (true, *ne),
                other => (false, other),
            }
        },
        other => (false, other),
    }
}

/// Sign canonicalization (see `spec_simplify`): pushes negation outward and
/// rearranges sums and differences so that no operand leads with a negative
/// sign, e.g. `(-a + b)` becomes `(b - a)`.
pub fn simplify_sign(expr: Expr) -> (r: Expr)
    ensures
        r == spec_simplify(expr),
    decreases mu(expr), 0int,
{
    match expr {
        Expr::Op(left, op, right) => {
            let l0 = *left;
            proof {
                lemma_mu_simplify(l0);
            }
            let simplified_left = match l0 {
                Expr::Op(a, b, c) => simplify_sign(Expr::Op(a, b, c)),
                other => other,
            };
            let r0 = *right;
            proof {
                lemma_mu_simplify(r0);
            }
            let simplified_right = match r0 {
                Expr::Op(a, b, c) => simplify_sign(Expr::Op(a, b, c)),
                other => other,
            };
            let lnv = is_negative_value(simplified_left);
            let rnv = is_negative_value(simplified_right);
            match op {
                Opcode::Add => simplify_add(lnv, rnv),
                Opcode::Sub => simplify_sub(lnv, rnv),
                Opcode::Mul(s0) => simplify_mul(lnv, rnv, s0),
                Opcode::Div(s0) => simplify_div(lnv, rnv, s0),
                Opcode::Pow => simplify_pow(lnv, rnv),
            }
        },
        other => other,
    }
}

} // verus!
