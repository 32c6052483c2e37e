//! The precedence-aware recursive-descent parser.
//!
//! The `spec_*` functions are the mathematical model of the grammar:
//! each takes the token sequence and a position and yields the parsed
//! node with the position just past it, or `None` when the production
//! does not match there. Binary-operator chains fold to the left, and
//! among the primary alternatives a name followed by `(` is a call,
//! never a variable reference. The executable functions are proved to
//! return exactly what the model says.
//!
//! Positions returned by a sub-parse are guarded (`from < p <= len`)
//! before the model reads on from them; a successful parse always moves
//! forward, so the guards never cut a result, and they make the
//! recursion visibly well-founded.

use crate::ast::{
    exprs_view, lemma_exprs_view_push, Expr, ExprV, Function, FunctionV, Prototype, PrototypeV,
};
use crate::token::{
    is_kwd, tok_is_else, tok_is_for, tok_is_if, tok_is_in, tok_is_then, tokens_view, Token, TokenV,
};
use vstd::prelude::*;

verus! {

/// `primary := number | '(' expr ')' | call | identifier | conditional | loop`,
/// selected by the first token; a name followed by `(` is a call, and
/// only when the call production fails is the name a variable reference.
pub open spec fn spec_primary(ts: Seq<TokenV>, pos: int) -> Option<(ExprV, int)>
    decreases ts.len() - pos, 1int,
{
    if pos >= ts.len() {
        None
    } else {
        match ts[pos] {
            TokenV::Number(w) => Some((ExprV::Number(w), pos + 1)),
            TokenV::Kwd(c) => if c == '(' {
                match spec_expr(ts, pos + 1) {
                    Some((e, p)) => if p < ts.len() && ts[p] == TokenV::Kwd(')') {
                        Some((e, p + 1))
                    } else {
                        None
                    },
                    None => None,
                }
            } else {
                None
            },
            TokenV::Ident(name) => match spec_call(ts, pos) {
                Some(r) => Some(r),
                None => Some((ExprV::Variable(name), pos + 1)),
            },
            TokenV::If => spec_if(ts, pos),
            TokenV::For => spec_for(ts, pos),
            _ => None,
        }
    }
}

/// `call := identifier '(' (expr (',' expr)*)? ')'`.
pub open spec fn spec_call(ts: Seq<TokenV>, pos: int) -> Option<(ExprV, int)>
    decreases ts.len() - pos, 0int,
{
    if pos + 1 < ts.len() && ts[pos + 1] == TokenV::Kwd('(') {
        match ts[pos] {
            TokenV::Ident(name) => match spec_args(ts, pos + 2) {
                Some((args, p)) => if p < ts.len() && ts[p] == TokenV::Kwd(')') {
                    Some((ExprV::Call(name, args), p + 1))
                } else {
                    None
                },
                None => None,
            },
            _ => None,
        }
    } else {
        None
    }
}

/// The argument list of a call: empty when no expression starts here,
/// else one expression and then `(',' expr)*`.
pub open spec fn spec_args(ts: Seq<TokenV>, pos: int) -> Option<(Seq<ExprV>, int)>
    decreases ts.len() - pos, 5int,
{
    if spec_primary(ts, pos) is None {
        Some((Seq::empty(), pos))
    } else {
        match spec_expr(ts, pos) {
            Some((e, p)) => if pos < p && p <= ts.len() {
                spec_args_more(ts, p, seq![e])
            } else {
                None
            },
            None => None,
        }
    }
}

/// Further call arguments: after a comma an expression must follow.
pub open spec fn spec_args_more(ts: Seq<TokenV>, pos: int, acc: Seq<ExprV>) -> Option<
    (Seq<ExprV>, int),
>
    decreases ts.len() - pos, 0int,
{
    if pos < ts.len() && ts[pos] == TokenV::Kwd(',') {
        match spec_expr(ts, pos + 1) {
            Some((e, p)) => if pos < p && p <= ts.len() {
                spec_args_more(ts, p, acc.push(e))
            } else {
                None
            },
            None => None,
        }
    } else {
        Some((acc, pos))
    }
}

/// `conditional := 'if' expr 'then' expr 'else' expr`.
pub open spec fn spec_if(ts: Seq<TokenV>, pos: int) -> Option<(ExprV, int)>
    decreases ts.len() - pos, 0int,
{
    if pos < ts.len() && ts[pos] is If {
        match spec_expr(ts, pos + 1) {
            Some((cnd, p1)) => if pos < p1 && p1 < ts.len() && ts[p1] is Then {
                match spec_expr(ts, p1 + 1) {
                    Some((thn, p2)) => if p1 < p2 && p2 < ts.len() && ts[p2] is Else {
                        match spec_expr(ts, p2 + 1) {
                            Some((els, p3)) => Some(
                                (ExprV::If(Box::new(cnd), Box::new(thn), Box::new(els)), p3),
                            ),
                            None => None,
                        }
                    } else {
                        None
                    },
                    None => None,
                }
            } else {
                None
            },
            None => None,
        }
    } else {
        None
    }
}

/// The tail of the loop production: `'in' expr`, closing over the parts
/// already parsed.
pub open spec fn spec_for_in(
    ts: Seq<TokenV>,
    pos: int,
    v: Seq<char>,
    start: ExprV,
    end: ExprV,
    step: Option<Box<ExprV>>,
) -> Option<(ExprV, int)>
    decreases ts.len() - pos, 0int,
{
    if pos < ts.len() && ts[pos] is In {
        match spec_expr(ts, pos + 1) {
            Some((body, p)) => Some(
                (ExprV::For(v, Box::new(start), Box::new(end), step, Box::new(body)), p),
            ),
            None => None,
        }
    } else {
        None
    }
}

/// The loop production from its end bound on: `expr (',' expr)? 'in' expr`.
pub open spec fn spec_for_rest(
    ts: Seq<TokenV>,
    pos: int,
    v: Seq<char>,
    start: ExprV,
) -> Option<(ExprV, int)>
    decreases ts.len() - pos, 5int,
{
    match spec_expr(ts, pos) {
        Some((end, p2)) => if pos < p2 && p2 <= ts.len() {
            if p2 < ts.len() && ts[p2] == TokenV::Kwd(',') {
                match spec_expr(ts, p2 + 1) {
                    Some((st, p3)) => if p2 < p3 && p3 <= ts.len() {
                        spec_for_in(ts, p3, v, start, end, Some(Box::new(st)))
                    } else {
                        None
                    },
                    None => None,
                }
            } else {
                spec_for_in(ts, p2, v, start, end, None)
            }
        } else {
            None
        },
        None => None,
    }
}

/// `loop := 'for' identifier '=' expr ',' expr (',' expr)? 'in' expr`.
/// The parser records an absent step as absent; the default is the
/// backend's policy.
pub open spec fn spec_for(ts: Seq<TokenV>, pos: int) -> Option<(ExprV, int)>
    decreases ts.len() - pos, 0int,
{
    if pos + 2 < ts.len() && (ts[pos] is For) && ts[pos + 2] == TokenV::Kwd('=') {
        match ts[pos + 1] {
            TokenV::Ident(v) => match spec_expr(ts, pos + 3) {
                Some((start, p1)) => if pos + 3 < p1 && p1 < ts.len() && ts[p1] == TokenV::Kwd(
                    ',',
                ) {
                    spec_for_rest(ts, p1 + 1, v, start)
                } else {
                    None
                },
                None => None,
            },
            _ => None,
        }
    } else {
        None
    }
}

/// `mul := primary ('*' primary)*`, folded to the left.
pub open spec fn spec_mul(ts: Seq<TokenV>, pos: int) -> Option<(ExprV, int)>
    decreases ts.len() - pos, 2int,
{
    match spec_primary(ts, pos) {
        Some((e, p)) => if pos < p && p <= ts.len() {
            spec_mul_more(ts, p, e)
        } else {
            None
        },
        None => None,
    }
}

/// The left fold of further `'*' primary` steps onto `acc`.
pub open spec fn spec_mul_more(ts: Seq<TokenV>, pos: int, acc: ExprV) -> Option<(ExprV, int)>
    decreases ts.len() - pos, 0int,
{
    if pos < ts.len() && ts[pos] == TokenV::Kwd('*') {
        match spec_primary(ts, pos + 1) {
            Some((e, p)) => if pos < p && p <= ts.len() {
                spec_mul_more(ts, p, ExprV::Binary('*', Box::new(acc), Box::new(e)))
            } else {
                None
            },
            None => None,
        }
    } else {
        Some((acc, pos))
    }
}

/// `add := mul (('+' | '-') mul)*`, folded to the left.
pub open spec fn spec_add(ts: Seq<TokenV>, pos: int) -> Option<(ExprV, int)>
    decreases ts.len() - pos, 3int,
{
    match spec_mul(ts, pos) {
        Some((e, p)) => if pos < p && p <= ts.len() {
            spec_add_more(ts, p, e)
        } else {
            None
        },
        None => None,
    }
}

/// The left fold of further `('+' | '-') mul` steps onto `acc`.
pub open spec fn spec_add_more(ts: Seq<TokenV>, pos: int, acc: ExprV) -> Option<(ExprV, int)>
    decreases ts.len() - pos, 0int,
{
    if pos < ts.len() && (ts[pos] == TokenV::Kwd('+') || ts[pos] == TokenV::Kwd('-')) {
        let op = if ts[pos] == TokenV::Kwd('+') {
            '+'
        } else {
            '-'
        };
        match spec_mul(ts, pos + 1) {
            Some((e, p)) => if pos < p && p <= ts.len() {
                spec_add_more(ts, p, ExprV::Binary(op, Box::new(acc), Box::new(e)))
            } else {
                None
            },
            None => None,
        }
    } else {
        Some((acc, pos))
    }
}

/// `expr := add ('<' add)*`: the relational level binds loosest and
/// also folds to the left.
pub open spec fn spec_expr(ts: Seq<TokenV>, pos: int) -> Option<(ExprV, int)>
    decreases ts.len() - pos, 4int,
{
    match spec_add(ts, pos) {
        Some((e, p)) => if pos < p && p <= ts.len() {
            spec_expr_more(ts, p, e)
        } else {
            None
        },
        None => None,
    }
}

/// The left fold of further `'<' add` steps onto `acc`.
pub open spec fn spec_expr_more(ts: Seq<TokenV>, pos: int, acc: ExprV) -> Option<(ExprV, int)>
    decreases ts.len() - pos, 0int,
{
    if pos < ts.len() && ts[pos] == TokenV::Kwd('<') {
        match spec_add(ts, pos + 1) {
            Some((e, p)) => if pos < p && p <= ts.len() {
                spec_expr_more(ts, p, ExprV::Binary('<', Box::new(acc), Box::new(e)))
            } else {
                None
            },
            None => None,
        }
    } else {
        Some((acc, pos))
    }
}

/// Parameter names of a prototype: a run of identifiers with no
/// separators between them. Never fails; the run may be empty.
pub open spec fn spec_params(ts: Seq<TokenV>, pos: int, acc: Seq<Seq<char>>) -> (
    Seq<Seq<char>>,
    int,
)
    decreases ts.len() - pos,
{
    if pos < ts.len() {
        match ts[pos] {
            TokenV::Ident(name) => spec_params(ts, pos + 1, acc.push(name)),
            _ => (acc, pos),
        }
    } else {
        (acc, pos)
    }
}

/// `prototype := identifier '(' identifier* ')'`. Duplicate parameter
/// names are permitted by the grammar; rejecting them is the backend's
/// concern.
pub open spec fn spec_prototype(ts: Seq<TokenV>, pos: int) -> Option<(PrototypeV, int)> {
    if 0 <= pos && pos + 1 < ts.len() && ts[pos + 1] == TokenV::Kwd('(') {
        match ts[pos] {
            TokenV::Ident(name) => {
                let r = spec_params(ts, pos + 2, Seq::empty());
                if r.1 < ts.len() && ts[r.1] == TokenV::Kwd(')') {
                    Some((PrototypeV { name, params: r.0 }, r.1 + 1))
                } else {
                    None
                }
            },
            _ => None,
        }
    } else {
        None
    }
}

/// `definition := 'def' prototype expr`.
pub open spec fn spec_definition(ts: Seq<TokenV>, pos: int) -> Option<(FunctionV, int)> {
    if 0 <= pos && pos < ts.len() && ts[pos] is Def {
        match spec_prototype(ts, pos + 1) {
            Some((proto, p)) => if pos < p && p <= ts.len() {
                match spec_expr(ts, p) {
                    Some((body, q)) => Some((FunctionV { proto, body }, q)),
                    None => None,
                }
            } else {
                None
            },
            None => None,
        }
    } else {
        None
    }
}

/// `extern_decl := 'extern' prototype`.
pub open spec fn spec_extern_decl(ts: Seq<TokenV>, pos: int) -> Option<(PrototypeV, int)> {
    if 0 <= pos && pos < ts.len() && ts[pos] is Extern {
        spec_prototype(ts, pos + 1)
    } else {
        None
    }
}

/// `toplevel := expr`, wrapped under the synthetic empty-name,
/// zero-parameter signature.
pub open spec fn spec_toplevel(ts: Seq<TokenV>, pos: int) -> Option<(FunctionV, int)> {
    match spec_expr(ts, pos) {
        Some((body, p)) => Some(
            (FunctionV { proto: PrototypeV { name: Seq::empty(), params: Seq::empty() }, body }, p),
        ),
        None => None,
    }
}

/// A parse failure: the position at which the token sequence stopped
/// matching, and what the failed production expected there.
#[derive(Debug, Clone, Copy, PartialEq, Eq)]
pub struct ParseError {
    pub pos: usize,
    pub expected: &'static str,
}

/// Parse one primary expression.
pub fn primary(ts: &Vec<Token>, pos: usize) -> (r: Result<(Expr, usize), ParseError>)
    requires
        pos <= ts@.len(),
    ensures
        match r {
            Ok((e, p)) => spec_primary(tokens_view(ts@), pos as int) == Some((e@, p as int))
                && pos < p <= ts@.len(),
            Err(_) => spec_primary(tokens_view(ts@), pos as int) is None,
        },
    decreases ts@.len() - pos, 1int,
{
    if pos >= ts.len() {
        return Err(ParseError { pos, expected: "an expression" });
    }
    match &ts[pos] {
        Token::Number(w) => Ok((Expr::Number(w.clone()), pos + 1)),
        Token::Kwd(c) => {
            if *c == '(' {
                match expr(ts, pos + 1) {
                    Ok((e, p)) => {
                        if p < ts.len() && is_kwd(&ts[p], ')') {
                            Ok((e, p + 1))
                        } else {
                            Err(ParseError { pos: p, expected: "a closing parenthesis" })
                        }
                    },
                    Err(er) => Err(er),
                }
            } else {
                Err(ParseError { pos, expected: "an expression" })
            }
        },
        Token::Ident(name) => {
            match call(ts, pos) {
                Ok(r2) => Ok(r2),
                Err(_) => Ok((Expr::Variable(name.clone()), pos + 1)),
            }
        },
        Token::If => parse_if(ts, pos),
        Token::For => parse_for(ts, pos),
        _ => Err(ParseError { pos, expected: "an expression" }),
    }
}

/// Parse a call: an identifier directly followed by a parenthesised,
/// comma-separated argument list.
pub fn call(ts: &Vec<Token>, pos: usize) -> (r: Result<(Expr, usize), ParseError>)
    requires
        pos <= ts@.len(),
    ensures
        match r {
            Ok((e, p)) => spec_call(tokens_view(ts@), pos as int) == Some((e@, p as int)) && pos
                < p <= ts@.len(),
            Err(_) => spec_call(tokens_view(ts@), pos as int) is None,
        },
    decreases ts@.len() - pos, 0int,
{
    if pos >= ts.len() || pos + 1 >= ts.len() || !is_kwd(&ts[pos + 1], '(') {
        return Err(ParseError { pos, expected: "a call" });
    }
    let name = match &ts[pos] {
        Token::Ident(n) => n.clone(),
        _ => {
            return Err(ParseError { pos, expected: "a call" });
        },
    };
    match args(ts, pos + 2) {
        Ok((aa, p)) => {
            if p < ts.len() && is_kwd(&ts[p], ')') {
                Ok((Expr::Call(name, aa), p + 1))
            } else {
                Err(ParseError { pos: p, expected: "a closing parenthesis" })
            }
        },
        Err(er) => Err(er),
    }
}

/// Parse a call's argument list, which may be empty.
pub fn args(ts: &Vec<Token>, pos: usize) -> (r: Result<(Vec<Expr>, usize), ParseError>)
    requires
        pos <= ts@.len(),
    ensures
        match r {
            Ok((aa, p)) => spec_args(tokens_view(ts@), pos as int) == Some(
                (exprs_view(aa@), p as int),
            ) && pos <= p <= ts@.len(),
            Err(_) => spec_args(tokens_view(ts@), pos as int) is None,
        },
    decreases ts@.len() - pos, 5int,
{
    match primary(ts, pos) {
        Err(_) => {
            let empty: Vec<Expr> = Vec::new();
            proof {
                assert(exprs_view(empty@) =~= Seq::<ExprV>::empty());
            }
            Ok((empty, pos))
        },
        Ok(_) => {
            match expr(ts, pos) {
                Ok((e0, p0)) => {
                    let mut acc: Vec<Expr> = Vec::new();
                    acc.push(e0);
                    proof {
                        assert(acc@.subrange(1, 1) =~= Seq::<Expr>::empty());
                        assert(exprs_view(acc@.subrange(1, 1)) == Seq::<ExprV>::empty());
                        assert(exprs_view(acc@) =~= seq![e0@]);
                    }
                    args_more(ts, p0, acc)
                },
                Err(er) => Err(er),
            }
        },
    }
}

/// Parse further call arguments onto those already collected.
fn args_more(ts: &Vec<Token>, pos: usize, acc: Vec<Expr>) -> (r: Result<
    (Vec<Expr>, usize),
    ParseError,
>)
    requires
        pos <= ts@.len(),
    ensures
        match r {
            Ok((aa, p)) => spec_args_more(tokens_view(ts@), pos as int, exprs_view(acc@)) == Some(
                (exprs_view(aa@), p as int),
            ) && pos <= p <= ts@.len(),
            Err(_) => spec_args_more(tokens_view(ts@), pos as int, exprs_view(acc@)) is None,
        },
    decreases ts@.len() - pos, 0int,
{
    if pos < ts.len() && is_kwd(&ts[pos], ',') {
        match expr(ts, pos + 1) {
            Ok((e, p)) => {
                let mut acc2 = acc;
                proof {
                    lemma_exprs_view_push(acc2@, e);
                }
                acc2.push(e);
                args_more(ts, p, acc2)
            },
            Err(er) => Err(er),
        }
    } else {
        Ok((acc, pos))
    }
}

/// Parse a conditional expression.
#[verifier::rlimit(100)]
pub fn parse_if(ts: &Vec<Token>, pos: usize) -> (r: Result<(Expr, usize), ParseError>)
    requires
        pos <= ts@.len(),
    ensures
        match r {
            Ok((e, p)) => spec_if(tokens_view(ts@), pos as int) == Some((e@, p as int)) && pos
                < p <= ts@.len(),
            Err(_) => spec_if(tokens_view(ts@), pos as int) is None,
        },
    decreases ts@.len() - pos, 0int,
{
    if pos >= ts.len() || !tok_is_if(&ts[pos]) {
        return Err(ParseError { pos, expected: "a conditional" });
    }
    match expr(ts, pos + 1) {
        Ok((cnd, p1)) => {
            if p1 < ts.len() && tok_is_then(&ts[p1]) {
                match expr(ts, p1 + 1) {
                    Ok((thn, p2)) => {
                        if p2 < ts.len() && tok_is_else(&ts[p2]) {
                            match expr(ts, p2 + 1) {
                                Ok((els, p3)) => Ok(
                                    (
                                        Expr::If(Box::new(cnd), Box::new(thn), Box::new(els)),
                                        p3,
                                    ),
                                ),
                                Err(er) => Err(er),
                            }
                        } else {
                            Err(ParseError { pos: p2, expected: "the else branch" })
                        }
                    },
                    Err(er) => Err(er),
                }
            } else {
                Err(ParseError { pos: p1, expected: "the then branch" })
            }
        },
        Err(er) => Err(er),
    }
}

/// Parse the tail of a bounded loop, from its `in` keyword on.
fn for_in(ts: &Vec<Token>, pos: usize, v: String, start: Expr, end: Expr, step: Option<
    Expr,
>) -> (r: Result<(Expr, usize), ParseError>)
    requires
        pos <= ts@.len(),
    ensures
        match r {
            Ok((e, p)) => spec_for_in(
                tokens_view(ts@),
                pos as int,
                v@,
                start@,
                end@,
                match step {
                    Some(s) => Some(Box::new(s@)),
                    None => None,
                },
            ) == Some((e@, p as int)) && pos < p <= ts@.len(),
            Err(_) => spec_for_in(
                tokens_view(ts@),
                pos as int,
                v@,
                start@,
                end@,
                match step {
                    Some(s) => Some(Box::new(s@)),
                    None => None,
                },
            ) is None,
        },
    decreases ts@.len() - pos, 0int,
{
    if pos >= ts.len() || !tok_is_in(&ts[pos]) {
        return Err(ParseError { pos, expected: "the loop body" });
    }
    match expr(ts, pos + 1) {
        Ok((body, p)) => Ok(
            (
                Expr::For(v, Box::new(start), Box::new(end), Box::new(step), Box::new(body)),
                p,
            ),
        ),
        Err(er) => Err(er),
    }
}

/// Parse a bounded loop's end bound, optional step, and body.
fn for_rest(ts: &Vec<Token>, pos: usize, v: String, start: Expr) -> (r: Result<
    (Expr, usize),
    ParseError,
>)
    requires
        pos <= ts@.len(),
    ensures
        match r {
            Ok((e, p)) => spec_for_rest(tokens_view(ts@), pos as int, v@, start@) == Some(
                (e@, p as int),
            ) && pos < p <= ts@.len(),
            Err(_) => spec_for_rest(tokens_view(ts@), pos as int, v@, start@) is None,
        },
    decreases ts@.len() - pos, 5int,
{
    match expr(ts, pos) {
        Ok((end, p2)) => {
            if p2 < ts.len() && is_kwd(&ts[p2], ',') {
                match expr(ts, p2 + 1) {
                    Ok((st, p3)) => for_in(ts, p3, v, start, end, Some(st)),
                    Err(er) => Err(er),
                }
            } else {
                for_in(ts, p2, v, start, end, None)
            }
        },
        Err(er) => Err(er),
    }
}

/// Read a loop's header: the `for` keyword, the loop variable, and the
/// `=` that follows it.
fn for_header(ts: &Vec<Token>, pos: usize) -> (r: Result<String, ParseError>)
    requires
        pos <= ts@.len(),
    ensures
        match r {
            Ok(v) => {
                &&& pos + 2 < ts@.len()
                &&& tokens_view(ts@)[pos as int] is For
                &&& tokens_view(ts@)[pos as int + 1] == TokenV::Ident(v@)
                &&& tokens_view(ts@)[pos as int + 2] == TokenV::Kwd('=')
            },
            Err(_) => !{
                &&& pos + 2 < ts@.len()
                &&& tokens_view(ts@)[pos as int] is For
                &&& tokens_view(ts@)[pos as int + 1] is Ident
                &&& tokens_view(ts@)[pos as int + 2] == TokenV::Kwd('=')
            },
        },
{
    if pos >= ts.len() || !tok_is_for(&ts[pos]) {
        return Err(ParseError { pos, expected: "a loop" });
    }
    if pos + 1 >= ts.len() || pos + 2 >= ts.len() || !is_kwd(&ts[pos + 2], '=') {
        return Err(ParseError { pos, expected: "the loop header" });
    }
    match &ts[pos + 1] {
        Token::Ident(n) => Ok(n.clone()),
        _ => Err(ParseError { pos: pos + 1, expected: "the loop variable" }),
    }
}

/// Parse a bounded loop.
#[verifier::rlimit(100)]
pub fn parse_for(ts: &Vec<Token>, pos: usize) -> (r: Result<(Expr, usize), ParseError>)
    requires
        pos <= ts@.len(),
    ensures
        match r {
            Ok((e, p)) => spec_for(tokens_view(ts@), pos as int) == Some((e@, p as int)) && pos
                < p <= ts@.len(),
            Err(_) => spec_for(tokens_view(ts@), pos as int) is None,
        },
    decreases ts@.len() - pos, 0int,
{
    let v = match for_header(ts, pos) {
        Ok(v) => v,
        Err(er) => {
            return Err(er);
        },
    };
    let n: usize = ts.len();
    assert(pos + 2 < n);
    match expr(ts, pos + 3) {
        Ok((start, p1)) => {
            if p1 < ts.len() && is_kwd(&ts[p1], ',') {
                for_rest(ts, p1 + 1, v, start)
            } else {
                Err(ParseError { pos: p1, expected: "the bound separator" })
            }
        },
        Err(er) => Err(er),
    }
}

/// Parse the multiplicative level.
pub fn mul(ts: &Vec<Token>, pos: usize) -> (r: Result<(Expr, usize), ParseError>)
    requires
        pos <= ts@.len(),
    ensures
        match r {
            Ok((e, p)) => spec_mul(tokens_view(ts@), pos as int) == Some((e@, p as int)) && pos
                < p <= ts@.len(),
            Err(_) => spec_mul(tokens_view(ts@), pos as int) is None,
        },
    decreases ts@.len() - pos, 2int,
{
    match primary(ts, pos) {
        Ok((e, p)) => mul_more(ts, p, e),
        Err(er) => Err(er),
    }
}

/// Fold further `'*' primary` steps onto `acc`.
fn mul_more(ts: &Vec<Token>, pos: usize, acc: Expr) -> (r: Result<(Expr, usize), ParseError>)
    requires
        pos <= ts@.len(),
    ensures
        match r {
            Ok((e, p)) => spec_mul_more(tokens_view(ts@), pos as int, acc@) == Some(
                (e@, p as int),
            ) && pos <= p <= ts@.len(),
            Err(_) => spec_mul_more(tokens_view(ts@), pos as int, acc@) is None,
        },
    decreases ts@.len() - pos, 0int,
{
    if pos < ts.len() && is_kwd(&ts[pos], '*') {
        match primary(ts, pos + 1) {
            Ok((e, p)) => mul_more(ts, p, Expr::Binary('*', Box::new(acc), Box::new(e))),
            Err(er) => Err(er),
        }
    } else {
        Ok((acc, pos))
    }
}

/// Parse the additive level.
pub fn add(ts: &Vec<Token>, pos: usize) -> (r: Result<(Expr, usize), ParseError>)
    requires
        pos <= ts@.len(),
    ensures
        match r {
            Ok((e, p)) => spec_add(tokens_view(ts@), pos as int) == Some((e@, p as int)) && pos
                < p <= ts@.len(),
            Err(_) => spec_add(tokens_view(ts@), pos as int) is None,
        },
    decreases ts@.len() - pos, 3int,
{
    match crate::parser::mul(ts, pos) {
        Ok((e, p)) => add_more(ts, p, e),
        Err(er) => Err(er),
    }
}

/// Fold further `('+' | '-') mul` steps onto `acc`.
fn add_more(ts: &Vec<Token>, pos: usize, acc: Expr) -> (r: Result<(Expr, usize), ParseError>)
    requires
        pos <= ts@.len(),
    ensures
        match r {
            Ok((e, p)) => spec_add_more(tokens_view(ts@), pos as int, acc@) == Some(
                (e@, p as int),
            ) && pos <= p <= ts@.len(),
            Err(_) => spec_add_more(tokens_view(ts@), pos as int, acc@) is None,
        },
    decreases ts@.len() - pos, 0int,
{
    if pos < ts.len() && (is_kwd(&ts[pos], '+') || is_kwd(&ts[pos], '-')) {
        let op: char = if is_kwd(&ts[pos], '+') {
            '+'
        } else {
            '-'
        };
        match crate::parser::mul(ts, pos + 1) {
            Ok((e, p)) => add_more(ts, p, Expr::Binary(op, Box::new(acc), Box::new(e))),
            Err(er) => Err(er),
        }
    } else {
        Ok((acc, pos))
    }
}

/// Parse a full expression: the relational level.
pub fn expr(ts: &Vec<Token>, pos: usize) -> (r: Result<(Expr, usize), ParseError>)
    requires
        pos <= ts@.len(),
    ensures
        match r {
            Ok((e, p)) => spec_expr(tokens_view(ts@), pos as int) == Some((e@, p as int)) && pos
                < p <= ts@.len(),
            Err(_) => spec_expr(tokens_view(ts@), pos as int) is None,
        },
    decreases ts@.len() - pos, 4int,
{
    match crate::parser::add(ts, pos) {
        Ok((e, p)) => expr_more(ts, p, e),
        Err(er) => Err(er),
    }
}

/// Fold further `'<' add` steps onto `acc`.
fn expr_more(ts: &Vec<Token>, pos: usize, acc: Expr) -> (r: Result<(Expr, usize), ParseError>)
    requires
        pos <= ts@.len(),
    ensures
        match r {
            Ok((e, p)) => spec_expr_more(tokens_view(ts@), pos as int, acc@) == Some(
                (e@, p as int),
            ) && pos <= p <= ts@.len(),
            Err(_) => spec_expr_more(tokens_view(ts@), pos as int, acc@) is None,
        },
    decreases ts@.len() - pos, 0int,
{
    if pos < ts.len() && is_kwd(&ts[pos], '<') {
        match crate::parser::add(ts, pos + 1) {
            Ok((e, p)) => expr_more(ts, p, Expr::Binary('<', Box::new(acc), Box::new(e))),
            Err(er) => Err(er),
        }
    } else {
        Ok((acc, pos))
    }
}

/// Collect prototype parameter names from `pos` on.
fn params_from(ts: &Vec<Token>, pos: usize, acc: Vec<String>) -> (r: (Vec<String>, usize))
    requires
        pos <= ts@.len(),
    ensures
        spec_params(tokens_view(ts@), pos as int, acc.deep_view()) == (
            r.0.deep_view(),
            r.1 as int,
        ),
        pos <= r.1 <= ts@.len(),
    decreases ts@.len() - pos,
{
    if pos < ts.len() {
        match &ts[pos] {
            Token::Ident(name) => {
                let mut acc2 = acc;
                let ghost old_view = acc2.deep_view();
                acc2.push(name.clone());
                proof {
                    assert(acc2.deep_view() =~= old_view.push(name@));
                }
                params_from(ts, pos + 1, acc2)
            },
            _ => (acc, pos),
        }
    } else {
        (acc, pos)
    }
}

/// Parse a prototype: a name and its parenthesised parameter names.
pub fn prototype(ts: &Vec<Token>, pos: usize) -> (r: Result<(Prototype, usize), ParseError>)
    requires
        pos <= ts@.len(),
    ensures
        match r {
            Ok((proto, p)) => spec_prototype(tokens_view(ts@), pos as int) == Some(
                (proto@, p as int),
            ) && pos < p <= ts@.len(),
            Err(_) => spec_prototype(tokens_view(ts@), pos as int) is None,
        },
{
    if pos >= ts.len() || pos + 1 >= ts.len() || !is_kwd(&ts[pos + 1], '(') {
        return Err(ParseError { pos, expected: "a prototype" });
    }
    let name = match &ts[pos] {
        Token::Ident(n) => n.clone(),
        _ => {
            return Err(ParseError { pos, expected: "a prototype" });
        },
    };
    let start: Vec<String> = Vec::new();
    proof {
        assert(start.deep_view() =~= Seq::<Seq<char>>::empty());
    }
    let (params, p) = params_from(ts, pos + 2, start);
    if p < ts.len() && is_kwd(&ts[p], ')') {
        Ok((Prototype(name, params), p + 1))
    } else {
        Err(ParseError { pos: p, expected: "a closing parenthesis" })
    }
}

/// Parse a function definition: `def` and a prototype, then the body.
pub fn definition(ts: &Vec<Token>, pos: usize) -> (r: Result<(Function, usize), ParseError>)
    requires
        pos <= ts@.len(),
    ensures
        match r {
            Ok((f, p)) => spec_definition(tokens_view(ts@), pos as int) == Some((f@, p as int))
                && pos < p <= ts@.len(),
            Err(_) => spec_definition(tokens_view(ts@), pos as int) is None,
        },
{
    if pos >= ts.len() || !crate::token::tok_is_def(&ts[pos]) {
        return Err(ParseError { pos, expected: "a definition" });
    }
    match prototype(ts, pos + 1) {
        Ok((proto, p)) => {
            match expr(ts, p) {
                Ok((body, q)) => Ok((Function(Box::new(proto), Box::new(body)), q)),
                Err(er) => Err(er),
            }
        },
        Err(er) => Err(er),
    }
}

/// Parse an extern declaration: `extern` and a prototype alone.
pub fn extern_parser(ts: &Vec<Token>, pos: usize) -> (r: Result<(Prototype, usize), ParseError>)
    requires
        pos <= ts@.len(),
    ensures
        match r {
            Ok((proto, p)) => spec_extern_decl(tokens_view(ts@), pos as int) == Some(
                (proto@, p as int),
            ) && pos < p <= ts@.len(),
            Err(_) => spec_extern_decl(tokens_view(ts@), pos as int) is None,
        },
{
    if pos >= ts.len() || !crate::token::tok_is_extern(&ts[pos]) {
        return Err(ParseError { pos, expected: "an extern declaration" });
    }
    match prototype(ts, pos + 1) {
        Ok((proto, p)) => Ok((proto, p)),
        Err(er) => Err(er),
    }
}

/// Parse a bare top-level expression into the uniform function shape,
/// under the synthetic empty-name, zero-parameter signature.
pub fn toplevel(ts: &Vec<Token>, pos: usize) -> (r: Result<(Function, usize), ParseError>)
    requires
        pos <= ts@.len(),
    ensures
        match r {
            Ok((f, p)) => spec_toplevel(tokens_view(ts@), pos as int) == Some((f@, p as int))
                && pos < p <= ts@.len(),
            Err(_) => spec_toplevel(tokens_view(ts@), pos as int) is None,
        },
{
    match expr(ts, pos) {
        Ok((body, p)) => {
            let anon: Vec<String> = Vec::new();
            proof {
                assert(anon.deep_view() =~= Seq::<Seq<char>>::empty());
            }
            Ok((Function(Box::new(Prototype(String::new(), anon)), Box::new(body)), p))
        },
        Err(er) => Err(er),
    }
}

} // verus!
