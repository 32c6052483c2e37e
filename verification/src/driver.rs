//! The statement driver: split one line's token sequence into
//! statements on the `;` separator, classify each by its leading token,
//! parse it with the matching production, and stop at the first
//! statement that fails to parse. Statements accepted before the
//! failure are kept; the rest of the line is discarded. This is the
//! only place recovery policy lives, so a malformed statement loses at
//! most the rest of its own line and never a prior statement.

use crate::ast::{Function, FunctionV, Prototype, PrototypeV};
use crate::lexer::{lex_line, spec_lex, LexError};
use crate::parser::{
    definition, extern_parser, spec_definition, spec_extern_decl, spec_toplevel, toplevel,
    ParseError,
};
use crate::token::{is_kwd, tok_is_def, tok_is_extern, tokens_view, Token, TokenV};
use vstd::prelude::*;

verus! {

/// One parsed top-level unit, ready to hand to the backend: a named
/// function definition, an extern declaration (a bare prototype), or a
/// bare expression wrapped as an anonymous function.
#[derive(Debug, PartialEq)]
pub enum Unit {
    Definition(Function),
    ExternDecl(Prototype),
    TopLevel(Function),
}

/// The view of a `Unit`.
pub enum UnitV {
    Definition(FunctionV),
    ExternDecl(PrototypeV),
    TopLevel(FunctionV),
}

impl View for Unit {
    type V = UnitV;

    open spec fn view(&self) -> UnitV {
        match self {
            Unit::Definition(f) => UnitV::Definition(f@),
            Unit::ExternDecl(p) => UnitV::ExternDecl(p@),
            Unit::TopLevel(f) => UnitV::TopLevel(f@),
        }
    }
}

/// The view of a sequence of units.
pub open spec fn units_view(us: Seq<Unit>) -> Seq<UnitV> {
    us.map_values(|u: Unit| u@)
}

/// The statement loop's model: the units accepted from `pos` on, and
/// whether processing stopped on a parse error (`true`) or ran off the
/// end of the tokens (`false`). Separators are consumed and ignored;
/// the leading token picks the production; the first failure discards
/// the remainder.
pub open spec fn spec_statements(ts: Seq<TokenV>, pos: int) -> (Seq<UnitV>, bool)
    decreases ts.len() - pos,
        when 0 <= pos <= ts.len()
{
    if pos >= ts.len() {
        (Seq::empty(), false)
    } else if ts[pos] == TokenV::Kwd(';') {
        spec_statements(ts, pos + 1)
    } else if ts[pos] is Def {
        match spec_definition(ts, pos) {
            Some((f, p)) => if pos < p && p <= ts.len() {
                let r = spec_statements(ts, p);
                (seq![UnitV::Definition(f)] + r.0, r.1)
            } else {
                (Seq::empty(), true)
            },
            None => (Seq::empty(), true),
        }
    } else if ts[pos] is Extern {
        match spec_extern_decl(ts, pos) {
            Some((proto, p)) => if pos < p && p <= ts.len() {
                let r = spec_statements(ts, p);
                (seq![UnitV::ExternDecl(proto)] + r.0, r.1)
            } else {
                (Seq::empty(), true)
            },
            None => (Seq::empty(), true),
        }
    } else {
        match spec_toplevel(ts, pos) {
            Some((f, p)) => if pos < p && p <= ts.len() {
                let r = spec_statements(ts, p);
                (seq![UnitV::TopLevel(f)] + r.0, r.1)
            } else {
                (Seq::empty(), true)
            },
            None => (Seq::empty(), true),
        }
    }
}

/// The loop invariant of `parse_statements`: the units accepted so far,
/// together with what the model says of the remaining tokens, account
/// for the whole line.
spec fn statements_prefix(
    full: (Seq<UnitV>, bool),
    done: Seq<UnitV>,
    rest: (Seq<UnitV>, bool),
) -> bool {
    full.0 == done + rest.0 && full.1 == rest.1
}

/// Turn one line's token sequence into the units accepted from its
/// start, and the parse error that stopped processing, if one did.
/// Empty statements are permitted and ignored.
pub fn parse_statements(ts: &Vec<Token>) -> (r: (Vec<Unit>, Option<ParseError>))
    ensures
        spec_statements(tokens_view(ts@), 0).0 == units_view(r.0@),
        spec_statements(tokens_view(ts@), 0).1 == (r.1 is Some),
{
    let ghost tv = tokens_view(ts@);
    let ghost full = spec_statements(tv, 0);
    let n: usize = ts.len();
    let mut units: Vec<Unit> = Vec::new();
    let mut p: usize = 0;
    loop
        invariant
            p <= n,
            n == ts@.len(),
            tv == tokens_view(ts@),
            full == spec_statements(tv, 0),
            statements_prefix(full, units_view(units@), spec_statements(tv, p as int)),
        decreases n - p,
    {
        if p == n {
            proof {
                assert(units_view(units@) + Seq::<UnitV>::empty() =~= units_view(units@));
            }
            return (units, None);
        }
        if is_kwd(&ts[p], ';') {
            p = p + 1;
        } else if tok_is_def(&ts[p]) {
            match definition(ts, p) {
                Ok((f, q)) => {
                    proof {
                        let done = units_view(units@);
                        let u = Unit::Definition(f);
                        assert(units_view(units@.push(u)) =~= done.push(u@));
                        assert(done.push(u@) =~= done + seq![u@]);
                        let r2 = spec_statements(tv, q as int);
                        assert((done + seq![u@]) + r2.0 =~= done + (seq![u@] + r2.0));
                    }
                    units.push(Unit::Definition(f));
                    p = q;
                },
                Err(e) => {
                    proof {
                        assert(units_view(units@) + Seq::<UnitV>::empty() =~= units_view(
                            units@,
                        ));
                    }
                    return (units, Some(e));
                },
            }
        } else if tok_is_extern(&ts[p]) {
            match extern_parser(ts, p) {
                Ok((proto, q)) => {
                    proof {
                        let done = units_view(units@);
                        let u = Unit::ExternDecl(proto);
                        assert(units_view(units@.push(u)) =~= done.push(u@));
                        assert(done.push(u@) =~= done + seq![u@]);
                        let r2 = spec_statements(tv, q as int);
                        assert((done + seq![u@]) + r2.0 =~= done + (seq![u@] + r2.0));
                    }
                    units.push(Unit::ExternDecl(proto));
                    p = q;
                },
                Err(e) => {
                    proof {
                        assert(units_view(units@) + Seq::<UnitV>::empty() =~= units_view(
                            units@,
                        ));
                    }
                    return (units, Some(e));
                },
            }
        } else {
            match toplevel(ts, p) {
                Ok((f, q)) => {
                    proof {
                        let done = units_view(units@);
                        let u = Unit::TopLevel(f);
                        assert(units_view(units@.push(u)) =~= done.push(u@));
                        assert(done.push(u@) =~= done + seq![u@]);
                        let r2 = spec_statements(tv, q as int);
                        assert((done + seq![u@]) + r2.0 =~= done + (seq![u@] + r2.0));
                    }
                    units.push(Unit::TopLevel(f));
                    p = q;
                },
                Err(e) => {
                    proof {
                        assert(units_view(units@) + Seq::<UnitV>::empty() =~= units_view(
                            units@,
                        ));
                    }
                    return (units, Some(e));
                },
            }
        }
    }
}

/// One line of input, from raw text to AST units: lex the whole line
/// eagerly, then run the statement loop over its tokens. A lexical
/// error abandons the line with nothing accepted; a parse error keeps
/// the units accepted before it.
pub fn process_line(s: &str) -> (r: Result<(Vec<Unit>, Option<ParseError>), LexError>)
    ensures
        match r {
            Ok((units, stopped)) => {
                &&& spec_lex(s@) is Some
                &&& units_view(units@) == spec_statements(spec_lex(s@).unwrap(), 0).0
                &&& (stopped is Some) == spec_statements(spec_lex(s@).unwrap(), 0).1
            },
            Err(_) => spec_lex(s@) is None,
        },
{
    match lex_line(s) {
        Ok(tokens) => {
            let (units, stopped) = parse_statements(&tokens);
            Ok((units, stopped))
        },
        Err(e) => Err(e),
    }
}

} // verus!
