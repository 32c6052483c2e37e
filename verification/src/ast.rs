//! The closed set of expression and declaration shapes the parser can
//! produce, together with their mathematical views.

use vstd::prelude::*;

verus! {

/// One expression node. The tree is exclusively owned: ownership runs
/// strictly parent to child, with no sharing and no cycles.
/// `Number` carries the literal's source text; `Binary` carries the
/// operator character; `For` is the bounded loop
/// (variable, start, end, optional step, body).
#[derive(Debug, PartialEq)]
pub enum Expr {
    Number(String),
    Variable(String),
    Binary(char, Box<Expr>, Box<Expr>),
    Call(String, Vec<Expr>),
    If(Box<Expr>, Box<Expr>, Box<Expr>),
    For(String, Box<Expr>, Box<Expr>, Box<Option<Expr>>, Box<Expr>),
}

/// The view of an `Expr`: the same tree over `Seq<char>`.
pub enum ExprV {
    Number(Seq<char>),
    Variable(Seq<char>),
    Binary(char, Box<ExprV>, Box<ExprV>),
    Call(Seq<char>, Seq<ExprV>),
    If(Box<ExprV>, Box<ExprV>, Box<ExprV>),
    For(Seq<char>, Box<ExprV>, Box<ExprV>, Option<Box<ExprV>>, Box<ExprV>),
}

impl View for Expr {
    type V = ExprV;

    open spec fn view(&self) -> ExprV
        decreases self,
    {
        match self {
            Expr::Number(s) => ExprV::Number(s@),
            Expr::Variable(s) => ExprV::Variable(s@),
            Expr::Binary(op, l, r) => ExprV::Binary(*op, Box::new((**l)@), Box::new((**r)@)),
            Expr::Call(name, args) => ExprV::Call(name@, exprs_view(args@)),
            Expr::If(c, t, e) => ExprV::If(Box::new((**c)@), Box::new((**t)@), Box::new((**e)@)),
            Expr::For(v, start, end, step, body) => ExprV::For(
                v@,
                Box::new((**start)@),
                Box::new((**end)@),
                match &**step {
                    Some(e) => Some(Box::new(e@)),
                    None => None,
                },
                Box::new((**body)@),
            ),
        }
    }
}

/// The view of a sequence of expressions, element by element.
pub open spec fn exprs_view(args: Seq<Expr>) -> Seq<ExprV>
    decreases args,
{
    if args.len() == 0 {
        Seq::empty()
    } else {
        seq![args[0]@] + exprs_view(args.subrange(1, args.len() as int))
    }
}

/// Viewing a sequence of expressions commutes with appending one.
pub proof fn lemma_exprs_view_push(s: Seq<Expr>, e: Expr)
    ensures
        exprs_view(s.push(e)) == exprs_view(s).push(e@),
    decreases s.len(),
{
    if s.len() == 0 {
        assert(s.push(e)[0] == e);
        assert(s.push(e).subrange(1, 1) =~= Seq::<Expr>::empty());
        assert(exprs_view(Seq::<Expr>::empty()) == Seq::<ExprV>::empty());
        assert(exprs_view(s.push(e)) == seq![e@] + Seq::<ExprV>::empty());
        assert(seq![e@] + Seq::<ExprV>::empty() =~= seq![e@]);
        assert(exprs_view(s).push(e@) =~= seq![e@]);
    } else {
        let tail = s.subrange(1, s.len() as int);
        assert(s.push(e)[0] == s[0]);
        assert(s.push(e).subrange(1, s.len() as int + 1) =~= tail.push(e));
        lemma_exprs_view_push(tail, e);
        assert(exprs_view(s.push(e)) == seq![s[0]@] + exprs_view(tail).push(e@));
        assert(seq![s[0]@] + exprs_view(tail).push(e@) =~= (seq![s[0]@] + exprs_view(tail)).push(
            e@,
        ));
        assert(exprs_view(s) == seq![s[0]@] + exprs_view(tail));
    }
}

/// A callable signature: a name and its parameter names. All parameters
/// and the return value have the single numeric type, so no types are
/// recorded.
#[derive(Debug, PartialEq)]
pub struct Prototype(pub String, pub Vec<String>);

/// The view of a `Prototype`.
pub struct PrototypeV {
    pub name: Seq<char>,
    pub params: Seq<Seq<char>>,
}

impl View for Prototype {
    type V = PrototypeV;

    open spec fn view(&self) -> PrototypeV {
        PrototypeV { name: self.0@, params: self.1.deep_view() }
    }
}

/// A parsed top-level unit in uniform "function" shape: a signature and
/// a body. A bare top-level expression is wrapped under the synthetic
/// empty-name, zero-parameter signature.
#[derive(Debug, PartialEq)]
pub struct Function(pub Box<Prototype>, pub Box<Expr>);

/// The view of a `Function`.
pub struct FunctionV {
    pub proto: PrototypeV,
    pub body: ExprV,
}

impl View for Function {
    type V = FunctionV;

    open spec fn view(&self) -> FunctionV {
        FunctionV { proto: (*self.0)@, body: (*self.1)@ }
    }
}

} // verus!
