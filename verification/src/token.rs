//! The closed set of lexical categories the lexer can produce, together
//! with the mathematical view of a token used by the contracts.

use vstd::prelude::*;

verus! {

/// One lexical token. `Ident` and `Number` carry the matched text
/// (a numeric literal is kept as its source text; the numeric value is
/// the backend's concern). `Kwd` is the catch-all for any single
/// punctuation character, and `Eof` marks the end of the input.
#[derive(Debug, Clone, PartialEq)]
pub enum Token {
    Def,
    Extern,
    If,
    Then,
    Else,
    For,
    In,
    Ident(String),
    Number(String),
    Kwd(char),
    Eof,
}

/// The view of a `Token`: the same shape over `Seq<char>`.
pub enum TokenV {
    Def,
    Extern,
    If,
    Then,
    Else,
    For,
    In,
    Ident(Seq<char>),
    Number(Seq<char>),
    Kwd(char),
    Eof,
}

impl View for Token {
    type V = TokenV;

    open spec fn view(&self) -> TokenV {
        match self {
            Token::Def => TokenV::Def,
            Token::Extern => TokenV::Extern,
            Token::If => TokenV::If,
            Token::Then => TokenV::Then,
            Token::Else => TokenV::Else,
            Token::For => TokenV::For,
            Token::In => TokenV::In,
            Token::Ident(s) => TokenV::Ident(s@),
            Token::Number(s) => TokenV::Number(s@),
            Token::Kwd(c) => TokenV::Kwd(*c),
            Token::Eof => TokenV::Eof,
        }
    }
}

/// The view of a whole token sequence.
pub open spec fn tokens_view(ts: Seq<Token>) -> Seq<TokenV> {
    ts.map_values(|t: Token| t@)
}

/// The fixed keyword set: identifier-shaped text is matched against it
/// case-sensitively, and any other text becomes `Ident`.
pub open spec fn keyword_token(w: Seq<char>) -> TokenV {
    if w == "def"@ {
        TokenV::Def
    } else if w == "extern"@ {
        TokenV::Extern
    } else if w == "if"@ {
        TokenV::If
    } else if w == "then"@ {
        TokenV::Then
    } else if w == "else"@ {
        TokenV::Else
    } else if w == "for"@ {
        TokenV::For
    } else if w == "in"@ {
        TokenV::In
    } else {
        TokenV::Ident(w)
    }
}

/// Is `t` the punctuation token for `c`?
pub fn is_kwd(t: &Token, c: char) -> (b: bool)
    ensures
        b == (t@ == TokenV::Kwd(c)),
{
    match t {
        Token::Kwd(c2) => *c2 == c,
        _ => false,
    }
}

/// Is `t` the `def` keyword?
pub fn tok_is_def(t: &Token) -> (b: bool)
    ensures
        b == (t@ is Def),
{
    match t {
        Token::Def => true,
        _ => false,
    }
}

/// Is `t` the `extern` keyword?
pub fn tok_is_extern(t: &Token) -> (b: bool)
    ensures
        b == (t@ is Extern),
{
    match t {
        Token::Extern => true,
        _ => false,
    }
}

/// Is `t` the `if` keyword?
pub fn tok_is_if(t: &Token) -> (b: bool)
    ensures
        b == (t@ is If),
{
    match t {
        Token::If => true,
        _ => false,
    }
}

/// Is `t` the `then` keyword?
pub fn tok_is_then(t: &Token) -> (b: bool)
    ensures
        b == (t@ is Then),
{
    match t {
        Token::Then => true,
        _ => false,
    }
}

/// Is `t` the `else` keyword?
pub fn tok_is_else(t: &Token) -> (b: bool)
    ensures
        b == (t@ is Else),
{
    match t {
        Token::Else => true,
        _ => false,
    }
}

/// Is `t` the `for` keyword?
pub fn tok_is_for(t: &Token) -> (b: bool)
    ensures
        b == (t@ is For),
{
    match t {
        Token::For => true,
        _ => false,
    }
}

/// Is `t` the `in` keyword?
pub fn tok_is_in(t: &Token) -> (b: bool)
    ensures
        b == (t@ is In),
{
    match t {
        Token::In => true,
        _ => false,
    }
}

} // verus!
