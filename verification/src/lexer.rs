//! The lexical analyzer: turns a line of text into tokens, skipping
//! whitespace and `#` comments, recognizing identifiers, keywords,
//! numeric literals and punctuation.
//!
//! `spec_next` and `spec_lex` are the mathematical model of the lexer;
//! the executable functions are proved to produce exactly what the model
//! says. The one failure path is a malformed numeric literal (more than
//! one decimal point, or no digit at all).

use crate::token::{keyword_token, tokens_view, Token, TokenV};
use vstd::prelude::*;

verus! {

/// Whitespace: space, tab, carriage return, newline.
pub open spec fn is_space_char(c: char) -> bool {
    c == ' ' || c == '\t' || c == '\r' || c == '\n'
}

/// An ASCII decimal digit.
pub open spec fn is_digit_char(c: char) -> bool {
    48 <= c as u32 && c as u32 <= 57
}

/// An ASCII letter.
pub open spec fn is_letter_char(c: char) -> bool {
    (65 <= c as u32 && c as u32 <= 90) || (97 <= c as u32 && c as u32 <= 122)
}

/// A character that may continue an identifier: a letter or a digit.
pub open spec fn is_ident_char(c: char) -> bool {
    is_letter_char(c) || is_digit_char(c)
}

/// A character that may belong to a numeric literal's maximal run.
pub open spec fn is_number_char(c: char) -> bool {
    is_digit_char(c) || c == '.'
}

/// End of the identifier run that starts at `i`: the first position at
/// or after `i` whose character no longer continues an identifier.
pub open spec fn ident_end(s: Seq<char>, i: int) -> int
    decreases s.len() - i,
{
    if i < s.len() && is_ident_char(s[i]) {
        ident_end(s, i + 1)
    } else {
        i
    }
}

/// End of the numeric run that starts at `i`.
pub open spec fn number_end(s: Seq<char>, i: int) -> int
    decreases s.len() - i,
{
    if i < s.len() && is_number_char(s[i]) {
        number_end(s, i + 1)
    } else {
        i
    }
}

/// Position just past the newline that ends a comment reaching from `i`,
/// or the end of the input when no newline follows.
pub open spec fn comment_end(s: Seq<char>, i: int) -> int
    decreases s.len() - i,
{
    if i < s.len() {
        if s[i] == '\n' {
            i + 1
        } else {
            comment_end(s, i + 1)
        }
    } else {
        i
    }
}

pub proof fn lemma_ident_end_bounds(s: Seq<char>, i: int)
    requires
        0 <= i <= s.len(),
    ensures
        i <= ident_end(s, i) <= s.len(),
        i < s.len() && is_ident_char(s[i]) ==> i < ident_end(s, i),
    decreases s.len() - i,
{
    if i < s.len() && is_ident_char(s[i]) {
        lemma_ident_end_bounds(s, i + 1);
    }
}

pub proof fn lemma_number_end_bounds(s: Seq<char>, i: int)
    requires
        0 <= i <= s.len(),
    ensures
        i <= number_end(s, i) <= s.len(),
        i < s.len() && is_number_char(s[i]) ==> i < number_end(s, i),
    decreases s.len() - i,
{
    if i < s.len() && is_number_char(s[i]) {
        lemma_number_end_bounds(s, i + 1);
    }
}

pub proof fn lemma_comment_end_bounds(s: Seq<char>, i: int)
    requires
        0 <= i <= s.len(),
    ensures
        i <= comment_end(s, i) <= s.len(),
    decreases s.len() - i,
{
    if i < s.len() && s[i] != '\n' {
        lemma_comment_end_bounds(s, i + 1);
    }
}

/// A scan that stopped at `j` found the identifier run's end.
pub proof fn lemma_ident_end_is(s: Seq<char>, i: int, j: int)
    requires
        0 <= i <= j <= s.len(),
        forall|k: int| i <= k < j ==> is_ident_char(s[k]),
        j < s.len() ==> !is_ident_char(s[j]),
    ensures
        ident_end(s, i) == j,
    decreases j - i,
{
    if i < j {
        lemma_ident_end_is(s, i + 1, j);
    }
}

/// A scan that stopped at `j` found the numeric run's end.
pub proof fn lemma_number_end_is(s: Seq<char>, i: int, j: int)
    requires
        0 <= i <= j <= s.len(),
        forall|k: int| i <= k < j ==> is_number_char(s[k]),
        j < s.len() ==> !is_number_char(s[j]),
    ensures
        number_end(s, i) == j,
    decreases j - i,
{
    if i < j {
        lemma_number_end_is(s, i + 1, j);
    }
}

/// A comment that sees no newline before the input's last character
/// ends exactly at the end of the input; the last character itself may
/// be the newline that closes the comment.
pub proof fn lemma_comment_end_tail(s: Seq<char>, i: int)
    requires
        0 <= i <= s.len(),
        forall|k: int| i <= k < s.len() - 1 ==> s[k] != '\n',
    ensures
        comment_end(s, i) == s.len(),
    decreases s.len() - i,
{
    if i < s.len() {
        if s[i] == '\n' {
            assert(i == s.len() - 1);
        } else {
            lemma_comment_end_tail(s, i + 1);
        }
    }
}

/// How many characters of `w` are digits.
pub open spec fn digit_count(w: Seq<char>) -> int
    decreases w.len(),
{
    if w.len() == 0 {
        0
    } else {
        digit_count(w.drop_last()) + if is_digit_char(w.last()) {
            1int
        } else {
            0int
        }
    }
}

/// How many characters of `w` are decimal points.
pub open spec fn dot_count(w: Seq<char>) -> int
    decreases w.len(),
{
    if w.len() == 0 {
        0
    } else {
        dot_count(w.drop_last()) + if w.last() == '.' {
            1int
        } else {
            0int
        }
    }
}

/// A numeric run parses as a number exactly when it holds at least one
/// digit and at most one decimal point.
pub open spec fn valid_number(w: Seq<char>) -> bool {
    digit_count(w) >= 1 && dot_count(w) <= 1
}

/// The next token starting at position `i`, with the position just past
/// it: skip whitespace and comments, then commit to the first matching
/// alternative (identifier/keyword, number, any other character as
/// punctuation). `None` is the lexical error: a malformed numeric run.
/// At the end of the input the token is `Eof`.
pub open spec fn spec_next(s: Seq<char>, i: int) -> Option<(TokenV, int)>
    decreases s.len() - i,
        when 0 <= i
{
    if i >= s.len() {
        Some((TokenV::Eof, s.len() as int))
    } else if is_space_char(s[i]) {
        spec_next(s, i + 1)
    } else if s[i] == '#' {
        proof {
            lemma_comment_end_bounds(s, i + 1);
        }
        spec_next(s, comment_end(s, i + 1))
    } else if is_letter_char(s[i]) {
        Some((keyword_token(s.subrange(i, ident_end(s, i))), ident_end(s, i)))
    } else if is_number_char(s[i]) {
        let j = number_end(s, i);
        if valid_number(s.subrange(i, j)) {
            Some((TokenV::Number(s.subrange(i, j)), j))
        } else {
            None
        }
    } else {
        Some((TokenV::Kwd(s[i]), i + 1))
    }
}

/// The next token stands between `i` and the end; every token but `Eof`
/// takes at least one character.
pub proof fn lemma_spec_next_bounds(s: Seq<char>, i: int)
    requires
        0 <= i <= s.len(),
    ensures
        match spec_next(s, i) {
            Some((t, j)) => i <= j <= s.len() && (!(t is Eof) ==> i < j),
            None => true,
        },
    decreases s.len() - i,
{
    if i >= s.len() {
    } else if is_space_char(s[i]) {
        lemma_spec_next_bounds(s, i + 1);
    } else if s[i] == '#' {
        lemma_comment_end_bounds(s, i + 1);
        lemma_spec_next_bounds(s, comment_end(s, i + 1));
    } else if is_letter_char(s[i]) {
        lemma_ident_end_bounds(s, i);
    } else if is_number_char(s[i]) {
        lemma_number_end_bounds(s, i);
    } else {
    }
}

/// The token sequence from position `i` to the end of the input, or
/// `None` when a malformed numeric literal is reached. The `Eof` token
/// itself is not part of the sequence.
pub open spec fn spec_lex_from(s: Seq<char>, i: int) -> Option<Seq<TokenV>>
    decreases s.len() - i,
        when 0 <= i <= s.len()
{
    match spec_next(s, i) {
        None => None,
        Some((t, j)) => if t is Eof {
            Some(Seq::empty())
        } else {
            proof {
                lemma_spec_next_bounds(s, i);
            }
            match spec_lex_from(s, j) {
                None => None,
                Some(rest) => Some(seq![t] + rest),
            }
        },
    }
}

/// The token sequence of a whole line.
pub open spec fn spec_lex(s: Seq<char>) -> Option<Seq<TokenV>> {
    spec_lex_from(s, 0)
}

/// Lexing a well-formed numeric literal on its own yields exactly one
/// `Number` token carrying that literal, and nothing after it.
pub proof fn lemma_lex_number_literal(s: Seq<char>)
    requires
        s.len() > 0,
        forall|k: int| 0 <= k < s.len() ==> is_number_char(s[k]),
        valid_number(s),
    ensures
        spec_lex(s) == Some(seq![TokenV::Number(s)]),
{
    lemma_number_end_is(s, 0, s.len() as int);
    assert(s.subrange(0, s.len() as int) =~= s);
    assert(spec_next(s, 0) == Some((TokenV::Number(s), s.len() as int)));
    assert(spec_next(s, s.len() as int) == Some((TokenV::Eof, s.len() as int)));
    assert(spec_lex_from(s, s.len() as int) == Some(Seq::<TokenV>::empty()));
    assert(seq![TokenV::Number(s)] + Seq::<TokenV>::empty() =~= seq![TokenV::Number(s)]);
}

/// The identifier run's end does not move when a comment is appended
/// after the text.
proof fn lemma_ident_end_append(s: Seq<char>, c: Seq<char>, i: int)
    requires
        0 <= i <= s.len(),
    ensures
        ident_end(s + seq!['#'] + c, i) == ident_end(s, i),
    decreases s.len() - i,
{
    let ext = s + seq!['#'] + c;
    if i < s.len() {
        assert(ext[i] == s[i]);
        if is_ident_char(s[i]) {
            lemma_ident_end_append(s, c, i + 1);
        }
    } else {
        assert(ext[i] == '#');
    }
}

/// The numeric run's end does not move when a comment is appended after
/// the text.
proof fn lemma_number_end_append(s: Seq<char>, c: Seq<char>, i: int)
    requires
        0 <= i <= s.len(),
    ensures
        number_end(s + seq!['#'] + c, i) == number_end(s, i),
    decreases s.len() - i,
{
    let ext = s + seq!['#'] + c;
    if i < s.len() {
        assert(ext[i] == s[i]);
        if is_number_char(s[i]) {
            lemma_number_end_append(s, c, i + 1);
        }
    } else {
        assert(ext[i] == '#');
    }
}

/// Inside the original text, the next token is the same whether or not
/// a newline-free comment was appended; at the old end of input, the
/// appended comment is skipped and the end is reached again.
proof fn lemma_next_with_comment(s: Seq<char>, c: Seq<char>, i: int)
    requires
        0 <= i <= s.len(),
        forall|k: int| 0 <= k < s.len() ==> s[k] != '#',
        forall|k: int| 0 <= k < c.len() - 1 ==> c[k] != '\n',
    ensures
        ({
            let ext = s + seq!['#'] + c;
            match spec_next(s, i) {
                Some((t, j)) => if t is Eof {
                    spec_next(ext, i) == Some((TokenV::Eof, ext.len() as int))
                } else {
                    spec_next(ext, i) == Some((t, j)) && i < j <= s.len()
                },
                None => spec_next(ext, i) is None,
            }
        }),
    decreases s.len() - i,
{
    let ext = s + seq!['#'] + c;
    if i == s.len() {
        assert(ext[i] == '#');
        assert forall|k: int| s.len() + 1 <= k < ext.len() - 1 implies ext[k] != '\n' by {
            assert(ext[k] == c[k - s.len() - 1]);
        }
        lemma_comment_end_tail(ext, i + 1);
        assert(spec_next(ext, ext.len() as int) == Some((TokenV::Eof, ext.len() as int)));
        assert(spec_next(ext, i) == Some((TokenV::Eof, ext.len() as int)));
    } else {
        assert(ext[i] == s[i]);
        if is_space_char(s[i]) {
            lemma_next_with_comment(s, c, i + 1);
        } else if is_letter_char(s[i]) {
            lemma_ident_end_append(s, c, i);
            lemma_ident_end_bounds(s, i);
            assert(ext.subrange(i, ident_end(s, i)) =~= s.subrange(i, ident_end(s, i)));
        } else if is_number_char(s[i]) {
            lemma_number_end_append(s, c, i);
            lemma_number_end_bounds(s, i);
            assert(ext.subrange(i, number_end(s, i)) =~= s.subrange(i, number_end(s, i)));
        }
    }
}

/// The token sequences agree from any position of the original text on.
proof fn lemma_lex_from_with_comment(s: Seq<char>, c: Seq<char>, i: int)
    requires
        0 <= i <= s.len(),
        forall|k: int| 0 <= k < s.len() ==> s[k] != '#',
        forall|k: int| 0 <= k < c.len() - 1 ==> c[k] != '\n',
    ensures
        spec_lex_from(s + seq!['#'] + c, i) == spec_lex_from(s, i),
    decreases s.len() - i,
{
    let ext = s + seq!['#'] + c;
    lemma_next_with_comment(s, c, i);
    match spec_next(s, i) {
        None => {},
        Some((t, j)) => {
            if !(t is Eof) {
                lemma_lex_from_with_comment(s, c, j);
            }
        },
    }
}

/// Comment stripping is total: lexing text with a trailing `#` comment
/// appended yields the same token sequence as lexing the text alone.
/// The comment text may end with the newline that closes the line, or
/// run to the end of the input; it holds no newline before that.
pub proof fn lemma_comment_transparent(s: Seq<char>, c: Seq<char>)
    requires
        forall|k: int| 0 <= k < s.len() ==> s[k] != '#',
        forall|k: int| 0 <= k < c.len() - 1 ==> c[k] != '\n',
    ensures
        spec_lex(s + seq!['#'] + c) == spec_lex(s),
{
    lemma_lex_from_with_comment(s, c, 0);
}

/// A lexical error: the numeric run starting at `pos` is malformed.
#[derive(Debug, Clone, Copy, PartialEq, Eq)]
pub struct LexError {
    pub pos: usize,
}

/// Whitespace test.
pub fn space_char(c: char) -> (b: bool)
    ensures
        b == is_space_char(c),
{
    c == ' ' || c == '\t' || c == '\r' || c == '\n'
}

/// Digit test.
pub fn digit_char(c: char) -> (b: bool)
    ensures
        b == is_digit_char(c),
{
    let u: u32 = c as u32;
    48 <= u && u <= 57
}

/// Letter test.
pub fn letter_char(c: char) -> (b: bool)
    ensures
        b == is_letter_char(c),
{
    let u: u32 = c as u32;
    (65 <= u && u <= 90) || (97 <= u && u <= 122)
}

/// Identifier-continuation test.
pub fn ident_char(c: char) -> (b: bool)
    ensures
        b == is_ident_char(c),
{
    letter_char(c) || digit_char(c)
}

/// Numeric-run test.
pub fn number_char(c: char) -> (b: bool)
    ensures
        b == is_number_char(c),
{
    digit_char(c) || c == '.'
}

/// Match identifier-shaped text case-sensitively against the keyword set.
fn keyword_or_ident(w: &str) -> (t: Token)
    ensures
        t@ == keyword_token(w@),
{
    let ws: String = w.to_owned();
    if ws == "def".to_owned() {
        Token::Def
    } else if ws == "extern".to_owned() {
        Token::Extern
    } else if ws == "if".to_owned() {
        Token::If
    } else if ws == "then".to_owned() {
        Token::Then
    } else if ws == "else".to_owned() {
        Token::Else
    } else if ws == "for".to_owned() {
        Token::For
    } else if ws == "in".to_owned() {
        Token::In
    } else {
        Token::Ident(ws)
    }
}

/// Skip a comment: from the `#` at `i`, discard everything through the
/// next newline, or to the end of input when no newline follows, and
/// return the position at which lexing resumes.
pub fn comment(s: &str, i: usize) -> (r: Result<usize, LexError>)
    requires
        i as int <= s@.len(),
    ensures
        match r {
            Ok(j) => {
                &&& i < s@.len() && s@[i as int] == '#'
                &&& j as int == comment_end(s@, i + 1)
                &&& i < j <= s@.len()
            },
            Err(_) => !(i < s@.len() && s@[i as int] == '#'),
        },
{
    let n: usize = s.unicode_len();
    if i >= n {
        return Err(LexError { pos: i });
    }
    let c: char = s.get_char(i);
    if c != '#' {
        return Err(LexError { pos: i });
    }
    let mut k: usize = i + 1;
    loop
        invariant
            i + 1 <= k <= n,
            n == s@.len(),
            i < n && s@[i as int] == '#',
            comment_end(s@, i + 1) == comment_end(s@, k as int),
        ensures
            i + 1 <= k <= n,
            comment_end(s@, i + 1) == comment_end(s@, k as int),
            k == n || s@[k as int] == '\n',
        decreases n - k,
    {
        if k == n {
            break ;
        }
        let c2: char = s.get_char(k);
        if c2 == '\n' {
            break ;
        }
        k = k + 1;
    }
    if k < n {
        Ok(k + 1)
    } else {
        Ok(k)
    }
}

/// Lex an identifier or keyword: a letter followed by a maximal run of
/// letters and digits, matched against the keyword set.
pub fn ident(s: &str, i: usize) -> (r: Result<(Token, usize), LexError>)
    requires
        i as int <= s@.len(),
    ensures
        match r {
            Ok((t, j)) => {
                &&& i < s@.len() && is_letter_char(s@[i as int])
                &&& j as int == ident_end(s@, i as int)
                &&& t@ == keyword_token(s@.subrange(i as int, j as int))
                &&& i < j <= s@.len()
            },
            Err(_) => !(i < s@.len() && is_letter_char(s@[i as int])),
        },
{
    let n: usize = s.unicode_len();
    if i >= n {
        return Err(LexError { pos: i });
    }
    if !letter_char(s.get_char(i)) {
        return Err(LexError { pos: i });
    }
    let mut j: usize = i + 1;
    loop
        invariant
            i + 1 <= j <= n,
            n == s@.len(),
            i < n && is_letter_char(s@[i as int]),
            forall|k: int| i <= k < j ==> is_ident_char(s@[k]),
        ensures
            i + 1 <= j <= n,
            forall|k: int| i <= k < j ==> is_ident_char(s@[k]),
            j == n || !is_ident_char(s@[j as int]),
        decreases n - j,
    {
        if j == n {
            break ;
        }
        if !ident_char(s.get_char(j)) {
            break ;
        }
        j = j + 1;
    }
    proof {
        lemma_ident_end_is(s@, i as int, j as int);
    }
    let w = s.substring_char(i, j);
    Ok((keyword_or_ident(w), j))
}

/// Lex a numeric literal: the maximal run of digits and decimal points
/// starting at `i`. The run is malformed when it has no digit at all or
/// more than one decimal point.
pub fn number(s: &str, i: usize) -> (r: Result<(Token, usize), LexError>)
    requires
        i as int <= s@.len(),
    ensures
        match r {
            Ok((t, j)) => {
                &&& i < s@.len() && is_number_char(s@[i as int])
                &&& j as int == number_end(s@, i as int)
                &&& valid_number(s@.subrange(i as int, j as int))
                &&& t@ == TokenV::Number(s@.subrange(i as int, j as int))
                &&& i < j <= s@.len()
            },
            Err(e) => {
                ||| !(i < s@.len() && is_number_char(s@[i as int]))
                ||| (e.pos == i && !valid_number(
                    s@.subrange(i as int, number_end(s@, i as int)),
                ))
            },
        },
{
    let n: usize = s.unicode_len();
    if i >= n {
        return Err(LexError { pos: i });
    }
    if !number_char(s.get_char(i)) {
        return Err(LexError { pos: i });
    }
    let mut j: usize = i + 1;
    loop
        invariant
            i + 1 <= j <= n,
            n == s@.len(),
            i < n && is_number_char(s@[i as int]),
            forall|k: int| i <= k < j ==> is_number_char(s@[k]),
        ensures
            i + 1 <= j <= n,
            forall|k: int| i <= k < j ==> is_number_char(s@[k]),
            j == n || !is_number_char(s@[j as int]),
        decreases n - j,
    {
        if j == n {
            break ;
        }
        if !number_char(s.get_char(j)) {
            break ;
        }
        j = j + 1;
    }
    proof {
        lemma_number_end_is(s@, i as int, j as int);
    }
    let mut digs: usize = 0;
    let mut dots: usize = 0;
    let mut k: usize = i;
    while k < j
        invariant
            i <= k <= j <= n,
            n == s@.len(),
            digs as int == digit_count(s@.subrange(i as int, k as int)),
            dots as int == dot_count(s@.subrange(i as int, k as int)),
            digs <= k - i,
            dots <= k - i,
        decreases j - k,
    {
        let c: char = s.get_char(k);
        proof {
            assert(s@.subrange(i as int, k + 1).drop_last() =~= s@.subrange(i as int, k as int));
            assert(s@.subrange(i as int, k + 1).last() == s@[k as int]);
        }
        if digit_char(c) {
            digs = digs + 1;
        } else if c == '.' {
            dots = dots + 1;
        }
        k = k + 1;
    }
    if digs >= 1 && dots <= 1 {
        let w = s.substring_char(i, j);
        Ok((Token::Number(w.to_owned()), j))
    } else {
        Err(LexError { pos: i })
    }
}

/// Produce the next token starting at `i`, skipping whitespace and
/// comments first. `Ok(None)` marks the end of the input; the only
/// error is a malformed numeric literal.
pub fn lex(s: &str, i: usize) -> (r: Result<Option<(Token, usize)>, LexError>)
    requires
        i as int <= s@.len(),
    ensures
        match r {
            Ok(Some((t, j))) => {
                &&& spec_next(s@, i as int) == Some((t@, j as int))
                &&& !(t@ is Eof)
                &&& i < j <= s@.len()
            },
            Ok(None) => spec_next(s@, i as int) == Some(
                (TokenV::Eof, s@.len() as int),
            ),
            Err(e) => {
                &&& spec_next(s@, i as int) is None
                &&& i <= e.pos && (e.pos as int) < s@.len()
            },
        },
{
    let n: usize = s.unicode_len();
    let mut p: usize = i;
    loop
        invariant
            i <= p <= n,
            n == s@.len(),
            spec_next(s@, i as int) == spec_next(s@, p as int),
        ensures
            i <= p <= n,
            n == s@.len(),
            spec_next(s@, i as int) == spec_next(s@, p as int),
            p == n || (!is_space_char(s@[p as int]) && s@[p as int] != '#'),
        decreases n - p,
    {
        if p == n {
            break ;
        }
        let c: char = s.get_char(p);
        if space_char(c) {
            p = p + 1;
        } else if c == '#' {
            match comment(s, p) {
                Ok(j) => {
                    p = j;
                },
                Err(e) => {
                    return Err(e);
                },
            }
        } else {
            break ;
        }
    }
    if p == n {
        return Ok(None);
    }
    let c: char = s.get_char(p);
    if letter_char(c) {
        match ident(s, p) {
            Ok((t, j)) => Ok(Some((t, j))),
            Err(e) => Err(e),
        }
    } else if number_char(c) {
        match number(s, p) {
            Ok((t, j)) => Ok(Some((t, j))),
            Err(e) => Err(e),
        }
    } else {
        Ok(Some((Token::Kwd(c), p + 1)))
    }
}

/// The loop invariant of `lex_line`: what has been produced so far,
/// together with what the model says of the remainder, accounts for the
/// whole line.
spec fn lex_prefix(
    full: Option<Seq<TokenV>>,
    done: Seq<TokenV>,
    rest: Option<Seq<TokenV>>,
) -> bool {
    match rest {
        None => full is None,
        Some(r) => full == Some(done + r),
    }
}

/// Lex a whole line eagerly into its token sequence, or report the
/// position of the malformed numeric literal that stopped it. The
/// end-of-input marker is consumed and not part of the sequence.
pub fn lex_line(s: &str) -> (r: Result<Vec<Token>, LexError>)
    ensures
        match r {
            Ok(toks) => spec_lex(s@) == Some(tokens_view(toks@)),
            Err(e) => spec_lex(s@) is None && (e.pos as int) < s@.len(),
        },
{
    let n: usize = s.unicode_len();
    let mut out: Vec<Token> = Vec::new();
    let mut p: usize = 0;
    loop
        invariant
            p <= n,
            n == s@.len(),
            lex_prefix(spec_lex(s@), tokens_view(out@), spec_lex_from(s@, p as int)),
        decreases n - p,
    {
        match lex(s, p) {
            Err(e) => {
                return Err(e);
            },
            Ok(None) => {
                proof {
                    assert(tokens_view(out@) + Seq::<TokenV>::empty() =~= tokens_view(out@));
                }
                return Ok(out);
            },
            Ok(Some((t, j))) => {
                proof {
                    let done = tokens_view(out@);
                    assert(tokens_view(out@.push(t)) =~= done.push(t@));
                    assert(done.push(t@) =~= done + seq![t@]);
                    match spec_lex_from(s@, j as int) {
                        Some(rest) => {
                            assert((done + seq![t@]) + rest =~= done + (seq![t@] + rest));
                        },
                        None => {},
                    }
                }
                out.push(t);
                p = j;
            },
        }
    }
}

} // verus!
