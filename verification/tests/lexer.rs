use kaleidoscope::lexer::{comment, ident, lex, lex_line, number, LexError};
use kaleidoscope::token::Token;

fn lex_tokens(s: &str) -> Vec<Token> {
    match lex_line(s) {
        Ok(tokens) => tokens,
        Err(e) => panic!("error: {:?}", e),
    }
}

#[test]
fn test_number() {
    assert_eq!(
        number("1.0", 0).map(|x| x.0),
        Ok(Token::Number("1.0".to_owned()))
    );
    assert_eq!("1.0".parse::<f64>().unwrap(), 1.0);
}

#[test]
fn test_ident() {
    assert_eq!(
        ident("test", 0).map(|x| x.0),
        Ok(Token::Ident("test".to_owned()))
    );

    assert_eq!(ident("def", 0).map(|x| x.0), Ok(Token::Def));

    assert_eq!(
        ident("foo(", 0).map(|x| x.0),
        Ok(Token::Ident("foo".to_owned()))
    );
}

#[test]
fn test_comment() {
    // the comment runs to the end of the input and is fully consumed
    assert_eq!(comment("#hoge", 0), Ok(5));
}

#[test]
fn test_lex() {
    assert_eq!(
        lex("#comment\n1.0\n", 0).map(|x| x.map(|y| y.0)),
        Ok(Some(Token::Number("1.0".to_owned())))
    );
}

#[test]
fn test_tokens() {
    assert_eq!(
        lex_tokens("def foo(x y) x+foo(y, 4.0);"),
        vec![
            Token::Def,
            Token::Ident("foo".to_owned()),
            Token::Kwd('('),
            Token::Ident("x".to_owned()),
            Token::Ident("y".to_owned()),
            Token::Kwd(')'),
            Token::Ident("x".to_owned()),
            Token::Kwd('+'),
            Token::Ident("foo".to_owned()),
            Token::Kwd('('),
            Token::Ident("y".to_owned()),
            Token::Kwd(','),
            Token::Number("4.0".to_owned()),
            Token::Kwd(')'),
            Token::Kwd(';')
        ]
    );
    assert_eq!("4.0".parse::<f64>().unwrap(), 4.0);
}

#[test]
fn test_number_line() {
    // a well-formed numeric literal lexes to exactly one Number token
    assert_eq!(
        lex_tokens("1.0"),
        vec![Token::Number("1.0".to_owned())]
    );
    assert_eq!(lex_tokens("42."), vec![Token::Number("42.".to_owned())]);
    assert_eq!(lex_tokens(".5"), vec![Token::Number(".5".to_owned())]);
    assert_eq!("42.".parse::<f64>().unwrap(), 42.0);
    assert_eq!(".5".parse::<f64>().unwrap(), 0.5);
    // the token after the literal is end-of-input
    assert_eq!(lex("1.0", 3), Ok(None));
}

#[test]
fn test_comment_transparent() {
    // a trailing comment changes nothing, terminated or not
    assert_eq!(lex_tokens("x+1 # trailing comment"), lex_tokens("x+1"));
    assert_eq!(lex_tokens("x+1 # trailing comment\n"), lex_tokens("x+1"));
}

#[test]
fn test_malformed_number() {
    // two decimal points make a lexical error, at the run's start
    assert_eq!(lex_line("1.2.3"), Err(LexError { pos: 0 }));
    assert_eq!(lex_line("  .."), Err(LexError { pos: 2 }));
    assert_eq!(lex_line("."), Err(LexError { pos: 0 }));
}

#[test]
fn test_maximal_runs() {
    // runs are maximal: a digit ends an identifier run only at its start
    assert_eq!(
        lex_tokens("1a"),
        vec![
            Token::Number("1".to_owned()),
            Token::Ident("a".to_owned())
        ]
    );
    assert_eq!(lex_tokens("abc1"), vec![Token::Ident("abc1".to_owned())]);
    // keywords match whole words only, case-sensitively
    assert_eq!(lex_tokens("iffy"), vec![Token::Ident("iffy".to_owned())]);
    assert_eq!(lex_tokens("If"), vec![Token::Ident("If".to_owned())]);
    assert_eq!(
        lex_tokens("if then else for in extern"),
        vec![
            Token::If,
            Token::Then,
            Token::Else,
            Token::For,
            Token::In,
            Token::Extern
        ]
    );
}

#[test]
fn test_catch_all_punctuation() {
    // any unrecognized character becomes a punctuation token
    assert_eq!(
        lex_tokens("@ ;"),
        vec![Token::Kwd('@'), Token::Kwd(';')]
    );
    assert_eq!(lex_tokens(""), vec![]);
    assert_eq!(lex_tokens(" \t\r\n"), vec![]);
}
