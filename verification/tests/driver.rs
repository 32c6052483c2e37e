use kaleidoscope::ast::{Expr, Function, Prototype};
use kaleidoscope::driver::{parse_statements, Unit};
use kaleidoscope::lexer::lex_line;
use kaleidoscope::token::Token;

fn lex_tokens(s: &str) -> Vec<Token> {
    match lex_line(s) {
        Ok(tokens) => tokens,
        Err(e) => panic!("error: {:?}", e),
    }
}

fn anon(body: Expr) -> Unit {
    Unit::TopLevel(Function(
        Box::new(Prototype(String::new(), vec![])),
        Box::new(body),
    ))
}

#[test]
fn test_statement_recovery() {
    // the malformed first definition loses the whole run: zero
    // statements, one error
    let bad = lex_tokens("def f( 1; def g() 2;");
    let (units, err) = parse_statements(&bad);
    assert_eq!(units, vec![]);
    assert!(err.is_some());

    // the next well-formed line is accepted normally
    let good = lex_tokens("def g() 2;");
    let (units2, err2) = parse_statements(&good);
    assert_eq!(
        units2,
        vec![Unit::Definition(Function(
            Box::new(Prototype("g".to_owned(), vec![])),
            Box::new(Expr::Number("2".to_owned()))
        ))]
    );
    assert!(err2.is_none());
}

#[test]
fn test_statements_kinds() {
    // each statement kind maps to its own unit
    let tokens = lex_tokens("extern sin(x); def f(x) sin(x); f(1);");
    let (units, err) = parse_statements(&tokens);
    assert!(err.is_none());
    assert_eq!(units.len(), 3);
    assert_eq!(
        units[0],
        Unit::ExternDecl(Prototype("sin".to_owned(), vec!["x".to_owned()]))
    );
    assert!(matches!(units[1], Unit::Definition(_)));
    assert_eq!(
        units[2],
        anon(Expr::Call(
            "f".to_owned(),
            vec![Expr::Number("1".to_owned())]
        ))
    );
}

#[test]
fn test_empty_statements() {
    // empty statements are permitted and ignored
    let (units, err) = parse_statements(&lex_tokens(";;"));
    assert_eq!(units, vec![]);
    assert!(err.is_none());

    let (units2, err2) = parse_statements(&lex_tokens("1;;2"));
    assert_eq!(
        units2,
        vec![
            anon(Expr::Number("1".to_owned())),
            anon(Expr::Number("2".to_owned()))
        ]
    );
    assert!(err2.is_none());

    let (units3, err3) = parse_statements(&lex_tokens(""));
    assert_eq!(units3, vec![]);
    assert!(err3.is_none());
}

#[test]
fn test_separator_optional() {
    // the separator may be omitted where statements delimit themselves
    let tokens = lex_tokens("def f() 1 def g() 2");
    let (units, err) = parse_statements(&tokens);
    assert!(err.is_none());
    assert_eq!(units.len(), 2);
}

#[test]
fn test_statements_stop_at_error() {
    // statements accepted before the failure are preserved
    let tokens = lex_tokens("1; (2; 3;");
    let (units, err) = parse_statements(&tokens);
    assert_eq!(units, vec![anon(Expr::Number("1".to_owned()))]);
    assert!(err.is_some());
}

#[test]
fn test_process_line() {
    // the whole pipeline: text in, units out
    let (units, err) = kaleidoscope::driver::process_line("4+5; # done\n").unwrap();
    assert!(err.is_none());
    assert_eq!(
        units,
        vec![anon(Expr::Binary(
            '+',
            Box::new(Expr::Number("4".to_owned())),
            Box::new(Expr::Number("5".to_owned()))
        ))]
    );
    // a lexical error abandons the whole line
    assert!(kaleidoscope::driver::process_line("1; 2..3; 4").is_err());
}
