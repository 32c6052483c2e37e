use kaleidoscope::ast::{Expr, Prototype};
use kaleidoscope::lexer::lex_line;
use kaleidoscope::parser::{args, call, definition, expr, parse_for, primary, prototype, toplevel};
use kaleidoscope::token::Token;

fn lex_tokens(s: &str) -> Vec<Token> {
    match lex_line(s) {
        Ok(tokens) => tokens,
        Err(e) => panic!("error: {:?}", e),
    }
}

fn num(s: &str) -> Expr {
    Expr::Number(s.to_owned())
}

fn var(s: &str) -> Expr {
    Expr::Variable(s.to_owned())
}

#[test]
fn test_primary() {
    {
        let tokens = vec![Token::Number("1.0".to_owned())];
        assert_eq!(primary(&tokens, 0).map(|x| x.0), Ok(num("1.0")));
    }

    {
        let tokens = vec![Token::Ident("y".to_owned())];
        assert_eq!(primary(&tokens, 0).map(|x| x.0), Ok(var("y")));
    }
}

#[test]
fn test_expr() {
    {
        let tokens = lex_tokens("1.0+2.0");
        assert_eq!(
            expr(&tokens, 0).map(|x| x.0),
            Ok(Expr::Binary(
                '+',
                Box::new(num("1.0")),
                Box::new(num("2.0"))
            ))
        );
    }

    {
        let tokens = lex_tokens("1.0+2.0*3.0");
        assert_eq!(
            expr(&tokens, 0).map(|x| x.0),
            Ok(Expr::Binary(
                '+',
                Box::new(num("1.0")),
                Box::new(Expr::Binary(
                    '*',
                    Box::new(num("2.0")),
                    Box::new(num("3.0"))
                ))
            ))
        );
    }

    {
        let tokens = lex_tokens("(1.0+2.0)*3.0");
        assert_eq!(
            expr(&tokens, 0).map(|x| x.0),
            Ok(Expr::Binary(
                '*',
                Box::new(Expr::Binary(
                    '+',
                    Box::new(num("1.0")),
                    Box::new(num("2.0"))
                )),
                Box::new(num("3.0"))
            ))
        );
    }

    {
        let tokens = lex_tokens("y");
        assert_eq!(expr(&tokens, 0).map(|x| x.0), Ok(var("y")));
    }
}

#[test]
fn test_prototype() {
    {
        let tokens = vec![
            Token::Ident("f".to_owned()),
            Token::Kwd('('),
            Token::Kwd(')'),
        ];
        assert_eq!(
            prototype(&tokens, 0).map(|x| x.0),
            Ok(Prototype("f".to_owned(), vec![]))
        );
    }
}

#[test]
fn test_call() {
    let tokens = lex_tokens("foo(y, 4.0)");
    assert_eq!(
        call(&tokens, 0).map(|x| x.0),
        Ok(Expr::Call("foo".to_owned(), vec![var("y"), num("4.0")]))
    );
}

#[test]
fn test_args() {
    let tokens = lex_tokens("y, 4.0");
    assert_eq!(
        args(&tokens, 0).map(|x| x.0),
        Ok(vec![var("y"), num("4.0")])
    );
}

#[test]
fn test_for() {
    {
        let tokens = lex_tokens("for i=1, 3 in 3");
        assert_eq!(
            parse_for(&tokens, 0).map(|x| x.0),
            Ok(Expr::For(
                "i".to_owned(),
                Box::new(num("1")),
                Box::new(num("3")),
                Box::new(None),
                Box::new(num("3"))
            ))
        );
    }

    {
        let tokens = lex_tokens("for i=1, 3,2 in 3");
        assert_eq!(
            parse_for(&tokens, 0).map(|x| x.0),
            Ok(Expr::For(
                "i".to_owned(),
                Box::new(num("1")),
                Box::new(num("3")),
                Box::new(Some(num("2"))),
                Box::new(num("3"))
            ))
        );
    }
}

#[test]
fn test_left_assoc() {
    // binary chains lean left: 1+2+3 is (1+2)+3
    let tokens = lex_tokens("1+2+3");
    assert_eq!(
        expr(&tokens, 0).map(|x| x.0),
        Ok(Expr::Binary(
            '+',
            Box::new(Expr::Binary('+', Box::new(num("1")), Box::new(num("2")))),
            Box::new(num("3"))
        ))
    );
}

#[test]
fn test_relational_level() {
    // '<' binds loosest: a < b + c is a < (b+c)
    let tokens = lex_tokens("a < b + c");
    assert_eq!(
        expr(&tokens, 0).map(|x| x.0),
        Ok(Expr::Binary(
            '<',
            Box::new(var("a")),
            Box::new(Expr::Binary('+', Box::new(var("b")), Box::new(var("c"))))
        ))
    );
}

#[test]
fn test_variable_not_call() {
    // a bare name is a variable reference, not a call
    let tokens = lex_tokens("foo");
    assert_eq!(expr(&tokens, 0).map(|x| x.0), Ok(var("foo")));
    // an empty argument list still makes a call
    let tokens2 = lex_tokens("foo()");
    assert_eq!(
        expr(&tokens2, 0).map(|x| x.0),
        Ok(Expr::Call("foo".to_owned(), vec![]))
    );
}

#[test]
fn test_conditional() {
    let tokens = lex_tokens("if x then 1 else 2");
    assert_eq!(
        expr(&tokens, 0).map(|x| x.0),
        Ok(Expr::If(
            Box::new(var("x")),
            Box::new(num("1")),
            Box::new(num("2"))
        ))
    );
}

#[test]
fn test_cursor_at_end() {
    // a full statement parse returns a cursor equal to the input length
    let tokens = lex_tokens("def f(x) x+1");
    let (_, p) = definition(&tokens, 0).unwrap();
    assert_eq!(p, tokens.len());

    let tokens2 = lex_tokens("1+2*3");
    let (_, q) = toplevel(&tokens2, 0).unwrap();
    assert_eq!(q, tokens2.len());
}

#[test]
fn test_parse_errors() {
    // an unterminated parenthesis fails
    let tokens = lex_tokens("(1+2");
    assert!(expr(&tokens, 0).is_err());
    // a trailing operator fails
    let tokens2 = lex_tokens("1+");
    assert!(expr(&tokens2, 0).is_err());
    // a conditional missing its else fails
    let tokens3 = lex_tokens("if x then 1");
    assert!(expr(&tokens3, 0).is_err());
    // a definition whose prototype is unclosed fails
    let tokens4 = lex_tokens("def f( 1");
    assert!(definition(&tokens4, 0).is_err());
}

#[test]
fn test_prototype_params() {
    // parameter names stand side by side with no separators
    let tokens = lex_tokens("foo(x y)");
    assert_eq!(
        prototype(&tokens, 0).map(|x| x.0),
        Ok(Prototype(
            "foo".to_owned(),
            vec!["x".to_owned(), "y".to_owned()]
        ))
    );
}
