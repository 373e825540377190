use petal::front::lexer::Lexer;
use petal::front::nodes::expr::Expr;
use petal::front::nodes::operator::Operator;
use petal::front::nodes::statement::Statement;
use petal::front::nodes::types::{PrimitiveType, Type};
use petal::front::parser::{Parser, ParserError};
use petal::front::token::{Position, Token};

fn at(line: usize, index: usize) -> Position {
    Position { line, index }
}

/// Tokens on line 1, the k-th at column k + 1, then the end of file.
fn toks(ts: Vec<Token>) -> Vec<(Token, Position)> {
    let mut v: Vec<(Token, Position)> = Vec::new();
    let n = ts.len();
    for (k, t) in ts.into_iter().enumerate() {
        v.push((t, at(1, k + 1)));
    }
    v.push((Token::Eof, at(2, 1)));
    assert_eq!(v.len(), n + 1);
    v
}

fn id(s: &str) -> Token {
    Token::Identifier(s.to_string())
}

fn num(s: &str) -> Token {
    Token::NumberLiteral(s.to_string())
}

#[test]
fn parses_a_function_from_source() {
    let tokens = Lexer::new("fn main() -> i32 { ret 0; }").lex();
    let mut parser = Parser::new("main.pt".to_string(), tokens);
    let (ast, errors) = parser.parse();
    assert!(errors.is_empty());
    assert_eq!(ast.children.len(), 1);
    assert_eq!(ast.children[0].1, at(1, 4));
    match &ast.children[0].0 {
        Statement::Function(f) => {
            assert_eq!(f.id.0, "main");
            assert_eq!(f.id.1, at(1, 4));
            assert!(f.parameters.is_empty());
            assert_eq!(f.return_type.0 .0, Type::Primitive(PrimitiveType::I32));
            assert_eq!(f.return_type.1, at(1, 14));
            assert_eq!(f.body.1, at(1, 28));
            assert_eq!(f.body.0.children.len(), 1);
            match &f.body.0.children[0] {
                (Statement::Return(r), pos) => {
                    assert_eq!(*pos, at(1, 20));
                    assert!(matches!(&r.value.0, Expr::Number((n, _)) if n == "0"));
                    assert_eq!(r.value.1, at(1, 24));
                },
                other => panic!("unexpected statement {:?}", other),
            }
        },
        other => panic!("unexpected definition {:?}", other),
    }
}

#[test]
fn multiplication_binds_tighter_than_addition() {
    // fn f() -> i32 { ret 1 + 2 * 3; }
    let tokens = toks(vec![
        Token::Fn, id("f"), Token::LPar, Token::RPar, Token::Arrow, Token::I32, Token::LCurl,
        Token::Ret, num("1"), Token::Plus, num("2"), Token::Asterisk, num("3"), Token::Semicolon,
        Token::RCurl,
    ]);
    let mut parser = Parser::new("f.pt".to_string(), tokens);
    let (ast, errors) = parser.parse();
    assert!(errors.is_empty());
    let f = match &ast.children[0].0 {
        Statement::Function(f) => f,
        _ => panic!("not a function"),
    };
    let value = match &f.body.0.children[0].0 {
        Statement::Return(r) => &r.value.0,
        _ => panic!("not a return"),
    };
    match value {
        Expr::Binary((b, pos)) => {
            assert_eq!(b.op, Operator::Plus);
            assert_eq!(*pos, at(1, 9));
            assert!(matches!(&b.left.0, Expr::Number((n, _)) if n == "1"));
            match &b.right.0 {
                Expr::Binary((m, mpos)) => {
                    assert_eq!(m.op, Operator::Asterisk);
                    assert_eq!(*mpos, at(1, 11));
                },
                other => panic!("unexpected {:?}", other),
            }
        },
        other => panic!("unexpected {:?}", other),
    }
}

#[test]
fn parses_parameters_and_calls() {
    // fn add(a: i32, b: u64) -> i32 { ret add(a, b); }
    let tokens = toks(vec![
        Token::Fn, id("add"), Token::LPar, id("a"), Token::Colon, Token::I32, Token::Comma, id("b"),
        Token::Colon, Token::U64, Token::RPar, Token::Arrow, Token::I32, Token::LCurl, Token::Ret,
        id("add"), Token::LPar, id("a"), Token::Comma, id("b"), Token::RPar, Token::Semicolon,
        Token::RCurl,
    ]);
    let mut parser = Parser::new("f.pt".to_string(), tokens);
    let (ast, errors) = parser.parse();
    assert!(errors.is_empty());
    let f = match &ast.children[0].0 {
        Statement::Function(f) => f,
        _ => panic!("not a function"),
    };
    assert_eq!(f.parameters.len(), 2);
    assert_eq!(f.parameters[0].0.id, "a");
    assert_eq!(f.parameters[0].0.var_type, Type::Primitive(PrimitiveType::I32));
    assert_eq!(f.parameters[0].1, at(1, 4));
    assert_eq!(f.parameters[1].0.var_type, Type::Primitive(PrimitiveType::U64));
    match &f.body.0.children[0].0 {
        Statement::Return(r) => match &r.value.0 {
            Expr::FunctionCall { function, arguments } => {
                assert_eq!(function.0, "add");
                assert_eq!(arguments.len(), 2);
                assert!(matches!(&arguments[1].0, Expr::VariableCall((n, _)) if n == "b"));
                // A call with arguments is placed at its `(`.
                assert_eq!(r.value.1, at(1, 17));
            },
            other => panic!("unexpected {:?}", other),
        },
        _ => panic!("not a return"),
    }
}

#[test]
fn parses_declarations_assignments_and_casts() {
    // fn f() -> i32 { let x: i32 = 5; x = x as u8; let y := x; ret y; }
    let tokens = toks(vec![
        Token::Fn, id("f"), Token::LPar, Token::RPar, Token::Arrow, Token::I32, Token::LCurl,
        Token::Let, id("x"), Token::Colon, Token::I32, Token::Equal, num("5"), Token::Semicolon,
        id("x"), Token::Equal, id("x"), Token::As, id("u8"), Token::Semicolon,
        Token::Let, id("y"), Token::Walrus, id("x"), Token::Semicolon,
        Token::Ret, id("y"), Token::Semicolon, Token::RCurl,
    ]);
    let mut parser = Parser::new("f.pt".to_string(), tokens);
    let (ast, errors) = parser.parse();
    assert!(errors.is_empty());
    let f = match &ast.children[0].0 {
        Statement::Function(f) => f,
        _ => panic!("not a function"),
    };
    let body = &f.body.0.children;
    assert_eq!(body.len(), 4);
    match &body[0] {
        (Statement::DeclarationAssignment(d), pos) => {
            assert_eq!(*pos, at(1, 9));
            assert_eq!(d.declaration.0.id, "x");
            assert_eq!(d.declaration.0.var_type, Type::Primitive(PrimitiveType::I32));
            assert_eq!(d.assignment.0.lhs, "x");
            assert_eq!(d.assignment.1, at(1, 13));
        },
        other => panic!("unexpected {:?}", other),
    }
    match &body[1] {
        (Statement::Assignment(a), pos) => {
            assert_eq!(a.lhs, "x");
            assert_eq!(*pos, at(1, 17));
            assert!(matches!(&a.value.0, Expr::Cast((petal::front::nodes::cast::Cast::Primitive((t, p)), _), _) if t == "u8" && *p == at(1, 18)));
        },
        other => panic!("unexpected {:?}", other),
    }
    assert!(matches!(&body[2], (Statement::Walrus(w), p) if w.id == "y" && *p == at(1, 22)));
    assert!(matches!(&body[3].0, Statement::Return(_)));
}

#[test]
fn control_flow_statements() {
    // fn f() -> i32 { if a { } else if b { } else { } while c { break; } loop { continue; } ret 0; }
    let tokens = toks(vec![
        Token::Fn, id("f"), Token::LPar, Token::RPar, Token::Arrow, Token::I32, Token::LCurl,
        Token::If, id("a"), Token::LCurl, Token::RCurl,
        Token::Else, Token::If, id("b"), Token::LCurl, Token::RCurl,
        Token::Else, Token::LCurl, Token::RCurl,
        Token::While, id("c"), Token::LCurl, Token::Break, Token::Semicolon, Token::RCurl,
        Token::Loop, Token::LCurl, Token::Continue, Token::Semicolon, Token::RCurl,
        Token::Ret, num("0"), Token::Semicolon, Token::RCurl,
    ]);
    let mut parser = Parser::new("f.pt".to_string(), tokens);
    let (ast, errors) = parser.parse();
    assert!(errors.is_empty());
    let f = match &ast.children[0].0 {
        Statement::Function(f) => f,
        _ => panic!("not a function"),
    };
    let body = &f.body.0.children;
    assert_eq!(body.len(), 6);
    assert!(matches!(&body[0], (Statement::If(s), p) if *p == at(1, 8) && s.branch.1 == at(1, 11)));
    assert!(matches!(&body[1], (Statement::Else(s), p) if *p == at(1, 13) && s.condition.is_some()));
    assert!(matches!(&body[2], (Statement::Else(s), p) if *p == at(1, 17) && s.condition.is_none()));
    match &body[3].0 {
        Statement::While(w) => assert!(matches!(&w.body.0.children[0], (Statement::Break(_), p) if *p == at(1, 23))),
        other => panic!("unexpected {:?}", other),
    }
    match &body[4].0 {
        Statement::Loop(l) => assert!(matches!(&l.body.0.children[0].0, Statement::Continue(_))),
        other => panic!("unexpected {:?}", other),
    }
}

#[test]
fn a_bad_function_is_reported_and_parsing_goes_on() {
    // fn 5  fn g() -> i32 { ret 1; }
    let tokens = toks(vec![
        Token::Fn, num("5"), Token::Fn, id("g"), Token::LPar, Token::RPar, Token::Arrow, Token::I32,
        Token::LCurl, Token::Ret, num("1"), Token::Semicolon, Token::RCurl,
    ]);
    let mut parser = Parser::new("bad.pt".to_string(), tokens);
    let (ast, errors) = parser.parse();
    assert_eq!(errors.len(), 1);
    assert!(matches!(&errors[0], ParserError::UnexpectedToken { token: Token::NumberLiteral(n), position, .. } if n == "5" && *position == at(1, 2)));
    assert_eq!(errors[0].message(), "Unexpected token 'NumberLiteral(\"5\")' in file: bad.pt on line 1 at position 2");
    assert_eq!(ast.children.len(), 1);
    assert!(matches!(&ast.children[0].0, Statement::Function(f) if f.id.0 == "g"));
}

#[test]
fn missing_parenthesis_and_semicolon_errors() {
    let tokens = toks(vec![Token::Fn, id("f"), Token::LCurl]);
    let mut parser = Parser::new("f.pt".to_string(), tokens);
    let (_, errors) = parser.parse();
    assert_eq!(errors.len(), 1);
    assert_eq!(errors[0].message(), "Missing token 'opening '('', expected in file: f.pt on line 1 at position 3");

    // fn f() -> i32 { ret 1 }
    let tokens = toks(vec![
        Token::Fn, id("f"), Token::LPar, Token::RPar, Token::Arrow, Token::I32, Token::LCurl,
        Token::Ret, num("1"), Token::RCurl,
    ]);
    let mut parser = Parser::new("f.pt".to_string(), tokens);
    let (_, errors) = parser.parse();
    assert_eq!(errors.len(), 1);
    // A syntax error names its line twice.
    assert_eq!(errors[0].message(), "Syntax error in file f.pt on line 1 at position 1: Expected ';' after return expression.");
}

#[test]
fn a_body_needs_an_arrow_before_it() {
    // Without `->`, the `{` is taken as the return type and the body is missing its `{`.
    let tokens = toks(vec![Token::Fn, id("f"), Token::LPar, Token::RPar, Token::LCurl, Token::RCurl]);
    let mut parser = Parser::new("f.pt".to_string(), tokens);
    let (ast, errors) = parser.parse();
    assert!(ast.children.is_empty());
    assert_eq!(errors.len(), 1);
    assert!(matches!(&errors[0], ParserError::MissingToken { expected, position, .. } if expected == "opening '{'" && *position == at(1, 6)));
}

#[test]
fn the_end_of_the_tokens_is_an_error() {
    let mut parser = Parser::new("f.pt".to_string(), vec![(Token::Fn, at(1, 1))]);
    let (ast, errors) = parser.parse();
    assert!(ast.children.is_empty());
    assert_eq!(errors.len(), 1);
    assert_eq!(
        errors[0].message(),
        "Error: Reached end of token list for unknown reason, it should have stopped at `Token::Eof`"
    );
}

#[test]
fn peek_and_consume() {
    let mut parser = Parser::new("f.pt".to_string(), toks(vec![id("a")]));
    assert!(matches!(parser.peek(), Some((Token::Identifier(n), _)) if n == "a"));
    assert!(parser.consume().is_ok());
    assert!(matches!(parser.peek(), Some((Token::Eof, _))));
    // The end-of-file token is refused and stays.
    assert!(matches!(parser.consume(), Err(ParserError::UnexpectedToken { token: Token::Eof, .. })));
    assert!(matches!(parser.peek(), Some((Token::Eof, _))));
}

#[test]
fn type_names_for_casts() {
    let mut parser = Parser::new("f.pt".to_string(), toks(vec![Token::Usize, id("Point")]));
    assert_eq!(parser.parse_type().unwrap().0, Type::Primitive(PrimitiveType::Usize));
    assert_eq!(parser.parse_type_as_string().unwrap(), "usize");
    assert_eq!(parser.parse_type().unwrap().0, Type::Custom("Point".to_string()));
    assert_eq!(parser.parse_type_as_string().unwrap(), "Point");
}
