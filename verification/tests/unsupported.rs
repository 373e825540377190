use petal::front::parser::Parser;
use petal::front::semantic::{SemanticAnalyzer, SemanticContext};
use petal::front::token::{Position, Token};

fn at(line: usize, index: usize) -> Position {
    Position { line, index }
}

fn toks(ts: Vec<Token>) -> Vec<(Token, Position)> {
    let mut v: Vec<(Token, Position)> = Vec::new();
    for (k, t) in ts.into_iter().enumerate() {
        v.push((t, at(1, k + 1)));
    }
    v.push((Token::Eof, at(2, 1)));
    v
}

fn id(s: &str) -> Token {
    Token::Identifier(s.to_string())
}

fn num(s: &str) -> Token {
    Token::NumberLiteral(s.to_string())
}

fn function(ret: Token, body: Vec<Token>) -> Vec<Token> {
    let mut v = vec![Token::Fn, id("f"), Token::LPar, Token::RPar, Token::Arrow, ret, Token::LCurl];
    v.extend(body);
    v.push(Token::RCurl);
    v
}

#[test]
fn a_definition_that_is_not_a_function_is_not_supported() {
    let mut parser = Parser::new("t.pt".to_string(), toks(vec![Token::Struct, id("S")]));
    let (ast, errors) = parser.parse();
    assert!(parser.unsupported());
    assert!(ast.children.is_empty());
    assert!(errors.is_empty());
}

#[test]
fn for_loops_are_not_supported() {
    let mut parser = Parser::new("t.pt".to_string(), toks(function(Token::I32, vec![Token::For, id("i")])));
    let _ = parser.parse();
    assert!(parser.unsupported());
}

#[test]
fn only_some_return_types_are_supported() {
    let mut parser = Parser::new("t.pt".to_string(), toks(function(Token::U64, vec![])));
    let _ = parser.parse();
    assert!(parser.unsupported());
    let mut parser = Parser::new("t.pt".to_string(), toks(function(Token::Str, vec![])));
    let (ast, errors) = parser.parse();
    assert!(!parser.unsupported());
    assert!(errors.is_empty());
    assert_eq!(ast.children.len(), 1);
}

#[test]
fn a_cast_needs_a_type_name() {
    let body = vec![Token::Ret, num("1"), Token::As, Token::Semicolon];
    let mut parser = Parser::new("t.pt".to_string(), toks(function(Token::I32, body)));
    let _ = parser.parse();
    assert!(parser.unsupported());
}

fn analyze(ts: Vec<Token>) -> (Result<(), String>, bool) {
    let mut parser = Parser::new("t.pt".to_string(), toks(ts));
    let (ast, errors) = parser.parse();
    assert!(errors.is_empty() && !parser.unsupported());
    let mut ctx = SemanticContext::new();
    let r = SemanticAnalyzer::new(ast).analyze(&mut ctx).map(|_| ());
    (r, ctx.halted)
}

#[test]
fn break_and_continue_are_not_analyzed_yet() {
    let body = vec![Token::Loop, Token::LCurl, Token::Break, Token::Semicolon, Token::RCurl];
    // A loop is accepted as it stands, without looking inside.
    let (r, halted) = analyze(function(Token::I32, body));
    assert!(r.is_ok() && !halted);
    let (r, halted) = analyze(function(Token::I32, vec![Token::Continue, Token::Semicolon]));
    assert!(r.is_err() && halted);
}

#[test]
fn the_type_of_an_undeclared_name_cannot_be_computed() {
    let (r, halted) = analyze(function(Token::I32, vec![Token::Ret, id("y"), Token::Semicolon]));
    assert!(r.is_err() && halted);
    // A call of a variable has no type either.
    let body = vec![
        Token::Let, id("v"), Token::Colon, Token::I32, Token::Semicolon,
        Token::Ret, id("v"), Token::LPar, Token::RPar, Token::Semicolon,
    ];
    let (r, halted) = analyze(function(Token::I32, body));
    assert!(r.is_err() && halted);
}
