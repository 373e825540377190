use petal::front::ast::Ast;
use petal::front::nodes::expr::Expr;
use petal::front::nodes::function::Return;
use petal::front::nodes::statement::Statement;
use petal::front::nodes::types::{FunctionType, PrimitiveType, Type};
use petal::front::parser::Parser;
use petal::front::semantic::{SemanticAnalyzer, SemanticContext, Symbol};
use petal::front::token::{Position, Token};

fn at(line: usize, index: usize) -> Position {
    Position { line, index }
}

fn toks(ts: Vec<Token>) -> Vec<(Token, Position)> {
    let mut v: Vec<(Token, Position)> = Vec::new();
    for (k, t) in ts.into_iter().enumerate() {
        v.push((t, at(1, k + 1)));
    }
    v.push((Token::Eof, at(2, 1)));
    v
}

fn id(s: &str) -> Token {
    Token::Identifier(s.to_string())
}

fn num(s: &str) -> Token {
    Token::NumberLiteral(s.to_string())
}

fn parse(ts: Vec<Token>) -> Box<Ast> {
    let mut parser = Parser::new("t.pt".to_string(), toks(ts));
    let (ast, errors) = parser.parse();
    assert!(errors.is_empty());
    ast
}

fn analyze(ts: Vec<Token>) -> Result<Box<Ast>, String> {
    let ast = parse(ts);
    let mut ctx = SemanticContext::new();
    SemanticAnalyzer::new(ast).analyze(&mut ctx)
}

/// `fn name() -> ret { body }`
fn function(name: &str, ret: Token, body: Vec<Token>) -> Vec<Token> {
    let mut v = vec![Token::Fn, id(name), Token::LPar, Token::RPar, Token::Arrow, ret, Token::LCurl];
    v.extend(body);
    v.push(Token::RCurl);
    v
}

#[test]
fn a_well_typed_function_is_accepted_and_handed_back() {
    let ast = analyze(function("main", Token::I32, vec![Token::Ret, num("0"), Token::Semicolon])).unwrap();
    assert_eq!(ast.children.len(), 1);
    assert!(matches!(&ast.children[0].0, Statement::Function(f) if f.id.0 == "main"));
}

#[test]
fn a_variable_cannot_be_declared_twice() {
    let body = vec![
        Token::Let, id("x"), Token::Colon, Token::I32, Token::Semicolon,
        Token::Let, id("x"), Token::Colon, Token::I32, Token::Semicolon,
    ];
    assert_eq!(analyze(function("f", Token::I32, body)).unwrap_err(), "Variable 'x' already declared");
}

#[test]
fn assigning_an_undeclared_variable_is_refused() {
    let body = vec![id("y"), Token::Equal, num("1"), Token::Semicolon];
    assert_eq!(analyze(function("f", Token::I32, body)).unwrap_err(), "Assignment to undeclared variable 'y'");
}

#[test]
fn declared_variables_can_be_assigned_and_returned() {
    let body = vec![
        Token::Let, id("x"), Token::Colon, Token::I32, Token::Equal, num("1"), Token::Semicolon,
        id("x"), Token::Equal, id("x"), Token::Plus, num("2"), Token::Semicolon,
        Token::Ret, id("x"), Token::Semicolon,
    ];
    assert!(analyze(function("f", Token::I32, body)).is_ok());
}

#[test]
fn a_return_value_of_another_type_is_refused() {
    let body = vec![Token::Ret, num("1"), Token::Semicolon];
    assert_eq!(
        analyze(function("f", Token::Char, body)).unwrap_err(),
        "Type mismatch in return statement: expected Primitive(Char), found Primitive(I32)"
    );
}

#[test]
fn a_function_cannot_be_defined_twice() {
    let mut ts = function("f", Token::I32, vec![Token::Ret, num("0"), Token::Semicolon]);
    ts.extend(function("f", Token::I32, vec![Token::Ret, num("0"), Token::Semicolon]));
    assert_eq!(analyze(ts).unwrap_err(), "Function 'f' already declared.");
}

#[test]
fn a_parameter_cannot_be_declared_twice() {
    let ts = vec![
        Token::Fn, id("f"), Token::LPar, id("a"), Token::Colon, Token::I32, Token::Comma, id("a"),
        Token::Colon, Token::I32, Token::RPar, Token::Arrow, Token::I32, Token::LCurl, Token::RCurl,
    ];
    assert_eq!(analyze(ts).unwrap_err(), "Parameter `a` is already declared.");
}

#[test]
fn parameters_are_visible_in_the_body() {
    let ts = vec![
        Token::Fn, id("f"), Token::LPar, id("a"), Token::Colon, Token::I32, Token::RPar, Token::Arrow,
        Token::I32, Token::LCurl, Token::Ret, id("a"), Token::Semicolon, Token::RCurl,
    ];
    assert!(analyze(ts).is_ok());
}

#[test]
fn operands_of_different_types_are_refused() {
    let body = vec![Token::Ret, num("1"), Token::Plus, Token::CharacterLiteral("c".to_string()), Token::Semicolon];
    // The return value's type is that of its left operand, so the return is accepted ...
    assert!(analyze(function("f", Token::I32, body)).is_ok());
    // ... but the expression standing as a statement is checked.
    let body = vec![num("1"), Token::Plus, Token::CharacterLiteral("c".to_string()), Token::Semicolon];
    assert_eq!(analyze(function("f", Token::I32, body)).unwrap_err(), "Type mismatch in binary expression.");
}

#[test]
fn an_undeclared_name_in_an_expression_is_refused() {
    let body = vec![id("z"), Token::Plus, num("1"), Token::Semicolon];
    assert_eq!(analyze(function("f", Token::I32, body)).unwrap_err(), "Identifier not found in hashmap?!");
}

#[test]
fn a_return_outside_a_function_is_refused() {
    let mut ast = Box::new(Ast::new());
    ast.children.push((
        Statement::Return(Return { value: (Expr::Number(("1".to_string(), at(1, 5))), at(1, 5)) }),
        at(1, 1),
    ));
    let mut ctx = SemanticContext::new();
    assert_eq!(
        SemanticAnalyzer::new(ast).analyze(&mut ctx).unwrap_err(),
        "Return statement found outside of a function."
    );
}

#[test]
fn functions_are_declared_with_their_types() {
    let ts = vec![
        Token::Fn, id("f"), Token::LPar, id("a"), Token::Colon, Token::U32, Token::RPar, Token::Arrow,
        Token::Str, Token::LCurl, Token::RCurl,
    ];
    let ast = parse(ts);
    let mut ctx = SemanticContext::new();
    assert!(ast.analyze(&mut ctx).is_ok());
    match ctx.lookup("f") {
        Some((Symbol::Function(FunctionType { parameters, return_type }), pos)) => {
            assert_eq!(parameters, &vec![Type::Primitive(PrimitiveType::U32)]);
            assert_eq!(**return_type, Type::Primitive(PrimitiveType::Str));
            assert_eq!(*pos, at(1, 2));
        },
        other => panic!("unexpected {:?}", other),
    }
    // The parameter's scope is closed again.
    assert!(ctx.lookup("a").is_none());
    assert_eq!(ctx.current_scope.len(), 1);
    assert!(ctx.current_function_return.is_none());
}

#[test]
fn lookup_finds_a_symbol_only_while_its_scope_is_open() {
    let mut ctx = SemanticContext::new();
    ctx.enter_scope();
    ctx.add_symbol("v", (Symbol::Variable(Type::Primitive(PrimitiveType::I64)), at(3, 4)));
    match ctx.lookup("v") {
        Some((Symbol::Variable(t), pos)) => {
            assert_eq!(*t, Type::Primitive(PrimitiveType::I64));
            assert_eq!(*pos, at(3, 4));
        },
        other => panic!("unexpected {:?}", other),
    }
    assert!(ctx.lookup("w").is_none());
    ctx.exit_scope();
    assert!(ctx.lookup("v").is_none());
    assert_eq!(ctx.current_scope.len(), 1);
}

#[test]
fn a_name_declared_again_in_an_inner_scope_shadows_the_outer_one() {
    let mut ctx = SemanticContext::new();
    ctx.add_symbol("v", (Symbol::Variable(Type::Primitive(PrimitiveType::I32)), at(1, 1)));
    ctx.enter_scope();
    ctx.add_symbol("v", (Symbol::Variable(Type::Primitive(PrimitiveType::Char)), at(2, 1)));
    assert!(matches!(ctx.lookup("v"), Some((Symbol::Variable(Type::Primitive(PrimitiveType::Char)), _))));
    ctx.exit_scope();
    // The table keeps the last declaration of a name.
    assert!(matches!(ctx.lookup("v"), Some((Symbol::Variable(Type::Primitive(PrimitiveType::Char)), _))));
}
