use petal::front::display::{Paint, Piece};
use petal::front::nodes::expr::Expr;
use petal::front::parser::Parser;
use petal::front::token::{Position, Token};

fn at(line: usize, index: usize) -> Position {
    Position { line, index }
}

fn text(pieces: &[Piece]) -> String {
    pieces.iter().map(|p| p.text.clone()).collect::<Vec<String>>().join("")
}

#[test]
fn the_dump_of_a_small_function() {
    // fn main() -> i32 { ret 7; }
    let tokens = vec![
        (Token::Fn, at(1, 1)),
        (Token::Identifier("main".to_string()), at(1, 4)),
        (Token::LPar, at(1, 9)),
        (Token::RPar, at(1, 10)),
        (Token::Arrow, at(1, 11)),
        (Token::I32, at(1, 14)),
        (Token::LCurl, at(1, 19)),
        (Token::Ret, at(1, 20)),
        (Token::NumberLiteral("7".to_string()), at(1, 24)),
        (Token::Semicolon, at(1, 26)),
        (Token::RCurl, at(1, 28)),
        (Token::Eof, at(2, 1)),
    ];
    let mut parser = Parser::new("main.pt".to_string(), tokens);
    let (ast, _) = parser.parse();
    let pieces = ast.display(0);
    assert_eq!(
        text(&pieces),
        "Abstract Syntax Tree\n\n\
         1:4        |└───[ FnDef: `main`\n\
         1:14       |    └───[ FnRetType: Primitive(I32)\n\
         1:28       |    └───[ Body\n\
         1:20       |        └───[ Return:\n\
         1:24       |            └───[ `7`\n"
    );
    // Labels carry their colors.
    assert!(pieces.iter().any(|p| p.text == "FnDef" && p.paint == Paint::Yellow));
    assert!(pieces.iter().any(|p| p.text == "Body" && p.paint == Paint::Blue));
    assert!(pieces.iter().any(|p| p.text == "Return" && p.paint == Paint::Red));
}

#[test]
fn strings_lose_their_line_breaks() {
    let e = Expr::String(("a\nb\rc".to_string(), at(1, 1)));
    assert_eq!(text(&e.display(2)), "  └───[ \"abc\"\n");
}

#[test]
fn booleans_are_shown_in_color() {
    let e = Expr::Boolean(("true".to_string(), at(1, 1)));
    let pieces = e.display(0);
    assert_eq!(text(&pieces), "└───[ true\n");
    assert_eq!(pieces[1].paint, Paint::Magenta);
}

#[test]
fn the_dump_of_statements() {
    // fn f(a: i32) -> i32 { let x: i32 = a; g(x); else { } }
    let tokens = vec![
        (Token::Fn, at(1, 1)),
        (Token::Identifier("f".to_string()), at(1, 4)),
        (Token::LPar, at(1, 5)),
        (Token::Identifier("a".to_string()), at(1, 6)),
        (Token::Colon, at(1, 7)),
        (Token::I32, at(1, 9)),
        (Token::RPar, at(1, 12)),
        (Token::Arrow, at(1, 14)),
        (Token::I32, at(1, 17)),
        (Token::LCurl, at(1, 21)),
        (Token::Let, at(2, 5)),
        (Token::Identifier("x".to_string()), at(2, 9)),
        (Token::Colon, at(2, 10)),
        (Token::I32, at(2, 12)),
        (Token::Equal, at(2, 16)),
        (Token::Identifier("a".to_string()), at(2, 18)),
        (Token::Semicolon, at(2, 20)),
        (Token::Identifier("g".to_string()), at(3, 5)),
        (Token::LPar, at(3, 7)),
        (Token::Identifier("x".to_string()), at(3, 8)),
        (Token::RPar, at(3, 10)),
        (Token::Semicolon, at(3, 11)),
        (Token::Else, at(4, 5)),
        (Token::LCurl, at(4, 11)),
        (Token::RCurl, at(4, 13)),
        (Token::RCurl, at(5, 2)),
        (Token::Eof, at(6, 1)),
    ];
    let mut parser = Parser::new("f.pt".to_string(), tokens);
    let (ast, errors) = parser.parse();
    assert!(errors.is_empty());
    assert!(ast.displayable(0));
    assert_eq!(
        text(&ast.display(0)),
        "Abstract Syntax Tree\n\n\
         1:4        |└───[ FnDef: `f`\n\
         1:6        |    └───[ Parameter: `a` : Primitive(I32)\n\
         1:17       |    └───[ FnRetType: Primitive(I32)\n\
         5:2        |    └───[ Body\n\
         2:9        |        └───[ DeclAssign\n\
         2:9        |            └───[ VarDecl: `x` : Primitive(I32)\n\
         2:18       |            └───[ Assign: `x`\n\
         2:18       |                └───[ Id: `a`\n\
         3:7        |        └───[ ExprStat\n\
         \x20           └───[ FnCall: `g`\n\
         3:8        |                       └───[ Argument:\n\
         \x20                   └───[ Id: `x`\n\
         4:5        |        └───[ Else\n"
    );
}

#[test]
fn a_place_longer_than_ten_characters_cannot_be_shown() {
    let tokens = vec![
        (Token::Fn, at(123456, 12345)),
        (Token::Identifier("f".to_string()), at(123456, 12346)),
        (Token::LPar, at(1, 5)),
        (Token::RPar, at(1, 6)),
        (Token::Arrow, at(1, 7)),
        (Token::I32, at(1, 8)),
        (Token::LCurl, at(1, 9)),
        (Token::RCurl, at(1, 10)),
        (Token::Eof, at(2, 1)),
    ];
    let mut parser = Parser::new("f.pt".to_string(), tokens);
    let (ast, _) = parser.parse();
    assert_eq!(ast.children.len(), 1);
    assert!(!ast.displayable(0));
}
