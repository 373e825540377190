use petal::front::lexer::Lexer;
use petal::front::token::{Position, Token};

fn at(line: usize, index: usize) -> Position {
    Position { line, index }
}

fn lex(src: &str) -> Vec<(Token, Position)> {
    Lexer::new(src).lex()
}

#[test]
fn lexes_a_small_function_with_positions() {
    let tokens = lex("fn main() -> i32 { ret 0; }");
    assert_eq!(
        tokens,
        vec![
            (Token::Fn, at(1, 1)),
            (Token::Identifier("main".to_string()), at(1, 4)),
            (Token::LPar, at(1, 9)),
            (Token::RPar, at(1, 10)),
            (Token::Arrow, at(1, 11)),
            (Token::I32, at(1, 14)),
            (Token::LCurl, at(1, 19)),
            (Token::Ret, at(1, 20)),
            (Token::NumberLiteral("0".to_string()), at(1, 24)),
            (Token::Semicolon, at(1, 26)),
            (Token::RCurl, at(1, 28)),
            (Token::Eof, at(2, 1)),
        ]
    );
}

#[test]
fn lines_and_columns_restart_after_a_newline() {
    let tokens = lex("x\n  y");
    assert_eq!(
        tokens,
        vec![
            (Token::Identifier("x".to_string()), at(1, 1)),
            (Token::Identifier("y".to_string()), at(2, 3)),
            (Token::Eof, at(3, 1)),
        ]
    );
}

#[test]
fn comments_are_skipped_and_nest() {
    let tokens = lex("a // line\n/* x /* y */ z */ b");
    assert_eq!(tokens.len(), 3);
    assert_eq!(tokens[0].0, Token::Identifier("a".to_string()));
    assert_eq!(tokens[1].0, Token::Identifier("b".to_string()));
    assert_eq!(tokens[1].1, at(2, 19));
    assert_eq!(tokens[2].0, Token::Eof);
}

#[test]
fn two_character_operators() {
    let tokens = lex("a := b - c -> && & |& | :");
    let kinds: Vec<Token> = tokens.into_iter().map(|(t, _)| t).collect();
    assert_eq!(
        kinds,
        vec![
            Token::Identifier("a".to_string()),
            Token::Walrus,
            Token::Identifier("b".to_string()),
            Token::Minus,
            Token::Identifier("c".to_string()),
            Token::Arrow,
            Token::And,
            Token::Ampersand,
            Token::Or,
            Token::Pipe,
            Token::Colon,
            Token::Eof,
        ]
    );
}

#[test]
fn literals_keep_their_text() {
    let tokens = lex("\"a\\nb\" 'c' '\\t' 3.14 1..2");
    assert_eq!(tokens[0], (Token::StringLiteral("a\nb".to_string()), at(1, 7)));
    assert_eq!(tokens[1], (Token::CharacterLiteral("c".to_string()), at(1, 11)));
    assert_eq!(tokens[2], (Token::CharacterLiteral("\t".to_string()), at(1, 16)));
    assert_eq!(tokens[3], (Token::NumberLiteral("3.14".to_string()), at(1, 17)));
    assert_eq!(tokens[4], (Token::NumberLiteral("1".to_string()), at(1, 22)));
}

#[test]
fn keywords_and_unknown_characters() {
    let tokens = lex("while usize char @");
    assert_eq!(tokens[0].0, Token::While);
    assert_eq!(tokens[1].0, Token::Usize);
    assert_eq!(tokens[2].0, Token::Char);
    assert_eq!(tokens[3], (Token::Unknown('@'), at(1, 19)));
}

#[test]
fn the_only_end_of_file_token_is_last() {
    let tokens = lex("fn f() { a = 1; }");
    let eofs = tokens.iter().filter(|(t, _)| *t == Token::Eof).count();
    assert_eq!(eofs, 1);
    assert_eq!(tokens.last().unwrap().0, Token::Eof);
}

fn drain(src: &str) -> Lexer {
    let mut lexer = Lexer::new(src);
    while lexer.next_token().is_some() {}
    lexer
}

#[test]
fn an_unclosed_block_comment_is_reported() {
    assert!(drain("x /* never closed").has_unclosed_comment());
    assert!(drain("x /* a /* b */").has_unclosed_comment());
}

#[test]
fn closed_comments_are_not_reported() {
    assert!(!drain("x /* a /* b */ c */ y // line").has_unclosed_comment());
    assert!(!drain("x / y * z").has_unclosed_comment());
}
