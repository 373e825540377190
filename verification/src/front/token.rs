//! Tokens produced by the lexer and read by the parser, and source positions.
use vstd::prelude::*;

use crate::text::{char_debug, char_debug_text, str_debug, str_debug_text};

verus! {

/// A lexical token. Literals keep their text; keywords, operators and
/// punctuation carry nothing.
#[derive(Debug, PartialEq)]
pub enum Token {
    Unknown(char),
    Eof,

    Identifier(String),

    Fn,
    Ret,
    Struct,
    Pub,
    Enum,
    Impl,

    If,
    Else,
    For,
    While,
    Loop,
    Break,
    Continue,
    Let,
    As,

    NumberLiteral(String),
    CharacterLiteral(String),
    StringLiteral(String),
    BooleanLiteral(String),

    Plus,
    Minus,
    Asterisk,
    Fslash,
    Percent,
    Ampersand,
    Pipe,

    And,
    Or,
    Not,
    Compare,

    Equal,
    Walrus,

    LPar,
    RPar,
    LCurl,
    RCurl,

    Arrow,

    I32,
    I64,
    U32,
    U64,
    Usize,
    F32,
    F64,
    Char,
    Str,
    Bool,

    Comma,
    Semicolon,
    Colon,
}

/// The mathematical value of a [`Token`]: the same variants, with the text of
/// literals and identifiers as character sequences.
pub enum SpecToken {
    Unknown(char),
    Identifier(Seq<char>),
    NumberLiteral(Seq<char>),
    CharacterLiteral(Seq<char>),
    StringLiteral(Seq<char>),
    BooleanLiteral(Seq<char>),
    Eof,
    Fn,
    Ret,
    Struct,
    Pub,
    Enum,
    Impl,
    If,
    Else,
    For,
    While,
    Loop,
    Break,
    Continue,
    Let,
    As,
    Plus,
    Minus,
    Asterisk,
    Fslash,
    Percent,
    Ampersand,
    Pipe,
    And,
    Or,
    Not,
    Compare,
    Equal,
    Walrus,
    LPar,
    RPar,
    LCurl,
    RCurl,
    Arrow,
    I32,
    I64,
    U32,
    U64,
    Usize,
    F32,
    F64,
    Char,
    Str,
    Bool,
    Comma,
    Semicolon,
    Colon,
}

impl View for Token {
    type V = SpecToken;

    open spec fn view(&self) -> SpecToken {
        match self {
            Token::Unknown(c) => SpecToken::Unknown(*c),
            Token::Identifier(s) => SpecToken::Identifier(s@),
            Token::NumberLiteral(s) => SpecToken::NumberLiteral(s@),
            Token::CharacterLiteral(s) => SpecToken::CharacterLiteral(s@),
            Token::StringLiteral(s) => SpecToken::StringLiteral(s@),
            Token::BooleanLiteral(s) => SpecToken::BooleanLiteral(s@),
            Token::Eof => SpecToken::Eof,
            Token::Fn => SpecToken::Fn,
            Token::Ret => SpecToken::Ret,
            Token::Struct => SpecToken::Struct,
            Token::Pub => SpecToken::Pub,
            Token::Enum => SpecToken::Enum,
            Token::Impl => SpecToken::Impl,
            Token::If => SpecToken::If,
            Token::Else => SpecToken::Else,
            Token::For => SpecToken::For,
            Token::While => SpecToken::While,
            Token::Loop => SpecToken::Loop,
            Token::Break => SpecToken::Break,
            Token::Continue => SpecToken::Continue,
            Token::Let => SpecToken::Let,
            Token::As => SpecToken::As,
            Token::Plus => SpecToken::Plus,
            Token::Minus => SpecToken::Minus,
            Token::Asterisk => SpecToken::Asterisk,
            Token::Fslash => SpecToken::Fslash,
            Token::Percent => SpecToken::Percent,
            Token::Ampersand => SpecToken::Ampersand,
            Token::Pipe => SpecToken::Pipe,
            Token::And => SpecToken::And,
            Token::Or => SpecToken::Or,
            Token::Not => SpecToken::Not,
            Token::Compare => SpecToken::Compare,
            Token::Equal => SpecToken::Equal,
            Token::Walrus => SpecToken::Walrus,
            Token::LPar => SpecToken::LPar,
            Token::RPar => SpecToken::RPar,
            Token::LCurl => SpecToken::LCurl,
            Token::RCurl => SpecToken::RCurl,
            Token::Arrow => SpecToken::Arrow,
            Token::I32 => SpecToken::I32,
            Token::I64 => SpecToken::I64,
            Token::U32 => SpecToken::U32,
            Token::U64 => SpecToken::U64,
            Token::Usize => SpecToken::Usize,
            Token::F32 => SpecToken::F32,
            Token::F64 => SpecToken::F64,
            Token::Char => SpecToken::Char,
            Token::Str => SpecToken::Str,
            Token::Bool => SpecToken::Bool,
            Token::Comma => SpecToken::Comma,
            Token::Semicolon => SpecToken::Semicolon,
            Token::Colon => SpecToken::Colon,
        }
    }
}

impl Clone for Token {
    fn clone(&self) -> (r: Self)
        ensures
            r@ == self@,
    {
        match self {
            Token::Unknown(c) => Token::Unknown(*c),
            Token::Identifier(s) => Token::Identifier(s.clone()),
            Token::NumberLiteral(s) => Token::NumberLiteral(s.clone()),
            Token::CharacterLiteral(s) => Token::CharacterLiteral(s.clone()),
            Token::StringLiteral(s) => Token::StringLiteral(s.clone()),
            Token::BooleanLiteral(s) => Token::BooleanLiteral(s.clone()),
            Token::Eof => Token::Eof,
            Token::Fn => Token::Fn,
            Token::Ret => Token::Ret,
            Token::Struct => Token::Struct,
            Token::Pub => Token::Pub,
            Token::Enum => Token::Enum,
            Token::Impl => Token::Impl,
            Token::If => Token::If,
            Token::Else => Token::Else,
            Token::For => Token::For,
            Token::While => Token::While,
            Token::Loop => Token::Loop,
            Token::Break => Token::Break,
            Token::Continue => Token::Continue,
            Token::Let => Token::Let,
            Token::As => Token::As,
            Token::Plus => Token::Plus,
            Token::Minus => Token::Minus,
            Token::Asterisk => Token::Asterisk,
            Token::Fslash => Token::Fslash,
            Token::Percent => Token::Percent,
            Token::Ampersand => Token::Ampersand,
            Token::Pipe => Token::Pipe,
            Token::And => Token::And,
            Token::Or => Token::Or,
            Token::Not => Token::Not,
            Token::Compare => Token::Compare,
            Token::Equal => Token::Equal,
            Token::Walrus => Token::Walrus,
            Token::LPar => Token::LPar,
            Token::RPar => Token::RPar,
            Token::LCurl => Token::LCurl,
            Token::RCurl => Token::RCurl,
            Token::Arrow => Token::Arrow,
            Token::I32 => Token::I32,
            Token::I64 => Token::I64,
            Token::U32 => Token::U32,
            Token::U64 => Token::U64,
            Token::Usize => Token::Usize,
            Token::F32 => Token::F32,
            Token::F64 => Token::F64,
            Token::Char => Token::Char,
            Token::Str => Token::Str,
            Token::Bool => Token::Bool,
            Token::Comma => Token::Comma,
            Token::Semicolon => Token::Semicolon,
            Token::Colon => Token::Colon,
        }
    }
}

/// How `Debug` prints a token (`format!("{:?}", t)`): a keyword, operator or
/// punctuation by its variant's name; a literal or identifier by the variant's
/// name and its text as a quoted string (a character for an unknown token).
pub open spec fn token_debug(t: SpecToken) -> Seq<char> {
    match t {
        SpecToken::Unknown(c) => "Unknown("@ + char_debug(c) + ")"@,
        SpecToken::Eof => "Eof"@,
        SpecToken::Identifier(x) => "Identifier("@ + str_debug(x) + ")"@,
        SpecToken::Fn => "Fn"@,
        SpecToken::Ret => "Ret"@,
        SpecToken::Struct => "Struct"@,
        SpecToken::Pub => "Pub"@,
        SpecToken::Enum => "Enum"@,
        SpecToken::Impl => "Impl"@,
        SpecToken::If => "If"@,
        SpecToken::Else => "Else"@,
        SpecToken::For => "For"@,
        SpecToken::While => "While"@,
        SpecToken::Loop => "Loop"@,
        SpecToken::Break => "Break"@,
        SpecToken::Continue => "Continue"@,
        SpecToken::Let => "Let"@,
        SpecToken::As => "As"@,
        SpecToken::NumberLiteral(x) => "NumberLiteral("@ + str_debug(x) + ")"@,
        SpecToken::CharacterLiteral(x) => "CharacterLiteral("@ + str_debug(x) + ")"@,
        SpecToken::StringLiteral(x) => "StringLiteral("@ + str_debug(x) + ")"@,
        SpecToken::BooleanLiteral(x) => "BooleanLiteral("@ + str_debug(x) + ")"@,
        SpecToken::Plus => "Plus"@,
        SpecToken::Minus => "Minus"@,
        SpecToken::Asterisk => "Asterisk"@,
        SpecToken::Fslash => "Fslash"@,
        SpecToken::Percent => "Percent"@,
        SpecToken::Ampersand => "Ampersand"@,
        SpecToken::Pipe => "Pipe"@,
        SpecToken::And => "And"@,
        SpecToken::Or => "Or"@,
        SpecToken::Not => "Not"@,
        SpecToken::Compare => "Compare"@,
        SpecToken::Equal => "Equal"@,
        SpecToken::Walrus => "Walrus"@,
        SpecToken::LPar => "LPar"@,
        SpecToken::RPar => "RPar"@,
        SpecToken::LCurl => "LCurl"@,
        SpecToken::RCurl => "RCurl"@,
        SpecToken::Arrow => "Arrow"@,
        SpecToken::I32 => "I32"@,
        SpecToken::I64 => "I64"@,
        SpecToken::U32 => "U32"@,
        SpecToken::U64 => "U64"@,
        SpecToken::Usize => "Usize"@,
        SpecToken::F32 => "F32"@,
        SpecToken::F64 => "F64"@,
        SpecToken::Char => "Char"@,
        SpecToken::Str => "Str"@,
        SpecToken::Bool => "Bool"@,
        SpecToken::Comma => "Comma"@,
        SpecToken::Semicolon => "Semicolon"@,
        SpecToken::Colon => "Colon"@,
    }
}

/// Renders a token as `Debug` does.
pub fn token_debug_text(t: &Token) -> (s: String)
    ensures
        s@ == token_debug(t@),
{
    let (name, inner) = match t {
        Token::Unknown(c) => ("Unknown(", char_debug_text(*c)),
        Token::Eof => {
            return String::from_str("Eof");
        },
        Token::Identifier(x) => ("Identifier(", str_debug_text(x.as_str())),
        Token::Fn => {
            return String::from_str("Fn");
        },
        Token::Ret => {
            return String::from_str("Ret");
        },
        Token::Struct => {
            return String::from_str("Struct");
        },
        Token::Pub => {
            return String::from_str("Pub");
        },
        Token::Enum => {
            return String::from_str("Enum");
        },
        Token::Impl => {
            return String::from_str("Impl");
        },
        Token::If => {
            return String::from_str("If");
        },
        Token::Else => {
            return String::from_str("Else");
        },
        Token::For => {
            return String::from_str("For");
        },
        Token::While => {
            return String::from_str("While");
        },
        Token::Loop => {
            return String::from_str("Loop");
        },
        Token::Break => {
            return String::from_str("Break");
        },
        Token::Continue => {
            return String::from_str("Continue");
        },
        Token::Let => {
            return String::from_str("Let");
        },
        Token::As => {
            return String::from_str("As");
        },
        Token::NumberLiteral(x) => ("NumberLiteral(", str_debug_text(x.as_str())),
        Token::CharacterLiteral(x) => ("CharacterLiteral(", str_debug_text(x.as_str())),
        Token::StringLiteral(x) => ("StringLiteral(", str_debug_text(x.as_str())),
        Token::BooleanLiteral(x) => ("BooleanLiteral(", str_debug_text(x.as_str())),
        Token::Plus => {
            return String::from_str("Plus");
        },
        Token::Minus => {
            return String::from_str("Minus");
        },
        Token::Asterisk => {
            return String::from_str("Asterisk");
        },
        Token::Fslash => {
            return String::from_str("Fslash");
        },
        Token::Percent => {
            return String::from_str("Percent");
        },
        Token::Ampersand => {
            return String::from_str("Ampersand");
        },
        Token::Pipe => {
            return String::from_str("Pipe");
        },
        Token::And => {
            return String::from_str("And");
        },
        Token::Or => {
            return String::from_str("Or");
        },
        Token::Not => {
            return String::from_str("Not");
        },
        Token::Compare => {
            return String::from_str("Compare");
        },
        Token::Equal => {
            return String::from_str("Equal");
        },
        Token::Walrus => {
            return String::from_str("Walrus");
        },
        Token::LPar => {
            return String::from_str("LPar");
        },
        Token::RPar => {
            return String::from_str("RPar");
        },
        Token::LCurl => {
            return String::from_str("LCurl");
        },
        Token::RCurl => {
            return String::from_str("RCurl");
        },
        Token::Arrow => {
            return String::from_str("Arrow");
        },
        Token::I32 => {
            return String::from_str("I32");
        },
        Token::I64 => {
            return String::from_str("I64");
        },
        Token::U32 => {
            return String::from_str("U32");
        },
        Token::U64 => {
            return String::from_str("U64");
        },
        Token::Usize => {
            return String::from_str("Usize");
        },
        Token::F32 => {
            return String::from_str("F32");
        },
        Token::F64 => {
            return String::from_str("F64");
        },
        Token::Char => {
            return String::from_str("Char");
        },
        Token::Str => {
            return String::from_str("Str");
        },
        Token::Bool => {
            return String::from_str("Bool");
        },
        Token::Comma => {
            return String::from_str("Comma");
        },
        Token::Semicolon => {
            return String::from_str("Semicolon");
        },
        Token::Colon => {
            return String::from_str("Colon");
        },
    };
    let mut s = String::from_str(name);
    s.append(inner.as_str());
    s.append(")");
    s
}

/// A place in the source text: line and column, both counted from 1.
#[derive(Debug, Clone, Copy, PartialEq, Eq, Structural)]
pub struct Position {
    pub line: usize,
    pub index: usize,
}

impl Default for Position {
    fn default() -> (p: Self)
        ensures
            p.line == 0,
            p.index == 0,
    {
        Position { line: 0, index: 0 }
    }
}

} // verus!
