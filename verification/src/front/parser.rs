//! A recursive-descent parser from tokens to the abstract syntax tree.
//!
//! Each parsing method has a mathematical counterpart over the tokens' views:
//! from a token index it gives what is parsed and the index after it, the
//! error and the index where it was found, or `Stuck` at a form that is not
//! implemented yet. There the parser gives up: it marks itself (see
//! `Parser::unsupported`) and returns an error, so that its caller can stop.
use vstd::prelude::*;

use crate::front::ast::Ast;
use crate::front::lexer::{keyword, tokens_view};
use crate::front::nodes::cast::{Cast, SpecCast};
use crate::front::nodes::expr::{args_view, BinaryExpr, Expr, SpecBinaryExpr, SpecExpr};
use crate::front::nodes::operator::Operator;
use crate::front::nodes::body::Body;
use crate::front::nodes::branching::{ElseStatement, IfStatement};
use crate::front::nodes::expr::ExpressionStatement;
use crate::front::nodes::function::{FunctionDefinition, FunctionReturnType, Return};
use crate::front::nodes::loops::{Break, Continue, Loop, WhileLoop};
use crate::front::nodes::parameter::{params_view, Parameter, SpecParam};
use crate::front::nodes::statement::{stmts_view, SpecFunction, SpecStmt, Statement};
use crate::front::nodes::variables::{Assignment, DeclarationAssignment, VariableDeclaration, WalrusDeclaration};
use crate::front::nodes::types::{basic_type, PrimitiveType, SpecType, Type};
use crate::front::nodes::variables::{SpecAssign, SpecVarDecl};
use crate::front::token::{token_debug, token_debug_text, Position, SpecToken, Token};
use crate::text::{digits, nat_string, same_text};

verus! {

// ---------------------------------------------------------------------------
// Errors
// ---------------------------------------------------------------------------

/// Why parsing stopped, with the file and the place.
#[derive(Debug)]
pub enum ParserError {
    UnexpectedToken { token: Token, file: String, position: Position },
    MissingToken { expected: String, file: String, position: Position },
    SyntaxError { message: String, file: String, position: Position },
    InvalidParameter { message: String, file: String, position: Position },
    GenericError(String),
}

/// The mathematical value of a [`ParserError`].
pub enum SpecParserError {
    UnexpectedToken { token: SpecToken, file: Seq<char>, position: Position },
    MissingToken { expected: Seq<char>, file: Seq<char>, position: Position },
    SyntaxError { message: Seq<char>, file: Seq<char>, position: Position },
    InvalidParameter { message: Seq<char>, file: Seq<char>, position: Position },
    GenericError(Seq<char>),
}

impl View for ParserError {
    type V = SpecParserError;

    open spec fn view(&self) -> SpecParserError {
        match self {
            ParserError::UnexpectedToken { token, file, position } => SpecParserError::UnexpectedToken {
                token: token@,
                file: file@,
                position: *position,
            },
            ParserError::MissingToken { expected, file, position } => SpecParserError::MissingToken {
                expected: expected@,
                file: file@,
                position: *position,
            },
            ParserError::SyntaxError { message, file, position } => SpecParserError::SyntaxError {
                message: message@,
                file: file@,
                position: *position,
            },
            ParserError::InvalidParameter { message, file, position } => SpecParserError::InvalidParameter {
                message: message@,
                file: file@,
                position: *position,
            },
            ParserError::GenericError(m) => SpecParserError::GenericError(m@),
        }
    }
}

/// The text of an error, as the program reports it.
pub open spec fn error_message(e: SpecParserError) -> Seq<char> {
    match e {
        SpecParserError::UnexpectedToken { token, file, position } => "Unexpected token '"@ + token_debug(token)
            + "' in file: "@ + file + " on line "@ + digits(position.line as nat) + " at position "@ + digits(
            position.index as nat,
        ),
        SpecParserError::MissingToken { expected, file, position } => "Missing token '"@ + expected
            + "', expected in file: "@ + file + " on line "@ + digits(position.line as nat) + " at position "@
            + digits(position.index as nat),
        SpecParserError::SyntaxError { message, file, position } => "Syntax error in file "@ + file + " on line "@
            + digits(position.line as nat) + " at position "@ + digits(position.line as nat) + ": "@ + message,
        SpecParserError::InvalidParameter { message, file, position } => "Invalid parameter: "@ + message
            + " in file "@ + file + " on line "@ + digits(position.line as nat) + " at position "@ + digits(
            position.index as nat,
        ),
        SpecParserError::GenericError(message) => "Error: "@ + message,
    }
}

fn push_place(m: &mut String, before_line: &str, line: usize, before_index: &str, index: usize)
    ensures
        final(m)@ == old(m)@ + before_line@ + digits(line as nat) + before_index@ + digits(index as nat),
{
    m.append(before_line);
    let l = nat_string(line as u64);
    m.append(l.as_str());
    m.append(before_index);
    let i = nat_string(index as u64);
    m.append(i.as_str());
}

impl ParserError {
    /// The text of the error (see `error_message`). Note that a syntax error
    /// gives its line twice: in place of the column too.
    pub fn message(&self) -> (m: String)
        ensures
            m@ == error_message(self@),
    {
        match self {
            ParserError::UnexpectedToken { token, file, position } => {
                let mut m = String::from_str("Unexpected token '");
                let t = token_debug_text(token);
                m.append(t.as_str());
                m.append("' in file: ");
                m.append(file.as_str());
                push_place(&mut m, " on line ", position.line, " at position ", position.index);
                m
            },
            ParserError::MissingToken { expected, file, position } => {
                let mut m = String::from_str("Missing token '");
                m.append(expected.as_str());
                m.append("', expected in file: ");
                m.append(file.as_str());
                push_place(&mut m, " on line ", position.line, " at position ", position.index);
                m
            },
            ParserError::SyntaxError { message, file, position } => {
                let mut m = String::from_str("Syntax error in file ");
                m.append(file.as_str());
                push_place(&mut m, " on line ", position.line, " at position ", position.line);
                m.append(": ");
                m.append(message.as_str());
                m
            },
            ParserError::InvalidParameter { message, file, position } => {
                let mut m = String::from_str("Invalid parameter: ");
                m.append(message.as_str());
                m.append(" in file ");
                m.append(file.as_str());
                push_place(&mut m, " on line ", position.line, " at position ", position.index);
                m
            },
            ParserError::GenericError(message) => {
                let mut m = String::from_str("Error: ");
                m.append(message.as_str());
                m
            },
        }
    }
}

// ---------------------------------------------------------------------------
// The mathematical parser
// ---------------------------------------------------------------------------

/// What the parser reads: the file name it reports and the tokens.
pub struct SpecParser {
    pub file: Seq<char>,
    pub tokens: Seq<(SpecToken, Position)>,
}

/// The outcome of a parsing step started at some token index.
pub enum Parsed<T> {
    /// What was parsed, and the index of the next token.
    Done(T, int),
    /// The error, and the index the parser stopped at.
    Failed(SpecParserError, int),
    /// The parser meets a form that it does not implement yet.
    Stuck,
}

pub open spec fn end_of_tokens() -> Seq<char> {
    "Reached end of token list for unknown reason, it should have stopped at `Token::Eof`"@
}

/// The token at index `p`, if there is one.
pub open spec fn peek_spec(pp: SpecParser, p: int) -> Option<(SpecToken, Position)> {
    if 0 <= p < pp.tokens.len() {
        Some(pp.tokens[p])
    } else {
        None
    }
}

/// Taking the token at index `p`: refused at the end-of-file token, which
/// stays, and past the last token.
pub open spec fn consume_spec(pp: SpecParser, p: int) -> Parsed<(SpecToken, Position)> {
    if 0 <= p < pp.tokens.len() {
        if pp.tokens[p].0 is Eof {
            Parsed::Failed(SpecParserError::UnexpectedToken { token: SpecToken::Eof, file: pp.file, position: pp.tokens[p].1 }, p)
        } else {
            Parsed::Done(pp.tokens[p], p + 1)
        }
    } else {
        Parsed::Failed(SpecParserError::GenericError(end_of_tokens()), p)
    }
}

/// The name of a type token, for the types that a cast names.
pub open spec fn type_name_of(t: SpecToken) -> Option<Seq<char>> {
    match t {
        SpecToken::Identifier(id) => Some(id),
        SpecToken::Bool => Some("bool"@),
        SpecToken::I32 => Some("i32"@),
        SpecToken::I64 => Some("i64"@),
        SpecToken::U32 => Some("u32"@),
        SpecToken::U64 => Some("u64"@),
        SpecToken::Usize => Some("usize"@),
        SpecToken::F32 => Some("f32"@),
        SpecToken::F64 => Some("f64"@),
        SpecToken::Char => Some("char"@),
        SpecToken::Str => Some("str"@),
        _ => None,
    }
}

/// The type that a type token names, as `parse_type` gives it.
pub open spec fn type_of_token(t: SpecToken) -> Option<SpecType> {
    match t {
        SpecToken::Identifier(id) => Some(SpecType::Custom(id)),
        SpecToken::Bool => Some(SpecType::Primitive(PrimitiveType::Bool)),
        SpecToken::I32 => Some(SpecType::Primitive(PrimitiveType::I32)),
        SpecToken::I64 => Some(SpecType::Primitive(PrimitiveType::I64)),
        SpecToken::U32 => Some(SpecType::Primitive(PrimitiveType::U32)),
        SpecToken::U64 => Some(SpecType::Primitive(PrimitiveType::U64)),
        SpecToken::Usize => Some(SpecType::Primitive(PrimitiveType::Usize)),
        SpecToken::F32 => Some(SpecType::Primitive(PrimitiveType::F32)),
        SpecToken::F64 => Some(SpecType::Primitive(PrimitiveType::F64)),
        SpecToken::Char => Some(SpecType::Primitive(PrimitiveType::Char)),
        SpecToken::Str => Some(SpecType::Primitive(PrimitiveType::Str)),
        _ => None,
    }
}

/// The type names that a cast treats as primitive.
pub open spec fn is_primitive_name(n: Seq<char>) -> bool {
    ||| n == "u8"@
    ||| n == "u16"@
    ||| n == "u32"@
    ||| n == "u64"@
    ||| n == "u128"@
    ||| n == "i8"@
    ||| n == "i16"@
    ||| n == "i32"@
    ||| n == "i64"@
    ||| n == "i128"@
    ||| n == "f32"@
    ||| n == "f64"@
    ||| n == "bool"@
    ||| n == "char"@
    ||| n == "str"@
}

/// `parse_type`: the type named by the next token, which stays.
pub open spec fn type_spec(pp: SpecParser, p: int) -> Parsed<(SpecType, Position)> {
    match peek_spec(pp, p) {
        Some((t, pos)) => match type_of_token(t) {
            Some(ty) => Parsed::Done((ty, pos), p),
            None => Parsed::Stuck,
        },
        None => Parsed::Stuck,
    }
}

/// `parse_type_as_string`: the name of the type that the next token names.
pub open spec fn type_as_string_spec(pp: SpecParser, p: int) -> Parsed<Seq<char>> {
    match peek_spec(pp, p) {
        Some((t, _)) => match type_name_of(t) {
            Some(n) => Parsed::Done(n, p + 1),
            None => Parsed::Stuck,
        },
        None => Parsed::Stuck,
    }
}

pub open spec fn additive_op(t: SpecToken) -> Option<Operator> {
    match t {
        SpecToken::Plus => Some(Operator::Plus),
        SpecToken::Minus => Some(Operator::Minus),
        _ => None,
    }
}

pub open spec fn multiplicative_op(t: SpecToken) -> Option<Operator> {
    match t {
        SpecToken::Asterisk => Some(Operator::Asterisk),
        SpecToken::Fslash => Some(Operator::Fslash),
        SpecToken::Percent => Some(Operator::Percent),
        _ => None,
    }
}

pub open spec fn binary_node(op: Operator, left: (SpecExpr, Position), right: (SpecExpr, Position)) -> SpecExpr {
    SpecExpr::Binary(Box::new(SpecBinaryExpr { op, left, right }), left.1)
}

/// `parse_cast`: an expression, then, after `as`, the name of a type to cast to.
pub open spec fn cast_spec(pp: SpecParser, p: int) -> Parsed<(SpecExpr, Position)>
    decreases pp.tokens.len() - p, 4int,
{
    match expression_spec(pp, p) {
        Parsed::Done((e, pos), q) => match peek_spec(pp, q) {
            Some((SpecToken::As, as_pos)) => match type_as_string_spec(pp, q + 1) {
                Parsed::Done(name, q2) => Parsed::Done(
                    (
                        SpecExpr::Cast(
                            if is_primitive_name(name) {
                                SpecCast::Primitive(name, as_pos)
                            } else {
                                SpecCast::NonPrimitive(name, as_pos)
                            },
                            Box::new(e),
                            pos,
                        ),
                        pos,
                    ),
                    q2,
                ),
                Parsed::Failed(err, q2) => Parsed::Failed(err, q2),
                Parsed::Stuck => Parsed::Stuck,
            },
            _ => Parsed::Done((e, pos), q),
        },
        other => other,
    }
}

/// `parse_expression`: terms joined by `+` and `-`, grouped to the left.
pub open spec fn expression_spec(pp: SpecParser, p: int) -> Parsed<(SpecExpr, Position)>
    decreases pp.tokens.len() - p, 3int,
{
    match term_spec(pp, p) {
        Parsed::Done((e, pos), q) => if p < q <= pp.tokens.len() {
            expression_rest(pp, q, (e, pos))
        } else {
            Parsed::Stuck
        },
        other => other,
    }
}

/// The rest of an expression after its first terms, which form `left`.
pub open spec fn expression_rest(pp: SpecParser, p: int, left: (SpecExpr, Position)) -> Parsed<(SpecExpr, Position)>
    decreases pp.tokens.len() - p, 3int,
{
    match peek_spec(pp, p) {
        Some((t, _)) => match additive_op(t) {
            Some(op) => match term_spec(pp, p + 1) {
                Parsed::Done(right, q) => if p < q <= pp.tokens.len() {
                    expression_rest(pp, q, (binary_node(op, left, right), left.1))
                } else {
                    Parsed::Stuck
                },
                other => other,
            },
            None => Parsed::Done(left, p),
        },
        None => Parsed::Done(left, p),
    }
}

/// `parse_term`: factors joined by `*`, `/` and `%`, grouped to the left.
pub open spec fn term_spec(pp: SpecParser, p: int) -> Parsed<(SpecExpr, Position)>
    decreases pp.tokens.len() - p, 2int,
{
    match factor_spec(pp, p) {
        Parsed::Done((e, pos), q) => if p < q <= pp.tokens.len() {
            term_rest(pp, q, (e, pos))
        } else {
            Parsed::Stuck
        },
        other => other,
    }
}

/// The rest of a term after its first factors, which form `left`.
pub open spec fn term_rest(pp: SpecParser, p: int, left: (SpecExpr, Position)) -> Parsed<(SpecExpr, Position)>
    decreases pp.tokens.len() - p, 2int,
{
    match peek_spec(pp, p) {
        Some((t, _)) => match multiplicative_op(t) {
            Some(op) => match factor_spec(pp, p + 1) {
                Parsed::Done(right, q) => if p < q <= pp.tokens.len() {
                    term_rest(pp, q, (binary_node(op, left, right), left.1))
                } else {
                    Parsed::Stuck
                },
                other => other,
            },
            None => Parsed::Done(left, p),
        },
        None => Parsed::Done(left, p),
    }
}

/// `parse_factor`: a literal, a variable, a call, or an expression in
/// parentheses.
pub open spec fn factor_spec(pp: SpecParser, p: int) -> Parsed<(SpecExpr, Position)>
    decreases pp.tokens.len() - p, 1int,
{
    match consume_spec(pp, p) {
        Parsed::Done((t, pos), q) => match t {
            SpecToken::BooleanLiteral(b) => Parsed::Done((SpecExpr::Boolean(b, pos), pos), q),
            SpecToken::NumberLiteral(n) => Parsed::Done((SpecExpr::Number(n, pos), pos), q),
            SpecToken::CharacterLiteral(c) => Parsed::Done((SpecExpr::Character(c, pos), pos), q),
            SpecToken::StringLiteral(s) => Parsed::Done((SpecExpr::String(s, pos), pos), q),
            SpecToken::Identifier(id) => if peek_spec(pp, q) matches Some((SpecToken::LPar, _)) {
                fn_call_spec(pp, q, (id, pos))
            } else {
                Parsed::Done((SpecExpr::VariableCall(id, pos), pos), q)
            },
            SpecToken::LPar => match cast_spec(pp, q) {
                Parsed::Done(e, q2) => match consume_spec(pp, q2) {
                    Parsed::Done((SpecToken::RPar, _), q3) => Parsed::Done(e, q3),
                    Parsed::Done((u, upos), q3) => Parsed::Failed(
                        SpecParserError::UnexpectedToken { token: u, file: pp.file, position: upos },
                        q3,
                    ),
                    Parsed::Failed(err, q3) => Parsed::Failed(err, q3),
                    Parsed::Stuck => Parsed::Stuck,
                },
                other => other,
            },
            _ => Parsed::Failed(SpecParserError::UnexpectedToken { token: t, file: pp.file, position: pos }, q),
        },
        Parsed::Failed(err, q) => Parsed::Failed(err, q),
        Parsed::Stuck => Parsed::Stuck,
    }
}

/// `parse_fn_call`: the arguments of a call, from the `(` that follows the
/// function's name.
pub open spec fn fn_call_spec(pp: SpecParser, p: int, function: (Seq<char>, Position)) -> Parsed<(SpecExpr, Position)>
    decreases pp.tokens.len() - p, 0int,
{
    match consume_spec(pp, p) {
        Parsed::Done((t, pos), q) => if !(t is LPar) {
            Parsed::Failed(
                SpecParserError::SyntaxError { message: "Expected '(' after function name"@, file: pp.file, position: pos },
                q,
            )
        } else {
            match peek_spec(pp, q) {
                Some((SpecToken::RPar, rpos)) => Parsed::Done(
                    (SpecExpr::FunctionCall(function.0, function.1, Seq::empty()), rpos),
                    q + 1,
                ),
                _ => call_args(pp, q, function, pos, Seq::empty()),
            }
        },
        Parsed::Failed(err, q) => Parsed::Failed(err, q),
        Parsed::Stuck => Parsed::Stuck,
    }
}

/// The arguments of a call from index `p`, after the arguments `args`; the
/// call is placed at its `(`.
pub open spec fn call_args(
    pp: SpecParser,
    p: int,
    function: (Seq<char>, Position),
    lpar: Position,
    args: Seq<(SpecExpr, Position)>,
) -> Parsed<(SpecExpr, Position)>
    decreases pp.tokens.len() - p, 5int,
{
    match cast_spec(pp, p) {
        Parsed::Done(arg, q) => {
            let args2 = args.push(arg);
            match peek_spec(pp, q) {
                Some((SpecToken::Comma, _)) => if p <= q {
                    call_args(pp, q + 1, function, lpar, args2)
                } else {
                    Parsed::Stuck
                },
                Some((SpecToken::RPar, _)) => Parsed::Done((SpecExpr::FunctionCall(function.0, function.1, args2), lpar), q + 1),
                Some((_, tpos)) => Parsed::Failed(
                    SpecParserError::SyntaxError {
                        message: "Expected ',' or ')' in function call"@,
                        file: pp.file,
                        position: tpos,
                    },
                    q,
                ),
                None => Parsed::Failed(
                    SpecParserError::MissingToken { expected: "',' or ')' in function call"@, file: pp.file, position: arg.1 },
                    q,
                ),
            }
        },
        other => other,
    }
}

// ---------------------------------------------------------------------------
// Statements
// ---------------------------------------------------------------------------

/// The error for the token at `p`, which is taken.
pub open spec fn unexpected_spec<T>(pp: SpecParser, p: int) -> Parsed<T> {
    match consume_spec(pp, p) {
        Parsed::Done((t, pos), q) => Parsed::Failed(SpecParserError::UnexpectedToken { token: t, file: pp.file, position: pos }, q),
        Parsed::Failed(err, q) => Parsed::Failed(err, q),
        Parsed::Stuck => Parsed::Stuck,
    }
}

/// The `;` that ends a statement at `p`: the statement parsed, or the
/// syntax error `message` at the token found instead.
pub open spec fn semicolon_spec<T>(pp: SpecParser, p: int, done: T, message: Seq<char>) -> Parsed<T> {
    match consume_spec(pp, p) {
        Parsed::Done((t, pos), q) => if t is Semicolon {
            Parsed::Done(done, q)
        } else {
            Parsed::Failed(SpecParserError::SyntaxError { message, file: pp.file, position: pos }, q)
        },
        Parsed::Failed(err, q) => Parsed::Failed(err, q),
        Parsed::Stuck => Parsed::Stuck,
    }
}

/// `ret`, a value and `;`: the statement is placed at the `ret`.
pub open spec fn return_spec(pp: SpecParser, p: int, ret_pos: Position) -> Parsed<(SpecStmt, Position)> {
    match cast_spec(pp, p + 1) {
        Parsed::Done(value, q) => semicolon_spec(
            pp,
            q,
            (SpecStmt::Return { value }, ret_pos),
            "Expected ';' after return expression."@,
        ),
        Parsed::Failed(err, q) => Parsed::Failed(err, q),
        Parsed::Stuck => Parsed::Stuck,
    }
}

/// An expression standing as a statement, with an optional `;`.
pub open spec fn expr_stmt_spec(pp: SpecParser, p: int) -> Parsed<(SpecStmt, Position)> {
    match cast_spec(pp, p) {
        Parsed::Done((e, pos), q) => if peek_spec(pp, q) matches Some((SpecToken::Semicolon, _)) {
            Parsed::Done((SpecStmt::Expression(e), pos), q + 1)
        } else {
            Parsed::Done((SpecStmt::Expression(e), pos), q)
        },
        Parsed::Failed(err, q) => Parsed::Failed(err, q),
        Parsed::Stuck => Parsed::Stuck,
    }
}

/// `parse_assignment`: a name, `=`, a value and `;`; the statement is placed
/// at its value.
pub open spec fn assignment_spec(pp: SpecParser, p: int) -> Parsed<(SpecStmt, Position)> {
    match consume_spec(pp, p) {
        Parsed::Done((SpecToken::Identifier(lhs), _), q) => match consume_spec(pp, q) {
            Parsed::Done(_, q2) => match cast_spec(pp, q2) {
                Parsed::Done((e, pos), q3) => semicolon_spec(
                    pp,
                    q3,
                    (SpecStmt::Assignment(SpecAssign { lhs, value: (e, pos) }), pos),
                    "Expected ';' after assignment."@,
                ),
                Parsed::Failed(err, q3) => Parsed::Failed(err, q3),
                Parsed::Stuck => Parsed::Stuck,
            },
            Parsed::Failed(err, q2) => Parsed::Failed(err, q2),
            Parsed::Stuck => Parsed::Stuck,
        },
        Parsed::Done(_, _) => Parsed::Stuck,
        Parsed::Failed(err, q) => Parsed::Failed(err, q),
        Parsed::Stuck => Parsed::Stuck,
    }
}

/// The type of a declared variable, from its type token.
pub open spec fn decl_type_of(t: SpecToken) -> Option<SpecType> {
    match t {
        SpecToken::I32 => Some(basic_type("i32"@)),
        SpecToken::Char => Some(basic_type("char"@)),
        SpecToken::Str => Some(basic_type("str"@)),
        SpecToken::Identifier(n) => Some(basic_type(n)),
        _ => None,
    }
}

/// The place of the token at `p`, or the default place past the last token.
pub open spec fn place_at(pp: SpecParser, p: int) -> Position {
    match peek_spec(pp, p) {
        Some((_, pos)) => pos,
        None => Position { line: 0, index: 0 },
    }
}

/// After `name: type`: either `= value;`, a declaration with an initial
/// value, or `;`, a plain declaration; both are placed at the name.
pub open spec fn decl_end_spec(pp: SpecParser, p: int, d: SpecVarDecl) -> Parsed<(SpecStmt, Position)> {
    if peek_spec(pp, p) matches Some((SpecToken::Equal, _)) {
        match cast_spec(pp, p + 1) {
            Parsed::Done((e, pos), q) => semicolon_spec(
                pp,
                q,
                (
                    SpecStmt::DeclarationAssignment {
                        declaration: (d, d.position),
                        assignment: (SpecAssign { lhs: d.id, value: (e, pos) }, pos),
                    },
                    d.position,
                ),
                "Expected ';' after declaration assignment."@,
            ),
            Parsed::Failed(err, q) => Parsed::Failed(err, q),
            Parsed::Stuck => Parsed::Stuck,
        }
    } else {
        semicolon_spec(pp, p, (SpecStmt::Declaration(d), d.position), "Expected ';' after variable declaration."@)
    }
}

/// `parse_explicit_decl`: `name: type`, then its end.
pub open spec fn explicit_decl_spec(pp: SpecParser, p: int) -> Parsed<(SpecStmt, Position)> {
    match consume_spec(pp, p) {
        Parsed::Done((SpecToken::Identifier(id), id_pos), q) => match consume_spec(pp, q) {
            Parsed::Done((c, cpos), q2) => if !(c is Colon) {
                Parsed::Failed(
                    SpecParserError::SyntaxError {
                        message: "Expected ':' after identifier in variable declaration."@,
                        file: pp.file,
                        position: cpos,
                    },
                    q2,
                )
            } else {
                match consume_spec(pp, q2) {
                    Parsed::Done((t, tpos), q3) => match decl_type_of(t) {
                        Some(ty) => decl_end_spec(pp, q3, SpecVarDecl { id, var_type: ty, position: id_pos }),
                        None => Parsed::Failed(
                            SpecParserError::MissingToken { expected: "variable type"@, file: pp.file, position: tpos },
                            q3,
                        ),
                    },
                    Parsed::Failed(err, q3) => Parsed::Failed(err, q3),
                    Parsed::Stuck => Parsed::Stuck,
                }
            },
            Parsed::Failed(err, q2) => Parsed::Failed(err, q2),
            Parsed::Stuck => Parsed::Stuck,
        },
        Parsed::Done((t, _), q) => Parsed::Failed(
            SpecParserError::UnexpectedToken { token: t, file: pp.file, position: place_at(pp, q) },
            q,
        ),
        Parsed::Failed(err, q) => Parsed::Failed(err, q),
        Parsed::Stuck => Parsed::Stuck,
    }
}

/// `parse_walrus_decl`: a name, `:=`, a value and `;`; placed at the name.
pub open spec fn walrus_spec(pp: SpecParser, p: int) -> Parsed<(SpecStmt, Position)> {
    match consume_spec(pp, p) {
        Parsed::Done((SpecToken::Identifier(id), pos), q) => match consume_spec(pp, q) {
            Parsed::Done((w, wpos), q2) => if !(w is Walrus) {
                Parsed::Failed(
                    SpecParserError::SyntaxError {
                        message: "Expected ':=' after identifier for walrus declaration."@,
                        file: pp.file,
                        position: wpos,
                    },
                    q2,
                )
            } else {
                match cast_spec(pp, q2) {
                    Parsed::Done(init, q3) => semicolon_spec(
                        pp,
                        q3,
                        (SpecStmt::Walrus { id, initializer: init }, pos),
                        "Expected ';' after walrus declaration."@,
                    ),
                    Parsed::Failed(err, q3) => Parsed::Failed(err, q3),
                    Parsed::Stuck => Parsed::Stuck,
                }
            },
            Parsed::Failed(err, q2) => Parsed::Failed(err, q2),
            Parsed::Stuck => Parsed::Stuck,
        },
        Parsed::Done(_, _) => Parsed::Stuck,
        Parsed::Failed(err, q) => Parsed::Failed(err, q),
        Parsed::Stuck => Parsed::Stuck,
    }
}

/// `parse_let_decl`: after `let`, a name followed by `:` or `:=`.
pub open spec fn let_spec(pp: SpecParser, p: int) -> Parsed<(SpecStmt, Position)> {
    match consume_spec(pp, p) {
        Parsed::Done(_, q) => if peek_spec(pp, q) matches Some((SpecToken::Identifier(_), _)) && peek_spec(pp, q + 1) is Some {
            match peek_spec(pp, q + 1) {
                Some((SpecToken::Colon, _)) => explicit_decl_spec(pp, q),
                Some((SpecToken::Walrus, _)) => walrus_spec(pp, q),
                _ => Parsed::Stuck,
            }
        } else {
            unexpected_spec(pp, q)
        },
        Parsed::Failed(err, q) => Parsed::Failed(err, q),
        Parsed::Stuck => Parsed::Stuck,
    }
}

/// `break;` or `continue;`, placed at the keyword.
pub open spec fn keyword_stmt_spec(pp: SpecParser, p: int, s: SpecStmt, pos: Position, message: Seq<char>) -> Parsed<(SpecStmt, Position)> {
    semicolon_spec(pp, p + 1, (s, pos), message)
}

/// `parse_statement`: the statement that the next token starts.
pub open spec fn statement_spec(pp: SpecParser, p: int) -> Parsed<(SpecStmt, Position)>
    decreases pp.tokens.len() - p, 2int,
{
    match peek_spec(pp, p) {
        Some((SpecToken::Ret, pos)) => return_spec(pp, p, pos),
        Some((SpecToken::If, _)) => if_spec(pp, p),
        Some((SpecToken::Else, _)) => else_spec(pp, p),
        Some((SpecToken::Loop, _)) => loop_spec(pp, p),
        Some((SpecToken::While, _)) => while_spec(pp, p),
        Some((SpecToken::For, _)) => Parsed::Stuck,
        Some((SpecToken::Break, pos)) => keyword_stmt_spec(pp, p, SpecStmt::Break, pos, "Expected ';' after 'break."@),
        Some((SpecToken::Continue, pos)) => keyword_stmt_spec(
            pp,
            p,
            SpecStmt::Continue,
            pos,
            "Expected ';' after 'continue'."@,
        ),
        Some((SpecToken::Let, _)) => let_spec(pp, p),
        Some((SpecToken::Identifier(_), _)) => match peek_spec(pp, p + 1) {
            Some((SpecToken::Equal, _)) => assignment_spec(pp, p),
            Some(_) => expr_stmt_spec(pp, p),
            None => unexpected_spec(pp, p),
        },
        Some((SpecToken::NumberLiteral(_), _)) => expr_stmt_spec(pp, p),
        Some((SpecToken::LPar, _)) => expr_stmt_spec(pp, p),
        _ => unexpected_spec(pp, p),
    }
}

/// `parse_if_statement`: `if`, a condition and a block; placed at the `if`.
pub open spec fn if_spec(pp: SpecParser, p: int) -> Parsed<(SpecStmt, Position)>
    decreases pp.tokens.len() - p, 1int,
{
    match consume_spec(pp, p) {
        Parsed::Done((_, if_pos), q) => match cast_spec(pp, q) {
            Parsed::Done(condition, q2) => if p < q2 <= pp.tokens.len() {
                match body_spec(pp, q2) {
                    Parsed::Done(branch, q3) => Parsed::Done((SpecStmt::If { condition, branch }, if_pos), q3),
                    Parsed::Failed(err, q3) => Parsed::Failed(err, q3),
                    Parsed::Stuck => Parsed::Stuck,
                }
            } else {
                Parsed::Stuck
            },
            Parsed::Failed(err, q2) => Parsed::Failed(err, q2),
            Parsed::Stuck => Parsed::Stuck,
        },
        Parsed::Failed(err, q) => Parsed::Failed(err, q),
        Parsed::Stuck => Parsed::Stuck,
    }
}

/// `parse_else_statement`: `else if`, a condition and a block, placed at the
/// `if`; or `else` and a block, placed at the `else`.
pub open spec fn else_spec(pp: SpecParser, p: int) -> Parsed<(SpecStmt, Position)>
    decreases pp.tokens.len() - p, 1int,
{
    match consume_spec(pp, p) {
        Parsed::Done((_, else_pos), q) => match peek_spec(pp, q) {
            Some((SpecToken::If, if_pos)) => match cast_spec(pp, q + 1) {
                Parsed::Done(condition, q2) => if p < q2 <= pp.tokens.len() {
                    match body_spec(pp, q2) {
                        Parsed::Done(branch, q3) => Parsed::Done(
                            (SpecStmt::Else { condition: Some(condition), branch }, if_pos),
                            q3,
                        ),
                        Parsed::Failed(err, q3) => Parsed::Failed(err, q3),
                        Parsed::Stuck => Parsed::Stuck,
                    }
                } else {
                    Parsed::Stuck
                },
                Parsed::Failed(err, q2) => Parsed::Failed(err, q2),
                Parsed::Stuck => Parsed::Stuck,
            },
            _ => match body_spec(pp, q) {
                Parsed::Done(branch, q3) => Parsed::Done((SpecStmt::Else { condition: None, branch }, else_pos), q3),
                Parsed::Failed(err, q3) => Parsed::Failed(err, q3),
                Parsed::Stuck => Parsed::Stuck,
            },
        },
        Parsed::Failed(err, q) => Parsed::Failed(err, q),
        Parsed::Stuck => Parsed::Stuck,
    }
}

/// `parse_loop`: `loop` and a block; placed at the `loop`.
pub open spec fn loop_spec(pp: SpecParser, p: int) -> Parsed<(SpecStmt, Position)>
    decreases pp.tokens.len() - p, 1int,
{
    match consume_spec(pp, p) {
        Parsed::Done((_, loop_pos), q) => match body_spec(pp, q) {
            Parsed::Done(body, q2) => Parsed::Done((SpecStmt::Loop { body }, loop_pos), q2),
            Parsed::Failed(err, q2) => Parsed::Failed(err, q2),
            Parsed::Stuck => Parsed::Stuck,
        },
        Parsed::Failed(err, q) => Parsed::Failed(err, q),
        Parsed::Stuck => Parsed::Stuck,
    }
}

/// `parse_while_loop`: `while`, a condition and a block; placed at the `while`.
pub open spec fn while_spec(pp: SpecParser, p: int) -> Parsed<(SpecStmt, Position)>
    decreases pp.tokens.len() - p, 1int,
{
    match consume_spec(pp, p) {
        Parsed::Done((_, while_pos), q) => match cast_spec(pp, q) {
            Parsed::Done(condition, q2) => if p < q2 <= pp.tokens.len() {
                match body_spec(pp, q2) {
                    Parsed::Done(body, q3) => Parsed::Done((SpecStmt::While { condition, body }, while_pos), q3),
                    Parsed::Failed(err, q3) => Parsed::Failed(err, q3),
                    Parsed::Stuck => Parsed::Stuck,
                }
            } else {
                Parsed::Stuck
            },
            Parsed::Failed(err, q2) => Parsed::Failed(err, q2),
            Parsed::Stuck => Parsed::Stuck,
        },
        Parsed::Failed(err, q) => Parsed::Failed(err, q),
        Parsed::Stuck => Parsed::Stuck,
    }
}

/// `parse_body`: `{`, statements, and `}`; the block is placed at its `}`.
pub open spec fn body_spec(pp: SpecParser, p: int) -> Parsed<(Seq<(SpecStmt, Position)>, Position)>
    decreases pp.tokens.len() - p, 0int,
{
    match consume_spec(pp, p) {
        Parsed::Done((t, pos), q) => if !(t is LCurl) {
            Parsed::Failed(SpecParserError::MissingToken { expected: "opening '{'"@, file: pp.file, position: pos }, q)
        } else {
            body_stmts(pp, q, Seq::empty())
        },
        Parsed::Failed(err, q) => Parsed::Failed(err, q),
        Parsed::Stuck => Parsed::Stuck,
    }
}

/// The statements of a block from `p`, after the statements `stmts`, up to
/// the `}` that closes it.
pub open spec fn body_stmts(pp: SpecParser, p: int, stmts: Seq<(SpecStmt, Position)>) -> Parsed<(Seq<(SpecStmt, Position)>, Position)>
    decreases pp.tokens.len() - p, 3int,
{
    match peek_spec(pp, p) {
        Some((SpecToken::RCurl, _)) => body_close(pp, p, stmts),
        Some(_) => match statement_spec(pp, p) {
            Parsed::Done(s, q) => if p < q <= pp.tokens.len() {
                body_stmts(pp, q, stmts.push(s))
            } else {
                Parsed::Stuck
            },
            Parsed::Failed(err, q) => Parsed::Failed(err, q),
            Parsed::Stuck => Parsed::Stuck,
        },
        None => body_close(pp, p, stmts),
    }
}

/// The `}` that closes a block.
pub open spec fn body_close(pp: SpecParser, p: int, stmts: Seq<(SpecStmt, Position)>) -> Parsed<(Seq<(SpecStmt, Position)>, Position)> {
    match consume_spec(pp, p) {
        Parsed::Done((t, pos), q) => if t is RCurl {
            Parsed::Done((stmts, pos), q)
        } else {
            Parsed::Failed(SpecParserError::MissingToken { expected: "closing '}'"@, file: pp.file, position: pos }, q)
        },
        Parsed::Failed(err, q) => Parsed::Failed(err, q),
        Parsed::Stuck => Parsed::Stuck,
    }
}

// ---------------------------------------------------------------------------
// Functions
// ---------------------------------------------------------------------------

/// The type of a parameter, from its type token.
pub open spec fn param_type_of(t: SpecToken) -> Option<SpecType> {
    match t {
        SpecToken::I32 => Some(basic_type("i32"@)),
        SpecToken::I64 => Some(basic_type("i64"@)),
        SpecToken::U32 => Some(basic_type("u32"@)),
        SpecToken::U64 => Some(basic_type("u64"@)),
        SpecToken::Identifier(id) => Some(SpecType::Custom(id)),
        _ => None,
    }
}

/// `parse_fn_parameters`: `(`, then `)` or parameters `name: type`
/// separated by `,` and closed by `)`.
pub open spec fn params_spec(pp: SpecParser, p: int) -> Parsed<Seq<(SpecParam, Position)>> {
    match consume_spec(pp, p) {
        Parsed::Done((t, pos), q) => if !(t is LPar) {
            Parsed::Failed(SpecParserError::MissingToken { expected: "opening '('"@, file: pp.file, position: pos }, q)
        } else if peek_spec(pp, q) matches Some((SpecToken::RPar, _)) {
            Parsed::Done(Seq::empty(), q + 1)
        } else {
            params_rest(pp, q, Seq::empty())
        },
        Parsed::Failed(err, q) => Parsed::Failed(err, q),
        Parsed::Stuck => Parsed::Stuck,
    }
}

/// The parameters from index `p`, after the parameters `params`; each is
/// placed at its name.
pub open spec fn params_rest(pp: SpecParser, p: int, params: Seq<(SpecParam, Position)>) -> Parsed<Seq<(SpecParam, Position)>>
    decreases pp.tokens.len() - p,
{
    match consume_spec(pp, p) {
        Parsed::Done((SpecToken::Identifier(name), pos), q) => match consume_spec(pp, q) {
            Parsed::Done((c, cpos), q2) => if !(c is Colon) {
                Parsed::Failed(
                    SpecParserError::SyntaxError { message: "Expected ':' after parameter name."@, file: pp.file, position: cpos },
                    q2,
                )
            } else {
                match consume_spec(pp, q2) {
                    Parsed::Done((t, tpos), q3) => match param_type_of(t) {
                        Some(ty) => {
                            let params2 = params.push((SpecParam { id: name, var_type: ty, position: pos }, pos));
                            match peek_spec(pp, q3) {
                                Some((SpecToken::Comma, _)) => params_rest(pp, q3 + 1, params2),
                                Some((SpecToken::RPar, _)) => Parsed::Done(params2, q3 + 1),
                                Some((n, npos)) => Parsed::Failed(
                                    SpecParserError::UnexpectedToken { token: n, file: pp.file, position: npos },
                                    q3,
                                ),
                                None => Parsed::Failed(
                                    SpecParserError::MissingToken { expected: "',' or ')'"@, file: pp.file, position: tpos },
                                    q3,
                                ),
                            }
                        },
                        None => Parsed::Failed(
                            SpecParserError::MissingToken { expected: "parameter type"@, file: pp.file, position: tpos },
                            q3,
                        ),
                    },
                    Parsed::Failed(err, q3) => Parsed::Failed(err, q3),
                    Parsed::Stuck => Parsed::Stuck,
                }
            },
            Parsed::Failed(err, q2) => Parsed::Failed(err, q2),
            Parsed::Stuck => Parsed::Stuck,
        },
        Parsed::Done((t, pos), q) => Parsed::Failed(SpecParserError::UnexpectedToken { token: t, file: pp.file, position: pos }, q),
        Parsed::Failed(err, q) => Parsed::Failed(err, q),
        Parsed::Stuck => Parsed::Stuck,
    }
}

/// `parse_fn_return_type`: `-> i32`, `-> char` or `-> str`, placed at the
/// type; or `;` or `{`, taken as the return type `void`, placed there. Other
/// forms are not implemented yet.
pub open spec fn return_type_spec(pp: SpecParser, p: int) -> Parsed<(SpecType, Position)> {
    match consume_spec(pp, p) {
        Parsed::Done((SpecToken::Arrow, _), q) => match consume_spec(pp, q) {
            Parsed::Done((SpecToken::I32, pos), q2) => Parsed::Done((basic_type("i32"@), pos), q2),
            Parsed::Done((SpecToken::Char, pos), q2) => Parsed::Done((basic_type("char"@), pos), q2),
            Parsed::Done((SpecToken::Str, pos), q2) => Parsed::Done((basic_type("str"@), pos), q2),
            _ => Parsed::Stuck,
        },
        Parsed::Done((SpecToken::Semicolon, pos), q) => Parsed::Done((basic_type("void"@), pos), q),
        Parsed::Done((SpecToken::LCurl, pos), q) => Parsed::Done((basic_type("void"@), pos), q),
        Parsed::Done(_, _) => Parsed::Stuck,
        Parsed::Failed(err, q) => Parsed::Failed(err, q),
        Parsed::Stuck => Parsed::Stuck,
    }
}

/// `parse_fn`: after `fn`, the name, the parameters, the return type and the
/// body; the function is placed at its name.
#[verifier::opaque]
pub open spec fn fn_spec(pp: SpecParser, p: int) -> Parsed<(SpecFunction, Position)> {
    match consume_spec(pp, p) {
        Parsed::Done((SpecToken::Identifier(name), fpos), q) => match params_spec(pp, q) {
            Parsed::Done(parameters, q2) => match return_type_spec(pp, q2) {
                Parsed::Done(return_type, q3) => match body_spec(pp, q3) {
                    Parsed::Done(body, q4) => Parsed::Done(
                        (SpecFunction { id: (name, fpos), parameters, return_type, body }, fpos),
                        q4,
                    ),
                    Parsed::Failed(err, q4) => Parsed::Failed(err, q4),
                    Parsed::Stuck => Parsed::Stuck,
                },
                Parsed::Failed(err, q3) => Parsed::Failed(err, q3),
                Parsed::Stuck => Parsed::Stuck,
            },
            Parsed::Failed(err, q2) => Parsed::Failed(err, q2),
            Parsed::Stuck => Parsed::Stuck,
        },
        Parsed::Done((t, pos), q) => Parsed::Failed(SpecParserError::UnexpectedToken { token: t, file: pp.file, position: pos }, q),
        Parsed::Failed(err, q) => Parsed::Failed(err, q),
        Parsed::Stuck => Parsed::Stuck,
    }
}

/// `parse`: from index `p`, after the definitions `defs` and the errors
/// `errs`, each `fn` starts a function; a function with an error is left out,
/// its error kept, and parsing goes on where the error was found. Parsing
/// ends when no token can be taken; `None` where it meets a form that is not
/// implemented yet, such as a token that starts no definition.
pub open spec fn parse_spec(
    pp: SpecParser,
    p: int,
    defs: Seq<(SpecStmt, Position)>,
    errs: Seq<SpecParserError>,
) -> Option<(Seq<(SpecStmt, Position)>, Seq<SpecParserError>)>
    decreases pp.tokens.len() - p,
{
    match consume_spec(pp, p) {
        Parsed::Done((SpecToken::Fn, _), q) => match fn_spec(pp, q) {
            Parsed::Done((f, fpos), q2) => if p < q2 <= pp.tokens.len() {
                parse_spec(pp, q2, defs.push((SpecStmt::Function(f), fpos)), errs)
            } else {
                None
            },
            Parsed::Failed(err, q2) => if p < q2 <= pp.tokens.len() {
                parse_spec(pp, q2, defs, errs.push(err))
            } else {
                None
            },
            Parsed::Stuck => None,
        },
        Parsed::Done(_, _) => None,
        Parsed::Failed(_, _) => Some((defs, errs)),
        Parsed::Stuck => None,
    }
}

// ---------------------------------------------------------------------------
// The parser
// ---------------------------------------------------------------------------

pub open spec fn tok_result(r: Result<(Token, Position), ParserError>, q: int) -> Parsed<(SpecToken, Position)> {
    match r {
        Ok((t, pos)) => Parsed::Done((t@, pos), q),
        Err(e) => Parsed::Failed(e@, q),
    }
}

pub open spec fn expr_result(r: Result<(Expr, Position), ParserError>, q: int) -> Parsed<(SpecExpr, Position)> {
    match r {
        Ok((e, pos)) => Parsed::Done((e@, pos), q),
        Err(err) => Parsed::Failed(err@, q),
    }
}

pub open spec fn string_result(r: Result<String, ParserError>, q: int) -> Parsed<Seq<char>> {
    match r {
        Ok(s) => Parsed::Done(s@, q),
        Err(err) => Parsed::Failed(err@, q),
    }
}

pub open spec fn type_result(r: Result<(Type, Position), ParserError>, q: int) -> Parsed<(SpecType, Position)> {
    match r {
        Ok((t, pos)) => Parsed::Done((t@, pos), q),
        Err(err) => Parsed::Failed(err@, q),
    }
}

fn is_primitive(name: &str) -> (b: bool)
    ensures
        b == is_primitive_name(name@),
{
    same_text(name, "u8") || same_text(name, "u16") || same_text(name, "u32") || same_text(name, "u64")
        || same_text(name, "u128") || same_text(name, "i8") || same_text(name, "i16") || same_text(name, "i32")
        || same_text(name, "i64") || same_text(name, "i128") || same_text(name, "f32") || same_text(name, "f64")
        || same_text(name, "bool") || same_text(name, "char") || same_text(name, "str")
}

pub open spec fn stmt_result(r: Result<(Statement, Position), ParserError>, q: int) -> Parsed<(SpecStmt, Position)> {
    match r {
        Ok((st, pos)) => Parsed::Done((st@, pos), q),
        Err(err) => Parsed::Failed(err@, q),
    }
}

pub open spec fn body_result(r: Result<(Body, Position), ParserError>, q: int) -> Parsed<(Seq<(SpecStmt, Position)>, Position)> {
    match r {
        Ok((b, pos)) => Parsed::Done((b@, pos), q),
        Err(err) => Parsed::Failed(err@, q),
    }
}

pub open spec fn params_result(r: Result<Vec<(Parameter, Position)>, ParserError>, q: int) -> Parsed<Seq<(SpecParam, Position)>> {
    match r {
        Ok(v) => Parsed::Done(params_view(v@), q),
        Err(err) => Parsed::Failed(err@, q),
    }
}

pub open spec fn ret_result(r: Result<(FunctionReturnType, Position), ParserError>, q: int) -> Parsed<(SpecType, Position)> {
    match r {
        Ok((t, pos)) => Parsed::Done((t.0@, pos), q),
        Err(err) => Parsed::Failed(err@, q),
    }
}

pub open spec fn fn_result(r: Result<(FunctionDefinition, Position), ParserError>, q: int) -> Parsed<(SpecFunction, Position)> {
    match r {
        Ok((f, pos)) => Parsed::Done((f@, pos), q),
        Err(err) => Parsed::Failed(err@, q),
    }
}

pub open spec fn errors_view(v: Seq<ParserError>) -> Seq<SpecParserError> {
    v.map_values(|e: ParserError| e@)
}

/// A parser over the tokens of a file.
pub struct Parser {
    file: String,
    tokens: Vec<(Token, Position)>,
    position: usize,
    unsupported: bool,
}

impl Parser {
    /// The file name and the tokens.
    pub closed spec fn model(&self) -> SpecParser {
        SpecParser { file: self.file@, tokens: tokens_view(self.tokens@) }
    }

    /// The index of the next token.
    pub closed spec fn pos(&self) -> int {
        self.position as int
    }

    /// The parser's invariant: the index lies within the tokens.
    pub closed spec fn wf(&self) -> bool {
        0 <= self.pos() <= self.tokens.len()
    }

    /// The index of the next token is never negative, and in a well-formed
    /// parser it is at most the number of tokens.
    pub proof fn lemma_position_in_range(&self)
        ensures
            0 <= self.pos(),
            self.wf() ==> self.pos() <= self.model().tokens.len(),
    {
    }

    /// Whether the parser met a form it does not implement yet (see `Stuck`).
    pub closed spec fn hit_unsupported(&self) -> bool {
        self.unsupported
    }

    /// Whether the parser met a form it does not implement yet: a `for`
    /// loop, a return type other than `i32`, `char` and `str`, a definition
    /// other than a function, and the like. What it parsed is then incomplete.
    pub fn unsupported(&self) -> (b: bool)
        ensures
            b == self.hit_unsupported(),
    {
        self.unsupported
    }

    /// The error handed back where the parser meets a form it does not handle:
    /// a generic error that says so.
    fn unsupported_error() -> (e: ParserError)
        ensures
            e@ == SpecParserError::GenericError("not yet implemented"@),
    {
        ParserError::GenericError(String::from_str("not yet implemented"))
    }

    /// The parser after a step from `before`: same file and tokens, and an
    /// index that did not go back.
    pub open spec fn stepped(&self, before: &Parser) -> bool {
        &&& self.wf()
        &&& self.model() == before.model()
        &&& before.pos() <= self.pos()
    }

    /// A parser at the first token.
    pub fn new(file: String, tokens: Vec<(Token, Position)>) -> (p: Parser)
        ensures
            p.wf(),
            p.model() == (SpecParser { file: file@, tokens: tokens_view(tokens@) }),
            p.pos() == 0,
            !p.hit_unsupported(),
    {
        Parser { file, tokens, position: 0, unsupported: false }
    }

    /// The next token, which stays.
    pub fn peek(&self) -> (r: Option<(Token, Position)>)
        ensures
            match r {
                Some((t, pos)) => peek_spec(self.model(), self.pos()) == Some((t@, pos)),
                None => peek_spec(self.model(), self.pos()) is None,
            },
    {
        if self.position < self.tokens.len() {
            Some((self.tokens[self.position].0.clone(), self.tokens[self.position].1))
        } else {
            None
        }
    }

    /// The token after the next one, which stays too.
    fn peek_second(&self) -> (r: Option<&Token>)
        requires
            self.wf(),
        ensures
            match r {
                Some(t) => peek_spec(self.model(), self.pos() + 1) == Some((t@, self.model().tokens[self.pos() + 1].1)),
                None => peek_spec(self.model(), self.pos() + 1) is None,
            },
    {
        if self.position < self.tokens.len() && self.position + 1 < self.tokens.len() {
            Some(&self.tokens[self.position + 1].0)
        } else {
            None
        }
    }

    /// Takes the next token; refuses the end-of-file token, which stays.
    pub fn consume(&mut self) -> (r: Result<(Token, Position), ParserError>)
        requires
            old(self).wf(),
        ensures
            final(self).stepped(old(self)),
            final(self).hit_unsupported() == old(self).hit_unsupported(),
            consume_spec(old(self).model(), old(self).pos()) == tok_result(r, final(self).pos()),
    {
        if self.position < self.tokens.len() {
            let token = self.tokens[self.position].0.clone();
            let pos = self.tokens[self.position].1;
            match token {
                Token::Eof => Err(ParserError::UnexpectedToken { token: Token::Eof, file: self.file.clone(), position: pos }),
                _ => {
                    self.position += 1;
                    Ok((token, pos))
                },
            }
        } else {
            Err(
                ParserError::GenericError(
                    String::from_str("Reached end of token list for unknown reason, it should have stopped at `Token::Eof`"),
                ),
            )
        }
    }

    fn error_here(&self, token: Token, position: Position) -> (e: ParserError)
        ensures
            e@ == (SpecParserError::UnexpectedToken { token: token@, file: self.model().file, position }),
    {
        ParserError::UnexpectedToken { token, file: self.file.clone(), position }
    }

    fn syntax_error(&self, message: &str, position: Position) -> (e: ParserError)
        ensures
            e@ == (SpecParserError::SyntaxError { message: message@, file: self.model().file, position }),
    {
        ParserError::SyntaxError { message: String::from_str(message), file: self.file.clone(), position }
    }

    fn missing_token(&self, expected: &str, position: Position) -> (e: ParserError)
        ensures
            e@ == (SpecParserError::MissingToken { expected: expected@, file: self.model().file, position }),
    {
        ParserError::MissingToken { expected: String::from_str(expected), file: self.file.clone(), position }
    }
}

impl Parser {
    /// The type that the next token names; the token stays.
    pub fn parse_type(&mut self) -> (r: Result<(Type, Position), ParserError>)
        requires
            old(self).wf(),
            !old(self).hit_unsupported(),
        ensures
            final(self).stepped(old(self)),
            final(self).hit_unsupported() == (type_spec(old(self).model(), old(self).pos()) is Stuck),
            final(self).hit_unsupported() ==> r is Err,
            !(type_spec(old(self).model(), old(self).pos()) is Stuck) ==> type_spec(old(self).model(), old(self).pos()) == type_result(r, final(self).pos()),
    {
        match self.peek() {
            Some((tok, tok_pos)) => match tok {
                Token::Identifier(id) => Ok((Type::Custom(id), tok_pos)),
                Token::Bool => Ok((Type::Primitive(PrimitiveType::Bool), tok_pos)),
                Token::I32 => Ok((Type::Primitive(PrimitiveType::I32), tok_pos)),
                Token::I64 => Ok((Type::Primitive(PrimitiveType::I64), tok_pos)),
                Token::U32 => Ok((Type::Primitive(PrimitiveType::U32), tok_pos)),
                Token::U64 => Ok((Type::Primitive(PrimitiveType::U64), tok_pos)),
                Token::Usize => Ok((Type::Primitive(PrimitiveType::Usize), tok_pos)),
                Token::F32 => Ok((Type::Primitive(PrimitiveType::F32), tok_pos)),
                Token::F64 => Ok((Type::Primitive(PrimitiveType::F64), tok_pos)),
                Token::Char => Ok((Type::Primitive(PrimitiveType::Char), tok_pos)),
                Token::Str => Ok((Type::Primitive(PrimitiveType::Str), tok_pos)),
                _ => {
                    self.unsupported = true;
                    Err(Parser::unsupported_error())
                },
            },
            None => {
                self.unsupported = true;
                Err(Parser::unsupported_error())
            },
        }
    }

    /// The name of the type that the next token names; the token is taken.
    pub fn parse_type_as_string(&mut self) -> (r: Result<String, ParserError>)
        requires
            old(self).wf(),
            !old(self).hit_unsupported(),
        ensures
            final(self).stepped(old(self)),
            final(self).hit_unsupported() == (type_as_string_spec(old(self).model(), old(self).pos()) is Stuck),
            final(self).hit_unsupported() ==> r is Err,
            !(type_as_string_spec(old(self).model(), old(self).pos()) is Stuck) ==> type_as_string_spec(old(self).model(), old(self).pos()) == string_result(r, final(self).pos()),
            r is Ok ==> old(self).pos() < final(self).pos(),
    {
        match self.peek() {
            Some((tok, _)) => {
                let t = match tok {
                    Token::Identifier(id) => id,
                    Token::Bool => String::from_str("bool"),
                    Token::I32 => String::from_str("i32"),
                    Token::I64 => String::from_str("i64"),
                    Token::U32 => String::from_str("u32"),
                    Token::U64 => String::from_str("u64"),
                    Token::Usize => String::from_str("usize"),
                    Token::F32 => String::from_str("f32"),
                    Token::F64 => String::from_str("f64"),
                    Token::Char => String::from_str("char"),
                    Token::Str => String::from_str("str"),
                    _ => {
                        self.unsupported = true;
                        return Err(Parser::unsupported_error());
                    },
                };
                self.consume()?;
                Ok(t)
            },
            None => {
                self.unsupported = true;
                Err(Parser::unsupported_error())
            },
        }
    }

    /// An expression, then, after `as`, the name of a type to cast to.
    pub fn parse_cast(&mut self) -> (r: Result<(Expr, Position), ParserError>)
        requires
            old(self).wf(),
            !old(self).hit_unsupported(),
        ensures
            final(self).stepped(old(self)),
            final(self).hit_unsupported() == (cast_spec(old(self).model(), old(self).pos()) is Stuck),
            final(self).hit_unsupported() ==> r is Err,
            !(cast_spec(old(self).model(), old(self).pos()) is Stuck) ==> cast_spec(old(self).model(), old(self).pos()) == expr_result(r, final(self).pos()),
            r is Ok ==> old(self).pos() < final(self).pos(),
        decreases old(self).model().tokens.len() - old(self).pos(), 4int,
    {
        let (expr, pos) = self.parse_expression()?;
        if let Some((Token::As, _)) = self.peek() {
            let (_, as_pos) = self.consume()?;
            let cast_name = self.parse_type_as_string()?;
            let cast_to = if is_primitive(cast_name.as_str()) {
                Cast::Primitive((cast_name, as_pos))
            } else {
                Cast::NonPrimitive((cast_name, as_pos))
            };
            Ok((Expr::Cast((cast_to, Box::new(expr)), pos), pos))
        } else {
            Ok((expr, pos))
        }
    }

    /// Terms joined by `+` and `-`, grouped to the left.
    pub fn parse_expression(&mut self) -> (r: Result<(Expr, Position), ParserError>)
        requires
            old(self).wf(),
            !old(self).hit_unsupported(),
        ensures
            final(self).stepped(old(self)),
            final(self).hit_unsupported() == (expression_spec(old(self).model(), old(self).pos()) is Stuck),
            final(self).hit_unsupported() ==> r is Err,
            !(expression_spec(old(self).model(), old(self).pos()) is Stuck) ==> expression_spec(old(self).model(), old(self).pos()) == expr_result(r, final(self).pos()),
            r is Ok ==> old(self).pos() < final(self).pos(),
        decreases old(self).model().tokens.len() - old(self).pos(), 3int,
    {
        let ghost pp = self.model();
        let ghost p0 = self.pos();
        let (mut expr, pos) = self.parse_term()?;
        loop
            invariant
                self.wf(),
                self.model() == pp,
                pp == old(self).model(),
                p0 == old(self).pos(),
                p0 < self.pos(),
                !self.hit_unsupported(),
                expression_spec(pp, p0) == expression_rest(pp, self.pos(), (expr@, pos)),
            decreases self.model().tokens.len() - self.pos(),
        {
            let op = match self.peek() {
                Some((Token::Plus, _)) => Operator::Plus,
                Some((Token::Minus, _)) => Operator::Minus,
                _ => {
                    return Ok((expr, pos));
                },
            };
            self.consume()?;
            let (right, right_pos) = self.parse_term()?;
            expr = Expr::Binary((Box::new(BinaryExpr { op, left: (expr, pos), right: (right, right_pos) }), pos));
        }
    }

    /// Factors joined by `*`, `/` and `%`, grouped to the left.
    pub fn parse_term(&mut self) -> (r: Result<(Expr, Position), ParserError>)
        requires
            old(self).wf(),
            !old(self).hit_unsupported(),
        ensures
            final(self).stepped(old(self)),
            final(self).hit_unsupported() == (term_spec(old(self).model(), old(self).pos()) is Stuck),
            final(self).hit_unsupported() ==> r is Err,
            !(term_spec(old(self).model(), old(self).pos()) is Stuck) ==> term_spec(old(self).model(), old(self).pos()) == expr_result(r, final(self).pos()),
            r is Ok ==> old(self).pos() < final(self).pos(),
        decreases old(self).model().tokens.len() - old(self).pos(), 2int,
    {
        let ghost pp = self.model();
        let ghost p0 = self.pos();
        let (mut expr, expr_pos) = self.parse_factor()?;
        loop
            invariant
                self.wf(),
                self.model() == pp,
                pp == old(self).model(),
                p0 == old(self).pos(),
                p0 < self.pos(),
                !self.hit_unsupported(),
                term_spec(pp, p0) == term_rest(pp, self.pos(), (expr@, expr_pos)),
            decreases self.model().tokens.len() - self.pos(),
        {
            let op = match self.peek() {
                Some((Token::Asterisk, _)) => Operator::Asterisk,
                Some((Token::Fslash, _)) => Operator::Fslash,
                Some((Token::Percent, _)) => Operator::Percent,
                _ => {
                    return Ok((expr, expr_pos));
                },
            };
            self.consume()?;
            let (right, right_pos) = self.parse_factor()?;
            expr = Expr::Binary((Box::new(BinaryExpr { left: (expr, expr_pos), op, right: (right, right_pos) }), expr_pos));
        }
    }

    /// A literal, a variable, a call, or an expression in parentheses.
    #[verifier::spinoff_prover]
    pub fn parse_factor(&mut self) -> (r: Result<(Expr, Position), ParserError>)
        requires
            old(self).wf(),
            !old(self).hit_unsupported(),
        ensures
            final(self).stepped(old(self)),
            final(self).hit_unsupported() == (factor_spec(old(self).model(), old(self).pos()) is Stuck),
            final(self).hit_unsupported() ==> r is Err,
            !(factor_spec(old(self).model(), old(self).pos()) is Stuck) ==> factor_spec(old(self).model(), old(self).pos()) == expr_result(r, final(self).pos()),
            r is Ok ==> old(self).pos() < final(self).pos(),
        decreases old(self).model().tokens.len() - old(self).pos(), 1int,
    {
        let (token, pos) = self.consume()?;
        match token {
            Token::BooleanLiteral(b) => Ok((Expr::Boolean((b, pos)), pos)),
            Token::NumberLiteral(num) => Ok((Expr::Number((num, pos)), pos)),
            Token::CharacterLiteral(ch) => Ok((Expr::Character((ch, pos)), pos)),
            Token::StringLiteral(st) => Ok((Expr::String((st, pos)), pos)),
            Token::Identifier(id) => {
                if let Some((Token::LPar, _)) = self.peek() {
                    return self.parse_fn_call((id, pos));
                }
                Ok((Expr::VariableCall((id, pos)), pos))
            },
            Token::LPar => {
                let expr = self.parse_cast()?;
                match self.consume()? {
                    (Token::RPar, _) => Ok(expr),
                    (unexpected, upos) => Err(self.error_here(unexpected, upos)),
                }
            },
            _ => Err(self.error_here(token, pos)),
        }
    }

    /// The arguments of a call of `function_id`, from the `(` after its name.
    #[verifier::spinoff_prover]
    pub fn parse_fn_call(&mut self, function_id: (String, Position)) -> (r: Result<(Expr, Position), ParserError>)
        requires
            old(self).wf(),
            !old(self).hit_unsupported(),
        ensures
            final(self).stepped(old(self)),
            final(self).hit_unsupported() == (fn_call_spec(old(self).model(), old(self).pos(), (function_id.0@, function_id.1)) is Stuck),
            final(self).hit_unsupported() ==> r is Err,
            !(fn_call_spec(old(self).model(), old(self).pos(), (function_id.0@, function_id.1)) is Stuck) ==> fn_call_spec(old(self).model(), old(self).pos(), (function_id.0@, function_id.1))
                == expr_result(r, final(self).pos()),
            r is Ok ==> old(self).pos() < final(self).pos(),
        decreases old(self).model().tokens.len() - old(self).pos(), 0int,
    {
        let ghost pp = self.model();
        let ghost p0 = self.pos();
        let ghost fid = (function_id.0@, function_id.1);
        let (lpar, pos) = self.consume()?;
        if !matches!(lpar, Token::LPar) {
            return Err(self.syntax_error("Expected '(' after function name", pos));
        }
        let mut arguments: Vec<(Expr, Position)> = Vec::new();
        if let Some((Token::RPar, rpos)) = self.peek() {
            self.consume()?;
            assert(args_view(arguments@) =~= Seq::<(SpecExpr, Position)>::empty());
            return Ok((Expr::FunctionCall { function: function_id, arguments }, rpos));
        }
        assert(args_view(arguments@) =~= Seq::<(SpecExpr, Position)>::empty());
        loop
            invariant
                self.wf(),
                self.model() == pp,
                pp == old(self).model(),
                p0 == old(self).pos(),
                p0 < self.pos(),
                fid == (function_id.0@, function_id.1),
                !self.hit_unsupported(),
                fn_call_spec(pp, p0, fid) == call_args(pp, self.pos(), fid, pos, args_view(arguments@)),
            decreases self.model().tokens.len() - self.pos(),
        {
            let ghost before = arguments@;
            let (arg, arg_pos) = self.parse_cast()?;
            arguments.push((arg, arg_pos));
            proof {
                assert(arguments@.drop_last() =~= before);
            }
            match self.peek() {
                Some((Token::Comma, _)) => {
                    self.consume()?;
                },
                Some((Token::RPar, _)) => {
                    self.consume()?;
                    return Ok((Expr::FunctionCall { function: function_id, arguments }, pos));
                },
                Some((_, tok_pos)) => {
                    return Err(self.syntax_error("Expected ',' or ')' in function call", tok_pos));
                },
                None => {
                    return Err(self.missing_token("',' or ')' in function call", arg_pos));
                },
            }
        }
    }
}

impl Parser {
    /// The error for the next token, which is taken.
    fn unexpected(&mut self) -> (r: Result<(Statement, Position), ParserError>)
        requires
            old(self).wf(),
        ensures
            final(self).stepped(old(self)),
            final(self).hit_unsupported() == old(self).hit_unsupported(),
            unexpected_spec::<(SpecStmt, Position)>(old(self).model(), old(self).pos()) == stmt_result(r, final(self).pos()),
            r is Err,
    {
        let (tok, pos) = self.consume()?;
        Err(self.error_here(tok, pos))
    }

    /// An expression standing as a statement, with an optional `;`.
    fn parse_expr_stmt(&mut self) -> (r: Result<(Statement, Position), ParserError>)
        requires
            old(self).wf(),
            !old(self).hit_unsupported(),
        ensures
            final(self).stepped(old(self)),
            final(self).hit_unsupported() == (expr_stmt_spec(old(self).model(), old(self).pos()) is Stuck),
            final(self).hit_unsupported() ==> r is Err,
            !(expr_stmt_spec(old(self).model(), old(self).pos()) is Stuck) ==> expr_stmt_spec(old(self).model(), old(self).pos()) == stmt_result(r, final(self).pos()),
            r is Ok ==> old(self).pos() < final(self).pos(),
    {
        let (expr, pos) = self.parse_cast()?;
        if let Some((Token::Semicolon, _)) = self.peek() {
            self.consume()?;
        }
        Ok((Statement::Expression(ExpressionStatement { expression: expr }), pos))
    }

    /// The statement that the next token starts.
    #[verifier::spinoff_prover]
    #[verifier::rlimit(40)]
    pub fn parse_statement(&mut self) -> (r: Result<(Statement, Position), ParserError>)
        requires
            old(self).wf(),
            !old(self).hit_unsupported(),
        ensures
            final(self).stepped(old(self)),
            final(self).hit_unsupported() == (statement_spec(old(self).model(), old(self).pos()) is Stuck),
            final(self).hit_unsupported() ==> r is Err,
            !(statement_spec(old(self).model(), old(self).pos()) is Stuck) ==> statement_spec(old(self).model(), old(self).pos()) == stmt_result(r, final(self).pos()),
            r is Ok ==> old(self).pos() < final(self).pos(),
        decreases old(self).model().tokens.len() - old(self).pos(), 2int,
    {
        match self.peek() {
            Some((Token::Ret, ret_pos)) => {
                self.consume()?;
                let (expr, expr_pos) = self.parse_cast()?;
                let (next_token, next_pos) = self.consume()?;
                if !matches!(next_token, Token::Semicolon) {
                    return Err(self.syntax_error("Expected ';' after return expression.", next_pos));
                }
                Ok((Statement::Return(Return { value: (expr, expr_pos) }), ret_pos))
            },
            Some((Token::If, _)) => self.parse_if_statement(),
            Some((Token::Else, _)) => self.parse_else_statement(),
            Some((Token::Loop, _)) => self.parse_loop(),
            Some((Token::While, _)) => self.parse_while_loop(),
            Some((Token::Break, pos)) => {
                self.consume()?;
                let (next_token, next_pos) = self.consume()?;
                if !matches!(next_token, Token::Semicolon) {
                    return Err(self.syntax_error("Expected ';' after 'break.", next_pos));
                }
                Ok((Statement::Break(Break), pos))
            },
            Some((Token::Continue, pos)) => {
                self.consume()?;
                let (next_token, next_pos) = self.consume()?;
                if !matches!(next_token, Token::Semicolon) {
                    return Err(self.syntax_error("Expected ';' after 'continue'.", next_pos));
                }
                Ok((Statement::Continue(Continue), pos))
            },
            Some((Token::Let, _)) => self.parse_let_decl(),
            Some((Token::Identifier(_), _)) => match self.peek_second() {
                Some(Token::Equal) => self.parse_assignment(),
                Some(_) => self.parse_expr_stmt(),
                None => self.unexpected(),
            },
            Some((Token::NumberLiteral(_), _)) => self.parse_expr_stmt(),
            Some((Token::LPar, _)) => self.parse_expr_stmt(),
            Some((Token::For, _)) => {
                self.unsupported = true;
                Err(Parser::unsupported_error())
            },
            _ => self.unexpected(),
        }
    }

    /// `if`, a condition and a block.
    pub fn parse_if_statement(&mut self) -> (r: Result<(Statement, Position), ParserError>)
        requires
            old(self).wf(),
            !old(self).hit_unsupported(),
        ensures
            final(self).stepped(old(self)),
            final(self).hit_unsupported() == (if_spec(old(self).model(), old(self).pos()) is Stuck),
            final(self).hit_unsupported() ==> r is Err,
            !(if_spec(old(self).model(), old(self).pos()) is Stuck) ==> if_spec(old(self).model(), old(self).pos()) == stmt_result(r, final(self).pos()),
            r is Ok ==> old(self).pos() < final(self).pos(),
        decreases old(self).model().tokens.len() - old(self).pos(), 1int,
    {
        let (_, if_pos) = self.consume()?;
        let (expr, expr_pos) = self.parse_cast()?;
        let (body, body_pos) = self.parse_body()?;
        Ok((Statement::If(IfStatement { condition: (expr, expr_pos), branch: (body, body_pos) }), if_pos))
    }

    /// `else if`, a condition and a block, or `else` and a block.
    #[verifier::spinoff_prover]
    pub fn parse_else_statement(&mut self) -> (r: Result<(Statement, Position), ParserError>)
        requires
            old(self).wf(),
            !old(self).hit_unsupported(),
        ensures
            final(self).stepped(old(self)),
            final(self).hit_unsupported() == (else_spec(old(self).model(), old(self).pos()) is Stuck),
            final(self).hit_unsupported() ==> r is Err,
            !(else_spec(old(self).model(), old(self).pos()) is Stuck) ==> else_spec(old(self).model(), old(self).pos()) == stmt_result(r, final(self).pos()),
            r is Ok ==> old(self).pos() < final(self).pos(),
        decreases old(self).model().tokens.len() - old(self).pos(), 1int,
    {
        let (_, else_pos) = self.consume()?;
        if let Some((Token::If, _)) = self.peek() {
            let (_, if_pos) = self.consume()?;
            let (expr, expr_pos) = self.parse_cast()?;
            let (body, body_pos) = self.parse_body()?;
            Ok((Statement::Else(ElseStatement { condition: Some((expr, expr_pos)), branch: (body, body_pos) }), if_pos))
        } else {
            let (body, body_pos) = self.parse_body()?;
            Ok((Statement::Else(ElseStatement { condition: None, branch: (body, body_pos) }), else_pos))
        }
    }

    /// `loop` and a block.
    pub fn parse_loop(&mut self) -> (r: Result<(Statement, Position), ParserError>)
        requires
            old(self).wf(),
            !old(self).hit_unsupported(),
        ensures
            final(self).stepped(old(self)),
            final(self).hit_unsupported() == (loop_spec(old(self).model(), old(self).pos()) is Stuck),
            final(self).hit_unsupported() ==> r is Err,
            !(loop_spec(old(self).model(), old(self).pos()) is Stuck) ==> loop_spec(old(self).model(), old(self).pos()) == stmt_result(r, final(self).pos()),
            r is Ok ==> old(self).pos() < final(self).pos(),
        decreases old(self).model().tokens.len() - old(self).pos(), 1int,
    {
        let (_, loop_pos) = self.consume()?;
        let (body, body_pos) = self.parse_body()?;
        Ok((Statement::Loop(Loop { body: (body, body_pos) }), loop_pos))
    }

    /// `while`, a condition and a block.
    pub fn parse_while_loop(&mut self) -> (r: Result<(Statement, Position), ParserError>)
        requires
            old(self).wf(),
            !old(self).hit_unsupported(),
        ensures
            final(self).stepped(old(self)),
            final(self).hit_unsupported() == (while_spec(old(self).model(), old(self).pos()) is Stuck),
            final(self).hit_unsupported() ==> r is Err,
            !(while_spec(old(self).model(), old(self).pos()) is Stuck) ==> while_spec(old(self).model(), old(self).pos()) == stmt_result(r, final(self).pos()),
            r is Ok ==> old(self).pos() < final(self).pos(),
        decreases old(self).model().tokens.len() - old(self).pos(), 1int,
    {
        let (_, while_loop_pos) = self.consume()?;
        let (expr, expr_pos) = self.parse_cast()?;
        let (body, body_pos) = self.parse_body()?;
        Ok((Statement::While(WhileLoop { condition: (expr, expr_pos), body: (body, body_pos) }), while_loop_pos))
    }

    /// `{`, statements, and `}`.
    #[verifier::spinoff_prover]
    pub fn parse_body(&mut self) -> (r: Result<(Body, Position), ParserError>)
        requires
            old(self).wf(),
            !old(self).hit_unsupported(),
        ensures
            final(self).stepped(old(self)),
            final(self).hit_unsupported() == (body_spec(old(self).model(), old(self).pos()) is Stuck),
            final(self).hit_unsupported() ==> r is Err,
            !(body_spec(old(self).model(), old(self).pos()) is Stuck) ==> body_spec(old(self).model(), old(self).pos()) == body_result(r, final(self).pos()),
            r is Ok ==> old(self).pos() < final(self).pos(),
        decreases old(self).model().tokens.len() - old(self).pos(), 0int,
    {
        let ghost pp = self.model();
        let ghost p0 = self.pos();
        let (lcurly, pos) = self.consume()?;
        if !matches!(lcurly, Token::LCurl) {
            return Err(self.missing_token("opening '{'", pos));
        }
        let mut body = Body { children: Vec::new() };
        assert(stmts_view(body.children@) =~= Seq::<(SpecStmt, Position)>::empty());
        loop
            invariant
                self.wf(),
                self.model() == pp,
                pp == old(self).model(),
                p0 == old(self).pos(),
                p0 < self.pos(),
                !self.hit_unsupported(),
                body_spec(pp, p0) == body_stmts(pp, self.pos(), stmts_view(body.children@)),
            ensures
                self.wf(),
                self.model() == pp,
                p0 < self.pos(),
                !self.hit_unsupported(),
                body_spec(pp, p0) == body_close(pp, self.pos(), stmts_view(body.children@)),
            decreases self.model().tokens.len() - self.pos(),
        {
            match self.peek() {
                Some((Token::RCurl, _)) => {
                    break;
                },
                Some(_) => {
                    let ghost before = body.children@;
                    let (stmt, stmt_pos) = self.parse_statement()?;
                    body.children.push((stmt, stmt_pos));
                    proof {
                        assert(body.children@.drop_last() =~= before);
                    }
                },
                None => {
                    break;
                },
            }
        }
        let (rcurly, rpos) = self.consume()?;
        if !matches!(rcurly, Token::RCurl) {
            return Err(self.missing_token("closing '}'", rpos));
        }
        Ok((body, rpos))
    }

    /// After `let`: a declaration with a type, or a walrus declaration.
    pub fn parse_let_decl(&mut self) -> (r: Result<(Statement, Position), ParserError>)
        requires
            old(self).wf(),
            !old(self).hit_unsupported(),
        ensures
            final(self).stepped(old(self)),
            final(self).hit_unsupported() == (let_spec(old(self).model(), old(self).pos()) is Stuck),
            final(self).hit_unsupported() ==> r is Err,
            !(let_spec(old(self).model(), old(self).pos()) is Stuck) ==> let_spec(old(self).model(), old(self).pos()) == stmt_result(r, final(self).pos()),
            r is Ok ==> old(self).pos() < final(self).pos(),
    {
        self.consume()?;
        if let Some((Token::Identifier(_), _)) = self.peek() {
            match self.peek_second() {
                Some(Token::Colon) => {
                    return self.parse_explicit_decl();
                },
                Some(Token::Walrus) => {
                    return self.parse_walrus_decl();
                },
                Some(_) => {
                    self.unsupported = true;
                    return Err(Parser::unsupported_error());
                },
                None => {},
            }
        }
        let (tok, pos) = self.consume()?;
        Err(self.error_here(tok, pos))
    }

    /// A name, `=`, a value and `;`.
    pub fn parse_assignment(&mut self) -> (r: Result<(Statement, Position), ParserError>)
        requires
            old(self).wf(),
            !old(self).hit_unsupported(),
        ensures
            final(self).stepped(old(self)),
            final(self).hit_unsupported() == (assignment_spec(old(self).model(), old(self).pos()) is Stuck),
            final(self).hit_unsupported() ==> r is Err,
            !(assignment_spec(old(self).model(), old(self).pos()) is Stuck) ==> assignment_spec(old(self).model(), old(self).pos()) == stmt_result(r, final(self).pos()),
            r is Ok ==> old(self).pos() < final(self).pos(),
    {
        let (id_token, _) = self.consume()?;
        let lhs = match id_token {
            Token::Identifier(name) => name,
            _ => {
                self.unsupported = true;
                return Err(Parser::unsupported_error());
            },
        };
        self.consume()?;
        let (expr, pos) = self.parse_cast()?;
        let (semi, semi_pos) = self.consume()?;
        if !matches!(semi, Token::Semicolon) {
            return Err(self.syntax_error("Expected ';' after assignment.", semi_pos));
        }
        Ok((Statement::Assignment(Assignment { lhs, value: (expr, pos) }), pos))
    }

    /// `name: type`, then `= value;` or `;`.
    #[verifier::spinoff_prover]
    pub fn parse_explicit_decl(&mut self) -> (r: Result<(Statement, Position), ParserError>)
        requires
            old(self).wf(),
            !old(self).hit_unsupported(),
        ensures
            final(self).stepped(old(self)),
            final(self).hit_unsupported() == (explicit_decl_spec(old(self).model(), old(self).pos()) is Stuck),
            final(self).hit_unsupported() ==> r is Err,
            !(explicit_decl_spec(old(self).model(), old(self).pos()) is Stuck) ==> explicit_decl_spec(old(self).model(), old(self).pos()) == stmt_result(r, final(self).pos()),
            r is Ok ==> old(self).pos() < final(self).pos(),
    {
        let (id_token, id_pos) = self.consume()?;
        let id = match id_token {
            Token::Identifier(name) => name,
            other => {
                let place = match self.peek() {
                    Some((_, p)) => p,
                    None => Position::default(),
                };
                return Err(self.error_here(other, place));
            },
        };
        let (colon, colon_pos) = self.consume()?;
        if !matches!(colon, Token::Colon) {
            return Err(self.syntax_error("Expected ':' after identifier in variable declaration.", colon_pos));
        }
        let (type_token, type_pos) = self.consume()?;
        let var_type = match type_token {
            Token::I32 => Type::basic("i32"),
            Token::Char => Type::basic("char"),
            Token::Str => Type::basic("str"),
            Token::Identifier(type_id) => Type::basic(type_id.as_str()),
            _ => {
                return Err(self.missing_token("variable type", type_pos));
            },
        };
        if let Some((Token::Equal, _)) = self.peek() {
            self.consume()?;
            let (initializer, pos) = self.parse_cast()?;
            let (semi, semi_pos) = self.consume()?;
            if !matches!(semi, Token::Semicolon) {
                return Err(self.syntax_error("Expected ';' after declaration assignment.", semi_pos));
            }
            let decl = VariableDeclaration { id: id.clone(), var_type, position: id_pos };
            let assign = Assignment { lhs: id, value: (initializer, pos) };
            Ok((Statement::DeclarationAssignment(DeclarationAssignment { declaration: (decl, id_pos), assignment: (assign, pos) }), id_pos))
        } else {
            let (semi, semi_pos) = self.consume()?;
            if !matches!(semi, Token::Semicolon) {
                return Err(self.syntax_error("Expected ';' after variable declaration.", semi_pos));
            }
            Ok((Statement::Declaration(VariableDeclaration { id, var_type, position: id_pos }), id_pos))
        }
    }

    /// A name, `:=`, a value and `;`.
    pub fn parse_walrus_decl(&mut self) -> (r: Result<(Statement, Position), ParserError>)
        requires
            old(self).wf(),
            !old(self).hit_unsupported(),
        ensures
            final(self).stepped(old(self)),
            final(self).hit_unsupported() == (walrus_spec(old(self).model(), old(self).pos()) is Stuck),
            final(self).hit_unsupported() ==> r is Err,
            !(walrus_spec(old(self).model(), old(self).pos()) is Stuck) ==> walrus_spec(old(self).model(), old(self).pos()) == stmt_result(r, final(self).pos()),
            r is Ok ==> old(self).pos() < final(self).pos(),
    {
        let (id_token, pos) = self.consume()?;
        let id = match id_token {
            Token::Identifier(name) => name,
            _ => {
                self.unsupported = true;
                return Err(Parser::unsupported_error());
            },
        };
        let (walrus, walrus_pos) = self.consume()?;
        if !matches!(walrus, Token::Walrus) {
            return Err(self.syntax_error("Expected ':=' after identifier for walrus declaration.", walrus_pos));
        }
        let (expr, expr_pos) = self.parse_cast()?;
        let (semi, semi_pos) = self.consume()?;
        if !matches!(semi, Token::Semicolon) {
            return Err(self.syntax_error("Expected ';' after walrus declaration.", semi_pos));
        }
        Ok((Statement::Walrus(WalrusDeclaration { id, _initializer: (expr, expr_pos) }), pos))
    }
}

impl Parser {
    /// `(`, then `)` or parameters `name: type` separated by `,` and closed by `)`.
    #[verifier::spinoff_prover]
    pub fn parse_fn_parameters(&mut self) -> (r: Result<Vec<(Parameter, Position)>, ParserError>)
        requires
            old(self).wf(),
        ensures
            final(self).stepped(old(self)),
            final(self).hit_unsupported() == old(self).hit_unsupported(),
            params_spec(old(self).model(), old(self).pos()) == params_result(r, final(self).pos()),
            r is Ok ==> old(self).pos() < final(self).pos(),
    {
        let ghost pp = self.model();
        let ghost p0 = self.pos();
        let mut parameters: Vec<(Parameter, Position)> = Vec::new();
        let (lpar, pos) = self.consume()?;
        if !matches!(lpar, Token::LPar) {
            return Err(self.missing_token("opening '('", pos));
        }
        if let Some((Token::RPar, _)) = self.peek() {
            self.consume()?;
            assert(params_view(parameters@) =~= Seq::<(SpecParam, Position)>::empty());
            return Ok(parameters);
        }
        assert(params_view(parameters@) =~= Seq::<(SpecParam, Position)>::empty());
        loop
            invariant
                self.wf(),
                self.model() == pp,
                pp == old(self).model(),
                p0 == old(self).pos(),
                p0 < self.pos(),
                params_spec(pp, p0) == params_rest(pp, self.pos(), params_view(parameters@)),
                self.hit_unsupported() == old(self).hit_unsupported(),
            decreases self.model().tokens.len() - self.pos(),
        {
            let (token, name_pos) = self.consume()?;
            let param_name = match token {
                Token::Identifier(name) => name,
                other => {
                    return Err(self.error_here(other, name_pos));
                },
            };
            let (colon, colon_pos) = self.consume()?;
            if !matches!(colon, Token::Colon) {
                return Err(self.syntax_error("Expected ':' after parameter name.", colon_pos));
            }
            let (type_token, type_pos) = self.consume()?;
            let param_type = match type_token {
                Token::I32 => Type::basic("i32"),
                Token::I64 => Type::basic("i64"),
                Token::U32 => Type::basic("u32"),
                Token::U64 => Type::basic("u64"),
                Token::Identifier(id) => Type::Custom(id),
                _ => {
                    return Err(self.missing_token("parameter type", type_pos));
                },
            };
            let ghost before = parameters@;
            parameters.push((Parameter { id: param_name, var_type: param_type, position: name_pos }, name_pos));
            assert(params_view(parameters@) =~= params_view(before).push((parameters@.last().0@, name_pos)));
            match self.peek() {
                Some((Token::Comma, _)) => {
                    self.consume()?;
                },
                Some((Token::RPar, _)) => {
                    self.consume()?;
                    return Ok(parameters);
                },
                Some((next_token, next_pos)) => {
                    return Err(self.error_here(next_token, next_pos));
                },
                None => {
                    return Err(self.missing_token("',' or ')'", type_pos));
                },
            }
        }
    }

    /// `-> i32`, `-> char` or `-> str`; or `;` or `{`, taken as `void`.
    pub fn parse_fn_return_type(&mut self) -> (r: Result<(FunctionReturnType, Position), ParserError>)
        requires
            old(self).wf(),
            !old(self).hit_unsupported(),
        ensures
            final(self).stepped(old(self)),
            final(self).hit_unsupported() == (return_type_spec(old(self).model(), old(self).pos()) is Stuck),
            final(self).hit_unsupported() ==> r is Err,
            !(return_type_spec(old(self).model(), old(self).pos()) is Stuck) ==> return_type_spec(old(self).model(), old(self).pos()) == ret_result(r, final(self).pos()),
            r is Ok ==> old(self).pos() < final(self).pos(),
    {
        match self.consume() {
            Ok((Token::Arrow, _)) => match self.consume() {
                Ok((Token::I32, pos)) => Ok((FunctionReturnType(Type::basic("i32")), pos)),
                Ok((Token::Char, pos)) => Ok((FunctionReturnType(Type::basic("char")), pos)),
                Ok((Token::Str, pos)) => Ok((FunctionReturnType(Type::basic("str")), pos)),
                _ => {
                    self.unsupported = true;
                    Err(Parser::unsupported_error())
                },
            },
            Ok((Token::Semicolon, pos)) => Ok((FunctionReturnType(Type::basic("void")), pos)),
            Ok((Token::LCurl, pos)) => Ok((FunctionReturnType(Type::basic("void")), pos)),
            Ok(_) => {
                self.unsupported = true;
                Err(Parser::unsupported_error())
            },
            Err(e) => Err(e),
        }
    }

    /// After `fn`: the name, the parameters, the return type and the body.
    #[verifier::spinoff_prover]
    pub fn parse_fn(&mut self) -> (r: Result<(FunctionDefinition, Position), ParserError>)
        requires
            old(self).wf(),
            !old(self).hit_unsupported(),
        ensures
            final(self).stepped(old(self)),
            final(self).hit_unsupported() == (fn_spec(old(self).model(), old(self).pos()) is Stuck),
            final(self).hit_unsupported() ==> r is Err,
            !(fn_spec(old(self).model(), old(self).pos()) is Stuck) ==> fn_spec(old(self).model(), old(self).pos()) == fn_result(r, final(self).pos()),
            r is Ok ==> old(self).pos() < final(self).pos(),
    {
        reveal(fn_spec);
        let (func_name, func_pos) = match self.consume() {
            Ok((Token::Identifier(name), pos)) => (name, pos),
            Ok((token, pos)) => {
                return Err(self.error_here(token, pos));
            },
            Err(e) => {
                return Err(e);
            },
        };
        let parameters = self.parse_fn_parameters()?;
        let return_type = self.parse_fn_return_type()?;
        let (body, body_pos) = self.parse_body()?;
        Ok((FunctionDefinition { id: (func_name, func_pos), parameters, return_type, body: (Box::new(body), body_pos) }, func_pos))
    }

    /// The tree of the definitions, and the error of each function that
    /// could not be parsed, in order.
    #[verifier::spinoff_prover]
    pub fn parse(&mut self) -> (r: (Box<Ast>, Vec<ParserError>))
        requires
            old(self).wf(),
            !old(self).hit_unsupported(),
        ensures
            final(self).hit_unsupported() == (parse_spec(old(self).model(), old(self).pos(), Seq::empty(), Seq::empty()) is None),
            !final(self).hit_unsupported() ==> parse_spec(old(self).model(), old(self).pos(), Seq::empty(), Seq::empty())
                == Some((r.0@, errors_view(r.1@))),
    {
        let ghost pp = self.model();
        let ghost p0 = self.pos();
        let mut ast = Box::new(Ast::new());
        let mut errors: Vec<ParserError> = Vec::new();
        assert(stmts_view(ast.children@) =~= Seq::<(SpecStmt, Position)>::empty());
        assert(errors_view(errors@) =~= Seq::<SpecParserError>::empty());
        loop
            invariant
                self.wf(),
                self.model() == pp,
                pp == old(self).model(),
                p0 == old(self).pos(),
                !self.hit_unsupported(),
                parse_spec(pp, p0, Seq::empty(), Seq::empty())
                    == parse_spec(pp, self.pos(), stmts_view(ast.children@), errors_view(errors@)),
            decreases self.model().tokens.len() - self.pos(),
        {
            let ghost p = self.pos();
            let ghost defs = stmts_view(ast.children@);
            let ghost errs = errors_view(errors@);
            let (token, _) = match self.consume() {
                Ok(t) => t,
                Err(_) => {
                    return (ast, errors);
                },
            };
            match token {
                Token::Fn => match self.parse_fn() {
                    Ok((func, pos)) => {
                        let ghost before = ast.children@;
                        let ghost fv = func@;
                        assert(fn_spec(pp, p + 1) == Parsed::Done((fv, pos), self.pos()));
                        assert(parse_spec(pp, p, defs, errs) == parse_spec(pp, self.pos(), defs.push((SpecStmt::Function(fv), pos)), errs));
                        ast.children.push((Statement::Function(func), pos));
                        proof {
                            assert(ast.children@.drop_last() =~= before);
                            assert(ast.children@.last().0@ == SpecStmt::Function(fv));
                            assert(stmts_view(ast.children@) == stmts_view(before).push((SpecStmt::Function(fv), pos)));
                        }
                    },
                    Err(e) => {
                        if self.unsupported {
                            return (ast, errors);
                        }
                        let ghost before = errors@;
                        errors.push(e);
                        proof {
                            assert(errors_view(errors@) =~= errors_view(before).push(errors@.last()@));
                        }
                    },
                },
                _ => {
                    self.unsupported = true;
                    return (ast, errors);
                },
            }
        }
    }
}

/// Taking a token from a well-formed parser at index `i`: before the end-of-file
/// token it gives token `i` and moves to `i + 1`; at the end-of-file token it is
/// refused with that token and its position, and the index stays; past the last
/// token it is refused with a generic error that says the tokens ran out, and
/// the index stays.
pub proof fn law_consume(p: Parser)
    requires
        p.wf(),
    ensures
        ({
            let i = p.pos();
            let ts = p.model().tokens;
            &&& 0 <= i <= ts.len()
            &&& (i < ts.len() && !(ts[i].0 is Eof)) ==> consume_spec(p.model(), i) == Parsed::Done(ts[i], i + 1)
            &&& (i < ts.len() && ts[i].0 is Eof) ==> consume_spec(p.model(), i) == Parsed::<(SpecToken, Position)>::Failed(
                SpecParserError::UnexpectedToken { token: SpecToken::Eof, file: p.model().file, position: ts[i].1 },
                i,
            )
            &&& i == ts.len() ==> consume_spec(p.model(), i) == Parsed::<(SpecToken, Position)>::Failed(
                SpecParserError::GenericError(end_of_tokens()),
                i,
            )
        }),
{
    p.lemma_position_in_range();
}

/// A binary node joins `left` and `right` with the operator its token stands
/// for (`+` addition, `-` subtraction, `*` multiplication, `/` division, `%`
/// remainder): in a term, a `*`, `/` or `%` between the factors read so far and
/// the next factor makes a node with that operator, and the term goes on from
/// it; in an expression, a `+` or `-` does the same with the next term. No
/// other token continues a term or an expression.
pub proof fn law_operator_of_token(pp: SpecParser, p: int, t: SpecToken, tpos: Position, left: (SpecExpr, Position))
    requires
        0 <= p < pp.tokens.len(),
        pp.tokens[p] == (t, tpos),
    ensures
        t is Asterisk ==> match factor_spec(pp, p + 1) {
            Parsed::Done(right, q) => p < q <= pp.tokens.len() ==> term_rest(pp, p, left) == term_rest(
                pp,
                q,
                (SpecExpr::Binary(Box::new(SpecBinaryExpr { op: Operator::Asterisk, left, right }), left.1), left.1),
            ),
            _ => true,
        },
        t is Fslash ==> match factor_spec(pp, p + 1) {
            Parsed::Done(right, q) => p < q <= pp.tokens.len() ==> term_rest(pp, p, left) == term_rest(
                pp,
                q,
                (SpecExpr::Binary(Box::new(SpecBinaryExpr { op: Operator::Fslash, left, right }), left.1), left.1),
            ),
            _ => true,
        },
        t is Percent ==> match factor_spec(pp, p + 1) {
            Parsed::Done(right, q) => p < q <= pp.tokens.len() ==> term_rest(pp, p, left) == term_rest(
                pp,
                q,
                (SpecExpr::Binary(Box::new(SpecBinaryExpr { op: Operator::Percent, left, right }), left.1), left.1),
            ),
            _ => true,
        },
        t is Plus ==> match term_spec(pp, p + 1) {
            Parsed::Done(right, q) => p < q <= pp.tokens.len() ==> expression_rest(pp, p, left) == expression_rest(
                pp,
                q,
                (SpecExpr::Binary(Box::new(SpecBinaryExpr { op: Operator::Plus, left, right }), left.1), left.1),
            ),
            _ => true,
        },
        t is Minus ==> match term_spec(pp, p + 1) {
            Parsed::Done(right, q) => p < q <= pp.tokens.len() ==> expression_rest(pp, p, left) == expression_rest(
                pp,
                q,
                (SpecExpr::Binary(Box::new(SpecBinaryExpr { op: Operator::Minus, left, right }), left.1), left.1),
            ),
            _ => true,
        },
        !(t is Asterisk || t is Fslash || t is Percent) ==> term_rest(pp, p, left) == Parsed::Done(left, p),
        !(t is Plus || t is Minus) ==> expression_rest(pp, p, left) == Parsed::Done(left, p),
{
}

/// A type word means the same type wherever it is read: the token the lexer
/// makes of `i32`, `i64`, `u32`, `u64`, `usize`, `f32`, `f64` or `char` is
/// named by that word again when a cast reads it, and is parsed as the
/// primitive type of that name, the one `Type::basic` gives for the word where
/// it knows it; an identifier names the custom type of its text.
pub proof fn law_type_words(id: Seq<char>)
    ensures
        type_name_of(keyword(seq!['i', '3', '2'])) == Some(seq!['i', '3', '2']),
        type_of_token(keyword(seq!['i', '3', '2'])) == Some(SpecType::Primitive(PrimitiveType::I32)),
        type_name_of(keyword(seq!['i', '6', '4'])) == Some(seq!['i', '6', '4']),
        type_of_token(keyword(seq!['i', '6', '4'])) == Some(SpecType::Primitive(PrimitiveType::I64)),
        type_name_of(keyword(seq!['u', '3', '2'])) == Some(seq!['u', '3', '2']),
        type_of_token(keyword(seq!['u', '3', '2'])) == Some(SpecType::Primitive(PrimitiveType::U32)),
        type_name_of(keyword(seq!['u', '6', '4'])) == Some(seq!['u', '6', '4']),
        type_of_token(keyword(seq!['u', '6', '4'])) == Some(SpecType::Primitive(PrimitiveType::U64)),
        type_name_of(keyword(seq!['u', 's', 'i', 'z', 'e'])) == Some(seq!['u', 's', 'i', 'z', 'e']),
        type_of_token(keyword(seq!['u', 's', 'i', 'z', 'e'])) == Some(SpecType::Primitive(PrimitiveType::Usize)),
        type_name_of(keyword(seq!['f', '3', '2'])) == Some(seq!['f', '3', '2']),
        type_of_token(keyword(seq!['f', '3', '2'])) == Some(SpecType::Primitive(PrimitiveType::F32)),
        type_name_of(keyword(seq!['f', '6', '4'])) == Some(seq!['f', '6', '4']),
        type_of_token(keyword(seq!['f', '6', '4'])) == Some(SpecType::Primitive(PrimitiveType::F64)),
        type_name_of(keyword(seq!['c', 'h', 'a', 'r'])) == Some(seq!['c', 'h', 'a', 'r']),
        type_of_token(keyword(seq!['c', 'h', 'a', 'r'])) == Some(SpecType::Primitive(PrimitiveType::Char)),
        type_of_token(keyword(seq!['c', 'h', 'a', 'r'])) == Some(basic_type(seq!['c', 'h', 'a', 'r'])),
        type_of_token(keyword(seq!['i', '3', '2'])) == Some(basic_type(seq!['i', '3', '2'])),
        type_of_token(keyword(seq!['i', '6', '4'])) == Some(basic_type(seq!['i', '6', '4'])),
        type_of_token(keyword(seq!['u', '3', '2'])) == Some(basic_type(seq!['u', '3', '2'])),
        type_of_token(keyword(seq!['u', '6', '4'])) == Some(basic_type(seq!['u', '6', '4'])),
        type_of_token(SpecToken::Identifier(id)) == Some(SpecType::Custom(id)),
        type_name_of(SpecToken::Identifier(id)) == Some(id),
{
    reveal_strlit("i32");
    reveal_strlit("i64");
    reveal_strlit("u32");
    reveal_strlit("u64");
    reveal_strlit("usize");
    reveal_strlit("f32");
    reveal_strlit("f64");
    reveal_strlit("char");
}

} // verus!
