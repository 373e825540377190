//! The lexer: turns source text into a sequence of tokens with positions.
//!
//! The token stream is specified by `scan`, which finds the next token from a
//! given offset into the source characters, and `tokens_from`, which repeats it
//! to the end of the input.
use vstd::prelude::*;

use crate::front::token::{Position, SpecToken, Token};
use crate::text::{chars_of, is_digit, string_from_chars};

verus! {

// ---------------------------------------------------------------------------
// Positions
// ---------------------------------------------------------------------------

/// The line reached after reading the first `n` characters of `s`, from line 1.
pub open spec fn line_at(s: Seq<char>, n: int) -> nat
    decreases n,
{
    if n <= 0 {
        1
    } else if s[n - 1] == '\n' {
        line_at(s, n - 1) + 1
    } else {
        line_at(s, n - 1)
    }
}

/// The column reached after reading the first `n` characters of `s`: it starts
/// at 1, grows by one per character and falls back to 1 after a newline.
pub open spec fn col_at(s: Seq<char>, n: int) -> nat
    decreases n,
{
    if n <= 0 {
        1
    } else if s[n - 1] == '\n' {
        1
    } else {
        col_at(s, n - 1) + 1
    }
}

/// The position reached after reading the first `n` characters of `s`.
pub open spec fn pos_at(s: Seq<char>, n: int) -> Position {
    Position { line: line_at(s, n) as usize, index: col_at(s, n) as usize }
}

/// The position after reading `ch` at position `p`: the next line at column 1
/// after a newline, else the next column of the same line.
pub open spec fn step_position(p: Position, ch: char) -> Position {
    if ch == '\n' {
        Position { line: (p.line + 1) as usize, index: 1 }
    } else {
        Position { line: p.line, index: (p.index + 1) as usize }
    }
}

pub proof fn lemma_pos_bounds(s: Seq<char>, n: int)
    requires
        0 <= n,
    ensures
        1 <= line_at(s, n) <= n + 1,
        1 <= col_at(s, n) <= n + 1,
    decreases n,
{
    if n > 0 {
        lemma_pos_bounds(s, n - 1);
    }
}

// ---------------------------------------------------------------------------
// Character classes
// ---------------------------------------------------------------------------

pub open spec fn is_space(c: char) -> bool {
    c == ' ' || c == '\t' || c == '\r' || c == '\n'
}

pub open spec fn is_ident_start(c: char) -> bool {
    ('a' <= c && c <= 'z') || ('A' <= c && c <= 'Z') || c == '_'
}

pub open spec fn is_ident_char(c: char) -> bool {
    is_ident_start(c) || is_digit(c)
}

/// The character that an escape `\c` stands for in a string or character literal.
pub open spec fn escaped(c: char) -> char {
    if c == 'n' {
        '\n'
    } else if c == 't' {
        '\t'
    } else if c == 'r' {
        '\r'
    } else {
        c
    }
}

// ---------------------------------------------------------------------------
// Pieces of the token grammar
// ---------------------------------------------------------------------------

/// Where a (possibly nested) block comment ends: the offset just past the `*/`
/// that closes it, or the end of the input if it is never closed. `i` is just
/// past the opening `/*` and `depth` the number of comments still open.
pub open spec fn block_close(s: Seq<char>, i: int, depth: nat) -> int
    decreases s.len() - i,
{
    if i >= s.len() {
        s.len() as int
    } else if s[i] == '/' && i + 1 < s.len() && s[i + 1] == '*' {
        block_close(s, i + 2, depth + 1)
    } else if s[i] == '*' && i + 1 < s.len() && s[i + 1] == '/' {
        if depth <= 1 {
            i + 2
        } else {
            block_close(s, i + 2, (depth - 1) as nat)
        }
    } else {
        block_close(s, i + 1, depth)
    }
}

/// Whether the block comment open at `i` (with `depth` levels) is closed before the end.
pub open spec fn block_closed(s: Seq<char>, i: int, depth: nat) -> bool
    decreases s.len() - i,
{
    if i >= s.len() {
        false
    } else if s[i] == '/' && i + 1 < s.len() && s[i + 1] == '*' {
        block_closed(s, i + 2, depth + 1)
    } else if s[i] == '*' && i + 1 < s.len() && s[i + 1] == '/' {
        if depth <= 1 {
            true
        } else {
            block_closed(s, i + 2, (depth - 1) as nat)
        }
    } else {
        block_closed(s, i + 1, depth)
    }
}

/// Whether skipping whitespace and comments from offset `i` runs into a block
/// comment that is never closed (such a comment takes the rest of the input).
pub open spec fn meets_unclosed_comment(s: Seq<char>, i: int) -> bool
    decreases s.len() - i,
{
    if i < 0 || i >= s.len() {
        false
    } else if is_space(s[i]) {
        meets_unclosed_comment(s, i + 1)
    } else if s[i] == '/' && i + 1 < s.len() && s[i + 1] == '/' {
        proof {
            lemma_line_end_bounds(s, i + 2);
        }
        meets_unclosed_comment(s, line_end(s, i + 2))
    } else if s[i] == '/' && i + 1 < s.len() && s[i + 1] == '*' {
        if block_closed(s, i + 2, 1) {
            proof {
                lemma_block_close_bounds(s, i + 2, 1);
            }
            meets_unclosed_comment(s, block_close(s, i + 2, 1))
        } else {
            true
        }
    } else {
        false
    }
}

/// The offset of the first newline at or after `i`, or the end of the input.
pub open spec fn line_end(s: Seq<char>, i: int) -> int
    decreases s.len() - i,
{
    if i >= s.len() {
        s.len() as int
    } else if s[i] == '\n' {
        i
    } else {
        line_end(s, i + 1)
    }
}

/// The end of a number literal: digits, with at most one `.` that is not
/// followed by a second `.`.
pub open spec fn number_end(s: Seq<char>, i: int, has_decimal: bool) -> int
    decreases s.len() - i,
{
    if i >= s.len() {
        s.len() as int
    } else if is_digit(s[i]) {
        number_end(s, i + 1, has_decimal)
    } else if s[i] == '.' {
        if has_decimal || (i + 1 < s.len() && s[i + 1] == '.') {
            i
        } else {
            number_end(s, i + 1, true)
        }
    } else {
        i
    }
}

/// The end of an identifier or keyword: letters, digits and underscores.
pub open spec fn ident_end(s: Seq<char>, i: int) -> int
    decreases s.len() - i,
{
    if i < s.len() && is_ident_char(s[i]) {
        ident_end(s, i + 1)
    } else {
        if i < s.len() { i } else { s.len() as int }
    }
}

/// The contents of a string literal whose opening quote is just before `i`,
/// with escapes resolved, and the offset just past it (past the closing quote,
/// or the end of the input if there is none).
pub open spec fn string_body(s: Seq<char>, i: int) -> (Seq<char>, int)
    decreases s.len() - i,
{
    if i >= s.len() {
        (Seq::empty(), s.len() as int)
    } else if s[i] == '"' {
        (Seq::empty(), i + 1)
    } else if s[i] == '\\' {
        if i + 1 < s.len() {
            let rest = string_body(s, i + 2);
            (seq![escaped(s[i + 1])] + rest.0, rest.1)
        } else {
            (Seq::empty(), i + 1)
        }
    } else {
        let rest = string_body(s, i + 1);
        (seq![s[i]] + rest.0, rest.1)
    }
}

/// The character of a character literal whose opening quote is just before `i`
/// (`'\0'` when there is none), and the offset just past the literal.
pub open spec fn char_body(s: Seq<char>, i: int) -> (char, int) {
    let (value, k) = if i < s.len() {
        if s[i] == '\\' {
            if i + 1 < s.len() {
                (escaped(s[i + 1]), i + 2)
            } else {
                ('\0', i + 1)
            }
        } else {
            (s[i], i + 1)
        }
    } else {
        ('\0', i)
    };
    if k < s.len() && s[k] == '\'' {
        (value, k + 1)
    } else {
        (value, k)
    }
}

/// The token that a word of letters, digits and underscores stands for.
pub open spec fn keyword(w: Seq<char>) -> SpecToken {
    if w == seq!['f', 'n'] {
        SpecToken::Fn
    } else if w == seq!['r', 'e', 't'] {
        SpecToken::Ret
    } else if w == seq!['s', 't', 'r', 'u', 'c', 't'] {
        SpecToken::Struct
    } else if w == seq!['p', 'u', 'b'] {
        SpecToken::Pub
    } else if w == seq!['e', 'n', 'u', 'm'] {
        SpecToken::Enum
    } else if w == seq!['i', 'm', 'p', 'l'] {
        SpecToken::Impl
    } else if w == seq!['i', 'f'] {
        SpecToken::If
    } else if w == seq!['e', 'l', 's', 'e'] {
        SpecToken::Else
    } else if w == seq!['f', 'o', 'r'] {
        SpecToken::For
    } else if w == seq!['w', 'h', 'i', 'l', 'e'] {
        SpecToken::While
    } else if w == seq!['i', '3', '2'] {
        SpecToken::I32
    } else if w == seq!['i', '6', '4'] {
        SpecToken::I64
    } else if w == seq!['u', '3', '2'] {
        SpecToken::U32
    } else if w == seq!['u', '6', '4'] {
        SpecToken::U64
    } else if w == seq!['u', 's', 'i', 'z', 'e'] {
        SpecToken::Usize
    } else if w == seq!['f', '3', '2'] {
        SpecToken::F32
    } else if w == seq!['f', '6', '4'] {
        SpecToken::F64
    } else if w == seq!['c', 'h', 'a', 'r'] {
        SpecToken::Char
    } else {
        SpecToken::Identifier(w)
    }
}

/// The punctuation token of a single character that stands for itself, if any.
pub open spec fn single_char_token(c: char) -> Option<SpecToken> {
    if c == '+' {
        Some(SpecToken::Plus)
    } else if c == '*' {
        Some(SpecToken::Asterisk)
    } else if c == '%' {
        Some(SpecToken::Percent)
    } else if c == '=' {
        Some(SpecToken::Equal)
    } else if c == '(' {
        Some(SpecToken::LPar)
    } else if c == ')' {
        Some(SpecToken::RPar)
    } else if c == '{' {
        Some(SpecToken::LCurl)
    } else if c == '}' {
        Some(SpecToken::RCurl)
    } else if c == ',' {
        Some(SpecToken::Comma)
    } else if c == ';' {
        Some(SpecToken::Semicolon)
    } else {
        None
    }
}

pub proof fn lemma_block_close_bounds(s: Seq<char>, i: int, depth: nat)
    requires
        0 <= i <= s.len(),
    ensures
        i <= block_close(s, i, depth) <= s.len(),
    decreases s.len() - i,
{
    if i < s.len() {
        if s[i] == '/' && i + 1 < s.len() && s[i + 1] == '*' {
            lemma_block_close_bounds(s, i + 2, depth + 1);
        } else if s[i] == '*' && i + 1 < s.len() && s[i + 1] == '/' {
            if depth > 1 {
                lemma_block_close_bounds(s, i + 2, (depth - 1) as nat);
            }
        } else {
            lemma_block_close_bounds(s, i + 1, depth);
        }
    }
}

pub proof fn lemma_line_end_bounds(s: Seq<char>, i: int)
    requires
        0 <= i <= s.len(),
    ensures
        i <= line_end(s, i) <= s.len(),
    decreases s.len() - i,
{
    if i < s.len() && s[i] != '\n' {
        lemma_line_end_bounds(s, i + 1);
    }
}

pub proof fn lemma_number_end_bounds(s: Seq<char>, i: int, d: bool)
    requires
        0 <= i <= s.len(),
    ensures
        i <= number_end(s, i, d) <= s.len(),
    decreases s.len() - i,
{
    if i < s.len() {
        if is_digit(s[i]) {
            lemma_number_end_bounds(s, i + 1, d);
        } else if s[i] == '.' && !(d || (i + 1 < s.len() && s[i + 1] == '.')) {
            lemma_number_end_bounds(s, i + 1, true);
        }
    }
}

pub proof fn lemma_ident_end_bounds(s: Seq<char>, i: int)
    requires
        0 <= i <= s.len(),
    ensures
        i <= ident_end(s, i) <= s.len(),
    decreases s.len() - i,
{
    if i < s.len() && is_ident_char(s[i]) {
        lemma_ident_end_bounds(s, i + 1);
    }
}

pub proof fn lemma_string_body_bounds(s: Seq<char>, i: int)
    requires
        0 <= i <= s.len(),
    ensures
        i <= string_body(s, i).1 <= s.len(),
    decreases s.len() - i,
{
    if i < s.len() {
        if s[i] == '\\' && i + 1 < s.len() {
            lemma_string_body_bounds(s, i + 2);
        } else if s[i] != '"' && s[i] != '\\' {
            lemma_string_body_bounds(s, i + 1);
        }
    }
}

// ---------------------------------------------------------------------------
// The token stream
// ---------------------------------------------------------------------------

/// The next token at or after offset `i` of `s`, skipping whitespace and
/// comments: the token, the offset whose position the token is reported at,
/// and the offset just past the token. `None` at the end of the input.
///
/// Identifiers, keywords, numbers and the two-character operators (`->`, `&&`,
/// `|&`, `:=`) and their one-character prefixes (`-`, `&`, `|`, `:`) are reported
/// at their first character; every other token at the offset just past it.
pub open spec fn scan(s: Seq<char>, i: int) -> Option<(SpecToken, int, int)>
    decreases s.len() - i,
{
    if i < 0 || i >= s.len() {
        None
    } else {
        let c = s[i];
        let next_is = |d: char| i + 1 < s.len() && s[i + 1] == d;
        if is_space(c) {
            scan(s, i + 1)
        } else if c == '"' {
            let (body, e) = string_body(s, i + 1);
            Some((SpecToken::StringLiteral(body), e, e))
        } else if c == '\'' {
            let (v, e) = char_body(s, i + 1);
            Some((SpecToken::CharacterLiteral(seq![v]), e, e))
        } else if is_digit(c) {
            let e = number_end(s, i, false);
            Some((SpecToken::NumberLiteral(s.subrange(i, e)), i, e))
        } else if is_ident_start(c) {
            let e = ident_end(s, i);
            Some((keyword(s.subrange(i, e)), i, e))
        } else if c == '-' {
            if next_is('>') {
                Some((SpecToken::Arrow, i, i + 2))
            } else {
                Some((SpecToken::Minus, i, i + 1))
            }
        } else if c == '&' {
            if next_is('&') {
                Some((SpecToken::And, i, i + 2))
            } else {
                Some((SpecToken::Ampersand, i, i + 1))
            }
        } else if c == '|' {
            if next_is('&') {
                Some((SpecToken::Or, i, i + 2))
            } else {
                Some((SpecToken::Pipe, i, i + 1))
            }
        } else if c == ':' {
            if next_is('=') {
                Some((SpecToken::Walrus, i, i + 2))
            } else {
                Some((SpecToken::Colon, i, i + 1))
            }
        } else if c == '/' {
            if next_is('/') {
                proof {
                    lemma_line_end_bounds(s, i + 2);
                }
                scan(s, line_end(s, i + 2))
            } else if next_is('*') {
                proof {
                    lemma_block_close_bounds(s, i + 2, 1);
                }
                scan(s, block_close(s, i + 2, 1))
            } else {
                Some((SpecToken::Fslash, i + 1, i + 1))
            }
        } else {
            match single_char_token(c) {
                Some(t) => Some((t, i + 1, i + 1)),
                None => Some((SpecToken::Unknown(c), i + 1, i + 1)),
            }
        }
    }
}

pub proof fn lemma_scan_bounds(s: Seq<char>, i: int)
    requires
        0 <= i <= s.len(),
    ensures
        scan(s, i) matches Some((_, p, e)) ==> i < e <= s.len() && i <= p <= e,
    decreases s.len() - i,
{
    if i < s.len() {
        let c = s[i];
        if is_space(c) {
            lemma_scan_bounds(s, i + 1);
        } else if c == '"' {
            lemma_string_body_bounds(s, i + 1);
        } else if c == '\'' {
        } else if is_digit(c) {
            lemma_number_end_bounds(s, i, false);
            lemma_number_end_digit(s, i);
        } else if is_ident_start(c) {
            lemma_ident_end_bounds(s, i + 1);
        } else if c == '/' {
            if i + 1 < s.len() && s[i + 1] == '/' {
                lemma_line_end_bounds(s, i + 2);
                lemma_scan_bounds(s, line_end(s, i + 2));
            } else if i + 1 < s.len() && s[i + 1] == '*' {
                lemma_block_close_bounds(s, i + 2, 1);
                lemma_scan_bounds(s, block_close(s, i + 2, 1));
            }
        }
    }
}

proof fn lemma_number_end_digit(s: Seq<char>, i: int)
    requires
        0 <= i < s.len(),
        is_digit(s[i]),
    ensures
        number_end(s, i, false) > i,
{
    lemma_number_end_bounds(s, i + 1, false);
}

/// All the tokens from offset `i` to the end of the input, with their positions.
pub open spec fn tokens_from(s: Seq<char>, i: int) -> Seq<(SpecToken, Position)>
    decreases s.len() - i,
{
    if i < 0 || i > s.len() {
        Seq::empty()
    } else {
        match scan(s, i) {
            None => Seq::empty(),
            Some((t, p, e)) => {
                proof {
                    lemma_scan_bounds(s, i);
                }
                seq![(t, pos_at(s, p))] + tokens_from(s, e)
            },
        }
    }
}

/// The full output of the lexer from offset `i`: the tokens, then `Eof` at
/// column 1 of the line after the last token's line.
pub open spec fn lex_spec(s: Seq<char>, i: int) -> Seq<(SpecToken, Position)> {
    let ts = tokens_from(s, i);
    ts.push((SpecToken::Eof, Position { line: (ts.last().1.line + 1) as usize, index: 1 }))
}

/// The mathematical value of a lexer output.
pub open spec fn tokens_view(v: Seq<(Token, Position)>) -> Seq<(SpecToken, Position)> {
    v.map_values(|p: (Token, Position)| (p.0@, p.1))
}

// ---------------------------------------------------------------------------
// The lexer
// ---------------------------------------------------------------------------

/// A lexer over the characters of a source text.
pub struct Lexer {
    position: Position,
    input: Vec<char>,
    cursor: usize,
    unclosed_comment: bool,
}

impl Lexer {
    /// The source characters.
    pub closed spec fn source(&self) -> Seq<char> {
        self.input@
    }

    /// How many source characters have been read.
    pub closed spec fn offset(&self) -> int {
        self.cursor as int
    }

    /// Whether a block comment that is never closed has been skipped.
    pub closed spec fn met_unclosed_comment(&self) -> bool {
        self.unclosed_comment
    }

    /// The lexer's invariant: the offset lies in the input, the position is the
    /// one reached after the characters read, and lines and columns cannot overflow.
    pub closed spec fn wf(&self) -> bool {
        &&& self.cursor <= self.input.len()
        &&& self.input.len() + 2 < usize::MAX
        &&& self.position == pos_at(self.input@, self.cursor as int)
    }

    /// A lexer at the start of `input`, at line 1, column 1.
    pub fn new(input: &str) -> (l: Self)
        requires
            input@.len() + 2 < usize::MAX,
        ensures
            l.wf(),
            l.source() == input@,
            l.offset() == 0,
            !l.met_unclosed_comment(),
    {
        let chars = chars_of(input);
        Lexer { position: Position { line: 1, index: 1 }, input: chars, cursor: 0, unclosed_comment: false }
    }

    /// Whether a block comment that is never closed has been skipped, which
    /// is an error in the source.
    pub fn has_unclosed_comment(&self) -> (r: bool)
        ensures
            r == self.met_unclosed_comment(),
    {
        self.unclosed_comment
    }

    /// Moves the position past `ch`: to the next line on a newline, else one column on.
    fn update_position(&mut self, ch: char)
        requires
            old(self).position.line < usize::MAX,
            old(self).position.index < usize::MAX,
        ensures
            final(self).input == old(self).input,
            final(self).unclosed_comment == old(self).unclosed_comment,
            final(self).cursor == old(self).cursor,
            final(self).position == step_position(old(self).position, ch),
            ch == '\n' ==> final(self).position == (Position { line: (old(self).position.line + 1) as usize, index: 1 }),
            ch != '\n' ==> final(self).position == (Position { line: old(self).position.line, index: (old(self).position.index + 1) as usize }),
    {
        if ch == '\n' {
            self.position.line += 1;
            self.position.index = 1;
        } else {
            self.position.index += 1;
        }
    }

    /// Reads one character.
    fn bump(&mut self)
        requires
            old(self).wf(),
            old(self).cursor < old(self).input.len(),
        ensures
            final(self).wf(),
            final(self).input == old(self).input,
            final(self).unclosed_comment == old(self).unclosed_comment,
            final(self).cursor == old(self).cursor + 1,
    {
        let ch = self.input[self.cursor];
        proof {
            lemma_pos_bounds(self.input@, self.cursor as int);
        }
        self.cursor += 1;
        self.update_position(ch);
    }

    fn peek(&self) -> (r: Option<char>)
        ensures
            self.cursor < self.input.len() ==> r == Some(self.input@[self.cursor as int]),
            self.cursor >= self.input.len() ==> r is None,
    {
        if self.cursor < self.input.len() {
            Some(self.input[self.cursor])
        } else {
            None
        }
    }

    /// Skips a nested block comment whose opening `/*` has been read.
    /// Returns whether the comment was closed before the end of the input.
    fn skip_multiline_comment(&mut self) -> (closed: bool)
        requires
            old(self).wf(),
        ensures
            final(self).wf(),
            final(self).input == old(self).input,
            final(self).unclosed_comment == old(self).unclosed_comment,
            final(self).cursor == block_close(old(self).input@, old(self).cursor as int, 1),
            closed == block_closed(old(self).input@, old(self).cursor as int, 1),
    {
        let ghost s = self.input@;
        let ghost start = self.cursor as int;
        let mut depth: usize = 1;
        while self.cursor < self.input.len()
            invariant
                self.wf(),
                self.input@ == s,
                s == old(self).input@,
                start == old(self).cursor,
                self.input == old(self).input,
                self.unclosed_comment == old(self).unclosed_comment,
                1 <= depth <= self.cursor + 1,
                block_close(s, self.cursor as int, depth as nat) == block_close(s, start, 1),
                block_closed(s, self.cursor as int, depth as nat) == block_closed(s, start, 1),
            decreases self.input.len() - self.cursor,
        {
            let ch = self.input[self.cursor];
            self.bump();
            if ch == '/' {
                if let Some(next_ch) = self.peek() {
                    if next_ch == '*' {
                        self.bump();
                        depth += 1;
                    }
                }
            } else if ch == '*' {
                if let Some(next_ch) = self.peek() {
                    if next_ch == '/' {
                        self.bump();
                        if depth == 1 {
                            return true;
                        }
                        depth -= 1;
                    }
                }
            }
        }
        false
    }

    /// Reads a number literal: digits with at most one `.` not followed by another `.`.
    fn number(&mut self) -> (t: Token)
        requires
            old(self).wf(),
        ensures
            final(self).wf(),
            final(self).input == old(self).input,
            final(self).unclosed_comment == old(self).unclosed_comment,
            final(self).cursor == number_end(old(self).input@, old(self).cursor as int, false),
            t@ == SpecToken::NumberLiteral(
                old(self).input@.subrange(old(self).cursor as int, final(self).cursor as int),
            ),
    {
        let ghost s = self.input@;
        let start = self.cursor;
        let mut num: Vec<char> = Vec::new();
        let mut has_decimal = false;
        while self.cursor < self.input.len()
            invariant_except_break
                number_end(s, self.cursor as int, has_decimal) == number_end(s, start as int, false),
            invariant
                self.wf(),
                self.input@ == s,
                s == old(self).input@,
                start == old(self).cursor,
                self.input == old(self).input,
                self.unclosed_comment == old(self).unclosed_comment,
                start <= self.cursor,
                num@ == s.subrange(start as int, self.cursor as int),
            ensures
                self.cursor == number_end(s, start as int, false),
            decreases self.input.len() - self.cursor,
        {
            let ch = self.input[self.cursor];
            if '0' <= ch && ch <= '9' {
                num.push(ch);
                self.bump();
            } else if ch == '.' {
                let twice = self.cursor + 1 < self.input.len() && self.input[self.cursor + 1] == '.';
                if has_decimal || twice {
                    break;
                }
                has_decimal = true;
                num.push(ch);
                self.bump();
            } else {
                break;
            }
            assert(num@ =~= s.subrange(start as int, self.cursor as int));
        }
        Token::NumberLiteral(string_from_chars(&num))
    }

    /// Reads an identifier or keyword.
    fn identifier_or_keyword(&mut self) -> (t: Token)
        requires
            old(self).wf(),
        ensures
            final(self).wf(),
            final(self).input == old(self).input,
            final(self).unclosed_comment == old(self).unclosed_comment,
            final(self).cursor == ident_end(old(self).input@, old(self).cursor as int),
            t@ == keyword(old(self).input@.subrange(old(self).cursor as int, final(self).cursor as int)),
    {
        let ghost s = self.input@;
        let start = self.cursor;
        let mut ident: Vec<char> = Vec::new();
        while self.cursor < self.input.len()
            invariant_except_break
                ident_end(s, self.cursor as int) == ident_end(s, start as int),
            invariant
                self.wf(),
                self.input@ == s,
                s == old(self).input@,
                start == old(self).cursor,
                self.input == old(self).input,
                self.unclosed_comment == old(self).unclosed_comment,
                start <= self.cursor,
                ident@ == s.subrange(start as int, self.cursor as int),
            ensures
                self.cursor == ident_end(s, start as int),
            decreases self.input.len() - self.cursor,
        {
            let ch = self.input[self.cursor];
            if is_ident_char_exec(ch) {
                ident.push(ch);
                self.bump();
                assert(ident@ =~= s.subrange(start as int, self.cursor as int));
            } else {
                break;
            }
        }
        keyword_token(&ident)
    }

    /// Reads a string literal, the opening quote included.
    fn string_literal(&mut self) -> (t: Token)
        requires
            old(self).wf(),
            old(self).cursor < old(self).input.len(),
        ensures
            final(self).wf(),
            final(self).input == old(self).input,
            final(self).unclosed_comment == old(self).unclosed_comment,
            final(self).cursor == string_body(old(self).input@, old(self).cursor + 1).1,
            t@ == SpecToken::StringLiteral(string_body(old(self).input@, old(self).cursor + 1).0),
    {
        let ghost s = self.input@;
        let ghost start = self.cursor + 1;
        let mut literal: Vec<char> = Vec::new();
        self.bump();
        while self.cursor < self.input.len()
            invariant_except_break
                literal@ + string_body(s, self.cursor as int).0 == string_body(s, start).0,
                string_body(s, self.cursor as int).1 == string_body(s, start).1,
            invariant
                self.wf(),
                self.input@ == s,
                s == old(self).input@,
                start == old(self).cursor + 1,
                self.input == old(self).input,
                self.unclosed_comment == old(self).unclosed_comment,
            ensures
                literal@ == string_body(s, start).0,
                self.cursor == string_body(s, start).1,
            decreases self.input.len() - self.cursor,
        {
            let ch = self.input[self.cursor];
            if ch == '"' {
                self.bump();
                assert(literal@ + Seq::<char>::empty() =~= literal@);
                break;
            } else if ch == '\\' {
                self.bump();
                if let Some(esc_ch) = self.peek() {
                    literal.push(escape_exec(esc_ch));
                    self.bump();
                    assert(string_body(s, self.cursor - 2).0 =~= seq![escaped(esc_ch)] + string_body(s, self.cursor as int).0);
                    assert(literal@ + string_body(s, self.cursor as int).0 =~= string_body(s, start).0);
                } else {
                    assert(literal@ + Seq::<char>::empty() =~= literal@);
                }
            } else {
                literal.push(ch);
                self.bump();
                assert(literal@ + string_body(s, self.cursor as int).0 =~= string_body(s, start).0);
            }
        }
        proof {
            if !(self.cursor < self.input.len()) && literal@ + string_body(s, self.cursor as int).0 == string_body(s, start).0 {
                assert(literal@ + Seq::<char>::empty() =~= literal@);
            }
        }
        Token::StringLiteral(string_from_chars(&literal))
    }

    /// Reads a character literal, the opening quote included.
    fn character_literal(&mut self) -> (t: Token)
        requires
            old(self).wf(),
            old(self).cursor < old(self).input.len(),
        ensures
            final(self).wf(),
            final(self).input == old(self).input,
            final(self).unclosed_comment == old(self).unclosed_comment,
            final(self).cursor == char_body(old(self).input@, old(self).cursor + 1).1,
            t@ == SpecToken::CharacterLiteral(seq![char_body(old(self).input@, old(self).cursor + 1).0]),
    {
        self.bump();
        let mut char_val: Option<char> = None;
        if let Some(ch) = self.peek() {
            if ch == '\\' {
                self.bump();
                if let Some(esc_ch) = self.peek() {
                    char_val = Some(escape_exec(esc_ch));
                    self.bump();
                }
            } else {
                char_val = Some(ch);
                self.bump();
            }
        }
        if let Some(ch) = self.peek() {
            if ch == '\'' {
                self.bump();
            }
        }
        let c = match char_val {
            Some(c) => c,
            None => '\0',
        };
        let mut v: Vec<char> = Vec::new();
        v.push(c);
        assert(v@ =~= seq![c]);
        Token::CharacterLiteral(string_from_chars(&v))
    }

    /// The next token and its position, or `None` at the end of the input.
    /// Whitespace, `//` line comments and nested `/* */` block comments are skipped.
    pub fn next_token(&mut self) -> (r: Option<(Token, Position)>)
        requires
            old(self).wf(),
        ensures
            final(self).wf(),
            final(self).source() == old(self).source(),
            match scan(old(self).source(), old(self).offset()) {
                None => r is None && final(self).offset() == final(self).source().len(),
                Some((t, p, e)) => r matches Some((tok, pos)) && tok@ == t
                    && pos == pos_at(old(self).source(), p) && final(self).offset() == e,
            },
            final(self).met_unclosed_comment() == (old(self).met_unclosed_comment()
                || meets_unclosed_comment(old(self).source(), old(self).offset())),
    {
        let ghost s = self.input@;
        let ghost start = self.cursor as int;
        while self.cursor < self.input.len()
            invariant
                self.wf(),
                self.input@ == s,
                s == old(self).input@,
                start == old(self).cursor,
                self.input == old(self).input,
                (self.unclosed_comment || meets_unclosed_comment(s, self.cursor as int))
                    == (old(self).unclosed_comment || meets_unclosed_comment(s, start)),
                scan(s, self.cursor as int) == scan(s, start),
            decreases self.input.len() - self.cursor,
        {
            let i = self.cursor;
            let ch = self.input[i];
            let next = if i + 1 < self.input.len() { Some(self.input[i + 1]) } else { None };
            if ch == ' ' || ch == '\t' || ch == '\r' || ch == '\n' {
                self.bump();
                continue;
            }
            if ch == '"' {
                let t = self.string_literal();
                return Some((t, self.position));
            }
            if ch == '\'' {
                let t = self.character_literal();
                return Some((t, self.position));
            }
            if '0' <= ch && ch <= '9' {
                let pos = self.position;
                let t = self.number();
                return Some((t, pos));
            }
            if ('a' <= ch && ch <= 'z') || ('A' <= ch && ch <= 'Z') || ch == '_' {
                let pos = self.position;
                let t = self.identifier_or_keyword();
                return Some((t, pos));
            }
            if ch == '-' || ch == '&' || ch == '|' || ch == ':' {
                let pos = self.position;
                self.bump();
                let second = if ch == '-' { '>' } else if ch == ':' { '=' } else { '&' };
                if next == Some(second) {
                    self.bump();
                    let t = if ch == '-' {
                        Token::Arrow
                    } else if ch == '&' {
                        Token::And
                    } else if ch == '|' {
                        Token::Or
                    } else {
                        Token::Walrus
                    };
                    return Some((t, pos));
                }
                let t = if ch == '-' {
                    Token::Minus
                } else if ch == '&' {
                    Token::Ampersand
                } else if ch == '|' {
                    Token::Pipe
                } else {
                    Token::Colon
                };
                return Some((t, pos));
            }
            if ch == '/' {
                self.bump();
                if next == Some('/') {
                    self.bump();
                    proof {
                        lemma_line_end_bounds(s, self.cursor as int);
                    }
                    let ghost flag = self.unclosed_comment;
                    while self.cursor < self.input.len() && self.input[self.cursor] != '\n'
                        invariant
                            self.wf(),
                            self.input@ == s,
                            self.input == old(self).input,
                            self.unclosed_comment == flag,
                            line_end(s, self.cursor as int) == line_end(s, i + 2),
                        decreases self.input.len() - self.cursor,
                    {
                        self.bump();
                    }
                    continue;
                } else if next == Some('*') {
                    self.bump();
                    proof {
                        lemma_block_close_bounds(s, self.cursor as int, 1);
                    }
                    if !self.skip_multiline_comment() {
                        self.unclosed_comment = true;
                    }
                    continue;
                }
                return Some((Token::Fslash, self.position));
            }
            let t = single_char_exec(ch);
            self.bump();
            return Some((t, self.position));
        }
        None
    }

    /// All the remaining tokens with their positions, then `Eof` at column 1 of
    /// the line after the last token's line.
    pub fn lex(self) -> (v: Vec<(Token, Position)>)
        requires
            self.wf(),
            tokens_from(self.source(), self.offset()).len() > 0,
        ensures
            tokens_view(v@) == lex_spec(self.source(), self.offset()),
    {
        let mut lexer = self;
        let ghost s = lexer.input@;
        let ghost start = lexer.cursor as int;
        let mut vec: Vec<(Token, Position)> = Vec::new();
        loop
            invariant
                lexer.wf(),
                lexer.source() == s,
                s == self.source(),
                start == self.offset(),
                start <= lexer.offset() <= s.len(),
                tokens_view(vec@) + tokens_from(s, lexer.offset()) == tokens_from(s, start),
                forall|k: int| 0 <= k < vec@.len() ==> (#[trigger] vec@[k]).1.line <= s.len() + 1,
            ensures
                tokens_view(vec@) == tokens_from(s, start),
                forall|k: int| 0 <= k < vec@.len() ==> (#[trigger] vec@[k]).1.line <= s.len() + 1,
                s.len() + 2 < usize::MAX,
            decreases s.len() - lexer.offset(),
        {
            let ghost before = lexer.offset();
            proof {
                lemma_scan_bounds(s, before);
            }
            match lexer.next_token() {
                None => {
                    assert(tokens_from(s, before) =~= Seq::<(SpecToken, Position)>::empty());
                    assert(tokens_view(vec@) + Seq::<(SpecToken, Position)>::empty() =~= tokens_view(vec@));
                    break;
                },
                Some(p) => {
                    proof {
                        let (t, q, e) = scan(s, before).unwrap();
                        lemma_pos_bounds(s, q);
                        assert(tokens_view(vec@.push(p)) =~= tokens_view(vec@).push((p.0@, p.1)));
                        assert(tokens_from(s, before) =~= seq![(t, pos_at(s, q))] + tokens_from(s, e));
                        assert(tokens_view(vec@.push(p)) + tokens_from(s, e) =~= tokens_view(vec@) + tokens_from(s, before));
                    }
                    vec.push(p);
                },
            }
        }
        let last_line = vec[vec.len() - 1].1.line;
        assert(tokens_view(vec@).last().1.line == last_line);
        vec.push((Token::Eof, Position { line: last_line + 1, index: 1 }));
        assert(tokens_view(vec@) =~= lex_spec(s, start));
        vec
    }
}

fn is_ident_char_exec(c: char) -> (r: bool)
    ensures
        r == is_ident_char(c),
{
    ('a' <= c && c <= 'z') || ('A' <= c && c <= 'Z') || c == '_' || ('0' <= c && c <= '9')
}

fn escape_exec(c: char) -> (r: char)
    ensures
        r == escaped(c),
{
    if c == 'n' {
        '\n'
    } else if c == 't' {
        '\t'
    } else if c == 'r' {
        '\r'
    } else {
        c
    }
}

fn single_char_exec(c: char) -> (t: Token)
    ensures
        t@ == (match single_char_token(c) {
            Some(k) => k,
            None => SpecToken::Unknown(c),
        }),
{
    if c == '+' {
        Token::Plus
    } else if c == '*' {
        Token::Asterisk
    } else if c == '%' {
        Token::Percent
    } else if c == '=' {
        Token::Equal
    } else if c == '(' {
        Token::LPar
    } else if c == ')' {
        Token::RPar
    } else if c == '{' {
        Token::LCurl
    } else if c == '}' {
        Token::RCurl
    } else if c == ',' {
        Token::Comma
    } else if c == ';' {
        Token::Semicolon
    } else {
        Token::Unknown(c)
    }
}

fn word_is(v: &Vec<char>, w: &[char]) -> (r: bool)
    ensures
        r == (v@ == w@),
{
    if v.len() != w.len() {
        return false;
    }
    let mut i: usize = 0;
    while i < v.len()
        invariant
            i <= v.len(),
            v.len() == w.len(),
            forall|j: int| 0 <= j < i ==> v@[j] == w@[j],
        decreases v.len() - i,
    {
        if v[i] != w[i] {
            return false;
        }
        i += 1;
    }
    assert(v@ =~= w@);
    true
}

/// The keyword token that `w` spells, or an identifier token holding `w`.
fn keyword_token(w: &Vec<char>) -> (t: Token)
    ensures
        t@ == keyword(w@),
{
    proof {
        assert(['f', 'n']@ =~= seq!['f', 'n']);
        assert(['r', 'e', 't']@ =~= seq!['r', 'e', 't']);
        assert(['s', 't', 'r', 'u', 'c', 't']@ =~= seq!['s', 't', 'r', 'u', 'c', 't']);
        assert(['p', 'u', 'b']@ =~= seq!['p', 'u', 'b']);
        assert(['e', 'n', 'u', 'm']@ =~= seq!['e', 'n', 'u', 'm']);
        assert(['i', 'm', 'p', 'l']@ =~= seq!['i', 'm', 'p', 'l']);
        assert(['i', 'f']@ =~= seq!['i', 'f']);
        assert(['e', 'l', 's', 'e']@ =~= seq!['e', 'l', 's', 'e']);
        assert(['f', 'o', 'r']@ =~= seq!['f', 'o', 'r']);
        assert(['w', 'h', 'i', 'l', 'e']@ =~= seq!['w', 'h', 'i', 'l', 'e']);
        assert(['i', '3', '2']@ =~= seq!['i', '3', '2']);
        assert(['i', '6', '4']@ =~= seq!['i', '6', '4']);
        assert(['u', '3', '2']@ =~= seq!['u', '3', '2']);
        assert(['u', '6', '4']@ =~= seq!['u', '6', '4']);
        assert(['u', 's', 'i', 'z', 'e']@ =~= seq!['u', 's', 'i', 'z', 'e']);
        assert(['f', '3', '2']@ =~= seq!['f', '3', '2']);
        assert(['f', '6', '4']@ =~= seq!['f', '6', '4']);
        assert(['c', 'h', 'a', 'r']@ =~= seq!['c', 'h', 'a', 'r']);
    }
    if word_is(w, &['f', 'n']) {
        Token::Fn
    } else if word_is(w, &['r', 'e', 't']) {
        Token::Ret
    } else if word_is(w, &['s', 't', 'r', 'u', 'c', 't']) {
        Token::Struct
    } else if word_is(w, &['p', 'u', 'b']) {
        Token::Pub
    } else if word_is(w, &['e', 'n', 'u', 'm']) {
        Token::Enum
    } else if word_is(w, &['i', 'm', 'p', 'l']) {
        Token::Impl
    } else if word_is(w, &['i', 'f']) {
        Token::If
    } else if word_is(w, &['e', 'l', 's', 'e']) {
        Token::Else
    } else if word_is(w, &['f', 'o', 'r']) {
        Token::For
    } else if word_is(w, &['w', 'h', 'i', 'l', 'e']) {
        Token::While
    } else if word_is(w, &['i', '3', '2']) {
        Token::I32
    } else if word_is(w, &['i', '6', '4']) {
        Token::I64
    } else if word_is(w, &['u', '3', '2']) {
        Token::U32
    } else if word_is(w, &['u', '6', '4']) {
        Token::U64
    } else if word_is(w, &['u', 's', 'i', 'z', 'e']) {
        Token::Usize
    } else if word_is(w, &['f', '3', '2']) {
        Token::F32
    } else if word_is(w, &['f', '6', '4']) {
        Token::F64
    } else if word_is(w, &['c', 'h', 'a', 'r']) {
        Token::Char
    } else {
        Token::Identifier(string_from_chars(w))
    }
}

} // verus!

verus! {

// ---------------------------------------------------------------------------
// Laws of the lexer
// ---------------------------------------------------------------------------

proof fn lemma_scan_not_eof(s: Seq<char>, i: int)
    ensures
        scan(s, i) matches Some((t, _, _)) ==> !(t is Eof),
    decreases s.len() - i,
{
    if 0 <= i < s.len() {
        let c = s[i];
        if is_space(c) {
            lemma_scan_not_eof(s, i + 1);
        } else if c == '/' && i + 1 < s.len() && s[i + 1] == '/' {
            lemma_line_end_bounds(s, i + 2);
            lemma_scan_not_eof(s, line_end(s, i + 2));
        } else if c == '/' && i + 1 < s.len() && s[i + 1] == '*' {
            lemma_block_close_bounds(s, i + 2, 1);
            lemma_scan_not_eof(s, block_close(s, i + 2, 1));
        }
    }
}

proof fn lemma_tokens_not_eof(s: Seq<char>, i: int)
    ensures
        forall|k: int| 0 <= k < tokens_from(s, i).len() ==> !(#[trigger] tokens_from(s, i)[k].0 is Eof),
    decreases s.len() - i,
{
    if 0 <= i <= s.len() {
        lemma_scan_not_eof(s, i);
        lemma_scan_bounds(s, i);
        if let Some((t, p, e)) = scan(s, i) {
            lemma_tokens_not_eof(s, e);
            let ts = tokens_from(s, i);
            assert(ts == seq![(t, pos_at(s, p))] + tokens_from(s, e));
            assert forall|k: int| 0 <= k < ts.len() implies !(#[trigger] ts[k].0 is Eof) by {
                if k > 0 {
                    assert(ts[k] == tokens_from(s, e)[k - 1]);
                }
            }
        }
    }
}

/// The lexer's output ends with the end-of-file token, and only there: the
/// parser, which stops at it, always finds it, after every other token.
pub proof fn law_single_eof_at_end(s: Seq<char>, i: int)
    ensures
        lex_spec(s, i).last().0 is Eof,
        forall|k: int| 0 <= k < lex_spec(s, i).len() - 1 ==> !(#[trigger] lex_spec(s, i)[k].0 is Eof),
{
    lemma_tokens_not_eof(s, i);
    let ts = tokens_from(s, i);
    assert forall|k: int| 0 <= k < lex_spec(s, i).len() - 1 implies !(#[trigger] lex_spec(s, i)[k].0 is Eof) by {
        assert(lex_spec(s, i)[k] == ts[k]);
    }
}

/// Reading one more character moves the position one step: to the next line
/// at column 1 after a newline, else one column on (while lines and columns fit).
pub proof fn law_position_step(s: Seq<char>, n: int)
    requires
        0 <= n < s.len(),
        s.len() + 2 < usize::MAX,
    ensures
        pos_at(s, n + 1) == step_position(pos_at(s, n), s[n]),
{
    lemma_pos_bounds(s, n);
    lemma_pos_bounds(s, n + 1);
}

/// The lexer's output is every token of the source, in order, then one
/// end-of-file token at column 1 of the line after the last token.
pub proof fn law_lex_output(s: Seq<char>, i: int)
    requires
        tokens_from(s, i).len() > 0,
    ensures
        lex_spec(s, i).len() == tokens_from(s, i).len() + 1,
        forall|k: int| 0 <= k < tokens_from(s, i).len() ==> #[trigger] lex_spec(s, i)[k] == tokens_from(s, i)[k],
        lex_spec(s, i).last() == (SpecToken::Eof, Position {
            line: (tokens_from(s, i).last().1.line + 1) as usize,
            index: 1,
        }),
{
}

/// The words the language reserves: `fn ret struct pub enum impl if else for
/// while i32 i64 u32 u64 usize f32 f64 char`.
pub open spec fn is_reserved(w: Seq<char>) -> bool {
    w == seq!['f', 'n']
    || w == seq!['r', 'e', 't']
    || w == seq!['s', 't', 'r', 'u', 'c', 't']
    || w == seq!['p', 'u', 'b']
    || w == seq!['e', 'n', 'u', 'm']
    || w == seq!['i', 'm', 'p', 'l']
    || w == seq!['i', 'f']
    || w == seq!['e', 'l', 's', 'e']
    || w == seq!['f', 'o', 'r']
    || w == seq!['w', 'h', 'i', 'l', 'e']
    || w == seq!['i', '3', '2']
    || w == seq!['i', '6', '4']
    || w == seq!['u', '3', '2']
    || w == seq!['u', '6', '4']
    || w == seq!['u', 's', 'i', 'z', 'e']
    || w == seq!['f', '3', '2']
    || w == seq!['f', '6', '4']
    || w == seq!['c', 'h', 'a', 'r']
}

/// A reserved word is never an identifier: wherever the lexer stands, an
/// identifier token that it reads is not a reserved word.
pub proof fn law_identifiers_not_reserved(s: Seq<char>, i: int)
    ensures
        scan(s, i) matches Some((SpecToken::Identifier(x), _, _)) ==> !is_reserved(x),
    decreases s.len() - i,
{
    if 0 <= i < s.len() {
        let c = s[i];
        if is_space(c) {
            law_identifiers_not_reserved(s, i + 1);
        } else if c == '/' && i + 1 < s.len() && s[i + 1] == '/' {
            lemma_line_end_bounds(s, i + 2);
            law_identifiers_not_reserved(s, line_end(s, i + 2));
        } else if c == '/' && i + 1 < s.len() && s[i + 1] == '*' {
            lemma_block_close_bounds(s, i + 2, 1);
            law_identifiers_not_reserved(s, block_close(s, i + 2, 1));
        }
    }
}

/// Each reserved word, read where a token starts, is its keyword token: the
/// word `if` lexes to `If`, `fn` to `Fn`, `i32` to `I32`, and so on for every
/// reserved word; any other word is an identifier with the word's text.
pub proof fn law_reserved_words_lex_to_keywords(s: Seq<char>, i: int)
    requires
        0 <= i < s.len(),
        is_ident_start(s[i]),
    ensures
        ({
            let e = ident_end(s, i);
            let w = s.subrange(i, e);
            &&& w == seq!['f', 'n'] ==> scan(s, i) == Some((SpecToken::Fn, i, e))
            &&& w == seq!['r', 'e', 't'] ==> scan(s, i) == Some((SpecToken::Ret, i, e))
            &&& w == seq!['s', 't', 'r', 'u', 'c', 't'] ==> scan(s, i) == Some((SpecToken::Struct, i, e))
            &&& w == seq!['p', 'u', 'b'] ==> scan(s, i) == Some((SpecToken::Pub, i, e))
            &&& w == seq!['e', 'n', 'u', 'm'] ==> scan(s, i) == Some((SpecToken::Enum, i, e))
            &&& w == seq!['i', 'm', 'p', 'l'] ==> scan(s, i) == Some((SpecToken::Impl, i, e))
            &&& w == seq!['i', 'f'] ==> scan(s, i) == Some((SpecToken::If, i, e))
            &&& w == seq!['e', 'l', 's', 'e'] ==> scan(s, i) == Some((SpecToken::Else, i, e))
            &&& w == seq!['f', 'o', 'r'] ==> scan(s, i) == Some((SpecToken::For, i, e))
            &&& w == seq!['w', 'h', 'i', 'l', 'e'] ==> scan(s, i) == Some((SpecToken::While, i, e))
            &&& w == seq!['i', '3', '2'] ==> scan(s, i) == Some((SpecToken::I32, i, e))
            &&& w == seq!['i', '6', '4'] ==> scan(s, i) == Some((SpecToken::I64, i, e))
            &&& w == seq!['u', '3', '2'] ==> scan(s, i) == Some((SpecToken::U32, i, e))
            &&& w == seq!['u', '6', '4'] ==> scan(s, i) == Some((SpecToken::U64, i, e))
            &&& w == seq!['u', 's', 'i', 'z', 'e'] ==> scan(s, i) == Some((SpecToken::Usize, i, e))
            &&& w == seq!['f', '3', '2'] ==> scan(s, i) == Some((SpecToken::F32, i, e))
            &&& w == seq!['f', '6', '4'] ==> scan(s, i) == Some((SpecToken::F64, i, e))
            &&& w == seq!['c', 'h', 'a', 'r'] ==> scan(s, i) == Some((SpecToken::Char, i, e))
            &&& !is_reserved(w) ==> scan(s, i) == Some((SpecToken::Identifier(w), i, e))
        }),
{
}

/// Each operator and punctuation character, read where a token starts, gives
/// its own token: `+` a plus, `*` an asterisk, `%` a percent sign, `=` an
/// equals sign, `(` `)` `{` `}` the parentheses and braces, `,` a comma, `;` a
/// semicolon, and `/` (not starting a comment) a slash; `->`, `&&`, `|&` and
/// `:=` are two-character tokens (arrow, and, or, walrus), and `-`, `&`, `|`,
/// `:` on their own are minus, ampersand, pipe and colon.
pub proof fn law_punctuation_tokens(s: Seq<char>, i: int)
    requires
        0 <= i < s.len(),
    ensures
        s[i] == '+' ==> scan(s, i) == Some((SpecToken::Plus, i + 1, i + 1)),
        s[i] == '*' ==> scan(s, i) == Some((SpecToken::Asterisk, i + 1, i + 1)),
        s[i] == '%' ==> scan(s, i) == Some((SpecToken::Percent, i + 1, i + 1)),
        s[i] == '=' ==> scan(s, i) == Some((SpecToken::Equal, i + 1, i + 1)),
        s[i] == '(' ==> scan(s, i) == Some((SpecToken::LPar, i + 1, i + 1)),
        s[i] == ')' ==> scan(s, i) == Some((SpecToken::RPar, i + 1, i + 1)),
        s[i] == '{' ==> scan(s, i) == Some((SpecToken::LCurl, i + 1, i + 1)),
        s[i] == '}' ==> scan(s, i) == Some((SpecToken::RCurl, i + 1, i + 1)),
        s[i] == ',' ==> scan(s, i) == Some((SpecToken::Comma, i + 1, i + 1)),
        s[i] == ';' ==> scan(s, i) == Some((SpecToken::Semicolon, i + 1, i + 1)),
        s[i] == '-' && i + 1 < s.len() && s[i + 1] == '>' ==> scan(s, i) == Some((SpecToken::Arrow, i, i + 2)),
        s[i] == '-' && !(i + 1 < s.len() && s[i + 1] == '>') ==> scan(s, i) == Some((SpecToken::Minus, i, i + 1)),
        s[i] == '&' && i + 1 < s.len() && s[i + 1] == '&' ==> scan(s, i) == Some((SpecToken::And, i, i + 2)),
        s[i] == '&' && !(i + 1 < s.len() && s[i + 1] == '&') ==> scan(s, i) == Some((SpecToken::Ampersand, i, i + 1)),
        s[i] == '|' && i + 1 < s.len() && s[i + 1] == '&' ==> scan(s, i) == Some((SpecToken::Or, i, i + 2)),
        s[i] == '|' && !(i + 1 < s.len() && s[i + 1] == '&') ==> scan(s, i) == Some((SpecToken::Pipe, i, i + 1)),
        s[i] == ':' && i + 1 < s.len() && s[i + 1] == '=' ==> scan(s, i) == Some((SpecToken::Walrus, i, i + 2)),
        s[i] == ':' && !(i + 1 < s.len() && s[i + 1] == '=') ==> scan(s, i) == Some((SpecToken::Colon, i, i + 1)),
        s[i] == '/' && !(i + 1 < s.len() && (s[i + 1] == '/' || s[i + 1] == '*')) ==> scan(s, i) == Some((SpecToken::Fslash, i + 1, i + 1)),
{
}

/// The text of a string literal is its characters up to the closing quote,
/// where a backslash escape stands for one character: `\n` a newline, `\t` a
/// tab, `\r` a carriage return, and `\` followed by any other character that
/// character itself (so `\"` is a quote and `\\` a backslash).
pub proof fn law_string_text(s: Seq<char>, i: int)
    requires
        0 <= i < s.len(),
    ensures
        s[i] == '"' ==> string_body(s, i) == (Seq::<char>::empty(), i + 1),
        s[i] != '"' && s[i] != '\\' ==> string_body(s, i) == (seq![s[i]] + string_body(s, i + 1).0, string_body(s, i + 1).1),
        s[i] == '\\' && i + 1 < s.len() ==> string_body(s, i) == (
            seq![if s[i + 1] == 'n' { '\n' } else if s[i + 1] == 't' { '\t' } else if s[i + 1] == 'r' { '\r' } else { s[i + 1] }]
                + string_body(s, i + 2).0,
            string_body(s, i + 2).1,
        ),
{
}

} // verus!
