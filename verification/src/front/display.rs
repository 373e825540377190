//! The text dump of the syntax tree: each node as a line `└───[ Label ...`,
//! indented by its depth, each child preceded by its place `line:column`
//! padded to ten characters and ` |`.
//!
//! The dump is computed as pieces of text, each with the color its label is
//! shown in; printing them, in color, is left to the program.
use vstd::prelude::*;

use crate::front::ast::Ast;
use crate::front::nodes::body::Body;
use crate::front::nodes::cast::{Cast, SpecCast};
use crate::front::nodes::expr::{lemma_args_view, BinaryExpr, Expr, ExpressionStatement, SpecBinaryExpr, SpecExpr};
use crate::front::nodes::operator::Operator;
use crate::front::nodes::parameter::SpecParam;
use crate::front::nodes::branching::{ElseStatement, IfStatement};
use crate::front::nodes::function::{FunctionBody, FunctionDefinition, FunctionParameter, FunctionReturnType, Return};
use crate::front::nodes::loops::{Break, Continue, Loop, WhileLoop};
use crate::front::nodes::parameter::Parameter;
use crate::front::nodes::range::Range;
use crate::front::nodes::statement::{lemma_stmts_view, stmts_view, SpecStmt, Statement};
use crate::front::nodes::variables::{Assignment, DeclarationAssignment, VariableDeclaration, WalrusDeclaration};
use crate::front::nodes::variables::{SpecAssign, SpecVarDecl};
use crate::front::nodes::types::{debug_text, type_debug, SpecType};
use crate::front::token::{token_debug, Position, SpecToken};
use crate::text::{chars_of, digits, nat_string, string_from_chars};

verus! {

// ---------------------------------------------------------------------------
// Pieces of text
// ---------------------------------------------------------------------------

/// The color a piece of the dump is shown in.
#[derive(Debug, Clone, Copy, PartialEq, Eq, Structural)]
pub enum Paint {
    Plain,
    Red,
    Yellow,
    Blue,
    Green,
    Magenta,
}

/// A piece of the dump and its color.
#[derive(Debug)]
pub struct Piece {
    pub text: String,
    pub paint: Paint,
}

impl View for Piece {
    type V = (Seq<char>, Paint);

    open spec fn view(&self) -> (Seq<char>, Paint) {
        (self.text@, self.paint)
    }
}

pub open spec fn pieces_view(v: Seq<Piece>) -> Seq<(Seq<char>, Paint)> {
    v.map_values(|p: Piece| p@)
}

/// How `Debug` prints an operator: its variant's name.
pub open spec fn operator_debug(op: Operator) -> Seq<char> {
    match op {
        Operator::Walrus => "Walrus"@,
        Operator::Asign => "Asign"@,
        Operator::Equals => "Equals"@,
        Operator::NotEquals => "NotEquals"@,
        Operator::Compare => "Compare"@,
        Operator::Plus => "Plus"@,
        Operator::Minus => "Minus"@,
        Operator::Asterisk => "Asterisk"@,
        Operator::Fslash => "Fslash"@,
        Operator::Percent => "Percent"@,
        Operator::And => "And"@,
        Operator::Or => "Or"@,
        Operator::Xor => "Xor"@,
        Operator::Not => "Not"@,
        Operator::ShiftLeft => "ShiftLeft"@,
        Operator::ShiftRight => "ShiftRight"@,
    }
}

/// Renders an operator as `Debug` does.
fn operator_debug_text(op: Operator) -> (s: String)
    ensures
        s@ == operator_debug(op),
{
    let t = match op {
        Operator::Walrus => "Walrus",
        Operator::Asign => "Asign",
        Operator::Equals => "Equals",
        Operator::NotEquals => "NotEquals",
        Operator::Compare => "Compare",
        Operator::Plus => "Plus",
        Operator::Minus => "Minus",
        Operator::Asterisk => "Asterisk",
        Operator::Fslash => "Fslash",
        Operator::Percent => "Percent",
        Operator::And => "And",
        Operator::Or => "Or",
        Operator::Xor => "Xor",
        Operator::Not => "Not",
        Operator::ShiftLeft => "ShiftLeft",
        Operator::ShiftRight => "ShiftRight",
    };
    String::from_str(t)
}

pub open spec fn plain(s: Seq<char>) -> Seq<(Seq<char>, Paint)> {
    seq![(s, Paint::Plain)]
}

/// `n` spaces.
pub open spec fn spaces(n: nat) -> Seq<char> {
    Seq::new(n, |_k: int| ' ')
}

/// The start of a node's line at indentation `i`.
pub open spec fn head(i: nat) -> Seq<char> {
    spaces(i) + "└───[ "@
}

/// A node's line: its head, its label in color, and the rest of the line.
pub open spec fn labeled(i: nat, label: Seq<char>, paint: Paint, rest: Seq<char>) -> Seq<(Seq<char>, Paint)> {
    seq![(head(i), Paint::Plain), (label, paint), (rest, Paint::Plain)]
}

/// The place of a node: `line:column`.
pub open spec fn place_text(p: Position) -> Seq<char> {
    digits(p.line as nat) + ":"@ + digits(p.index as nat)
}

/// Whether the place is short enough to be padded to ten characters; a
/// longer one makes the dump panic.
pub open spec fn place_fits(p: Position) -> bool {
    place_text(p).len() <= 10
}

/// The spaces that pad a place to ten characters.
pub open spec fn pad(p: Position) -> nat {
    (10 - place_text(p).len()) as nat
}

/// What precedes a child: its place, padded to ten characters, and ` |`.
pub open spec fn place_prefix(p: Position) -> Seq<(Seq<char>, Paint)> {
    plain(place_text(p) + spaces(pad(p)) + " |"@)
}

/// A string with its line breaks (`\n` and `\r`) taken out.
pub open spec fn without_breaks(s: Seq<char>) -> Seq<char> {
    s.filter(|c: char| c != '\n' && c != '\r')
}

// ---------------------------------------------------------------------------
// The dump of expressions
// ---------------------------------------------------------------------------

/// The line of a cast: `As`, then the type cast to.
pub open spec fn cast_pieces(c: SpecCast, i: nat) -> Seq<(Seq<char>, Paint)> {
    seq![(head(i), Paint::Plain), ("As"@, Paint::Magenta)] + match c {
        SpecCast::Primitive(t, _) => seq![(" Primitive("@, Paint::Plain), (t, Paint::Magenta), (")\n"@, Paint::Plain)],
        SpecCast::NonPrimitive(t, _) => seq![(" NonPrimitiveCast("@, Paint::Plain), (t, Paint::Magenta), (")\n"@, Paint::Plain)],
    }
}

/// The dump of an expression at indentation `i`.
pub open spec fn expr_pieces(e: SpecExpr, i: nat) -> Seq<(Seq<char>, Paint)>
    decreases e,
{
    match e {
        SpecExpr::Cast(c, inner, pos) => cast_pieces(c, i + 4) + place_prefix(pos) + expr_pieces(*inner, i + 8),
        SpecExpr::Boolean(b, _) => seq![(head(i), Paint::Plain), (b, Paint::Magenta), ("\n"@, Paint::Plain)],
        SpecExpr::Number(v, _) => plain(head(i) + "`"@ + v + "`\n"@),
        SpecExpr::Character(c, _) => plain(head(i) + "'"@ + c + "'\n"@),
        SpecExpr::String(s, _) => plain(head(i) + "\""@ + without_breaks(s) + "\"\n"@),
        SpecExpr::Binary(b, _) => labeled(i, "Expr"@, Paint::Magenta, ": "@ + operator_debug(b.op) + "\n"@)
            + place_prefix(b.left.1) + expr_pieces(b.left.0, i + 4) + place_prefix(b.right.1) + expr_pieces(
            b.right.0,
            i + 4,
        ),
        SpecExpr::VariableCall(id, _) => labeled(i, "Id"@, Paint::Magenta, ": `"@ + id + "`\n"@),
        SpecExpr::FunctionCall(f, _, args) => labeled(i, "FnCall"@, Paint::Green, ": `"@ + f + "`\n"@) + args_pieces(args, i),
    }
}

/// The dump of call arguments: each after its place, indented past it.
pub open spec fn args_pieces(args: Seq<(SpecExpr, Position)>, i: nat) -> Seq<(Seq<char>, Paint)>
    decreases args,
{
    if args.len() == 0 {
        Seq::empty()
    } else {
        args_pieces(args.drop_last(), i) + place_prefix(args.last().1) + expr_pieces(
            args.last().0,
            i + pad(args.last().1) + 4,
        )
    }
}

/// Whether an expression can be dumped at indentation `i`: every place it
/// shows fits, and no indentation overflows.
pub open spec fn expr_shows(e: SpecExpr, i: nat) -> bool
    decreases e,
{
    match e {
        SpecExpr::Cast(_, inner, pos) => i + 8 <= usize::MAX && place_fits(pos) && expr_shows(*inner, i + 8),
        SpecExpr::Binary(b, _) => {
            &&& i + 4 <= usize::MAX
            &&& place_fits(b.left.1)
            &&& place_fits(b.right.1)
            &&& expr_shows(b.left.0, i + 4)
            &&& expr_shows(b.right.0, i + 4)
        },
        SpecExpr::FunctionCall(_, _, args) => args_show(args, i),
        _ => true,
    }
}

pub open spec fn args_show(args: Seq<(SpecExpr, Position)>, i: nat) -> bool
    decreases args,
{
    if args.len() == 0 {
        true
    } else {
        &&& args_show(args.drop_last(), i)
        &&& place_fits(args.last().1)
        &&& i + 14 <= usize::MAX
        &&& expr_shows(args.last().0, i + pad(args.last().1) + 4)
    }
}

// ---------------------------------------------------------------------------
// Building pieces
// ---------------------------------------------------------------------------

fn push_piece(out: &mut Vec<Piece>, text: String, paint: Paint)
    ensures
        pieces_view(final(out)@) == pieces_view(old(out)@).push((text@, paint)),
{
    let ghost before = out@;
    out.push(Piece { text, paint });
    assert(pieces_view(out@) =~= pieces_view(before).push((text@, paint)));
}

fn push_plain(out: &mut Vec<Piece>, text: String)
    ensures
        pieces_view(final(out)@) == pieces_view(old(out)@) + plain(text@),
{
    push_piece(out, text, Paint::Plain);
    assert(pieces_view(old(out)@).push((text@, Paint::Plain)) =~= pieces_view(old(out)@) + plain(text@));
}

fn extend(out: &mut Vec<Piece>, more: Vec<Piece>)
    ensures
        pieces_view(final(out)@) == pieces_view(old(out)@) + pieces_view(more@),
{
    let ghost mv = more@;
    let mut more = more;
    out.append(&mut more);
    assert(pieces_view(out@) =~= pieces_view(old(out)@) + pieces_view(mv));
}

/// `n` spaces.
fn spaces_text(n: usize) -> (s: String)
    ensures
        s@ == spaces(n as nat),
{
    let mut v: Vec<char> = Vec::new();
    let mut k: usize = 0;
    while k < n
        invariant
            k <= n,
            v@ == spaces(k as nat),
        decreases n - k,
    {
        v.push(' ');
        k += 1;
        assert(v@ =~= spaces(k as nat));
    }
    string_from_chars(&v)
}

fn cat(a: String, b: &str) -> (s: String)
    ensures
        s@ == a@ + b@,
{
    let mut s = a;
    s.append(b);
    s
}

fn head_text(i: usize) -> (s: String)
    ensures
        s@ == head(i as nat),
{
    cat(spaces_text(i), "└───[ ")
}

fn push_labeled(out: &mut Vec<Piece>, i: usize, label: &str, paint: Paint, rest: String)
    ensures
        pieces_view(final(out)@) == pieces_view(old(out)@) + labeled(i as nat, label@, paint, rest@),
{
    push_piece(out, head_text(i), Paint::Plain);
    push_piece(out, String::from_str(label), paint);
    push_piece(out, rest, Paint::Plain);
    assert(pieces_view(out@) =~= pieces_view(old(out)@) + labeled(i as nat, label@, paint, rest@));
}

fn place_string(p: Position) -> (s: String)
    ensures
        s@ == place_text(p),
{
    let l = nat_string(p.line as u64);
    let s = cat(l, ":");
    let c = nat_string(p.index as u64);
    cat(s, c.as_str())
}

/// The spaces that pad the place to ten characters.
fn pad_of(p: Position) -> (n: usize)
    requires
        place_fits(p),
    ensures
        n == pad(p),
        n <= 10,
{
    let t = place_string(p);
    let v = chars_of(t.as_str());
    10 - v.len()
}

fn push_place(out: &mut Vec<Piece>, p: Position)
    requires
        place_fits(p),
    ensures
        pieces_view(final(out)@) == pieces_view(old(out)@) + place_prefix(p),
{
    let t = place_string(p);
    let n = pad_of(p);
    let t = cat(t, spaces_text(n).as_str());
    let t = cat(t, " |");
    push_plain(out, t);
}

/// The string with its line breaks taken out.
fn strip_breaks(s: &str) -> (r: String)
    ensures
        r@ == without_breaks(s@),
{
    let v = chars_of(s);
    let mut w: Vec<char> = Vec::new();
    let mut k: usize = 0;
    while k < v.len()
        invariant
            k <= v.len(),
            v@ == s@,
            w@ == without_breaks(v@.take(k as int)),
        decreases v.len() - k,
    {
        proof {
            assert(v@.take(k + 1).drop_last() =~= v@.take(k as int));
            reveal_with_fuel(Seq::filter, 1);
        }
        if v[k] != '\n' && v[k] != '\r' {
            w.push(v[k]);
        }
        k += 1;
        assert(w@ =~= without_breaks(v@.take(k as int)));
    }
    assert(v@.take(k as int) =~= v@);
    string_from_chars(&w)
}

// ---------------------------------------------------------------------------
// Dumping expressions
// ---------------------------------------------------------------------------

impl Cast {
    /// The line of the cast: `As`, then the type cast to.
    pub fn display(&self, indentation: usize) -> (out: Vec<Piece>)
        ensures
            pieces_view(out@) == cast_pieces(self@, indentation as nat),
    {
        let mut out: Vec<Piece> = Vec::new();
        push_piece(&mut out, head_text(indentation), Paint::Plain);
        push_piece(&mut out, String::from_str("As"), Paint::Magenta);
        match self {
            Cast::Primitive((ct, _pos)) => {
                push_piece(&mut out, String::from_str(" Primitive("), Paint::Plain);
                push_piece(&mut out, ct.clone(), Paint::Magenta);
                push_piece(&mut out, String::from_str(")\n"), Paint::Plain);
            },
            Cast::NonPrimitive((ct, _pos)) => {
                push_piece(&mut out, String::from_str(" NonPrimitiveCast("), Paint::Plain);
                push_piece(&mut out, ct.clone(), Paint::Magenta);
                push_piece(&mut out, String::from_str(")\n"), Paint::Plain);
            },
        }
        assert(pieces_view(out@) =~= cast_pieces(self@, indentation as nat));
        out
    }
}

impl BinaryExpr {
    /// The line of the operator.
    pub fn display(&self, indentation: usize) -> (out: Vec<Piece>)
        ensures
            pieces_view(out@) == plain(spaces(indentation as nat) + "└───[ "@ + operator_debug(self.op) + "\n"@),
    {
        let mut out: Vec<Piece> = Vec::new();
        let t = cat(head_text(indentation), operator_debug_text(self.op).as_str());
        push_plain(&mut out, cat(t, "\n"));
        assert(pieces_view(out@) =~= plain(spaces(indentation as nat) + "└───[ "@ + operator_debug(self.op) + "\n"@));
        out
    }
}

impl Expr {
    /// The dump of the expression at indentation `indentation`.
    #[verifier::loop_isolation(false)]
    #[verifier::spinoff_prover]
    pub fn display(&self, indentation: usize) -> (out: Vec<Piece>)
        requires
            expr_shows(self@, indentation as nat),
        ensures
            pieces_view(out@) == expr_pieces(self@, indentation as nat),
        decreases self,
    {
        let mut out: Vec<Piece> = Vec::new();
        match self {
            Expr::Cast((cast, expr), pos) => {
                extend(&mut out, cast.display(indentation + 4));
                push_place(&mut out, *pos);
                extend(&mut out, expr.display(indentation + 8));
            },
            Expr::Boolean((b, _)) => {
                push_piece(&mut out, head_text(indentation), Paint::Plain);
                push_piece(&mut out, b.clone(), Paint::Magenta);
                push_piece(&mut out, String::from_str("\n"), Paint::Plain);
            },
            Expr::Number((value, _)) => {
                let t = cat(cat(cat(head_text(indentation), "`"), value.as_str()), "`\n");
                push_plain(&mut out, t);
            },
            Expr::Character((ch, _)) => {
                let t = cat(cat(cat(head_text(indentation), "'"), ch.as_str()), "'\n");
                push_plain(&mut out, t);
            },
            Expr::String((st, _)) => {
                let stripped = strip_breaks(st.as_str());
                let t = cat(cat(cat(head_text(indentation), "\""), stripped.as_str()), "\"\n");
                push_plain(&mut out, t);
            },
            Expr::Binary((binary_expr, _)) => {
                let rest = cat(cat(String::from_str(": "), operator_debug_text(binary_expr.op).as_str()), "\n");
                push_labeled(&mut out, indentation, "Expr", Paint::Magenta, rest);
                push_place(&mut out, binary_expr.left.1);
                extend(&mut out, binary_expr.left.0.display(indentation + 4));
                push_place(&mut out, binary_expr.right.1);
                extend(&mut out, binary_expr.right.0.display(indentation + 4));
            },
            Expr::VariableCall((id, _)) => {
                let rest = cat(cat(String::from_str(": `"), id.as_str()), "`\n");
                push_labeled(&mut out, indentation, "Id", Paint::Magenta, rest);
            },
            Expr::FunctionCall { function, arguments } => {
                let rest = cat(cat(String::from_str(": `"), function.0.as_str()), "`\n");
                push_labeled(&mut out, indentation, "FnCall", Paint::Green, rest);
                let ghost args = crate::front::nodes::expr::args_view(arguments@);
                let ghost before = pieces_view(out@);
                proof {
                    lemma_args_view(arguments@);
                    assert(args.take(0) =~= Seq::<(SpecExpr, Position)>::empty());
                }
                let mut k: usize = 0;
                while k < arguments.len()
                    invariant
                        k <= arguments.len(),
                        args == crate::front::nodes::expr::args_view(arguments@),
                        args.len() == arguments.len(),
                        forall|j: int| 0 <= j < arguments.len() ==> #[trigger] args[j] == (arguments@[j].0@, arguments@[j].1),
                        args_show(args, indentation as nat),
                        pieces_view(out@) == before + args_pieces(args.take(k as int), indentation as nat),
                    decreases arguments.len() - k,
                {
                    proof {
                        assert(args.take(k + 1).drop_last() =~= args.take(k as int));
                        assert(args.take(k + 1).last() == args[k as int]);
                        lemma_args_show_prefix(args, indentation as nat, k + 1);
                    }
                    let pos = arguments[k].1;
                    push_place(&mut out, pos);
                    let n = pad_of(pos);
                    assert(decreases_to!(self => arguments@[k as int].0));
                    extend(&mut out, arguments[k].0.display(indentation + n + 4));
                    k += 1;
                }
                assert(args.take(k as int) =~= args);
            },
        }
        assert(pieces_view(out@) =~= expr_pieces(self@, indentation as nat));
        out
    }
}

proof fn lemma_args_show_prefix(args: Seq<(SpecExpr, Position)>, i: nat, k: int)
    requires
        args_show(args, i),
        0 <= k <= args.len(),
    ensures
        args_show(args.take(k), i),
        k > 0 ==> {
            &&& place_fits(args[k - 1].1)
            &&& i + 14 <= usize::MAX
            &&& expr_shows(args[k - 1].0, i + pad(args[k - 1].1) + 4)
        },
    decreases args.len(),
{
    if k == args.len() {
        assert(args.take(k) =~= args);
    } else {
        assert(args.drop_last().take(k) =~= args.take(k));
        lemma_args_show_prefix(args.drop_last(), i, k);
    }
}

// ---------------------------------------------------------------------------
// The dump of statements
// ---------------------------------------------------------------------------

pub open spec fn decl_pieces(d: SpecVarDecl, i: nat) -> Seq<(Seq<char>, Paint)> {
    labeled(i, "VarDecl"@, Paint::Red, ": `"@ + d.id + "` : "@ + type_debug(d.var_type) + "\n"@)
}

pub open spec fn assign_pieces(a: SpecAssign, i: nat) -> Seq<(Seq<char>, Paint)> {
    labeled(i, "Assign"@, Paint::Red, ": `"@ + a.lhs + "`\n"@) + place_prefix(a.value.1) + expr_pieces(a.value.0, i + 4)
}

pub open spec fn assign_shows(a: SpecAssign, i: nat) -> bool {
    i + 4 <= usize::MAX && place_fits(a.value.1) && expr_shows(a.value.0, i + 4)
}

pub open spec fn param_pieces(p: SpecParam, i: nat) -> Seq<(Seq<char>, Paint)> {
    labeled(i, "Parameter"@, Paint::Blue, ": `"@ + p.id + "` : "@ + type_debug(p.var_type) + "\n"@)
}

/// The parameters of a function, each after its place.
pub open spec fn params_pieces(ps: Seq<(SpecParam, Position)>, i: nat) -> Seq<(Seq<char>, Paint)>
    decreases ps.len(),
{
    if ps.len() == 0 {
        Seq::empty()
    } else {
        params_pieces(ps.drop_last(), i) + place_prefix(ps.last().1) + param_pieces(ps.last().0, i)
    }
}

pub open spec fn return_type_pieces(t: SpecType, i: nat) -> Seq<(Seq<char>, Paint)> {
    labeled(i, "FnRetType"@, Paint::Blue, ": "@ + type_debug(t) + "\n"@)
}

/// The arguments of a call standing as a statement, each after its place
/// and an `Argument:` line.
pub open spec fn stmt_args_pieces(args: Seq<(SpecExpr, Position)>, i: nat) -> Seq<(Seq<char>, Paint)>
    decreases args.len(),
{
    if args.len() == 0 {
        Seq::empty()
    } else {
        stmt_args_pieces(args.drop_last(), i) + place_prefix(args.last().1) + plain(
            spaces(i + pad(args.last().1) + 8) + "└───[ Argument:\n"@,
        ) + expr_pieces(args.last().0, i + 12)
    }
}

pub open spec fn stmt_args_show(args: Seq<(SpecExpr, Position)>, i: nat) -> bool
    decreases args.len(),
{
    if args.len() == 0 {
        true
    } else {
        stmt_args_show(args.drop_last(), i) && place_fits(args.last().1) && expr_shows(args.last().0, i + 12)
    }
}

/// An expression standing as a statement: `ExprStat`, then a short line
/// for the expression (for a call, its arguments in full).
pub open spec fn expr_stmt_pieces(e: SpecExpr, i: nat) -> Seq<(Seq<char>, Paint)> {
    plain(spaces(i) + "└───[ ExprStat\n"@) + match e {
        SpecExpr::Cast(c, _, _) => match c {
            SpecCast::Primitive(t, _) => plain(spaces(i + 4) + "-> PrimtiveCast("@ + t + ")\n"@),
            SpecCast::NonPrimitive(t, _) => plain(spaces(i + 4) + "-> NonPrimitiveCast("@ + t + ")\n"@),
        },
        SpecExpr::Boolean(b, _) => plain(spaces(i + 4) + "-> Number("@ + b + ")\n"@),
        SpecExpr::Number(n, _) => plain(spaces(i + 4) + "-> Number("@ + n + ")\n"@),
        SpecExpr::Character(c, _) => plain(spaces(i + 4) + "-> Character('"@ + c + "')\n"@),
        SpecExpr::String(st, _) => plain(spaces(i + 4) + "-> String(\""@ + st + "\")\n"@),
        SpecExpr::Binary(b, _) => plain(spaces(i + 4) + "└───[ "@ + operator_debug(b.op) + "\n"@),
        SpecExpr::VariableCall(id, _) => plain(spaces(i + 4) + "-> Identifier("@ + id + ")\n"@),
        SpecExpr::FunctionCall(f, _, args) => plain(spaces(i + 4) + "└───[ FnCall: `"@ + f + "`\n"@) + stmt_args_pieces(
            args,
            i,
        ),
    }
}

pub open spec fn expr_stmt_shows(e: SpecExpr, i: nat) -> bool {
    &&& i + 18 <= usize::MAX
    &&& e matches SpecExpr::FunctionCall(_, _, args) ==> stmt_args_show(args, i)
}

/// The dump of a statement at indentation `i`.
pub open spec fn stmt_pieces(s: SpecStmt, i: nat) -> Seq<(Seq<char>, Paint)>
    decreases s,
{
    match s {
        SpecStmt::Return { value } => labeled(i, "Return"@, Paint::Red, ":\n"@) + place_prefix(value.1) + expr_pieces(
            value.0,
            i + 4,
        ),
        SpecStmt::If { condition, branch } => labeled(i, "If"@, Paint::Red, "\n"@) + place_prefix(condition.1)
            + expr_pieces(condition.0, i + 4) + stmts_pieces(branch.0, i + 4),
        SpecStmt::Else { condition, branch } => match condition {
            Some(c) => labeled(i, "Else If"@, Paint::Red, "\n"@) + place_prefix(c.1) + expr_pieces(c.0, i + 4)
                + stmts_pieces(branch.0, i + 4),
            None => labeled(i, "Else"@, Paint::Red, "\n"@) + stmts_pieces(branch.0, i + 4),
        },
        SpecStmt::Loop { body } => labeled(i, "Loop"@, Paint::Red, "\n"@) + stmts_pieces(body.0, i + 4),
        SpecStmt::While { condition, body } => labeled(i, "While"@, Paint::Red, "\n"@) + place_prefix(condition.1)
            + expr_pieces(condition.0, i + 4) + stmts_pieces(body.0, i + 4),
        SpecStmt::For { .. } => Seq::empty(),
        SpecStmt::Break => labeled(i, "Break"@, Paint::Red, "\n"@),
        SpecStmt::Continue => labeled(i, "Break"@, Paint::Red, "\n"@),
        SpecStmt::Declaration(d) => decl_pieces(d, i),
        SpecStmt::Assignment(a) => assign_pieces(a, i),
        SpecStmt::Walrus { id, .. } => labeled(i, "WalrusDecl"@, Paint::Red, ": `"@ + id + "` := ...\n"@),
        SpecStmt::DeclarationAssignment { declaration, assignment } => labeled(i, "DeclAssign"@, Paint::Red, "\n"@)
            + place_prefix(declaration.1) + decl_pieces(declaration.0, i + 4) + place_prefix(assignment.1) + assign_pieces(
            assignment.0,
            i + 4,
        ),
        SpecStmt::Expression(e) => expr_stmt_pieces(e, i),
        SpecStmt::Function(f) => labeled(i, "FnDef"@, Paint::Yellow, ": `"@ + f.id.0 + "`\n"@) + params_pieces(
            f.parameters,
            i + 4,
        ) + place_prefix(f.return_type.1) + return_type_pieces(f.return_type.0, i + 4) + place_prefix(f.body.1)
            + labeled(i + 4, "Body"@, Paint::Blue, "\n"@) + stmts_pieces(f.body.0, i + 8),
    }
}

/// The dump of statements, each after its place.
pub open spec fn stmts_pieces(stmts: Seq<(SpecStmt, Position)>, i: nat) -> Seq<(Seq<char>, Paint)>
    decreases stmts,
{
    if stmts.len() == 0 {
        Seq::empty()
    } else {
        stmts_pieces(stmts.drop_last(), i) + place_prefix(stmts.last().1) + stmt_pieces(stmts.last().0, i)
    }
}

/// Whether a statement can be dumped at indentation `i`: it holds no `for`
/// loop (whose dump is not implemented and panics), every place it shows
/// fits, and no indentation overflows.
pub open spec fn stmt_shows(s: SpecStmt, i: nat) -> bool
    decreases s,
{
    match s {
        SpecStmt::Return { value } => i + 4 <= usize::MAX && place_fits(value.1) && expr_shows(value.0, i + 4),
        SpecStmt::If { condition, branch } => {
            &&& i + 4 <= usize::MAX
            &&& place_fits(condition.1)
            &&& expr_shows(condition.0, i + 4)
            &&& stmts_show(branch.0, i + 4)
        },
        SpecStmt::Else { condition, branch } => {
            &&& i + 4 <= usize::MAX
            &&& (condition matches Some(c) ==> place_fits(c.1) && expr_shows(c.0, i + 4))
            &&& stmts_show(branch.0, i + 4)
        },
        SpecStmt::Loop { body } => i + 4 <= usize::MAX && stmts_show(body.0, i + 4),
        SpecStmt::While { condition, body } => {
            &&& i + 4 <= usize::MAX
            &&& place_fits(condition.1)
            &&& expr_shows(condition.0, i + 4)
            &&& stmts_show(body.0, i + 4)
        },
        SpecStmt::For { .. } => false,
        SpecStmt::Assignment(a) => assign_shows(a, i),
        SpecStmt::DeclarationAssignment { declaration, assignment } => {
            &&& i + 4 <= usize::MAX
            &&& place_fits(declaration.1)
            &&& place_fits(assignment.1)
            &&& assign_shows(assignment.0, i + 4)
        },
        SpecStmt::Expression(e) => expr_stmt_shows(e, i),
        SpecStmt::Function(f) => {
            &&& i + 8 <= usize::MAX
            &&& forall|k: int| 0 <= k < f.parameters.len() ==> place_fits(#[trigger] f.parameters[k].1)
            &&& place_fits(f.return_type.1)
            &&& place_fits(f.body.1)
            &&& stmts_show(f.body.0, i + 8)
        },
        _ => true,
    }
}

pub open spec fn stmts_show(stmts: Seq<(SpecStmt, Position)>, i: nat) -> bool
    decreases stmts,
{
    if stmts.len() == 0 {
        true
    } else {
        stmts_show(stmts.drop_last(), i) && place_fits(stmts.last().1) && stmt_shows(stmts.last().0, i)
    }
}

// ---------------------------------------------------------------------------
// Dumping statements
// ---------------------------------------------------------------------------

proof fn lemma_stmts_show_prefix(stmts: Seq<(SpecStmt, Position)>, i: nat, k: int)
    requires
        stmts_show(stmts, i),
        0 <= k <= stmts.len(),
    ensures
        stmts_show(stmts.take(k), i),
        k > 0 ==> place_fits(stmts[k - 1].1) && stmt_shows(stmts[k - 1].0, i),
    decreases stmts.len(),
{
    if k == stmts.len() {
        assert(stmts.take(k) =~= stmts);
    } else {
        assert(stmts.drop_last().take(k) =~= stmts.take(k));
        lemma_stmts_show_prefix(stmts.drop_last(), i, k);
    }
}

/// The dump of statements, each after its place.
#[verifier::loop_isolation(false)]
fn display_children(children: &Vec<(Statement, Position)>, indentation: usize) -> (out: Vec<Piece>)
    requires
        stmts_show(stmts_view(children@), indentation as nat),
    ensures
        pieces_view(out@) == stmts_pieces(stmts_view(children@), indentation as nat),
    decreases children,
{
    let ghost stmts = stmts_view(children@);
    proof {
        lemma_stmts_view(children@);
    }
    let mut out: Vec<Piece> = Vec::new();
    assert(stmts.take(0) =~= Seq::<(SpecStmt, Position)>::empty());
    assert(pieces_view(out@) =~= stmts_pieces(stmts.take(0), indentation as nat));
    let mut k: usize = 0;
    while k < children.len()
        invariant
            k <= children.len(),
            pieces_view(out@) == stmts_pieces(stmts.take(k as int), indentation as nat),
        decreases children.len() - k,
    {
        proof {
            assert(stmts.take(k + 1).drop_last() =~= stmts.take(k as int));
            assert(stmts.take(k + 1).last() == stmts[k as int]);
            lemma_stmts_show_prefix(stmts, indentation as nat, k + 1);
        }
        push_place(&mut out, children[k].1);
        assert(decreases_to!(children => children@[k as int].0));
        extend(&mut out, children[k].0.display(indentation));
        k += 1;
    }
    assert(stmts.take(k as int) =~= stmts);
    out
}

impl Statement {
    /// The dump of the statement at indentation `indentation` (see `stmt_pieces`).
    pub fn display(&self, indentation: usize) -> (out: Vec<Piece>)
        requires
            stmt_shows(self@, indentation as nat),
        ensures
            pieces_view(out@) == stmt_pieces(self@, indentation as nat),
        decreases self,
    {
        match self {
            Statement::Return(r) => r.display(indentation),
            Statement::If(s) => s.display(indentation),
            Statement::Else(s) => s.display(indentation),
            Statement::Loop(l) => l.display(indentation),
            Statement::While(w) => w.display(indentation),
            Statement::For(_) => {
                assert(false);
                Vec::new()
            },
            Statement::Break(b) => b.display(indentation),
            Statement::Continue(c) => c.display(indentation),
            Statement::Declaration(d) => d.display(indentation),
            Statement::Assignment(a) => a.display(indentation),
            Statement::Walrus(w) => w.display(indentation),
            Statement::DeclarationAssignment(d) => d.display(indentation),
            Statement::Expression(e) => e.display(indentation),
            Statement::Function(f) => f.display(indentation),
        }
    }
}

impl Return {
    pub fn display(&self, indentation: usize) -> (out: Vec<Piece>)
        requires
            stmt_shows(SpecStmt::Return { value: (self.value.0@, self.value.1) }, indentation as nat),
        ensures
            pieces_view(out@) == stmt_pieces(SpecStmt::Return { value: (self.value.0@, self.value.1) }, indentation as nat),
    {
        let mut out: Vec<Piece> = Vec::new();
        push_labeled(&mut out, indentation, "Return", Paint::Red, String::from_str(":\n"));
        push_place(&mut out, self.value.1);
        extend(&mut out, self.value.0.display(indentation + 4));
        assert(pieces_view(out@) =~= stmt_pieces(SpecStmt::Return { value: (self.value.0@, self.value.1) }, indentation as nat));
        out
    }
}

impl IfStatement {
    pub fn display(&self, indentation: usize) -> (out: Vec<Piece>)
        requires
            stmt_shows(
                SpecStmt::If { condition: (self.condition.0@, self.condition.1), branch: (self.branch.0@, self.branch.1) },
                indentation as nat,
            ),
        ensures
            pieces_view(out@) == stmt_pieces(
                SpecStmt::If { condition: (self.condition.0@, self.condition.1), branch: (self.branch.0@, self.branch.1) },
                indentation as nat,
            ),
        decreases self,
    {
        let mut out: Vec<Piece> = Vec::new();
        push_labeled(&mut out, indentation, "If", Paint::Red, String::from_str("\n"));
        push_place(&mut out, self.condition.1);
        extend(&mut out, self.condition.0.display(indentation + 4));
        extend(&mut out, display_children(&self.branch.0.children, indentation + 4));
        assert(pieces_view(out@) =~= stmt_pieces(
            SpecStmt::If { condition: (self.condition.0@, self.condition.1), branch: (self.branch.0@, self.branch.1) },
            indentation as nat,
        ));
        out
    }
}

impl ElseStatement {
    pub fn display(&self, indentation: usize) -> (out: Vec<Piece>)
        requires
            stmt_shows(Statement::Else(*self)@, indentation as nat),
        ensures
            pieces_view(out@) == stmt_pieces(Statement::Else(*self)@, indentation as nat),
        decreases self,
    {
        let mut out: Vec<Piece> = Vec::new();
        match &self.condition {
            Some(con) => {
                push_labeled(&mut out, indentation, "Else If", Paint::Red, String::from_str("\n"));
                push_place(&mut out, con.1);
                extend(&mut out, con.0.display(indentation + 4));
            },
            None => {
                push_labeled(&mut out, indentation, "Else", Paint::Red, String::from_str("\n"));
            },
        }
        extend(&mut out, display_children(&self.branch.0.children, indentation + 4));
        assert(pieces_view(out@) =~= stmt_pieces(Statement::Else(*self)@, indentation as nat));
        out
    }
}

impl Loop {
    pub fn display(&self, indentation: usize) -> (out: Vec<Piece>)
        requires
            stmt_shows(SpecStmt::Loop { body: (self.body.0@, self.body.1) }, indentation as nat),
        ensures
            pieces_view(out@) == stmt_pieces(SpecStmt::Loop { body: (self.body.0@, self.body.1) }, indentation as nat),
        decreases self,
    {
        let mut out: Vec<Piece> = Vec::new();
        push_labeled(&mut out, indentation, "Loop", Paint::Red, String::from_str("\n"));
        extend(&mut out, display_children(&self.body.0.children, indentation + 4));
        assert(pieces_view(out@) =~= stmt_pieces(SpecStmt::Loop { body: (self.body.0@, self.body.1) }, indentation as nat));
        out
    }
}

impl WhileLoop {
    pub fn display(&self, indentation: usize) -> (out: Vec<Piece>)
        requires
            stmt_shows(
                SpecStmt::While { condition: (self.condition.0@, self.condition.1), body: (self.body.0@, self.body.1) },
                indentation as nat,
            ),
        ensures
            pieces_view(out@) == stmt_pieces(
                SpecStmt::While { condition: (self.condition.0@, self.condition.1), body: (self.body.0@, self.body.1) },
                indentation as nat,
            ),
        decreases self,
    {
        let mut out: Vec<Piece> = Vec::new();
        push_labeled(&mut out, indentation, "While", Paint::Red, String::from_str("\n"));
        push_place(&mut out, self.condition.1);
        extend(&mut out, self.condition.0.display(indentation + 4));
        extend(&mut out, display_children(&self.body.0.children, indentation + 4));
        assert(pieces_view(out@) =~= stmt_pieces(
            SpecStmt::While { condition: (self.condition.0@, self.condition.1), body: (self.body.0@, self.body.1) },
            indentation as nat,
        ));
        out
    }
}

impl Break {
    pub fn display(&self, indentation: usize) -> (out: Vec<Piece>)
        ensures
            pieces_view(out@) == stmt_pieces(SpecStmt::Break, indentation as nat),
    {
        let mut out: Vec<Piece> = Vec::new();
        push_labeled(&mut out, indentation, "Break", Paint::Red, String::from_str("\n"));
        out
    }
}

impl Continue {
    /// Shown with the label `Break`.
    pub fn display(&self, indentation: usize) -> (out: Vec<Piece>)
        ensures
            pieces_view(out@) == stmt_pieces(SpecStmt::Continue, indentation as nat),
    {
        let mut out: Vec<Piece> = Vec::new();
        push_labeled(&mut out, indentation, "Break", Paint::Red, String::from_str("\n"));
        out
    }
}

impl VariableDeclaration {
    pub fn display(&self, indentation: usize) -> (out: Vec<Piece>)
        ensures
            pieces_view(out@) == decl_pieces(self@, indentation as nat),
    {
        let mut out: Vec<Piece> = Vec::new();
        let rest = cat(cat(cat(String::from_str(": `"), self.id.as_str()), "` : "), debug_text(&self.var_type).as_str());
        push_labeled(&mut out, indentation, "VarDecl", Paint::Red, cat(rest, "\n"));
        out
    }
}

impl Assignment {
    pub fn display(&self, indentation: usize) -> (out: Vec<Piece>)
        requires
            assign_shows(self@, indentation as nat),
        ensures
            pieces_view(out@) == assign_pieces(self@, indentation as nat),
    {
        let mut out: Vec<Piece> = Vec::new();
        let rest = cat(cat(String::from_str(": `"), self.lhs.as_str()), "`\n");
        push_labeled(&mut out, indentation, "Assign", Paint::Red, rest);
        push_place(&mut out, self.value.1);
        extend(&mut out, self.value.0.display(indentation + 4));
        assert(pieces_view(out@) =~= assign_pieces(self@, indentation as nat));
        out
    }
}

impl WalrusDeclaration {
    pub fn display(&self, indentation: usize) -> (out: Vec<Piece>)
        ensures
            pieces_view(out@) == stmt_pieces(
                SpecStmt::Walrus { id: self.id@, initializer: (self._initializer.0@, self._initializer.1) },
                indentation as nat,
            ),
    {
        let mut out: Vec<Piece> = Vec::new();
        let rest = cat(cat(String::from_str(": `"), self.id.as_str()), "` := ...\n");
        push_labeled(&mut out, indentation, "WalrusDecl", Paint::Red, rest);
        out
    }
}

impl DeclarationAssignment {
    pub fn display(&self, indentation: usize) -> (out: Vec<Piece>)
        requires
            stmt_shows(
                SpecStmt::DeclarationAssignment {
                    declaration: (self.declaration.0@, self.declaration.1),
                    assignment: (self.assignment.0@, self.assignment.1),
                },
                indentation as nat,
            ),
        ensures
            pieces_view(out@) == stmt_pieces(
                SpecStmt::DeclarationAssignment {
                    declaration: (self.declaration.0@, self.declaration.1),
                    assignment: (self.assignment.0@, self.assignment.1),
                },
                indentation as nat,
            ),
    {
        let mut out: Vec<Piece> = Vec::new();
        push_labeled(&mut out, indentation, "DeclAssign", Paint::Red, String::from_str("\n"));
        push_place(&mut out, self.declaration.1);
        extend(&mut out, self.declaration.0.display(indentation + 4));
        push_place(&mut out, self.assignment.1);
        extend(&mut out, self.assignment.0.display(indentation + 4));
        assert(pieces_view(out@) =~= stmt_pieces(
            SpecStmt::DeclarationAssignment {
                declaration: (self.declaration.0@, self.declaration.1),
                assignment: (self.assignment.0@, self.assignment.1),
            },
            indentation as nat,
        ));
        out
    }
}

proof fn lemma_stmt_args_show_prefix(args: Seq<(SpecExpr, Position)>, i: nat, k: int)
    requires
        stmt_args_show(args, i),
        0 <= k <= args.len(),
    ensures
        stmt_args_show(args.take(k), i),
        k > 0 ==> place_fits(args[k - 1].1) && expr_shows(args[k - 1].0, i + 12),
    decreases args.len(),
{
    if k == args.len() {
        assert(args.take(k) =~= args);
    } else {
        assert(args.drop_last().take(k) =~= args.take(k));
        lemma_stmt_args_show_prefix(args.drop_last(), i, k);
    }
}

impl ExpressionStatement {
    /// `ExprStat`, then a short line for the expression; a call shows its
    /// arguments in full.
    #[verifier::spinoff_prover]
    pub fn display(&self, indentation: usize) -> (out: Vec<Piece>)
        requires
            expr_stmt_shows(self.expression@, indentation as nat),
        ensures
            pieces_view(out@) == expr_stmt_pieces(self.expression@, indentation as nat),
    {
        let mut out: Vec<Piece> = Vec::new();
        push_plain(&mut out, cat(spaces_text(indentation), "└───[ ExprStat\n"));
        let inner = spaces_text(indentation + 4);
        match &self.expression {
            Expr::Cast((cast, _), _) => match cast {
                Cast::Primitive((cast_type, _)) => {
                    push_plain(&mut out, cat(cat(cat(inner, "-> PrimtiveCast("), cast_type.as_str()), ")\n"));
                },
                Cast::NonPrimitive((cast_type, _)) => {
                    push_plain(&mut out, cat(cat(cat(inner, "-> NonPrimitiveCast("), cast_type.as_str()), ")\n"));
                },
            },
            Expr::Boolean((b, _)) => {
                push_plain(&mut out, cat(cat(cat(inner, "-> Number("), b.as_str()), ")\n"));
            },
            Expr::Number((n, _)) => {
                push_plain(&mut out, cat(cat(cat(inner, "-> Number("), n.as_str()), ")\n"));
            },
            Expr::Character((ch, _)) => {
                push_plain(&mut out, cat(cat(cat(inner, "-> Character('"), ch.as_str()), "')\n"));
            },
            Expr::String((st, _)) => {
                push_plain(&mut out, cat(cat(cat(inner, "-> String(\""), st.as_str()), "\")\n"));
            },
            Expr::Binary((bin, _)) => {
                extend(&mut out, bin.display(indentation + 4));
            },
            Expr::VariableCall((id, _)) => {
                push_plain(&mut out, cat(cat(cat(inner, "-> Identifier("), id.as_str()), ")\n"));
            },
            Expr::FunctionCall { function, arguments } => {
                push_plain(&mut out, cat(cat(cat(inner, "└───[ FnCall: `"), function.0.as_str()), "`\n"));
                let ghost args = crate::front::nodes::expr::args_view(arguments@);
                let ghost before = pieces_view(out@);
                proof {
                    lemma_args_view(arguments@);
                    assert(args.take(0) =~= Seq::<(SpecExpr, Position)>::empty());
                }
                let mut k: usize = 0;
                while k < arguments.len()
                    invariant
                        k <= arguments.len(),
                        args == crate::front::nodes::expr::args_view(arguments@),
                        args.len() == arguments.len(),
                        forall|j: int| 0 <= j < arguments.len() ==> #[trigger] args[j] == (arguments@[j].0@, arguments@[j].1),
                        stmt_args_show(args, indentation as nat),
                        indentation + 18 <= usize::MAX,
                        pieces_view(out@) == before + stmt_args_pieces(args.take(k as int), indentation as nat),
                    decreases arguments.len() - k,
                {
                    proof {
                        assert(args.take(k + 1).drop_last() =~= args.take(k as int));
                        assert(args.take(k + 1).last() == args[k as int]);
                        lemma_stmt_args_show_prefix(args, indentation as nat, k + 1);
                    }
                    let pos = arguments[k].1;
                    push_place(&mut out, pos);
                    let n = pad_of(pos);
                    push_plain(&mut out, cat(spaces_text(indentation + n + 8), "└───[ Argument:\n"));
                    extend(&mut out, arguments[k].0.display(indentation + 12));
                    k += 1;
                }
                assert(args.take(k as int) =~= args);
            },
        }
        assert(pieces_view(out@) =~= expr_stmt_pieces(self.expression@, indentation as nat));
        out
    }
}

impl Parameter {
    pub fn display(&self, indentation: usize) -> (out: Vec<Piece>)
        ensures
            pieces_view(out@) == param_pieces(self@, indentation as nat),
    {
        let mut out: Vec<Piece> = Vec::new();
        let rest = cat(cat(cat(String::from_str(": `"), self.id.as_str()), "` : "), debug_text(&self.var_type).as_str());
        push_labeled(&mut out, indentation, "Parameter", Paint::Blue, cat(rest, "\n"));
        out
    }
}

impl FunctionReturnType {
    pub fn display(&self, indentation: usize) -> (out: Vec<Piece>)
        ensures
            pieces_view(out@) == return_type_pieces(self.0@, indentation as nat),
    {
        let mut out: Vec<Piece> = Vec::new();
        let rest = cat(String::from_str(": "), debug_text(&self.0).as_str());
        push_labeled(&mut out, indentation, "FnRetType", Paint::Blue, cat(rest, "\n"));
        out
    }
}

impl FunctionParameter {
    pub fn display(&self, indentation: usize) -> (out: Vec<Piece>)
        ensures
            pieces_view(out@) == labeled(
                indentation as nat,
                "FnParam"@,
                Paint::Blue,
                ": `"@ + self.id@ + "` : "@ + type_debug(self.param_type@) + "\n"@,
            ),
    {
        let mut out: Vec<Piece> = Vec::new();
        let rest = cat(cat(cat(String::from_str(": `"), self.id.as_str()), "` : "), debug_text(&self.param_type).as_str());
        push_labeled(&mut out, indentation, "FnParam", Paint::Blue, cat(rest, "\n"));
        out
    }
}

impl FunctionBody {
    /// `FnBody`, then the statements, each after its place.
    pub fn display(&self, indentation: usize) -> (out: Vec<Piece>)
        requires
            indentation + 4 <= usize::MAX,
            stmts_show(self.stmts(), (indentation + 4) as nat),
        ensures
            pieces_view(out@) == labeled(indentation as nat, "FnBody"@, Paint::Blue, "\n"@) + stmts_pieces(
                self.stmts(),
                (indentation + 4) as nat,
            ),
    {
        let mut out: Vec<Piece> = Vec::new();
        push_labeled(&mut out, indentation, "FnBody", Paint::Blue, String::from_str("\n"));
        extend(&mut out, display_children(&self.children, indentation + 4));
        out
    }
}

impl Body {
    /// `Body`, then the statements, each after its place.
    pub fn display(&self, indentation: usize) -> (out: Vec<Piece>)
        requires
            indentation + 4 <= usize::MAX,
            stmts_show(self@, (indentation + 4) as nat),
        ensures
            pieces_view(out@) == labeled(indentation as nat, "Body"@, Paint::Blue, "\n"@) + stmts_pieces(self@, (indentation + 4) as nat),
        decreases self,
    {
        let mut out: Vec<Piece> = Vec::new();
        push_labeled(&mut out, indentation, "Body", Paint::Blue, String::from_str("\n"));
        extend(&mut out, display_children(&self.children, indentation + 4));
        out
    }
}

impl FunctionDefinition {
    /// `FnDef` and the name, then the parameters, the return type and the
    /// body, each after its place.
    pub fn display(&self, indentation: usize) -> (out: Vec<Piece>)
        requires
            stmt_shows(SpecStmt::Function(self@), indentation as nat),
        ensures
            pieces_view(out@) == stmt_pieces(SpecStmt::Function(self@), indentation as nat),
        decreases self,
    {
        let mut out: Vec<Piece> = Vec::new();
        let rest = cat(cat(String::from_str(": `"), self.id.0.as_str()), "`\n");
        push_labeled(&mut out, indentation, "FnDef", Paint::Yellow, rest);
        let ghost ps = self@.parameters;
        let ghost before = pieces_view(out@);
        assert(ps.take(0) =~= Seq::<(SpecParam, Position)>::empty());
        let mut k: usize = 0;
        while k < self.parameters.len()
            invariant
                k <= self.parameters.len(),
                ps == crate::front::nodes::parameter::params_view(self.parameters@),
                forall|j: int| 0 <= j < ps.len() ==> place_fits(#[trigger] ps[j].1),
                indentation + 8 <= usize::MAX,
                pieces_view(out@) == before + params_pieces(ps.take(k as int), (indentation + 4) as nat),
            decreases self.parameters.len() - k,
        {
            proof {
                assert(ps.take(k + 1).drop_last() =~= ps.take(k as int));
                assert(ps.take(k + 1).last() == ps[k as int]);
                assert(ps[k as int] == (self.parameters@[k as int].0@, self.parameters@[k as int].1));
                assert(place_fits(ps[k as int].1));
            }
            push_place(&mut out, self.parameters[k].1);
            extend(&mut out, self.parameters[k].0.display(indentation + 4));
            k += 1;
        }
        assert(ps.take(k as int) =~= ps);
        push_place(&mut out, self.return_type.1);
        extend(&mut out, self.return_type.0.display(indentation + 4));
        push_place(&mut out, self.body.1);
        extend(&mut out, self.body.0.display(indentation + 4));
        assert(pieces_view(out@) =~= stmt_pieces(SpecStmt::Function(self@), indentation as nat));
        out
    }
}

impl Ast {
    /// `Abstract Syntax Tree` and an empty line, then the definitions, each
    /// after its place.
    pub fn display(&self, indentation: usize) -> (out: Vec<Piece>)
        requires
            stmts_show(self@, indentation as nat),
        ensures
            pieces_view(out@) == plain(spaces(indentation as nat) + "Abstract Syntax Tree\n\n"@) + stmts_pieces(
                self@,
                indentation as nat,
            ),
    {
        let mut out: Vec<Piece> = Vec::new();
        push_plain(&mut out, cat(spaces_text(indentation), "Abstract Syntax Tree\n\n"));
        extend(&mut out, display_children(&self.children, indentation));
        out
    }
}

impl Range {
    pub fn display(&self, indentation: usize) -> (out: Vec<Piece>)
        ensures
            pieces_view(out@) == labeled(indentation as nat, "Range"@, Paint::Red, "\n"@),
    {
        let mut out: Vec<Piece> = Vec::new();
        push_labeled(&mut out, indentation, "Range", Paint::Red, String::from_str("\n"));
        out
    }
}

// ---------------------------------------------------------------------------
// Whether a tree can be dumped
// ---------------------------------------------------------------------------

fn place_fits_now(p: Position) -> (b: bool)
    ensures
        b == place_fits(p),
{
    let t = place_string(p);
    chars_of(t.as_str()).len() <= 10
}

impl Expr {
    /// Whether the expression can be dumped at indentation `indentation`
    /// (see `expr_shows`).
    #[verifier::loop_isolation(false)]
    pub fn shows(&self, indentation: usize) -> (b: bool)
        ensures
            b == expr_shows(self@, indentation as nat),
        decreases self,
    {
        match self {
            Expr::Cast((_, inner), pos) => indentation <= usize::MAX - 8 && place_fits_now(*pos) && inner.shows(
                indentation + 8,
            ),
            Expr::Binary((b, _)) => {
                indentation <= usize::MAX - 4 && place_fits_now(b.left.1) && place_fits_now(b.right.1)
                    && b.left.0.shows(indentation + 4) && b.right.0.shows(indentation + 4)
            },
            Expr::FunctionCall { function: _, arguments } => {
                let ghost args = crate::front::nodes::expr::args_view(arguments@);
                proof {
                    lemma_args_view(arguments@);
                }
                let mut k: usize = 0;
                while k < arguments.len()
                    invariant
                        k <= arguments.len(),
                        args == crate::front::nodes::expr::args_view(arguments@),
                        args.len() == arguments.len(),
                        forall|j: int| 0 <= j < arguments.len() ==> #[trigger] args[j] == (arguments@[j].0@, arguments@[j].1),
                        args_show(args.take(k as int), indentation as nat),
                    decreases arguments.len() - k,
                {
                    proof {
                        assert(args.take(k + 1).drop_last() =~= args.take(k as int));
                        assert(args.take(k + 1).last() == args[k as int]);
                    }
                    let pos = arguments[k].1;
                    if !(place_fits_now(pos) && indentation <= usize::MAX - 14) {
                        proof {
                            lemma_args_show_stop(args, indentation as nat, k + 1);
                        }
                        return false;
                    }
                    let n = pad_of(pos);
                    assert(decreases_to!(self => arguments@[k as int].0));
                    if !arguments[k].0.shows(indentation + n + 4) {
                        proof {
                            lemma_args_show_stop(args, indentation as nat, k + 1);
                        }
                        return false;
                    }
                    k += 1;
                }
                assert(args.take(k as int) =~= args);
                true
            },
            _ => true,
        }
    }
}

proof fn lemma_args_show_stop(args: Seq<(SpecExpr, Position)>, i: nat, k: int)
    requires
        0 <= k <= args.len(),
        !args_show(args.take(k), i),
    ensures
        !args_show(args, i),
    decreases args.len(),
{
    if k == args.len() {
        assert(args.take(k) =~= args);
    } else {
        assert(args.drop_last().take(k) =~= args.take(k));
        lemma_args_show_stop(args.drop_last(), i, k);
    }
}

proof fn lemma_stmt_args_show_stop(args: Seq<(SpecExpr, Position)>, i: nat, k: int)
    requires
        0 <= k <= args.len(),
        !stmt_args_show(args.take(k), i),
    ensures
        !stmt_args_show(args, i),
    decreases args.len(),
{
    if k == args.len() {
        assert(args.take(k) =~= args);
    } else {
        assert(args.drop_last().take(k) =~= args.take(k));
        lemma_stmt_args_show_stop(args.drop_last(), i, k);
    }
}

proof fn lemma_stmts_show_stop(stmts: Seq<(SpecStmt, Position)>, i: nat, k: int)
    requires
        0 <= k <= stmts.len(),
        !stmts_show(stmts.take(k), i),
    ensures
        !stmts_show(stmts, i),
    decreases stmts.len(),
{
    if k == stmts.len() {
        assert(stmts.take(k) =~= stmts);
    } else {
        assert(stmts.drop_last().take(k) =~= stmts.take(k));
        lemma_stmts_show_stop(stmts.drop_last(), i, k);
    }
}

#[verifier::loop_isolation(false)]
fn expr_stmt_shows_now(e: &Expr, indentation: usize) -> (b: bool)
    ensures
        b == expr_stmt_shows(e@, indentation as nat),
{
    if indentation > usize::MAX - 18 {
        return false;
    }
    match e {
        Expr::FunctionCall { function: _, arguments } => {
            let ghost args = crate::front::nodes::expr::args_view(arguments@);
            proof {
                lemma_args_view(arguments@);
            }
            let mut k: usize = 0;
            while k < arguments.len()
                invariant
                    k <= arguments.len(),
                    args == crate::front::nodes::expr::args_view(arguments@),
                    args.len() == arguments.len(),
                    forall|j: int| 0 <= j < arguments.len() ==> #[trigger] args[j] == (arguments@[j].0@, arguments@[j].1),
                    stmt_args_show(args.take(k as int), indentation as nat),
                    indentation + 18 <= usize::MAX,
                decreases arguments.len() - k,
            {
                proof {
                    assert(args.take(k + 1).drop_last() =~= args.take(k as int));
                    assert(args.take(k + 1).last() == args[k as int]);
                }
                if !(place_fits_now(arguments[k].1) && arguments[k].0.shows(indentation + 12)) {
                    proof {
                        lemma_stmt_args_show_stop(args, indentation as nat, k + 1);
                    }
                    return false;
                }
                k += 1;
            }
            assert(args.take(k as int) =~= args);
            true
        },
        _ => true,
    }
}

/// Whether the statements can be dumped at indentation `indentation`.
#[verifier::loop_isolation(false)]
fn children_show(children: &Vec<(Statement, Position)>, indentation: usize) -> (b: bool)
    ensures
        b == stmts_show(stmts_view(children@), indentation as nat),
    decreases children,
{
    let ghost stmts = stmts_view(children@);
    proof {
        lemma_stmts_view(children@);
    }
    assert(stmts.take(0) =~= Seq::<(SpecStmt, Position)>::empty());
    let mut k: usize = 0;
    while k < children.len()
        invariant
            k <= children.len(),
            stmts_show(stmts.take(k as int), indentation as nat),
        decreases children.len() - k,
    {
        proof {
            assert(stmts.take(k + 1).drop_last() =~= stmts.take(k as int));
            assert(stmts.take(k + 1).last() == stmts[k as int]);
        }
        assert(decreases_to!(children => children@[k as int].0));
        if !(place_fits_now(children[k].1) && children[k].0.shows(indentation)) {
            proof {
                lemma_stmts_show_stop(stmts, indentation as nat, k + 1);
            }
            return false;
        }
        k += 1;
    }
    assert(stmts.take(k as int) =~= stmts);
    true
}

impl Statement {
    /// Whether the statement can be dumped at indentation `indentation`
    /// (see `stmt_shows`).
    #[verifier::loop_isolation(false)]
    pub fn shows(&self, indentation: usize) -> (b: bool)
        ensures
            b == stmt_shows(self@, indentation as nat),
        decreases self,
    {
        match self {
            Statement::Return(r) => indentation <= usize::MAX - 4 && place_fits_now(r.value.1) && r.value.0.shows(
                indentation + 4,
            ),
            Statement::If(s) => {
                indentation <= usize::MAX - 4 && place_fits_now(s.condition.1) && s.condition.0.shows(indentation + 4)
                    && children_show(&s.branch.0.children, indentation + 4)
            },
            Statement::Else(s) => {
                indentation <= usize::MAX - 4 && match &s.condition {
                    Some(c) => place_fits_now(c.1) && c.0.shows(indentation + 4),
                    None => true,
                } && children_show(&s.branch.0.children, indentation + 4)
            },
            Statement::Loop(l) => indentation <= usize::MAX - 4 && children_show(&l.body.0.children, indentation + 4),
            Statement::While(w) => {
                indentation <= usize::MAX - 4 && place_fits_now(w.condition.1) && w.condition.0.shows(indentation + 4)
                    && children_show(&w.body.0.children, indentation + 4)
            },
            Statement::For(_) => false,
            Statement::Assignment(a) => indentation <= usize::MAX - 4 && place_fits_now(a.value.1) && a.value.0.shows(
                indentation + 4,
            ),
            Statement::DeclarationAssignment(d) => {
                indentation <= usize::MAX - 8 && place_fits_now(d.declaration.1) && place_fits_now(d.assignment.1)
                    && place_fits_now(d.assignment.0.value.1) && d.assignment.0.value.0.shows(indentation + 8)
            },
            Statement::Expression(e) => expr_stmt_shows_now(&e.expression, indentation),
            Statement::Function(f) => {
                if indentation > usize::MAX - 8 || !place_fits_now(f.return_type.1) || !place_fits_now(f.body.1) {
                    return false;
                }
                let ghost ps = f@.parameters;
                let mut k: usize = 0;
                while k < f.parameters.len()
                    invariant
                        k <= f.parameters.len(),
                        ps == crate::front::nodes::parameter::params_view(f.parameters@),
                        forall|j: int| 0 <= j < k ==> place_fits(#[trigger] ps[j].1),
                    decreases f.parameters.len() - k,
                {
                    if !place_fits_now(f.parameters[k].1) {
                        assert(ps[k as int].1 == f.parameters@[k as int].1);
                        return false;
                    }
                    assert(ps[k as int].1 == f.parameters@[k as int].1);
                    k += 1;
                }
                children_show(&f.body.0.children, indentation + 8)
            },
            _ => true,
        }
    }
}

impl Ast {
    /// Whether the tree can be dumped at indentation `indentation`: it holds
    /// no `for` loop, every place fits in ten characters, and no indentation
    /// overflows.
    pub fn displayable(&self, indentation: usize) -> (b: bool)
        ensures
            b == stmts_show(self@, indentation as nat),
    {
        children_show(&self.children, indentation)
    }
}

/// The dump names an operator as the lexer names the token it is written
/// with: `+` is `Plus` in both, `-` `Minus`, `*` `Asterisk`, `/` `Fslash`, `%`
/// `Percent`, and so on for every operator that has a token of its own.
pub proof fn law_operator_names()
    ensures
        operator_debug(Operator::Plus) == token_debug(SpecToken::Plus),
        operator_debug(Operator::Minus) == token_debug(SpecToken::Minus),
        operator_debug(Operator::Asterisk) == token_debug(SpecToken::Asterisk),
        operator_debug(Operator::Fslash) == token_debug(SpecToken::Fslash),
        operator_debug(Operator::Percent) == token_debug(SpecToken::Percent),
        operator_debug(Operator::And) == token_debug(SpecToken::And),
        operator_debug(Operator::Or) == token_debug(SpecToken::Or),
        operator_debug(Operator::Not) == token_debug(SpecToken::Not),
        operator_debug(Operator::Compare) == token_debug(SpecToken::Compare),
        operator_debug(Operator::Walrus) == token_debug(SpecToken::Walrus),
{
}

} // verus!
