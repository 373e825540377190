//! Expressions: their syntax, their types, and the three-address code that
//! computes them.
use vstd::prelude::*;

use crate::front::nodes::cast::{Cast, SpecCast};
use crate::front::nodes::operator::Operator;
use crate::front::token::Position;
use crate::middle::ir::{
    entry_lookup, instrs_view, offsets_view, strings_view, temp_name, find_offset, IRContext,
    IRInstruction, IRUnit, SpecInstr, SpecUnit, units_view,
};
use crate::front::nodes::types::{basic_type, PrimitiveType, SpecType, Type};
use crate::front::semantic::{lookup_spec, SemanticContext, SpecContext, SpecSymbol, Symbol};
use crate::text::{int_string, int_text, parse_i64, parse_i64_spec};

verus! {

#[derive(Debug)]
pub struct BinaryExpr {
    pub op: Operator,
    pub left: (Expr, Position),
    pub right: (Expr, Position),
}

#[derive(Debug)]
pub enum Expr {
    Cast((Cast, Box<Expr>), Position),
    Number((String, Position)),
    Boolean((String, Position)),
    Character((String, Position)),
    String((String, Position)),
    Binary((Box<BinaryExpr>, Position)),
    VariableCall((String, Position)),
    FunctionCall { function: (String, Position), arguments: Vec<(Expr, Position)> },
}

/// The mathematical value of a [`BinaryExpr`].
pub struct SpecBinaryExpr {
    pub op: Operator,
    pub left: (SpecExpr, Position),
    pub right: (SpecExpr, Position),
}

/// The mathematical value of an [`Expr`].
pub enum SpecExpr {
    Cast(SpecCast, Box<SpecExpr>, Position),
    Number(Seq<char>, Position),
    Boolean(Seq<char>, Position),
    Character(Seq<char>, Position),
    String(Seq<char>, Position),
    Binary(Box<SpecBinaryExpr>, Position),
    VariableCall(Seq<char>, Position),
    FunctionCall(Seq<char>, Position, Seq<(SpecExpr, Position)>),
}

pub open spec fn args_view(a: Seq<(Expr, Position)>) -> Seq<(SpecExpr, Position)>
    decreases a,
{
    if a.len() == 0 {
        Seq::empty()
    } else {
        args_view(a.drop_last()).push((a.last().0.view(), a.last().1))
    }
}

impl View for Expr {
    type V = SpecExpr;

    open spec fn view(&self) -> SpecExpr
        decreases self,
    {
        match self {
            Expr::Cast((c, e), p) => SpecExpr::Cast(c@, Box::new((**e).view()), *p),
            Expr::Number((s, p)) => SpecExpr::Number(s@, *p),
            Expr::Boolean((s, p)) => SpecExpr::Boolean(s@, *p),
            Expr::Character((s, p)) => SpecExpr::Character(s@, *p),
            Expr::String((s, p)) => SpecExpr::String(s@, *p),
            Expr::Binary((b, p)) => SpecExpr::Binary(
                Box::new(
                    SpecBinaryExpr {
                        op: b.op,
                        left: (b.left.0.view(), b.left.1),
                        right: (b.right.0.view(), b.right.1),
                    },
                ),
                *p,
            ),
            Expr::VariableCall((s, p)) => SpecExpr::VariableCall(s@, *p),
            Expr::FunctionCall { function, arguments } => SpecExpr::FunctionCall(
                function.0@,
                function.1,
                args_view(arguments@),
            ),
        }
    }
}

impl View for BinaryExpr {
    type V = SpecBinaryExpr;

    open spec fn view(&self) -> SpecBinaryExpr {
        SpecBinaryExpr { op: self.op, left: (self.left.0@, self.left.1), right: (self.right.0@, self.right.1) }
    }
}

pub proof fn lemma_args_view(a: Seq<(Expr, Position)>)
    ensures
        args_view(a).len() == a.len(),
        forall|i: int| 0 <= i < a.len() ==> #[trigger] args_view(a)[i] == (a[i].0@, a[i].1),
    decreases a.len(),
{
    if a.len() > 0 {
        lemma_args_view(a.drop_last());
        assert(args_view(a) == args_view(a.drop_last()).push((a.last().0.view(), a.last().1)));
        assert forall|i: int| 0 <= i < a.len() implies #[trigger] args_view(a)[i] == (a[i].0@, a[i].1) by {
            if i < a.len() - 1 {
                assert(a.drop_last()[i] == a[i]);
            }
        }
    } else {
        assert(args_view(a) == Seq::<(SpecExpr, Position)>::empty());
    }
}

// ---------------------------------------------------------------------------
// Three-address code
// ---------------------------------------------------------------------------

/// The operators that have a three-address instruction.
pub open spec fn op_has_instr(op: Operator) -> bool {
    match op {
        Operator::Plus | Operator::Minus | Operator::Asterisk | Operator::Fslash | Operator::Percent
        | Operator::And | Operator::Or | Operator::Xor | Operator::ShiftLeft | Operator::ShiftRight => true,
        _ => false,
    }
}

/// The instruction computing `dest = l op r`.
pub open spec fn binary_instr(op: Operator, dest: Seq<char>, l: Seq<char>, r: Seq<char>) -> SpecInstr {
    match op {
        Operator::Plus => SpecInstr::Add { dest, op1: l, op2: r },
        Operator::Minus => SpecInstr::Sub { dest, op1: l, op2: r },
        Operator::Asterisk => SpecInstr::Mul { dest, op1: l, op2: r },
        Operator::Fslash => SpecInstr::Div { dest, op1: l, op2: r },
        Operator::Percent => SpecInstr::Mod { dest, op1: l, op2: r },
        Operator::And => SpecInstr::And { dest, op1: l, op2: r },
        Operator::Or => SpecInstr::Or { dest, op1: l, op2: r },
        Operator::Xor => SpecInstr::Xor { dest, op1: l, op2: r },
        Operator::ShiftLeft => SpecInstr::ShiftLeft { dest, op1: l, op2: r },
        _ => SpecInstr::ShiftRight { dest, op1: l, op2: r },
    }
}

/// Whether three-address code can be generated for an expression: number
/// literals that `i64` holds, non-empty character literals, variables, calls
/// whose arguments qualify, and binary expressions with an instruction for
/// their operator and operands that qualify.
pub open spec fn tac_defined(e: SpecExpr) -> bool
    decreases e,
{
    match e {
        SpecExpr::Number(n, _) => parse_i64_spec(n) is Some,
        SpecExpr::Character(c, _) => c.len() > 0,
        SpecExpr::VariableCall(_, _) => true,
        SpecExpr::Binary(b, _) => op_has_instr(b.op) && tac_defined(b.left.0) && tac_defined(b.right.0),
        SpecExpr::FunctionCall(_, _, args) => tac_args_defined(args),
        _ => false,
    }
}

pub open spec fn tac_args_defined(args: Seq<(SpecExpr, Position)>) -> bool
    decreases args,
{
    if args.len() == 0 {
        true
    } else {
        tac_args_defined(args.drop_last()) && tac_defined(args.last().0)
    }
}

/// How many temporaries the three-address code of an expression allocates.
pub open spec fn temps_needed(e: SpecExpr) -> nat
    decreases e,
{
    match e {
        SpecExpr::Binary(b, _) => temps_needed(b.left.0) + temps_needed(b.right.0) + 1,
        SpecExpr::FunctionCall(_, _, args) => args_temps_needed(args) + 1,
        SpecExpr::Number(..) | SpecExpr::Character(..) | SpecExpr::VariableCall(..) => 1,
        _ => 0,
    }
}

pub open spec fn args_temps_needed(args: Seq<(SpecExpr, Position)>) -> nat
    decreases args,
{
    if args.len() == 0 {
        0
    } else {
        args_temps_needed(args.drop_last()) + temps_needed(args.last().0)
    }
}

/// The memory operand of a variable: its stack slot `{offset}(%rbp)` when it has
/// one, else its name.
pub open spec fn var_operand(offs: Seq<(Seq<char>, i32)>, name: Seq<char>) -> Seq<char> {
    match entry_lookup(offs, name) {
        Some(o) => int_text(o as int) + "(%rbp)"@,
        None => name,
    }
}

/// The three-address code of an expression, when temporaries are numbered
/// from `n + 1` and variables have the stack slots `offs`: the temporary holding
/// the value, the instructions computing it, and the last temporary number used.
///
/// Operands are computed left to right; the result temporary of a binary
/// expression or a call is allocated after those of its operands.
pub open spec fn tac_spec(e: SpecExpr, n: nat, offs: Seq<(Seq<char>, i32)>) -> (Seq<char>, Seq<SpecInstr>, nat)
    decreases e,
{
    match e {
        SpecExpr::Number(s, _) => (
            temp_name(n + 1),
            seq![SpecInstr::LoadConstant { dest: temp_name(n + 1), value: parse_i64_spec(s).unwrap() }],
            n + 1,
        ),
        SpecExpr::Character(c, _) => (
            temp_name(n + 1),
            seq![SpecInstr::LoadConstant { dest: temp_name(n + 1), value: c[0] as i64 }],
            n + 1,
        ),
        SpecExpr::VariableCall(name, _) => (
            temp_name(n + 1),
            seq![SpecInstr::Load { dest: temp_name(n + 1), src: var_operand(offs, name) }],
            n + 1,
        ),
        SpecExpr::Binary(b, _) => {
            let (tl, il, nl) = tac_spec(b.left.0, n, offs);
            let (tr, ir, nr) = tac_spec(b.right.0, nl, offs);
            (temp_name(nr + 1), il + ir + seq![binary_instr(b.op, temp_name(nr + 1), tl, tr)], nr + 1)
        },
        SpecExpr::FunctionCall(f, _, args) => {
            let (ts, is, m) = tac_args(args, n, offs);
            (temp_name(m + 1), is + seq![SpecInstr::Call { dest: temp_name(m + 1), fn_id: f, args: ts }], m + 1)
        },
        _ => (Seq::empty(), Seq::empty(), n),
    }
}

/// The three-address code of call arguments, left to right: their temporaries,
/// the instructions, and the last temporary number used.
pub open spec fn tac_args(args: Seq<(SpecExpr, Position)>, n: nat, offs: Seq<(Seq<char>, i32)>) -> (Seq<Seq<char>>, Seq<SpecInstr>, nat)
    decreases args,
{
    if args.len() == 0 {
        (Seq::empty(), Seq::empty(), n)
    } else {
        let (ts, is, m) = tac_args(args.drop_last(), n, offs);
        let (t, i, k) = tac_spec(args.last().0, m, offs);
        (ts.push(t), is + i, k)
    }
}

pub proof fn lemma_tac_count(e: SpecExpr, n: nat, offs: Seq<(Seq<char>, i32)>)
    ensures
        tac_spec(e, n, offs).2 == n + temps_needed(e),
    decreases e,
{
    if let SpecExpr::Binary(b, _) = e {
        let nl = tac_spec(b.left.0, n, offs).2;
        lemma_tac_count(b.left.0, n, offs);
        lemma_tac_count(b.right.0, nl, offs);
    } else if let SpecExpr::FunctionCall(_, _, args) = e {
        lemma_tac_args_count(args, n, offs);
    }
}

pub proof fn lemma_tac_args_count(args: Seq<(SpecExpr, Position)>, n: nat, offs: Seq<(Seq<char>, i32)>)
    ensures
        tac_args(args, n, offs).2 == n + args_temps_needed(args),
    decreases args,
{
    if args.len() > 0 {
        lemma_tac_args_count(args.drop_last(), n, offs);
        lemma_tac_count(args.last().0, tac_args(args.drop_last(), n, offs).2, offs);
    }
}

/// The IR units of an expression standing on its own: a global unit with its
/// three-address code, except that a variable is loaded by name.
pub open spec fn expr_ir_spec(e: SpecExpr, n: nat, offs: Seq<(Seq<char>, i32)>) -> (Seq<SpecUnit>, nat) {
    match e {
        SpecExpr::VariableCall(name, _) => (
            seq![SpecUnit::Global(seq![SpecInstr::Load { dest: temp_name(n + 1), src: name }])],
            n + 1,
        ),
        _ => {
            let (_, is, m) = tac_spec(e, n, offs);
            (seq![SpecUnit::Global(is)], m)
        },
    }
}

/// Whether IR can be generated for an expression standing on its own: numbers,
/// binary expressions, variables and calls, when their code can be generated.
pub open spec fn expr_ir_defined(e: SpecExpr) -> bool {
    match e {
        SpecExpr::Number(..) | SpecExpr::Binary(..) | SpecExpr::VariableCall(..) | SpecExpr::FunctionCall(..) => tac_defined(e),
        _ => false,
    }
}

/// The parts of the generation context that producing code for an expression
/// leaves alone.
pub open spec fn ctx_frame(a: IRContext, b: IRContext) -> bool {
    &&& a.label_count == b.label_count
    &&& a.symbol_table == b.symbol_table
    &&& a.stack_allocations == b.stack_allocations
    &&& a.current_stack_offset == b.current_stack_offset
    &&& a.target == b.target
}

fn binary_instruction(op: Operator, dest: String, op1: String, op2: String) -> (i: IRInstruction)
    requires
        op_has_instr(op),
    ensures
        i@ == binary_instr(op, dest@, op1@, op2@),
{
    match op {
        Operator::Plus => IRInstruction::Add { dest, op1, op2 },
        Operator::Minus => IRInstruction::Sub { dest, op1, op2 },
        Operator::Asterisk => IRInstruction::Mul { dest, op1, op2 },
        Operator::Fslash => IRInstruction::Div { dest, op1, op2 },
        Operator::Percent => IRInstruction::Mod { dest, op1, op2 },
        Operator::And => IRInstruction::And { dest, op1, op2 },
        Operator::Or => IRInstruction::Or { dest, op1, op2 },
        Operator::Xor => IRInstruction::Xor { dest, op1, op2 },
        Operator::ShiftLeft => IRInstruction::ShiftLeft { dest, op1, op2 },
        _ => IRInstruction::ShiftRight { dest, op1, op2 },
    }
}

impl Expr {
    /// Flattens the expression into three-address code: the temporary that
    /// holds its value and the instructions that compute it.
    #[verifier::loop_isolation(false)]
    pub fn tac(&self, ctx: &mut IRContext) -> (r: (String, Vec<IRInstruction>))
        requires
            tac_defined(self@),
            old(ctx).temp_count + temps_needed(self@) <= usize::MAX,
        ensures
            (r.0@, instrs_view(r.1@), final(ctx).temp_count as nat)
                == tac_spec(self@, old(ctx).temp_count as nat, offsets_view(old(ctx).stack_allocations@)),
            ctx_frame(*final(ctx), *old(ctx)),
        decreases self,
    {
        let ghost offs = offsets_view(ctx.stack_allocations@);
        match self {
            Expr::Number((n, _pos)) => {
                let tmp = ctx.allocate_temp();
                let value = match parse_i64(n.as_str()) {
                    Some(v) => v,
                    None => {
                        assert(false);
                        0
                    },
                };
                let mut v: Vec<IRInstruction> = Vec::new();
                v.push(IRInstruction::LoadConstant { dest: tmp.clone(), value });
                assert(instrs_view(v@) =~= tac_spec(self@, old(ctx).temp_count as nat, offs).1);
                (tmp, v)
            },
            Expr::Binary((boxed, _pos)) => {
                let BinaryExpr { left, op, right } = &**boxed;
                proof {
                    lemma_tac_count(left.0@, ctx.temp_count as nat, offs);
                }
                let (t_left, mut inst_left) = left.0.tac(ctx);
                proof {
                    lemma_tac_count(right.0@, ctx.temp_count as nat, offs);
                }
                let (t_right, mut inst_right) = right.0.tac(ctx);
                let tmp = ctx.allocate_temp();
                let op_inst = binary_instruction(*op, tmp.clone(), t_left, t_right);
                let mut instructions: Vec<IRInstruction> = Vec::new();
                instructions.append(&mut inst_left);
                instructions.append(&mut inst_right);
                instructions.push(op_inst);
                assert(instrs_view(instructions@) =~= tac_spec(self@, old(ctx).temp_count as nat, offs).1);
                (tmp, instructions)
            },
            Expr::Character((ch, _pos)) => {
                let tmp = ctx.allocate_temp();
                let code = ch.as_str().get_char(0) as i64;
                let mut v: Vec<IRInstruction> = Vec::new();
                v.push(IRInstruction::LoadConstant { dest: tmp.clone(), value: code });
                assert(instrs_view(v@) =~= tac_spec(self@, old(ctx).temp_count as nat, offs).1);
                (tmp, v)
            },
            Expr::VariableCall((var_name, _pos)) => {
                let tmp = ctx.allocate_temp();
                let mem_operand = match find_offset(&ctx.stack_allocations, var_name.as_str()) {
                    Some(i) => {
                        let mut s = int_string(ctx.stack_allocations[i].1 as i64);
                        s.append("(%rbp)");
                        s
                    },
                    None => var_name.clone(),
                };
                let mut v: Vec<IRInstruction> = Vec::new();
                v.push(IRInstruction::Load { dest: tmp.clone(), src: mem_operand });
                assert(instrs_view(v@) =~= tac_spec(self@, old(ctx).temp_count as nat, offs).1);
                (tmp, v)
            },
            Expr::FunctionCall { function, arguments } => {
                let ghost args = args_view(arguments@);
                proof {
                    lemma_args_view(arguments@);
                    lemma_tac_args_count(args, ctx.temp_count as nat, offs);
                }
                let ghost n0 = ctx.temp_count as nat;
                let mut instructions: Vec<IRInstruction> = Vec::new();
                let mut arg_temps: Vec<String> = Vec::new();
                let mut i: usize = 0;
                while i < arguments.len()
                    invariant
                        i <= arguments.len(),
                        args == args_view(arguments@),
                        args.len() == arguments.len(),
                        forall|j: int| 0 <= j < arguments.len() ==> #[trigger] args[j] == (arguments@[j].0@, arguments@[j].1),
                        tac_args_defined(args),
                        n0 + args_temps_needed(args) + 1 <= usize::MAX,
                        (strings_view(arg_temps@), instrs_view(instructions@), ctx.temp_count as nat)
                            == tac_args(args.take(i as int), n0, offs),
                        ctx_frame(*ctx, *old(ctx)),
                        offs == offsets_view(ctx.stack_allocations@),
                    decreases arguments.len() - i,
                {
                    proof {
                        assert(args.take(i + 1).drop_last() =~= args.take(i as int));
                        lemma_args_defined_prefix(args, i + 1);
                        lemma_args_temps_prefix(args, i + 1);
                        lemma_tac_args_count(args.take(i as int), n0, offs);
                        assert(args.take(i + 1).last() == args[i as int]);
                    }
                    assert(decreases_to!(self => arguments@[i as int].0));
                    let (temp, mut arg_instrs) = arguments[i].0.tac(ctx);
                    let ghost before_i = instructions@;
                    instructions.append(&mut arg_instrs);
                    arg_temps.push(temp);
                    i += 1;
                    proof {
                        assert(strings_view(arg_temps@) =~= tac_args(args.take(i as int), n0, offs).0);
                        assert(instrs_view(instructions@) =~= tac_args(args.take(i as int), n0, offs).1);
                    }
                }
                assert(args.take(i as int) =~= args);
                let tmp = ctx.allocate_temp();
                instructions.push(IRInstruction::Call { dest: tmp.clone(), fn_id: function.0.clone(), args: arg_temps });
                assert(instrs_view(instructions@) =~= tac_spec(self@, old(ctx).temp_count as nat, offs).1);
                (tmp, instructions)
            },
            _ => {
                assert(false);
                (String::new(), Vec::new())
            },
        }
    }

    /// The IR units of the expression standing on its own.
    pub fn ir(&self, ctx: &mut IRContext) -> (r: Vec<IRUnit>)
        requires
            expr_ir_defined(self@),
            old(ctx).temp_count + temps_needed(self@) <= usize::MAX,
        ensures
            (units_view(r@), final(ctx).temp_count as nat)
                == expr_ir_spec(self@, old(ctx).temp_count as nat, offsets_view(old(ctx).stack_allocations@)),
            ctx_frame(*final(ctx), *old(ctx)),
    {
        match self {
            Expr::VariableCall((var_name, _pos)) => {
                let dest = ctx.allocate_temp();
                let mut v: Vec<IRInstruction> = Vec::new();
                v.push(IRInstruction::Load { dest, src: var_name.clone() });
                let mut units: Vec<IRUnit> = Vec::new();
                units.push(IRUnit::Global(v));
                proof {
                    assert(instrs_view(v@) =~= seq![SpecInstr::Load { dest: temp_name(ctx.temp_count as nat), src: var_name@ }]);
                }
                assert(units_view(units@) =~= expr_ir_spec(self@, old(ctx).temp_count as nat, offsets_view(old(ctx).stack_allocations@)).0);
                units
            },
            _ => {
                let (_t, instructions) = self.tac(ctx);
                let mut units: Vec<IRUnit> = Vec::new();
                units.push(IRUnit::Global(instructions));
                assert(units_view(units@) =~= expr_ir_spec(self@, old(ctx).temp_count as nat, offsets_view(old(ctx).stack_allocations@)).0);
                units
            },
        }
    }
}

proof fn lemma_args_defined_prefix(args: Seq<(SpecExpr, Position)>, k: int)
    requires
        tac_args_defined(args),
        0 <= k <= args.len(),
    ensures
        tac_args_defined(args.take(k)),
        k > 0 ==> tac_defined(args[k - 1].0),
    decreases args.len(),
{
    if k == args.len() {
        assert(args.take(k) =~= args);
    } else {
        assert(args.drop_last().take(k) =~= args.take(k));
        lemma_args_defined_prefix(args.drop_last(), k);
    }
}

proof fn lemma_args_temps_prefix(args: Seq<(SpecExpr, Position)>, k: int)
    requires
        0 <= k <= args.len(),
    ensures
        args_temps_needed(args.take(k)) <= args_temps_needed(args),
    decreases args.len(),
{
    if k == args.len() {
        assert(args.take(k) =~= args);
    } else {
        assert(args.drop_last().take(k) =~= args.take(k));
        lemma_args_temps_prefix(args.drop_last(), k);
    }
}

} // verus!

verus! {

/// An expression standing as a statement.
#[derive(Debug)]
pub struct ExpressionStatement {
    pub expression: Expr,
}

impl ExpressionStatement {
    /// Analyzes the expression.
    pub fn analyze(&self, ctx: &mut SemanticContext) -> (r: Result<(), String>)
        requires
            !old(ctx).halted,
        ensures
            final(ctx).halted == (expr_check(self.expression@, old(ctx)@) is None),
            final(ctx).halted ==> r is Err,
            !final(ctx).halted ==> Some(unit_result_view(r)) == expr_check(self.expression@, old(ctx)@),
            final(ctx)@ == old(ctx)@,
    {
        self.expression.analyze(ctx)
    }
}

} // verus!

verus! {

// ---------------------------------------------------------------------------
// Types of expressions and their analysis
// ---------------------------------------------------------------------------

/// The type of an expression, as `get_type` computes it; `None` where it
/// panics (an undeclared name, or a call of something that is not a function).
///
/// A cast has the type cast to; literals have `i32`, `char`, `str`, and the
/// custom type `bool` for booleans; a binary expression has its left
/// operand's type; a name has the type of its symbol; a call has its
/// function's return type.
pub open spec fn type_of(e: SpecExpr, c: SpecContext) -> Option<SpecType>
    decreases e,
{
    match e {
        SpecExpr::Cast(cast, _, _) => Some(
            match cast {
                SpecCast::Primitive(t, _) => basic_type(t),
                SpecCast::NonPrimitive(t, _) => SpecType::Custom(t),
            },
        ),
        SpecExpr::Boolean(..) => Some(basic_type(seq!['b', 'o', 'o', 'l'])),
        SpecExpr::Number(..) => Some(SpecType::Primitive(PrimitiveType::I32)),
        SpecExpr::Character(..) => Some(SpecType::Primitive(PrimitiveType::Char)),
        SpecExpr::String(..) => Some(SpecType::Primitive(PrimitiveType::Str)),
        SpecExpr::Binary(b, _) => type_of(b.left.0, c),
        SpecExpr::VariableCall(id, _) => match lookup_spec(c, id) {
            Some((SpecSymbol::Variable(t), _)) => Some(t),
            Some((SpecSymbol::Function(t), _)) => Some(t),
            Some((SpecSymbol::Struct(t), _)) => Some(t),
            None => None,
        },
        SpecExpr::FunctionCall(f, _, _) => match lookup_spec(c, f) {
            Some((SpecSymbol::Function(SpecType::Function(_, r)), _)) => Some(*r),
            _ => None,
        },
    }
}

/// The type of an expression as `infer_type` computes it: that of `type_of`,
/// or the message of the error where `type_of` has none.
pub open spec fn infer_type_spec(e: SpecExpr, c: SpecContext) -> Result<SpecType, Seq<char>>
    decreases e,
{
    match e {
        SpecExpr::Binary(b, _) => infer_type_spec(b.left.0, c),
        SpecExpr::VariableCall(id, _) => match lookup_spec(c, id) {
            Some(_) => Ok(type_of(e, c).unwrap()),
            None => Err("Undefined identifier: "@ + id),
        },
        SpecExpr::FunctionCall(f, _, _) => match lookup_spec(c, f) {
            Some((SpecSymbol::Function(SpecType::Function(_, r)), _)) => Ok(*r),
            Some(_) => Err("Identifier '"@ + f + "' is not a function"@),
            None => Err("Failed to locate function '"@ + f + "'"@),
        },
        _ => Ok(type_of(e, c).unwrap()),
    }
}

/// The result of analyzing an expression; `None` where the analysis panics.
/// Literals and casts are accepted; a name or a call must be declared; a
/// binary expression needs both operands accepted and of the same type.
pub open spec fn expr_check(e: SpecExpr, c: SpecContext) -> Option<Result<(), Seq<char>>>
    decreases e,
{
    match e {
        SpecExpr::Binary(b, _) => match expr_check(b.left.0, c) {
            Some(Ok(())) => match expr_check(b.right.0, c) {
                Some(Ok(())) => match (type_of(b.left.0, c), type_of(b.right.0, c)) {
                    (Some(l), Some(r)) => Some(if l == r { Ok(()) } else { Err("Type mismatch in binary expression."@) }),
                    _ => None,
                },
                other => other,
            },
            other => other,
        },
        SpecExpr::VariableCall(id, _) => Some(
            if lookup_spec(c, id) is Some { Ok(()) } else { Err("Identifier not found in hashmap?!"@) },
        ),
        SpecExpr::FunctionCall(f, _, _) => Some(
            if lookup_spec(c, f) is Some { Ok(()) } else { Err("Identifier not found in hashmap?!"@) },
        ),
        _ => Some(Ok(())),
    }
}

pub open spec fn unit_result_view(r: Result<(), String>) -> Result<(), Seq<char>> {
    match r {
        Ok(()) => Ok(()),
        Err(m) => Err(m@),
    }
}

fn symbol_type(s: &Symbol) -> (t: Type)
    ensures
        t@ == (match s@ {
            SpecSymbol::Variable(t) => t,
            SpecSymbol::Function(t) => t,
            SpecSymbol::Struct(t) => t,
        }),
{
    match s {
        Symbol::Variable(t) => t.clone(),
        Symbol::Function(f) => Type::Function(f.clone()),
        Symbol::Struct(st) => Type::Struct(st.clone()),
    }
}

impl Expr {
    /// The type of the expression (see `type_of`); panics on an undeclared
    /// name or a call of something that is not a function.
    pub fn get_type(&self, ctx: &mut SemanticContext) -> (t: Type)
        requires
            !old(ctx).halted,
        ensures
            final(ctx).halted == (type_of(self@, old(ctx)@) is None),
            !final(ctx).halted ==> Some(t@) == type_of(self@, old(ctx)@),
            final(ctx)@ == old(ctx)@,
        decreases self,
    {
        match self {
            Expr::Cast((cast, _e), _) => match cast {
                Cast::Primitive((cast_type, _)) => Type::basic(cast_type.as_str()),
                Cast::NonPrimitive((cast_type, _)) => Type::Custom(cast_type.clone()),
            },
            Expr::Boolean(_) => {
                let t = Type::basic("bool");
                proof {
                    reveal_strlit("bool");
                    assert("bool"@ =~= seq!['b', 'o', 'o', 'l']);
                }
                t
            },
            Expr::Number(_) => Type::Primitive(PrimitiveType::I32),
            Expr::Character(_) => Type::Primitive(PrimitiveType::Char),
            Expr::String(_) => Type::Primitive(PrimitiveType::Str),
            Expr::Binary((bin, _)) => bin.left.0.get_type(ctx),
            Expr::VariableCall((id, _pos)) => match ctx.lookup(id.as_str()) {
                Some((symbol, _)) => symbol_type(symbol),
                None => {
                    ctx.halted = true;
                    Type::Primitive(PrimitiveType::Void)
                },
            },
            Expr::FunctionCall { function, arguments: _ } => match ctx.lookup(function.0.as_str()) {
                Some((Symbol::Function(func_type), _)) => (*func_type.return_type).clone(),
                _ => {
                    ctx.halted = true;
                    Type::Primitive(PrimitiveType::Void)
                },
            },
        }
    }

    /// The type of the expression, or a message naming what is undeclared or
    /// is not a function.
    pub fn infer_type(&self, ctx: &mut SemanticContext) -> (r: Result<Type, String>)
        requires
            !old(ctx).halted,
        ensures
            match r {
                Ok(t) => infer_type_spec(self@, old(ctx)@) == Ok::<SpecType, Seq<char>>(t@),
                Err(m) => infer_type_spec(self@, old(ctx)@) == Err::<SpecType, Seq<char>>(m@),
            },
            final(ctx)@ == old(ctx)@,
            final(ctx).halted == old(ctx).halted,
        decreases self,
    {
        match self {
            Expr::Binary((bin_expr, _)) => bin_expr.left.0.infer_type(ctx),
            Expr::VariableCall((id, _)) => match ctx.lookup(id.as_str()) {
                Some((symbol, _)) => Ok(symbol_type(symbol)),
                None => {
                    let mut m = String::from_str("Undefined identifier: ");
                    m.append(id.as_str());
                    Err(m)
                },
            },
            Expr::FunctionCall { function, arguments: _ } => match ctx.lookup(function.0.as_str()) {
                Some((Symbol::Function(func_type), _)) => Ok((*func_type.return_type).clone()),
                Some(_) => {
                    let mut m = String::from_str("Identifier '");
                    m.append(function.0.as_str());
                    m.append("' is not a function");
                    Err(m)
                },
                None => {
                    let mut m = String::from_str("Failed to locate function '");
                    m.append(function.0.as_str());
                    m.append("'");
                    Err(m)
                },
            },
            _ => Ok(self.get_type(ctx)),
        }
    }

    /// Checks that the names the expression uses are declared and that the
    /// operands of binary expressions have the same type.
    pub fn analyze(&self, ctx: &mut SemanticContext) -> (r: Result<(), String>)
        requires
            !old(ctx).halted,
        ensures
            final(ctx).halted == (expr_check(self@, old(ctx)@) is None),
            final(ctx).halted ==> r is Err,
            !final(ctx).halted ==> Some(unit_result_view(r)) == expr_check(self@, old(ctx)@),
            final(ctx)@ == old(ctx)@,
        decreases self,
    {
        match self {
            Expr::Binary((bin_expr, _)) => bin_expr.analyze(ctx),
            Expr::VariableCall((id, _)) => match ctx.lookup(id.as_str()) {
                Some(_) => Ok(()),
                None => Err(String::from_str("Identifier not found in hashmap?!")),
            },
            Expr::FunctionCall { function, arguments: _ } => match ctx.lookup(function.0.as_str()) {
                Some(_) => Ok(()),
                None => Err(String::from_str("Identifier not found in hashmap?!")),
            },
            _ => Ok(()),
        }
    }
}

impl BinaryExpr {
    /// Checks both operands, then that their types agree.
    pub fn analyze(&self, ctx: &mut SemanticContext) -> (r: Result<(), String>)
        requires
            !old(ctx).halted,
        ensures
            final(ctx).halted == (expr_check(SpecExpr::Binary(Box::new(self@), Position { line: 0, index: 0 }), old(ctx)@) is None),
            final(ctx).halted ==> r is Err,
            !final(ctx).halted ==> Some(unit_result_view(r)) == expr_check(
                SpecExpr::Binary(Box::new(self@), Position { line: 0, index: 0 }),
                old(ctx)@,
            ),
            final(ctx)@ == old(ctx)@,
        decreases self,
    {
        self.left.0.analyze(ctx)?;
        self.right.0.analyze(ctx)?;
        let left_type = self.left.0.get_type(ctx);
        if ctx.halted {
            return Err(String::from_str("not yet implemented"));
        }
        let right_type = self.right.0.get_type(ctx);
        if ctx.halted {
            return Err(String::from_str("not yet implemented"));
        }
        if !left_type.same_as(&right_type) {
            return Err(String::from_str("Type mismatch in binary expression."));
        }
        Ok(())
    }
}

} // verus!

verus! {

/// The value of an expression ends up in the last temporary its code
/// allocates, and the code allocates exactly `temps_needed` temporaries.
pub proof fn law_tac_result_is_last_temp(e: SpecExpr, n: nat, offs: Seq<(Seq<char>, i32)>)
    requires
        tac_defined(e),
    ensures
        tac_spec(e, n, offs).2 == n + temps_needed(e),
        tac_spec(e, n, offs).0 == temp_name(tac_spec(e, n, offs).2),
{
    lemma_tac_count(e, n, offs);
}

/// The temporary that an instruction of three-address code writes, if any.
pub open spec fn written_temp(i: SpecInstr) -> Option<Seq<char>> {
    match i {
        SpecInstr::Add { dest, .. } | SpecInstr::Sub { dest, .. } | SpecInstr::Mul { dest, .. }
        | SpecInstr::Div { dest, .. } | SpecInstr::Mod { dest, .. } | SpecInstr::And { dest, .. }
        | SpecInstr::Or { dest, .. } | SpecInstr::Xor { dest, .. } | SpecInstr::ShiftLeft { dest, .. }
        | SpecInstr::ShiftRight { dest, .. } | SpecInstr::Load { dest, .. } | SpecInstr::Call { dest, .. }
        | SpecInstr::LoadConstant { dest, .. } => Some(dest),
        _ => None,
    }
}

proof fn lemma_binary_writes(op: Operator, d: Seq<char>, l: Seq<char>, r: Seq<char>)
    ensures
        written_temp(binary_instr(op, d, l, r)) == Some(d),
{
}

/// Instructions `is` write the temporaries `n + 1`, `n + 2`, ... one each, in order.
pub open spec fn writes_in_order(is: Seq<SpecInstr>, n: nat) -> bool {
    forall|j: int| 0 <= j < is.len() ==> written_temp(#[trigger] is[j]) == Some(temp_name((n + j + 1) as nat))
}

proof fn lemma_writes_concat(a: Seq<SpecInstr>, b: Seq<SpecInstr>, n: nat)
    requires
        writes_in_order(a, n),
        writes_in_order(b, n + a.len()),
    ensures
        writes_in_order(a + b, n),
{
    assert forall|j: int| 0 <= j < (a + b).len() implies written_temp(#[trigger] (a + b)[j]) == Some(temp_name((n + j + 1) as nat)) by {
        if j >= a.len() {
            assert((a + b)[j] == b[j - a.len()]);
            assert(written_temp(b[j - a.len()]) == Some(temp_name((n + a.len() + (j - a.len()) + 1) as nat)));
        }
    }
}

proof fn lemma_tac_writes(e: SpecExpr, n: nat, offs: Seq<(Seq<char>, i32)>)
    requires
        tac_defined(e),
    ensures
        tac_spec(e, n, offs).1.len() == temps_needed(e),
        writes_in_order(tac_spec(e, n, offs).1, n),
    decreases e,
{
    lemma_tac_count(e, n, offs);
    match e {
        SpecExpr::Binary(b, _) => {
            let (tl, il, nl) = tac_spec(b.left.0, n, offs);
            let (tr, ir, nr) = tac_spec(b.right.0, nl, offs);
            lemma_tac_writes(b.left.0, n, offs);
            lemma_tac_writes(b.right.0, nl, offs);
            lemma_tac_count(b.left.0, n, offs);
            lemma_tac_count(b.right.0, nl, offs);
            let last = seq![binary_instr(b.op, temp_name(nr + 1), tl, tr)];
            lemma_binary_writes(b.op, temp_name(nr + 1), tl, tr);
            lemma_writes_concat(il, ir, n);
            lemma_writes_concat(il + ir, last, n);
        },
        SpecExpr::FunctionCall(f, _, args) => {
            let (ts, is, m) = tac_args(args, n, offs);
            lemma_tac_args_writes(args, n, offs);
            lemma_tac_args_count(args, n, offs);
            let last = seq![SpecInstr::Call { dest: temp_name(m + 1), fn_id: f, args: ts }];
            lemma_writes_concat(is, last, n);
        },
        _ => {},
    }
}

proof fn lemma_tac_args_writes(args: Seq<(SpecExpr, Position)>, n: nat, offs: Seq<(Seq<char>, i32)>)
    requires
        tac_args_defined(args),
    ensures
        tac_args(args, n, offs).1.len() == args_temps_needed(args),
        writes_in_order(tac_args(args, n, offs).1, n),
    decreases args,
{
    if args.len() > 0 {
        let (ts, is, m) = tac_args(args.drop_last(), n, offs);
        lemma_tac_args_writes(args.drop_last(), n, offs);
        lemma_tac_args_count(args.drop_last(), n, offs);
        lemma_tac_writes(args.last().0, m, offs);
        lemma_writes_concat(is, tac_spec(args.last().0, m, offs).1, n);
    }
}

/// Three-address code numbers its temporaries in order: when the counter
/// stands at `n`, the code of an expression has one instruction per temporary
/// it allocates, at least one, the `j`-th writing temporary `n + j + 1`; the
/// counter ends at `n` plus their number, and the value is in the last one.
pub proof fn law_tac_numbering(e: SpecExpr, n: nat, offs: Seq<(Seq<char>, i32)>)
    requires
        tac_defined(e),
    ensures
        tac_spec(e, n, offs).1.len() == temps_needed(e),
        temps_needed(e) >= 1,
        writes_in_order(tac_spec(e, n, offs).1, n),
        tac_spec(e, n, offs).2 == n + tac_spec(e, n, offs).1.len(),
        tac_spec(e, n, offs).0 == temp_name(tac_spec(e, n, offs).2),
{
    lemma_tac_writes(e, n, offs);
    lemma_tac_count(e, n, offs);
}

/// The IR of a number, binary expression or call standing on its own is its
/// three-address code in a single global unit, and the counter moves as for
/// that code.
pub proof fn law_ir_wraps_tac(e: SpecExpr, n: nat, offs: Seq<(Seq<char>, i32)>)
    requires
        expr_ir_defined(e),
        !(e is VariableCall),
    ensures
        expr_ir_spec(e, n, offs) == (seq![SpecUnit::Global(tac_spec(e, n, offs).1)], tac_spec(e, n, offs).2),
{
}

/// Whether every variable an expression reads and every function it calls has
/// a visible symbol in `c` (the arguments of a call are not looked at).
pub open spec fn names_visible(e: SpecExpr, c: SpecContext) -> bool
    decreases e,
{
    match e {
        SpecExpr::VariableCall(id, _) => lookup_spec(c, id) is Some,
        SpecExpr::FunctionCall(f, _, _) => lookup_spec(c, f) is Some,
        SpecExpr::Binary(b, _) => names_visible(b.left.0, c) && names_visible(b.right.0, c),
        _ => true,
    }
}

/// Analysis accepts an expression only when every name it reads or calls is
/// declared and visible, and a binary expression only when both operands are
/// accepted and have the same type. A variable or a call of a name that has
/// no visible symbol is refused, never accepted.
pub proof fn law_accepted_names_declared(e: SpecExpr, c: SpecContext)
    ensures
        expr_check(e, c) == Some(Ok::<(), Seq<char>>(())) ==> names_visible(e, c),
        expr_check(e, c) == Some(Ok::<(), Seq<char>>(())) ==> match e {
            SpecExpr::Binary(b, _) => type_of(b.left.0, c) is Some && type_of(b.left.0, c) == type_of(b.right.0, c),
            _ => true,
        },
        (e is VariableCall || e is FunctionCall) ==> (expr_check(e, c) matches Some(Err(_)) <==> !names_visible(e, c)),
    decreases e,
{
    if let SpecExpr::Binary(b, _) = e {
        law_accepted_names_declared(b.left.0, c);
        law_accepted_names_declared(b.right.0, c);
    }
}

/// The code of a binary expression `l op r` computes both operands, left then
/// right, and ends with one instruction of the operation itself that writes a
/// fresh temporary from the left operand's temporary as its first operand and
/// the right operand's as its second: `+` an addition, `-` a subtraction
/// (left minus right), `*` a multiplication, `/` a division and `%` a remainder
/// (left by right), `&`, `|`, `^` the bitwise operations, and the shifts shift
/// the left operand by the right.
pub proof fn law_binary_operands_in_order(b: SpecBinaryExpr, pos: Position, n: nat, offs: Seq<(Seq<char>, i32)>)
    requires
        tac_defined(SpecExpr::Binary(Box::new(b), pos)),
    ensures
        ({
            let (tl, il, nl) = tac_spec(b.left.0, n, offs);
            let (tr, ir, nr) = tac_spec(b.right.0, nl, offs);
            let (t, is, m) = tac_spec(SpecExpr::Binary(Box::new(b), pos), n, offs);
            let last = is.last();
            &&& is.len() == il.len() + ir.len() + 1
            &&& is.take(il.len() as int) == il
            &&& is.subrange(il.len() as int, (il.len() + ir.len()) as int) == ir
            &&& t == temp_name(nr + 1) && m == nr + 1
                &&& b.op == Operator::Plus ==> last == SpecInstr::Add { dest: temp_name(nr + 1), op1: tl, op2: tr }
                &&& b.op == Operator::Minus ==> last == SpecInstr::Sub { dest: temp_name(nr + 1), op1: tl, op2: tr }
                &&& b.op == Operator::Asterisk ==> last == SpecInstr::Mul { dest: temp_name(nr + 1), op1: tl, op2: tr }
                &&& b.op == Operator::Fslash ==> last == SpecInstr::Div { dest: temp_name(nr + 1), op1: tl, op2: tr }
                &&& b.op == Operator::Percent ==> last == SpecInstr::Mod { dest: temp_name(nr + 1), op1: tl, op2: tr }
                &&& b.op == Operator::And ==> last == SpecInstr::And { dest: temp_name(nr + 1), op1: tl, op2: tr }
                &&& b.op == Operator::Or ==> last == SpecInstr::Or { dest: temp_name(nr + 1), op1: tl, op2: tr }
                &&& b.op == Operator::Xor ==> last == SpecInstr::Xor { dest: temp_name(nr + 1), op1: tl, op2: tr }
                &&& b.op == Operator::ShiftLeft ==> last == SpecInstr::ShiftLeft { dest: temp_name(nr + 1), op1: tl, op2: tr }
                &&& b.op == Operator::ShiftRight ==> last == SpecInstr::ShiftRight { dest: temp_name(nr + 1), op1: tl, op2: tr }
        }),
{
    let (tl, il, nl) = tac_spec(b.left.0, n, offs);
    let (tr, ir, nr) = tac_spec(b.right.0, nl, offs);
    let is = tac_spec(SpecExpr::Binary(Box::new(b), pos), n, offs).1;
    assert(is == il + ir + seq![binary_instr(b.op, temp_name(nr + 1), tl, tr)]);
    assert(is.take(il.len() as int) =~= il);
    assert(is.subrange(il.len() as int, (il.len() + ir.len()) as int) =~= ir);
}

/// The code of a leaf loads it into one fresh temporary: a number literal
/// loads the number it spells, a character literal the code of its character,
/// and a variable is loaded from its stack slot `{offset}(%rbp)` when it has
/// one, else by its name.
pub proof fn law_tac_leaves(text: Seq<char>, pos: Position, n: nat, offs: Seq<(Seq<char>, i32)>)
    ensures
        parse_i64_spec(text) matches Some(v) ==> tac_spec(SpecExpr::Number(text, pos), n, offs)
            == (temp_name(n + 1), seq![SpecInstr::LoadConstant { dest: temp_name(n + 1), value: v }], n + 1),
        text.len() > 0 ==> tac_spec(SpecExpr::Character(text, pos), n, offs)
            == (temp_name(n + 1), seq![SpecInstr::LoadConstant { dest: temp_name(n + 1), value: text[0] as i64 }], n + 1),
        entry_lookup(offs, text) matches Some(o) ==> tac_spec(SpecExpr::VariableCall(text, pos), n, offs)
            == (temp_name(n + 1), seq![SpecInstr::Load { dest: temp_name(n + 1), src: int_text(o as int) + "(%rbp)"@ }], n + 1),
        entry_lookup(offs, text) is None ==> tac_spec(SpecExpr::VariableCall(text, pos), n, offs)
            == (temp_name(n + 1), seq![SpecInstr::Load { dest: temp_name(n + 1), src: text }], n + 1),
{
}

} // verus!
