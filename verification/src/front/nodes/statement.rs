//! Statements: every kind of node that a block or a source file holds.
use vstd::prelude::*;

use crate::front::nodes::branching::{ElseStatement, IfStatement};
use crate::front::nodes::expr::{ExpressionStatement, SpecExpr};
use crate::front::nodes::function::{FunctionDefinition, Return};
use crate::front::nodes::loops::{Break, Continue, ForLoop, Loop, WhileLoop};
use crate::front::nodes::parameter::{params_view, SpecParam};
use crate::front::nodes::expr::{expr_check, tac_defined, tac_spec, temps_needed, type_of, unit_result_view};
use crate::middle::ir::{
    flatten_spec, ir_size, ir_type_of, offsets_view, units_view, IRContext, IRUnit, SpecIRFunction, SpecInstr,
    SpecUnit,
};
use crate::front::nodes::types::{type_debug, SpecType};
use crate::front::semantic::{
    add_symbol_spec, enter_scope_spec, exit_scope_spec, lookup_spec, set_return_spec, SemanticContext, SpecContext,
    SpecSymbol,
};
use crate::front::nodes::variables::{
    Assignment, DeclarationAssignment, SpecAssign, SpecVarDecl, VariableDeclaration, WalrusDeclaration,
};
use crate::front::token::Position;

verus! {

/// A statement of a block, or a definition at the top of a file.
#[derive(Debug)]
pub enum Statement {
    Return(Return),
    If(IfStatement),
    Else(ElseStatement),
    Loop(Loop),
    While(WhileLoop),
    For(ForLoop),
    Break(Break),
    Continue(Continue),
    Declaration(VariableDeclaration),
    Assignment(Assignment),
    Walrus(WalrusDeclaration),
    DeclarationAssignment(DeclarationAssignment),
    Expression(ExpressionStatement),
    Function(FunctionDefinition),
}

/// The mathematical value of a [`FunctionDefinition`].
pub struct SpecFunction {
    pub id: (Seq<char>, Position),
    pub parameters: Seq<(SpecParam, Position)>,
    pub return_type: (SpecType, Position),
    pub body: (Seq<(SpecStmt, Position)>, Position),
}

/// The mathematical value of a [`Statement`].
pub enum SpecStmt {
    Return { value: (SpecExpr, Position) },
    If { condition: (SpecExpr, Position), branch: (Seq<(SpecStmt, Position)>, Position) },
    Else { condition: Option<(SpecExpr, Position)>, branch: (Seq<(SpecStmt, Position)>, Position) },
    Loop { body: (Seq<(SpecStmt, Position)>, Position) },
    While { condition: (SpecExpr, Position), body: (Seq<(SpecStmt, Position)>, Position) },
    For { iter: SpecVarDecl, condition: (SpecExpr, Position), body: (Seq<(SpecStmt, Position)>, Position) },
    Break,
    Continue,
    Declaration(SpecVarDecl),
    Assignment(SpecAssign),
    Walrus { id: Seq<char>, initializer: (SpecExpr, Position) },
    DeclarationAssignment { declaration: (SpecVarDecl, Position), assignment: (SpecAssign, Position) },
    Expression(SpecExpr),
    Function(SpecFunction),
}

pub open spec fn stmts_view(v: Seq<(Statement, Position)>) -> Seq<(SpecStmt, Position)>
    decreases v,
{
    if v.len() == 0 {
        Seq::empty()
    } else {
        stmts_view(v.drop_last()).push((v.last().0.view(), v.last().1))
    }
}

impl View for Statement {
    type V = SpecStmt;

    open spec fn view(&self) -> SpecStmt
        decreases self,
    {
        match self {
            Statement::Return(r) => SpecStmt::Return { value: (r.value.0@, r.value.1) },
            Statement::If(s) => SpecStmt::If {
                condition: (s.condition.0@, s.condition.1),
                branch: (stmts_view(s.branch.0.children@), s.branch.1),
            },
            Statement::Else(s) => SpecStmt::Else {
                condition: match &s.condition {
                    Some(c) => Some((c.0@, c.1)),
                    None => None,
                },
                branch: (stmts_view(s.branch.0.children@), s.branch.1),
            },
            Statement::Loop(l) => SpecStmt::Loop { body: (stmts_view(l.body.0.children@), l.body.1) },
            Statement::While(w) => SpecStmt::While {
                condition: (w.condition.0@, w.condition.1),
                body: (stmts_view(w.body.0.children@), w.body.1),
            },
            Statement::For(f) => SpecStmt::For {
                iter: f.iter@,
                condition: (f.condition.0@, f.condition.1),
                body: (stmts_view(f.body.0.children@), f.body.1),
            },
            Statement::Break(_) => SpecStmt::Break,
            Statement::Continue(_) => SpecStmt::Continue,
            Statement::Declaration(d) => SpecStmt::Declaration(d@),
            Statement::Assignment(a) => SpecStmt::Assignment(a@),
            Statement::Walrus(w) => SpecStmt::Walrus { id: w.id@, initializer: (w._initializer.0@, w._initializer.1) },
            Statement::DeclarationAssignment(d) => SpecStmt::DeclarationAssignment {
                declaration: (d.declaration.0@, d.declaration.1),
                assignment: (d.assignment.0@, d.assignment.1),
            },
            Statement::Expression(e) => SpecStmt::Expression(e.expression@),
            Statement::Function(f) => SpecStmt::Function(
                SpecFunction {
                    id: (f.id.0@, f.id.1),
                    parameters: params_view(f.parameters@),
                    return_type: (f.return_type.0.0@, f.return_type.1),
                    body: (stmts_view(f.body.0.children@), f.body.1),
                },
            ),
        }
    }
}

pub proof fn lemma_stmts_view(v: Seq<(Statement, Position)>)
    ensures
        stmts_view(v).len() == v.len(),
        forall|i: int| 0 <= i < v.len() ==> #[trigger] stmts_view(v)[i] == (v[i].0@, v[i].1),
    decreases v.len(),
{
    if v.len() > 0 {
        lemma_stmts_view(v.drop_last());
        assert(stmts_view(v) == stmts_view(v.drop_last()).push((v.last().0.view(), v.last().1)));
        assert forall|i: int| 0 <= i < v.len() implies #[trigger] stmts_view(v)[i] == (v[i].0@, v[i].1) by {
            if i < v.len() - 1 {
                assert(v.drop_last()[i] == v[i]);
            }
        }
    } else {
        assert(stmts_view(v) == Seq::<(SpecStmt, Position)>::empty());
    }
}

// ---------------------------------------------------------------------------
// Semantic analysis of statements
// ---------------------------------------------------------------------------

/// The message of a return statement whose value has another type than the
/// function's return type.
pub open spec fn return_mismatch(expected: SpecType, found: SpecType) -> Seq<char> {
    "Type mismatch in return statement: expected "@ + type_debug(expected) + ", found "@ + type_debug(found)
}

/// Declaring a variable: refused if the name is visible, else the name is
/// added to the innermost scope.
pub open spec fn decl_check(d: SpecVarDecl, c: SpecContext) -> (SpecContext, Result<(), Seq<char>>) {
    if lookup_spec(c, d.id) is Some {
        (c, Err("Variable '"@ + d.id + "' already declared"@))
    } else {
        (add_symbol_spec(c, d.id, (SpecSymbol::Variable(d.var_type), d.position)), Ok(()))
    }
}

/// Assigning to a variable: its name must be visible.
pub open spec fn assign_check(a: SpecAssign, c: SpecContext) -> Result<(), Seq<char>> {
    if lookup_spec(c, a.lhs) is Some {
        Ok(())
    } else {
        Err("Assignment to undeclared variable '"@ + a.lhs + "'"@)
    }
}

/// Declaring a parameter: refused if the name is visible, else the name is
/// added to the innermost scope as a variable.
pub open spec fn param_check(p: SpecParam, c: SpecContext) -> (SpecContext, Result<(), Seq<char>>) {
    if lookup_spec(c, p.id) is Some {
        (c, Err("Parameter `"@ + p.id + "` is already declared."@))
    } else {
        (add_symbol_spec(c, p.id, (SpecSymbol::Variable(p.var_type), p.position)), Ok(()))
    }
}

/// Declaring parameters in order, up to the first refused one.
pub open spec fn params_check(ps: Seq<(SpecParam, Position)>, c: SpecContext) -> (SpecContext, Result<(), Seq<char>>)
    decreases ps.len(),
{
    if ps.len() == 0 {
        (c, Ok(()))
    } else {
        let (c1, r) = params_check(ps.drop_last(), c);
        if r is Ok {
            param_check(ps.last().0, c1)
        } else {
            (c1, r)
        }
    }
}

/// The type of a function: its parameter types and its return type.
pub open spec fn function_signature(f: SpecFunction) -> SpecType {
    SpecType::Function(f.parameters.map_values(|p: (SpecParam, Position)| p.0.var_type), Box::new(f.return_type.0))
}

/// Analyzing a statement: the context after it and the outcome, or `None`
/// where the analysis panics (`break` and `continue`, which are not analyzed
/// yet, and a return value or expression whose type cannot be computed).
///
/// A function is declared under its name, then analyzed in a new scope with
/// its return type as the expected one: its parameters, then its body in a
/// scope of its own. Conditionals, loops and walrus declarations are accepted
/// as they stand.
pub open spec fn stmt_check(s: SpecStmt, c: SpecContext) -> Option<(SpecContext, Result<(), Seq<char>>)>
    decreases s,
{
    match s {
        SpecStmt::Return { value } => match c.ret {
            None => Some((c, Err("Return statement found outside of a function."@))),
            Some(expected) => match type_of(value.0, c) {
                None => None,
                Some(t) => Some((c, if t == expected { Ok(()) } else { Err(return_mismatch(expected, t)) })),
            },
        },
        SpecStmt::Break => None,
        SpecStmt::Continue => None,
        SpecStmt::Declaration(d) => Some(decl_check(d, c)),
        SpecStmt::Assignment(a) => Some((c, assign_check(a, c))),
        SpecStmt::DeclarationAssignment { declaration, assignment } => {
            let (c1, r) = decl_check(declaration.0, c);
            Some((c1, if r is Ok { assign_check(assignment.0, c1) } else { r }))
        },
        SpecStmt::Expression(e) => match expr_check(e, c) {
            Some(r) => Some((c, r)),
            None => None,
        },
        SpecStmt::Function(f) => {
            if lookup_spec(c, f.id.0) is Some {
                Some((c, Err("Function '"@ + f.id.0 + "' already declared."@)))
            } else {
                let c1 = set_return_spec(
                    enter_scope_spec(add_symbol_spec(c, f.id.0, (SpecSymbol::Function(function_signature(f)), f.id.1))),
                    Some(f.return_type.0),
                );
                let (c2, r) = params_check(f.parameters, c1);
                if r is Err {
                    Some((c2, r))
                } else {
                    match stmts_check(f.body.0, enter_scope_spec(c2)) {
                        Some((c3, Ok(()))) => Some((exit_scope_spec(set_return_spec(exit_scope_spec(c3), None)), Ok(()))),
                        other => other,
                    }
                }
            }
        },
        _ => Some((c, Ok(()))),
    }
}

/// Analyzing statements in order, up to the first error or panic.
pub open spec fn stmts_check(stmts: Seq<(SpecStmt, Position)>, c: SpecContext) -> Option<(SpecContext, Result<(), Seq<char>>)>
    decreases stmts,
{
    if stmts.len() == 0 {
        Some((c, Ok(())))
    } else {
        match stmts_check(stmts.drop_last(), c) {
            Some((c1, Ok(()))) => stmt_check(stmts.last().0, c1),
            other => other,
        }
    }
}

/// Analyzing a block: its statements in a scope of their own, which is
/// closed again when they are all accepted.
pub open spec fn body_check(stmts: Seq<(SpecStmt, Position)>, c: SpecContext) -> Option<(SpecContext, Result<(), Seq<char>>)> {
    match stmts_check(stmts, enter_scope_spec(c)) {
        Some((c1, Ok(()))) => Some((exit_scope_spec(c1), Ok(()))),
        other => other,
    }
}

/// Once a prefix of the statements fails or panics, the rest is not analyzed.
pub proof fn lemma_stmts_check_stop(stmts: Seq<(SpecStmt, Position)>, c: SpecContext, j: int)
    requires
        0 <= j <= stmts.len(),
        !(stmts_check(stmts.take(j), c) matches Some((_, Ok(())))),
    ensures
        stmts_check(stmts, c) == stmts_check(stmts.take(j), c),
    decreases stmts.len(),
{
    if j == stmts.len() {
        assert(stmts.take(j) =~= stmts);
    } else {
        assert(stmts.drop_last().take(j) =~= stmts.take(j));
        lemma_stmts_check_stop(stmts.drop_last(), c, j);
    }
}

/// Once a prefix of the parameters is refused, the rest are not declared.
pub proof fn lemma_params_check_stop(ps: Seq<(SpecParam, Position)>, c: SpecContext, j: int)
    requires
        0 <= j <= ps.len(),
        params_check(ps.take(j), c).1 is Err,
    ensures
        params_check(ps, c) == params_check(ps.take(j), c),
    decreases ps.len(),
{
    if j == ps.len() {
        assert(ps.take(j) =~= ps);
    } else {
        assert(ps.drop_last().take(j) =~= ps.take(j));
        lemma_params_check_stop(ps.drop_last(), c, j);
    }
}

// ---------------------------------------------------------------------------
// Code generation for statements
// ---------------------------------------------------------------------------

/// What code generation carries from one statement to the next: the number
/// of temporaries allocated, the stack slots of variables (the last entry of
/// a name wins), and the offset of the last slot.
pub struct IRState {
    pub temps: nat,
    pub offs: Seq<(Seq<char>, i32)>,
    pub offset: int,
}

pub open spec fn ir_state(c: IRContext) -> IRState {
    IRState {
        temps: c.temp_count as nat,
        offs: offsets_view(c.stack_allocations@),
        offset: c.current_stack_offset as int,
    }
}

/// The parts of the generation context that code generation for statements
/// leaves alone.
pub open spec fn ir_frame(a: IRContext, b: IRContext) -> bool {
    &&& a.label_count == b.label_count
    &&& a.symbol_table == b.symbol_table
    &&& a.target == b.target
}

/// The unit that a parameter gives: a stack slot without an initial value.
pub open spec fn param_unit(p: SpecParam) -> SpecUnit {
    SpecUnit::Global(seq![SpecInstr::AllocStack { name: p.id, var_type: ir_type_of(p.var_type).unwrap(), initial_value: None }])
}

/// The units of the parameters, or `None` when one has a type without an IR type.
pub open spec fn params_ir(ps: Seq<(SpecParam, Position)>) -> Option<Seq<SpecUnit>>
    decreases ps.len(),
{
    if ps.len() == 0 {
        Some(Seq::empty())
    } else {
        match params_ir(ps.drop_last()) {
            Some(us) => if ir_type_of(ps.last().0.var_type) is Some {
                Some(us.push(param_unit(ps.last().0)))
            } else {
                None
            },
            None => None,
        }
    }
}

/// The instructions of a function body, with `ret 0` appended when none of
/// them returns.
pub open spec fn with_return(is: Seq<SpecInstr>) -> Seq<SpecInstr> {
    if exists|k: int| 0 <= k < is.len() && (#[trigger] is[k]) is Return {
        is
    } else {
        is.push(SpecInstr::Return { value: seq!['0'] })
    }
}

/// Code generation for a statement: its units and the state after it, or
/// `None` where generation panics or overflows.
///
/// A declaration with an initializer computes the initializer, then gives the
/// variable a stack slot below the last one, initialized from the result. A
/// function gives one function unit: its parameters' slots and its body's
/// code, ending in a return. Other statements give no code yet.
pub open spec fn stmt_ir(s: SpecStmt, st: IRState) -> Option<(Seq<SpecUnit>, IRState)>
    decreases s,
{
    match s {
        SpecStmt::DeclarationAssignment { declaration, assignment } => {
            let d = declaration.0;
            let e = assignment.0.value.0;
            match ir_type_of(d.var_type) {
                Some(t) => if tac_defined(e) && st.temps + temps_needed(e) <= usize::MAX && i32::MIN <= st.offset
                    - ir_size(t) {
                    let (tmp, is, n) = tac_spec(e, st.temps, st.offs);
                    let o = st.offset - ir_size(t);
                    Some(
                        (
                            seq![SpecUnit::Global(is.push(SpecInstr::AllocStack { name: d.id, var_type: t, initial_value: Some(tmp) }))],
                            IRState { temps: n, offs: st.offs.push((d.id, o as i32)), offset: o },
                        ),
                    )
                } else {
                    None
                },
                None => None,
            }
        },
        SpecStmt::Function(f) => match params_ir(f.parameters) {
            Some(pu) => match stmts_ir(f.body.0, st) {
                Some((bu, st2)) => Some(
                    (
                        seq![SpecUnit::Function(SpecIRFunction { id: f.id.0, instructions: with_return(flatten_spec(pu + bu)) })],
                        st2,
                    ),
                ),
                None => None,
            },
            None => None,
        },
        _ => Some((Seq::empty(), st)),
    }
}

/// Code generation for statements in order: their units, concatenated.
pub open spec fn stmts_ir(stmts: Seq<(SpecStmt, Position)>, st: IRState) -> Option<(Seq<SpecUnit>, IRState)>
    decreases stmts,
{
    if stmts.len() == 0 {
        Some((Seq::empty(), st))
    } else {
        match stmts_ir(stmts.drop_last(), st) {
            Some((us, st1)) => match stmt_ir(stmts.last().0, st1) {
                Some((vs, st2)) => Some((us + vs, st2)),
                None => None,
            },
            None => None,
        }
    }
}

/// When code generation for statements succeeds, it succeeds for each prefix.
pub proof fn lemma_stmts_ir_prefix(stmts: Seq<(SpecStmt, Position)>, st: IRState, j: int)
    requires
        0 <= j <= stmts.len(),
        stmts_ir(stmts, st) is Some,
    ensures
        stmts_ir(stmts.take(j), st) is Some,
    decreases stmts.len(),
{
    if j == stmts.len() {
        assert(stmts.take(j) =~= stmts);
    } else {
        assert(stmts.drop_last().take(j) =~= stmts.take(j));
        lemma_stmts_ir_prefix(stmts.drop_last(), st, j);
    }
}

/// When the parameters all have IR types, each prefix of them does.
pub proof fn lemma_params_ir_prefix(ps: Seq<(SpecParam, Position)>, j: int)
    requires
        0 <= j <= ps.len(),
        params_ir(ps) is Some,
    ensures
        params_ir(ps.take(j)) is Some,
    decreases ps.len(),
{
    if j == ps.len() {
        assert(ps.take(j) =~= ps);
    } else {
        assert(ps.drop_last().take(j) =~= ps.take(j));
        lemma_params_ir_prefix(ps.drop_last(), j);
    }
}

impl Statement {
    /// Analyzes the statement (see `stmt_check`).
    pub fn analyze(&self, ctx: &mut SemanticContext) -> (r: Result<(), String>)
        requires
            !old(ctx).halted,
        ensures
            final(ctx).halted == (stmt_check(self@, old(ctx)@) is None),
            final(ctx).halted ==> r is Err,
            !final(ctx).halted ==> stmt_check(self@, old(ctx)@) == Some((final(ctx)@, unit_result_view(r))),
        decreases self,
    {
        match self {
            Statement::Return(ret) => ret.analyze(ctx),
            Statement::Declaration(d) => d.analyze(ctx),
            Statement::Assignment(a) => a.analyze(ctx),
            Statement::Walrus(w) => w.analyze(ctx),
            Statement::DeclarationAssignment(d) => d.analyze(ctx),
            Statement::Expression(e) => e.analyze(ctx),
            Statement::Function(f) => f.analyze(ctx),
            Statement::Break(_) | Statement::Continue(_) => {
                ctx.halted = true;
                Err(String::from_str("not yet implemented"))
            },
            Statement::If(_) | Statement::Else(_) | Statement::Loop(_) | Statement::While(_) | Statement::For(_) => Ok(()),
        }
    }
}

impl Statement {
    /// The IR units of the statement (see `stmt_ir`).
    pub fn ir(&self, ctx: &mut IRContext) -> (r: Vec<IRUnit>)
        requires
            stmt_ir(self@, ir_state(*old(ctx))) is Some,
        ensures
            stmt_ir(self@, ir_state(*old(ctx))) == Some((units_view(r@), ir_state(*final(ctx)))),
            ir_frame(*final(ctx), *old(ctx)),
        decreases self,
    {
        match self {
            Statement::DeclarationAssignment(d) => d.ir(ctx),
            Statement::Function(f) => f.ir(ctx),
            _ => {
                let v: Vec<IRUnit> = Vec::new();
                assert(units_view(v@) =~= Seq::<SpecUnit>::empty());
                v
            },
        }
    }
}

} // verus!

verus! {

// ---------------------------------------------------------------------------
// Laws of analysis
// ---------------------------------------------------------------------------

proof fn lemma_params_depth(ps: Seq<(SpecParam, Position)>, c: SpecContext)
    requires
        c.scopes.len() > 0,
    ensures
        params_check(ps, c).0.scopes.len() == c.scopes.len(),
        params_check(ps, c).0.ret == c.ret,
    decreases ps.len(),
{
    if ps.len() > 0 {
        lemma_params_depth(ps.drop_last(), c);
    }
}

proof fn lemma_stmt_depth(s: SpecStmt, c: SpecContext)
    requires
        c.scopes.len() > 0,
        stmt_check(s, c) matches Some((_, Ok(()))),
    ensures
        stmt_check(s, c).unwrap().0.scopes.len() == c.scopes.len(),
    decreases s,
{
    match s {
        SpecStmt::Function(f) => {
            let c1 = set_return_spec(
                enter_scope_spec(add_symbol_spec(c, f.id.0, (SpecSymbol::Function(function_signature(f)), f.id.1))),
                Some(f.return_type.0),
            );
            lemma_params_depth(f.parameters, c1);
            let c2 = params_check(f.parameters, c1).0;
            lemma_stmts_depth(f.body.0, enter_scope_spec(c2));
        },
        _ => {},
    }
}

proof fn lemma_stmts_depth(stmts: Seq<(SpecStmt, Position)>, c: SpecContext)
    requires
        c.scopes.len() > 0,
        stmts_check(stmts, c) matches Some((_, Ok(()))),
    ensures
        stmts_check(stmts, c).unwrap().0.scopes.len() == c.scopes.len(),
    decreases stmts,
{
    if stmts.len() > 0 {
        lemma_stmts_depth(stmts.drop_last(), c);
        let c1 = stmts_check(stmts.drop_last(), c).unwrap().0;
        lemma_stmt_depth(stmts.last().0, c1);
    }
}

/// Analysis that succeeds leaves as many scopes open as it found: every
/// scope that a function or a block opens is closed again.
pub proof fn law_analysis_keeps_scope_depth(stmts: Seq<(SpecStmt, Position)>, c: SpecContext)
    requires
        c.scopes.len() > 0,
        stmts_check(stmts, c) matches Some((_, Ok(()))),
    ensures
        stmts_check(stmts, c).unwrap().0.scopes.len() == c.scopes.len(),
{
    lemma_stmts_depth(stmts, c);
}

/// After a function is analyzed without error, no return type is expected.
pub proof fn law_function_clears_return(f: SpecFunction, c: SpecContext)
    requires
        stmt_check(SpecStmt::Function(f), c) matches Some((_, Ok(()))),
    ensures
        stmt_check(SpecStmt::Function(f), c).unwrap().0.ret is None,
{
}

/// A variable cannot be declared twice while the first declaration is
/// visible: the second declaration of a name in the same scope is refused.
pub proof fn law_no_redeclaration(d1: SpecVarDecl, d2: SpecVarDecl, c: SpecContext)
    requires
        c.scopes.len() > 0,
        decl_check(d1, c).1 is Ok,
        d2.id == d1.id,
    ensures
        decl_check(d2, decl_check(d1, c).0) == (decl_check(d1, c).0, Err::<(), Seq<char>>("Variable '"@ + d2.id + "' already declared"@)),
{
    crate::front::semantic::law_lookup_after_add(c, d1.id, (SpecSymbol::Variable(d1.var_type), d1.position));
}

} // verus!

verus! {

// ---------------------------------------------------------------------------
// Laws of code generation
// ---------------------------------------------------------------------------

/// The code of a function always returns: its instructions hold a return,
/// after the code of its parameters and body, unchanged.
pub proof fn law_function_code_returns(is: Seq<SpecInstr>)
    ensures
        exists|k: int| 0 <= k < with_return(is).len() && (#[trigger] with_return(is)[k]) is Return,
        with_return(is).take(is.len() as int) == is,
{
    if !(exists|k: int| 0 <= k < is.len() && (#[trigger] is[k]) is Return) {
        let w = with_return(is);
        assert(w[is.len() as int] is Return);
    }
    assert(with_return(is).take(is.len() as int) =~= is);
}

/// A declaration with an initial value gets a slot of its own, below all the
/// slots given before, and is found there afterwards.
pub proof fn law_declaration_gets_fresh_slot(d: (SpecVarDecl, Position), a: (SpecAssign, Position), st: IRState)
    requires
        stmt_ir(SpecStmt::DeclarationAssignment { declaration: d, assignment: a }, st) is Some,
    ensures
        ({
            let st2 = stmt_ir(SpecStmt::DeclarationAssignment { declaration: d, assignment: a }, st).unwrap().1;
            &&& st2.offset < st.offset
            &&& st2.offs == st.offs.push((d.0.id, st2.offset as i32))
            &&& crate::middle::ir::entry_lookup(st2.offs, d.0.id) == Some(st2.offset as i32)
        }),
{
    let st2 = stmt_ir(SpecStmt::DeclarationAssignment { declaration: d, assignment: a }, st).unwrap().1;
    assert(st2.offs.drop_last() =~= st.offs);
}

/// Statements are analyzed one after another, each in the context the ones
/// before it left: when the first `k` are accepted, leaving context `ck`, the
/// first `k + 1` give what statement `k` gives in `ck`; and when statement `k`
/// is then refused (or analysis halts there), that is the outcome of the whole
/// sequence, and the statements after it are not analyzed.
pub proof fn law_analysis_in_order(stmts: Seq<(SpecStmt, Position)>, c: SpecContext, k: int, ck: SpecContext)
    requires
        0 <= k < stmts.len(),
        stmts_check(stmts.take(k), c) == Some((ck, Ok::<(), Seq<char>>(()))),
    ensures
        stmts_check(stmts.take(k + 1), c) == stmt_check(stmts[k].0, ck),
        !(stmt_check(stmts[k].0, ck) matches Some((_, Ok(())))) ==> stmts_check(stmts, c) == stmt_check(stmts[k].0, ck),
{
    assert(stmts.take(k + 1).drop_last() =~= stmts.take(k));
    assert(stmts.take(k + 1).last() == stmts[k]);
    if !(stmt_check(stmts[k].0, ck) matches Some((_, Ok(())))) {
        lemma_stmts_check_stop(stmts, c, k + 1);
    }
}

/// What analysis accepts in a statement, and what it leaves: an assignment is
/// accepted exactly when its variable is declared and visible, and changes
/// nothing; a declaration is accepted exactly when its name is not visible yet,
/// and then (inside a scope) the name is found as a variable of the declared
/// type; a return outside a function is refused, and inside one, when its
/// value's type is known, it is accepted exactly when that type is the
/// function's return type, and changes nothing.
pub proof fn law_statement_acceptance(
    a: SpecAssign,
    d: SpecVarDecl,
    v: (SpecExpr, Position),
    c: SpecContext,
)
    ensures
        stmt_check(SpecStmt::Assignment(a), c) matches Some((c2, r)) && c2 == c
            && (r is Ok <==> lookup_spec(c, a.lhs) is Some),
        stmt_check(SpecStmt::Declaration(d), c) matches Some((c2, r))
            && (r is Ok <==> lookup_spec(c, d.id) is None)
            && (r is Ok && c.scopes.len() > 0 ==> lookup_spec(c2, d.id) == Some((SpecSymbol::Variable(d.var_type), d.position)))
            && (r is Err ==> c2 == c),
        c.ret is None ==> (stmt_check(SpecStmt::Return { value: v }, c) matches Some((c2, r)) && c2 == c && r is Err),
        (c.ret is Some && type_of(v.0, c) is Some) ==> (stmt_check(SpecStmt::Return { value: v }, c) matches Some((c2, r))
            && c2 == c && (r is Ok <==> type_of(v.0, c) == c.ret)),
{
    if lookup_spec(c, d.id) is None && c.scopes.len() > 0 {
        crate::front::semantic::law_lookup_after_add(c, d.id, (SpecSymbol::Variable(d.var_type), d.position));
    }
}

} // verus!
