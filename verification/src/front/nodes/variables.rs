//! Variable declarations and assignments.
use vstd::prelude::*;

use crate::front::nodes::expr::{unit_result_view, Expr, SpecExpr};
use crate::front::nodes::types::{SpecType, Type};
use crate::front::nodes::statement::{assign_check, decl_check, ir_frame, ir_state, stmt_ir, SpecStmt};
use crate::middle::ir::{instrs_view, units_view, IRContext, IRInstruction, IRType, IRUnit, SpecInstr, SpecUnit};
use crate::front::semantic::{SemanticContext, Symbol};
use crate::front::token::Position;

verus! {

#[derive(Debug)]
pub struct VariableDeclaration {
    pub id: String,
    pub var_type: Type,
    pub position: Position,
}

#[derive(Debug)]
pub struct Assignment {
    pub lhs: String,
    pub value: (Expr, Position),
}

#[derive(Debug)]
pub struct WalrusDeclaration {
    pub id: String,
    pub _initializer: (Expr, Position),
}

/// A declaration with an initializer: the declaration and the assignment of
/// the initial value.
#[derive(Debug)]
pub struct DeclarationAssignment {
    pub declaration: (VariableDeclaration, Position),
    pub assignment: (Assignment, Position),
}

/// The mathematical value of a [`VariableDeclaration`].
pub struct SpecVarDecl {
    pub id: Seq<char>,
    pub var_type: SpecType,
    pub position: Position,
}

/// The mathematical value of an [`Assignment`].
pub struct SpecAssign {
    pub lhs: Seq<char>,
    pub value: (SpecExpr, Position),
}

impl View for VariableDeclaration {
    type V = SpecVarDecl;

    open spec fn view(&self) -> SpecVarDecl {
        SpecVarDecl { id: self.id@, var_type: self.var_type@, position: self.position }
    }
}

impl View for Assignment {
    type V = SpecAssign;

    open spec fn view(&self) -> SpecAssign {
        SpecAssign { lhs: self.lhs@, value: (self.value.0@, self.value.1) }
    }
}

impl VariableDeclaration {
    /// Declares the variable in the innermost scope; refused if its name is
    /// already visible.
    pub fn analyze(&self, ctx: &mut SemanticContext) -> (r: Result<(), String>)
        ensures
            (final(ctx)@, unit_result_view(r)) == decl_check(self@, old(ctx)@),
            final(ctx).halted == old(ctx).halted,
    {
        if ctx.lookup(self.id.as_str()).is_some() {
            let mut m = String::from_str("Variable '");
            m.append(self.id.as_str());
            m.append("' already declared");
            return Err(m);
        }
        ctx.add_symbol(self.id.as_str(), (Symbol::Variable(self.var_type.clone()), self.position));
        Ok(())
    }
}

impl Assignment {
    /// Checks that the assigned variable is visible.
    pub fn analyze(&self, ctx: &mut SemanticContext) -> (r: Result<(), String>)
        ensures
            unit_result_view(r) == assign_check(self@, old(ctx)@),
            final(ctx)@ == old(ctx)@,
            final(ctx).halted == old(ctx).halted,
    {
        if ctx.lookup(self.lhs.as_str()).is_none() {
            let mut m = String::from_str("Assignment to undeclared variable '");
            m.append(self.lhs.as_str());
            m.append("'");
            return Err(m);
        }
        Ok(())
    }
}

impl WalrusDeclaration {
    /// Accepts the declaration as it stands: its type is to be inferred from
    /// the initializer in a later phase.
    pub fn analyze(&self, ctx: &mut SemanticContext) -> (r: Result<(), String>)
        ensures
            r is Ok,
            final(ctx)@ == old(ctx)@,
            final(ctx).halted == old(ctx).halted,
    {
        Ok(())
    }
}

impl DeclarationAssignment {
    /// Analyzes the declaration, then checks the assignment against the
    /// context that the declaration leaves.
    pub fn analyze(&self, ctx: &mut SemanticContext) -> (r: Result<(), String>)
        ensures
            Some((final(ctx)@, unit_result_view(r)))
                == crate::front::nodes::statement::stmt_check(
                SpecStmt::DeclarationAssignment {
                    declaration: (self.declaration.0@, self.declaration.1),
                    assignment: (self.assignment.0@, self.assignment.1),
                },
                old(ctx)@,
            ),
            final(ctx).halted == old(ctx).halted,
    {
        self.declaration.0.analyze(ctx)?;
        self.assignment.0.analyze(ctx)
    }
}

impl DeclarationAssignment {
    /// Computes the initializer, then gives the variable a stack slot
    /// initialized from the result.
    pub fn ir(&self, ctx: &mut IRContext) -> (r: Vec<IRUnit>)
        requires
            stmt_ir(
                SpecStmt::DeclarationAssignment {
                    declaration: (self.declaration.0@, self.declaration.1),
                    assignment: (self.assignment.0@, self.assignment.1),
                },
                ir_state(*old(ctx)),
            ) is Some,
        ensures
            stmt_ir(
                SpecStmt::DeclarationAssignment {
                    declaration: (self.declaration.0@, self.declaration.1),
                    assignment: (self.assignment.0@, self.assignment.1),
                },
                ir_state(*old(ctx)),
            ) == Some((units_view(r@), ir_state(*final(ctx)))),
            ir_frame(*final(ctx), *old(ctx)),
    {
        let (init_temp, mut init_insts) = self.assignment.0.value.0.tac(ctx);
        let mut instructions: Vec<IRInstruction> = Vec::new();
        instructions.append(&mut init_insts);
        let var_type = IRType::from_type(&self.declaration.0.var_type);
        let _offset = ctx.allocate_variable(self.declaration.0.id.as_str(), &var_type);
        let ghost before = instructions@;
        instructions.push(
            IRInstruction::AllocStack { name: self.declaration.0.id.clone(), var_type, initial_value: Some(init_temp) },
        );
        assert(instrs_view(instructions@) =~= instrs_view(before).push(instructions@.last()@));
        let mut units: Vec<IRUnit> = Vec::new();
        units.push(IRUnit::Global(instructions));
        assert(units_view(units@) =~= seq![units@[0]@]);
        units
    }
}

} // verus!
