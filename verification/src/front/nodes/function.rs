//! Function definitions and their parts.
use vstd::prelude::*;

use crate::front::nodes::body::Body;
use crate::front::nodes::expr::{unit_result_view, Expr};
use crate::front::nodes::parameter::{params_view, Parameter};
use crate::front::nodes::statement::{
    body_check, function_signature, ir_frame, ir_state, lemma_params_check_stop, lemma_params_ir_prefix,
    lemma_stmts_check_stop, lemma_stmts_view, params_check, params_ir, stmt_check, stmt_ir, stmts_check, stmts_view,
    with_return, SpecFunction, SpecStmt, Statement,
};
use crate::front::nodes::types::{debug_text, lemma_types_view, types_view, FunctionType, Type};
use crate::middle::ir::{
    flatten_units, instrs_view, units_view, IRContext, IRFunction, IRInstruction, IRUnit, SpecInstr, SpecUnit,
};
use crate::front::semantic::{
    add_symbol_spec, enter_scope_spec, lookup_spec, set_return_spec, SemanticContext, SpecSymbol, Symbol,
};
use crate::front::token::Position;

verus! {

#[derive(Debug)]
pub struct FunctionDefinition {
    pub id: (String, Position),
    pub parameters: Vec<(Parameter, Position)>,
    pub return_type: (FunctionReturnType, Position),
    pub body: (Box<Body>, Position),
}

impl View for FunctionDefinition {
    type V = SpecFunction;

    open spec fn view(&self) -> SpecFunction {
        SpecFunction {
            id: (self.id.0@, self.id.1),
            parameters: params_view(self.parameters@),
            return_type: (self.return_type.0.0@, self.return_type.1),
            body: (stmts_view(self.body.0.children@), self.body.1),
        }
    }
}

/// A parameter as a name and a type.
#[derive(Debug)]
pub struct FunctionParameter {
    pub id: String,
    pub param_type: Type,
}

/// The statements of a function body.
#[derive(Debug)]
pub struct FunctionBody {
    pub children: Vec<(Statement, Position)>,
}

/// The declared return type of a function.
#[derive(Debug)]
pub struct FunctionReturnType(pub Type);

#[derive(Debug)]
pub struct Return {
    pub value: (Expr, Position),
}

impl Return {
    /// Checks that the statement stands in a function and that the value has
    /// the function's return type.
    pub fn analyze(&self, ctx: &mut SemanticContext) -> (r: Result<(), String>)
        requires
            !old(ctx).halted,
        ensures
            final(ctx).halted == (stmt_check(SpecStmt::Return { value: (self.value.0@, self.value.1) }, old(ctx)@) is None),
            final(ctx).halted ==> r is Err,
            !final(ctx).halted ==> stmt_check(SpecStmt::Return { value: (self.value.0@, self.value.1) }, old(ctx)@)
                == Some((final(ctx)@, unit_result_view(r))),
    {
        let expected = match &ctx.current_function_return {
            Some(exp) => exp.clone(),
            None => {
                return Err(String::from_str("Return statement found outside of a function."));
            },
        };
        let expr_type = self.value.0.get_type(ctx);
        if ctx.halted {
            return Err(String::from_str("not yet implemented"));
        }
        if !expr_type.same_as(&expected) {
            let mut m = String::from_str("Type mismatch in return statement: expected ");
            let e = debug_text(&expected);
            m.append(e.as_str());
            m.append(", found ");
            let f = debug_text(&expr_type);
            m.append(f.as_str());
            return Err(m);
        }
        Ok(())
    }
}

impl FunctionDefinition {
    /// The type of the function: its parameter types and its return type.
    fn signature(&self) -> (t: FunctionType)
        ensures
            t@ == function_signature(self@),
    {
        let mut ps: Vec<Type> = Vec::new();
        let mut i: usize = 0;
        while i < self.parameters.len()
            invariant
                i <= self.parameters.len(),
                ps.len() == i,
                forall|j: int| 0 <= j < i ==> #[trigger] ps@[j]@ == self.parameters@[j].0.var_type@,
            decreases self.parameters.len() - i,
        {
            ps.push(self.parameters[i].0.var_type.clone());
            i += 1;
        }
        proof {
            lemma_types_view(ps@);
            assert(types_view(ps@) =~= self@.parameters.map_values(|p: (crate::front::nodes::parameter::SpecParam, Position)| p.0.var_type));
        }
        FunctionType { parameters: ps, return_type: Box::new(self.return_type.0.0.clone()) }
    }

    /// Declares the function under its name, then analyzes it in a new scope
    /// with its return type as the expected one: its parameters, then its body.
    pub fn analyze(&self, ctx: &mut SemanticContext) -> (r: Result<(), String>)
        requires
            !old(ctx).halted,
        ensures
            final(ctx).halted == (stmt_check(SpecStmt::Function(self@), old(ctx)@) is None),
            final(ctx).halted ==> r is Err,
            !final(ctx).halted ==> stmt_check(SpecStmt::Function(self@), old(ctx)@) == Some((final(ctx)@, unit_result_view(r))),
        decreases self,
    {
        if ctx.lookup(self.id.0.as_str()).is_some() {
            let mut m = String::from_str("Function '");
            m.append(self.id.0.as_str());
            m.append("' already declared.");
            return Err(m);
        }
        let sig = self.signature();
        ctx.add_symbol(self.id.0.as_str(), (Symbol::Function(sig), self.id.1));
        ctx.enter_scope();
        ctx.current_function_return = Some(self.return_type.0.0.clone());
        let ghost c1 = ctx@;
        let ghost ps = self@.parameters;
        let mut i: usize = 0;
        while i < self.parameters.len()
            invariant
                i <= self.parameters.len(),
                ps == params_view(self.parameters@),
                params_check(ps.take(i as int), c1) == (ctx@, Ok::<(), Seq<char>>(())),
                !ctx.halted,
                lookup_spec(old(ctx)@, self.id.0@) is None,
                c1 == set_return_spec(
                    enter_scope_spec(
                        add_symbol_spec(old(ctx)@, self.id.0@, (SpecSymbol::Function(function_signature(self@)), self.id.1)),
                    ),
                    Some(self.return_type.0.0@),
                ),
            decreases self.parameters.len() - i,
        {
            proof {
                assert(ps.take(i + 1).drop_last() =~= ps.take(i as int));
                assert(ps.take(i + 1).last() == (self.parameters@[i as int].0@, self.parameters@[i as int].1));
            }
            let res = self.parameters[i].0.analyze(ctx);
            if res.is_err() {
                proof {
                    lemma_params_check_stop(ps, c1, i + 1);
                }
                return res;
            }
            i += 1;
        }
        assert(ps.take(i as int) =~= ps);
        self.body.0.analyze(ctx)?;
        ctx.current_function_return = None;
        ctx.exit_scope();
        Ok(())
    }
}

/// Whether some instruction returns.
fn has_return(v: &Vec<IRInstruction>) -> (b: bool)
    ensures
        b == exists|k: int| 0 <= k < instrs_view(v@).len() && (#[trigger] instrs_view(v@)[k]) is Return,
{
    let mut i: usize = 0;
    while i < v.len()
        invariant
            i <= v.len(),
            forall|k: int| 0 <= k < i ==> !(#[trigger] instrs_view(v@)[k] is Return),
        decreases v.len() - i,
    {
        match &v[i] {
            IRInstruction::Return { .. } => {
                assert(instrs_view(v@)[i as int] is Return);
                return true;
            },
            _ => {},
        }
        i += 1;
    }
    false
}

impl FunctionDefinition {
    /// One function unit: the stack slots of the parameters, then the code of
    /// the body, ending in `ret 0` when nothing in it returns.
    pub fn ir(&self, ctx: &mut IRContext) -> (r: Vec<IRUnit>)
        requires
            stmt_ir(SpecStmt::Function(self@), ir_state(*old(ctx))) is Some,
        ensures
            stmt_ir(SpecStmt::Function(self@), ir_state(*old(ctx))) == Some((units_view(r@), ir_state(*final(ctx)))),
            ir_frame(*final(ctx), *old(ctx)),
        decreases self,
    {
        let ghost ps = self@.parameters;
        let mut units: Vec<IRUnit> = Vec::new();
        assert(ps.take(0) =~= Seq::<(crate::front::nodes::parameter::SpecParam, Position)>::empty());
        assert(units_view(units@) =~= Seq::<SpecUnit>::empty());
        let mut i: usize = 0;
        while i < self.parameters.len()
            invariant
                i <= self.parameters.len(),
                ps == params_view(self.parameters@),
                params_ir(ps) is Some,
                params_ir(ps.take(i as int)) == Some(units_view(units@)),
                *ctx == *old(ctx),
            decreases self.parameters.len() - i,
        {
            proof {
                assert(ps.take(i + 1).drop_last() =~= ps.take(i as int));
                assert(ps.take(i + 1).last() == (self.parameters@[i as int].0@, self.parameters@[i as int].1));
                lemma_params_ir_prefix(ps, i + 1);
            }
            let ghost before = units@;
            let mut u = self.parameters[i].0.ir(ctx);
            let ghost uv = u@;
            units.append(&mut u);
            proof {
                assert(units_view(units@) =~= units_view(before) + units_view(uv));
            }
            i += 1;
        }
        assert(ps.take(i as int) =~= ps);
        let ghost pu = units_view(units@);
        let ghost pv = units@;
        let mut body_units = self.body.0.ir(ctx);
        let ghost bv = body_units@;
        units.append(&mut body_units);
        assert(units_view(units@) =~= pu + units_view(bv));
        let mut instructions = flatten_units(units);
        if !has_return(&instructions) {
            let ghost before = instructions@;
            instructions.push(IRInstruction::Return { value: String::from_str("0") });
            proof {
                reveal_strlit("0");
                assert("0"@ =~= seq!['0']);
                assert(instructions@.last()@ == SpecInstr::Return { value: seq!['0'] });
                assert(instrs_view(instructions@) =~= instrs_view(before).push(SpecInstr::Return { value: seq!['0'] }));
            }
        }
        let mut r: Vec<IRUnit> = Vec::new();
        r.push(IRUnit::Function(IRFunction { id: self.id.0.clone(), instructions }));
        assert(units_view(r@) =~= seq![r@[0]@]);
        r
    }
}

impl FunctionBody {
    /// The statements of the body, in order, as a block's (see `Body`).
    pub open spec fn stmts(&self) -> Seq<(SpecStmt, Position)> {
        stmts_view(self.children@)
    }

    /// Analyzes the statements in order in a scope of their own, up to the
    /// first error, as a block does.
    pub fn analyze(&self, ctx: &mut SemanticContext) -> (r: Result<(), String>)
        requires
            !old(ctx).halted,
        ensures
            final(ctx).halted == (body_check(self.stmts(), old(ctx)@) is None),
            final(ctx).halted ==> r is Err,
            !final(ctx).halted ==> body_check(self.stmts(), old(ctx)@) == Some((final(ctx)@, unit_result_view(r))),
    {
        let ghost stmts = self.stmts();
        proof {
            lemma_stmts_view(self.children@);
        }
        ctx.enter_scope();
        let ghost c0 = ctx@;
        let mut i: usize = 0;
        while i < self.children.len()
            invariant
                i <= self.children.len(),
                stmts == stmts_view(self.children@),
                stmts.len() == self.children.len(),
                forall|j: int| 0 <= j < self.children.len() ==> #[trigger] stmts[j] == (self.children@[j].0@, self.children@[j].1),
                !ctx.halted,
                c0 == enter_scope_spec(old(ctx)@),
                stmts_check(stmts.take(i as int), c0) == Some((ctx@, Ok::<(), Seq<char>>(()))),
            decreases self.children.len() - i,
        {
            proof {
                assert(stmts.take(i + 1).drop_last() =~= stmts.take(i as int));
                assert(stmts.take(i + 1).last() == stmts[i as int]);
            }
            let res = self.children[i].0.analyze(ctx);
            if res.is_err() {
                proof {
                    lemma_stmts_check_stop(stmts, c0, i + 1);
                }
                return res;
            }
            i += 1;
        }
        assert(stmts.take(i as int) =~= stmts);
        ctx.exit_scope();
        Ok(())
    }
}

} // verus!
