//! Function parameters.
use vstd::prelude::*;

use crate::front::nodes::types::{SpecType, Type};
use crate::front::nodes::expr::unit_result_view;
use crate::front::nodes::statement::{param_check, param_unit};
use crate::middle::ir::{instrs_view, ir_type_of, units_view, IRContext, IRInstruction, IRType, IRUnit, SpecUnit};
use crate::front::semantic::{SemanticContext, Symbol};
use crate::front::token::Position;

verus! {

#[derive(Debug)]
pub struct Parameter {
    pub id: String,
    pub var_type: Type,
    pub position: Position,
}

/// The mathematical value of a [`Parameter`].
pub struct SpecParam {
    pub id: Seq<char>,
    pub var_type: SpecType,
    pub position: Position,
}

impl View for Parameter {
    type V = SpecParam;

    open spec fn view(&self) -> SpecParam {
        SpecParam { id: self.id@, var_type: self.var_type@, position: self.position }
    }
}

pub open spec fn params_view(v: Seq<(Parameter, Position)>) -> Seq<(SpecParam, Position)> {
    v.map_values(|p: (Parameter, Position)| (p.0@, p.1))
}

impl Parameter {
    /// Declares the parameter as a variable in the innermost scope; refused
    /// if its name is already visible.
    pub fn analyze(&self, ctx: &mut SemanticContext) -> (r: Result<(), String>)
        ensures
            (final(ctx)@, unit_result_view(r)) == param_check(self@, old(ctx)@),
            final(ctx).halted == old(ctx).halted,
    {
        if ctx.lookup(self.id.as_str()).is_some() {
            let mut m = String::from_str("Parameter `");
            m.append(self.id.as_str());
            m.append("` is already declared.");
            return Err(m);
        }
        ctx.add_symbol(self.id.as_str(), (Symbol::Variable(self.var_type.clone()), self.position));
        Ok(())
    }
}

impl Parameter {
    /// A stack slot for the parameter, without an initial value: the value
    /// is moved there from its argument register when the function starts.
    pub fn ir(&self, ctx: &mut IRContext) -> (r: Vec<IRUnit>)
        requires
            ir_type_of(self.var_type@) is Some,
        ensures
            units_view(r@) == seq![param_unit(self@)],
            *final(ctx) == *old(ctx),
    {
        let inst = IRInstruction::AllocStack {
            name: self.id.clone(),
            var_type: IRType::from_type(&self.var_type),
            initial_value: None,
        };
        let mut v: Vec<IRInstruction> = Vec::new();
        v.push(inst);
        assert(instrs_view(v@) =~= seq![v@[0]@]);
        let mut units: Vec<IRUnit> = Vec::new();
        units.push(IRUnit::Global(v));
        assert(units_view(units@) =~= seq![param_unit(self@)]);
        units
    }
}

} // verus!
