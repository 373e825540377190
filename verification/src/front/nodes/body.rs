//! Blocks of statements.
use vstd::prelude::*;

use crate::front::nodes::expr::unit_result_view;
use crate::front::nodes::statement::{
    body_check, lemma_stmts_check_stop, lemma_stmts_view, stmt_check, stmts_check, stmts_view, SpecStmt, Statement,
};
use crate::front::nodes::statement::{ir_frame, ir_state, lemma_stmts_ir_prefix, stmt_ir, stmts_ir};
use crate::front::semantic::{enter_scope_spec, SemanticContext};
use crate::middle::ir::{units_view, IRContext, IRUnit, SpecUnit};
use crate::front::token::Position;

verus! {

/// The statements of a block, each with its position.
#[derive(Debug)]
pub struct Body {
    pub children: Vec<(Statement, Position)>,
}

impl View for Body {
    type V = Seq<(SpecStmt, Position)>;

    open spec fn view(&self) -> Seq<(SpecStmt, Position)> {
        stmts_view(self.children@)
    }
}

impl Body {
    /// Analyzes the statements in order in a scope of their own, up to the
    /// first error.
    pub fn analyze(&self, ctx: &mut SemanticContext) -> (r: Result<(), String>)
        requires
            !old(ctx).halted,
        ensures
            final(ctx).halted == (body_check(self@, old(ctx)@) is None),
            final(ctx).halted ==> r is Err,
            !final(ctx).halted ==> body_check(self@, old(ctx)@) == Some((final(ctx)@, unit_result_view(r))),
        decreases self,
    {
        let ghost stmts = self@;
        proof {
            lemma_stmts_view(self.children@);
        }
        ctx.enter_scope();
        let ghost c0 = ctx@;
        assert(c0 == enter_scope_spec(old(ctx)@));
        let mut i: usize = 0;
        while i < self.children.len()
            invariant
                i <= self.children.len(),
                stmts == stmts_view(self.children@),
                stmts.len() == self.children.len(),
                forall|j: int| 0 <= j < self.children.len() ==> #[trigger] stmts[j] == (self.children@[j].0@, self.children@[j].1),
                !ctx.halted,
                c0 == enter_scope_spec(old(ctx)@),
                stmts_check(stmts.take(i as int), c0) == Some((ctx@, Ok::<(), Seq<char>>(()))),
            decreases self.children.len() - i,
        {
            proof {
                assert(stmts.take(i + 1).drop_last() =~= stmts.take(i as int));
                assert(stmts.take(i + 1).last() == stmts[i as int]);
            }
            assert(decreases_to!(self => self.children@[i as int].0));
            let res = self.children[i].0.analyze(ctx);
            if res.is_err() {
                proof {
                    lemma_stmts_check_stop(stmts, c0, i + 1);
                }
                return res;
            }
            i += 1;
        }
        assert(stmts.take(i as int) =~= stmts);
        ctx.exit_scope();
        Ok(())
    }
}

impl Body {
    /// The IR units of the statements, in order.
    pub fn ir(&self, ctx: &mut IRContext) -> (r: Vec<IRUnit>)
        requires
            stmts_ir(self@, ir_state(*old(ctx))) is Some,
        ensures
            stmts_ir(self@, ir_state(*old(ctx))) == Some((units_view(r@), ir_state(*final(ctx)))),
            ir_frame(*final(ctx), *old(ctx)),
        decreases self,
    {
        let ghost stmts = self@;
        let ghost st0 = ir_state(*ctx);
        proof {
            lemma_stmts_view(self.children@);
        }
        let mut body_units: Vec<IRUnit> = Vec::new();
        let mut i: usize = 0;
        assert(stmts.take(0) =~= Seq::<(SpecStmt, crate::front::token::Position)>::empty());
        assert(units_view(body_units@) =~= Seq::<SpecUnit>::empty());
        while i < self.children.len()
            invariant
                i <= self.children.len(),
                stmts == stmts_view(self.children@),
                stmts.len() == self.children.len(),
                forall|j: int| 0 <= j < self.children.len() ==> #[trigger] stmts[j] == (self.children@[j].0@, self.children@[j].1),
                stmts_ir(stmts, st0) is Some,
                st0 == ir_state(*old(ctx)),
                stmts_ir(stmts.take(i as int), st0) == Some((units_view(body_units@), ir_state(*ctx))),
                ir_frame(*ctx, *old(ctx)),
            decreases self.children.len() - i,
        {
            proof {
                assert(stmts.take(i + 1).drop_last() =~= stmts.take(i as int));
                assert(stmts.take(i + 1).last() == stmts[i as int]);
                lemma_stmts_ir_prefix(stmts, st0, i + 1);
            }
            assert(decreases_to!(self => self.children@[i as int].0));
            let ghost before = body_units@;
            let mut units = self.children[i].0.ir(ctx);
            let ghost uv = units@;
            body_units.append(&mut units);
            proof {
                assert(units_view(body_units@) =~= units_view(before) + units_view(uv));
            }
            i += 1;
        }
        assert(stmts.take(i as int) =~= stmts);
        body_units
    }
}

} // verus!
