//! The abstract syntax tree of a source file.
use vstd::prelude::*;

use crate::front::nodes::expr::unit_result_view;
use crate::front::nodes::statement::{
    lemma_stmts_check_stop, lemma_stmts_view, stmt_check, stmts_check, stmts_view, SpecStmt, Statement,
};
use crate::front::nodes::statement::{ir_frame, ir_state, lemma_stmts_ir_prefix, stmt_ir, stmts_ir, IRState};
use crate::front::semantic::SemanticContext;
use crate::middle::ir::{
    functions_view, instrs_view, lemma_module_concat, module_functions, module_globals, units_view, IRContext, IRModule,
    SpecUnit,
};
use crate::front::token::Position;

verus! {

/// The definitions of a source file, each with its position.
#[derive(Debug)]
pub struct Ast {
    pub children: Vec<(Statement, Position)>,
}

impl View for Ast {
    type V = Seq<(SpecStmt, Position)>;

    open spec fn view(&self) -> Seq<(SpecStmt, Position)> {
        stmts_view(self.children@)
    }
}

impl Ast {
    pub fn new() -> (a: Ast)
        ensures
            a.children@.len() == 0,
    {
        Ast { children: Vec::new() }
    }
}

impl Ast {
    /// Analyzes the definitions in order, up to the first error.
    pub fn analyze(&self, ctx: &mut SemanticContext) -> (r: Result<(), String>)
        requires
            !old(ctx).halted,
        ensures
            final(ctx).halted == (stmts_check(self@, old(ctx)@) is None),
            final(ctx).halted ==> r is Err,
            !final(ctx).halted ==> stmts_check(self@, old(ctx)@) == Some((final(ctx)@, unit_result_view(r))),
    {
        let ghost stmts = self@;
        let ghost c0 = ctx@;
        proof {
            lemma_stmts_view(self.children@);
        }
        let mut i: usize = 0;
        while i < self.children.len()
            invariant
                i <= self.children.len(),
                stmts == stmts_view(self.children@),
                stmts.len() == self.children.len(),
                forall|j: int| 0 <= j < self.children.len() ==> #[trigger] stmts[j] == (self.children@[j].0@, self.children@[j].1),
                !ctx.halted,
                c0 == old(ctx)@,
                stmts_check(stmts.take(i as int), c0) == Some((ctx@, Ok::<(), Seq<char>>(()))),
            decreases self.children.len() - i,
        {
            proof {
                assert(stmts.take(i + 1).drop_last() =~= stmts.take(i as int));
                assert(stmts.take(i + 1).last() == stmts[i as int]);
            }
            let res = self.children[i].0.analyze(ctx);
            if res.is_err() {
                proof {
                    lemma_stmts_check_stop(stmts, c0, i + 1);
                }
                return res;
            }
            i += 1;
        }
        assert(stmts.take(i as int) =~= stmts);
        Ok(())
    }
}

impl Ast {
    /// The module of the tree: the global instructions and the functions of
    /// the definitions' units, in order.
    pub fn ir(&self, ctx: &mut IRContext) -> (m: IRModule)
        requires
            stmts_ir(self@, ir_state(*old(ctx))) is Some,
        ensures
            ({
                let (us, st) = stmts_ir(self@, ir_state(*old(ctx))).unwrap();
                &&& ir_state(*final(ctx)) == st
                &&& instrs_view(m.globals@) == module_globals(us)
                &&& functions_view(m.functions@) == module_functions(us)
            }),
            ir_frame(*final(ctx), *old(ctx)),
    {
        let ghost stmts = self@;
        let ghost st0 = ir_state(*ctx);
        let ghost mut us: Seq<SpecUnit> = Seq::empty();
        proof {
            lemma_stmts_view(self.children@);
        }
        let mut module = IRModule::new();
        assert(stmts.take(0) =~= Seq::<(SpecStmt, Position)>::empty());
        assert(instrs_view(module.globals@) =~= module_globals(us));
        assert(functions_view(module.functions@) =~= module_functions(us));
        let mut i: usize = 0;
        while i < self.children.len()
            invariant
                i <= self.children.len(),
                stmts == stmts_view(self.children@),
                stmts.len() == self.children.len(),
                forall|j: int| 0 <= j < self.children.len() ==> #[trigger] stmts[j] == (self.children@[j].0@, self.children@[j].1),
                stmts_ir(stmts, st0) is Some,
                st0 == ir_state(*old(ctx)),
                stmts_ir(stmts.take(i as int), st0) == Some((us, ir_state(*ctx))),
                instrs_view(module.globals@) == module_globals(us),
                functions_view(module.functions@) == module_functions(us),
                ir_frame(*ctx, *old(ctx)),
            decreases self.children.len() - i,
        {
            proof {
                assert(stmts.take(i + 1).drop_last() =~= stmts.take(i as int));
                assert(stmts.take(i + 1).last() == stmts[i as int]);
                lemma_stmts_ir_prefix(stmts, st0, i + 1);
            }
            let units = self.children[i].0.ir(ctx);
            proof {
                lemma_module_concat(us, units_view(units@));
                us = us + units_view(units@);
            }
            module.add_units(units);
            i += 1;
        }
        assert(stmts.take(i as int) =~= stmts);
        module
    }
}

/// The module of a tree is built from its definitions one after another:
/// when the first `k` give units `us` and leave state `sk`, and definition `k`
/// gives units `vs` in `sk`, the first `k + 1` give `us` then `vs`; the module's
/// globals are then those of `us` followed by those of `vs`, and so are its
/// functions.
pub proof fn law_module_in_order(
    stmts: Seq<(SpecStmt, Position)>,
    st: IRState,
    k: int,
    us: Seq<SpecUnit>,
    sk: IRState,
    vs: Seq<SpecUnit>,
    s2: IRState,
)
    requires
        0 <= k < stmts.len(),
        stmts_ir(stmts.take(k), st) == Some((us, sk)),
        stmt_ir(stmts[k].0, sk) == Some((vs, s2)),
    ensures
        stmts_ir(stmts.take(k + 1), st) == Some((us + vs, s2)),
        module_globals(us + vs) == module_globals(us) + module_globals(vs),
        module_functions(us + vs) == module_functions(us) + module_functions(vs),
{
    assert(stmts.take(k + 1).drop_last() =~= stmts.take(k));
    assert(stmts.take(k + 1).last() == stmts[k]);
    lemma_module_concat(us, vs);
}

} // verus!
