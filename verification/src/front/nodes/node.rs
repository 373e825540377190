//! What every node of the syntax tree offers: its dump, its analysis, and
//! its intermediate code.
use vstd::prelude::*;

use crate::front::display::{pieces_view, stmt_pieces, stmt_shows, Paint, Piece};
use crate::front::nodes::expr::unit_result_view;
use crate::front::nodes::statement::{ir_frame, ir_state, stmt_check, stmt_ir, IRState, Statement};
use crate::front::semantic::{SemanticContext, SpecContext};
use crate::middle::ir::{units_view, IRContext, IRUnit, SpecUnit};

verus! {

/// A node of the syntax tree.
pub trait Node {
    /// Whether the node can be dumped at indentation `i`.
    spec fn shows_at(&self, i: nat) -> bool;

    /// The dump of the node at indentation `i`.
    spec fn pieces(&self, i: nat) -> Seq<(Seq<char>, Paint)>;

    /// What analyzing the node leaves: the context after it and the outcome,
    /// or `None` where the analysis halts.
    spec fn analysis(&self, c: SpecContext) -> Option<(SpecContext, Result<(), Seq<char>>)>;

    /// The code of the node and the generation state after it, or `None`
    /// where generation fails.
    spec fn lowering(&self, st: IRState) -> Option<(Seq<SpecUnit>, IRState)>;

    /// The dump of the node.
    fn display(&self, indentation: usize) -> (out: Vec<Piece>)
        requires
            self.shows_at(indentation as nat),
        ensures
            pieces_view(out@) == self.pieces(indentation as nat),
    ;

    /// Checks the node against the context, which it may extend.
    fn analyze(&self, ctx: &mut SemanticContext) -> (r: Result<(), String>)
        requires
            !old(ctx).halted,
        ensures
            final(ctx).halted == (self.analysis(old(ctx)@) is None),
            final(ctx).halted ==> r is Err,
            !final(ctx).halted ==> self.analysis(old(ctx)@) == Some((final(ctx)@, unit_result_view(r))),
    ;

    /// The intermediate code of the node.
    fn ir(&self, ctx: &mut IRContext) -> (r: Vec<IRUnit>)
        requires
            self.lowering(ir_state(*old(ctx))) is Some,
        ensures
            self.lowering(ir_state(*old(ctx))) == Some((units_view(r@), ir_state(*final(ctx)))),
            ir_frame(*final(ctx), *old(ctx)),
    ;
}

impl Node for Statement {
    open spec fn shows_at(&self, i: nat) -> bool {
        stmt_shows(self@, i)
    }

    open spec fn pieces(&self, i: nat) -> Seq<(Seq<char>, Paint)> {
        stmt_pieces(self@, i)
    }

    open spec fn analysis(&self, c: SpecContext) -> Option<(SpecContext, Result<(), Seq<char>>)> {
        stmt_check(self@, c)
    }

    open spec fn lowering(&self, st: IRState) -> Option<(Seq<SpecUnit>, IRState)> {
        stmt_ir(self@, st)
    }

    fn display(&self, indentation: usize) -> (out: Vec<Piece>) {
        Statement::display(self, indentation)
    }

    fn analyze(&self, ctx: &mut SemanticContext) -> (r: Result<(), String>) {
        Statement::analyze(self, ctx)
    }

    fn ir(&self, ctx: &mut IRContext) -> (r: Vec<IRUnit>) {
        Statement::ir(self, ctx)
    }
}

} // verus!
