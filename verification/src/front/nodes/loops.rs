//! Loops and the statements that leave or restart them.
use vstd::prelude::*;

use crate::front::nodes::body::Body;
use crate::front::nodes::expr::Expr;
use crate::front::nodes::variables::VariableDeclaration;
use crate::front::token::Position;

verus! {

#[derive(Debug)]
pub struct Break;

#[derive(Debug)]
pub struct Continue;

#[derive(Debug)]
pub struct Loop {
    pub body: (Body, Position),
}

#[derive(Debug)]
pub struct WhileLoop {
    pub condition: (Expr, Position),
    pub body: (Body, Position),
}

#[derive(Debug)]
pub struct ForLoop {
    pub iter: VariableDeclaration,
    pub condition: (Expr, Position),
    pub body: (Body, Position),
}

#[derive(Debug)]
pub struct ForEachLoop {
    pub iter: Expr,
}

} // verus!
