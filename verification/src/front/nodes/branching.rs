//! Conditional statements.
use vstd::prelude::*;

use crate::front::nodes::body::Body;
use crate::front::nodes::expr::Expr;
use crate::front::token::Position;

verus! {

#[derive(Debug)]
pub struct IfStatement {
    pub condition: (Expr, Position),
    pub branch: (Body, Position),
}

/// An `else` branch, with the condition of an `else if`.
#[derive(Debug)]
pub struct ElseStatement {
    pub condition: Option<(Expr, Position)>,
    pub branch: (Body, Position),
}

} // verus!
