//! Operators of the source language.
use vstd::prelude::*;

verus! {

#[derive(Debug, Clone, Copy, PartialEq, Eq, Structural)]
pub enum Operator {
    Walrus,
    Asign,
    Equals,
    NotEquals,
    Compare,
    Plus,
    Minus,
    Asterisk,
    Fslash,
    Percent,
    And,
    Or,
    Xor,
    Not,
    ShiftLeft,
    ShiftRight,
}

} // verus!
