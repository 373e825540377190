//! The target of an `as` cast.
use vstd::prelude::*;

use crate::front::token::Position;

verus! {

/// The type named after `as`, and the position of the `as`.
#[derive(Debug)]
pub enum Cast {
    Primitive((String, Position)),
    NonPrimitive((String, Position)),
}

/// The mathematical value of a [`Cast`].
pub enum SpecCast {
    Primitive(Seq<char>, Position),
    NonPrimitive(Seq<char>, Position),
}

impl View for Cast {
    type V = SpecCast;

    open spec fn view(&self) -> SpecCast {
        match self {
            Cast::Primitive((s, p)) => SpecCast::Primitive(s@, *p),
            Cast::NonPrimitive((s, p)) => SpecCast::NonPrimitive(s@, *p),
        }
    }
}

impl Clone for Cast {
    fn clone(&self) -> (r: Self)
        ensures
            r@ == self@,
    {
        match self {
            Cast::Primitive((s, p)) => Cast::Primitive((s.clone(), *p)),
            Cast::NonPrimitive((s, p)) => Cast::NonPrimitive((s.clone(), *p)),
        }
    }
}

} // verus!
