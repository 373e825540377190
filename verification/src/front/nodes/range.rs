//! Ranges.
use vstd::prelude::*;

verus! {

#[derive(Debug)]
pub struct Range {
    start: String,
    end: String,
}

} // verus!
