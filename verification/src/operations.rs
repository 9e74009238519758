//! The binary operators of the expression language.

use vstd::prelude::*;

verus! {

/// An operator that combines the running value with the value on its right.
#[derive(Debug, PartialEq, Eq, Structural, Copy, Clone)]
pub enum BinaryOperator {
    Plus,
    Minus,
}

} // verus!
