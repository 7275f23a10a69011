//! Completion records: the result of evaluating a statement.

use vstd::prelude::*;

use crate::value::Value;

verus! {

/// The result of evaluating a statement.
#[derive(Debug)]
pub enum Completion {
    /// Normal completion with a value.
    Normal(Value),
    /// `return value;`
    Return(Value),
    /// `throw value;`
    Throw(Value),
    /// `break;`
    Break,
    /// `continue;`
    Continue,
}

impl Completion {
    /// Whether this completion is abrupt (anything other than `Normal`).
    pub fn is_abrupt(&self) -> (r: bool)
        ensures
            r == !(*self is Normal),
    {
        !matches!(self, Completion::Normal(_))
    }
}

} // verus!
