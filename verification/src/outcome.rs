//! Expression-evaluation outcomes.
//!
//! Every expression evaluation either gives a [`Value`] (`Normal`) or
//! propagates a JavaScript-level exception value (`Throw`), each paired
//! with the updated [`Heap`] and [`Fuel`].  Fatal conditions are returned
//! as [`Error`] instead.

use vstd::prelude::*;

use crate::error::Error;
use crate::fuel::{fuel_le, fuel_lt, Fuel};
use crate::text::concat;
use crate::heap::Heap;
use crate::value::Value;

verus! {

/// The outcome of evaluating an expression.
#[derive(Debug)]
pub enum Outcome {
    /// Normal completion carrying a value.
    Normal(Value),
    /// `throw value`.
    Throw(Value),
}

/// Result of an expression evaluation step.
pub type EvalResult = Result<(Outcome, Heap, Fuel), Error>;

impl Outcome {
    /// Map the value under `Normal`, leaving `Throw` untouched.
    pub fn map_normal<F: FnOnce(Value) -> Value>(self, f: F) -> (r: Self)
        requires
            self matches Outcome::Normal(v) ==> f.requires((v,)),
        ensures
            self matches Outcome::Normal(v) ==> (r matches Outcome::Normal(w) && f.ensures((v,), w)),
            self matches Outcome::Throw(v) ==> r == Outcome::Throw(v),
    {
        match self {
            Outcome::Normal(v) => Outcome::Normal(f(v)),
            Outcome::Throw(v) => Outcome::Throw(v),
        }
    }
}

/// Continue from a normal outcome and propagate everything else: a fatal
/// error is returned as is, a throw is returned with its heap and fuel,
/// and a normal value is handed to `k` together with its heap and fuel.
pub fn step<F: FnOnce(Value, Heap, Fuel) -> EvalResult>(result: EvalResult, k: F) -> (r: EvalResult)
    requires
        result matches Ok((Outcome::Normal(v), h, f)) ==> k.requires((v, h, f)),
    ensures
        result matches Err(e) ==> r == Err::<(Outcome, Heap, Fuel), Error>(e),
        result matches Ok((Outcome::Throw(v), h, f)) ==> r == Ok::<(Outcome, Heap, Fuel), Error>(
            (Outcome::Throw(v), h, f),
        ),
        result matches Ok((Outcome::Normal(v), h, f)) ==> k.ensures((v, h, f), r),
{
    match result {
        Err(e) => Err(e),
        Ok((Outcome::Throw(v), heap, fuel)) => Ok((Outcome::Throw(v), heap, fuel)),
        Ok((Outcome::Normal(v), heap, fuel)) => k(v, heap, fuel),
    }
}

/// The evaluation kept to its budget: on success the remaining fuel is at
/// most what it started with.
pub open spec fn kept_budget(r: EvalResult, fuel: Fuel) -> bool {
    r matches Ok((_, _, f)) ==> fuel_le(f, fuel)
}

/// The evaluation spent from its budget: on success strictly less fuel
/// remains than it started with.
pub open spec fn spent_budget(r: EvalResult, fuel: Fuel) -> bool {
    r matches Ok((_, _, f)) ==> fuel_lt(f, fuel)
}

/// `v` is the string `prefix` followed by `message`: the shape of the
/// engine's own exception values.
pub open spec fn is_error_value(v: Value, prefix: Seq<char>, message: Seq<char>) -> bool {
    v matches Value::String(s) && s@ == prefix + message
}

/// A thrown `TypeError` with the given message.
pub open spec fn is_type_error(v: Value, message: Seq<char>) -> bool {
    is_error_value(v, "TypeError: "@, message)
}

/// A thrown `ReferenceError` for the unbound `name`.
pub open spec fn is_reference_error(v: Value, name: Seq<char>) -> bool {
    v matches Value::String(s) && s@ == "ReferenceError: "@ + name + " is not defined"@
}

/// The value thrown for a type error: `"TypeError: "` and the message.
pub fn type_error(message: &str) -> (r: Value)
    ensures
        is_type_error(r, message@),
{
    Value::String(concat("TypeError: ", message))
}

/// The value thrown when `name` is not bound:
/// `"ReferenceError: <name> is not defined"`.
pub fn reference_error(name: &str) -> (r: Value)
    ensures
        is_reference_error(r, name@),
{
    Value::String(crate::text::concat3("ReferenceError: ", name, " is not defined"))
}

} // verus!
