//! What the embedder supplies: binary64 arithmetic and conversions, and
//! its own native callables.
//!
//! The engine decides every language rule itself; the operations here are
//! the ones that need floating-point hardware or the embedder's code.
//! Nothing is assumed of them: every property the engine states holds
//! whatever they return.

use vstd::prelude::*;

use crate::fuel::Fuel;
use crate::heap::Heap;
use crate::outcome::EvalResult;
use crate::value::Value;

verus! {

/// The arithmetic operators computed in binary64.
#[derive(Debug, Clone, Copy, PartialEq, Eq, Structural)]
pub enum NumericOperator {
    /// `+` on numbers.
    Add,
    /// `-`.
    Subtract,
    /// `*`.
    Multiply,
    /// `/`.
    Divide,
    /// `%` (truncating remainder).
    Remainder,
    /// `**`.
    Exponentiation,
}

/// The embedder's side of evaluation.
///
/// Each operation comes with a relation that records what the host was
/// asked and what it answered.  Read as "the answers this host gives",
/// the relations hold of every implementation, so they claim nothing of
/// the host; their default (`true`) only spares an implementation from
/// defining them, and the engine's proofs, made for every host, never
/// use it.  They let the engine's contracts say exactly what it hands
/// the host, and that the answer is the host's answer to that question.
pub trait Host {
    /// `bits` is what the host answers when asked to parse `text`.
    closed spec fn parse_gives(&self, text: Seq<char>, bits: u64) -> bool {
        true
    }

    /// `text` is what the host answers when asked to write the number
    /// encoded by `bits`.
    closed spec fn format_gives(&self, bits: u64, text: Seq<char>) -> bool {
        true
    }

    /// `r` is what the host answers for `lhs operator rhs`.
    closed spec fn arithmetic_gives(&self, operator: NumericOperator, lhs: u64, rhs: u64, r: u64) -> bool {
        true
    }

    /// `r` is what the host answers when its native callable `id` is
    /// called with `args` and `this`, from `heap` with `fuel`.
    closed spec fn native_gives(
        &self,
        id: u64,
        args: Seq<Value>,
        this: Value,
        heap: Heap,
        fuel: Fuel,
        r: EvalResult,
    ) -> bool {
        true
    }

    /// The encoding of the number a non-empty text without surrounding
    /// white space denotes, as `str::parse::<f64>` reads it; NaN when it
    /// denotes none.
    fn parse_number(&self, text: &str) -> (r: u64)
        ensures
            self.parse_gives(text@, r),
    ;

    /// The decimal text of the number encoded by `bits`, as Rust's
    /// `Display` writes it (the shortest text that reads back as the
    /// same number).
    fn format_number(&self, bits: u64) -> (r: String)
        ensures
            self.format_gives(bits, r@),
    ;

    /// `lhs operator rhs` in binary64.
    fn arithmetic(&self, operator: NumericOperator, lhs: u64, rhs: u64) -> (r: u64)
        ensures
            self.arithmetic_gives(operator, lhs, rhs, r),
    ;

    /// Call the embedder's native callable number `id` with the given
    /// arguments and `this`, threading heap and fuel.
    fn call_native(&self, id: u64, args: Vec<Value>, this: Value, heap: Heap, fuel: Fuel) -> (r: EvalResult)
        ensures
            self.native_gives(id, args@, this, heap, fuel, r),
    ;
}

} // verus!
