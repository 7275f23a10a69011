//! Engine error type.
//!
//! Engine errors are reserved for fatal conditions: out-of-fuel, AST
//! nodes the engine does not evaluate, and lexer and parser failures.  JavaScript-level exceptions
//! (`TypeError`, `ReferenceError`, user `throw`) are not errors: they are
//! [`Outcome::Throw`](crate::outcome::Outcome::Throw) values that propagate
//! through the evaluator and can be caught by `try`/`catch`.  Only when a
//! throw escapes the top of the script does it become
//! [`Error::UncaughtException`].

use vstd::prelude::*;

verus! {

/// Fatal engine errors.
#[derive(Debug, Clone, PartialEq, Eq)]
pub enum Error {
    /// Lexing failed.
    Lex {
        /// The lexer's message.
        message: String,
    },
    /// Parsing failed.
    Parse {
        /// The parser's message.
        message: String,
    },
    /// AST construction failed (validation by `ecma-syntax-cat`).
    Syntax {
        /// The validator's message.
        message: String,
    },
    /// The engine ran out of evaluation steps.
    FuelExhausted {
        /// The budget it started with.
        limit: u64,
    },
    /// An unhandled `throw` escaped the top of the script.
    UncaughtException {
        /// The thrown value rendered for diagnostics.
        rendered: String,
    },
    /// Encountered an AST node that the engine does not evaluate.
    Unsupported {
        /// What feature is not supported.
        feature: &'static str,
    },
    /// A `BigInt` literal appeared but `BigInt` evaluation is not
    /// implemented.
    BigIntUnsupported,
}

} // verus!
