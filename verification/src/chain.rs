//! Optional chains: `a?.b`, `a?.[k]`, `f?.(x)`.  Inside a chain, an
//! optional link whose object or callee is `null` or `undefined` skips
//! the rest of the chain, which then gives `undefined`.

use vstd::prelude::*;

use crate::ast::{Expression, MemberName};
use crate::call::{call_function, sem_call_function};
use crate::env::Env;
use crate::error::Error;
use crate::expression::{eval, sem_eval};
use crate::fuel::{fuel_le, fuel_lt, lemma_spent, Fuel};
use crate::heap::Heap;
use crate::host::Host;
use crate::literal::{collect_kept_budget, eval_arguments, sem_arguments, Collected};
use crate::outcome::{kept_budget, spent_budget, EvalResult, Outcome};
use crate::property::{resolve_member, sem_resolve_member};
use crate::value::Value;

verus! {

/// What evaluating a link of an optional chain gives: its outcome, or
/// `None` when an optional link met `null` or `undefined` and the rest of
/// the chain is skipped.
pub type ChainResult = Result<(Option<Outcome>, Heap, Fuel), Error>;

/// A chain's callee and its `this`, or `None` when the chain was skipped.
pub type ChainCallee = Result<(Option<(Outcome, Value)>, Heap, Fuel), Error>;

/// `null` or `undefined`.
pub open spec fn is_nullish(v: Value) -> bool {
    v is Null || v is Undefined
}

/// Whether `v` is `null` or `undefined`.
fn nullish(v: &Value) -> (r: bool)
    ensures
        r == is_nullish(*v),
{
    match v {
        Value::Null | Value::Undefined => true,
        _ => false,
    }
}

/// On success, strictly less fuel remains than it started with.
pub open spec fn chain_spent_budget(r: ChainResult, fuel: Fuel) -> bool {
    r matches Ok((_, _, f)) ==> fuel_lt(f, fuel)
}

/// On success, at most the fuel it started with remains.
pub open spec fn callee_kept_budget(r: ChainCallee, fuel: Fuel) -> bool {
    r matches Ok((_, _, f)) ==> fuel_le(f, fuel)
}

/// `r` is the evaluation result `r1` as a link's result.
pub open spec fn chain_link(r1: EvalResult, r: ChainResult) -> bool {
    match r1 {
        Err(e) => r == Err::<(Option<Outcome>, Heap, Fuel), Error>(e),
        Ok((o, h, f)) => r == Ok::<(Option<Outcome>, Heap, Fuel), Error>((Some(o), h, f)),
    }
}

/// Evaluating a link of an optional chain.  A member access or call
/// costs one unit of fuel, as outside a chain; its object or callee is a
/// link too.  An optional one whose object or callee is `null` or
/// `undefined` skips the rest; any other expression is evaluated as
/// usual.
pub open spec fn sem_chain_part<H: Host>(host: &H, expr: Expression, env: Env, heap: Heap, fuel: Fuel, r: ChainResult) -> bool
    decreases fuel.spec_remaining(), 0int, 3int, 0int,
{
    match expr {
        Expression::Member { object, property, optional } => if fuel.spec_remaining() == 0 {
            r == Err::<(Option<Outcome>, Heap, Fuel), Error>(Error::FuelExhausted { limit: fuel.spec_limit() })
        } else {
            let f1 = fuel.spec_spent();
            proof {
                lemma_spent(fuel);
            }
            exists|r1: ChainResult| #[trigger] chain_spent_budget(r1, f1) && sem_chain_part(host, *object, env, heap, f1, r1)
                && match r1 {
                Ok((Some(Outcome::Normal(obj)), h, f)) => if optional && is_nullish(obj) {
                    r == Ok::<(Option<Outcome>, Heap, Fuel), Error>((None, h, f))
                } else {
                    exists|r2: EvalResult| #[trigger] kept_budget(r2, f) && sem_resolve_member(host, obj, property, env, h, f, r2)
                        && chain_link(r2, r)
                },
                _ => r == r1,
            }
        },
        Expression::Call { callee, arguments, optional } => if fuel.spec_remaining() == 0 {
            r == Err::<(Option<Outcome>, Heap, Fuel), Error>(Error::FuelExhausted { limit: fuel.spec_limit() })
        } else {
            let f1 = fuel.spec_spent();
            proof {
                lemma_spent(fuel);
            }
            exists|r1: ChainCallee| #[trigger] callee_kept_budget(r1, f1) && sem_chain_callee(host, *callee, env, heap, f1, r1)
                && match r1 {
                Err(e) => r == Err::<(Option<Outcome>, Heap, Fuel), Error>(e),
                Ok((None, h, f)) => r == Ok::<(Option<Outcome>, Heap, Fuel), Error>((None, h, f)),
                Ok((Some((Outcome::Throw(v), _)), h, f)) => r == Ok::<(Option<Outcome>, Heap, Fuel), Error>(
                    (Some(Outcome::Throw(v)), h, f),
                ),
                Ok((Some((Outcome::Normal(fv), this_value)), h, f)) => if optional && is_nullish(fv) {
                    r == Ok::<(Option<Outcome>, Heap, Fuel), Error>((None, h, f))
                } else {
                    exists|r2: Result<(Collected, Heap, Fuel), Error>| #[trigger] collect_kept_budget(r2, f)
                        && sem_arguments(host, arguments@, env, h, f, r2) && match r2 {
                        Err(e) => r == Err::<(Option<Outcome>, Heap, Fuel), Error>(e),
                        Ok((Collected::Throw(v), h2, f2)) => r == Ok::<(Option<Outcome>, Heap, Fuel), Error>(
                            (Some(Outcome::Throw(v)), h2, f2),
                        ),
                        Ok((Collected::Values(args), h2, f2)) => exists|r3: EvalResult| #[trigger] kept_budget(r3, f2)
                            && sem_call_function(host, fv, this_value, args@, h2, f2, r3) && chain_link(r3, r),
                    }
                },
            }
        },
        _ => exists|r1: EvalResult| #[trigger] spent_budget(r1, fuel) && sem_eval(host, expr, env, heap, fuel, r1)
            && chain_link(r1, r),
    }
}

/// The callee of a call inside a chain and its `this`: for a member
/// callee the member of its object and that object (an optional member
/// link on `null` or `undefined` skips the chain), otherwise the callee
/// as a link and `undefined`.
pub open spec fn sem_chain_callee<H: Host>(host: &H, callee: Expression, env: Env, heap: Heap, fuel: Fuel, r: ChainCallee) -> bool
    decreases fuel.spec_remaining(), 0int, 4int, 0int,
{
    match callee {
        Expression::Member { object, property, optional } => exists|r1: ChainResult|
            #[trigger] chain_spent_budget(r1, fuel) && sem_chain_part(host, *object, env, heap, fuel, r1) && match r1 {
            Err(e) => r == Err::<(Option<(Outcome, Value)>, Heap, Fuel), Error>(e),
            Ok((None, h, f)) => r == Ok::<(Option<(Outcome, Value)>, Heap, Fuel), Error>((None, h, f)),
            Ok((Some(Outcome::Throw(v)), h, f)) => r == Ok::<(Option<(Outcome, Value)>, Heap, Fuel), Error>(
                (Some((Outcome::Throw(v), Value::Undefined)), h, f),
            ),
            Ok((Some(Outcome::Normal(obj)), h, f)) => if optional && is_nullish(obj) {
                r == Ok::<(Option<(Outcome, Value)>, Heap, Fuel), Error>((None, h, f))
            } else {
                exists|r2: EvalResult| #[trigger] kept_budget(r2, f) && sem_resolve_member(host, obj, property, env, h, f, r2)
                    && match r2 {
                    Err(e) => r == Err::<(Option<(Outcome, Value)>, Heap, Fuel), Error>(e),
                    Ok((o, h2, f2)) => r == Ok::<(Option<(Outcome, Value)>, Heap, Fuel), Error>((Some((o, obj)), h2, f2)),
                }
            },
        },
        _ => exists|r1: ChainResult| #[trigger] chain_spent_budget(r1, fuel) && sem_chain_part(host, callee, env, heap, fuel, r1)
            && match r1 {
            Err(e) => r == Err::<(Option<(Outcome, Value)>, Heap, Fuel), Error>(e),
            Ok((None, h, f)) => r == Ok::<(Option<(Outcome, Value)>, Heap, Fuel), Error>((None, h, f)),
            Ok((Some(o), h, f)) => r == Ok::<(Option<(Outcome, Value)>, Heap, Fuel), Error>(
                (Some((o, Value::Undefined)), h, f),
            ),
        },
    }
}

/// Evaluate a link of an optional chain.
pub fn eval_chain_part<H: Host>(expr: &Expression, env: &Env, heap: Heap, fuel: Fuel, host: &H) -> (r: ChainResult)
    ensures
        chain_spent_budget(r, fuel),
        sem_chain_part(host, *expr, *env, heap, fuel, r),
    decreases fuel.spec_remaining(), 0int, 3int, 0int,
{
    match expr {
        Expression::Member { object, property, optional } => {
            let f1 = match fuel.spend() {
                Err(e) => {
                    return Err(e);
                },
                Ok(f) => f,
            };
            proof {
                lemma_spent(fuel);
            }
            let r1 = eval_chain_part(object, env, heap, f1, host);
            match r1 {
                Ok((Some(Outcome::Normal(obj)), h, f)) => {
                    if *optional && nullish(&obj) {
                        Ok((None, h, f))
                    } else {
                        let r2 = resolve_member(&obj, property, env, h, f, host);
                        match r2 {
                            Err(e) => Err(e),
                            Ok((o, h2, f2)) => Ok((Some(o), h2, f2)),
                        }
                    }
                },
                other => other,
            }
        },
        Expression::Call { callee, arguments, optional } => {
            let f1 = match fuel.spend() {
                Err(e) => {
                    return Err(e);
                },
                Ok(f) => f,
            };
            proof {
                lemma_spent(fuel);
            }
            match eval_chain_callee(callee, env, heap, f1, host) {
                Err(e) => Err(e),
                Ok((None, h, f)) => Ok((None, h, f)),
                Ok((Some((Outcome::Throw(v), _)), h, f)) => Ok((Some(Outcome::Throw(v)), h, f)),
                Ok((Some((Outcome::Normal(fv), this_value)), h, f)) => {
                    if *optional && nullish(&fv) {
                        Ok((None, h, f))
                    } else {
                        match eval_arguments(arguments, env, h, f, host) {
                            Err(e) => Err(e),
                            Ok((Collected::Throw(v), h2, f2)) => Ok((Some(Outcome::Throw(v)), h2, f2)),
                            Ok((Collected::Values(args), h2, f2)) => {
                                let r3 = call_function(&fv, &this_value, args, h2, f2, host);
                                match r3 {
                                    Err(e) => Err(e),
                                    Ok((o, h3, f3)) => Ok((Some(o), h3, f3)),
                                }
                            },
                        }
                    }
                },
            }
        },
        _ => match eval(expr, env, heap, fuel, host) {
            Err(e) => Err(e),
            Ok((o, h, f)) => Ok((Some(o), h, f)),
        },
    }
}

/// Evaluate the callee of a call inside a chain, with its `this`.
fn eval_chain_callee<H: Host>(callee: &Expression, env: &Env, heap: Heap, fuel: Fuel, host: &H) -> (r: ChainCallee)
    ensures
        callee_kept_budget(r, fuel),
        sem_chain_callee(host, *callee, *env, heap, fuel, r),
    decreases fuel.spec_remaining(), 0int, 4int, 0int,
{
    match callee {
        Expression::Member { object, property, optional } => match eval_chain_part(object, env, heap, fuel, host) {
            Err(e) => Err(e),
            Ok((None, h, f)) => Ok((None, h, f)),
            Ok((Some(Outcome::Throw(v)), h, f)) => Ok((Some((Outcome::Throw(v), Value::Undefined)), h, f)),
            Ok((Some(Outcome::Normal(obj)), h, f)) => {
                if *optional && nullish(&obj) {
                    Ok((None, h, f))
                } else {
                    match resolve_member(&obj, property, env, h, f, host) {
                        Err(e) => Err(e),
                        Ok((o, h2, f2)) => Ok((Some((o, obj)), h2, f2)),
                    }
                }
            },
        },
        _ => match eval_chain_part(callee, env, heap, fuel, host) {
            Err(e) => Err(e),
            Ok((None, h, f)) => Ok((None, h, f)),
            Ok((Some(o), h, f)) => Ok((Some((o, Value::Undefined)), h, f)),
        },
    }
}

} // verus!
