//! What the core operations do, stated directly over their inputs and
//! results, each proved from the evaluator's relations.

use vstd::prelude::*;

use crate::ast::{BinaryOp, Expression, LogicalOp, MemberName, Statement, UnaryOp};
use crate::call::sem_callee_and_this;
use crate::property::sem_resolve_member;
use crate::coercion::{loose_admits, number_admits, spec_strict_equals, spec_to_boolean};
use crate::completion::Completion;
use crate::env::Env;
use crate::error::Error;
use crate::expression::{passes_abrupt, sem_eval, spec_short_circuits};
use crate::fuel::Fuel;
use crate::heap::Heap;
use crate::host::Host;
use crate::number::{encodes_integer, spec_small_integer};
use crate::operator::{binary_admits, unary_admits};
use crate::outcome::{kept_budget, spent_budget, EvalResult, Outcome};
use crate::statement::{loop_exit, sem_statement, sem_while, stmt_spent_budget, StmtResult};
use crate::value::Value;

verus! {

/// `typeof` gives `"undefined"`, `"boolean"`, `"number"` or `"string"`
/// for those kinds of value, `"function"` for anything callable, and
/// `"object"` for `null`, objects and promises.
pub proof fn law_typeof<H: Host>(host: &H, v: Value, r: Result<Value, Error>)
    requires
        unary_admits(host, UnaryOp::TypeOf, v, r),
    ensures
        r matches Ok(Value::String(s)) && s@ == match v {
            Value::Undefined => "undefined"@,
            Value::Boolean(_) => "boolean"@,
            Value::Number(_) => "number"@,
            Value::String(_) => "string"@,
            Value::Function(_) | Value::Native(_) => "function"@,
            Value::Null | Value::Object(_) | Value::Promise(_) => "object"@,
        },
{
}

/// `void` gives `undefined` and `!` the negation of the value's truth.
pub proof fn law_void_and_not<H: Host>(host: &H, v: Value, r: Result<Value, Error>, s: Result<Value, Error>)
    requires
        unary_admits(host, UnaryOp::Void, v, r),
        unary_admits(host, UnaryOp::LogicalNot, v, s),
    ensures
        r == Ok::<Value, Error>(Value::Undefined),
        s == Ok::<Value, Error>(Value::Boolean(!spec_to_boolean(v))),
{
}

/// The falsy values are exactly `undefined`, `null`, `false`, the zeros,
/// NaN and the empty string; every other value is truthy.
pub proof fn law_truthiness(v: Value)
    ensures
        !spec_to_boolean(v) <==> match v {
            Value::Undefined | Value::Null => true,
            Value::Boolean(b) => !b,
            Value::Number(n) => n % 0x8000_0000_0000_0000 == 0 || n % 0x8000_0000_0000_0000
                > 0x7FF0_0000_0000_0000,
            Value::String(s) => s@.len() == 0,
            _ => false,
        },
{
}

/// `===` is false between values of different kinds; on two values of
/// one kind it compares booleans and strings by value, heap entries and
/// natives by identity, and numbers numerically (NaN equals nothing, the
/// two zeros are equal).
pub proof fn law_strict_equality(a: Value, b: Value)
    ensures
        spec_strict_equals(a, b) == match (a, b) {
            (Value::Undefined, Value::Undefined) | (Value::Null, Value::Null) => true,
            (Value::Boolean(x), Value::Boolean(y)) => x == y,
            (Value::String(x), Value::String(y)) => x@ == y@,
            (Value::Object(x), Value::Object(y)) => x == y,
            (Value::Function(x), Value::Function(y)) => x == y,
            (Value::Native(x), Value::Native(y)) => x == y,
            (Value::Promise(x), Value::Promise(y)) => x == y,
            (Value::Number(x), Value::Number(y)) => {
                let mx = x % 0x8000_0000_0000_0000;
                let my = y % 0x8000_0000_0000_0000;
                mx <= 0x7FF0_0000_0000_0000 && my <= 0x7FF0_0000_0000_0000 && (x == y || (mx == 0 && my
                    == 0))
            },
            _ => false,
        },
{
}

/// `==` on two booleans is their equality.
pub proof fn law_loose_equality_booleans<H: Host>(host: &H, x: bool, y: bool, r: bool)
    requires
        loose_admits(host, Value::Boolean(x), Value::Boolean(y), r),
    ensures
        r == (x == y),
{
}

/// `==` on two strings compares their text.
pub proof fn law_loose_equality_strings<H: Host>(host: &H, x: String, y: String, r: bool)
    requires
        loose_admits(host, Value::String(x), Value::String(y), r),
    ensures
        r == (x@ == y@),
{
}

/// `null` and `undefined` are `==` to each other and to themselves, and
/// to nothing else.
pub proof fn law_loose_equality_nullish<H: Host>(host: &H, a: Value, b: Value, r: bool)
    requires
        loose_admits(host, a, b, r),
        a is Null || a is Undefined,
    ensures
        r <==> (b is Null || b is Undefined),
{
    reveal_with_fuel(crate::coercion::spec_loose_equals, 2);
}

/// A logical expression evaluates its left operand; `&&` goes on to the
/// right operand exactly when the left value is truthy, `||` exactly when
/// it is falsy, and `??` exactly when it is `null` or `undefined`;
/// otherwise the left value is the result.
pub proof fn law_logical<H: Host>(
    host: &H,
    operator: LogicalOp,
    left: Expression,
    right: Expression,
    env: Env,
    heap: Heap,
    fuel: Fuel,
    r: EvalResult,
)
    requires
        sem_eval(
            host,
            Expression::Logical { operator, left: Box::new(left), right: Box::new(right) },
            env,
            heap,
            fuel,
            r,
        ),
        fuel.spec_remaining() > 0,
    ensures
        exists|r1: EvalResult|
            #[trigger] sem_eval(host, left, env, heap, fuel.spec_spent(), r1) && match r1 {
                Ok((Outcome::Normal(lhs), h, f)) => if match operator {
                    LogicalOp::And => spec_to_boolean(lhs),
                    LogicalOp::Or => !spec_to_boolean(lhs),
                    LogicalOp::NullishCoalescing => lhs is Null || lhs is Undefined,
                } {
                    sem_eval(host, right, env, h, f, r)
                } else {
                    r == Ok::<(Outcome, Heap, Fuel), Error>((Outcome::Normal(lhs), h, f))
                },
                Ok((Outcome::Throw(v), h, f)) => r == Ok::<(Outcome, Heap, Fuel), Error>((Outcome::Throw(v), h, f)),
                Err(e) => r == Err::<(Outcome, Heap, Fuel), Error>(e),
            },
{
    let f1 = fuel.spec_spent();
    let r1 = choose|r1: EvalResult|
        #[trigger] spent_budget(r1, f1) && sem_eval(host, left, env, heap, f1, r1) && match r1 {
            Ok((Outcome::Normal(lhs), h, f)) => if spec_short_circuits(operator, lhs) {
                r == Ok::<(Outcome, Heap, Fuel), Error>((Outcome::Normal(lhs), h, f))
            } else {
                sem_eval(host, right, env, h, f, r)
            },
            _ => passes_abrupt(r1, r),
        };
    assert(sem_eval(host, left, env, heap, f1, r1));
}

/// In a call `object.member(...)` the callee is the member and `this` is
/// the value of `object`, whatever kind of value it is.
pub proof fn law_method_this<H: Host>(
    host: &H,
    object: Expression,
    property: MemberName,
    optional: bool,
    env: Env,
    heap: Heap,
    fuel: Fuel,
    r: Result<(Outcome, Value, Heap, Fuel), Error>,
)
    requires
        sem_callee_and_this(host, Expression::Member { object: Box::new(object), property, optional }, env, heap, fuel, r),
        r matches Ok((Outcome::Normal(_), _, _, _)),
    ensures
        exists|r0: EvalResult|
            #[trigger] sem_eval(host, object, env, heap, fuel, r0) && (r0 matches Ok((Outcome::Normal(obj), _, _))
                && r->Ok_0.1 == obj),
{
    let r0 = choose|r1: EvalResult| #[trigger] spent_budget(r1, fuel)
        && sem_eval(host, object, env, heap, fuel, r1) && match r1 {
        Err(e) => r == Err::<(Outcome, Value, Heap, Fuel), Error>(e),
        Ok((Outcome::Throw(v), h, f)) => r == Ok::<(Outcome, Value, Heap, Fuel), Error>(
            (Outcome::Throw(v), Value::Undefined, h, f),
        ),
        Ok((Outcome::Normal(obj), h, f)) => exists|r2: EvalResult| #[trigger] kept_budget(r2, f)
            && sem_resolve_member(host, obj, property, env, h, f, r2) && match r2 {
            Err(e) => r == Err::<(Outcome, Value, Heap, Fuel), Error>(e),
            Ok((o, h2, f2)) => r == Ok::<(Outcome, Value, Heap, Fuel), Error>((o, obj, h2, f2)),
        },
    };
    assert(sem_eval(host, object, env, heap, fuel, r0));
}

/// `do body while (test)` runs the body once before it looks at the test:
/// its result is the body's when the body breaks (then `undefined`),
/// returns or throws, and otherwise the `while` loop's from the heap and
/// fuel the body left, so a test falsy from the start keeps the body's
/// effects.
pub proof fn law_do_while<H: Host>(
    host: &H,
    body: Statement,
    test: Expression,
    env: Env,
    heap: Heap,
    fuel: Fuel,
    r: StmtResult,
)
    requires
        sem_statement(host, Statement::DoWhile { body: Box::new(body), test }, env, heap, fuel, r),
        fuel.spec_remaining() > 0,
    ensures
        exists|r1: StmtResult|
            #[trigger] sem_statement(host, body, env, heap, fuel.spec_spent(), r1) && match r1 {
                Err(e) => r == Err::<(Completion, Heap, Env, Fuel), Error>(e),
                Ok((Completion::Break, h, _, f)) => r == Ok::<(Completion, Heap, Env, Fuel), Error>(
                    (Completion::Normal(Value::Undefined), h, env, f),
                ),
                Ok((Completion::Return(v), h, _, f)) => r == Ok::<(Completion, Heap, Env, Fuel), Error>(
                    (Completion::Return(v), h, env, f),
                ),
                Ok((Completion::Throw(v), h, _, f)) => r == Ok::<(Completion, Heap, Env, Fuel), Error>(
                    (Completion::Throw(v), h, env, f),
                ),
                Ok((_, h, _, f)) => sem_while(host, test, body, env, h, f, r),
            },
{
    let f1 = fuel.spec_spent();
    let r1 = choose|r1: StmtResult| #[trigger] stmt_spent_budget(r1, f1) && sem_statement(host, body, env, heap, f1, r1)
        && match r1 {
        Err(e) => r == Err::<(Completion, Heap, Env, Fuel), Error>(e),
        Ok((c, h, _scope, f)) => match loop_exit(c) {
            Some(c2) => r == Ok::<(Completion, Heap, Env, Fuel), Error>((c2, h, env, f)),
            None => sem_while(host, test, body, env, h, f, r),
        },
    };
    assert(sem_statement(host, body, env, heap, f1, r1));
}

/// A `while` loop looks at its test first: a falsy test ends it at once
/// with `undefined`, without running the body, on the heap and fuel the
/// test left; a truthy one runs the body.
pub proof fn law_while_test_first<H: Host>(
    host: &H,
    test: Expression,
    body: Statement,
    env: Env,
    heap: Heap,
    fuel: Fuel,
    r: StmtResult,
)
    requires
        sem_while(host, test, body, env, heap, fuel, r),
    ensures
        exists|r1: EvalResult|
            #[trigger] sem_eval(host, test, env, heap, fuel, r1) && (r1 matches Ok((Outcome::Normal(v), h, f))
                ==> if spec_to_boolean(v) {
                exists|r2: StmtResult| #[trigger] sem_statement(host, body, env, h, f, r2)
            } else {
                r == Ok::<(Completion, Heap, Env, Fuel), Error>((Completion::Normal(Value::Undefined), h, env, f))
            }),
{
    let r1 = choose|r1: EvalResult| #[trigger] spent_budget(r1, fuel) && sem_eval(host, test, env, heap, fuel, r1)
        && match r1 {
        Err(e) => r == Err::<(Completion, Heap, Env, Fuel), Error>(e),
        Ok((Outcome::Throw(v), h, f)) => r == Ok::<(Completion, Heap, Env, Fuel), Error>(
            (Completion::Throw(v), h, env, f),
        ),
        Ok((Outcome::Normal(v), h, f)) => if !spec_to_boolean(v) {
            r == Ok::<(Completion, Heap, Env, Fuel), Error>((Completion::Normal(Value::Undefined), h, env, f))
        } else {
            exists|r2: StmtResult| #[trigger] stmt_spent_budget(r2, f) && sem_statement(host, body, env, h, f, r2) && match r2 {
                Err(e) => r == Err::<(Completion, Heap, Env, Fuel), Error>(e),
                Ok((c, h2, _scope, f2)) => match loop_exit(c) {
                    Some(c2) => r == Ok::<(Completion, Heap, Env, Fuel), Error>((c2, h2, env, f2)),
                    None => sem_while(host, test, body, env, h2, f2, r),
                },
            }
        },
    };
    assert(sem_eval(host, test, env, heap, fuel, r1));
    if let Ok((Outcome::Normal(v), h, f)) = r1 {
        if spec_to_boolean(v) {
            let r2 = choose|r2: StmtResult| #[trigger] stmt_spent_budget(r2, f) && sem_statement(host, body, env, h, f, r2) && match r2 {
                Err(e) => r == Err::<(Completion, Heap, Env, Fuel), Error>(e),
                Ok((c, h2, _scope, f2)) => match loop_exit(c) {
                    Some(c2) => r == Ok::<(Completion, Heap, Env, Fuel), Error>((c2, h2, env, f2)),
                    None => sem_while(host, test, body, env, h2, f2, r),
                },
            };
            assert(sem_statement(host, body, env, h, f, r2));
        }
    }
}

/// An `if` statement runs its consequent when the test is truthy, its
/// alternate (or nothing, giving `undefined`) when it is falsy.
pub proof fn law_if<H: Host>(
    host: &H,
    test: Expression,
    consequent: Statement,
    alternate: Option<Box<Statement>>,
    env: Env,
    heap: Heap,
    fuel: Fuel,
    r: StmtResult,
)
    requires
        sem_statement(host, Statement::If { test, consequent: Box::new(consequent), alternate }, env, heap, fuel, r),
        fuel.spec_remaining() > 0,
    ensures
        exists|r1: EvalResult|
            #[trigger] sem_eval(host, test, env, heap, fuel.spec_spent(), r1) && (r1 matches Ok((Outcome::Normal(v), h, f))
                ==> if spec_to_boolean(v) {
                sem_statement(host, consequent, env, h, f, r)
            } else {
                match alternate {
                    Some(a) => sem_statement(host, *a, env, h, f, r),
                    None => r == Ok::<(Completion, Heap, Env, Fuel), Error>(
                        (Completion::Normal(Value::Undefined), h, env, f),
                    ),
                }
            }),
{
    let f1 = fuel.spec_spent();
    let r1 = choose|r1: EvalResult| #[trigger] spent_budget(r1, f1) && sem_eval(host, test, env, heap, f1, r1) && match r1 {
        Err(e) => r == Err::<(Completion, Heap, Env, Fuel), Error>(e),
        Ok((Outcome::Throw(v), h, f)) => r == Ok::<(Completion, Heap, Env, Fuel), Error>(
            (Completion::Throw(v), h, env, f),
        ),
        Ok((Outcome::Normal(v), h, f)) => if spec_to_boolean(v) {
            sem_statement(host, consequent, env, h, f, r)
        } else {
            match alternate {
                Some(alt) => sem_statement(host, *alt, env, h, f, r),
                None => r == Ok::<(Completion, Heap, Env, Fuel), Error>(
                    (Completion::Normal(Value::Undefined), h, env, f),
                ),
            }
        },
    };
    assert(sem_eval(host, test, env, heap, f1, r1));
}

/// `+`, `-` and `*` on two integers in the signed 32-bit range give the
/// exact sum, difference and product whenever it is below 2^32 in
/// magnitude (a zero product with a negative factor, `-0`, excepted).
pub proof fn law_integer_arithmetic<H: Host>(
    host: &H,
    operator: BinaryOp,
    a: u64,
    b: u64,
    x: int,
    y: int,
    r: Result<Value, Error>,
)
    requires
        binary_admits(host, operator, Value::Number(a), Value::Number(b), r),
        spec_small_integer(a) == Some(x),
        spec_small_integer(b) == Some(y),
    ensures
        operator == BinaryOp::Add && -4294967296 < x + y < 4294967296 ==> (r matches Ok(Value::Number(bits))
            && encodes_integer(bits, x + y)),
        operator == BinaryOp::Subtract && -4294967296 < x - y < 4294967296 ==> (r matches Ok(
            Value::Number(bits),
        ) && encodes_integer(bits, x - y)),
        operator == BinaryOp::Multiply && -4294967296 < x * y < 4294967296 && (x * y != 0 || (x >= 0 && y
            >= 0)) ==> (r matches Ok(Value::Number(bits)) && encodes_integer(bits, x * y)),
{
}

/// A conditional expression evaluates its test, then the consequent when
/// the test is truthy and the alternate when it is falsy.
pub proof fn law_conditional<H: Host>(
    host: &H,
    test: Expression,
    consequent: Expression,
    alternate: Expression,
    env: Env,
    heap: Heap,
    fuel: Fuel,
    r: EvalResult,
)
    requires
        sem_eval(
            host,
            Expression::Conditional {
                test: Box::new(test),
                consequent: Box::new(consequent),
                alternate: Box::new(alternate),
            },
            env,
            heap,
            fuel,
            r,
        ),
        fuel.spec_remaining() > 0,
    ensures
        exists|r1: EvalResult|
            #[trigger] sem_eval(host, test, env, heap, fuel.spec_spent(), r1) && (r1 matches Ok((Outcome::Normal(v), h, f))
                ==> if spec_to_boolean(v) {
                sem_eval(host, consequent, env, h, f, r)
            } else {
                sem_eval(host, alternate, env, h, f, r)
            }),
{
    let f1 = fuel.spec_spent();
    let r1 = choose|r1: EvalResult|
        #[trigger] spent_budget(r1, f1) && sem_eval(host, test, env, heap, f1, r1) && match r1 {
            Ok((Outcome::Normal(t), h, f)) => if spec_to_boolean(t) {
                sem_eval(host, consequent, env, h, f, r)
            } else {
                sem_eval(host, alternate, env, h, f, r)
            },
            _ => passes_abrupt(r1, r),
        };
    assert(sem_eval(host, test, env, heap, f1, r1));
}

/// `ToNumber` of `undefined` is NaN, of `null` and `false` is `+0`, of
/// `true` is `1`, and of a number is that number.
pub proof fn law_to_number<H: Host>(host: &H, v: Value, n: u64)
    requires
        number_admits(host, v, n),
    ensures
        v is Undefined ==> n % 0x8000_0000_0000_0000 > 0x7FF0_0000_0000_0000,
        v is Null ==> n == 0,
        v == Value::Boolean(false) ==> n == 0,
        v == Value::Boolean(true) ==> n == 0x3FF0_0000_0000_0000,
        v matches Value::Number(m) ==> n == m,
{
}

} // verus!
