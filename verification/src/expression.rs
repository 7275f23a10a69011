//! Expression evaluation.
//!
//! Every evaluator function threads the heap and the fuel by value and
//! returns them updated.  [`eval`] pays one unit of fuel per expression
//! before looking at it; the helpers it dispatches to evaluate
//! subexpressions through [`eval`], so every evaluation ends, either with
//! a result or with [`Error::FuelExhausted`].

use vstd::prelude::*;

use crate::chain::{chain_spent_budget, eval_chain_part, sem_chain_part, ChainResult};

use std::sync::Arc;

use crate::ast::{
    ArrowCode, Expression, FunctionCode, LiteralValue, LogicalOp, UnaryOp,
};
use crate::call::{eval_call, eval_new, sem_call, sem_new};
use crate::coercion::{spec_to_boolean, text_admits, to_boolean, to_string};
use crate::env::{Binding, Env};
use crate::error::Error;
use crate::fuel::{fuel_le, lemma_spent, spent_one, Fuel};
use crate::heap::Heap;
use crate::host::Host;
use crate::literal::{eval_array, eval_object, sem_array, sem_object};
use crate::operator::{apply_binary, apply_unary, binary_admits, unary_admits};
use crate::outcome::{
    is_reference_error, is_type_error, kept_budget, reference_error, spent_budget, type_error,
    EvalResult, Outcome,
};
use crate::property::{eval_assignment, eval_member, eval_update, sem_assignment, sem_member, sem_update};
use crate::statement::{clone_name, is_function_closure};
use crate::value::{FunctionBody, FunctionDef, Value};

verus! {

/// The value `this` denotes in `env`: the innermost `__this__` binding,
/// `undefined` when there is none.
pub open spec fn spec_this_value(env: Env, heap: Heap) -> Value {
    match env.spec_lookup("__this__"@) {
        Some(Binding::Direct(v)) => v,
        Some(Binding::Cell(id)) => match heap.spec_cell(id) {
            Some(c) => c.spec_value(),
            None => Value::Undefined,
        },
        None => Value::Undefined,
    }
}

/// Reading the variable `name` gives the value of its binding; an
/// unbound name (or a binding to a missing cell) throws a
/// `ReferenceError`.
pub open spec fn spec_identifier_outcome(name: Seq<char>, env: Env, heap: Heap, o: Outcome) -> bool {
    match env.spec_lookup(name) {
        Some(Binding::Direct(v)) => o == Outcome::Normal(v),
        Some(Binding::Cell(id)) => match heap.spec_cell(id) {
            Some(c) => o == Outcome::Normal(c.spec_value()),
            None => o matches Outcome::Throw(v) && is_reference_error(v, name),
        },
        None => o matches Outcome::Throw(v) && is_reference_error(v, name),
    }
}

/// The outcome of a literal.  `BigInt` and regular-expression literals
/// throw a `TypeError`.
pub open spec fn spec_literal_outcome(lit: LiteralValue, o: Outcome) -> bool {
    match lit {
        LiteralValue::Number(n) => o == Outcome::Normal(Value::Number(n)),
        LiteralValue::String(s) => o == Outcome::Normal(Value::String(s)),
        LiteralValue::Boolean(b) => o == Outcome::Normal(Value::Boolean(b)),
        LiteralValue::Null => o == Outcome::Normal(Value::Null),
        LiteralValue::BigInt(_) => o matches Outcome::Throw(v) && is_type_error(
            v,
            "BigInt evaluation not implemented"@,
        ),
        LiteralValue::RegExp { .. } => o matches Outcome::Throw(v) && is_type_error(
            v,
            "RegExp evaluation not implemented"@,
        ),
    }
}

/// The expressions that only read state.
pub open spec fn is_leaf(expr: Expression) -> bool {
    expr is This || expr is Identifier || expr is Literal
}

/// The outcome of a leaf expression.
pub open spec fn spec_leaf_outcome(expr: Expression, env: Env, heap: Heap, o: Outcome) -> bool {
    match expr {
        Expression::This => o == Outcome::Normal(spec_this_value(env, heap)),
        Expression::Identifier(name) => spec_identifier_outcome(name@, env, heap, o),
        Expression::Literal(lit) => spec_literal_outcome(lit, o),
        _ => false,
    }
}

/// Expression kinds the engine rejects, with the feature it names.
pub open spec fn spec_unsupported_expression(expr: Expression) -> Option<&'static str> {
    match expr {
        Expression::Spread { .. } => Some("bare spread outside array/call"),
        Expression::ClassExpression => Some("class expression"),
        Expression::Yield => Some("yield"),
        Expression::Await => Some("await"),
        Expression::TaggedTemplate => Some("tagged template"),
        Expression::ImportExpression => Some("import() expression"),
        Expression::MetaProperty => Some("meta property"),
        Expression::PrivateIdentifier(_) => Some("private identifier in expression position"),
        Expression::Super => Some("super"),
        Expression::Unary { operator: UnaryOp::Delete, .. } => Some("delete operator"),
        _ => None,
    }
}

/// Where an evaluation stops at a subexpression's result `r1` because it
/// was not a normal value: a fatal error or a throw is the whole result.
pub open spec fn passes_abrupt(r1: EvalResult, r: EvalResult) -> bool {
    match r1 {
        Err(e) => r == Err::<(Outcome, Heap, Fuel), Error>(e),
        Ok((Outcome::Throw(v), h, f)) => r == Ok::<(Outcome, Heap, Fuel), Error>((Outcome::Throw(v), h, f)),
        Ok((Outcome::Normal(_), _, _)) => false,
    }
}

/// The result of an operator's value `v`, computed after its operands
/// left the heap `h` and the fuel `f`.
pub open spec fn operator_result(v: Result<Value, Error>, h: Heap, f: Fuel, r: EvalResult) -> bool {
    match v {
        Ok(w) => r == Ok::<(Outcome, Heap, Fuel), Error>((Outcome::Normal(w), h, f)),
        Err(e) => r == Err::<(Outcome, Heap, Fuel), Error>(e),
    }
}

/// The evaluation relation: `r` is what evaluating `expr` in `env`, from
/// `heap` with `fuel`, gives.  One unit of fuel is paid first; then each
/// kind of expression evaluates its parts left to right, a fatal error or
/// a throw from a part ending the whole.  Where the host computes a
/// number, or parses or writes one, every result the host may give is
/// admitted.
pub open spec fn sem_eval<H: Host>(host: &H, expr: Expression, env: Env, heap: Heap, fuel: Fuel, r: EvalResult) -> bool
    decreases fuel.spec_remaining(), 0int, 0int, 0int,
{
    if fuel.spec_remaining() == 0 {
        r == Err::<(Outcome, Heap, Fuel), Error>(Error::FuelExhausted { limit: fuel.spec_limit() })
    } else {
        let f1 = fuel.spec_spent();
        proof {
            lemma_spent(fuel);
        }
        match expr {
            Expression::This | Expression::Identifier(_) | Expression::Literal(_) => r matches Ok((o, h, f))
                && h == heap && f == f1 && spec_leaf_outcome(expr, env, heap, o),
            Expression::Template { quasis, expressions } => sem_template(host, quasis@, expressions@, env, heap, f1, r),
            Expression::Array { elements } => sem_array(host, elements@, env, heap, f1, r),
            Expression::Object { properties } => sem_object(host, properties@, env, heap, f1, r),
            Expression::Member { object, property, .. } => sem_member(host, *object, property, env, heap, f1, r),
            Expression::Call { callee, arguments, .. } => sem_call(host, *callee, arguments@, env, heap, f1, r),
            Expression::New { callee, arguments } => sem_new(host, *callee, arguments@, env, heap, f1, r),
            Expression::Update { operator, argument, prefix } => sem_update(host, 
                operator,
                *argument,
                prefix,
                env,
                heap,
                f1,
                r,
            ),
            Expression::Unary { operator, argument } => sem_unary(host, operator, *argument, env, heap, f1, r),
            Expression::Binary { operator, left, right } => exists|r1: EvalResult|
                #[trigger] spent_budget(r1, f1) && sem_eval(host, *left, env, heap, f1, r1) && match r1 {
                    Ok((Outcome::Normal(lhs), h, f)) => exists|r2: EvalResult|
                        #[trigger] spent_budget(r2, f) && sem_eval(host, *right, env, h, f, r2) && match r2 {
                            Ok((Outcome::Normal(rhs), h2, f2)) => exists|v: Result<Value, Error>|
                                #[trigger] binary_admits(host, operator, lhs, rhs, v) && operator_result(v, h2, f2, r),
                            _ => passes_abrupt(r2, r),
                        },
                    _ => passes_abrupt(r1, r),
                },
            Expression::Logical { operator, left, right } => exists|r1: EvalResult|
                #[trigger] spent_budget(r1, f1) && sem_eval(host, *left, env, heap, f1, r1) && match r1 {
                    Ok((Outcome::Normal(lhs), h, f)) => if spec_short_circuits(operator, lhs) {
                        r == Ok::<(Outcome, Heap, Fuel), Error>((Outcome::Normal(lhs), h, f))
                    } else {
                        sem_eval(host, *right, env, h, f, r)
                    },
                    _ => passes_abrupt(r1, r),
                },
            Expression::Conditional { test, consequent, alternate } => exists|r1: EvalResult|
                #[trigger] spent_budget(r1, f1) && sem_eval(host, *test, env, heap, f1, r1) && match r1 {
                    Ok((Outcome::Normal(t), h, f)) => if spec_to_boolean(t) {
                        sem_eval(host, *consequent, env, h, f, r)
                    } else {
                        sem_eval(host, *alternate, env, h, f, r)
                    },
                    _ => passes_abrupt(r1, r),
                },
            Expression::Assignment { operator, left, right } => sem_assignment(host, 
                operator,
                *left,
                *right,
                env,
                heap,
                f1,
                r,
            ),
            Expression::Sequence { expressions } => sem_sequence_from(host, 
                expressions@,
                0,
                Value::Undefined,
                env,
                heap,
                f1,
                r,
            ),
            Expression::ArrowFunction(arrow) => r matches Ok((Outcome::Normal(v), h, f)) && f == f1
                && allocated_function(heap, h, v) && is_arrow_closure(h.spec_functions().last(), *arrow, env),
            Expression::FunctionExpression(func) => r matches Ok((Outcome::Normal(v), h, f)) && f == f1
                && allocated_function(heap, h, v) && is_function_closure(
                h.spec_functions().last(),
                *func,
                env,
            ),
            Expression::Chain { expression } => exists|r1: ChainResult|
                #[trigger] chain_spent_budget(r1, f1) && sem_chain_part(host, *expression, env, heap, f1, r1) && match r1 {
                Err(e) => r == Err::<(Outcome, Heap, Fuel), Error>(e),
                Ok((None, h, f)) => r == Ok::<(Outcome, Heap, Fuel), Error>((Outcome::Normal(Value::Undefined), h, f)),
                Ok((Some(o), h, f)) => r == Ok::<(Outcome, Heap, Fuel), Error>((o, h, f)),
            },
            Expression::Parenthesized { expression } => sem_eval(host, *expression, env, heap, f1, r),
            _ => spec_unsupported_expression(expr) matches Some(feature) && r == Err::<
                (Outcome, Heap, Fuel),
                Error,
            >(Error::Unsupported { feature }),
        }
    }
}

/// A unary expression: `delete` is rejected; any other operator applies
/// to the value of its operand.
pub open spec fn sem_unary<H: Host>(host: &H, operator: UnaryOp, argument: Expression, env: Env, heap: Heap, fuel: Fuel, r: EvalResult) -> bool
    decreases fuel.spec_remaining(), 0int, 1int, 0int,
{
    if operator == UnaryOp::Delete {
        r == Err::<(Outcome, Heap, Fuel), Error>(Error::Unsupported { feature: "delete operator" })
    } else {
        exists|r1: EvalResult| #[trigger] spent_budget(r1, fuel) && sem_eval(host, argument, env, heap, fuel, r1) && match r1 {
            Ok((Outcome::Normal(v), h, f)) => exists|u: Result<Value, Error>|
                #[trigger] unary_admits(host, operator, v, u) && operator_result(u, h, f, r),
            _ => passes_abrupt(r1, r),
        }
    }
}

/// A comma sequence from its `i`-th expression on, the value of the last
/// one evaluated so far being `last`.
pub open spec fn sem_sequence_from<H: Host>(host: &H, 
    expressions: Seq<Expression>,
    i: nat,
    last: Value,
    env: Env,
    heap: Heap,
    fuel: Fuel,
    r: EvalResult,
) -> bool
    decreases fuel.spec_remaining(), 0int, 1int, expressions.len() - i,
{
    if i >= expressions.len() {
        r == Ok::<(Outcome, Heap, Fuel), Error>((Outcome::Normal(last), heap, fuel))
    } else {
        exists|r1: EvalResult| #[trigger] spent_budget(r1, fuel) && sem_eval(host, expressions[i as int], env, heap, fuel, r1) && match r1 {
            Ok((Outcome::Normal(v), h, f)) => sem_sequence_from(host, 
                expressions,
                i + 1,
                v,
                env,
                h,
                f,
                r,
            ),
            _ => passes_abrupt(r1, r),
        }
    }
}

/// A template literal from its `i`-th interpolation on, `text` being
/// what was produced before it: quasi `i` follows, then the string form
/// of expression `i`, and so on; after the last expression, the rest.
pub open spec fn sem_template_from<H: Host>(host: &H, 
    quasis: Seq<String>,
    expressions: Seq<Expression>,
    i: nat,
    text: Seq<char>,
    env: Env,
    heap: Heap,
    fuel: Fuel,
    r: EvalResult,
) -> bool
    decreases fuel.spec_remaining(), 0int, 1int, expressions.len() - i,
{
    let with_quasi = if i < quasis.len() {
        text + quasis[i as int]@
    } else {
        text
    };
    if i >= expressions.len() {
        r matches Ok((Outcome::Normal(Value::String(s)), h, f)) && s@ == with_quasi && h == heap && f == fuel
    } else {
        exists|r1: EvalResult| #[trigger] spent_budget(r1, fuel) && sem_eval(host, expressions[i as int], env, heap, fuel, r1) && match r1 {
            Ok((Outcome::Normal(v), h, f)) => exists|t: Seq<char>|
                #[trigger] text_admits(host, v, t) && sem_template_from(host, 
                    quasis,
                    expressions,
                    i + 1,
                    with_quasi + t,
                    env,
                    h,
                    f,
                    r,
                ),
            _ => passes_abrupt(r1, r),
        }
    }
}

/// A whole template literal.
pub open spec fn sem_template<H: Host>(host: &H, quasis: Seq<String>, expressions: Seq<Expression>, env: Env, heap: Heap, fuel: Fuel, r: EvalResult) -> bool
    decreases fuel.spec_remaining(), 0int, 2int, 0int,
{
    sem_template_from(host, quasis, expressions, 0, Seq::empty(), env, heap, fuel, r)
}

/// Evaluate `expr` in `env`.  One unit of fuel is paid first; with none
/// left the evaluation fails with [`Error::FuelExhausted`].
/// JavaScript-level exceptions come back as [`Outcome::Throw`]; only
/// fatal conditions are errors.
pub fn eval<H: Host>(expr: &Expression, env: &Env, heap: Heap, fuel: Fuel, host: &H) -> (r: EvalResult)
    ensures
        fuel.spec_remaining() == 0 ==> r == Err::<(Outcome, Heap, Fuel), Error>(
            Error::FuelExhausted { limit: fuel.spec_limit() },
        ),
        spent_budget(r, fuel),
        sem_eval(host, *expr, *env, heap, fuel, r),
        fuel.spec_remaining() > 0 && is_leaf(*expr) ==> (r matches Ok((o, h, f)) && h == heap
            && spent_one(f, fuel) && spec_leaf_outcome(*expr, *env, heap, o)),
        fuel.spec_remaining() > 0 ==> (*expr matches Expression::FunctionExpression(func) ==> (r matches Ok(
            (Outcome::Normal(v), h, f),
        ) && spent_one(f, fuel) && allocated_function(heap, h, v) && is_function_closure(
            h.spec_functions().last(),
            *func,
            *env,
        ))),
        fuel.spec_remaining() > 0 ==> (*expr matches Expression::ArrowFunction(arrow) ==> (r matches Ok(
            (Outcome::Normal(v), h, f),
        ) && spent_one(f, fuel) && allocated_function(heap, h, v) && is_arrow_closure(
            h.spec_functions().last(),
            *arrow,
            *env,
        ))),
        fuel.spec_remaining() > 0 ==> (*expr matches Expression::Sequence { expressions }
            ==> (expressions@.len() == 0 ==> (r matches Ok((o, h, f)) && o == Outcome::Normal(
            Value::Undefined,
        ) && h == heap && spent_one(f, fuel)))),
        fuel.spec_remaining() > 0 ==> (spec_unsupported_expression(*expr) matches Some(feature) ==> r
            == Err::<(Outcome, Heap, Fuel), Error>(Error::Unsupported { feature })),
    decreases fuel.spec_remaining(), 0int, 0int, 0int,
{
    let f1 = match fuel.spend() {
        Ok(f) => f,
        Err(e) => {
            return Err(e);
        },
    };
    match expr {
        Expression::This => Ok((Outcome::Normal(this_value(env, &heap)), heap, f1)),
        Expression::Identifier(name) => {
            let o = read_identifier(name.as_str(), env, &heap);
            Ok((o, heap, f1))
        },
        Expression::Literal(lit) => Ok((literal_outcome(lit), heap, f1)),
        Expression::Template { quasis, expressions } => eval_template(
            quasis,
            expressions,
            env,
            heap,
            f1,
            host,
        ),
        Expression::Array { elements } => eval_array(elements, env, heap, f1, host),
        Expression::Object { properties } => eval_object(properties, env, heap, f1, host),
        Expression::Member { object, property, .. } => eval_member(object, property, env, heap, f1, host),
        Expression::Call { callee, arguments, .. } => eval_call(callee, arguments, env, heap, f1, host),
        Expression::New { callee, arguments } => eval_new(callee, arguments, env, heap, f1, host),
        Expression::Update { operator, argument, prefix } => eval_update(
            *operator,
            argument,
            *prefix,
            env,
            heap,
            f1,
            host,
        ),
        Expression::Unary { operator, argument } => eval_unary(*operator, argument, env, heap, f1, host),
        Expression::Binary { operator, left, right } => match eval(left, env, heap, f1, host) {
            Err(e) => Err(e),
            Ok((Outcome::Throw(v), h, f)) => Ok((Outcome::Throw(v), h, f)),
            Ok((Outcome::Normal(lhs), h, f)) => match eval(right, env, h, f, host) {
                Err(e) => Err(e),
                Ok((Outcome::Throw(v), h2, f2)) => Ok((Outcome::Throw(v), h2, f2)),
                Ok((Outcome::Normal(rhs), h2, f2)) => match apply_binary(*operator, &lhs, &rhs, &h2, host) {
                    Ok(v) => Ok((Outcome::Normal(v), h2, f2)),
                    Err(e) => Err(e),
                },
            },
        },
        Expression::Logical { operator, left, right } => match eval(left, env, heap, f1, host) {
            Err(e) => Err(e),
            Ok((Outcome::Throw(v), h, f)) => Ok((Outcome::Throw(v), h, f)),
            Ok((Outcome::Normal(lhs), h, f)) => {
                if short_circuits(*operator, &lhs) {
                    Ok((Outcome::Normal(lhs), h, f))
                } else {
                    eval(right, env, h, f, host)
                }
            },
        },
        Expression::Conditional { test, consequent, alternate } => match eval(test, env, heap, f1, host) {
            Err(e) => Err(e),
            Ok((Outcome::Throw(v), h, f)) => Ok((Outcome::Throw(v), h, f)),
            Ok((Outcome::Normal(t), h, f)) => {
                if to_boolean(&t) {
                    eval(consequent, env, h, f, host)
                } else {
                    eval(alternate, env, h, f, host)
                }
            },
        },
        Expression::Assignment { operator, left, right } => eval_assignment(
            *operator,
            left,
            right,
            env,
            heap,
            f1,
            host,
        ),
        Expression::Sequence { expressions } => eval_sequence(expressions, env, heap, f1, host),
        Expression::ArrowFunction(arrow) => eval_arrow_function(arrow, env, heap, f1),
        Expression::FunctionExpression(func) => eval_function_expression(func, env, heap, f1),
        Expression::Chain { expression } => match eval_chain_part(expression, env, heap, f1, host) {
            Err(e) => Err(e),
            Ok((None, h, f)) => Ok((Outcome::Normal(Value::Undefined), h, f)),
            Ok((Some(o), h, f)) => Ok((o, h, f)),
        },
        Expression::Parenthesized { expression } => eval(expression, env, heap, f1, host),
        Expression::Spread { .. } => Err(Error::Unsupported { feature: "bare spread outside array/call" }),
        Expression::ClassExpression => Err(Error::Unsupported { feature: "class expression" }),
        Expression::Yield => Err(Error::Unsupported { feature: "yield" }),
        Expression::Await => Err(Error::Unsupported { feature: "await" }),
        Expression::TaggedTemplate => Err(Error::Unsupported { feature: "tagged template" }),
        Expression::ImportExpression => Err(Error::Unsupported { feature: "import() expression" }),
        Expression::MetaProperty => Err(Error::Unsupported { feature: "meta property" }),
        Expression::PrivateIdentifier(_) => Err(
            Error::Unsupported { feature: "private identifier in expression position" },
        ),
        Expression::Super => Err(Error::Unsupported { feature: "super" }),
    }
}

/// The value of `this` in `env`.
fn this_value(env: &Env, heap: &Heap) -> (r: Value)
    ensures
        r == spec_this_value(*env, *heap),
{
    match env.lookup("__this__") {
        Some(Binding::Direct(v)) => v.clone(),
        Some(Binding::Cell(id)) => match heap.cell(*id) {
            Some(c) => c.value().clone(),
            None => Value::Undefined,
        },
        None => Value::Undefined,
    }
}

/// Read the variable `name`.
fn read_identifier(name: &str, env: &Env, heap: &Heap) -> (r: Outcome)
    ensures
        spec_identifier_outcome(name@, *env, *heap, r),
{
    match env.lookup(name) {
        Some(Binding::Direct(v)) => Outcome::Normal(v.clone()),
        Some(Binding::Cell(id)) => match heap.cell(*id) {
            Some(c) => Outcome::Normal(c.value().clone()),
            None => Outcome::Throw(reference_error(name)),
        },
        None => Outcome::Throw(reference_error(name)),
    }
}

/// The outcome of a literal.
fn literal_outcome(lit: &LiteralValue) -> (r: Outcome)
    ensures
        spec_literal_outcome(*lit, r),
{
    match lit {
        LiteralValue::Number(n) => Outcome::Normal(Value::Number(*n)),
        LiteralValue::String(s) => Outcome::Normal(Value::String(s.clone())),
        LiteralValue::Boolean(b) => Outcome::Normal(Value::Boolean(*b)),
        LiteralValue::Null => Outcome::Normal(Value::Null),
        LiteralValue::BigInt(_) => Outcome::Throw(type_error("BigInt evaluation not implemented")),
        LiteralValue::RegExp { .. } => Outcome::Throw(type_error("RegExp evaluation not implemented")),
    }
}

/// Whether the left operand alone decides a logical expression: `&&`
/// stops at a falsy value, `||` at a truthy one, `??` at anything but
/// `null` and `undefined`.
pub open spec fn spec_short_circuits(operator: LogicalOp, lhs: Value) -> bool {
    match operator {
        LogicalOp::And => !spec_to_boolean(lhs),
        LogicalOp::Or => spec_to_boolean(lhs),
        LogicalOp::NullishCoalescing => !(lhs is Null || lhs is Undefined),
    }
}

/// Whether the left operand alone decides a logical expression.
fn short_circuits(operator: LogicalOp, lhs: &Value) -> (r: bool)
    ensures
        r == spec_short_circuits(operator, *lhs),
{
    match operator {
        LogicalOp::And => !to_boolean(lhs),
        LogicalOp::Or => to_boolean(lhs),
        LogicalOp::NullishCoalescing => !(matches!(lhs, Value::Null | Value::Undefined)),
    }
}

/// A template literal: the quasis and the string forms of the
/// interpolated values, alternating, starting and ending with a quasi.
fn eval_template<H: Host>(
    quasis: &Vec<String>,
    expressions: &Vec<Expression>,
    env: &Env,
    heap: Heap,
    fuel: Fuel,
    host: &H,
) -> (r: EvalResult)
    ensures
        kept_budget(r, fuel),
        sem_template(host, quasis@, expressions@, *env, heap, fuel, r),
        expressions@.len() == 0 ==> (r matches Ok((Outcome::Normal(Value::String(s)), h, f)) && h == heap
            && f == fuel && s@ == (if quasis@.len() > 0 {
            quasis@[0]@
        } else {
            Seq::<char>::empty()
        })),
    decreases fuel.spec_remaining(), 0int, 1int, 0int,
{
    let mut acc = String::new();
    let mut h = heap;
    let mut f = fuel;
    let mut i: usize = 0;
    loop
        invariant
            i <= expressions@.len(),
            fuel_le(f, fuel),
            expressions@.len() == 0 ==> (i == 0 && h == heap && f == fuel && acc@ == Seq::<char>::empty()),
            forall|res: EvalResult|
                sem_template_from(host, quasis@, expressions@, i as nat, acc@, *env, h, f, res) ==> sem_template(host, 
                    quasis@,
                    expressions@,
                    *env,
                    heap,
                    fuel,
                    res,
                ),
        decreases expressions@.len() - i,
    {
        let ghost before = acc@;
        if i < quasis.len() {
            acc.append(quasis[i].as_str());
        }
        if i >= expressions.len() {
            let res = Ok((Outcome::Normal(Value::String(acc)), h, f));
            assert(sem_template_from(host, quasis@, expressions@, i as nat, before, *env, h, f, res));
            return res;
        }
        match eval(&expressions[i], env, h, f, host) {
            Err(e) => {
                let res = Err(e);
                assert(sem_template_from(host, quasis@, expressions@, i as nat, before, *env, h, f, res));
                return res;
            },
            Ok((Outcome::Throw(v), h2, f2)) => {
                let res = Ok((Outcome::Throw(v), h2, f2));
                assert(sem_template_from(host, quasis@, expressions@, i as nat, before, *env, h, f, res));
                return res;
            },
            Ok((Outcome::Normal(v), h2, f2)) => {
                let text = to_string(&v, &h2, host);
                let ghost with_quasi = acc@;
                acc.append(text.as_str());
                assert forall|res: EvalResult|
                    sem_template_from(host, 
                        quasis@,
                        expressions@,
                        (i + 1) as nat,
                        acc@,
                        *env,
                        h2,
                        f2,
                        res,
                    ) implies sem_template_from(host, quasis@, expressions@, i as nat, before, *env, h, f, res) by {
                    assert(acc@ == with_quasi + text@);
                    assert(text_admits(host, v, text@));
                };
                h = h2;
                f = f2;
            },
        }
        i = i + 1;
    }
}

fn eval_unary<H: Host>(
    operator: UnaryOp,
    argument: &Expression,
    env: &Env,
    heap: Heap,
    fuel: Fuel,
    host: &H,
) -> (r: EvalResult)
    ensures
        kept_budget(r, fuel),
        sem_unary(host, operator, *argument, *env, heap, fuel, r),
        operator == UnaryOp::Delete ==> r == Err::<(Outcome, Heap, Fuel), Error>(
            Error::Unsupported { feature: "delete operator" },
        ),
    decreases fuel.spec_remaining(), 0int, 1int, 0int,
{
    match operator {
        UnaryOp::Delete => Err(Error::Unsupported { feature: "delete operator" }),
        _ => match eval(argument, env, heap, fuel, host) {
            Err(e) => Err(e),
            Ok((Outcome::Throw(v), h, f)) => Ok((Outcome::Throw(v), h, f)),
            Ok((Outcome::Normal(v), h, f)) => match apply_unary(operator, &v, &h, host) {
                Ok(result) => Ok((Outcome::Normal(result), h, f)),
                Err(e) => Err(e),
            },
        },
    }
}

/// A comma sequence: each expression in turn, the value of the last.
fn eval_sequence<H: Host>(expressions: &Vec<Expression>, env: &Env, heap: Heap, fuel: Fuel, host: &H) -> (r:
    EvalResult)
    ensures
        kept_budget(r, fuel),
        sem_sequence_from(host, expressions@, 0, Value::Undefined, *env, heap, fuel, r),
        expressions@.len() == 0 ==> r == Ok::<(Outcome, Heap, Fuel), Error>(
            (Outcome::Normal(Value::Undefined), heap, fuel),
        ),
    decreases fuel.spec_remaining(), 0int, 1int, 0int,
{
    let mut last = Value::Undefined;
    let mut h = heap;
    let mut f = fuel;
    let mut i: usize = 0;
    while i < expressions.len()
        invariant
            i <= expressions@.len(),
            fuel_le(f, fuel),
            expressions@.len() == 0 ==> (last == Value::Undefined && h == heap && f == fuel),
            forall|res: EvalResult|
                sem_sequence_from(host, expressions@, i as nat, last, *env, h, f, res) ==> sem_sequence_from(host, 
                    expressions@,
                    0,
                    Value::Undefined,
                    *env,
                    heap,
                    fuel,
                    res,
                ),
        decreases expressions@.len() - i,
    {
        match eval(&expressions[i], env, h, f, host) {
            Err(e) => {
                let res = Err(e);
                assert(sem_sequence_from(host, expressions@, i as nat, last, *env, h, f, res));
                return res;
            },
            Ok((Outcome::Throw(v), h2, f2)) => {
                let res = Ok((Outcome::Throw(v), h2, f2));
                assert(sem_sequence_from(host, expressions@, i as nat, last, *env, h, f, res));
                return res;
            },
            Ok((Outcome::Normal(v), h2, f2)) => {
                assert forall|res: EvalResult|
                    sem_sequence_from(host, expressions@, (i + 1) as nat, v, *env, h2, f2, res) implies sem_sequence_from(host, 
                        expressions@,
                        i as nat,
                        last,
                        *env,
                        h,
                        f,
                        res,
                    ) by {};
                last = v;
                h = h2;
                f = f2;
            },
        }
        i = i + 1;
    }
    Ok((Outcome::Normal(last), h, f))
}

/// `f` is the closure an arrow function `arrow` makes in `env`.
pub open spec fn is_arrow_closure(def: FunctionDef, arrow: ArrowCode, env: Env) -> bool {
    &&& def.spec_name() is None
    &&& def.spec_params() == arrow.params
    &&& def.spec_body() == FunctionBody::Arrow(arrow.body)
    &&& def.spec_captured_env() == env
    &&& def.spec_is_arrow()
}

/// The heap after allocating one function `def`, with nothing else
/// changed, and the id it got.
pub open spec fn allocated_function(before: Heap, after: Heap, value: Value) -> bool {
    &&& value matches Value::Function(id)
    &&& id.spec_raw() == before.spec_functions().len()
    &&& after.spec_functions().len() == before.spec_functions().len() + 1
    &&& after.spec_functions().drop_last() == before.spec_functions()
    &&& after.spec_objects() == before.spec_objects()
    &&& after.spec_cells() == before.spec_cells()
    &&& after.spec_promises() == before.spec_promises()
}

/// An arrow function expression evaluates to a fresh closure over `env`.
fn eval_arrow_function(arrow: &ArrowCode, env: &Env, heap: Heap, fuel: Fuel) -> (r: EvalResult)
    ensures
        r matches Ok((Outcome::Normal(v), h, f)) && f == fuel && allocated_function(heap, h, v)
            && is_arrow_closure(h.spec_functions().last(), *arrow, *env),
{
    let def = FunctionDef::new(
        None,
        Arc::clone(&arrow.params),
        FunctionBody::Arrow(Arc::clone(&arrow.body)),
        env.clone(),
        true,
    );
    let (id, h) = heap.alloc_function(def);
    assert(h.spec_functions().drop_last() =~= heap.spec_functions());
    Ok((Outcome::Normal(Value::Function(id)), h, fuel))
}

/// A function expression evaluates to a fresh closure over `env`.
fn eval_function_expression(func: &FunctionCode, env: &Env, heap: Heap, fuel: Fuel) -> (r: EvalResult)
    ensures
        r matches Ok((Outcome::Normal(v), h, f)) && f == fuel && allocated_function(heap, h, v)
            && is_function_closure(h.spec_functions().last(), *func, *env),
{
    let def = FunctionDef::new(
        clone_name(&func.id),
        Arc::clone(&func.params),
        FunctionBody::Statements(Arc::clone(&func.body)),
        env.clone(),
        false,
    );
    let (id, h) = heap.alloc_function(def);
    assert(h.spec_functions().drop_last() =~= heap.spec_functions());
    Ok((Outcome::Normal(Value::Function(id)), h, fuel))
}

} // verus!
