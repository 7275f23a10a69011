//! Reading and writing members and variables: property access, getters
//! and setters, assignment and update expressions.

use vstd::prelude::*;

use crate::ast::{AssignOp, BinaryOp, Expression, MemberName, UpdateOp};
use crate::call::{call_function, sem_call_function};
use crate::coercion::{number_admits, text_admits, to_number, to_property_key};
use crate::env::{Binding, Env};
use crate::error::Error;
use crate::expression::{eval, passes_abrupt, sem_eval, spec_identifier_outcome};
use crate::fuel::Fuel;
use crate::heap::{stored_cell, Heap};
use crate::host::{Host, NumericOperator};
use crate::number::{
    clamped_length, encodes_integer, integer_to_number, small_integer, spec_small_integer, NEGATIVE_ONE, ONE,
};
use crate::operator::{apply_binary, binary_admits};
use crate::outcome::{
    is_reference_error, is_type_error, kept_budget, reference_error, spent_budget, type_error, EvalResult,
    Outcome,
};
use crate::text::{char_at, concat3, debug_quoted, parse_index, spec_debug_quoted, spec_parse_index, text_eq};
use crate::value::{NativeFn, Object, ObjectId, Value};

verus! {

/// What reading `key` on a string gives: its `length` as a number, the
/// character at an index below the length, `undefined` otherwise.
pub open spec fn spec_string_member(s: Seq<char>, key: Seq<char>, o: Outcome) -> bool {
    if key == "length"@ {
        o matches Outcome::Normal(Value::Number(b)) && encodes_integer(b, clamped_length(s.len()))
    } else {
        match spec_parse_index(key) {
            Some(i) => if i < s.len() {
                o matches Outcome::Normal(Value::String(c)) && c@ == seq![s[i as int]]
            } else {
                o == Outcome::Normal(Value::Undefined)
            },
            None => o == Outcome::Normal(Value::Undefined),
        }
    }
}

/// Read `key` on a string.
fn string_member(s: &str, key: &str) -> (r: Outcome)
    ensures
        spec_string_member(s@, key@, r),
{
    if text_eq(key, "length") {
        let count = s.unicode_len();
        let length: u32 = if count <= 0xFFFF_FFFF {
            count as u32
        } else {
            0xFFFF_FFFF
        };
        Outcome::Normal(Value::Number(integer_to_number(length as i64)))
    } else {
        match parse_index(key) {
            Some(i) => {
                if i < s.unicode_len() {
                    Outcome::Normal(Value::String(char_at(s, i)))
                } else {
                    Outcome::Normal(Value::Undefined)
                }
            },
            None => Outcome::Normal(Value::Undefined),
        }
    }
}

/// Promises expose `then` and `catch` as the built-in callables; any
/// other key reads as `undefined`.
pub open spec fn spec_promise_member(key: Seq<char>) -> Outcome {
    if key == "then"@ {
        Outcome::Normal(Value::Native(NativeFn::PromiseThen))
    } else if key == "catch"@ {
        Outcome::Normal(Value::Native(NativeFn::PromiseCatch))
    } else {
        Outcome::Normal(Value::Undefined)
    }
}

/// Read `key` on a promise.
pub fn promise_member(key: &str) -> (r: Outcome)
    ensures
        r == spec_promise_member(key@),
{
    if text_eq(key, "then") {
        Outcome::Normal(Value::Native(NativeFn::PromiseThen))
    } else if text_eq(key, "catch") {
        Outcome::Normal(Value::Native(NativeFn::PromiseCatch))
    } else {
        Outcome::Normal(Value::Undefined)
    }
}

/// How a property read resolves on an object.
pub enum PropertyRead {
    /// The value read.
    Data(Value),
    /// An accessor whose getter must be called.
    Getter(Value),
}

/// The object has a getter on `key`.
pub open spec fn has_getter(obj: Object, key: Seq<char>) -> bool {
    obj.accessor_map().contains_key(key) && obj.accessor_map()[key].spec_get() is Some
}

/// Resolve `key` on an object: a data property gives its value, an
/// accessor with a getter asks for the getter to run, and an accessor
/// without one, like a missing key, reads as `undefined`.
fn lookup_property(obj: &Object, key: &str) -> (r: PropertyRead)
    ensures
        obj.data().contains_key(key@) ==> r == PropertyRead::Data(obj.data()[key@]),
        !obj.data().contains_key(key@) && has_getter(*obj, key@) ==> r == PropertyRead::Getter(
            obj.accessor_map()[key@].spec_get()->0,
        ),
        !obj.data().contains_key(key@) && !has_getter(*obj, key@) ==> r == PropertyRead::Data(
            Value::Undefined,
        ),
{
    match obj.get(key) {
        Some(v) => PropertyRead::Data(v.clone()),
        None => match obj.accessor(key) {
            Some(pair) => match pair.get_fn() {
                Some(getter) => PropertyRead::Getter(getter.clone()),
                None => PropertyRead::Data(Value::Undefined),
            },
            None => PropertyRead::Data(Value::Undefined),
        },
    }
}

/// The `TypeError` for reading a property of a value that has none.
pub open spec fn is_non_object_read_error(v: Value, key: Seq<char>) -> bool {
    is_type_error(v, "cannot access property "@ + spec_debug_quoted(key) + " of non-object"@)
}

/// `new` is `old` plus one (or, decrementing, minus one): exact when
/// `old` is an integer in the signed 32-bit range; otherwise the host's
/// answer for that sum.
pub open spec fn stepped_number<H: Host>(host: &H, old: u64, operator: UpdateOp, new: u64) -> bool {
    match spec_small_integer(old) {
        Some(x) => encodes_integer(
            new,
            match operator {
                UpdateOp::Increment => x + 1,
                UpdateOp::Decrement => x - 1,
            },
        ),
        None => host.arithmetic_gives(
            NumericOperator::Add,
            old,
            match operator {
                UpdateOp::Increment => ONE,
                UpdateOp::Decrement => NEGATIVE_ONE,
            },
            new,
        ),
    }
}

/// Reading `key` on `object`: a data property gives its value and a
/// getter is called with the object as `this` and no arguments; a
/// missing object or key reads as `undefined`; strings and promises have
/// their own members; other values throw a `TypeError`.
pub open spec fn sem_access_property<H: Host>(host: &H, object: Value, key: Seq<char>, heap: Heap, fuel: Fuel, r: EvalResult) -> bool
    decreases fuel.spec_remaining(), 0int, 6int, 0int,
{
    match object {
        Value::Object(id) => match heap.spec_object(id) {
            None => r == Ok::<(Outcome, Heap, Fuel), Error>((Outcome::Normal(Value::Undefined), heap, fuel)),
            Some(obj) => if obj.data().contains_key(key) {
                r == Ok::<(Outcome, Heap, Fuel), Error>((Outcome::Normal(obj.data()[key]), heap, fuel))
            } else if has_getter(obj, key) {
                sem_call_function(host, obj.accessor_map()[key].spec_get()->0, object, Seq::empty(), heap, fuel, r)
            } else {
                r == Ok::<(Outcome, Heap, Fuel), Error>((Outcome::Normal(Value::Undefined), heap, fuel))
            },
        },
        Value::String(s) => r matches Ok((o, h, f)) && h == heap && f == fuel && spec_string_member(s@, key, o),
        Value::Promise(_) => r == Ok::<(Outcome, Heap, Fuel), Error>((spec_promise_member(key), heap, fuel)),
        _ => r matches Ok((Outcome::Throw(v), h, f)) && is_non_object_read_error(v, key) && h == heap && f == fuel,
    }
}

/// Reading the member `property` of `object`: a name directly, a
/// computed key after evaluating it and taking its string form.
pub open spec fn sem_resolve_member<H: Host>(host: &H, 
    object: Value,
    property: MemberName,
    env: Env,
    heap: Heap,
    fuel: Fuel,
    r: EvalResult,
) -> bool
    decreases fuel.spec_remaining(), 0int, 7int, 0int,
{
    match property {
        MemberName::Identifier(name) => sem_access_property(host, object, name@, heap, fuel, r),
        MemberName::Computed(expr) => exists|r1: EvalResult| #[trigger] spent_budget(r1, fuel) && sem_eval(host, 
            *expr,
            env,
            heap,
            fuel,
            r1,
        ) && match r1 {
            Ok((Outcome::Normal(k), h, f)) => exists|key: Seq<char>| #[trigger] text_admits(host, k, key)
                && sem_access_property(host, object, key, h, f, r),
            _ => passes_abrupt(r1, r),
        },
        MemberName::Private(_) => r == Err::<(Outcome, Heap, Fuel), Error>(
            Error::Unsupported { feature: "private member access" },
        ),
    }
}

/// A member expression: the object, then the member of its value.
pub open spec fn sem_member<H: Host>(host: &H, object: Expression, property: MemberName, env: Env, heap: Heap, fuel: Fuel, r: EvalResult) -> bool
    decreases fuel.spec_remaining(), 0int, 1int, 0int,
{
    exists|r1: EvalResult| #[trigger] spent_budget(r1, fuel) && sem_eval(host, object, env, heap, fuel, r1) && match r1 {
        Ok((Outcome::Normal(obj), h, f)) => sem_resolve_member(host, obj, property, env, h, f, r),
        _ => passes_abrupt(r1, r),
    }
}

/// Writing `value` to `key` on `object`: a setter is called with the
/// value (the write gives `value` unless the setter throws); an accessor
/// without a setter drops the write; otherwise the key becomes a data
/// property holding the value.  Only objects can be written.
pub open spec fn sem_store_object_member<H: Host>(host: &H, 
    object: Value,
    key: Seq<char>,
    value: Value,
    heap: Heap,
    fuel: Fuel,
    r: EvalResult,
) -> bool
    decreases fuel.spec_remaining(), 0int, 6int, 0int,
{
    match object {
        Value::Object(id) => match heap.spec_object(id) {
            None => r matches Ok((Outcome::Throw(v), h, f)) && is_type_error(v, "object missing from heap"@)
                && h == heap && f == fuel,
            Some(obj) => if obj.accessor_map().contains_key(key) {
                match obj.accessor_map()[key].spec_set() {
                    Some(setter) => exists|r1: EvalResult| #[trigger] kept_budget(r1, fuel) && sem_call_function(host, 
                        setter,
                        object,
                        seq![value],
                        heap,
                        fuel,
                        r1,
                    ) && match r1 {
                        Err(e) => r == Err::<(Outcome, Heap, Fuel), Error>(e),
                        Ok((Outcome::Normal(_), h, f)) => r == Ok::<(Outcome, Heap, Fuel), Error>(
                            (Outcome::Normal(value), h, f),
                        ),
                        Ok((Outcome::Throw(v), h, f)) => r == Ok::<(Outcome, Heap, Fuel), Error>(
                            (Outcome::Throw(v), h, f),
                        ),
                    },
                    None => r == Ok::<(Outcome, Heap, Fuel), Error>((Outcome::Normal(value), heap, fuel)),
                }
            } else {
                r matches Ok((Outcome::Normal(v), h, f)) && v == value && f == fuel && stored_property(
                    heap,
                    h,
                    id,
                    obj,
                    key,
                    value,
                )
            },
        },
        _ => r matches Ok((Outcome::Throw(v), h, f)) && is_type_error(v, "cannot set property on non-object"@)
            && h == heap && f == fuel,
    }
}

/// Writing `value` to the member `property` of `object`.
pub open spec fn sem_write_member<H: Host>(host: &H, 
    object: Value,
    property: MemberName,
    value: Value,
    env: Env,
    heap: Heap,
    fuel: Fuel,
    r: EvalResult,
) -> bool
    decreases fuel.spec_remaining(), 0int, 7int, 0int,
{
    match property {
        MemberName::Identifier(name) => sem_store_object_member(host, object, name@, value, heap, fuel, r),
        MemberName::Computed(expr) => exists|r1: EvalResult| #[trigger] spent_budget(r1, fuel) && sem_eval(host, 
            *expr,
            env,
            heap,
            fuel,
            r1,
        ) && match r1 {
            Ok((Outcome::Normal(k), h, f)) => exists|key: Seq<char>| #[trigger] text_admits(host, k, key)
                && sem_store_object_member(host, object, key, value, h, f, r),
            _ => passes_abrupt(r1, r),
        },
        MemberName::Private(_) => r == Err::<(Outcome, Heap, Fuel), Error>(
            Error::Unsupported { feature: "private member write" },
        ),
    }
}

/// Assigning `value` to a target: a variable, or a member of the value of
/// the target's object expression; anything else throws a `TypeError`.
pub open spec fn sem_write_back_target<H: Host>(host: &H, target: Expression, value: Value, env: Env, heap: Heap, fuel: Fuel, r: EvalResult) -> bool
    decreases fuel.spec_remaining(), 0int, 1int, 0int,
{
    match target {
        Expression::Identifier(name) => spec_write_identifier(name@, value, env, heap, fuel, r),
        Expression::Member { object, property, .. } => exists|r1: EvalResult| #[trigger] spent_budget(r1, fuel)
            && sem_eval(host, *object, env, heap, fuel, r1) && match r1 {
            Ok((Outcome::Normal(obj), h, f)) => sem_write_member(host, obj, property, value, env, h, f, r),
            _ => passes_abrupt(r1, r),
        },
        _ => r matches Ok((Outcome::Throw(v), h, f)) && is_type_error(v, "invalid assignment target"@) && h
            == heap && f == fuel,
    }
}

/// An update expression: the target's value as a number, one added or
/// subtracted by the host, the result written back; the prefix form
/// gives the new number, the postfix form the old one.
pub open spec fn sem_update<H: Host>(host: &H, operator: UpdateOp, argument: Expression, prefix: bool, env: Env, heap: Heap, fuel: Fuel, r: EvalResult) -> bool
    decreases fuel.spec_remaining(), 0int, 2int, 0int,
{
    exists|r1: EvalResult| #[trigger] spent_budget(r1, fuel) && sem_eval(host, argument, env, heap, fuel, r1) && match r1 {
        Ok((Outcome::Normal(before), h, f)) => exists|old_number: u64, new_number: u64|
            #![trigger number_admits(host, before, old_number), stepped_number(host, old_number, operator, new_number)]
            number_admits(host, before, old_number) && stepped_number(host, old_number, operator, new_number)
                && exists|r2: EvalResult|
                #[trigger] kept_budget(r2, f) && sem_write_back_target(host, 
                argument,
                Value::Number(new_number),
                env,
                h,
                f,
                r2,
            ) && match r2 {
                Ok((Outcome::Normal(_), h2, f2)) => r == Ok::<(Outcome, Heap, Fuel), Error>(
                    (Outcome::Normal(Value::Number(if prefix { new_number } else { old_number })), h2, f2),
                ),
                _ => passes_abrupt(r2, r),
            },
        _ => passes_abrupt(r1, r),
    }
}

/// The binary operator a compound assignment applies.
pub open spec fn spec_compound_to_binary(operator: AssignOp) -> Result<BinaryOp, Error> {
    match operator {
        AssignOp::AddAssign => Ok(BinaryOp::Add),
        AssignOp::SubtractAssign => Ok(BinaryOp::Subtract),
        AssignOp::MultiplyAssign => Ok(BinaryOp::Multiply),
        AssignOp::DivideAssign => Ok(BinaryOp::Divide),
        AssignOp::RemainderAssign => Ok(BinaryOp::Remainder),
        AssignOp::ExponentiationAssign => Ok(BinaryOp::Exponentiation),
        AssignOp::LeftShiftAssign => Ok(BinaryOp::LeftShift),
        AssignOp::RightShiftAssign => Ok(BinaryOp::RightShift),
        AssignOp::UnsignedRightShiftAssign => Ok(BinaryOp::UnsignedRightShift),
        AssignOp::BitwiseOrAssign => Ok(BinaryOp::BitwiseOr),
        AssignOp::BitwiseXorAssign => Ok(BinaryOp::BitwiseXor),
        AssignOp::BitwiseAndAssign => Ok(BinaryOp::BitwiseAnd),
        AssignOp::Assign => Err(
            Error::Unsupported { feature: "compound_to_binary called on plain `=` (engine bug)" },
        ),
        AssignOp::LogicalOrAssign | AssignOp::LogicalAndAssign
        | AssignOp::NullishCoalescingAssign => Err(
            Error::Unsupported { feature: "logical-assignment operators (||=, &&=, ??=)" },
        ),
    }
}

/// An assignment: `target = value` evaluates the value and assigns it; a
/// compound assignment evaluates the target, then the value, combines
/// them with its operator and assigns the result.
pub open spec fn sem_assignment<H: Host>(host: &H, operator: AssignOp, left: Expression, right: Expression, env: Env, heap: Heap, fuel: Fuel, r: EvalResult) -> bool
    decreases fuel.spec_remaining(), 0int, 2int, 0int,
{
    if operator == AssignOp::Assign {
        exists|r1: EvalResult| #[trigger] spent_budget(r1, fuel) && sem_eval(host, right, env, heap, fuel, r1) && match r1 {
            Ok((Outcome::Normal(rhs), h, f)) => sem_write_back_target(host, left, rhs, env, h, f, r),
            _ => passes_abrupt(r1, r),
        }
    } else {
        exists|r1: EvalResult| #[trigger] spent_budget(r1, fuel) && sem_eval(host, left, env, heap, fuel, r1) && match r1 {
            Ok((Outcome::Normal(lhs), h, f)) => exists|r2: EvalResult| #[trigger] spent_budget(r2, f) && sem_eval(host, 
                right,
                env,
                h,
                f,
                r2,
            ) && match r2 {
                Ok((Outcome::Normal(rhs), h2, f2)) => match spec_compound_to_binary(operator) {
                    Err(e) => r == Err::<(Outcome, Heap, Fuel), Error>(e),
                    Ok(op) => exists|v: Result<Value, Error>| #[trigger] binary_admits(host, op, lhs, rhs, v) && match v {
                        Err(e) => r == Err::<(Outcome, Heap, Fuel), Error>(e),
                        Ok(combined) => sem_write_back_target(host, left, combined, env, h2, f2, r),
                    },
                },
                _ => passes_abrupt(r2, r),
            },
            _ => passes_abrupt(r1, r),
        }
    }
}

/// Read `key` on a value.  On an object a data property gives its value
/// and a getter is called with the object as `this`; strings and
/// promises have their own members; other values throw a `TypeError`.
pub fn access_property<H: Host>(object: &Value, key: &str, heap: Heap, fuel: Fuel, host: &H) -> (r: EvalResult)
    ensures
        sem_access_property(host, *object, key@, heap, fuel, r),
        kept_budget(r, fuel),
        *object matches Value::Object(id) ==> match heap.spec_object(id) {
            None => r == Ok::<(Outcome, Heap, Fuel), Error>((Outcome::Normal(Value::Undefined), heap, fuel)),
            Some(obj) => (obj.data().contains_key(key@) ==> r == Ok::<(Outcome, Heap, Fuel), Error>(
                (Outcome::Normal(obj.data()[key@]), heap, fuel),
            )) && (!obj.data().contains_key(key@) && !has_getter(obj, key@) ==> r == Ok::<
                (Outcome, Heap, Fuel),
                Error,
            >((Outcome::Normal(Value::Undefined), heap, fuel))),
        },
        *object matches Value::String(s) ==> (r matches Ok((o, h, f)) && h == heap && f == fuel
            && spec_string_member(s@, key@, o)),
        *object is Promise ==> r == Ok::<(Outcome, Heap, Fuel), Error>(
            (spec_promise_member(key@), heap, fuel),
        ),
        !(*object is Object || *object is String || *object is Promise) ==> (r matches Ok(
            (Outcome::Throw(v), h, f),
        ) && is_non_object_read_error(v, key@) && h == heap && f == fuel),
    decreases fuel.spec_remaining(), 0int, 5int, 0int,
{
    match object {
        Value::Object(id) => {
            let read = match heap.object(*id) {
                Some(obj) => lookup_property(obj, key),
                None => PropertyRead::Data(Value::Undefined),
            };
            match read {
                PropertyRead::Data(v) => Ok((Outcome::Normal(v), heap, fuel)),
                PropertyRead::Getter(getter) => call_function(&getter, object, Vec::new(), heap, fuel, host),
            }
        },
        Value::String(s) => Ok((string_member(s.as_str(), key), heap, fuel)),
        Value::Promise(_) => Ok((promise_member(key), heap, fuel)),
        _ => {
            let quoted = debug_quoted(key);
            let message = concat3("cannot access property ", quoted.as_str(), " of non-object");
            Ok((Outcome::Throw(type_error(message.as_str())), heap, fuel))
        },
    }
}

/// Read the member `property` of the value `object`: a name directly, a
/// computed key after evaluating it and converting it to a string.
pub fn resolve_member<H: Host>(
    object: &Value,
    property: &MemberName,
    env: &Env,
    heap: Heap,
    fuel: Fuel,
    host: &H,
) -> (r: EvalResult)
    ensures
        sem_resolve_member(host, *object, *property, *env, heap, fuel, r),
        kept_budget(r, fuel),
        property is Private ==> r == Err::<(Outcome, Heap, Fuel), Error>(
            Error::Unsupported { feature: "private member access" },
        ),
    decreases fuel.spec_remaining(), 0int, 6int, 0int,
{
    match property {
        MemberName::Identifier(name) => access_property(object, name.as_str(), heap, fuel, host),
        MemberName::Computed(expr) => match eval(expr, env, heap, fuel, host) {
            Err(e) => Err(e),
            Ok((Outcome::Throw(v), h, f)) => Ok((Outcome::Throw(v), h, f)),
            Ok((Outcome::Normal(k), h, f)) => {
                let key = to_property_key(&k, &h, host);
                access_property(object, key.as_str(), h, f, host)
            },
        },
        MemberName::Private(_) => Err(Error::Unsupported { feature: "private member access" }),
    }
}

/// A member expression `object.property` / `object[key]`.
pub fn eval_member<H: Host>(object: &Expression, property: &MemberName, env: &Env, heap: Heap, fuel: Fuel, host: &H) -> (r:
    EvalResult)
    ensures
        kept_budget(r, fuel),
        sem_member(host, *object, *property, *env, heap, fuel, r),
    decreases fuel.spec_remaining(), 0int, 1int, 0int,
{
    match eval(object, env, heap, fuel, host) {
        Err(e) => Err(e),
        Ok((Outcome::Throw(v), h, f)) => Ok((Outcome::Throw(v), h, f)),
        Ok((Outcome::Normal(obj), h, f)) => resolve_member(&obj, property, env, h, f, host),
    }
}

/// Assigning `value` to the variable `name`: a mutable cell takes the
/// value and the assignment gives it; a `const` (or missing) cell and a
/// direct binding throw a `TypeError`; an unbound name throws a
/// `ReferenceError`.
pub open spec fn spec_write_identifier(name: Seq<char>, value: Value, env: Env, heap: Heap, fuel: Fuel, r: EvalResult) -> bool {
    match env.spec_lookup(name) {
        Some(Binding::Cell(id)) => if heap.spec_cell(id) matches Some(c) && c.spec_mutable() {
            r matches Ok((Outcome::Normal(v), h, f)) && v == value && f == fuel && stored_cell(heap, h, id, value)
        } else {
            r matches Ok((Outcome::Throw(v), h, f)) && is_type_error(
                v,
                "assignment to constant or missing cell "@ + spec_debug_quoted(name),
            ) && h == heap && f == fuel
        },
        Some(Binding::Direct(_)) => r matches Ok((Outcome::Throw(v), h, f)) && is_type_error(
            v,
            "cannot assign to non-cell binding "@ + spec_debug_quoted(name),
        ) && h == heap && f == fuel,
        None => r matches Ok((Outcome::Throw(v), h, f)) && is_reference_error(v, name) && h == heap && f
            == fuel,
    }
}

/// Assign `value` to the variable `name`.
fn write_identifier(name: &str, value: Value, env: &Env, heap: Heap, fuel: Fuel) -> (r: EvalResult)
    ensures
        spec_write_identifier(name@, value, *env, heap, fuel, r),
{
    match env.lookup(name) {
        Some(Binding::Cell(id)) => {
            let id = *id;
            match heap.store_cell(id, value.clone()) {
                Ok(h) => Ok((Outcome::Normal(value), h, fuel)),
                Err(h) => {
                    let quoted = debug_quoted(name);
                    let message = crate::text::concat("assignment to constant or missing cell ", quoted.as_str());
                    Ok((Outcome::Throw(type_error(message.as_str())), h, fuel))
                },
            }
        },
        Some(Binding::Direct(_)) => {
            let quoted = debug_quoted(name);
            let message = crate::text::concat("cannot assign to non-cell binding ", quoted.as_str());
            Ok((Outcome::Throw(type_error(message.as_str())), heap, fuel))
        },
        None => Ok((Outcome::Throw(reference_error(name)), heap, fuel)),
    }
}

/// A variable read after a successful assignment to it gives the assigned
/// value.
pub proof fn lemma_assignment_then_read(
    name: Seq<char>,
    value: Value,
    env: Env,
    before: Heap,
    fuel: Fuel,
    r: EvalResult,
)
    requires
        spec_write_identifier(name, value, env, before, fuel, r),
        r matches Ok((Outcome::Normal(_), _, _)),
    ensures
        r matches Ok((_, after, _)) && spec_identifier_outcome(name, env, after, Outcome::Normal(value)),
{
}

/// What writing a property of an object does.
pub enum WritePlan {
    /// Call this setter with the value.
    Setter(Value),
    /// An accessor without a setter: the write is dropped.
    Ignore,
    /// Store this updated object.
    Store(Object),
}

/// Decide a write of `value` to `key`: an accessor's setter runs, an
/// accessor without a setter ignores the write, and otherwise the key
/// becomes a data property holding the value.
fn write_plan(obj: &Object, key: &str, value: &Value) -> (r: WritePlan)
    ensures
        obj.accessor_map().contains_key(key@) ==> (obj.accessor_map()[key@].spec_set() matches Some(s)
            ==> r == WritePlan::Setter(s)),
        obj.accessor_map().contains_key(key@) && obj.accessor_map()[key@].spec_set() is None ==> r is Ignore,
        !obj.accessor_map().contains_key(key@) ==> (r matches WritePlan::Store(o) && o.data() == obj.data().insert(
            key@,
            *value,
        ) && o.accessor_map() == obj.accessor_map()),
{
    match obj.accessor(key) {
        Some(pair) => match pair.set_fn() {
            Some(setter) => WritePlan::Setter(setter.clone()),
            None => WritePlan::Ignore,
        },
        None => {
            let updated = obj.with(key.to_owned(), value.clone());
            assert(obj.accessor_map().remove(key@) =~= obj.accessor_map());
            WritePlan::Store(updated)
        },
    }
}

/// `h` is `heap` with object `id` replaced by one whose data is `obj`'s
/// with `key` set to `value`, whose accessors are `obj`'s, and nothing
/// else changed.
pub open spec fn stored_property(heap: Heap, h: Heap, id: ObjectId, obj: Object, key: Seq<char>, value: Value) -> bool {
    &&& h.spec_objects().len() == heap.spec_objects().len()
    &&& h.spec_objects() == heap.spec_objects().update(id.spec_raw() as int, h.spec_objects()[id.spec_raw() as int])
    &&& h.spec_objects()[id.spec_raw() as int].data() == obj.data().insert(key, value)
    &&& h.spec_objects()[id.spec_raw() as int].accessor_map() == obj.accessor_map()
    &&& h.spec_functions() == heap.spec_functions()
    &&& h.spec_cells() == heap.spec_cells()
    &&& h.spec_promises() == heap.spec_promises()
}

/// A property read after a plain write of it gives the written value as
/// a data property (so a read returns it), every other property of the
/// object reads as before, and every other object is untouched.
pub proof fn lemma_property_write_then_read(
    before: Heap,
    after: Heap,
    id: ObjectId,
    obj: Object,
    key: Seq<char>,
    value: Value,
)
    requires
        before.spec_object(id) == Some(obj),
        !obj.accessor_map().contains_key(key),
        stored_property(before, after, id, obj, key, value),
    ensures
        after.spec_object(id) matches Some(o) && o.data().contains_key(key) && o.data()[key] == value
            && !has_getter(o, key),
        after.spec_object(id) matches Some(o) && forall|other: Seq<char>|
            other != key ==> (#[trigger] o.data().contains_key(other) == obj.data().contains_key(other) && (
            obj.data().contains_key(other) ==> o.data()[other] == obj.data()[other])),
        forall|other: ObjectId| other != id ==> #[trigger] after.spec_object(other) == before.spec_object(other),
{
    assert forall|other: ObjectId| other != id implies #[trigger] after.spec_object(other) == before.spec_object(
        other,
    ) by {
        crate::value::lemma_object_id_raw_injective(other, id);
    }
}

/// Write `value` to `key` on a value.  The assignment gives `value`
/// whatever a setter returns.
fn store_object_member<H: Host>(object: &Value, key: &str, value: Value, heap: Heap, fuel: Fuel, host: &H) -> (r:
    EvalResult)
    ensures
        sem_store_object_member(host, *object, key@, value, heap, fuel, r),
        kept_budget(r, fuel),
        r matches Ok((Outcome::Normal(v), _, _)) ==> v == value,
        !(*object is Object) ==> (r matches Ok((Outcome::Throw(v), h, f)) && is_type_error(
            v,
            "cannot set property on non-object"@,
        ) && h == heap && f == fuel),
        *object matches Value::Object(id) ==> match heap.spec_object(id) {
            None => r matches Ok((Outcome::Throw(v), h, f)) && is_type_error(v, "object missing from heap"@)
                && h == heap && f == fuel,
            Some(obj) => (!obj.accessor_map().contains_key(key@) ==> (r matches Ok((Outcome::Normal(v), h, f))
                && f == fuel && stored_property(heap, h, id, obj, key@, value))) && (
            obj.accessor_map().contains_key(key@) && obj.accessor_map()[key@].spec_set() is None ==> r
                == Ok::<(Outcome, Heap, Fuel), Error>((Outcome::Normal(value), heap, fuel))),
        },
    decreases fuel.spec_remaining(), 0int, 6int, 0int,
{
    match object {
        Value::Object(id) => {
            let plan = match heap.object(*id) {
                Some(obj) => Some(write_plan(obj, key, &value)),
                None => None,
            };
            match plan {
                None => Ok((Outcome::Throw(type_error("object missing from heap")), heap, fuel)),
                Some(WritePlan::Setter(setter)) => {
                    let mut args: Vec<Value> = Vec::new();
                    args.push(value.clone());
                    match call_function(&setter, object, args, heap, fuel, host) {
                        Err(e) => Err(e),
                        Ok((Outcome::Normal(_), h, f)) => Ok((Outcome::Normal(value), h, f)),
                        Ok((Outcome::Throw(v), h, f)) => Ok((Outcome::Throw(v), h, f)),
                    }
                },
                Some(WritePlan::Ignore) => Ok((Outcome::Normal(value), heap, fuel)),
                Some(WritePlan::Store(updated)) => match heap.store_object(*id, updated) {
                    Ok(h) => Ok((Outcome::Normal(value), h, fuel)),
                    Err(h) => Ok((Outcome::Throw(type_error("object store failed")), h, fuel)),
                },
            }
        },
        _ => Ok((Outcome::Throw(type_error("cannot set property on non-object")), heap, fuel)),
    }
}

/// Write `value` to the member `property` of `object`.
fn write_member<H: Host>(
    object: &Value,
    property: &MemberName,
    value: Value,
    env: &Env,
    heap: Heap,
    fuel: Fuel,
    host: &H,
) -> (r: EvalResult)
    ensures
        sem_write_member(host, *object, *property, value, *env, heap, fuel, r),
        kept_budget(r, fuel),
        property is Private ==> r == Err::<(Outcome, Heap, Fuel), Error>(
            Error::Unsupported { feature: "private member write" },
        ),
    decreases fuel.spec_remaining(), 0int, 7int, 0int,
{
    match property {
        MemberName::Identifier(name) => store_object_member(object, name.as_str(), value, heap, fuel, host),
        MemberName::Computed(expr) => match eval(expr, env, heap, fuel, host) {
            Err(e) => Err(e),
            Ok((Outcome::Throw(v), h, f)) => Ok((Outcome::Throw(v), h, f)),
            Ok((Outcome::Normal(k), h, f)) => {
                let key = to_property_key(&k, &h, host);
                store_object_member(object, key.as_str(), value, h, f, host)
            },
        },
        MemberName::Private(_) => Err(Error::Unsupported { feature: "private member write" }),
    }
}

/// Assign `value` to an assignment target: a variable or a member;
/// anything else throws a `TypeError`.
fn write_back_target<H: Host>(target: &Expression, value: Value, env: &Env, heap: Heap, fuel: Fuel, host: &H) -> (r:
    EvalResult)
    ensures
        sem_write_back_target(host, *target, value, *env, heap, fuel, r),
        kept_budget(r, fuel),
        *target matches Expression::Identifier(name) ==> spec_write_identifier(name@, value, *env, heap, fuel, r),
        !(*target is Identifier || *target is Member) ==> (r matches Ok((Outcome::Throw(v), h, f))
            && is_type_error(v, "invalid assignment target"@) && h == heap && f == fuel),
    decreases fuel.spec_remaining(), 0int, 1int, 0int,
{
    match target {
        Expression::Identifier(name) => write_identifier(name.as_str(), value, env, heap, fuel),
        Expression::Member { object, property, .. } => match eval(object, env, heap, fuel, host) {
            Err(e) => Err(e),
            Ok((Outcome::Throw(v), h, f)) => Ok((Outcome::Throw(v), h, f)),
            Ok((Outcome::Normal(obj), h, f)) => write_member(&obj, property, value, env, h, f, host),
        },
        _ => Ok((Outcome::Throw(type_error("invalid assignment target")), heap, fuel)),
    }
}

/// `++x`, `x++`, `--x`, `x--`: read the target, add or subtract one,
/// write it back; the prefix form gives the new number, the postfix form
/// the old one.
pub fn eval_update<H: Host>(
    operator: UpdateOp,
    argument: &Expression,
    prefix: bool,
    env: &Env,
    heap: Heap,
    fuel: Fuel,
    host: &H,
) -> (r: EvalResult)
    ensures
        kept_budget(r, fuel),
        sem_update(host, operator, *argument, prefix, *env, heap, fuel, r),
    decreases fuel.spec_remaining(), 0int, 1int, 0int,
{
    match eval(argument, env, heap, fuel, host) {
        Err(e) => Err(e),
        Ok((Outcome::Throw(v), h, f)) => Ok((Outcome::Throw(v), h, f)),
        Ok((Outcome::Normal(before), h, f)) => {
            let before_number = to_number(&before, host);
            let delta = match operator {
                UpdateOp::Increment => ONE,
                UpdateOp::Decrement => NEGATIVE_ONE,
            };
            let after_number = match small_integer(before_number) {
                Some(x) => integer_to_number(
                    match operator {
                        UpdateOp::Increment => x as i64 + 1,
                        UpdateOp::Decrement => x as i64 - 1,
                    },
                ),
                None => host.arithmetic(NumericOperator::Add, before_number, delta),
            };
            assert(stepped_number(host, before_number, operator, after_number));
            match write_back_target(argument, Value::Number(after_number), env, h, f, host) {
                Err(e) => Err(e),
                Ok((Outcome::Throw(v), h2, f2)) => Ok((Outcome::Throw(v), h2, f2)),
                Ok((Outcome::Normal(_), h2, f2)) => {
                    let result = if prefix {
                        after_number
                    } else {
                        before_number
                    };
                    Ok((Outcome::Normal(Value::Number(result)), h2, f2))
                },
            }
        },
    }
}

/// The binary operator a compound assignment applies.  Plain `=` has
/// none, and the logical assignments are not supported.
pub fn compound_to_binary(operator: AssignOp) -> (r: Result<BinaryOp, Error>)
    ensures
        r == spec_compound_to_binary(operator),
{
    match operator {
        AssignOp::AddAssign => Ok(BinaryOp::Add),
        AssignOp::SubtractAssign => Ok(BinaryOp::Subtract),
        AssignOp::MultiplyAssign => Ok(BinaryOp::Multiply),
        AssignOp::DivideAssign => Ok(BinaryOp::Divide),
        AssignOp::RemainderAssign => Ok(BinaryOp::Remainder),
        AssignOp::ExponentiationAssign => Ok(BinaryOp::Exponentiation),
        AssignOp::LeftShiftAssign => Ok(BinaryOp::LeftShift),
        AssignOp::RightShiftAssign => Ok(BinaryOp::RightShift),
        AssignOp::UnsignedRightShiftAssign => Ok(BinaryOp::UnsignedRightShift),
        AssignOp::BitwiseOrAssign => Ok(BinaryOp::BitwiseOr),
        AssignOp::BitwiseXorAssign => Ok(BinaryOp::BitwiseXor),
        AssignOp::BitwiseAndAssign => Ok(BinaryOp::BitwiseAnd),
        AssignOp::Assign => Err(Error::Unsupported { feature: "compound_to_binary called on plain `=` (engine bug)" }),
        AssignOp::LogicalOrAssign | AssignOp::LogicalAndAssign
        | AssignOp::NullishCoalescingAssign => Err(
            Error::Unsupported { feature: "logical-assignment operators (||=, &&=, ??=)" },
        ),
    }
}

/// `target = value` evaluates the value and assigns it; a compound
/// assignment reads the target, evaluates the value, combines them with
/// its operator and assigns the result.
pub fn eval_assignment<H: Host>(
    operator: AssignOp,
    left: &Expression,
    right: &Expression,
    env: &Env,
    heap: Heap,
    fuel: Fuel,
    host: &H,
) -> (r: EvalResult)
    ensures
        kept_budget(r, fuel),
        sem_assignment(host, operator, *left, *right, *env, heap, fuel, r),
    decreases fuel.spec_remaining(), 0int, 1int, 0int,
{
    match operator {
        AssignOp::Assign => match eval(right, env, heap, fuel, host) {
            Err(e) => Err(e),
            Ok((Outcome::Throw(v), h, f)) => Ok((Outcome::Throw(v), h, f)),
            Ok((Outcome::Normal(rhs), h, f)) => write_back_target(left, rhs, env, h, f, host),
        },
        _ => match eval(left, env, heap, fuel, host) {
            Err(e) => Err(e),
            Ok((Outcome::Throw(v), h, f)) => Ok((Outcome::Throw(v), h, f)),
            Ok((Outcome::Normal(lhs), h, f)) => match eval(right, env, h, f, host) {
                Err(e) => Err(e),
                Ok((Outcome::Throw(v), h2, f2)) => Ok((Outcome::Throw(v), h2, f2)),
                Ok((Outcome::Normal(rhs), h2, f2)) => {
                    let op = match compound_to_binary(operator) {
                        Ok(op) => op,
                        Err(e) => {
                            return Err(e);
                        },
                    };
                    let combined = match apply_binary(op, &lhs, &rhs, &h2, host) {
                        Ok(v) => v,
                        Err(e) => {
                            return Err(e);
                        },
                    };
                    write_back_target(left, combined, env, h2, f2, host)
                },
            },
        },
    }
}

} // verus!
