//! Calls: argument binding, function invocation, native dispatch, and
//! `new`.

use vstd::prelude::*;

use crate::ast::{Expression, Pattern};
use crate::completion::Completion;
use crate::env::{Binding, Env};
use crate::error::Error;
use crate::expression::{eval, passes_abrupt, sem_eval};
use crate::fuel::{clamp_returned, fuel_le, fuel_lt, lemma_spent, spec_clamp, Fuel};
use crate::heap::{allocated_cell, Heap};
use crate::host::Host;
use crate::literal::{allocated_object, collect_kept_budget, eval_arguments, sem_arguments, Collected};
use crate::outcome::{is_type_error, kept_budget, spent_budget, type_error, EvalResult, Outcome};
use crate::promise::{
    catch_impl, reject_test_hook, resolve_test_hook, sem_catch, sem_reject_hook, sem_resolve_hook, sem_then,
    then_impl,
};
use crate::property::{resolve_member, sem_resolve_member};
use crate::statement::{body_kept_budget, execute_body, sem_execute_body, BodyResult};
use crate::value::{AccessorPair, Cell, FunctionDef, NativeFn, Object, ObjectId, Value};

verus! {

/// Functions and native callables can be called.
pub open spec fn spec_is_callable(value: Value) -> bool {
    value is Function || value is Native
}

/// Whether a value can be called.
pub fn is_callable(value: &Value) -> (r: bool)
    ensures
        r == spec_is_callable(*value),
{
    match value {
        Value::Function(_) | Value::Native(_) => true,
        _ => false,
    }
}

/// The outcome of a call from the completion of the callee's body: a
/// `return` or a normal completion gives its value, a `throw` rethrows,
/// and a stray `break` or `continue` gives `undefined`.
pub fn completion_to_outcome(c: Completion) -> (r: Outcome)
    ensures
        r == spec_completion_outcome(c),
{
    match c {
        Completion::Normal(v) | Completion::Return(v) => Outcome::Normal(v),
        Completion::Throw(v) => Outcome::Throw(v),
        Completion::Break | Completion::Continue => Outcome::Normal(Value::Undefined),
    }
}

/// How many defaults a parameter pattern nests.
pub open spec fn pattern_depth(p: Pattern) -> nat
    decreases p,
{
    match p {
        Pattern::Assignment { left, .. } => 1 + pattern_depth(*left),
        _ => 0,
    }
}

/// `e` is `env` extended with `name` bound to the cell numbered `index`.
pub open spec fn extended_with_cell(e: Env, env: Env, name: Seq<char>, index: nat) -> bool {
    e matches Env::Cons { name: n, binding: Binding::Cell(c), rest } && n@ == name && *rest == env
        && c.spec_raw() == index
}

/// Binding a parameter: on success the remaining fuel is at most what it
/// started with.
pub open spec fn bind_kept_budget(r: Result<(Outcome, Env, Heap, Fuel), Error>, fuel: Fuel) -> bool {
    r matches Ok((_, _, _, f)) ==> fuel_le(f, fuel)
}

/// Binding the parameter pattern `param` to `value` in `env`: a name gets
/// a fresh mutable cell holding the value; `left = right` binds `left` to
/// the value, or to the value of `right` when the value is `undefined`;
/// destructuring and rest patterns bind nothing.
pub open spec fn sem_bind_pattern<H: Host>(host: &H, 
    param: Pattern,
    value: Value,
    env: Env,
    heap: Heap,
    fuel: Fuel,
    r: Result<(Outcome, Env, Heap, Fuel), Error>,
) -> bool
    decreases fuel.spec_remaining(), 0int, 1int, pattern_depth(param),
{
    match param {
        Pattern::Identifier(name) => r matches Ok((o, e, h, f)) && o == Outcome::Normal(Value::Undefined) && f == fuel
            && extended_with_cell(e, env, name@, heap.spec_cells().len()) && allocated_cell(heap, h, value, true),
        Pattern::Assignment { left, right } => if value is Undefined {
            exists|r1: EvalResult| #[trigger] spent_budget(r1, fuel) && sem_eval(host, *right, env, heap, fuel, r1) && match r1 {
                Err(e) => r == Err::<(Outcome, Env, Heap, Fuel), Error>(e),
                Ok((Outcome::Throw(v), h, f)) => r == Ok::<(Outcome, Env, Heap, Fuel), Error>(
                    (Outcome::Throw(v), env, h, f),
                ),
                Ok((Outcome::Normal(default_value), h, f)) => sem_bind_pattern(host, *left, default_value, env, h, f, r),
            }
        } else {
            sem_bind_pattern(host, *left, value, env, heap, fuel, r)
        },
        _ => r == Ok::<(Outcome, Env, Heap, Fuel), Error>((Outcome::Normal(Value::Undefined), env, heap, fuel)),
    }
}

/// Binding the parameters from the `i`-th on in `scope`: parameter `i`
/// to argument `i`, or to `undefined` when fewer were passed; a throwing
/// default stops the binding.
pub open spec fn sem_bind_from<H: Host>(host: &H, 
    params: Seq<Pattern>,
    args: Seq<Value>,
    i: nat,
    scope: Env,
    heap: Heap,
    fuel: Fuel,
    r: Result<(Outcome, Env, Heap, Fuel), Error>,
) -> bool
    decreases fuel.spec_remaining(), 0int, 2int, params.len() - i,
{
    if i >= params.len() {
        r == Ok::<(Outcome, Env, Heap, Fuel), Error>((Outcome::Normal(Value::Undefined), scope, heap, fuel))
    } else {
        exists|r1: Result<(Outcome, Env, Heap, Fuel), Error>| #[trigger] bind_kept_budget(r1, fuel) && sem_bind_pattern(host, 
            params[i as int],
            if i < args.len() {
                args[i as int]
            } else {
                Value::Undefined
            },
            scope,
            heap,
            fuel,
            r1,
        ) && match r1 {
            Err(e) => r == Err::<(Outcome, Env, Heap, Fuel), Error>(e),
            Ok((Outcome::Throw(v), s2, h2, f2)) => r == Ok::<(Outcome, Env, Heap, Fuel), Error>(
                (Outcome::Throw(v), s2, h2, f2),
            ),
            Ok((Outcome::Normal(_), s2, h2, f2)) => sem_bind_from(host, params, args, i + 1, s2, h2, f2, r),
        }
    }
}

/// The environment a call of `def` starts from: the captured one, which
/// a function that is not an arrow extends with `this`.
pub open spec fn this_scope(e: Env, def: FunctionDef, this_value: Value) -> bool {
    if def.spec_is_arrow() {
        e == def.spec_captured_env()
    } else {
        e matches Env::Cons { name, binding: Binding::Direct(v), rest } && name@ == "__this__"@ && v == this_value
            && *rest == def.spec_captured_env()
    }
}

/// The outcome of a call whose body completed with `c`.
pub open spec fn spec_completion_outcome(c: Completion) -> Outcome {
    match c {
        Completion::Normal(v) | Completion::Return(v) => Outcome::Normal(v),
        Completion::Throw(v) => Outcome::Throw(v),
        Completion::Break | Completion::Continue => Outcome::Normal(Value::Undefined),
    }
}

/// Running the function `def`: the parameters bound to the arguments in
/// its starting environment, then the body.
pub open spec fn sem_invoke<H: Host>(host: &H, def: FunctionDef, this_value: Value, args: Seq<Value>, heap: Heap, fuel: Fuel, r: EvalResult) -> bool
    decreases fuel.spec_remaining(), 0int, 4int, 0int,
{
    exists|e: Env| #[trigger] this_scope(e, def, this_value) && exists|r1: Result<(Outcome, Env, Heap, Fuel), Error>|
        #[trigger] bind_kept_budget(r1, fuel) && sem_bind_from(host, (*def.spec_params())@, args, 0, e, heap, fuel, r1)
        && match r1 {
        Err(x) => r == Err::<(Outcome, Heap, Fuel), Error>(x),
        Ok((Outcome::Throw(v), _scope, h, f)) => r == Ok::<(Outcome, Heap, Fuel), Error>((Outcome::Throw(v), h, f)),
        Ok((Outcome::Normal(_), scope, h, f)) => exists|r2: BodyResult| #[trigger] body_kept_budget(r2, f)
            && sem_execute_body(host, def.spec_body(), scope, h, f, r2) && match r2 {
            Err(x) => r == Err::<(Outcome, Heap, Fuel), Error>(x),
            Ok((c, h2, f2)) => r == Ok::<(Outcome, Heap, Fuel), Error>((spec_completion_outcome(c), h2, f2)),
        },
    }
}

/// Calling `callee` with `this_value` and `args`: a function runs; the
/// embedder's callable gets the fuel as it is and may answer anything,
/// but is never left more fuel than it was given; a built-in promise
/// callable costs one unit of fuel and runs the operation it names;
/// anything else throws a `TypeError`.
pub open spec fn sem_call_function<H: Host>(host: &H, callee: Value, this_value: Value, args: Seq<Value>, heap: Heap, fuel: Fuel, r: EvalResult) -> bool
    decreases fuel.spec_remaining(), 0int, 5int, 0int,
{
    match callee {
        Value::Function(id) => match heap.spec_function(id) {
            Some(def) => sem_invoke(host, def, this_value, args, heap, fuel, r),
            None => r matches Ok((Outcome::Throw(v), h, f)) && is_type_error(v, "function id missing from heap"@) && h
                == heap && f == fuel,
        },
        Value::Native(NativeFn::Host(id)) => exists|r0: EvalResult|
            #[trigger] host.native_gives(id, args, this_value, heap, fuel, r0) && match r0 {
                Err(e) => r == Err::<(Outcome, Heap, Fuel), Error>(e),
                Ok((o, h, f0)) => r == Ok::<(Outcome, Heap, Fuel), Error>((o, h, spec_clamp(fuel, f0))),
            },
        Value::Native(native) => if fuel.spec_remaining() == 0 {
            r == Err::<(Outcome, Heap, Fuel), Error>(Error::FuelExhausted { limit: fuel.spec_limit() })
        } else {
            let f1 = fuel.spec_spent();
            proof {
                lemma_spent(fuel);
            }
            match native {
                NativeFn::PromiseThen => sem_then(host, args, this_value, heap, f1, r),
                NativeFn::PromiseCatch => sem_catch(host, args, this_value, heap, f1, r),
                NativeFn::ResolvePromise => sem_resolve_hook(host, args, heap, f1, r),
                NativeFn::RejectPromise => sem_reject_hook(host, args, heap, f1, r),
                NativeFn::Host(_) => r matches Ok((_, _, f)) ==> fuel_le(f, f1),
            }
        },
        _ => r matches Ok((Outcome::Throw(v), h, f)) && is_type_error(v, "called value is not a function"@) && h == heap
            && f == fuel,
    }
}

/// Evaluating a callee: on success strictly less fuel remains.
pub open spec fn callee_spent_budget(r: Result<(Outcome, Value, Heap, Fuel), Error>, fuel: Fuel) -> bool {
    r matches Ok((_, _, _, f)) ==> fuel_lt(f, fuel)
}

/// The callee of a call and its `this`: for `object.member(...)` the
/// member of the object's value and that value, otherwise the callee's
/// value and `undefined`.
pub open spec fn sem_callee_and_this<H: Host>(host: &H, 
    callee: Expression,
    env: Env,
    heap: Heap,
    fuel: Fuel,
    r: Result<(Outcome, Value, Heap, Fuel), Error>,
) -> bool
    decreases fuel.spec_remaining(), 0int, 1int, 0int,
{
    match callee {
        Expression::Member { object, property, .. } => exists|r1: EvalResult| #[trigger] spent_budget(r1, fuel)
            && sem_eval(host, *object, env, heap, fuel, r1) && match r1 {
            Err(e) => r == Err::<(Outcome, Value, Heap, Fuel), Error>(e),
            Ok((Outcome::Throw(v), h, f)) => r == Ok::<(Outcome, Value, Heap, Fuel), Error>(
                (Outcome::Throw(v), Value::Undefined, h, f),
            ),
            Ok((Outcome::Normal(obj), h, f)) => exists|r2: EvalResult| #[trigger] kept_budget(r2, f)
                && sem_resolve_member(host, obj, property, env, h, f, r2) && match r2 {
                Err(e) => r == Err::<(Outcome, Value, Heap, Fuel), Error>(e),
                Ok((o, h2, f2)) => r == Ok::<(Outcome, Value, Heap, Fuel), Error>((o, obj, h2, f2)),
            },
        },
        _ => exists|r1: EvalResult| #[trigger] spent_budget(r1, fuel) && sem_eval(host, callee, env, heap, fuel, r1) && match r1 {
            Err(e) => r == Err::<(Outcome, Value, Heap, Fuel), Error>(e),
            Ok((o, h, f)) => r == Ok::<(Outcome, Value, Heap, Fuel), Error>((o, Value::Undefined, h, f)),
        },
    }
}

/// A call expression: the callee and its `this`, the arguments left to
/// right, then the call.
pub open spec fn sem_call<H: Host>(host: &H, callee: Expression, arguments: Seq<Expression>, env: Env, heap: Heap, fuel: Fuel, r: EvalResult) -> bool
    decreases fuel.spec_remaining(), 0int, 2int, 0int,
{
    exists|r1: Result<(Outcome, Value, Heap, Fuel), Error>| #[trigger] callee_spent_budget(r1, fuel)
        && sem_callee_and_this(host, callee, env, heap, fuel, r1) && match r1 {
        Err(e) => r == Err::<(Outcome, Heap, Fuel), Error>(e),
        Ok((Outcome::Throw(v), _this, h, f)) => r == Ok::<(Outcome, Heap, Fuel), Error>((Outcome::Throw(v), h, f)),
        Ok((Outcome::Normal(callee_value), this_value, h, f)) => exists|r2: Result<(Collected, Heap, Fuel), Error>|
            #[trigger] collect_kept_budget(r2, f) && sem_arguments(host, arguments, env, h, f, r2) && match r2 {
            Err(e) => r == Err::<(Outcome, Heap, Fuel), Error>(e),
            Ok((Collected::Throw(v), h2, f2)) => r == Ok::<(Outcome, Heap, Fuel), Error>((Outcome::Throw(v), h2, f2)),
            Ok((Collected::Values(args), h2, f2)) => sem_call_function(host, callee_value, this_value, args@, h2, f2, r),
        },
    }
}

/// The outcome of `new` once the constructor returned: an object or
/// function it returns replaces the instance; any other value gives the
/// instance; a throw passes through.
pub open spec fn spec_construct_result(outcome: Outcome, instance: Value) -> Outcome {
    match outcome {
        Outcome::Normal(v) => if v is Object || v is Function {
            Outcome::Normal(v)
        } else {
            Outcome::Normal(instance)
        },
        Outcome::Throw(v) => Outcome::Throw(v),
    }
}

/// `after` is `before` with a fresh empty object numbered `id`.
pub open spec fn allocated_empty_object(before: Heap, after: Heap, id: ObjectId) -> bool {
    &&& allocated_object(before, after, id)
    &&& after.spec_objects().last().data() == Map::<Seq<char>, Value>::empty()
    &&& after.spec_objects().last().accessor_map() == Map::<Seq<char>, AccessorPair>::empty()
}

/// Constructing with `callee`: a fresh empty instance, the call with it
/// as `this`, then the result as [`spec_construct_result`] says.
pub open spec fn sem_construct<H: Host>(host: &H, callee: Value, args: Seq<Value>, heap: Heap, fuel: Fuel, r: EvalResult) -> bool
    decreases fuel.spec_remaining(), 0int, 6int, 0int,
{
    exists|id: ObjectId, h: Heap| #[trigger] allocated_empty_object(heap, h, id) && exists|r1: EvalResult|
        #[trigger] kept_budget(r1, fuel) && sem_call_function(host, callee, Value::Object(id), args, h, fuel, r1) && match r1 {
        Err(e) => r == Err::<(Outcome, Heap, Fuel), Error>(e),
        Ok((o, h2, f2)) => r == Ok::<(Outcome, Heap, Fuel), Error>((spec_construct_result(o, Value::Object(id)), h2, f2)),
    }
}

/// A `new` expression: the constructor, the arguments, then the
/// construction.
pub open spec fn sem_new<H: Host>(host: &H, callee: Expression, arguments: Seq<Expression>, env: Env, heap: Heap, fuel: Fuel, r: EvalResult) -> bool
    decreases fuel.spec_remaining(), 0int, 1int, 0int,
{
    exists|r1: EvalResult| #[trigger] spent_budget(r1, fuel) && sem_eval(host, callee, env, heap, fuel, r1) && match r1 {
        Ok((Outcome::Normal(callee_value), h, f)) => exists|r2: Result<(Collected, Heap, Fuel), Error>|
            #[trigger] collect_kept_budget(r2, f) && sem_arguments(host, arguments, env, h, f, r2) && match r2 {
            Err(e) => r == Err::<(Outcome, Heap, Fuel), Error>(e),
            Ok((Collected::Throw(v), h2, f2)) => r == Ok::<(Outcome, Heap, Fuel), Error>((Outcome::Throw(v), h2, f2)),
            Ok((Collected::Values(args), h2, f2)) => sem_construct(host, callee_value, args@, h2, f2, r),
        },
        _ => passes_abrupt(r1, r),
    }
}

/// Bind one parameter pattern to `value`.  A name gets a fresh mutable
/// cell; `left = right` binds `left` to `value`, or to the value of
/// `right` when `value` is `undefined`; destructuring and rest patterns
/// bind nothing.
fn bind_pattern<H: Host>(param: &Pattern, value: Value, env: Env, heap: Heap, fuel: Fuel, host: &H) -> (r:
    Result<(Outcome, Env, Heap, Fuel), Error>)
    ensures
        sem_bind_pattern(host, *param, value, env, heap, fuel, r),
        bind_kept_budget(r, fuel),
        *param matches Pattern::Identifier(name) ==> (r matches Ok((o, e, h, f)) && o == Outcome::Normal(
            Value::Undefined,
        ) && f == fuel && extended_with_cell(e, env, name@, heap.spec_cells().len()) && allocated_cell(
            heap,
            h,
            value,
            true,
        )),
        (*param is Rest || *param is Array || *param is Object) ==> r == Ok::<
            (Outcome, Env, Heap, Fuel),
            Error,
        >((Outcome::Normal(Value::Undefined), env, heap, fuel)),
    decreases fuel.spec_remaining(), 0int, 1int, pattern_depth(*param),
{
    match param {
        Pattern::Identifier(name) => {
            let ghost heap0 = heap;
            let (cell, h) = heap.alloc_cell(Cell::new(value, true));
            let e = env.extend_cell(name.as_str(), cell);
            assert(allocated_cell(heap0, h, value, true));
            Ok((Outcome::Normal(Value::Undefined), e, h, fuel))
        },
        Pattern::Assignment { left, right } => {
            if matches!(value, Value::Undefined) {
                match eval(right, &env, heap, fuel, host) {
                    Err(e) => Err(e),
                    Ok((Outcome::Throw(v), h, f)) => Ok((Outcome::Throw(v), env, h, f)),
                    Ok((Outcome::Normal(default_value), h, f)) => bind_pattern(
                        left,
                        default_value,
                        env,
                        h,
                        f,
                        host,
                    ),
                }
            } else {
                bind_pattern(left, value, env, heap, fuel, host)
            }
        },
        Pattern::Rest | Pattern::Array | Pattern::Object => Ok(
            (Outcome::Normal(Value::Undefined), env, heap, fuel),
        ),
    }
}

/// Bind the parameters in order, parameter `i` to argument `i` or to
/// `undefined` when fewer arguments were passed; extra arguments are
/// ignored.  A throwing default stops the binding.
fn bind_parameters<H: Host>(params: &[Pattern], args: Vec<Value>, env: Env, heap: Heap, fuel: Fuel, host: &H) -> (r:
    Result<(Outcome, Env, Heap, Fuel), Error>)
    ensures
        sem_bind_from(host, params@, args@, 0, env, heap, fuel, r),
        bind_kept_budget(r, fuel),
        params@.len() == 0 ==> r == Ok::<(Outcome, Env, Heap, Fuel), Error>(
            (Outcome::Normal(Value::Undefined), env, heap, fuel),
        ),
    decreases fuel.spec_remaining(), 0int, 2int, 0int,
{
    let mut scope = env;
    let mut h = heap;
    let mut f = fuel;
    let mut i: usize = 0;
    while i < params.len()
        invariant
            i <= params@.len(),
            fuel_le(f, fuel),
            params@.len() == 0 ==> (scope == env && h == heap && f == fuel),
            forall|res: Result<(Outcome, Env, Heap, Fuel), Error>|
                sem_bind_from(host, params@, args@, i as nat, scope, h, f, res) ==> sem_bind_from(host, 
                    params@,
                    args@,
                    0,
                    env,
                    heap,
                    fuel,
                    res,
                ),
        decreases params@.len() - i,
    {
        let ghost scope0 = scope;
        let ghost h0 = h;
        let value = if i < args.len() {
            args[i].clone()
        } else {
            Value::Undefined
        };
        match bind_pattern(&params[i], value, scope, h, f, host) {
            Err(e) => {
                let res = Err(e);
                assert(sem_bind_from(host, params@, args@, i as nat, scope0, h0, f, res));
                return res;
            },
            Ok((Outcome::Throw(v), s2, h2, f2)) => {
                let res = Ok((Outcome::Throw(v), s2, h2, f2));
                assert(sem_bind_from(host, params@, args@, i as nat, scope0, h0, f, res));
                return res;
            },
            Ok((Outcome::Normal(_), s2, h2, f2)) => {
                assert forall|res: Result<(Outcome, Env, Heap, Fuel), Error>|
                    sem_bind_from(host, params@, args@, (i + 1) as nat, s2, h2, f2, res) implies sem_bind_from(host, 
                        params@,
                        args@,
                        i as nat,
                        scope0,
                        h0,
                        f,
                        res,
                    ) by {};
                scope = s2;
                h = h2;
                f = f2;
            },
        }
        i = i + 1;
    }
    let res = Ok((Outcome::Normal(Value::Undefined), scope, h, f));
    assert(sem_bind_from(host, params@, args@, i as nat, scope, h, f, res));
    res
}

/// Run a function: its captured environment, extended with `this`
/// unless it is an arrow function, then the parameters bound to the
/// arguments, then the body.
fn invoke_function<H: Host>(def: &FunctionDef, this_value: &Value, args: Vec<Value>, heap: Heap, fuel: Fuel, host: &H) -> (r:
    EvalResult)
    ensures
        sem_invoke(host, *def, *this_value, args@, heap, fuel, r),
        kept_budget(r, fuel),
    decreases fuel.spec_remaining(), 0int, 3int, 0int,
{
    let env_with_this = if def.is_arrow() {
        def.captured_env().clone()
    } else {
        def.captured_env().extend_direct("__this__", this_value.clone())
    };
    assert(this_scope(env_with_this, *def, *this_value));
    match bind_parameters(def.params(), args, env_with_this, heap, fuel, host) {
        Err(e) => Err(e),
        Ok((Outcome::Throw(v), _scope, h, f)) => Ok((Outcome::Throw(v), h, f)),
        Ok((Outcome::Normal(_), scope, h, f)) => match execute_body(def.body(), &scope, h, f, host) {
            Err(e) => Err(e),
            Ok((c, h2, f2)) => Ok((completion_to_outcome(c), h2, f2)),
        },
    }
}

/// Call `callee` with `this` and the arguments.  A function runs its
/// body; the embedder's callable is called with the fuel as it is (and
/// its remaining fuel is never taken above what it was given); a built-in
/// promise callable costs one unit of fuel and runs its operation, whose
/// callbacks may call back into the engine; anything else throws a
/// `TypeError`.
pub fn call_function<H: Host>(
    callee: &Value,
    this_value: &Value,
    args: Vec<Value>,
    heap: Heap,
    fuel: Fuel,
    host: &H,
) -> (r: EvalResult)
    ensures
        kept_budget(r, fuel),
        sem_call_function(host, *callee, *this_value, args@, heap, fuel, r),
        !spec_is_callable(*callee) ==> (r matches Ok((Outcome::Throw(v), h, f)) && is_type_error(
            v,
            "called value is not a function"@,
        ) && h == heap && f == fuel),
        *callee matches Value::Function(id) && heap.spec_function(id) is None ==> (r matches Ok(
            (Outcome::Throw(v), h, f),
        ) && is_type_error(v, "function id missing from heap"@) && h == heap && f == fuel),
        *callee is Native && !(*callee matches Value::Native(NativeFn::Host(_))) && fuel.spec_remaining() == 0 ==> r == Err::<(Outcome, Heap, Fuel), Error>(
            Error::FuelExhausted { limit: fuel.spec_limit() },
        ),
    decreases fuel.spec_remaining(), 0int, 4int, 0int,
{
    match callee {
        Value::Function(id) => {
            let def = match heap.function(*id) {
                Some(d) => Some(d.clone()),
                None => None,
            };
            match def {
                Some(d) => invoke_function(&d, this_value, args, heap, fuel, host),
                None => Ok((Outcome::Throw(type_error("function id missing from heap")), heap, fuel)),
            }
        },
        Value::Native(NativeFn::Host(n)) => match host.call_native(*n, args, this_value.clone(), heap, fuel) {
            Err(e) => Err(e),
            Ok((o, h, f)) => Ok((o, h, clamp_returned(fuel, f))),
        },
        Value::Native(native) => match fuel.spend() {
            Err(e) => Err(e),
            Ok(f1) => match native {
                NativeFn::PromiseThen => then_impl(args, this_value.clone(), heap, f1, host),
                NativeFn::PromiseCatch => catch_impl(args, this_value.clone(), heap, f1, host),
                NativeFn::ResolvePromise => resolve_test_hook(args, this_value.clone(), heap, f1, host),
                _ => reject_test_hook(args, this_value.clone(), heap, f1, host),
            },
        },
        _ => Ok((Outcome::Throw(type_error("called value is not a function")), heap, fuel)),
    }
}

/// The callee of a call and the `this` it gets: for `object.member(...)`
/// the member of the object and the object itself, otherwise the callee
/// and `undefined`.
fn eval_callee_and_this<H: Host>(callee: &Expression, env: &Env, heap: Heap, fuel: Fuel, host: &H) -> (r:
    Result<(Outcome, Value, Heap, Fuel), Error>)
    ensures
        sem_callee_and_this(host, *callee, *env, heap, fuel, r),
        callee_spent_budget(r, fuel),
    decreases fuel.spec_remaining(), 0int, 1int, 0int,
{
    match callee {
        Expression::Member { object, property, .. } => match eval(object, env, heap, fuel, host) {
            Err(e) => Err(e),
            Ok((Outcome::Throw(v), h, f)) => Ok((Outcome::Throw(v), Value::Undefined, h, f)),
            Ok((Outcome::Normal(obj), h, f)) => match resolve_member(&obj, property, env, h, f, host) {
                Err(e) => Err(e),
                Ok((o, h2, f2)) => Ok((o, obj, h2, f2)),
            },
        },
        _ => match eval(callee, env, heap, fuel, host) {
            Err(e) => Err(e),
            Ok((o, h, f)) => Ok((o, Value::Undefined, h, f)),
        },
    }
}

/// A call expression: the callee (and `this`), then the arguments left
/// to right, then the call.
pub fn eval_call<H: Host>(callee: &Expression, arguments: &Vec<Expression>, env: &Env, heap: Heap, fuel: Fuel, host: &H) -> (r:
    EvalResult)
    ensures
        kept_budget(r, fuel),
        sem_call(host, *callee, arguments@, *env, heap, fuel, r),
    decreases fuel.spec_remaining(), 0int, 2int, 0int,
{
    match eval_callee_and_this(callee, env, heap, fuel, host) {
        Err(e) => Err(e),
        Ok((Outcome::Throw(v), _this, h, f)) => Ok((Outcome::Throw(v), h, f)),
        Ok((Outcome::Normal(callee_value), this_value, h, f)) => match eval_arguments(arguments, env, h, f, host) {
            Err(e) => Err(e),
            Ok((Collected::Throw(v), h2, f2)) => Ok((Outcome::Throw(v), h2, f2)),
            Ok((Collected::Values(args), h2, f2)) => call_function(&callee_value, &this_value, args, h2, f2, host),
        },
    }
}

/// The value of `new callee(...)` once the constructor returned: an
/// object or function it returns replaces the fresh instance; any other
/// value gives the instance; a throw passes through.
pub fn construct_result(outcome: Outcome, instance: Value) -> (r: Outcome)
    ensures
        r == spec_construct_result(outcome, instance),
{
    match outcome {
        Outcome::Normal(Value::Object(id)) => Outcome::Normal(Value::Object(id)),
        Outcome::Normal(Value::Function(id)) => Outcome::Normal(Value::Function(id)),
        Outcome::Normal(_) => Outcome::Normal(instance),
        Outcome::Throw(v) => Outcome::Throw(v),
    }
}

/// `new callee(args)`: allocate an empty instance and call the
/// constructor with it as `this`.
fn construct<H: Host>(callee: &Value, args: Vec<Value>, heap: Heap, fuel: Fuel, host: &H) -> (r: EvalResult)
    ensures
        sem_construct(host, *callee, args@, heap, fuel, r),
        kept_budget(r, fuel),
    decreases fuel.spec_remaining(), 0int, 5int, 0int,
{
    let ghost heap0 = heap;
    let (instance, h) = heap.alloc_object(Object::empty());
    assert(allocated_empty_object(heap0, h, instance));
    let this_value = Value::Object(instance);
    match call_function(callee, &this_value, args, h, fuel, host) {
        Err(e) => Err(e),
        Ok((o, h2, f2)) => Ok((construct_result(o, this_value), h2, f2)),
    }
}

/// A `new` expression: the constructor, the arguments, then
/// construction.
pub fn eval_new<H: Host>(callee: &Expression, arguments: &Vec<Expression>, env: &Env, heap: Heap, fuel: Fuel, host: &H) -> (r:
    EvalResult)
    ensures
        kept_budget(r, fuel),
        sem_new(host, *callee, arguments@, *env, heap, fuel, r),
    decreases fuel.spec_remaining(), 0int, 1int, 0int,
{
    match eval(callee, env, heap, fuel, host) {
        Err(e) => Err(e),
        Ok((Outcome::Throw(v), h, f)) => Ok((Outcome::Throw(v), h, f)),
        Ok((Outcome::Normal(callee_value), h, f)) => match eval_arguments(arguments, env, h, f, host) {
            Err(e) => Err(e),
            Ok((Collected::Throw(v), h2, f2)) => Ok((Outcome::Throw(v), h2, f2)),
            Ok((Collected::Values(args), h2, f2)) => construct(&callee_value, args, h2, f2, host),
        },
    }
}

} // verus!
