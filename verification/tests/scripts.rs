//! End-to-end scripts: source text is lexed and parsed by the parser
//! crates, turned into the engine's syntax tree, and evaluated with a
//! binary64 host.

use boa_cat::ast as js;
use boa_cat::env::Env;
use boa_cat::error::Error;
use boa_cat::fuel::Fuel;
use boa_cat::heap::Heap;
use boa_cat::host::{Host, NumericOperator};
use boa_cat::outcome::{EvalResult, Outcome};
use boa_cat::promise::{install_test_hooks, PromiseHandler, PromiseState};
use boa_cat::value::{AccessorPair, Cell, NativeFn, Object, Value};
use boa_cat::front::parse_source;
use boa_cat::{evaluate_program, evaluate_program_with, DEFAULT_FUEL};

// ---------------------------------------------------------------------
// A binary64 host with a table of native callables.

type NativeCallable = fn(Vec<Value>, Value, Heap, Fuel) -> EvalResult;

struct TestHost {
    natives: Vec<NativeCallable>,
}

impl Host for TestHost {
    fn parse_number(&self, text: &str) -> u64 {
        text.parse::<f64>().unwrap_or(f64::NAN).to_bits()
    }

    fn format_number(&self, bits: u64) -> String {
        format!("{}", f64::from_bits(bits))
    }

    fn arithmetic(&self, operator: NumericOperator, lhs: u64, rhs: u64) -> u64 {
        let a = f64::from_bits(lhs);
        let b = f64::from_bits(rhs);
        let r = match operator {
            NumericOperator::Add => a + b,
            NumericOperator::Subtract => a - b,
            NumericOperator::Multiply => a * b,
            NumericOperator::Divide => a / b,
            NumericOperator::Remainder => a % b,
            NumericOperator::Exponentiation => a.powf(b),
        };
        r.to_bits()
    }

    fn call_native(&self, id: u64, args: Vec<Value>, this: Value, heap: Heap, fuel: Fuel) -> EvalResult {
        match self.natives.get(id as usize) {
            Some(f) => f(args, this, heap, fuel),
            None => Ok((Outcome::Throw(Value::String("TypeError: unknown native".to_owned())), heap, fuel)),
        }
    }
}

fn plain_host() -> TestHost {
    TestHost { natives: Vec::new() }
}

fn num(n: f64) -> Value {
    Value::Number(n.to_bits())
}

fn parse(source: &str) -> js::Program {
    parse_source(source).expect("the script lexes and parses")
}

// ---------------------------------------------------------------------
// Helpers.

fn eval(source: &str) -> Result<Value, Error> {
    evaluate_program(&parse(source), Fuel::new(DEFAULT_FUEL), &plain_host()).map(|(v, _)| v)
}

fn run_eval_with(source: &str, env: Env, heap: Heap, host: &TestHost) -> Result<Value, Error> {
    evaluate_program_with(&parse(source), env, heap, Fuel::new(100_000), host).map(|(v, _)| v)
}

fn run_eval(source: &str, env: Env, heap: Heap) -> Result<Value, Error> {
    run_eval_with(source, env, heap, &plain_host())
}

fn assert_number(actual: &Value, expected: f64) -> Result<(), Error> {
    match actual {
        Value::Number(n) if (f64::from_bits(*n) - expected).abs() < 1e-9 => Ok(()),
        _ => Err(Error::UncaughtException { rendered: format!("expected Number({expected}), got {actual:?}") }),
    }
}

fn assert_string(actual: &Value, expected: &str) -> Result<(), Error> {
    match actual {
        Value::String(s) if s == expected => Ok(()),
        _ => Err(Error::UncaughtException { rendered: format!("expected String({expected:?}), got {actual:?}") }),
    }
}

fn assert_boolean(actual: &Value, expected: bool) -> Result<(), Error> {
    match actual {
        Value::Boolean(b) if *b == expected => Ok(()),
        _ => Err(Error::UncaughtException { rendered: format!("expected Boolean({expected}), got {actual:?}") }),
    }
}

// ---------------------------------------------------------------------
// Arithmetic, coercion, and basic values.

#[test]
fn integer_literal() -> Result<(), Error> {
    assert_number(&eval("42")?, 42.0)
}

#[test]
fn arithmetic_precedence() -> Result<(), Error> {
    assert_number(&eval("1 + 2 * 3")?, 7.0)
}

#[test]
fn parens_override_precedence() -> Result<(), Error> {
    assert_number(&eval("(1 + 2) * 3")?, 9.0)
}

#[test]
fn exponentiation_right_associative() -> Result<(), Error> {
    assert_number(&eval("2 ** 3 ** 2")?, 512.0)
}

#[test]
fn string_concatenation() -> Result<(), Error> {
    assert_string(&eval("\"hello\" + \" \" + \"world\"")?, "hello world")
}

#[test]
fn number_string_concatenation() -> Result<(), Error> {
    assert_string(&eval("\"x = \" + (1 + 2)")?, "x = 3")
}

#[test]
fn strict_equality() -> Result<(), Error> {
    assert_boolean(&eval("1 === 1")?, true)?;
    assert_boolean(&eval("1 === \"1\"")?, false)
}

#[test]
fn loose_equality_string_number() -> Result<(), Error> {
    assert_boolean(&eval("1 == \"1\"")?, true)
}

#[test]
fn unary_minus() -> Result<(), Error> {
    assert_number(&eval("-5")?, -5.0)
}

#[test]
fn typeof_operator() -> Result<(), Error> {
    assert_string(&eval("typeof 42")?, "number")?;
    assert_string(&eval("typeof \"x\"")?, "string")?;
    assert_string(&eval("typeof true")?, "boolean")?;
    assert_string(&eval("typeof undefined")?, "undefined")?;
    assert_string(&eval("typeof null")?, "object")
}

#[test]
fn logical_short_circuit() -> Result<(), Error> {
    assert_number(&eval("1 || 2")?, 1.0)?;
    assert_number(&eval("0 || 2")?, 2.0)?;
    assert_number(&eval("1 && 2")?, 2.0)?;
    assert_number(&eval("0 && 2")?, 0.0)
}

#[test]
fn nullish_coalescing() -> Result<(), Error> {
    assert_number(&eval("null ?? 5")?, 5.0)?;
    assert_number(&eval("0 ?? 5")?, 0.0)
}

#[test]
fn conditional_expression() -> Result<(), Error> {
    assert_number(&eval("true ? 1 : 2")?, 1.0)?;
    assert_number(&eval("false ? 1 : 2")?, 2.0)
}

#[test]
fn bitwise_or() -> Result<(), Error> {
    assert_number(&eval("5 | 3")?, 7.0)
}

#[test]
fn left_shift() -> Result<(), Error> {
    assert_number(&eval("1 << 4")?, 16.0)
}

// ---------------------------------------------------------------------
// Control flow.

#[test]
fn variable_declaration() -> Result<(), Error> {
    assert_number(&eval("let x = 5; x")?, 5.0)
}

#[test]
fn assignment() -> Result<(), Error> {
    assert_number(&eval("let x = 5; x = 10; x")?, 10.0)
}

#[test]
fn compound_assignment() -> Result<(), Error> {
    assert_number(&eval("let x = 5; x += 3; x")?, 8.0)
}

#[test]
fn const_declaration() -> Result<(), Error> {
    assert_number(&eval("const x = 42; x")?, 42.0)
}

#[test]
fn if_statement() -> Result<(), Error> {
    assert_string(
        &eval("let r = \"\"; if (1 < 2) { r = \"yes\"; } else { r = \"no\"; } r")?,
        "yes",
    )
}

#[test]
fn while_loop() -> Result<(), Error> {
    assert_number(&eval("let i = 0; let s = 0; while (i < 10) { s += i; i += 1; } s")?, 45.0)
}

#[test]
fn for_loop() -> Result<(), Error> {
    assert_number(&eval("let s = 0; for (let i = 0; i < 10; i = i + 1) { s += i; } s")?, 45.0)
}

#[test]
fn do_while_loop() -> Result<(), Error> {
    assert_number(&eval("let i = 0; do { i += 1; } while (i < 5); i")?, 5.0)
}

#[test]
fn break_in_while() -> Result<(), Error> {
    assert_number(&eval("let i = 0; while (i < 100) { if (i === 5) { break; } i += 1; } i")?, 5.0)
}

#[test]
fn continue_in_while() -> Result<(), Error> {
    assert_number(
        &eval(
            "let i = 0; let evens = 0; while (i < 10) { i += 1; if (i % 2 === 1) { continue; } evens += 1; } evens",
        )?,
        5.0,
    )
}

// ---------------------------------------------------------------------
// Functions.

#[test]
fn function_declaration() -> Result<(), Error> {
    assert_number(&eval("function add(a, b) { return a + b; } add(3, 4)")?, 7.0)
}

#[test]
fn function_expression() -> Result<(), Error> {
    assert_number(&eval("const add = function(a, b) { return a + b; }; add(2, 5)")?, 7.0)
}

#[test]
fn arrow_function_concise() -> Result<(), Error> {
    assert_number(&eval("const double = x => x * 2; double(21)")?, 42.0)
}

#[test]
fn arrow_function_block() -> Result<(), Error> {
    assert_number(&eval("const add = (a, b) => { return a + b; }; add(10, 20)")?, 30.0)
}

#[test]
fn closure_captures_outer() -> Result<(), Error> {
    assert_number(
        &eval(
            "function makeCounter() {
                let n = 0;
                return function() { n += 1; return n; };
            }
            const c = makeCounter();
            c(); c(); c()",
        )?,
        3.0,
    )
}

#[test]
fn recursion() -> Result<(), Error> {
    assert_number(
        &eval(
            "function fact(n) {
                if (n <= 1) { return 1; }
                return n * fact(n - 1);
            }
            fact(5)",
        )?,
        120.0,
    )
}

#[test]
fn higher_order_map_pattern() -> Result<(), Error> {
    assert_number(
        &eval(
            "function apply(f, x) { return f(x); }
            const inc = x => x + 1;
            apply(inc, 41)",
        )?,
        42.0,
    )
}

#[test]
fn template_literal() -> Result<(), Error> {
    assert_string(&eval("const name = \"world\"; `hello, ${name}!`")?, "hello, world!")
}

// ---------------------------------------------------------------------
// Objects, arrays, and member access.

#[test]
fn object_literal_access() -> Result<(), Error> {
    assert_number(&eval("const o = { a: 1, b: 2 }; o.a + o.b")?, 3.0)
}

#[test]
fn object_computed_key() -> Result<(), Error> {
    assert_number(&eval("const o = { x: 10 }; o[\"x\"]")?, 10.0)
}

#[test]
fn object_shorthand() -> Result<(), Error> {
    assert_number(&eval("const a = 7; const o = { a }; o.a")?, 7.0)
}

#[test]
fn object_assignment() -> Result<(), Error> {
    assert_number(&eval("const o = { x: 1 }; o.x = 100; o.x")?, 100.0)
}

#[test]
fn array_literal_indexing() -> Result<(), Error> {
    assert_number(&eval("const a = [10, 20, 30]; a[1]")?, 20.0)
}

#[test]
fn array_length() -> Result<(), Error> {
    assert_number(&eval("[1, 2, 3, 4, 5].length")?, 5.0)
}

#[test]
fn array_spread() -> Result<(), Error> {
    assert_number(&eval("const a = [1, 2, 3]; const b = [...a, 4]; b[3]")?, 4.0)
}

#[test]
fn object_spread() -> Result<(), Error> {
    assert_number(&eval("const a = { x: 1 }; const b = { ...a, y: 2 }; b.x + b.y")?, 3.0)
}

#[test]
fn string_length() -> Result<(), Error> {
    assert_number(&eval("\"hello\".length")?, 5.0)
}

#[test]
fn nested_object() -> Result<(), Error> {
    assert_number(&eval("const o = { inner: { value: 42 } }; o.inner.value")?, 42.0)
}

#[test]
fn try_catch_recovers() -> Result<(), Error> {
    assert_string(&eval("let r = \"\"; try { throw \"oops\"; } catch (e) { r = e; } r")?, "oops")
}

#[test]
fn try_catch_finally() -> Result<(), Error> {
    assert_string(
        &eval(
            "let log = \"\";
            try { log += \"a\"; throw 1; } catch (e) { log += \"b\"; } finally { log += \"c\"; }
            log",
        )?,
        "abc",
    )
}

#[test]
fn getter_invokes_on_read_in_js_literal() -> Result<(), Error> {
    assert_number(&eval("const o = { get x() { return 7; } }; o.x + o.x")?, 14.0)
}

#[test]
fn setter_invokes_on_write_in_js_literal() -> Result<(), Error> {
    assert_number(
        &eval(
            "let backing = 0;
            const o = {
                get x() { return backing; },
                set x(v) { backing = v + 1; }
            };
            o.x = 5;
            o.x",
        )?,
        6.0,
    )
}

#[test]
fn data_init_can_replace_earlier_accessor_in_js_literal() -> Result<(), Error> {
    assert_number(&eval("const o = { get x() { return 42; }, x: 1 }; o.x")?, 1.0)
}

#[test]
fn accessor_can_replace_earlier_data_init_in_js_literal() -> Result<(), Error> {
    assert_number(&eval("const o = { x: 1, get x() { return 42; } }; o.x")?, 42.0)
}

#[test]
fn separate_get_and_set_combine_on_same_key_in_js_literal() -> Result<(), Error> {
    assert_number(
        &eval(
            "let backing = 0;
            const o = {
                get x() { return backing; },
                set x(v) { backing = v * 2; }
            };
            o.x = 5;
            o.x",
        )?,
        10.0,
    )
}

#[test]
fn shorthand_method_in_js_literal() -> Result<(), Error> {
    assert_number(&eval("const o = { greet() { return 7; } }; o.greet() + o.greet()")?, 14.0)
}

// ---------------------------------------------------------------------
// Accessors installed from Rust.

fn ok_value(_args: Vec<Value>, _this: Value, heap: Heap, fuel: Fuel) -> EvalResult {
    Ok((Outcome::Normal(num(7.0)), heap, fuel))
}

fn echo_arg_plus_one(args: Vec<Value>, _this: Value, heap: Heap, fuel: Fuel) -> EvalResult {
    let value = match args.first() {
        Some(Value::Number(n)) => num(f64::from_bits(*n) + 1.0),
        Some(_) | None => Value::Undefined,
    };
    Ok((Outcome::Normal(value), heap, fuel))
}

fn accessor_host() -> TestHost {
    TestHost { natives: vec![ok_value, echo_arg_plus_one] }
}

const OK_VALUE: NativeFn = NativeFn::Host(0);
const ECHO_ARG_PLUS_ONE: NativeFn = NativeFn::Host(1);

fn install_accessor_object(env: &Env, heap: Heap, pair: AccessorPair) -> (Env, Heap) {
    let obj = Object::empty().with_accessor("x".to_owned(), pair);
    let (obj_id, heap) = heap.alloc_object(obj);
    let (cell_id, heap) = heap.alloc_cell(Cell::new(Value::Object(obj_id), false));
    (env.extend_cell("o", cell_id), heap)
}

#[test]
fn getter_invokes_on_read() -> Result<(), Error> {
    let (env, heap) =
        install_accessor_object(&Env::empty(), Heap::new(), AccessorPair::new(Some(Value::Native(OK_VALUE)), None));
    let value = run_eval_with("o.x + o.x", env, heap, &accessor_host())?;
    assert_number(&value, 14.0)
}

#[test]
fn setter_invokes_on_write_assignment_returns_rhs() -> Result<(), Error> {
    let (env, heap) = install_accessor_object(
        &Env::empty(),
        Heap::new(),
        AccessorPair::new(None, Some(Value::Native(ECHO_ARG_PLUS_ONE))),
    );
    let value = run_eval_with("(o.x = 9)", env, heap, &accessor_host())?;
    assert_number(&value, 9.0)
}

#[test]
fn getter_without_setter_silently_ignores_write() -> Result<(), Error> {
    let (env, heap) =
        install_accessor_object(&Env::empty(), Heap::new(), AccessorPair::new(Some(Value::Native(OK_VALUE)), None));
    let value = run_eval_with("o.x = 999; o.x", env, heap, &accessor_host())?;
    assert_number(&value, 7.0)
}

#[test]
fn setter_without_getter_reads_as_undefined() -> Result<(), Error> {
    let (env, heap) = install_accessor_object(
        &Env::empty(),
        Heap::new(),
        AccessorPair::new(None, Some(Value::Native(ECHO_ARG_PLUS_ONE))),
    );
    let value = run_eval_with("typeof o.x", env, heap, &accessor_host())?;
    assert_string(&value, "undefined")
}

// ---------------------------------------------------------------------
// Natives supplied by the embedder.

fn add_one(args: Vec<Value>, _this: Value, heap: Heap, fuel: Fuel) -> EvalResult {
    let n = match args.first() {
        Some(Value::Number(n)) => f64::from_bits(*n),
        _other => 0.0,
    };
    Ok((Outcome::Normal(num(n + 1.0)), heap, fuel))
}

fn make_pair(args: Vec<Value>, _this: Value, heap: Heap, fuel: Fuel) -> EvalResult {
    let a = args.first().cloned().unwrap_or(Value::Undefined);
    let b = args.get(1).cloned().unwrap_or(Value::Undefined);
    let props = vec![("first".to_owned(), a), ("second".to_owned(), b)];
    let (id, heap) = heap.alloc_object(Object::from_properties(props));
    Ok((Outcome::Normal(Value::Object(id)), heap, fuel))
}

fn native_host() -> TestHost {
    TestHost { natives: vec![add_one, make_pair] }
}

const ADD_ONE: NativeFn = NativeFn::Host(0);
const MAKE_PAIR: NativeFn = NativeFn::Host(1);

fn run_with_natives(source: &str, bindings: Vec<(&str, NativeFn)>) -> Result<Value, Error> {
    let (env, heap) = bindings.into_iter().fold((Env::empty(), Heap::new()), |(env, heap), (name, f)| {
        let (cell_id, heap) = heap.alloc_cell(Cell::new(Value::Native(f), false));
        (env.extend_cell(name, cell_id), heap)
    });
    evaluate_program_with(&parse(source), env, heap, Fuel::new(10_000), &native_host()).map(|(v, _)| v)
}

#[test]
fn calls_native_returning_number() -> Result<(), Error> {
    let value = run_with_natives("addOne(41)", vec![("addOne", ADD_ONE)])?;
    assert_number(&value, 42.0)
}

#[test]
fn calls_native_returning_object() -> Result<(), Error> {
    let heap = Heap::new();
    let (cell_id, heap) = heap.alloc_cell(Cell::new(Value::Native(MAKE_PAIR), false));
    let env = Env::empty().extend_cell("pair", cell_id);
    let program = parse("const p = pair(1, 2); p.first + p.second");
    let (value, _) = evaluate_program_with(&program, env, heap, Fuel::new(10_000), &native_host())?;
    assert_number(&value, 3.0)
}

#[test]
fn new_on_native_returning_object_uses_returned_object() -> Result<(), Error> {
    let value = run_with_natives("const p = new pair(1, 2); p.first + p.second", vec![("pair", MAKE_PAIR)])?;
    assert_number(&value, 3.0)
}

#[test]
fn new_on_native_returning_non_object_falls_back_to_this() -> Result<(), Error> {
    let value = run_with_natives("typeof (new addOne(41))", vec![("addOne", ADD_ONE)])?;
    assert_string(&value, "object")
}

#[test]
fn new_on_native_passes_args_to_native_fn() -> Result<(), Error> {
    let value = run_with_natives("(new pair('alpha', 'beta')).first", vec![("pair", MAKE_PAIR)])?;
    assert_string(&value, "alpha")
}

// ---------------------------------------------------------------------
// Promises.

fn install_promise(env: &Env, heap: Heap, state: PromiseState) -> (Env, Heap) {
    let (promise_id, heap) = heap.alloc_promise(state);
    let (cell_id, heap) = heap.alloc_cell(Cell::new(Value::Promise(promise_id), false));
    (env.extend_cell("p", cell_id), heap)
}

fn install_promise_with_hooks(state: PromiseState) -> (Env, Heap) {
    let (env, heap) = install_promise(&Env::empty(), Heap::new(), state);
    install_test_hooks(env, heap)
}

#[test]
fn typeof_promise_is_object() -> Result<(), Error> {
    let (env, heap) = install_promise(&Env::empty(), Heap::new(), PromiseState::Resolved(num(7.0)));
    assert_string(&run_eval("typeof p", env, heap)?, "object")
}

#[test]
fn then_on_resolved_invokes_callback() -> Result<(), Error> {
    let (env, heap) = install_promise(&Env::empty(), Heap::new(), PromiseState::Resolved(num(7.0)));
    let value = run_eval(
        "let captured = -1;
        p.then(v => { captured = v; return v + 1; });
        captured",
        env,
        heap,
    )?;
    assert_number(&value, 7.0)
}

#[test]
fn then_on_rejected_passes_through_value() -> Result<(), Error> {
    let (env, heap) =
        install_promise(&Env::empty(), Heap::new(), PromiseState::Rejected(Value::String("boom".to_owned())));
    let value = run_eval(
        "let recovered = '';
        p.then(v => v + '!').then(null, e => { recovered = e; });
        recovered",
        env,
        heap,
    )?;
    assert_string(&value, "boom")
}

#[test]
fn catch_on_resolved_passes_through_value() -> Result<(), Error> {
    let (env, heap) = install_promise(&Env::empty(), Heap::new(), PromiseState::Resolved(num(42.0)));
    let value = run_eval(
        "let captured = -1;
        p.then(null, e => 999).then(v => { captured = v; });
        captured",
        env,
        heap,
    )?;
    assert_number(&value, 42.0)
}

#[test]
fn chained_then_propagates_callback_return() -> Result<(), Error> {
    let (env, heap) = install_promise(&Env::empty(), Heap::new(), PromiseState::Resolved(num(3.0)));
    let value = run_eval(
        "let final_value = -1;
        p.then(v => v * 2).then(v => v + 10).then(v => { final_value = v; });
        final_value",
        env,
        heap,
    )?;
    assert_number(&value, 16.0)
}

#[test]
fn pending_then_returns_pending_child_with_handler_queued() -> Result<(), Error> {
    let (env, heap) = install_promise(&Env::empty(), Heap::new(), PromiseState::Pending(Vec::new()));
    let value = run_eval(
        "let fired = false;
        const child = p.then(_v => { fired = true; });
        typeof child + ':' + fired",
        env,
        heap,
    )?;
    assert_string(&value, "object:false")
}

#[test]
fn then_without_callback_passes_through_resolution() -> Result<(), Error> {
    let (env, heap) = install_promise(&Env::empty(), Heap::new(), PromiseState::Resolved(num(99.0)));
    let value = run_eval(
        "let captured = -1;
        p.then().then(v => { captured = v; });
        captured",
        env,
        heap,
    )?;
    assert_number(&value, 99.0)
}

#[test]
fn promise_handler_carries_chained_id() -> Result<(), Error> {
    let (chained_id, _heap) = Heap::new().alloc_promise(PromiseState::Pending(Vec::new()));
    let handler = PromiseHandler::new(Some(num(1.0)), None, chained_id);
    let on_resolve_ok = matches!(handler.on_resolve(), Some(Value::Number(n)) if (f64::from_bits(*n) - 1.0).abs() < 1e-9);
    let on_reject_absent = handler.on_reject().is_none();
    let chained_matches = handler.chained() == chained_id;
    if on_resolve_ok && on_reject_absent && chained_matches {
        Ok(())
    } else {
        Err(Error::UncaughtException { rendered: "PromiseHandler fields did not round-trip".to_owned() })
    }
}

#[test]
fn resolve_drains_queued_then_handler() -> Result<(), Error> {
    let (env, heap) = install_promise_with_hooks(PromiseState::Pending(Vec::new()));
    let value = run_eval(
        "let captured = -1;
        p.then(v => { captured = v; });
        __resolve_promise(p, 42);
        captured",
        env,
        heap,
    )?;
    assert_number(&value, 42.0)
}

#[test]
fn reject_drains_queued_then_handler_second_arg() -> Result<(), Error> {
    let (env, heap) = install_promise_with_hooks(PromiseState::Pending(Vec::new()));
    let value = run_eval(
        "let captured = '';
        p.then(null, e => { captured = e; });
        __reject_promise(p, 'boom');
        captured",
        env,
        heap,
    )?;
    assert_string(&value, "boom")
}

#[test]
fn resolve_settles_chained_grandchild() -> Result<(), Error> {
    let (env, heap) = install_promise_with_hooks(PromiseState::Pending(Vec::new()));
    let value = run_eval(
        "let captured = -1;
        p.then(v => v * 2).then(v => { captured = v + 1; });
        __resolve_promise(p, 5);
        captured",
        env,
        heap,
    )?;
    assert_number(&value, 11.0)
}

#[test]
fn second_resolve_call_is_a_no_op() -> Result<(), Error> {
    let (env, heap) = install_promise_with_hooks(PromiseState::Pending(Vec::new()));
    let value = run_eval(
        "let captured = -1;
        p.then(v => { captured = v; });
        __resolve_promise(p, 7);
        __resolve_promise(p, 999);
        captured",
        env,
        heap,
    )?;
    assert_number(&value, 7.0)
}

#[test]
fn callback_throw_becomes_chained_rejection() -> Result<(), Error> {
    let (env, heap) = install_promise_with_hooks(PromiseState::Pending(Vec::new()));
    let value = run_eval(
        "let recovered = '';
        p.then(v => { throw 'oops:' + v; }).then(null, e => { recovered = e; });
        __resolve_promise(p, 9);
        recovered",
        env,
        heap,
    )?;
    assert_string(&value, "oops:9")
}

#[test]
fn multiple_then_handlers_on_one_pending_all_fire() -> Result<(), Error> {
    let (env, heap) = install_promise_with_hooks(PromiseState::Pending(Vec::new()));
    let value = run_eval(
        "let a = -1;
        let b = -1;
        p.then(v => { a = v; });
        p.then(v => { b = v + 100; });
        __resolve_promise(p, 5);
        a + b",
        env,
        heap,
    )?;
    assert_number(&value, 110.0)
}

// ---------------------------------------------------------------------
// Edge cases and error answers.

fn caught(source: &str) -> Result<Value, Error> {
    eval(&format!("let r = 'none'; try {{ {source} }} catch (e) {{ r = e; }} r"))
}

#[test]
fn assignment_to_const_throws_type_error() -> Result<(), Error> {
    assert_string(&eval("const x = 1; let r = ''; try { x = 2; } catch (e) { r = e; } r")?,
        "TypeError: assignment to constant or missing cell \"x\"")
}

#[test]
fn unbound_name_throws_reference_error() -> Result<(), Error> {
    assert_string(&caught("y;")?, "ReferenceError: y is not defined")
}

#[test]
fn uncaught_throw_reports_rendered_value() {
    match eval("throw \"boom\";") {
        Err(Error::UncaughtException { rendered }) => assert_eq!(rendered, "\"boom\""),
        other => panic!("expected an uncaught exception, got {other:?}"),
    }
}

#[test]
fn uncaught_reference_error_is_reported_quoted() {
    match eval("missing") {
        Err(Error::UncaughtException { rendered }) => {
            assert_eq!(rendered, "\"ReferenceError: missing is not defined\"")
        }
        other => panic!("expected an uncaught exception, got {other:?}"),
    }
}

#[test]
fn property_of_null_throws_type_error() -> Result<(), Error> {
    assert_string(&caught("null.x;")?, "TypeError: cannot access property \"x\" of non-object")
}

#[test]
fn calling_a_number_throws_type_error() -> Result<(), Error> {
    assert_string(&caught("(5)();")?, "TypeError: called value is not a function")
}

#[test]
fn assigning_to_a_literal_throws_type_error() -> Result<(), Error> {
    assert_string(&caught("1 = 2;")?, "TypeError: invalid assignment target")
}

#[test]
fn bigint_literal_throws_type_error() -> Result<(), Error> {
    assert_string(&caught("10n;")?, "TypeError: BigInt evaluation not implemented")
}

#[test]
fn string_index_reads_a_character() -> Result<(), Error> {
    assert_string(&eval("\"abc\"[1]")?, "b")?;
    assert_string(&eval("\"abc\"[\"+2\"]")?, "c")?;
    assert_string(&eval("\"abc\"[\"01\"]")?, "b")?;
    assert_string(&eval("typeof \"abc\"[3]")?, "undefined")?;
    assert_string(&eval("typeof \"abc\"[\"-1\"]")?, "undefined")
}

#[test]
fn array_hole_reads_undefined() -> Result<(), Error> {
    assert_string(&eval("typeof [1, , 3][1]")?, "undefined")?;
    assert_number(&eval("[1, , 3].length")?, 3.0)
}

#[test]
fn string_spread_gives_characters() -> Result<(), Error> {
    assert_string(&eval("const a = [...\"hi\"]; a[0] + a[1] + a.length")?, "hi2")
}

#[test]
fn object_spread_skips_length() -> Result<(), Error> {
    assert_string(&eval("const o = { ...[7, 8] }; typeof o.length")?, "undefined")?;
    assert_number(&eval("const o = { ...[7, 8] }; o[1]")?, 8.0)
}

#[test]
fn finally_return_overrides_try_return() -> Result<(), Error> {
    assert_number(&eval("function f() { try { return 1; } finally { return 2; } } f()")?, 2.0)
}

#[test]
fn normal_finally_keeps_try_completion() -> Result<(), Error> {
    assert_number(&eval("function f() { try { return 1; } finally { 3; } } f()")?, 1.0)
}

#[test]
fn new_with_primitive_return_gives_instance() -> Result<(), Error> {
    assert_number(&eval("function P() { this.v = 4; return 1; } const p = new P(); p.v")?, 4.0)
}

#[test]
fn parameter_default_applies_to_undefined_only() -> Result<(), Error> {
    assert_number(&eval("function f(a = 10) { return a; } f() + f(1)")?, 11.0)
}

#[test]
fn missing_arguments_are_undefined() -> Result<(), Error> {
    assert_string(&eval("function f(a, b) { return typeof b; } f(1)")?, "undefined")
}

#[test]
fn block_scoped_declaration_does_not_leak() -> Result<(), Error> {
    assert_string(&caught("{ let inner = 1; } inner;")?, "ReferenceError: inner is not defined")
}

#[test]
fn postfix_update_gives_old_value() -> Result<(), Error> {
    assert_number(&eval("let i = 5; const old = i++; old * 10 + i")?, 56.0)
}

#[test]
fn prefix_update_gives_new_value() -> Result<(), Error> {
    assert_number(&eval("let i = 5; const now = --i; now * 10 + i")?, 44.0)
}

#[test]
fn string_comparison_by_code_points() -> Result<(), Error> {
    assert_boolean(&eval("\"apple\" < \"banana\"")?, true)?;
    assert_boolean(&eval("\"b\" < \"a\"")?, false)?;
    assert_boolean(&eval("\"ab\" < \"abc\"")?, true)
}

#[test]
fn nan_is_not_equal_to_itself() -> Result<(), Error> {
    assert_boolean(&eval("NaN === NaN")?, false)?;
    assert_boolean(&eval("0 === -0")?, true)
}

#[test]
fn null_loosely_equals_undefined_only() -> Result<(), Error> {
    assert_boolean(&eval("null == undefined")?, true)?;
    assert_boolean(&eval("null == 0")?, false)
}

#[test]
fn number_to_string_forms() -> Result<(), Error> {
    assert_string(&eval("'' + (0 / 0)")?, "NaN")?;
    assert_string(&eval("'' + (1 / 0)")?, "Infinity")?;
    assert_string(&eval("'' + (-1 / 0)")?, "-Infinity")?;
    assert_string(&eval("'' + (-0)")?, "0")?;
    assert_string(&eval("'' + 2.5")?, "2.5")
}

#[test]
fn unsigned_shift_wraps_negative() -> Result<(), Error> {
    assert_number(&eval("-1 >>> 28")?, 15.0)
}

#[test]
fn for_loop_scope_is_restored() -> Result<(), Error> {
    assert_string(&caught("for (let k = 0; k < 2; k = k + 1) { } k;")?, "ReferenceError: k is not defined")
}

#[test]
fn infinite_loop_exhausts_fuel() {
    match evaluate_program(&parse("while (true) { }"), Fuel::new(1_000), &plain_host()) {
        Err(Error::FuelExhausted { limit }) => assert_eq!(limit, 1_000),
        other => panic!("expected fuel exhaustion, got {other:?}"),
    }
}

#[test]
fn unbounded_recursion_exhausts_fuel() {
    match evaluate_program(&parse("function f() { return f(); } f()"), Fuel::new(400), &plain_host()) {
        Err(Error::FuelExhausted { limit }) => assert_eq!(limit, 400),
        other => panic!("expected fuel exhaustion, got {other:?}"),
    }
}

#[test]
fn switch_is_unsupported() {
    match eval("switch (1) { }") {
        Err(Error::Unsupported { feature }) => assert_eq!(feature, "switch statement"),
        other => panic!("expected unsupported, got {other:?}"),
    }
}

#[test]
fn delete_is_unsupported() {
    match eval("const o = { a: 1 }; delete o.a") {
        Err(Error::Unsupported { feature }) => assert_eq!(feature, "delete operator"),
        other => panic!("expected unsupported, got {other:?}"),
    }
}

#[test]
fn in_operator_is_unsupported() {
    match eval("'a' in {}") {
        Err(Error::Unsupported { feature }) => assert_eq!(feature, "`in` / `instanceof` operators"),
        other => panic!("expected unsupported, got {other:?}"),
    }
}

#[test]
fn logical_assignment_is_unsupported() {
    match eval("let a = 0; a ||= 1") {
        Err(Error::Unsupported { feature }) => assert_eq!(feature, "logical-assignment operators (||=, &&=, ??=)"),
        other => panic!("expected unsupported, got {other:?}"),
    }
}

#[test]
fn destructuring_declaration_is_unsupported() {
    match eval("const [a] = [1];") {
        Err(Error::Unsupported { feature }) => assert_eq!(feature, "destructuring in variable declarations"),
        other => panic!("expected unsupported, got {other:?}"),
    }
}

#[test]
fn then_on_non_promise_throws_type_error() -> Result<(), Error> {
    let (env, heap) = install_promise(&Env::empty(), Heap::new(), PromiseState::Resolved(num(1.0)));
    let value = run_eval(
        "const t = p.then; let r = ''; try { t(x => x); } catch (e) { r = e; } r",
        env,
        heap,
    )?;
    assert_string(&value, "TypeError: Promise.prototype.then called on non-promise")
}

#[test]
fn rejection_without_handler_passes_through_to_catch() -> Result<(), Error> {
    let (env, heap) = install_promise_with_hooks(PromiseState::Pending(Vec::new()));
    let value = run_eval(
        "let seen = '';
        p.then(v => 'no').then(null, e => { seen = 'caught ' + e; });
        __reject_promise(p, 'bad');
        seen",
        env,
        heap,
    )?;
    assert_string(&value, "caught bad")
}

#[test]
fn settled_promise_ignores_second_rejection() -> Result<(), Error> {
    let (env, heap) = install_promise_with_hooks(PromiseState::Pending(Vec::new()));
    let value = run_eval(
        "let out = '';
        __resolve_promise(p, 'first');
        __reject_promise(p, 'second');
        p.then(v => { out = 'resolved ' + v; }, e => { out = 'rejected ' + e; });
        out",
        env,
        heap,
    )?;
    assert_string(&value, "resolved first")
}

#[test]
fn throw_from_for_test_reaches_catch() -> Result<(), Error> {
    assert_number(&eval("let r = 0; try { for (; missing(); ) { r = 5; } } catch (e) { r = r + 1; } r")?, 1.0)
}

#[test]
fn throw_from_for_update_reaches_catch() -> Result<(), Error> {
    assert_number(
        &eval("let r = 0; try { for (let i = 0; i < 3; missing()) { r = r + 1; } } catch (e) { r = r + 10; } r")?,
        11.0,
    )
}

#[test]
fn comparisons_with_nan_are_false() -> Result<(), Error> {
    assert_boolean(&eval("1 <= NaN")?, false)?;
    assert_boolean(&eval("1 >= NaN")?, false)?;
    assert_boolean(&eval("NaN <= NaN")?, false)?;
    assert_boolean(&eval("NaN < 1")?, false)?;
    assert_boolean(&eval("2 >= 1")?, true)
}

#[test]
fn blank_text_converts_to_zero() -> Result<(), Error> {
    assert_number(&eval("\"  \" * 1")?, 0.0)?;
    assert_number(&eval("\"\" - 0")?, 0.0)?;
    assert_number(&eval("\" 12 \" * 2")?, 24.0)
}

#[test]
fn lengths_count_characters_and_elements() -> Result<(), Error> {
    assert_number(&eval("\"\".length")?, 0.0)?;
    assert_number(&eval("[1, 2, 3].length")?, 3.0)?;
    assert_number(&eval("[...[1, 2], 3, ...[4]].length")?, 4.0)
}

#[test]
fn run_source_evaluates_text() -> Result<(), Error> {
    let (value, _heap) = boa_cat::run_source("let x = 1 + 2; x * 10", Fuel::new(DEFAULT_FUEL), &plain_host())?;
    assert_number(&value, 30.0)
}

#[test]
fn run_source_reports_front_end_errors() {
    let lexed = boa_cat::run_source("let s = \"abc", Fuel::new(DEFAULT_FUEL), &plain_host());
    assert!(matches!(lexed, Err(Error::Lex { .. })));
    let parsed = boa_cat::run_source("let x = ;", Fuel::new(DEFAULT_FUEL), &plain_host());
    assert!(matches!(parsed, Err(Error::Parse { .. })));
}

#[test]
fn increments_step_by_one() -> Result<(), Error> {
    assert_number(&eval("let i = 2147483647; i++; i")?, 2147483648.0)?;
    assert_number(&eval("let j = -1; ++j")?, 0.0)?;
    assert_number(&eval("let k = 0.5; k--; k")?, -0.5)?;
    assert_number(&eval("let n = 10; n--")?, 10.0)
}

#[test]
fn optional_chains_skip_on_nullish() -> Result<(), Error> {
    assert!(matches!(eval("let o = null; o?.x")?, Value::Undefined));
    assert!(matches!(eval("let a = undefined; a?.[0]")?, Value::Undefined));
    assert!(matches!(eval("let f = null; f?.(1)")?, Value::Undefined));
    assert!(matches!(eval("let o = {}; o.g?.()")?, Value::Undefined));
    assert_number(&eval("let o = { a: { b: 2 } }; o?.a.b")?, 2.0)?;
    assert_number(&eval("let o = { f() { return 3; } }; o?.f()")?, 3.0)?;
    assert_number(&eval("let o = { k: 5 }; let key = 'k'; o?.[key]")?, 5.0)?;
    assert_string(&eval("let r = ''; try { let o = {}; o.a.b; } catch (e) { r = 'caught'; } r")?, "caught")
}
