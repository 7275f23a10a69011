//! The library's laws and edge cases, checked on concrete values through
//! its Rust interface.

use boa_cat::ast::{AssignOp, BinaryOp, Expression, LiteralValue, Program, Statement, UnaryOp};
use boa_cat::call::{completion_to_outcome, construct_result};
use boa_cat::coercion::{loose_equals, same_value_zero, strict_equals, to_boolean, to_string};
use boa_cat::completion::Completion;
use boa_cat::env::{Binding, Env};
use boa_cat::error::Error;
use boa_cat::expression::eval;
use boa_cat::fuel::Fuel;
use boa_cat::heap::Heap;
use boa_cat::host::{Host, NumericOperator};
use boa_cat::literal::{build_array_object, spread_items, ObjectAcc};
use boa_cat::number::{integer_to_number, number_to_int32, wrap_to_i32};
use boa_cat::operator::{apply_binary, apply_unary};
use boa_cat::outcome::{step, EvalResult, Outcome};
use boa_cat::promise::{catch_impl, install_test_hooks, reject, resolve, then_impl, PromiseState};
use boa_cat::property::{compound_to_binary, promise_member};
use boa_cat::statement::eval_statement;
use boa_cat::text::{decimal, parse_index};
use boa_cat::value::{AccessorPair, Cell, NativeFn, Object, Value};
use boa_cat::{evaluate_program, finish_script};

struct Binary64;

impl Host for Binary64 {
    fn parse_number(&self, text: &str) -> u64 {
        text.parse::<f64>().unwrap_or(f64::NAN).to_bits()
    }
    fn format_number(&self, bits: u64) -> String {
        format!("{}", f64::from_bits(bits))
    }
    fn arithmetic(&self, operator: NumericOperator, lhs: u64, rhs: u64) -> u64 {
        let (a, b) = (f64::from_bits(lhs), f64::from_bits(rhs));
        (match operator {
            NumericOperator::Add => a + b,
            NumericOperator::Subtract => a - b,
            NumericOperator::Multiply => a * b,
            NumericOperator::Divide => a / b,
            NumericOperator::Remainder => a % b,
            NumericOperator::Exponentiation => a.powf(b),
        })
        .to_bits()
    }
    fn call_native(&self, _id: u64, _args: Vec<Value>, _this: Value, heap: Heap, fuel: Fuel) -> EvalResult {
        Ok((Outcome::Normal(Value::Undefined), heap, fuel))
    }
}

fn num(n: f64) -> Value {
    Value::Number(n.to_bits())
}

fn is_number(v: &Value, n: f64) -> bool {
    matches!(v, Value::Number(b) if f64::from_bits(*b) == n)
}

fn string_literal(s: &str) -> Expression {
    Expression::Literal(LiteralValue::String(s.to_owned()))
}

#[test]
fn fuel_spend_accounting() {
    let f = Fuel::new(2);
    let g = f.spend().expect("one step");
    assert_eq!((g.limit(), g.remaining()), (2, 1));
    let h = g.spend().expect("two steps");
    assert_eq!((h.limit(), h.remaining()), (2, 0));
    assert_eq!(h.spend(), Err(Error::FuelExhausted { limit: 2 }));
}

#[test]
fn evaluation_spends_one_step_per_expression() {
    let expr = Expression::Binary {
        operator: BinaryOp::Add,
        left: Box::new(Expression::Literal(LiteralValue::Number(1f64.to_bits()))),
        right: Box::new(Expression::Literal(LiteralValue::Number(2f64.to_bits()))),
    };
    let (outcome, _heap, fuel) = eval(&expr, &Env::empty(), Heap::new(), Fuel::new(10), &Binary64).expect("evaluates");
    assert!(matches!(outcome, Outcome::Normal(ref v) if is_number(v, 3.0)));
    assert_eq!(fuel.remaining(), 7);
    assert_eq!(fuel.limit(), 10);
}

#[test]
fn evaluation_without_fuel_fails_with_the_budget() {
    let result = eval(&string_literal("x"), &Env::empty(), Heap::new(), Fuel::new(0), &Binary64);
    assert!(matches!(result, Err(Error::FuelExhausted { limit: 0 })));
    let stmt = Statement::Empty;
    let result = eval_statement(&stmt, &Env::empty(), Heap::new(), Fuel::new(0), &Binary64);
    assert!(matches!(result, Err(Error::FuelExhausted { limit: 0 })));
}

#[test]
fn budget_runs_out_mid_expression() {
    let expr = Expression::Binary {
        operator: BinaryOp::Add,
        left: Box::new(string_literal("a")),
        right: Box::new(string_literal("b")),
    };
    let result = eval(&expr, &Env::empty(), Heap::new(), Fuel::new(2), &Binary64);
    assert!(matches!(result, Err(Error::FuelExhausted { limit: 2 })));
}

#[test]
fn simple_statements_complete_at_once() {
    let (c, _h, _e, f) = eval_statement(&Statement::Break, &Env::empty(), Heap::new(), Fuel::new(3), &Binary64)
        .expect("completes");
    assert!(matches!(c, Completion::Break));
    assert_eq!(f.remaining(), 2);
    let (c, _h, _e, _f) = eval_statement(&Statement::Continue, &Env::empty(), Heap::new(), Fuel::new(3), &Binary64)
        .expect("completes");
    assert!(matches!(c, Completion::Continue));
    let result = eval_statement(&Statement::ForOf, &Env::empty(), Heap::new(), Fuel::new(3), &Binary64);
    assert!(matches!(result, Err(Error::Unsupported { feature: "for-of statement" })));
}

#[test]
fn module_programs_are_unsupported() {
    let result = evaluate_program(&Program::Module, Fuel::new(10), &Binary64);
    assert!(matches!(result, Err(Error::Unsupported { feature: "module evaluation (v0 supports Script only)" })));
}

#[test]
fn empty_script_gives_undefined() {
    let (v, heap) = evaluate_program(&Program::Script { body: Vec::new() }, Fuel::new(0), &Binary64).expect("runs");
    assert!(matches!(v, Value::Undefined));
    assert_eq!(heap.object_count(), 0);
}

#[test]
fn initial_environment_binds_nan_and_infinity() {
    let body = vec![Statement::Expression {
        expression: Expression::Binary {
            operator: BinaryOp::StrictEqual,
            left: Box::new(Expression::Identifier("Infinity".to_owned())),
            right: Box::new(Expression::Identifier("Infinity".to_owned())),
        },
    }];
    let (v, _) = evaluate_program(&Program::Script { body }, Fuel::new(10), &Binary64).expect("runs");
    assert!(matches!(v, Value::Boolean(true)));
}

#[test]
fn finish_script_reports_uncaught_throw() {
    let r = finish_script(Completion::Throw(Value::String("no".to_owned())), Heap::new(), &Binary64);
    assert!(matches!(r, Err(Error::UncaughtException { ref rendered }) if rendered == "\"no\""));
    let r = finish_script(Completion::Break, Heap::new(), &Binary64);
    assert!(matches!(r, Ok((Value::Undefined, _))));
    let r = finish_script(Completion::Return(num(4.0)), Heap::new(), &Binary64);
    assert!(matches!(r, Ok((ref v, _)) if is_number(v, 4.0)));
}

#[test]
fn render_quotes_strings_and_names_handles() {
    let host = Binary64;
    assert_eq!(Value::String("a\"b".to_owned()).render(&host), "\"a\\\"b\"");
    assert_eq!(Value::String("hi".to_owned()).render(&host), "\"hi\"");
    assert_eq!(Value::Undefined.render(&host), "undefined");
    assert_eq!(Value::Native(NativeFn::PromiseThen).render(&host), "function [native code]");
    let (id, _heap) = Heap::new().alloc_object(Object::empty());
    assert_eq!(Value::Object(id).render(&host), "obj#0");
    assert_eq!(num(120.0).render(&host), "120");
}

#[test]
fn lookup_finds_the_newest_binding() {
    let heap = Heap::new();
    let (a, heap) = heap.alloc_cell(Cell::new(num(1.0), true));
    let (b, _heap) = heap.alloc_cell(Cell::new(num(2.0), true));
    let env = Env::empty().extend_cell("x", a).extend_cell("y", b).extend_cell("x", b);
    assert!(matches!(env.lookup("x"), Some(Binding::Cell(c)) if *c == b));
    assert!(matches!(env.lookup("y"), Some(Binding::Cell(c)) if *c == b));
    assert!(env.lookup("z").is_none());
    assert!(Env::empty().lookup("x").is_none());
}

#[test]
fn heap_reads_back_what_was_stored() {
    let heap = Heap::new();
    let (first, heap) = heap.alloc_object(Object::empty().with("k".to_owned(), num(1.0)));
    let (second, heap) = heap.alloc_object(Object::empty());
    assert_ne!(first, second);
    let heap = heap
        .store_object(second, Object::empty().with("k".to_owned(), num(2.0)))
        .expect("allocated id");
    assert!(is_number(heap.object(first).and_then(|o| o.get("k")).expect("kept"), 1.0));
    assert!(is_number(heap.object(second).and_then(|o| o.get("k")).expect("stored"), 2.0));
    let (cell, heap) = heap.alloc_cell(Cell::new(num(3.0), false));
    assert!(heap.store_cell(cell, num(4.0)).is_err());
}

#[test]
fn data_and_accessor_properties_exclude_each_other() {
    let obj = Object::empty().with("x".to_owned(), num(1.0));
    let obj = obj.with_accessor("x".to_owned(), AccessorPair::new(Some(num(2.0)), None));
    assert!(obj.get("x").is_none());
    assert!(obj.accessor("x").is_some());
    let obj = obj.with("x".to_owned(), num(3.0));
    assert!(obj.accessor("x").is_none());
    assert!(is_number(obj.get("x").expect("data"), 3.0));
    let obj = Object::from_properties(vec![("a".to_owned(), num(1.0)), ("a".to_owned(), num(2.0))]);
    assert!(is_number(obj.get("a").expect("last wins"), 2.0));
    assert_eq!(obj.properties().len(), 1);
}

#[test]
fn object_acc_lets_accessors_win_over_spread_data() {
    let acc = ObjectAcc::new().with_accessor_half("x".to_owned(), num(1.0), true);
    let acc = acc.with_spread_data(&vec![("x".to_owned(), num(5.0)), ("length".to_owned(), num(9.0))]);
    let obj = acc.into_object();
    assert!(obj.get("x").is_none());
    assert!(obj.get("length").is_none());
    assert!(obj.accessor("x").is_some());
}

#[test]
fn equality_laws_on_concrete_values() {
    let host = Binary64;
    let nan = num(f64::NAN);
    assert!(!strict_equals(&nan, &nan));
    assert!(same_value_zero(&nan, &nan));
    assert!(strict_equals(&num(0.0), &num(-0.0)));
    assert!(loose_equals(&Value::Null, &Value::Undefined, &host));
    assert!(!loose_equals(&Value::Null, &num(0.0), &host));
    assert!(loose_equals(&Value::Boolean(true), &num(1.0), &host));
    assert!(loose_equals(&Value::String("1".to_owned()), &num(1.0), &host));
    assert!(!to_boolean(&Value::String(String::new())));
    assert!(to_boolean(&Value::Promise(Heap::new().alloc_promise(PromiseState::Pending(Vec::new())).0)));
}

#[test]
fn to_string_forms() {
    let host = Binary64;
    let heap = Heap::new();
    assert_eq!(to_string(&num(f64::INFINITY), &heap, &host), "Infinity");
    assert_eq!(to_string(&num(-0.0), &heap, &host), "0");
    assert_eq!(to_string(&Value::Null, &heap, &host), "null");
    let (id, heap) = heap.alloc_object(Object::empty());
    assert_eq!(to_string(&Value::Object(id), &heap, &host), "[object Object#0]");
}

#[test]
fn index_texts_parse_like_usize() {
    assert_eq!(parse_index("0"), Some(0));
    assert_eq!(parse_index("+5"), Some(5));
    assert_eq!(parse_index("007"), Some(7));
    assert_eq!(parse_index(""), None);
    assert_eq!(parse_index("+"), None);
    assert_eq!(parse_index("-1"), None);
    assert_eq!(parse_index("1.5"), None);
    assert_eq!(parse_index("99999999999999999999999"), None);
    assert_eq!(decimal(1234), "1234");
    assert_eq!(decimal(0), "0");
}

#[test]
fn arrays_hold_elements_under_decimal_keys() {
    let host = Binary64;
    let obj = build_array_object(&vec![num(10.0), Value::Null]);
    assert!(is_number(obj.get("0").expect("element"), 10.0));
    assert!(matches!(obj.get("1"), Some(Value::Null)));
    assert!(is_number(obj.get("length").expect("length"), 2.0));
    assert_eq!(obj.properties().len(), 3);
    let (id, heap) = Heap::new().alloc_object(obj);
    let items = spread_items(&Value::Object(id), &heap, &host);
    assert_eq!(items.len(), 2);
    assert!(is_number(&items[0], 10.0));
    let chars = spread_items(&Value::String("héllo".to_owned()), &heap, &host);
    assert_eq!(chars.len(), 5);
    assert!(matches!(&chars[1], Value::String(s) if s == "é"));
    assert!(spread_items(&num(1.0), &heap, &host).is_empty());
}

#[test]
fn compound_assignment_operators_map_to_binary_ones() {
    assert_eq!(compound_to_binary(AssignOp::AddAssign), Ok(BinaryOp::Add));
    assert_eq!(compound_to_binary(AssignOp::UnsignedRightShiftAssign), Ok(BinaryOp::UnsignedRightShift));
    assert!(matches!(
        compound_to_binary(AssignOp::NullishCoalescingAssign),
        Err(Error::Unsupported { feature: "logical-assignment operators (||=, &&=, ??=)" })
    ));
}

#[test]
fn constructor_results() {
    let (id, heap) = Heap::new().alloc_object(Object::empty());
    let (other, _heap) = heap.alloc_object(Object::empty());
    let instance = Value::Object(id);
    assert!(matches!(construct_result(Outcome::Normal(num(1.0)), instance.clone()), Outcome::Normal(Value::Object(i)) if i == id));
    assert!(matches!(construct_result(Outcome::Normal(Value::Object(other)), instance.clone()), Outcome::Normal(Value::Object(i)) if i == other));
    assert!(matches!(construct_result(Outcome::Throw(Value::Null), instance), Outcome::Throw(Value::Null)));
    assert!(matches!(completion_to_outcome(Completion::Continue), Outcome::Normal(Value::Undefined)));
    assert!(matches!(completion_to_outcome(Completion::Return(Value::Null)), Outcome::Normal(Value::Null)));
}

#[test]
fn promises_expose_then_and_catch_only() {
    assert!(matches!(promise_member("then"), Outcome::Normal(Value::Native(NativeFn::PromiseThen))));
    assert!(matches!(promise_member("catch"), Outcome::Normal(Value::Native(NativeFn::PromiseCatch))));
    assert!(matches!(promise_member("finally"), Outcome::Normal(Value::Undefined)));
}

#[test]
fn settled_promise_never_changes() {
    let host = Binary64;
    let (p, heap) = Heap::new().alloc_promise(PromiseState::Resolved(num(7.0)));
    let (outcome, heap, fuel) = resolve(p, num(9.0), heap, Fuel::new(5), &host).expect("no-op");
    assert!(matches!(outcome, Outcome::Normal(Value::Undefined)));
    assert_eq!(fuel.remaining(), 5);
    let (outcome, heap, _) = reject(p, num(9.0), heap, Fuel::new(5), &host).expect("no-op");
    assert!(matches!(outcome, Outcome::Normal(Value::Undefined)));
    assert!(matches!(heap.promise(p), Some(PromiseState::Resolved(v)) if is_number(v, 7.0)));
}

#[test]
fn resolving_a_pending_promise_settles_it() {
    let host = Binary64;
    let (p, heap) = Heap::new().alloc_promise(PromiseState::Pending(Vec::new()));
    let (_, heap, _) = resolve(p, num(3.0), heap, Fuel::new(5), &host).expect("settles");
    assert!(matches!(heap.promise(p), Some(PromiseState::Resolved(v)) if is_number(v, 3.0)));
}

#[test]
fn then_on_pending_queues_a_handler() {
    let host = Binary64;
    let (p, heap) = Heap::new().alloc_promise(PromiseState::Pending(Vec::new()));
    let (outcome, heap, _) =
        then_impl(vec![Value::Null], Value::Promise(p), heap, Fuel::new(5), &host).expect("queues");
    let child = match outcome {
        Outcome::Normal(Value::Promise(c)) => c,
        other => panic!("expected a promise, got {other:?}"),
    };
    assert_eq!(child.raw(), 1);
    match heap.promise(p) {
        Some(PromiseState::Pending(handlers)) => {
            assert_eq!(handlers.len(), 1);
            assert_eq!(handlers[0].chained(), child);
        }
        other => panic!("expected pending, got {other:?}"),
    }
    assert!(matches!(heap.promise(child), Some(PromiseState::Pending(hs)) if hs.is_empty()));
}

#[test]
fn then_passes_settlement_through_without_callback() {
    let host = Binary64;
    let (p, heap) = Heap::new().alloc_promise(PromiseState::Rejected(num(2.0)));
    let (outcome, heap, _) = then_impl(vec![num(1.0)], Value::Promise(p), heap, Fuel::new(5), &host).expect("passes");
    match outcome {
        Outcome::Normal(Value::Promise(c)) => {
            assert!(matches!(heap.promise(c), Some(PromiseState::Rejected(v)) if is_number(v, 2.0)))
        }
        other => panic!("expected a promise, got {other:?}"),
    }
    let (outcome, _, _) = then_impl(Vec::new(), num(1.0), Heap::new(), Fuel::new(5), &host).expect("throws");
    assert!(matches!(outcome, Outcome::Throw(Value::String(ref s)) if s == "TypeError: Promise.prototype.then called on non-promise"));
}

#[test]
fn test_hooks_are_constant_natives() {
    let (env, heap) = install_test_hooks(Env::empty(), Heap::new());
    assert_eq!(heap.cell_count(), 2);
    for (name, native) in [("__resolve_promise", NativeFn::ResolvePromise), ("__reject_promise", NativeFn::RejectPromise)] {
        match env.lookup(name) {
            Some(Binding::Cell(c)) => {
                let cell = heap.cell(*c).expect("allocated");
                assert!(!cell.is_mutable());
                assert!(matches!(cell.value(), Value::Native(n) if *n == native));
            }
            other => panic!("expected a cell binding, got {other:?}"),
        }
    }
}

#[test]
fn outcome_combinators_pass_throws_through() {
    let doubled = Outcome::Normal(num(2.0)).map_normal(|v| match v {
        Value::Number(b) => num(f64::from_bits(b) * 2.0),
        other => other,
    });
    assert!(matches!(doubled, Outcome::Normal(ref v) if is_number(v, 4.0)));
    assert!(matches!(Outcome::Throw(Value::Null).map_normal(|_| num(1.0)), Outcome::Throw(Value::Null)));
    let r = step(Ok((Outcome::Throw(Value::Null), Heap::new(), Fuel::new(3))), |_, h, f| {
        Ok((Outcome::Normal(num(1.0)), h, f))
    });
    assert!(matches!(r, Ok((Outcome::Throw(Value::Null), _, _))));
    let r = step(Ok((Outcome::Normal(num(1.0)), Heap::new(), Fuel::new(3))), |v, h, f| {
        Ok((Outcome::Normal(v), h, f))
    });
    assert!(matches!(r, Ok((Outcome::Normal(ref v), _, _)) if is_number(v, 1.0)));
    let r = step(Err(Error::BigIntUnsupported), |v, h, f| Ok((Outcome::Normal(v), h, f)));
    assert!(matches!(r, Err(Error::BigIntUnsupported)));
}

#[test]
fn to_int32_truncates_and_wraps() {
    let cases: [(f64, i32); 10] = [
        (0.0, 0),
        (-0.0, 0),
        (1.9, 1),
        (-1.9, -1),
        (4294967301.0, 5),
        (3_000_000_000.0, -1_294_967_296),
        (-2147483649.0, 2147483647),
        (1e300, 0),
        (4.5e-320, 0),
        (9007199254740993.0, 0),
    ];
    for (x, expected) in cases {
        assert_eq!(number_to_int32(x.to_bits()), expected, "ToInt32({x})");
    }
    assert_eq!(number_to_int32(f64::NAN.to_bits()), 0);
    assert_eq!(number_to_int32(f64::INFINITY.to_bits()), 0);
    assert_eq!(number_to_int32(f64::NEG_INFINITY.to_bits()), 0);
}

#[test]
fn integers_encode_as_binary64() {
    for v in [0i64, 1, -1, 2, 7, -7, 1023, 2147483647, -2147483648, 4294967295, -4294967295] {
        assert_eq!(integer_to_number(v), (v as f64).to_bits(), "encoding of {v}");
    }
    assert_eq!(wrap_to_i32(4294967296 + 12), 12);
    assert_eq!(wrap_to_i32(-1), -1);
    assert_eq!(wrap_to_i32(2147483648), -2147483648);
}

#[test]
fn shift_and_bitwise_operators_on_integers() {
    let host = Binary64;
    let heap = Heap::new();
    let apply = |op: BinaryOp, a: f64, b: f64| match apply_binary(op, &num(a), &num(b), &heap, &host) {
        Ok(Value::Number(bits)) => f64::from_bits(bits),
        other => panic!("unexpected {other:?}"),
    };
    assert_eq!(apply(BinaryOp::LeftShift, 1.0, 31.0), -2147483648.0);
    assert_eq!(apply(BinaryOp::LeftShift, 3.0, 33.0), 6.0);
    assert_eq!(apply(BinaryOp::RightShift, -9.0, 1.0), -5.0);
    assert_eq!(apply(BinaryOp::RightShift, -1.0, 31.0), -1.0);
    assert_eq!(apply(BinaryOp::UnsignedRightShift, -1.0, 28.0), 15.0);
    assert_eq!(apply(BinaryOp::UnsignedRightShift, -1.0, 0.0), 4294967295.0);
    assert_eq!(apply(BinaryOp::BitwiseOr, 5.5, 2.0), 7.0);
    assert_eq!(apply(BinaryOp::BitwiseXor, -1.0, 5.0), -6.0);
    assert_eq!(apply(BinaryOp::BitwiseAnd, 4294967295.0, 12.0), 12.0);
    match apply_unary(UnaryOp::BitwiseNot, &num(5.0), &heap, &host) {
        Ok(Value::Number(bits)) => assert_eq!(f64::from_bits(bits), -6.0),
        other => panic!("unexpected {other:?}"),
    }
}

#[test]
fn loose_equality_is_symmetric_on_parsed_strings() {
    let host = Binary64;
    let pairs = [
        (Value::String("1".to_owned()), num(1.0)),
        (Value::String(" 2 ".to_owned()), num(2.0)),
        (Value::String("".to_owned()), num(0.0)),
        (Value::String("x".to_owned()), num(0.0)),
        (Value::String("1".to_owned()), Value::Boolean(true)),
        (Value::Null, Value::Undefined),
        (Value::Null, num(0.0)),
    ];
    let expected = [true, true, true, false, true, true, false];
    for ((a, b), e) in pairs.iter().zip(expected) {
        assert_eq!(loose_equals(a, b, &host), e, "{a:?} == {b:?}");
        assert_eq!(loose_equals(b, a, &host), e, "{b:?} == {a:?}");
    }
}

#[test]
fn uint32_and_int32_agree_on_strings() {
    let host = Binary64;
    let heap = Heap::new();
    let shifted = |op: BinaryOp, text: &str| match apply_binary(op, &Value::String(text.to_owned()), &num(0.0), &heap, &host) {
        Ok(Value::Number(bits)) => f64::from_bits(bits),
        other => panic!("unexpected {other:?}"),
    };
    assert_eq!(shifted(BinaryOp::UnsignedRightShift, "-1"), 4294967295.0);
    assert_eq!(shifted(BinaryOp::RightShift, "-1"), -1.0);
    assert_eq!(shifted(BinaryOp::UnsignedRightShift, " 4294967297 "), 1.0);
    assert_eq!(shifted(BinaryOp::RightShift, " 4294967297 "), 1.0);
    assert_eq!(shifted(BinaryOp::UnsignedRightShift, "  "), 0.0);
}

#[test]
fn fuel_runs_out_after_its_budget() {
    let mut f = Fuel::new(3);
    for k in 1..=3u64 {
        f = f.spend().expect("budget left");
        assert_eq!(f.remaining(), 3 - k);
        assert_eq!(f.limit(), 3);
    }
    assert_eq!(f.spend(), Err(Error::FuelExhausted { limit: 3 }));
}

#[test]
fn catch_on_settled_promise_is_then_with_undefined() {
    let host = Binary64;
    let settled = || Heap::new().alloc_promise(PromiseState::Rejected(num(7.0)));
    let (id, heap) = settled();
    let caught = catch_impl(vec![], Value::Promise(id), heap, Fuel::new(10), &host);
    let (id2, heap2) = settled();
    let thened = then_impl(vec![Value::Undefined, Value::Undefined], Value::Promise(id2), heap2, Fuel::new(10), &host);
    match (caught, thened) {
        (Ok((Outcome::Normal(Value::Promise(p)), h, f)), Ok((Outcome::Normal(Value::Promise(q)), h2, f2))) => {
            assert_eq!(p, q);
            assert_eq!(f, f2);
            assert!(matches!(h.promise(p), Some(PromiseState::Rejected(v)) if is_number(v, 7.0)));
            assert!(matches!(h2.promise(q), Some(PromiseState::Rejected(v)) if is_number(v, 7.0)));
        },
        other => panic!("unexpected {other:?}"),
    }
}

#[test]
fn integer_sums_and_differences_are_exact() {
    let host = Binary64;
    let heap = Heap::new();
    let bits = |op: BinaryOp, a: f64, b: f64| match apply_binary(op, &num(a), &num(b), &heap, &host) {
        Ok(Value::Number(bits)) => bits,
        other => panic!("unexpected {other:?}"),
    };
    assert_eq!(bits(BinaryOp::Subtract, 5.0, 3.0), 2.0f64.to_bits());
    assert_eq!(bits(BinaryOp::Add, -1.0, 1.0), 0.0f64.to_bits());
    assert_eq!(bits(BinaryOp::Subtract, 7.0, 7.0), 0.0f64.to_bits());
    assert_eq!(bits(BinaryOp::Add, 2147483647.0, 1.0), 2147483648.0f64.to_bits());
    assert_eq!(bits(BinaryOp::Add, -2147483648.0, -2147483648.0), (-4294967296.0f64).to_bits());
    assert_eq!(bits(BinaryOp::Subtract, -2147483648.0, 2147483647.0), (-4294967295.0f64).to_bits());
    assert_eq!(bits(BinaryOp::Add, 0.5, 0.25), 0.75f64.to_bits());
    assert_eq!(bits(BinaryOp::Subtract, -0.0, 0.0), (-0.0f64).to_bits());
}

#[test]
fn properties_come_in_name_order() {
    let obj = Object::empty()
        .with("b".to_owned(), num(1.0))
        .with("a".to_owned(), num(2.0))
        .with("ab".to_owned(), num(3.0))
        .with("B".to_owned(), num(4.0))
        .with("a".to_owned(), num(5.0));
    let keys: Vec<&str> = obj.properties().iter().map(|(k, _)| k.as_str()).collect();
    assert_eq!(keys, vec!["B", "a", "ab", "b"]);
    assert!(is_number(obj.get("a").expect("a is set"), 5.0));
}

#[test]
fn strings_join_numbers_in_order() {
    let host = Binary64;
    let heap = Heap::new();
    let joined = |a: Value, b: Value| match apply_binary(BinaryOp::Add, &a, &b, &heap, &host) {
        Ok(Value::String(s)) => s,
        other => panic!("unexpected {other:?}"),
    };
    assert_eq!(joined(Value::String("x = ".to_owned()), num(3.0)), "x = 3");
    assert_eq!(joined(num(1.0), Value::String("2".to_owned())), "12");
    assert_eq!(joined(num(0.5), Value::String("!".to_owned())), "0.5!");
}

#[test]
fn integer_products_quotients_and_powers_are_exact() {
    let host = Binary64;
    let heap = Heap::new();
    let bits = |op: BinaryOp, a: f64, b: f64| match apply_binary(op, &num(a), &num(b), &heap, &host) {
        Ok(Value::Number(bits)) => bits,
        other => panic!("unexpected {other:?}"),
    };
    assert_eq!(bits(BinaryOp::Multiply, 3.0, 10.0), 30.0f64.to_bits());
    assert_eq!(bits(BinaryOp::Multiply, -4.0, 0.0), (-0.0f64).to_bits());
    assert_eq!(bits(BinaryOp::Multiply, 65536.0, 65536.0), 4294967296.0f64.to_bits());
    assert_eq!(bits(BinaryOp::Divide, -12.0, 4.0), (-3.0f64).to_bits());
    assert_eq!(bits(BinaryOp::Divide, 0.0, -4.0), (-0.0f64).to_bits());
    assert_eq!(bits(BinaryOp::Divide, 7.0, 2.0), 3.5f64.to_bits());
    assert_eq!(bits(BinaryOp::Remainder, -7.0, 2.0), (-1.0f64).to_bits());
    assert_eq!(bits(BinaryOp::Remainder, 7.0, -2.0), 1.0f64.to_bits());
    assert_eq!(bits(BinaryOp::Remainder, -4.0, 2.0), (-0.0f64).to_bits());
    assert!(f64::from_bits(bits(BinaryOp::Remainder, 4.0, 0.0)).is_nan());
    assert_eq!(bits(BinaryOp::Exponentiation, 2.0, 9.0), 512.0f64.to_bits());
    assert_eq!(bits(BinaryOp::Exponentiation, -3.0, 3.0), (-27.0f64).to_bits());
    assert_eq!(bits(BinaryOp::Exponentiation, 2.0, 40.0), 1099511627776.0f64.to_bits());
    assert_eq!(bits(BinaryOp::Exponentiation, 2.0, -1.0), 0.5f64.to_bits());
}

#[test]
fn integer_text_is_written_and_read_exactly() {
    let host = Binary64;
    let heap = Heap::new();
    assert_eq!(to_string(&num(3.0), &heap, &host), "3");
    assert_eq!(to_string(&num(-2147483648.0), &heap, &host), "-2147483648");
    assert_eq!(to_string(&num(0.5), &heap, &host), "0.5");
    assert_eq!(num(-17.0).render(&host), "-17");
    let parsed = |t: &str| match apply_binary(BinaryOp::Subtract, &Value::String(t.to_owned()), &num(0.0), &heap, &host) {
        Ok(Value::Number(bits)) => bits,
        other => panic!("unexpected {other:?}"),
    };
    assert_eq!(parsed(" 12 "), 12.0f64.to_bits());
    assert_eq!(parsed("+007"), 7.0f64.to_bits());
    assert_eq!(parsed("-2147483648"), (-2147483648.0f64).to_bits());
    assert_eq!(parsed("-0"), (-0.0f64).to_bits());
    assert_eq!(parsed("2.5"), 2.5f64.to_bits());
    assert!(f64::from_bits(parsed("-+5")).is_nan());
}
