//! Binary and unary operator semantics per ECMA-262.

use vstd::prelude::*;
use vstd::arithmetic::power::pow;

use crate::ast::{BinaryOp, UnaryOp};
use crate::coercion::{
    loose_admits, loose_equals, loose_parses, spec_loose_equals, spec_non_string_to_number, spec_strict_equals,
    spec_to_boolean, strict_equals, text_admits, to_boolean, to_int32, to_number, to_string,
    to_uint32, int32_admits, number_admits, uint32_admits,
};
use crate::error::Error;
use crate::heap::Heap;
use crate::host::{Host, NumericOperator};
use crate::number::{
    encodes_integer, integer_to_number, is_nan, negate, numeric_lt, small_integer, spec_is_nan, spec_negate,
    spec_numeric_eq, spec_numeric_lt, spec_small_integer, spec_wrap_i32, wrap_to_i32,
};
use vstd::arithmetic::div_mod::{
    lemma_div_is_ordered_by_denominator, lemma_div_pos_is_pos, lemma_fundamental_div_mod,
    lemma_fundamental_div_mod_converse,
};
use vstd::arithmetic::power2::{lemma2_to64, lemma_pow2_pos, lemma_pow2_strictly_increases, pow2};
use vstd::bits::{lemma_u32_shr_is_div, lemma_u64_pow2_no_overflow, lemma_u64_shl_is_mul};
use crate::text::{concat, spec_text_lt, text_lt};
use crate::value::Value;

verus! {

/// The abstract relational comparison of two numbers: undefined (`None`)
/// when either is NaN, else whether the first is below the second.
pub open spec fn spec_compare_numbers(a: u64, b: u64) -> Option<bool> {
    if spec_is_nan(a) || spec_is_nan(b) {
        None
    } else {
        Some(spec_numeric_lt(a, b))
    }
}

/// `c` is what the abstract relational comparison `lhs < rhs` may give:
/// for two strings, their code-point order; otherwise the comparison of
/// the numbers `ToNumber` may give the two sides.
pub open spec fn compare_admits<H: Host>(host: &H, lhs: Value, rhs: Value, c: Option<bool>) -> bool {
    match (lhs, rhs) {
        (Value::String(a), Value::String(b)) => c == Some(spec_text_lt(a@, b@)),
        _ => exists|na: u64, nb: u64|
            #![trigger number_admits(host, lhs, na), number_admits(host, rhs, nb)]
            number_admits(host, lhs, na) && number_admits(host, rhs, nb) && c == spec_compare_numbers(na, nb),
    }
}

/// The value of a relational operator from the comparison `first <
/// second`: `<` (and `>`, comparing the sides swapped) is true when the
/// comparison is true; `<=` (comparing the sides swapped) and `>=` are
/// true when it is false; an undefined comparison (NaN) makes all four
/// false.
pub open spec fn relational_result<H: Host>(host: &H, first: Value, second: Value, or_equal: bool, b: bool) -> bool {
    exists|c: Option<bool>| #[trigger] compare_admits(host, first, second, c) && b == (if or_equal {
        c == Some(false)
    } else {
        c == Some(true)
    })
}

/// The `typeof` text of a value.
pub open spec fn spec_type_of(value: Value) -> Seq<char> {
    match value {
        Value::Undefined => "undefined"@,
        Value::Null => "object"@,
        Value::Boolean(_) => "boolean"@,
        Value::Number(_) => "number"@,
        Value::String(_) => "string"@,
        Value::Object(_) => "object"@,
        Value::Function(_) => "function"@,
        Value::Native(_) => "function"@,
        Value::Promise(_) => "object"@,
    }
}

/// The binary operators whose result is a number computed by the host.
pub open spec fn is_numeric_operator(operator: BinaryOp) -> bool {
    match operator {
        BinaryOp::Subtract | BinaryOp::Multiply | BinaryOp::Divide
        | BinaryOp::Remainder | BinaryOp::Exponentiation | BinaryOp::LeftShift
        | BinaryOp::RightShift | BinaryOp::UnsignedRightShift
        | BinaryOp::BitwiseOr | BinaryOp::BitwiseXor | BinaryOp::BitwiseAnd => true,
        _ => false,
    }
}

/// `l << s` on 32-bit integers: `l` times 2^(s mod 32), wrapped into the
/// signed 32-bit range.
pub open spec fn spec_shift_left(l: i32, s: u32) -> i32 {
    spec_wrap_i32(l * pow2((s % 32) as nat))
}

/// `l >> s`: `l` divided by 2^(s mod 32), rounded down.
pub open spec fn spec_shift_right(l: i32, s: u32) -> int {
    l as int / (pow2((s % 32) as nat) as int)
}

/// `l >>> s`: `l` divided by 2^(s mod 32), rounded down.
pub open spec fn spec_unsigned_shift_right(l: u32, s: u32) -> int {
    l as int / (pow2((s % 32) as nat) as int)
}

/// The number the shift and bitwise operators give: the operators work on
/// the 32-bit integer forms of their operands (`ToInt32`, or `ToUint32`
/// for `>>>` and for every shift count), and the result is the number
/// encoding the integer they compute.
pub open spec fn integer_operator_result<H: Host>(host: &H, operator: BinaryOp, lhs: Value, rhs: Value, v: Value) -> bool {
    match operator {
        BinaryOp::LeftShift => exists|l: i32, s: u32|
            #![trigger int32_admits(host, lhs, l), uint32_admits(host, rhs, s)]
            int32_admits(host, lhs, l) && uint32_admits(host, rhs, s) && (v matches Value::Number(b) && encodes_integer(
                b,
                spec_shift_left(l, s) as int,
            )),
        BinaryOp::RightShift => exists|l: i32, s: u32|
            #![trigger int32_admits(host, lhs, l), uint32_admits(host, rhs, s)]
            int32_admits(host, lhs, l) && uint32_admits(host, rhs, s) && (v matches Value::Number(b) && encodes_integer(
                b,
                spec_shift_right(l, s),
            )),
        BinaryOp::UnsignedRightShift => exists|l: u32, s: u32|
            #![trigger uint32_admits(host, lhs, l), uint32_admits(host, rhs, s)]
            uint32_admits(host, lhs, l) && uint32_admits(host, rhs, s) && (v matches Value::Number(b) && encodes_integer(
                b,
                spec_unsigned_shift_right(l, s),
            )),
        BinaryOp::BitwiseOr => exists|l: i32, m: i32|
            #![trigger int32_admits(host, lhs, l), int32_admits(host, rhs, m)]
            int32_admits(host, lhs, l) && int32_admits(host, rhs, m) && (v matches Value::Number(b) && encodes_integer(
                b,
                (l | m) as int,
            )),
        BinaryOp::BitwiseXor => exists|l: i32, m: i32|
            #![trigger int32_admits(host, lhs, l), int32_admits(host, rhs, m)]
            int32_admits(host, lhs, l) && int32_admits(host, rhs, m) && (v matches Value::Number(b) && encodes_integer(
                b,
                (l ^ m) as int,
            )),
        BinaryOp::BitwiseAnd => exists|l: i32, m: i32|
            #![trigger int32_admits(host, lhs, l), int32_admits(host, rhs, m)]
            int32_admits(host, lhs, l) && int32_admits(host, rhs, m) && (v matches Value::Number(b) && encodes_integer(
                b,
                (l & m) as int,
            )),
        _ => true,
    }
}

/// The arithmetic operator a binary operator applies to the numbers of
/// its two sides (`+` only when neither side is a string).
pub open spec fn numeric_operator_of(operator: BinaryOp) -> Option<NumericOperator> {
    match operator {
        BinaryOp::Subtract => Some(NumericOperator::Subtract),
        BinaryOp::Multiply => Some(NumericOperator::Multiply),
        BinaryOp::Divide => Some(NumericOperator::Divide),
        BinaryOp::Remainder => Some(NumericOperator::Remainder),
        BinaryOp::Exponentiation => Some(NumericOperator::Exponentiation),
        _ => None,
    }
}

/// The results `apply_binary` may give for `lhs operator rhs`: exact
/// wherever the operator needs no number parsed from a string or
/// computed by the host, and of the right kind everywhere.
pub open spec fn binary_admits<H: Host>(host: &H, operator: BinaryOp, lhs: Value, rhs: Value, r: Result<Value, Error>) -> bool {
    &&& r is Err <==> (operator == BinaryOp::In || operator == BinaryOp::InstanceOf)
    &&& r is Err ==> r == Err::<Value, Error>(Error::Unsupported { feature: "`in` / `instanceof` operators" })
    &&& operator == BinaryOp::StrictEqual ==> r == Ok::<Value, Error>(
        Value::Boolean(spec_strict_equals(lhs, rhs)),
    )
    &&& operator == BinaryOp::StrictNotEqual ==> r == Ok::<Value, Error>(
        Value::Boolean(!spec_strict_equals(lhs, rhs)),
    )
    &&& operator == BinaryOp::Equal ==> (r matches Ok(Value::Boolean(b)) && loose_admits(host, lhs, rhs, b))
    &&& operator == BinaryOp::NotEqual ==> (r matches Ok(Value::Boolean(b)) && loose_admits(host, lhs, rhs, !b))
    &&& operator == BinaryOp::LessThan ==> (r matches Ok(Value::Boolean(b)) && relational_result(host, 
        lhs,
        rhs,
        false,
        b,
    ))
    &&& operator == BinaryOp::GreaterThan ==> (r matches Ok(Value::Boolean(b)) && relational_result(host, 
        rhs,
        lhs,
        false,
        b,
    ))
    &&& operator == BinaryOp::LessThanOrEqual ==> (r matches Ok(Value::Boolean(b)) && relational_result(host, 
        rhs,
        lhs,
        true,
        b,
    ))
    &&& operator == BinaryOp::GreaterThanOrEqual ==> (r matches Ok(Value::Boolean(b)) && relational_result(host, 
        lhs,
        rhs,
        true,
        b,
    ))
    &&& operator == BinaryOp::Add ==> (r matches Ok(v) && (match (lhs, rhs) {
        (Value::String(a), b) => v matches Value::String(s) && exists|t: Seq<char>|
            #[trigger] text_admits(host, b, t) && s@ == a@ + t,
        (a, Value::String(b)) => v matches Value::String(s) && exists|t: Seq<char>|
            #[trigger] text_admits(host, a, t) && s@ == t + b@,
        _ => arithmetic_admits(host, NumericOperator::Add, lhs, rhs, v),
    }))
    &&& numeric_operator_of(operator) matches Some(op) ==> (r matches Ok(v) && arithmetic_admits(host, op, lhs, rhs, v))
    &&& is_numeric_operator(operator) ==> (r matches Ok(Value::Number(_)))
    &&& (r matches Ok(v) ==> integer_operator_result(host, operator, lhs, rhs, v))
}

/// Apply a binary operator to two values.  `in` and `instanceof` are not
/// supported.
pub fn apply_binary<H: Host>(
    operator: BinaryOp,
    lhs: &Value,
    rhs: &Value,
    heap: &Heap,
    host: &H,
) -> (r: Result<Value, Error>)
    ensures
        binary_admits(host, operator, *lhs, *rhs, r),
{
    match operator {
        BinaryOp::Equal => Ok(Value::Boolean(loose_equals(lhs, rhs, host))),
        BinaryOp::NotEqual => Ok(Value::Boolean(!loose_equals(lhs, rhs, host))),
        BinaryOp::StrictEqual => Ok(Value::Boolean(strict_equals(lhs, rhs))),
        BinaryOp::StrictNotEqual => Ok(Value::Boolean(!strict_equals(lhs, rhs))),
        BinaryOp::LessThan => Ok(Value::Boolean(compare(lhs, rhs, host) == Some(true))),
        BinaryOp::LessThanOrEqual => Ok(Value::Boolean(compare(rhs, lhs, host) == Some(false))),
        BinaryOp::GreaterThan => Ok(Value::Boolean(compare(rhs, lhs, host) == Some(true))),
        BinaryOp::GreaterThanOrEqual => Ok(Value::Boolean(compare(lhs, rhs, host) == Some(false))),
        BinaryOp::LeftShift => Ok(shift_left(lhs, rhs, host)),
        BinaryOp::RightShift => Ok(shift_right(lhs, rhs, host)),
        BinaryOp::UnsignedRightShift => Ok(unsigned_shift_right(lhs, rhs, host)),
        BinaryOp::Add => Ok(self::add(lhs, rhs, heap, host)),
        BinaryOp::Subtract => Ok(arithmetic(NumericOperator::Subtract, lhs, rhs, host)),
        BinaryOp::Multiply => Ok(arithmetic(NumericOperator::Multiply, lhs, rhs, host)),
        BinaryOp::Divide => Ok(arithmetic(NumericOperator::Divide, lhs, rhs, host)),
        BinaryOp::Remainder => Ok(arithmetic(NumericOperator::Remainder, lhs, rhs, host)),
        BinaryOp::Exponentiation => Ok(
            arithmetic(NumericOperator::Exponentiation, lhs, rhs, host),
        ),
        BinaryOp::BitwiseOr => Ok(bitwise(BitwiseOperator::Or, lhs, rhs, host)),
        BinaryOp::BitwiseXor => Ok(bitwise(BitwiseOperator::Xor, lhs, rhs, host)),
        BinaryOp::BitwiseAnd => Ok(bitwise(BitwiseOperator::And, lhs, rhs, host)),
        BinaryOp::In | BinaryOp::InstanceOf => Err(
            Error::Unsupported { feature: "`in` / `instanceof` operators" },
        ),
    }
}

/// The magnitude of an integer.
pub open spec fn abs_int(x: int) -> int {
    if x < 0 {
        -x
    } else {
        x
    }
}

/// `x / y` truncated towards zero.
pub open spec fn trunc_quotient(x: int, y: int) -> int {
    if (x < 0) == (y < 0) {
        abs_int(x) / abs_int(y)
    } else {
        -(abs_int(x) / abs_int(y))
    }
}

/// The remainder of `x / y` truncated towards zero: it takes the sign of
/// `x`, as `%` does.
pub open spec fn trunc_remainder(x: int, y: int) -> int {
    if x < 0 {
        -(abs_int(x) % abs_int(y))
    } else {
        abs_int(x) % abs_int(y)
    }
}

/// The exact result of `operator` on the integers `x` and `y`, wherever
/// binary64 holds it without rounding and the library computes it: the
/// sum, difference, product, a quotient that divides evenly, the
/// remainder, or a power with a non-negative exponent, when it is below
/// 2^32 in magnitude.  `None` where the
/// result is a negative zero (a zero product with a negative factor, `0`
/// divided by a negative number, a zero remainder of a negative
/// dividend), a division or remainder by zero, an uneven quotient, and a
/// negative exponent: the host computes those.
pub open spec fn integer_arithmetic(operator: NumericOperator, x: int, y: int) -> Option<int> {
    let z: Option<int> = match operator {
        NumericOperator::Add => Some(x + y),
        NumericOperator::Subtract => Some(x - y),
        NumericOperator::Multiply => if x * y == 0 && (x < 0 || y < 0) {
            None
        } else {
            Some(x * y)
        },
        NumericOperator::Divide => if y == 0 || trunc_remainder(x, y) != 0 || (x == 0 && y < 0) {
            None
        } else {
            Some(trunc_quotient(x, y))
        },
        NumericOperator::Remainder => if y == 0 || (trunc_remainder(x, y) == 0 && x < 0) {
            None
        } else {
            Some(trunc_remainder(x, y))
        },
        NumericOperator::Exponentiation => if y < 0 {
            None
        } else {
            Some(pow(x, y as nat))
        },
    };
    match z {
        Some(v) => if -4294967296 < v < 4294967296 {
            Some(v)
        } else {
            None
        },
        None => None,
    }
}

/// A power's magnitude never shrinks as the exponent grows, for a base
/// of magnitude at least one.
proof fn lemma_power_grows(x: int, k: nat, j: nat)
    requires
        abs_int(x) >= 1,
        k <= j,
    ensures
        abs_int(pow(x, k)) <= abs_int(pow(x, j)),
    decreases j - k,
{
    if k < j {
        lemma_power_grows(x, k, (j - 1) as nat);
        let p = pow(x, (j - 1) as nat);
        reveal(pow);
        assert(pow(x, j) == x * p);
        assert(abs_int(x * p) >= abs_int(p)) by (nonlinear_arith)
            requires
                abs_int(x) >= 1,
        ;
    }
}

/// `x` to the power `y`, when it is below 2^32 in magnitude.
fn integer_power(x: i64, y: i64) -> (r: Option<i64>)
    requires
        -2147483648 <= x <= 2147483647,
        y >= 0,
    ensures
        abs_int(pow(x as int, y as nat)) < 4294967296 ==> r == Some(pow(x as int, y as nat) as i64),
        abs_int(pow(x as int, y as nat)) >= 4294967296 ==> r is None,
{
    let mut acc: i64 = 1;
    let mut k: i64 = 0;
    proof {
        reveal(pow);
    }
    while k < y
        invariant
            0 <= k <= y,
            -2147483648 <= x <= 2147483647,
            acc == pow(x as int, k as nat),
            abs_int(acc as int) < 4294967296,
        decreases y - k,
    {
        assert(-9223372036854775807 < acc * x < 9223372036854775807) by (nonlinear_arith)
            requires
                -4294967296 < acc < 4294967296,
                -2147483648 <= x <= 2147483647,
        ;
        let next = acc * x;
        assert(next == pow(x as int, (k + 1) as nat)) by {
            reveal(pow);
            assert(pow(x as int, (k + 1) as nat) == x * pow(x as int, k as nat));
        }
        if next <= -4294967296 || next >= 4294967296 {
            proof {
                assert(abs_int(x as int) >= 1) by (nonlinear_arith)
                    requires
                        next == acc * x,
                        -4294967296 < acc < 4294967296,
                        next <= -4294967296 || next >= 4294967296,
                ;
                lemma_power_grows(x as int, (k + 1) as nat, y as nat);
            }
            return None;
        }
        acc = next;
        k = k + 1;
    }
    Some(acc)
}

/// `integer_arithmetic` on two 32-bit integers.
fn integer_result(operator: NumericOperator, x: i32, y: i32) -> (r: Option<i64>)
    ensures
        match integer_arithmetic(operator, x as int, y as int) {
            Some(z) => r == Some(z as i64),
            None => r is None,
        },
{
    let xi = x as i64;
    let yi = y as i64;
    let z: Option<i64> = match operator {
        NumericOperator::Add => Some(xi + yi),
        NumericOperator::Subtract => Some(xi - yi),
        NumericOperator::Multiply => {
            assert(-4611686018427387904 <= xi * yi <= 4611686018427387904) by (nonlinear_arith)
                requires
                    -2147483648 <= xi <= 2147483647,
                    -2147483648 <= yi <= 2147483647,
            ;
            let p = xi * yi;
            if p == 0 && (xi < 0 || yi < 0) {
                None
            } else {
                Some(p)
            }
        },
        NumericOperator::Divide | NumericOperator::Remainder => {
            if yi == 0 {
                None
            } else {
                let ax: u64 = if xi < 0 {
                    (0 - xi) as u64
                } else {
                    xi as u64
                };
                let ay: u64 = if yi < 0 {
                    (0 - yi) as u64
                } else {
                    yi as u64
                };
                let q = ax / ay;
                let m = ax % ay;
                assert(q <= ax) by (nonlinear_arith)
                    requires
                        ay >= 1,
                        q == ax / ay,
                ;
                let rem: i64 = if xi < 0 {
                    0 - (m as i64)
                } else {
                    m as i64
                };
                let quo: i64 = if (xi < 0) == (yi < 0) {
                    q as i64
                } else {
                    0 - (q as i64)
                };
                match operator {
                    NumericOperator::Divide => if rem != 0 || (xi == 0 && yi < 0) {
                        None
                    } else {
                        Some(quo)
                    },
                    _ => if rem == 0 && xi < 0 {
                        None
                    } else {
                        Some(rem)
                    },
                }
            }
        },
        NumericOperator::Exponentiation => if yi < 0 {
            None
        } else {
            integer_power(xi, yi)
        },
    };
    match z {
        Some(v) => if -4294967296 < v && v < 4294967296 {
            Some(v)
        } else {
            None
        },
        None => None,
    }
}

/// The exact integer result of `operator` on the numbers `na` and `nb`,
/// where both are integers in the signed 32-bit range and the result is
/// one the library computes itself.
pub open spec fn exact_arithmetic(operator: NumericOperator, na: u64, nb: u64) -> Option<int> {
    match (spec_small_integer(na), spec_small_integer(nb)) {
        (Some(x), Some(y)) => integer_arithmetic(operator, x, y),
        _ => None,
    }
}

/// `bits` is the result of `operator` on the numbers `na` and `nb`: the
/// exact integer where the library computes one, otherwise the host's
/// answer to that very question.
pub open spec fn number_result<H: Host>(host: &H, operator: NumericOperator, na: u64, nb: u64, bits: u64) -> bool {
    match exact_arithmetic(operator, na, nb) {
        Some(z) => encodes_integer(bits, z),
        None => host.arithmetic_gives(operator, na, nb, bits),
    }
}

/// `v` is what `lhs operator rhs` may give: the result of the operator on
/// the numbers `ToNumber` gives the two sides.
pub open spec fn arithmetic_admits<H: Host>(host: &H, operator: NumericOperator, lhs: Value, rhs: Value, v: Value) -> bool {
    exists|na: u64, nb: u64|
        #![trigger number_admits(host, lhs, na), number_admits(host, rhs, nb)]
        number_admits(host, lhs, na) && number_admits(host, rhs, nb) && (v matches Value::Number(bits)
            && number_result(host, operator, na, nb, bits))
}

fn arithmetic<H: Host>(operator: NumericOperator, lhs: &Value, rhs: &Value, host: &H) -> (r: Value)
    ensures
        arithmetic_admits(host, operator, *lhs, *rhs, r),
{
    let a = to_number(lhs, host);
    let b = to_number(rhs, host);
    let exact = match (small_integer(a), small_integer(b)) {
        (Some(x), Some(y)) => match integer_result(operator, x, y) {
            Some(z) => Some(integer_to_number(z)),
            None => None,
        },
        _ => None,
    };
    let bits = match exact {
        Some(n) => n,
        None => host.arithmetic(operator, a, b),
    };
    assert(number_admits(host, *lhs, a) && number_admits(host, *rhs, b));
    Value::Number(bits)
}

/// `+`: string concatenation when either side is a string, numeric
/// addition otherwise.
fn add<H: Host>(lhs: &Value, rhs: &Value, heap: &Heap, host: &H) -> (r: Value)
    ensures
        match (*lhs, *rhs) {
            (Value::String(a), b) => r matches Value::String(s) && exists|t: Seq<char>|
                #[trigger] text_admits(host, b, t) && s@ == a@ + t,
            (a, Value::String(b)) => r matches Value::String(s) && exists|t: Seq<char>|
                #[trigger] text_admits(host, a, t) && s@ == t + b@,
            _ => arithmetic_admits(host, NumericOperator::Add, *lhs, *rhs, r),
        },
{
    match (lhs, rhs) {
        (Value::String(a), b) => {
            let t = to_string(b, heap, host);
            Value::String(concat(a.as_str(), t.as_str()))
        },
        (a, Value::String(b)) => {
            let t = to_string(a, heap, host);
            Value::String(concat(t.as_str(), b.as_str()))
        },
        _ => arithmetic(NumericOperator::Add, lhs, rhs, host),
    }
}

/// Abstract relational comparison `lhs < rhs`: strings by code points,
/// anything else as numbers; undefined (`None`) when either number is NaN.
fn compare<H: Host>(lhs: &Value, rhs: &Value, host: &H) -> (r: Option<bool>)
    ensures
        compare_admits(host, *lhs, *rhs, r),
{
    match (lhs, rhs) {
        (Value::String(a), Value::String(b)) => Some(text_lt(a.as_str(), b.as_str())),
        _ => {
            let a = to_number(lhs, host);
            let b = to_number(rhs, host);
            if is_nan(a) || is_nan(b) {
                None
            } else {
                Some(numeric_lt(a, b))
            }
        },
    }
}

/// The shift count: the low five bits of `s`.
fn shift_count(s: u32) -> (r: u32)
    ensures
        r == s % 32,
{
    assert(s & 0x1f == s % 32) by (bit_vector);
    s & 0x1f
}

/// `lhs << rhs`: 32-bit left shift by the low five bits of `rhs`.
fn shift_left<H: Host>(lhs: &Value, rhs: &Value, host: &H) -> (r: Value)
    ensures
        integer_operator_result(host, BinaryOp::LeftShift, *lhs, *rhs, r),
{
    let l = to_int32(lhs, host);
    let s = to_uint32(rhs, host);
    let shift = shift_count(s);
    proof {
        lemma_u64_pow2_no_overflow(shift as nat);
        lemma_pow2_strictly_increases(shift as nat, 32);
        lemma2_to64();
        lemma_u64_shl_is_mul(1, shift as u64);
    }
    let p: u64 = 1u64 << (shift as u64);
    assert(-0x4000_0000_0000_0000 <= l * p <= 0x4000_0000_0000_0000) by (nonlinear_arith)
        requires
            -2147483648 <= l <= 2147483647,
            0 < p <= 2147483648,
    ;
    let shifted = wrap_to_i32((l as i64) * (p as i64));
    Value::Number(integer_to_number(shifted as i64))
}

/// `lhs >> rhs`: 32-bit sign-propagating right shift.
fn shift_right<H: Host>(lhs: &Value, rhs: &Value, host: &H) -> (r: Value)
    ensures
        integer_operator_result(host, BinaryOp::RightShift, *lhs, *rhs, r),
{
    let l = to_int32(lhs, host);
    let s = to_uint32(rhs, host);
    let shift = shift_count(s);
    proof {
        lemma_u64_pow2_no_overflow(shift as nat);
        lemma_pow2_strictly_increases(shift as nat, 32);
        lemma2_to64();
        lemma_u64_shl_is_mul(1, shift as u64);
    }
    let p: u64 = 1u64 << (shift as u64);
    let shifted: i64 = if l >= 0 {
        let q = (l as u64) / p;
        proof {
            lemma_div_pos_is_pos(l as int, p as int);
            lemma_div_is_ordered_by_denominator(l as int, 1, p as int);
        }
        q as i64
    } else {
        let a = (-(l as i64)) as u64;
        let q = (a + p - 1) / p;
        proof {
            let rem = (a + p - 1) % (p as int);
            lemma_fundamental_div_mod((a + p - 1) as int, p as int);
            assert(l as int == (-q) * (p as int) + (p - 1 - rem)) by (nonlinear_arith)
                requires
                    a + p - 1 == (p as int) * q + rem,
                    l as int == -(a as int),
            ;
            lemma_fundamental_div_mod_converse(l as int, p as int, -q, p - 1 - rem);
            lemma_div_is_ordered_by_denominator((a + p - 1) as int, 1, p as int);
        }
        -(q as i64)
    };
    Value::Number(integer_to_number(shifted))
}

/// `lhs >>> rhs`: 32-bit zero-filling right shift.
fn unsigned_shift_right<H: Host>(lhs: &Value, rhs: &Value, host: &H) -> (r: Value)
    ensures
        integer_operator_result(host, BinaryOp::UnsignedRightShift, *lhs, *rhs, r),
{
    let l = to_uint32(lhs, host);
    let s = to_uint32(rhs, host);
    let shift = shift_count(s);
    proof {
        lemma_u32_shr_is_div(l, shift);
        lemma_pow2_pos(shift as nat);
        lemma_div_pos_is_pos(l as int, pow2(shift as nat) as int);
        lemma_div_is_ordered_by_denominator(l as int, 1, pow2(shift as nat) as int);
    }
    let shifted = l >> shift;
    Value::Number(integer_to_number(shifted as i64))
}

/// The 32-bit bitwise combinations.
enum BitwiseOperator {
    Or,
    Xor,
    And,
}

/// `|`, `^`, `&` on the 32-bit integer forms of both sides.
fn bitwise<H: Host>(operator: BitwiseOperator, lhs: &Value, rhs: &Value, host: &H) -> (r: Value)
    ensures
        integer_operator_result(host, 
            match operator {
                BitwiseOperator::Or => BinaryOp::BitwiseOr,
                BitwiseOperator::Xor => BinaryOp::BitwiseXor,
                BitwiseOperator::And => BinaryOp::BitwiseAnd,
            },
            *lhs,
            *rhs,
            r,
        ),
{
    let l = to_int32(lhs, host);
    let rr = to_int32(rhs, host);
    let combined = match operator {
        BitwiseOperator::Or => l | rr,
        BitwiseOperator::Xor => l ^ rr,
        BitwiseOperator::And => l & rr,
    };
    Value::Number(integer_to_number(combined as i64))
}

/// The results `apply_unary` may give for `operator operand`: exact
/// wherever no number is parsed from a string or computed by the host,
/// and of the right kind everywhere.
pub open spec fn unary_admits<H: Host>(host: &H, operator: UnaryOp, operand: Value, r: Result<Value, Error>) -> bool {
    &&& r is Err <==> operator == UnaryOp::Delete
    &&& r is Err ==> r == Err::<Value, Error>(
        Error::Unsupported { feature: "`delete` operator (handled at expression level)" },
    )
    &&& operator == UnaryOp::Minus && !(operand is String) ==> r == Ok::<Value, Error>(
        Value::Number(spec_negate(spec_non_string_to_number(operand))),
    )
    &&& operator == UnaryOp::Minus ==> (r matches Ok(Value::Number(_)))
    &&& operator == UnaryOp::Plus && !(operand is String) ==> r == Ok::<Value, Error>(
        Value::Number(spec_non_string_to_number(operand)),
    )
    &&& operator == UnaryOp::Plus ==> (r matches Ok(Value::Number(_)))
    &&& operator == UnaryOp::LogicalNot ==> r == Ok::<Value, Error>(Value::Boolean(!spec_to_boolean(operand)))
    &&& operator == UnaryOp::BitwiseNot ==> exists|x: i32| #[trigger] int32_admits(host, operand, x) && (r matches Ok(
        Value::Number(b),
    ) && encodes_integer(b, -1 - x))
    &&& operator == UnaryOp::TypeOf ==> (r matches Ok(Value::String(s)) && s@ == spec_type_of(operand))
    &&& operator == UnaryOp::Void ==> r == Ok::<Value, Error>(Value::Undefined)
}

/// Apply a unary operator to a value.  `delete` needs the member
/// expression itself, so it is rejected here.
pub fn apply_unary<H: Host>(operator: UnaryOp, operand: &Value, heap: &Heap, host: &H) -> (r:
    Result<Value, Error>)
    ensures
        unary_admits(host, operator, *operand, r),
{
    match operator {
        UnaryOp::Minus => Ok(Value::Number(negate(to_number(operand, host)))),
        UnaryOp::Plus => Ok(Value::Number(to_number(operand, host))),
        UnaryOp::LogicalNot => Ok(Value::Boolean(!to_boolean(operand))),
        UnaryOp::BitwiseNot => {
            let x = to_int32(operand, host);
            let flipped: i32 = -1 - x;
            Ok(Value::Number(integer_to_number(flipped as i64)))
        },
        UnaryOp::TypeOf => Ok(Value::String(type_of(operand))),
        UnaryOp::Void => Ok(Value::Undefined),
        UnaryOp::Delete => Err(
            Error::Unsupported { feature: "`delete` operator (handled at expression level)" },
        ),
    }
}

/// The `typeof` text of a value.
pub fn type_of(value: &Value) -> (r: String)
    ensures
        r@ == spec_type_of(*value),
{
    match value {
        Value::Undefined => "undefined".to_owned(),
        Value::Null => "object".to_owned(),
        Value::Boolean(_) => "boolean".to_owned(),
        Value::Number(_) => "number".to_owned(),
        Value::String(_) => "string".to_owned(),
        Value::Object(_) => "object".to_owned(),
        Value::Function(_) => "function".to_owned(),
        Value::Native(_) => "function".to_owned(),
        Value::Promise(_) => "object".to_owned(),
    }
}

/// Comparing two numbers that are not NaN decides exactly one of `a < b`,
/// `b < a` and `a == b`, and undefined comparisons are symmetric: so
/// `a <= b` holds exactly when `a < b` or `a == b`.
pub proof fn lemma_comparison_duality(a: u64, b: u64)
    ensures
        spec_compare_numbers(a, b) is None <==> spec_compare_numbers(b, a) is None,
        spec_compare_numbers(a, b) == Some(true) ==> spec_compare_numbers(b, a) == Some(false),
        spec_compare_numbers(b, a) == Some(false) <==> (spec_compare_numbers(a, b) == Some(true)
            || (!spec_is_nan(a) && !spec_is_nan(b) && spec_numeric_eq(a, b))),
{
    crate::number::lemma_numeric_lt_order(a, b);
}

} // verus!
