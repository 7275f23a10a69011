//! ECMA-262 abstract operations for value coercion and equality.

use vstd::prelude::*;

use crate::heap::Heap;
use crate::host::Host;
use crate::number::{
    is_finite, is_infinite, is_nan, is_sign_negative, is_zero, numeric_eq, sign_set, spec_is_finite,
    spec_is_infinite, spec_is_nan, spec_is_zero, spec_numeric_eq, number_to_int32, spec_number_to_int32, NAN, ONE, POSITIVE_ZERO,
    small_integer, spec_small_integer, encodes_integer, integer_to_number,
};
use crate::text::{concat3, decimal, integer_text, signed_decimal, spec_integer_text, spec_decimal, spec_signed_decimal, spec_trim, trim};
use crate::value::Value;

verus! {

/// `ToBoolean(value)`.
pub open spec fn spec_to_boolean(value: Value) -> bool {
    match value {
        Value::Undefined | Value::Null => false,
        Value::Boolean(b) => b,
        Value::Number(n) => !(spec_is_nan(n) || spec_is_zero(n)),
        Value::String(s) => s@.len() > 0,
        Value::Object(_) | Value::Function(_) | Value::Native(_) | Value::Promise(_) => true,
    }
}

/// `ToNumber(value)` for every value but a string (whose number the host
/// parses).
pub open spec fn spec_non_string_to_number(value: Value) -> u64 {
    match value {
        Value::Undefined => NAN,
        Value::Null => POSITIVE_ZERO,
        Value::Boolean(b) => if b {
            ONE
        } else {
            POSITIVE_ZERO
        },
        Value::Number(n) => n,
        _ => NAN,
    }
}

/// `Number::toString(n)` where the library writes it: NaN, the
/// infinities, the zeros, and integers in the signed 32-bit range in
/// decimal.  Other numbers are written by the host.
pub open spec fn spec_number_text(n: u64) -> Option<Seq<char>> {
    if spec_is_nan(n) {
        Some("NaN"@)
    } else if spec_is_infinite(n) {
        if sign_set(n) {
            Some("-Infinity"@)
        } else {
            Some("Infinity"@)
        }
    } else if spec_is_zero(n) {
        Some("0"@)
    } else {
        match spec_small_integer(n) {
            Some(i) => Some(spec_signed_decimal(i)),
            None => None,
        }
    }
}

/// `ToString(value)`, except for the numbers the host writes.
pub open spec fn spec_to_string(value: Value) -> Option<Seq<char>> {
    match value {
        Value::Undefined => Some("undefined"@),
        Value::Null => Some("null"@),
        Value::Boolean(b) => if b {
            Some("true"@)
        } else {
            Some("false"@)
        },
        Value::Number(n) => spec_number_text(n),
        Value::String(s) => Some(s@),
        Value::Object(id) => Some("[object Object#"@ + spec_decimal(id.spec_raw() as nat) + "]"@),
        Value::Function(id) => Some(
            "function fn#"@ + spec_decimal(id.spec_raw() as nat) + "() { [native code] }"@,
        ),
        Value::Native(_) => Some("function [native code]"@),
        Value::Promise(_) => Some("[object Promise]"@),
    }
}

/// `IsStrictlyEqual(a, b)` (`===`).
pub open spec fn spec_strict_equals(a: Value, b: Value) -> bool {
    match (a, b) {
        (Value::Number(x), Value::Number(y)) => spec_numeric_eq(x, y),
        _ => spec_strict_equals_non_numeric(a, b),
    }
}

/// `===` on values that are not both numbers: same type and same value
/// (strings by content, heap entries and natives by identity).
pub open spec fn spec_strict_equals_non_numeric(a: Value, b: Value) -> bool {
    match (a, b) {
        (Value::Undefined, Value::Undefined) => true,
        (Value::Null, Value::Null) => true,
        (Value::Boolean(x), Value::Boolean(y)) => x == y,
        (Value::String(x), Value::String(y)) => x@ == y@,
        (Value::Object(x), Value::Object(y)) => x == y,
        (Value::Function(x), Value::Function(y)) => x == y,
        (Value::Native(x), Value::Native(y)) => x == y,
        (Value::Promise(x), Value::Promise(y)) => x == y,
        _ => false,
    }
}

/// `SameValueZero(a, b)`: like `===` except that NaN equals NaN.
pub open spec fn spec_same_value_zero(a: Value, b: Value) -> bool {
    match (a, b) {
        (Value::Number(x), Value::Number(y)) => (spec_is_nan(x) && spec_is_nan(y)) || spec_numeric_eq(x, y),
        _ => spec_strict_equals_non_numeric(a, b),
    }
}

/// The measure that bounds the coercion steps of `==`.
pub open spec fn loose_rank(a: Value, b: Value) -> int {
    (if a is Boolean { 2int } else { 0int }) + (if b is Boolean { 2int } else { 0int }) + (if a is String {
        1int
    } else {
        0int
    })
}

/// Whether `==` on `a` and `b` converts a string to a number, which the
/// host parses.
pub open spec fn loose_parses(a: Value, b: Value) -> bool {
    ((a is String) && (b is Number || b is Boolean)) || ((b is String) && (a is Number
        || a is Boolean))
}

/// `IsLooselyEqual(a, b)` (`==`) whenever no string is converted.
pub open spec fn spec_loose_equals(a: Value, b: Value) -> bool
    decreases loose_rank(a, b),
{
    match (a, b) {
        (Value::Undefined, Value::Null) | (Value::Null, Value::Undefined) => true,
        (Value::Undefined, Value::Undefined) | (Value::Null, Value::Null) => true,
        (Value::Number(x), Value::Number(y)) => spec_numeric_eq(x, y),
        (Value::String(x), Value::String(y)) => x@ == y@,
        (Value::Boolean(_), Value::Boolean(_))
        | (Value::Object(_), Value::Object(_))
        | (Value::Function(_), Value::Function(_))
        | (Value::Native(_), Value::Native(_))
        | (Value::Promise(_), Value::Promise(_)) => spec_strict_equals(a, b),
        (Value::Boolean(_), _) => spec_loose_equals(Value::Number(spec_non_string_to_number(a)), b),
        (_, Value::Boolean(_)) => spec_loose_equals(a, Value::Number(spec_non_string_to_number(b))),
        _ => false,
    }
}

/// `ToBoolean(value)`.
pub fn to_boolean(value: &Value) -> (r: bool)
    ensures
        r == spec_to_boolean(*value),
{
    match value {
        Value::Undefined | Value::Null => false,
        Value::Boolean(b) => *b,
        Value::Number(n) => !(is_nan(*n) || is_zero(*n)),
        Value::String(s) => !s.as_str().is_empty(),
        Value::Object(_) | Value::Function(_) | Value::Native(_) | Value::Promise(_) => true,
    }
}

/// `n` is the number `ToNumber` gives `value`: the one the language
/// fixes; for a string, `+0` when it is empty or all white space, the
/// integer when the text without its surrounding white space is one in
/// the signed 32-bit range, and otherwise the host's parse of that text.
pub open spec fn number_admits<H: Host>(host: &H, value: Value, n: u64) -> bool {
    match value {
        Value::String(s) => if spec_trim(s@).len() == 0 {
            n == POSITIVE_ZERO
        } else {
            match spec_integer_text(spec_trim(s@)) {
                Some(v) => encodes_integer(n, v),
                None => host.parse_gives(spec_trim(s@), n),
            }
        },
        _ => n == spec_non_string_to_number(value),
    }
}

/// `StringToNumber(s)`: white space around the text is ignored, empty
/// text is `+0`, integer text is read here, and the rest is parsed by
/// the host.
fn string_to_number<H: Host>(s: &str, host: &H) -> (r: u64)
    ensures
        spec_trim(s@).len() == 0 ==> r == POSITIVE_ZERO,
        spec_trim(s@).len() > 0 ==> match spec_integer_text(spec_trim(s@)) {
            Some(v) => encodes_integer(r, v),
            None => host.parse_gives(spec_trim(s@), r),
        },
{
    let trimmed = trim(s);
    if trimmed.unicode_len() == 0 {
        POSITIVE_ZERO
    } else {
        match integer_text(trimmed) {
            Some(v) => integer_to_number(v),
            None => host.parse_number(trimmed),
        }
    }
}

/// `ToNumber(value)`.  A string is parsed by the host.
pub fn to_number<H: Host>(value: &Value, host: &H) -> (r: u64)
    ensures
        number_admits(host, *value, r),
{
    match value {
        Value::Undefined => NAN,
        Value::Null => POSITIVE_ZERO,
        Value::Boolean(b) => if *b {
            ONE
        } else {
            POSITIVE_ZERO
        },
        Value::Number(n) => *n,
        Value::String(s) => string_to_number(s.as_str(), host),
        Value::Object(_) | Value::Function(_) | Value::Native(_) | Value::Promise(_) => NAN,
    }
}

/// `Number::toString(n)`: NaN, the infinities and the zeros are fixed;
/// other numbers are written by the host.
pub fn number_to_string<H: Host>(n: u64, host: &H) -> (r: String)
    ensures
        spec_number_text(n) matches Some(t) ==> r@ == t,
        spec_number_text(n) is None ==> host.format_gives(n, r@),
{
    proof {
        reveal_strlit("NaN");
        reveal_strlit("-Infinity");
        reveal_strlit("Infinity");
        reveal_strlit("0");
    }
    if is_nan(n) {
        "NaN".to_owned()
    } else if is_infinite(n) {
        if is_sign_negative(n) {
            "-Infinity".to_owned()
        } else {
            "Infinity".to_owned()
        }
    } else if is_zero(n) {
        "0".to_owned()
    } else {
        match small_integer(n) {
            Some(i) => signed_decimal(i),
            None => host.format_number(n),
        }
    }
}

/// `text` is a string form `ToString` may give `value`: the one the
/// language fixes, or for a number other than NaN, the infinities and the
/// zeros, the host's.
pub open spec fn text_admits<H: Host>(host: &H, value: Value, text: Seq<char>) -> bool {
    match spec_to_string(value) {
        Some(t) => text == t,
        None => value matches Value::Number(n) && host.format_gives(n, text),
    }
}

/// `ToString(value)`.  Objects render as a placeholder naming their id.
pub fn to_string<H: Host>(value: &Value, heap: &Heap, host: &H) -> (r: String)
    ensures
        text_admits(host, *value, r@),
{
    match value {
        Value::Undefined => "undefined".to_owned(),
        Value::Null => "null".to_owned(),
        Value::Boolean(b) => if *b {
            "true".to_owned()
        } else {
            "false".to_owned()
        },
        Value::Number(n) => number_to_string(*n, host),
        Value::String(s) => s.clone(),
        Value::Object(id) => concat3("[object Object#", decimal(id.raw()).as_str(), "]"),
        Value::Function(id) => concat3(
            "function fn#",
            decimal(id.raw()).as_str(),
            "() { [native code] }",
        ),
        Value::Native(_) => "function [native code]".to_owned(),
        Value::Promise(_) => "[object Promise]".to_owned(),
    }
}

/// `ToPropertyKey(value)`: the string form of the value.
pub fn to_property_key<H: Host>(value: &Value, heap: &Heap, host: &H) -> (r: String)
    ensures
        text_admits(host, *value, r@),
{
    to_string(value, heap, host)
}

/// `r` is a value `ToInt32` may give `value`: `ToInt32` of a number
/// `ToNumber` may give it.
pub open spec fn int32_admits<H: Host>(host: &H, value: Value, r: i32) -> bool {
    exists|n: u64| #[trigger] number_admits(host, value, n) && r == spec_number_to_int32(n)
}

/// `ToInt32(value)`: the number truncated towards zero and taken modulo
/// 2^32 into the signed 32-bit range; NaN and the infinities give `0`.
pub fn to_int32<H: Host>(value: &Value, host: &H) -> (r: i32)
    ensures
        int32_admits(host, *value, r),
        !(*value is String) ==> r == spec_number_to_int32(spec_non_string_to_number(*value)),
{
    let n = to_number(value, host);
    number_to_int32(n)
}

/// The unsigned 32-bit integer congruent to `v` modulo 2^32.
pub open spec fn spec_wrap_u32(v: i32) -> u32 {
    if v >= 0 {
        v as u32
    } else {
        (v + 4294967296) as u32
    }
}

/// `r` is a value `ToUint32` may give `value`: `ToInt32` of a number
/// `ToNumber` may give it, taken modulo 2^32.
pub open spec fn uint32_admits<H: Host>(host: &H, value: Value, r: u32) -> bool {
    exists|n: u64| #[trigger] number_admits(host, value, n) && r == spec_wrap_u32(spec_number_to_int32(n))
}

/// `ToUint32(value)`: `ToInt32(value)` taken modulo 2^32.
pub fn to_uint32<H: Host>(value: &Value, host: &H) -> (r: u32)
    ensures
        uint32_admits(host, *value, r),
        !(*value is String) ==> r == spec_wrap_u32(spec_number_to_int32(spec_non_string_to_number(*value))),
{
    let n = to_number(value, host);
    let v = number_to_int32(n);
    wrap_u32(v)
}

/// The unsigned 32-bit integer congruent to `v` modulo 2^32.
pub fn wrap_u32(v: i32) -> (r: u32)
    ensures
        r == spec_wrap_u32(v),
        r as int % 4294967296 == (v as int + 4294967296) % 4294967296,
{
    if v >= 0 {
        v as u32
    } else {
        (v as i64 + 4294967296i64) as u32
    }
}

/// `SameValueZero(a, b)`.
pub fn same_value_zero(a: &Value, b: &Value) -> (r: bool)
    ensures
        r == spec_same_value_zero(*a, *b),
{
    match (a, b) {
        (Value::Number(x), Value::Number(y)) => {
            if is_nan(*x) && is_nan(*y) {
                true
            } else {
                numeric_eq(*x, *y)
            }
        },
        _ => strict_equals_non_numeric(a, b),
    }
}

/// `IsStrictlyEqual(a, b)` (`===`).
pub fn strict_equals(a: &Value, b: &Value) -> (r: bool)
    ensures
        r == spec_strict_equals(*a, *b),
{
    match (a, b) {
        (Value::Number(x), Value::Number(y)) => numeric_eq(*x, *y),
        _ => strict_equals_non_numeric(a, b),
    }
}

fn strict_equals_non_numeric(a: &Value, b: &Value) -> (r: bool)
    ensures
        r == spec_strict_equals_non_numeric(*a, *b),
{
    match (a, b) {
        (Value::Undefined, Value::Undefined) | (Value::Null, Value::Null) => true,
        (Value::Boolean(x), Value::Boolean(y)) => *x == *y,
        (Value::String(x), Value::String(y)) => *x == *y,
        (Value::Object(x), Value::Object(y)) => *x == *y,
        (Value::Function(x), Value::Function(y)) => *x == *y,
        (Value::Native(x), Value::Native(y)) => *x == *y,
        (Value::Promise(x), Value::Promise(y)) => *x == *y,
        _ => false,
    }
}

/// `IsLooselyEqual(a, b)` (`==`): the coercion table.  Where a string
/// meets a number (or a boolean, which becomes a number first), the
/// string is parsed by the host and the numbers compared.
pub fn loose_equals<H: Host>(a: &Value, b: &Value, host: &H) -> (r: bool)
    ensures
        loose_admits(host, *a, *b, r),
    decreases loose_rank(*a, *b),
{
    match (a, b) {
        (Value::Undefined, Value::Null) | (Value::Null, Value::Undefined) => true,
        (Value::Undefined, Value::Undefined) | (Value::Null, Value::Null) => true,
        (Value::Number(x), Value::Number(y)) => numeric_eq(*x, *y),
        (Value::String(x), Value::String(y)) => *x == *y,
        (Value::Boolean(_), Value::Boolean(_))
        | (Value::Object(_), Value::Object(_))
        | (Value::Function(_), Value::Function(_))
        | (Value::Native(_), Value::Native(_))
        | (Value::Promise(_), Value::Promise(_)) => strict_equals(a, b),
        (Value::Number(x), Value::String(_)) => {
            let n = to_number(b, host);
            let r = numeric_eq(*x, n);
            assert(r == spec_loose_equals(with_string_parsed(*a, n), with_string_parsed(*b, n)));
            r
        },
        (Value::String(_), Value::Number(_)) => {
            let r = loose_equals(b, a, host);
            proof {
                lemma_loose_admits_symmetric(host, *b, *a, r);
            }
            r
        },
        (Value::Boolean(_), _) => {
            let m = to_number(a, host);
            let r = loose_equals(&Value::Number(m), b, host);
            proof {
                reveal_with_fuel(spec_loose_equals, 2);
                if b is String {
                    let n = choose|n: u64|
                        #[trigger] number_admits(host, *b, n) && r == spec_loose_equals(
                            with_string_parsed(Value::Number(m), n),
                            with_string_parsed(*b, n),
                        );
                    assert(number_admits(host, *b, n) && r == spec_loose_equals(
                        with_string_parsed(*a, n),
                        with_string_parsed(*b, n),
                    ));
                }
            }
            r
        },
        (_, Value::Boolean(_)) => {
            let m = to_number(b, host);
            let r = loose_equals(a, &Value::Number(m), host);
            proof {
                reveal_with_fuel(spec_loose_equals, 2);
                if a is String {
                    let n = choose|n: u64|
                        #[trigger] number_admits(host, *a, n) && r == spec_loose_equals(
                            with_string_parsed(*a, n),
                            with_string_parsed(Value::Number(m), n),
                        );
                    assert(number_admits(host, *a, n) && r == spec_loose_equals(
                        with_string_parsed(*a, n),
                        with_string_parsed(*b, n),
                    ));
                }
            }
            r
        },
        _ => false,
    }
}

/// The value with a string replaced by the number `n` parsed from it;
/// any other value unchanged.
pub open spec fn with_string_parsed(v: Value, n: u64) -> Value {
    if v is String {
        Value::Number(n)
    } else {
        v
    }
}

/// Of two values one of which is a string, that one.
pub open spec fn string_side(a: Value, b: Value) -> Value {
    if a is String {
        a
    } else {
        b
    }
}

/// `r` is a result `a == b` may give: exact where no string is converted;
/// where one is, the comparison of the other side with a number
/// `ToNumber` may give the string.
pub open spec fn loose_admits<H: Host>(host: &H, a: Value, b: Value, r: bool) -> bool {
    if loose_parses(a, b) {
        exists|n: u64|
            #[trigger] number_admits(host, string_side(a, b), n) && r == spec_loose_equals(
                with_string_parsed(a, n),
                with_string_parsed(b, n),
            )
    } else {
        r == spec_loose_equals(a, b)
    }
}

/// `==` is symmetric where no string is converted.
pub proof fn lemma_loose_equals_symmetric(a: Value, b: Value)
    requires
        !loose_parses(a, b),
    ensures
        spec_loose_equals(a, b) == spec_loose_equals(b, a),
    decreases loose_rank(a, b),
{
    reveal_with_fuel(spec_loose_equals, 2);
    lemma_strict_equals_symmetric(a, b);
    if a is Boolean && !(b is Boolean) {
        lemma_loose_equals_symmetric(Value::Number(spec_non_string_to_number(a)), b);
    } else if b is Boolean && !(a is Boolean) {
        lemma_loose_equals_symmetric(a, Value::Number(spec_non_string_to_number(b)));
    }
}

/// `==` is symmetric: whatever `a == b` may give, `b == a` may give too,
/// a string on either side parsed to the same number.
pub proof fn lemma_loose_admits_symmetric<H: Host>(host: &H, a: Value, b: Value, r: bool)
    ensures
        loose_admits(host, a, b, r) == loose_admits(host, b, a, r),
{
    if loose_parses(a, b) {
        assert forall|n: u64| #[trigger] number_admits(host, string_side(a, b), n) implies spec_loose_equals(
            with_string_parsed(a, n),
            with_string_parsed(b, n),
        ) == spec_loose_equals(with_string_parsed(b, n), with_string_parsed(a, n)) by {
            lemma_loose_equals_symmetric(with_string_parsed(a, n), with_string_parsed(b, n));
        }
        assert(string_side(a, b) == string_side(b, a));
    } else {
        lemma_loose_equals_symmetric(a, b);
    }
}

/// `===` is symmetric; away from NaN it agrees with `SameValueZero`.
pub proof fn lemma_strict_equals_symmetric(a: Value, b: Value)
    ensures
        spec_strict_equals(a, b) == spec_strict_equals(b, a),
        !(a matches Value::Number(x) && spec_is_nan(x)) ==> spec_strict_equals(a, b)
            == spec_same_value_zero(a, b),
{
}

/// A value that is `===` to another is also `==` to it.
pub proof fn lemma_strict_implies_loose(a: Value, b: Value)
    requires
        spec_strict_equals(a, b),
    ensures
        spec_loose_equals(a, b),
{
}

/// `==` never holds between `null`/`undefined` and any other kind of
/// value, and always holds between the two of them.
pub proof fn lemma_loose_nullish(a: Value, b: Value)
    requires
        a is Null || a is Undefined,
    ensures
        spec_loose_equals(a, b) <==> (b is Null || b is Undefined),
{
    reveal_with_fuel(spec_loose_equals, 2);
}

/// Wrapping into the unsigned range and reading the bits back as signed
/// gives the signed value again.
proof fn lemma_wrap_u32_round_trip(v: i32)
    ensures
        spec_wrap_u32(v) as i32 == v,
{
    if v >= 0 {
        assert((v as u32) as i32 == v) by (bit_vector)
            requires
                v >= 0,
        ;
    } else {
        assert(((v + 4294967296) as u32) as i32 == v) by (bit_vector)
            requires
                v < 0,
        ;
    }
}

/// `ToUint32` and `ToInt32` agree: a result `ToUint32` may give, read as a
/// signed 32-bit integer, is one `ToInt32` may give, and `ToInt32`'s
/// results taken modulo 2^32 are `ToUint32`'s, a string parsed to the
/// same number by both.
pub proof fn lemma_uint32_agrees_with_int32<H: Host>(host: &H, value: Value, r: u32, l: i32)
    ensures
        uint32_admits(host, value, r) ==> int32_admits(host, value, r as i32),
        int32_admits(host, value, l) ==> uint32_admits(host, value, spec_wrap_u32(l)),
{
    if uint32_admits(host, value, r) {
        let n = choose|n: u64| #[trigger] number_admits(host, value, n) && r == spec_wrap_u32(spec_number_to_int32(n));
        lemma_wrap_u32_round_trip(spec_number_to_int32(n));
        assert(number_admits(host, value, n) && r as i32 == spec_number_to_int32(n));
    }
    if int32_admits(host, value, l) {
        let n = choose|n: u64| #[trigger] number_admits(host, value, n) && l == spec_number_to_int32(n);
        assert(number_admits(host, value, n) && spec_wrap_u32(l) == spec_wrap_u32(spec_number_to_int32(n)));
    }
}

} // verus!
