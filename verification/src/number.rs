//! Numbers as IEEE-754 binary64 encodings.
//!
//! ECMAScript numbers are binary64 values.  The engine carries each number
//! as the 64-bit pattern of its encoding: the top bit is the sign, the next
//! eleven bits the biased exponent, the low fifty-two bits the fraction.
//! The predicates, the ordering, `ToInt32` and the encoding of 32-bit
//! integers are decided here directly from the encoding; arithmetic,
//! parsing and decimal text are supplied by the embedder through
//! [`crate::host::Host`].

use vstd::prelude::*;
use vstd::arithmetic::div_mod::{
    lemma_basic_div, lemma_div_by_multiple, lemma_div_pos_is_pos, lemma_fundamental_div_mod,
    lemma_fundamental_div_mod_converse, lemma_mod_multiples_basic, lemma_mul_mod_noop_left,
};
use vstd::arithmetic::mul::{lemma_mul_is_associative, lemma_mul_is_commutative};
use vstd::arithmetic::power2::{
    lemma2_to64, lemma2_to64_rest, lemma_pow2_adds, lemma_pow2_pos, lemma_pow2_strictly_increases, pow2,
};
use vstd::bits::{lemma_u64_shl_is_mul, lemma_u64_shr_is_div};

verus! {

/// The sign bit.
pub const SIGN_BIT: u64 = 0x8000_0000_0000_0000;

/// The encoding of `+Infinity`; every larger magnitude is a NaN.
pub const POSITIVE_INFINITY: u64 = 0x7FF0_0000_0000_0000;

/// The encoding of `-Infinity`.
pub const NEGATIVE_INFINITY: u64 = 0xFFF0_0000_0000_0000;

/// The canonical quiet NaN.
pub const NAN: u64 = 0x7FF8_0000_0000_0000;

/// `+0`.
pub const POSITIVE_ZERO: u64 = 0;

/// `1`.
pub const ONE: u64 = 0x3FF0_0000_0000_0000;

/// `-1`.
pub const NEGATIVE_ONE: u64 = 0xBFF0_0000_0000_0000;

/// Whether the sign bit is set.
pub open spec fn sign_set(bits: u64) -> bool {
    bits >= SIGN_BIT
}

/// The encoding with the sign bit cleared.
pub open spec fn magnitude(bits: u64) -> int {
    bits as int % (SIGN_BIT as int)
}

/// NaN: all exponent bits set and a non-zero fraction.
pub open spec fn spec_is_nan(bits: u64) -> bool {
    magnitude(bits) > POSITIVE_INFINITY as int
}

/// `+0` or `-0`.
pub open spec fn spec_is_zero(bits: u64) -> bool {
    magnitude(bits) == 0
}

/// `+Infinity` or `-Infinity`.
pub open spec fn spec_is_infinite(bits: u64) -> bool {
    magnitude(bits) == POSITIVE_INFINITY as int
}

/// Neither NaN nor an infinity.
pub open spec fn spec_is_finite(bits: u64) -> bool {
    magnitude(bits) < POSITIVE_INFINITY as int
}

/// IEEE-754 equality: NaN equals nothing, the two zeros are equal, and
/// every other value equals only itself.
pub open spec fn spec_numeric_eq(a: u64, b: u64) -> bool {
    !spec_is_nan(a) && !spec_is_nan(b) && (a == b || (spec_is_zero(a) && spec_is_zero(b)))
}

/// IEEE-754 `<`: false when either side is NaN or both are zeros; among
/// non-negative encodings a larger magnitude is larger, among negative
/// encodings it is smaller, and a negative encoding lies below a
/// non-negative one.
pub open spec fn spec_numeric_lt(a: u64, b: u64) -> bool {
    &&& !spec_is_nan(a)
    &&& !spec_is_nan(b)
    &&& !(spec_is_zero(a) && spec_is_zero(b))
    &&& if !sign_set(a) && !sign_set(b) {
        magnitude(a) < magnitude(b)
    } else if sign_set(a) && sign_set(b) {
        magnitude(a) > magnitude(b)
    } else {
        sign_set(a)
    }
}

/// The same magnitude with the opposite sign.
pub open spec fn spec_negate(bits: u64) -> u64 {
    if sign_set(bits) {
        (bits - SIGN_BIT) as u64
    } else {
        (bits + SIGN_BIT) as u64
    }
}

/// Whether `bits` encodes a NaN.
pub fn is_nan(bits: u64) -> (r: bool)
    ensures
        r == spec_is_nan(bits),
{
    bits % SIGN_BIT > POSITIVE_INFINITY
}

/// Whether `bits` encodes `+0` or `-0`.
pub fn is_zero(bits: u64) -> (r: bool)
    ensures
        r == spec_is_zero(bits),
{
    bits % SIGN_BIT == 0
}

/// Whether `bits` encodes an infinity.
pub fn is_infinite(bits: u64) -> (r: bool)
    ensures
        r == spec_is_infinite(bits),
{
    bits % SIGN_BIT == POSITIVE_INFINITY
}

/// Whether `bits` encodes a finite number.
pub fn is_finite(bits: u64) -> (r: bool)
    ensures
        r == spec_is_finite(bits),
{
    bits % SIGN_BIT < POSITIVE_INFINITY
}

/// Whether the sign bit of `bits` is set (negative numbers, `-0`, and
/// NaNs with the sign bit).
pub fn is_sign_negative(bits: u64) -> (r: bool)
    ensures
        r == sign_set(bits),
{
    bits >= SIGN_BIT
}

/// IEEE-754 equality of two encodings.
pub fn numeric_eq(a: u64, b: u64) -> (r: bool)
    ensures
        r == spec_numeric_eq(a, b),
{
    !is_nan(a) && !is_nan(b) && (a == b || (is_zero(a) && is_zero(b)))
}

/// IEEE-754 `<` of two encodings.
pub fn numeric_lt(a: u64, b: u64) -> (r: bool)
    ensures
        r == spec_numeric_lt(a, b),
{
    if is_nan(a) || is_nan(b) || (is_zero(a) && is_zero(b)) {
        false
    } else {
        let sa = a >= SIGN_BIT;
        let sb = b >= SIGN_BIT;
        let ma = a % SIGN_BIT;
        let mb = b % SIGN_BIT;
        if !sa && !sb {
            ma < mb
        } else if sa && sb {
            ma > mb
        } else {
            sa
        }
    }
}

/// Unary minus: flips the sign bit.
pub fn negate(bits: u64) -> (r: u64)
    ensures
        r == spec_negate(bits),
{
    if bits >= SIGN_BIT {
        bits - SIGN_BIT
    } else {
        bits + SIGN_BIT
    }
}

/// 2^32.
pub const TWO_POW_32: u64 = 0x1_0000_0000;

/// 2^52: the weight of the lowest exponent bit.
pub const TWO_POW_52: u64 = 0x10_0000_0000_0000;

/// The biased exponent field.
pub open spec fn exponent_field(bits: u64) -> int {
    magnitude(bits) / (pow2(52) as int)
}

/// The fraction field.
pub open spec fn fraction_field(bits: u64) -> int {
    magnitude(bits) % (pow2(52) as int)
}

/// The integer significand of a finite encoding: the fraction, with the
/// implicit leading bit of a normal number.
pub open spec fn significand(bits: u64) -> int {
    if exponent_field(bits) == 0 {
        fraction_field(bits)
    } else {
        fraction_field(bits) + pow2(52)
    }
}

/// The power of two the significand of a finite encoding is scaled by:
/// its magnitude is `significand(bits) * 2^binary_exponent(bits)`.
pub open spec fn binary_exponent(bits: u64) -> int {
    (if exponent_field(bits) == 0 {
        1
    } else {
        exponent_field(bits)
    }) - 1075
}

/// The magnitude of a finite encoding, truncated towards zero.
pub open spec fn truncated_magnitude(bits: u64) -> int {
    if binary_exponent(bits) >= 0 {
        significand(bits) * pow2(binary_exponent(bits) as nat)
    } else {
        significand(bits) / (pow2((-binary_exponent(bits)) as nat) as int)
    }
}

/// A finite number truncated towards zero.
pub open spec fn spec_truncate(bits: u64) -> int {
    if sign_set(bits) {
        -truncated_magnitude(bits)
    } else {
        truncated_magnitude(bits)
    }
}

/// The signed 32-bit integer congruent to `x` modulo 2^32.
pub open spec fn spec_wrap_i32(x: int) -> i32 {
    let w = x % 4294967296;
    if w >= 2147483648 {
        (w - 4294967296) as i32
    } else {
        w as i32
    }
}

/// `ToInt32` of a number: NaN and the infinities give `0`; a finite
/// number is truncated towards zero and taken modulo 2^32 into the signed
/// 32-bit range.
pub open spec fn spec_number_to_int32(bits: u64) -> i32 {
    if !spec_is_finite(bits) {
        0
    } else {
        spec_wrap_i32(spec_truncate(bits))
    }
}

/// The integer a finite encoding denotes, when it denotes one.
pub open spec fn spec_integer_value(bits: u64) -> Option<int> {
    if spec_is_finite(bits) && (binary_exponent(bits) >= 0 || significand(bits) % (pow2(
        (-binary_exponent(bits)) as nat,
    ) as int) == 0) {
        Some(spec_truncate(bits))
    } else {
        None
    }
}

/// A count as a 32-bit length: the count, or 2^32 - 1 when it is larger.
pub open spec fn clamped_length(n: nat) -> int {
    if n <= 4294967295 {
        n as int
    } else {
        4294967295
    }
}

/// `bits` encodes the integer `v`, zero as `+0`.
pub open spec fn encodes_integer(bits: u64, v: int) -> bool {
    spec_integer_value(bits) == Some(v) && (v == 0 ==> bits == POSITIVE_ZERO)
}

/// The integer `bits` encodes, when it encodes one in the signed 32-bit
/// range (zero only as `+0`).
pub open spec fn spec_small_integer(bits: u64) -> Option<int> {
    match spec_integer_value(bits) {
        Some(v) => if encodes_integer(bits, v) && -2147483648 <= v < 2147483648 {
            Some(v)
        } else {
            None
        },
        None => None,
    }
}

/// The integer `bits` encodes, when it encodes one in the signed 32-bit
/// range (zero only as `+0`).
pub fn small_integer(bits: u64) -> (r: Option<i32>)
    ensures
        r is Some <==> spec_small_integer(bits) is Some,
        r matches Some(i) ==> spec_small_integer(bits) == Some(i as int),
{
    proof {
        lemma2_to64();
        lemma2_to64_rest();
    }
    if bits == POSITIVE_ZERO {
        proof {
            lemma_pow2_pos(1074);
            lemma_basic_div(0, pow2(1074) as int);
            assert(binary_exponent(POSITIVE_ZERO) == -1074);
        }
        return Some(0);
    }
    if !is_finite(bits) {
        return None;
    }
    let mag = bits % SIGN_BIT;
    let e = mag / TWO_POW_52;
    let fraction = mag % TWO_POW_52;
    let m = if e == 0 {
        fraction
    } else {
        fraction + TWO_POW_52
    };
    assert(e == exponent_field(bits) && m == significand(bits));
    assert(m < 0x20_0000_0000_0000);
    if m == 0 {
        proof {
            lemma_pow2_pos(1074);
            lemma_basic_div(0, pow2(1074) as int);
            assert(binary_exponent(bits) == -1074);
            assert(spec_truncate(bits) == 0);
        }
        return None;
    }
    let eb = if e == 0 {
        1
    } else {
        e
    };
    if eb >= 1075 {
        proof {
            let k = (eb - 1075) as nat;
            lemma_pow2_pos(k);
            assert(m * pow2(k) >= m) by (nonlinear_arith)
                requires
                    pow2(k) > 0,
                    m > 0,
            ;
            assert(truncated_magnitude(bits) >= 2147483649);
        }
        return None;
    }
    let k = 1075 - eb;
    if k >= 53 {
        proof {
            if k > 53 {
                lemma_pow2_strictly_increases(53, k as nat);
            }
            lemma_basic_div(m as int, pow2(k as nat) as int);
            lemma_fundamental_div_mod(m as int, pow2(k as nat) as int);
            assert((m as int) % (pow2(k as nat) as int) == m);
        }
        return None;
    }
    let unit: u64 = 1u64 << k;
    proof {
        lemma_u64_shl_is_mul(1, k);
        lemma_pow2_pos(k as nat);
    }
    assert(unit == pow2(k as nat));
    if m % unit != 0 {
        return None;
    }
    let t = m / unit;
    proof {
        lemma_fundamental_div_mod(m as int, unit as int);
        assert(t >= 1) by (nonlinear_arith)
            requires
                m == unit * t + 0,
                m > 0,
                unit > 0,
                t >= 0,
        ;
        assert(truncated_magnitude(bits) == t);
    }
    if bits >= SIGN_BIT {
        if t > 2147483648 {
            return None;
        }
        Some((0i64 - t as i64) as i32)
    } else {
        if t >= 2147483648 {
            return None;
        }
        Some(t as i32)
    }
}

/// Negating a number modulo 2^32.
proof fn lemma_negated_mod(t: int, low: int)
    requires
        t >= 0,
        low == t % 4294967296,
    ensures
        (-t) % 4294967296 == (if low == 0 {
            0
        } else {
            4294967296 - low
        }),
{
    let q = t / 4294967296;
    lemma_fundamental_div_mod(t, 4294967296);
    if low == 0 {
        lemma_fundamental_div_mod_converse(-t, 4294967296, -q, 0);
    } else {
        lemma_fundamental_div_mod_converse(-t, 4294967296, -q - 1, 4294967296 - low);
    }
}

/// `ToInt32` of the number encoded by `bits`.
pub fn number_to_int32(bits: u64) -> (r: i32)
    ensures
        r == spec_number_to_int32(bits),
{
    if !is_finite(bits) {
        return 0;
    }
    proof {
        lemma2_to64();
        lemma2_to64_rest();
    }
    let mag = bits % SIGN_BIT;
    let e = mag / TWO_POW_52;
    let fraction = mag % TWO_POW_52;
    let m = if e == 0 {
        fraction
    } else {
        fraction + TWO_POW_52
    };
    assert(e == exponent_field(bits) && m == significand(bits));
    assert(m < 0x20_0000_0000_0000);
    let eb = if e == 0 {
        1
    } else {
        e
    };
    let low: u64 = if eb >= 1075 {
        let k = eb - 1075;
        if k >= 32 {
            proof {
                lemma_pow2_adds(32, (k - 32) as nat);
                lemma_mul_is_associative(m as int, pow2((k - 32) as nat) as int, pow2(32) as int);
                lemma_mul_is_commutative(pow2((k - 32) as nat) as int, pow2(32) as int);
                lemma_mod_multiples_basic(m * pow2((k - 32) as nat), pow2(32) as int);
            }
            0
        } else {
            let part = m % TWO_POW_32;
            proof {
                lemma_pow2_strictly_increases(k as nat, 32);
                assert(part * pow2(k as nat) <= u64::MAX) by (nonlinear_arith)
                    requires
                        part < 4294967296,
                        pow2(k as nat) < 4294967296,
                ;
                lemma_u64_shl_is_mul(part, k);
                lemma_mul_mod_noop_left(m as int, pow2(k as nat) as int, 4294967296);
            }
            (part << k) % TWO_POW_32
        }
    } else {
        let k = 1075 - eb;
        if k >= 64 {
            proof {
                lemma_pow2_strictly_increases(53, k as nat);
                lemma_basic_div(m as int, pow2(k as nat) as int);
            }
            0
        } else {
            proof {
                lemma_u64_shr_is_div(m, k);
            }
            (m >> k) % TWO_POW_32
        }
    };
    assert(low == truncated_magnitude(bits) % 4294967296);
    let w: u64 = if bits >= SIGN_BIT && low != 0 {
        TWO_POW_32 - low
    } else {
        low
    };
    proof {
        if sign_set(bits) {
            lemma_pow2_pos((-binary_exponent(bits)) as nat);
            if binary_exponent(bits) < 0 {
                lemma_div_pos_is_pos(m as int, pow2((-binary_exponent(bits)) as nat) as int);
            }
            assert(truncated_magnitude(bits) >= 0) by (nonlinear_arith)
                requires
                    binary_exponent(bits) >= 0 ==> truncated_magnitude(bits) == m * pow2(binary_exponent(bits) as nat),
                    binary_exponent(bits) < 0 ==> truncated_magnitude(bits) >= 0,
                    m >= 0,
            ;
            lemma_negated_mod(truncated_magnitude(bits), low as int);
        }
        assert(w == spec_truncate(bits) % 4294967296);
    }
    if w >= 2147483648 {
        (w as i64 - 4294967296) as i32
    } else {
        w as i32
    }
}

/// The encoding of the integer `v` (exact: every integer of this size is
/// a binary64 number).
pub fn integer_to_number(v: i64) -> (r: u64)
    requires
        -4294967296 < v < 4294967296,
    ensures
        encodes_integer(r, v as int),
{
    proof {
        lemma2_to64();
        lemma2_to64_rest();
    }
    if v == 0 {
        proof {
            lemma_pow2_pos(1074);
            lemma_basic_div(0, pow2(1074) as int);
            assert(binary_exponent(POSITIVE_ZERO) == -1074);
        }
        return POSITIVE_ZERO;
    }
    let sign: u64 = if v < 0 {
        SIGN_BIT
    } else {
        0
    };
    let a: u64 = if v < 0 {
        (-v) as u64
    } else {
        v as u64
    };
    let mut p: u64 = 0;
    while (a >> (p + 1)) != 0
        invariant
            1 <= a < 4294967296,
            p <= 31,
            pow2(p as nat) <= a,
        decreases 31 - p,
    {
        proof {
            lemma2_to64();
            lemma_u64_shr_is_div(a, (p + 1) as u64);
            lemma_pow2_pos((p + 1) as nat);
            if a < pow2((p + 1) as nat) {
                lemma_basic_div(a as int, pow2((p + 1) as nat) as int);
            }
        }
        p = p + 1;
    }
    proof {
        lemma_u64_shr_is_div(a, (p + 1) as u64);
        lemma_pow2_pos((p + 1) as nat);
        let d = pow2((p + 1) as nat) as int;
        lemma_fundamental_div_mod(a as int, d);
        assert(a < d) by (nonlinear_arith)
            requires
                a == d * ((a as int) / d) + ((a as int) % d),
                (a as int) / d == 0,
                (a as int) % d < d,
        ;
        lemma_pow2_adds(p as nat, (52 - p) as nat);
        lemma_pow2_adds(1, p as nat);
        lemma_pow2_pos((52 - p) as nat);
        assert(pow2(52) <= a * pow2((52 - p) as nat) < 2 * pow2(52)) by (nonlinear_arith)
            requires
                pow2(p as nat) <= a < pow2((p + 1) as nat),
                pow2(p as nat) * pow2((52 - p) as nat) == pow2(52),
                pow2((p + 1) as nat) == 2 * pow2(p as nat),
                pow2((52 - p) as nat) > 0,
        ;
        lemma_u64_shl_is_mul(a, (52 - p) as u64);
    }
    let m = a << (52 - p);
    let r = sign + (p + 1023) * TWO_POW_52 + (m - TWO_POW_52);
    proof {
        let mag = (p + 1023) * TWO_POW_52 + (m - TWO_POW_52);
        assert(mag < SIGN_BIT);
        assert(magnitude(r) == mag);
        lemma_fundamental_div_mod_converse(mag as int, pow2(52) as int, (p + 1023) as int, (m - TWO_POW_52) as int);
        assert(exponent_field(r) == p + 1023);
        assert(significand(r) == m);
        assert(binary_exponent(r) == p as int - 52);
        lemma_mod_multiples_basic(a as int, pow2((52 - p) as nat) as int);
        lemma_div_by_multiple(a as int, pow2((52 - p) as nat) as int);
        assert(truncated_magnitude(r) == a);
    }
    r
}

/// The signed 32-bit integer congruent to `x` modulo 2^32.
pub fn wrap_to_i32(x: i64) -> (r: i32)
    requires
        -0x4000_0000_0000_0000 <= x <= 0x4000_0000_0000_0000,
    ensures
        r == spec_wrap_i32(x as int),
{
    let w: u64 = if x >= 0 {
        (x as u64) % TWO_POW_32
    } else {
        let a = (-x) as u64;
        let low = a % TWO_POW_32;
        proof {
            lemma_negated_mod(a as int, low as int);
        }
        if low == 0 {
            0
        } else {
            TWO_POW_32 - low
        }
    };
    if w >= 2147483648 {
        (w as i64 - 4294967296) as i32
    } else {
        w as i32
    }
}

/// Negation flips the sign, keeps the magnitude, and undoes itself.
pub proof fn lemma_negate_involutive(bits: u64)
    ensures
        spec_negate(spec_negate(bits)) == bits,
        magnitude(spec_negate(bits)) == magnitude(bits),
        sign_set(spec_negate(bits)) == !sign_set(bits),
{
}

/// IEEE-754 equality is symmetric, and reflexive away from NaN.
pub proof fn lemma_numeric_eq_symmetric(a: u64, b: u64)
    ensures
        spec_numeric_eq(a, b) == spec_numeric_eq(b, a),
        !spec_is_nan(a) ==> spec_numeric_eq(a, a),
        spec_is_nan(a) ==> !spec_numeric_eq(a, b),
{
}

/// `<` is irreflexive and asymmetric, and two encodings that are not
/// NaN are ordered one way or the other unless they are equal.
pub proof fn lemma_numeric_lt_order(a: u64, b: u64)
    ensures
        !spec_numeric_lt(a, a),
        spec_numeric_lt(a, b) ==> !spec_numeric_lt(b, a),
        spec_numeric_lt(a, b) ==> !spec_numeric_eq(a, b),
        !spec_is_nan(a) && !spec_is_nan(b) ==> (spec_numeric_lt(a, b) || spec_numeric_lt(b, a)
            || spec_numeric_eq(a, b)),
{
}

/// The named constants encode what their names say.
pub proof fn lemma_constants()
    ensures
        spec_is_nan(NAN),
        spec_is_infinite(POSITIVE_INFINITY) && !sign_set(POSITIVE_INFINITY),
        spec_is_infinite(NEGATIVE_INFINITY) && sign_set(NEGATIVE_INFINITY),
        spec_is_zero(POSITIVE_ZERO) && !sign_set(POSITIVE_ZERO),
        spec_is_finite(ONE) && !spec_is_zero(ONE) && !sign_set(ONE),
        spec_negate(ONE) == NEGATIVE_ONE,
        spec_numeric_lt(POSITIVE_ZERO, ONE),
        spec_numeric_lt(NEGATIVE_INFINITY, POSITIVE_INFINITY),
{
}

} // verus!
