//! Scalar numeric instructions as functions on values.

use vstd::prelude::*;
use vstd::std_specs::bits::{u32_leading_zeros, u32_trailing_zeros, u64_leading_zeros, u64_trailing_zeros};
use crate::float_bits::{
    below, equal, is_below, is_equal, is_nan, is_negative, is_pattern, max_of, maximum, min_of, minimum, negative,
    not_a_number, quiet, quieted, saturate, saturated, signed, truncate, truncated, with_sign,
};
use crate::machine::FloatCall;
use crate::types::{Value, WasmError};

verus! {

/// What a numeric instruction gives.
#[derive(Debug, Clone, Copy, PartialEq, Eq)]
pub enum Computed {
    Value(Value),
    Trap(WasmError),
    /// The result of a floating-point computation.
    Call(FloatCall),
}

// ---------------------------------------------------------------------------
// Integers

/// A truth value as an integer.
pub open spec fn truth(b: bool) -> Value {
    if b {
        Value::I32(1)
    } else {
        Value::I32(0)
    }
}

/// The number of one bits.
pub open spec fn ones(x: nat) -> nat
    decreases x,
{
    if x == 0 {
        0
    } else {
        x % 2 + ones(x / 2)
    }
}

/// The quotient rounded toward zero.
pub open spec fn quotient(a: int, b: int) -> int {
    let p = if a < 0 {
        -a
    } else {
        a
    };
    let q = if b < 0 {
        -b
    } else {
        b
    };
    if (a < 0) == (b < 0) {
        p / q
    } else {
        -(p / q)
    }
}

/// The remainder, with the sign of the dividend.
pub open spec fn remainder(a: int, b: int) -> int {
    let p = if a < 0 {
        -a
    } else {
        a
    };
    let q = if b < 0 {
        -b
    } else {
        b
    };
    if a < 0 {
        -(p % q)
    } else {
        p % q
    }
}

/// Dividend, divisor, quotient and remainder fit together, and the remainder is
/// smaller than the divisor.
pub proof fn division_fits(a: int, b: int)
    requires
        b != 0,
    ensures
        a == quotient(a, b) * b + remainder(a, b),
        -(if b < 0 { -b } else { b }) < remainder(a, b) < (if b < 0 { -b } else { b }),
{
    let p = if a < 0 {
        -a
    } else {
        a
    };
    let q = if b < 0 {
        -b
    } else {
        b
    };
    vstd::arithmetic::div_mod::lemma_fundamental_div_mod(p, q);
    let d = p / q;
    assert(q * d == d * q && (-d) * b == -(d * b) && d * (-b) == -(d * b)) by (nonlinear_arith);
}

/// The comparison numbered `k`: equal, not equal, then less, greater, less or equal
/// and greater or equal, each first with and then without sign.
pub open spec fn int_relation(k: int, a: int, b: int, ua: int, ub: int) -> bool {
    if k == 0 {
        a == b
    } else if k == 1 {
        a != b
    } else if k == 2 {
        a < b
    } else if k == 3 {
        ua < ub
    } else if k == 4 {
        a > b
    } else if k == 5 {
        ua > ub
    } else if k == 6 {
        a <= b
    } else if k == 7 {
        ua <= ub
    } else if k == 8 {
        a >= b
    } else {
        ua >= ub
    }
}

/// Rotation of 32 bits to the left.
pub open spec fn rotated32(x: u32, n: u32) -> u32 {
    if n % 32 == 0 {
        x
    } else {
        (x << (n % 32)) | (x >> ((32 - n % 32) as u32))
    }
}

/// Rotation of 64 bits to the left.
pub open spec fn rotated64(x: u64, n: u32) -> u64 {
    if n % 64 == 0 {
        x
    } else {
        (x << (n % 64)) | (x >> ((64 - n % 64) as u32))
    }
}

/// The 32-bit operation numbered `k`: add, subtract, multiply, divide and remainder
/// with and without sign, and, or, exclusive or, shifts and rotations.
pub open spec fn arith32(k: int, a: i32, b: i32) -> Result<i32, WasmError> {
    let n = b as u32 % 32;
    if k == 0 {
        Ok(a.wrapping_add(b))
    } else if k == 1 {
        Ok(a.wrapping_sub(b))
    } else if k == 2 {
        Ok(a.wrapping_mul(b))
    } else if k <= 6 && b == 0 {
        Err(WasmError::DivisionByZero)
    } else if k == 3 {
        if a == i32::MIN && b == -1 {
            Err(WasmError::IntegerOverflow)
        } else {
            Ok(quotient(a as int, b as int) as i32)
        }
    } else if k == 4 {
        Ok((a as u32 / b as u32) as i32)
    } else if k == 5 {
        Ok(remainder(a as int, b as int) as i32)
    } else if k == 6 {
        Ok((a as u32 % b as u32) as i32)
    } else if k == 7 {
        Ok(a & b)
    } else if k == 8 {
        Ok(a | b)
    } else if k == 9 {
        Ok(a ^ b)
    } else if k == 10 {
        Ok(((a as u32) << n) as i32)
    } else if k == 11 {
        Ok(a >> n)
    } else if k == 12 {
        Ok((a as u32 >> n) as i32)
    } else if k == 13 {
        Ok(rotated32(a as u32, n) as i32)
    } else {
        Ok(rotated32(a as u32, (32 - n) as u32) as i32)
    }
}

/// The 64-bit operation numbered `k`, in the same order.
pub open spec fn arith64(k: int, a: i64, b: i64) -> Result<i64, WasmError> {
    let n = b as u32 % 64;
    if k == 0 {
        Ok(a.wrapping_add(b))
    } else if k == 1 {
        Ok(a.wrapping_sub(b))
    } else if k == 2 {
        Ok(a.wrapping_mul(b))
    } else if k <= 6 && b == 0 {
        Err(WasmError::DivisionByZero)
    } else if k == 3 {
        if a == i64::MIN && b == -1 {
            Err(WasmError::IntegerOverflow)
        } else {
            Ok(quotient(a as int, b as int) as i64)
        }
    } else if k == 4 {
        Ok((a as u64 / b as u64) as i64)
    } else if k == 5 {
        Ok(remainder(a as int, b as int) as i64)
    } else if k == 6 {
        Ok((a as u64 % b as u64) as i64)
    } else if k == 7 {
        Ok(a & b)
    } else if k == 8 {
        Ok(a | b)
    } else if k == 9 {
        Ok(a ^ b)
    } else if k == 10 {
        Ok(((a as u64) << n) as i64)
    } else if k == 11 {
        Ok(a >> n)
    } else if k == 12 {
        Ok((a as u64 >> n) as i64)
    } else if k == 13 {
        Ok(rotated64(a as u64, n) as i64)
    } else {
        Ok(rotated64(a as u64, (64 - n) as u32) as i64)
    }
}

/// Rotating left by some bits and then by the rest of the width gives the number back.
pub proof fn rotation_undone(x: u32, n: u32)
    ensures
        rotated32(rotated32(x, n % 32), (32 - n % 32) as u32) == x,
{
    let k = n % 32;
    if k != 0 {
        let j = (32 - k) as u32;
        let y = (x << k) | (x >> j);
        assert((y << j) | (y >> k) == x) by (bit_vector)
            requires
                0 < k < 32,
                j == 32 - k,
                y == (x << k) | (x >> j),
        ;
    }
}

// ---------------------------------------------------------------------------
// Instructions

/// The result of an operation that may fail.
pub open spec fn of_i32(r: Result<i32, WasmError>) -> Computed {
    match r {
        Ok(v) => Computed::Value(Value::I32(v)),
        Err(e) => Computed::Trap(e),
    }
}

/// The result of an operation that may fail.
pub open spec fn of_i64(r: Result<i64, WasmError>) -> Computed {
    match r {
        Ok(v) => Computed::Value(Value::I64(v)),
        Err(e) => Computed::Trap(e),
    }
}

/// Whether an instruction takes two operands.
pub open spec fn is_binary(op: u8) -> bool {
    ||| 0x46 <= op <= 0x4F
    ||| 0x51 <= op <= 0x66
    ||| 0x6A <= op <= 0x78
    ||| 0x7C <= op <= 0x8A
    ||| 0x92 <= op <= 0x98
    ||| 0xA0 <= op <= 0xA6
}

/// Whether a numeric instruction concerns floating-point numbers.
pub open spec fn is_float(op: u8) -> bool {
    ||| 0x5B <= op <= 0x66
    ||| 0x8B <= op <= 0xA6
    ||| 0xA8 <= op <= 0xAB
    ||| 0xAE <= op <= 0xBF
}

/// Whether an opcode is that of a numeric instruction.
pub open spec fn is_numeric(op: u8) -> bool {
    0x45 <= op <= 0xC4
}

/// An integer instruction with one operand.
pub open spec fn int_unary(op: u8, v: Value) -> Value {
    let a = v.i32_or_zero();
    let w = v.i64_or_zero();
    match op {
        0x45 => truth(a == 0),
        0x50 => truth(w == 0),
        0x67 => Value::I32(u32_leading_zeros(a as u32) as i32),
        0x68 => Value::I32(u32_trailing_zeros(a as u32) as i32),
        0x69 => Value::I32(ones(a as u32 as nat) as i32),
        0x79 => Value::I64(u64_leading_zeros(w as u64) as i64),
        0x7A => Value::I64(u64_trailing_zeros(w as u64) as i64),
        0x7B => Value::I64(ones(w as u64 as nat) as i64),
        0xA7 => Value::I32(w as i32),
        0xAC => Value::I64(a as i64),
        0xAD => Value::I64(a as u32 as i64),
        0xC0 => Value::I32(a as i8 as i32),
        0xC1 => Value::I32(a as i16 as i32),
        0xC2 => Value::I64(w as i8 as i64),
        0xC3 => Value::I64(w as i16 as i64),
        _ => Value::I64(w as i32 as i64),
    }
}

/// An integer instruction with two operands.
pub open spec fn int_binary(op: u8, x: Value, y: Value) -> Computed {
    let a = x.i32_or_zero();
    let b = y.i32_or_zero();
    let v = x.i64_or_zero();
    let w = y.i64_or_zero();
    if op <= 0x4F {
        Computed::Value(
            truth(int_relation(op - 0x46, a as int, b as int, a as u32 as int, b as u32 as int)),
        )
    } else if op <= 0x5A {
        Computed::Value(
            truth(int_relation(op - 0x51, v as int, w as int, v as u64 as int, w as u64 as int)),
        )
    } else if op <= 0x78 {
        of_i32(arith32(op - 0x6A, a, b))
    } else {
        of_i64(arith64(op - 0x7C, v, w))
    }
}

/// A floating-point value with this pattern.
pub open spec fn float(x: u64, wide: bool) -> Value {
    if wide {
        Value::F64(x)
    } else {
        Value::F32(x as u32)
    }
}

/// The pattern of a floating-point value.
pub open spec fn pattern(v: Value, wide: bool) -> u64 {
    if wide {
        v.f64_or_zero()
    } else {
        v.f32_or_zero() as u64
    }
}

/// The comparison numbered `k`: equal, not equal, less, greater, less or equal,
/// greater or equal.
pub open spec fn float_relation(k: int, a: u64, b: u64, wide: bool) -> bool {
    if k == 0 {
        equal(a, b, wide)
    } else if k == 1 {
        !equal(a, b, wide)
    } else if k == 2 {
        below(a, b, wide)
    } else if k == 3 {
        below(b, a, wide)
    } else if k == 4 {
        below(a, b, wide) || equal(a, b, wide)
    } else {
        below(b, a, wide) || equal(a, b, wide)
    }
}

/// The operation numbered `k` on one floating-point operand: absolute value, negation,
/// then rounding up, down, toward zero and to the nearest, and square root. A NaN is
/// made quiet by the last five; other numbers are left to the embedder.
pub open spec fn float_unary(op: u8, k: int, x: u64, wide: bool) -> Computed {
    if k == 0 {
        Computed::Value(float(signed(x, wide, false), wide))
    } else if k == 1 {
        Computed::Value(float(signed(x, wide, !negative(x, wide)), wide))
    } else if is_nan(x, wide) {
        Computed::Value(float(quieted(x, wide), wide))
    } else {
        Computed::Call(FloatCall::Unary(op, float(x, wide)))
    }
}

/// A selection where there is one, else the sum, which is a quiet NaN.
pub open spec fn or_sum(r: Option<u64>, a: u64, b: u64, wide: bool) -> Computed {
    match r {
        Some(x) => Computed::Value(float(x, wide)),
        None => Computed::Call(
            FloatCall::Binary(
                if wide {
                    0xA0
                } else {
                    0x92
                },
                float(a, wide),
                float(b, wide),
            ),
        ),
    }
}

/// The operation numbered `k` on two floating-point operands: add, subtract, multiply,
/// divide, minimum, maximum, copy of the sign.
pub open spec fn float_binary(op: u8, k: int, a: u64, b: u64, wide: bool) -> Computed {
    if k <= 3 {
        Computed::Call(FloatCall::Binary(op, float(a, wide), float(b, wide)))
    } else if k == 4 {
        or_sum(minimum(a, b, wide), a, b, wide)
    } else if k == 5 {
        or_sum(maximum(a, b, wide), a, b, wide)
    } else {
        Computed::Value(float(signed(a, wide, negative(b, wide)), wide))
    }
}

/// The bounds of an integer type: width and sign.
pub open spec fn low_bound(long: bool, unsigned: bool) -> int {
    if unsigned {
        0
    } else if long {
        i64::MIN as int
    } else {
        i32::MIN as int
    }
}

/// The bounds of an integer type: width and sign.
pub open spec fn high_bound(long: bool, unsigned: bool) -> int {
    if unsigned {
        if long {
            u64::MAX as int
        } else {
            u32::MAX as int
        }
    } else if long {
        i64::MAX as int
    } else {
        i32::MAX as int
    }
}

/// An integer as a value of 32 or 64 bits.
pub open spec fn int_value(v: int, long: bool) -> Value {
    if long {
        Value::I64(v as i64)
    } else {
        Value::I32(v as i32)
    }
}

/// Truncation of a floating-point number, with a trap where it is out of range.
pub open spec fn trunc_instr(x: u64, wide: bool, long: bool, unsigned: bool) -> Computed {
    match truncated(x, wide, low_bound(long, unsigned), high_bound(long, unsigned)) {
        Ok(v) => Computed::Value(int_value(v, long)),
        Err(e) => Computed::Trap(e),
    }
}

/// Saturating truncation: the conversion numbered `sub` of those with the prefix 0xFC.
pub open spec fn sat_trunc(sub: u32, v: Value) -> Value {
    let unsigned = sub % 2 == 1;
    let wide = (sub / 2) % 2 == 1;
    let long = sub >= 4;
    int_value(
        saturated(pattern(v, wide), wide, low_bound(long, unsigned), high_bound(long, unsigned)),
        long,
    )
}

/// A conversion from or to floating point.
pub open spec fn conversion(op: u8, v: Value) -> Computed {
    match op {
        0xA8 => trunc_instr(pattern(v, false), false, false, false),
        0xA9 => trunc_instr(pattern(v, false), false, false, true),
        0xAA => trunc_instr(pattern(v, true), true, false, false),
        0xAB => trunc_instr(pattern(v, true), true, false, true),
        0xAE => trunc_instr(pattern(v, false), false, true, false),
        0xAF => trunc_instr(pattern(v, false), false, true, true),
        0xB0 => trunc_instr(pattern(v, true), true, true, false),
        0xB1 => trunc_instr(pattern(v, true), true, true, true),
        0xB2 | 0xB3 | 0xB7 | 0xB8 => Computed::Call(FloatCall::Unary(op, Value::I32(v.i32_or_zero()))),
        0xB4 | 0xB5 | 0xB9 | 0xBA => Computed::Call(FloatCall::Unary(op, Value::I64(v.i64_or_zero()))),
        0xB6 => Computed::Call(FloatCall::Unary(op, Value::F64(v.f64_or_zero()))),
        0xBB => Computed::Call(FloatCall::Unary(op, Value::F32(v.f32_or_zero()))),
        0xBC => Computed::Value(Value::I32(v.f32_or_zero() as i32)),
        0xBD => Computed::Value(Value::I64(v.f64_or_zero() as i64)),
        0xBE => Computed::Value(Value::F32(v.i32_or_zero() as u32)),
        _ => Computed::Value(Value::F64(v.i64_or_zero() as u64)),
    }
}

/// A numeric instruction with one operand.
pub open spec fn unary(op: u8, v: Value) -> Computed {
    if !is_float(op) {
        Computed::Value(int_unary(op, v))
    } else if op <= 0x91 {
        float_unary(op, op - 0x8B, pattern(v, false), false)
    } else if op <= 0x9F {
        float_unary(op, op - 0x99, pattern(v, true), true)
    } else {
        conversion(op, v)
    }
}

/// A numeric instruction with two operands.
pub open spec fn binary(op: u8, x: Value, y: Value) -> Computed {
    if !is_float(op) {
        int_binary(op, x, y)
    } else if op <= 0x60 {
        Computed::Value(truth(float_relation(op - 0x5B, pattern(x, false), pattern(y, false), false)))
    } else if op <= 0x66 {
        Computed::Value(truth(float_relation(op - 0x61, pattern(x, true), pattern(y, true), true)))
    } else if op <= 0x98 {
        float_binary(op, op - 0x92, pattern(x, false), pattern(y, false), false)
    } else {
        float_binary(op, op - 0xA0, pattern(x, true), pattern(y, true), true)
    }
}

/// No integer instruction asks for a floating-point computation.
pub proof fn integers_need_no_floats(op: u8, x: Value, y: Value)
    requires
        !is_float(op),
    ensures
        !(unary(op, x) is Call),
        !(binary(op, x, y) is Call),
{
}

/// Truncating a number and reinterpreting its pattern both leave the pattern as it is:
/// reinterpretation to an integer and back gives the value back.
pub proof fn reinterpretation_undone(x: u32, y: u64)
    ensures
        conversion(0xBE, conversion(0xBC, Value::F32(x))->Value_0) == Computed::Value(Value::F32(x)),
        conversion(0xBF, conversion(0xBD, Value::F64(y))->Value_0) == Computed::Value(Value::F64(y)),
{
    assert(x as i32 as u32 == x) by (bit_vector);
    assert(y as i64 as u64 == y) by (bit_vector);
}

// ---------------------------------------------------------------------------
// Execution

fn truth_value(b: bool) -> (r: Value)
    ensures
        r == truth(b),
{
    if b {
        Value::I32(1)
    } else {
        Value::I32(0)
    }
}

/// The number of one bits.
pub fn count_ones(x: u64) -> (r: u32)
    ensures
        r == ones(x as nat),
        r <= 64,
{
    let mut n: u32 = 0;
    let mut y: u64 = x;
    let mut left: u32 = 64;
    proof {
        vstd::arithmetic::power2::lemma2_to64();
        vstd::arithmetic::power2::lemma2_to64_rest();
    }
    while left > 0
        invariant
            left <= 64,
            n + left == 64 || n + left < 64,
            n + ones(y as nat) == ones(x as nat),
            y < vstd::arithmetic::power2::pow2(left as nat),
        decreases left,
    {
        proof {
            vstd::arithmetic::power2::lemma_pow2_unfold(left as nat);
        }
        n = n + (y % 2) as u32;
        y = y / 2;
        left = left - 1;
    }
    proof {
        vstd::arithmetic::power2::lemma2_to64();
    }
    n
}

/// The comparison numbered `k`.
fn compare_ints(k: u8, a: i64, b: i64, ua: u64, ub: u64) -> (r: bool)
    ensures
        r == int_relation(k as int, a as int, b as int, ua as int, ub as int),
{
    match k {
        0 => a == b,
        1 => a != b,
        2 => a < b,
        3 => ua < ub,
        4 => a > b,
        5 => ua > ub,
        6 => a <= b,
        7 => ua <= ub,
        8 => a >= b,
        _ => ua >= ub,
    }
}

/// The absolute value.
fn absolute(a: i64) -> (r: u64)
    ensures
        r == if a < 0 {
            -(a as int)
        } else {
            a as int
        },
{
    if a == i64::MIN {
        0x8000_0000_0000_0000
    } else if a < 0 {
        (-a) as u64
    } else {
        a as u64
    }
}

/// The quotient rounded toward zero.
fn divide(a: i64, b: i64) -> (r: i64)
    requires
        b != 0,
        !(a == i64::MIN && b == -1),
    ensures
        r == quotient(a as int, b as int),
{
    let p: u64 = absolute(a);
    let q: u64 = absolute(b);
    let d: u64 = p / q;
    proof {
        assert(d <= p) by (nonlinear_arith)
            requires
                d == p / q,
                q >= 1,
        ;
        if p == 0x8000_0000_0000_0000 && (a < 0) == (b < 0) {
            assert(q >= 2);
            assert(d < p) by (nonlinear_arith)
                requires
                    d == p / q,
                    q >= 2,
                    p > 0,
            ;
        }
    }
    if (a < 0) == (b < 0) {
        d as i64
    } else if d == 0x8000_0000_0000_0000 {
        i64::MIN
    } else {
        -(d as i64)
    }
}

/// The remainder, with the sign of the dividend.
fn modulo(a: i64, b: i64) -> (r: i64)
    requires
        b != 0,
    ensures
        r == remainder(a as int, b as int),
{
    let p: u64 = absolute(a);
    let q: u64 = absolute(b);
    let d: u64 = p % q;
    proof {
        assert(d < q) by (nonlinear_arith)
            requires
                d == p % q,
                q >= 1,
        ;
    }
    if a < 0 {
        -(d as i64)
    } else {
        d as i64
    }
}

fn rotate32(x: u32, n: u32) -> (r: u32)
    ensures
        r == rotated32(x, n),
{
    if n % 32 == 0 {
        x
    } else {
        (x << (n % 32)) | (x >> (32 - n % 32))
    }
}

fn rotate64(x: u64, n: u32) -> (r: u64)
    ensures
        r == rotated64(x, n),
{
    if n % 64 == 0 {
        x
    } else {
        (x << (n % 64)) | (x >> (64 - n % 64))
    }
}

proof fn narrow_quotient(a: i32, b: i32)
    requires
        b != 0,
        !(a == i32::MIN && b == -1),
    ensures
        i32::MIN <= quotient(a as int, b as int) <= i32::MAX,
{
    let p = if a < 0 {
        -a
    } else {
        a as int
    };
    let q = if b < 0 {
        -b
    } else {
        b as int
    };
    let d = p / q;
    assert(0 <= d <= p) by (nonlinear_arith)
        requires
            d == p / q,
            q >= 1,
            p >= 0,
    ;
    if p == 0x8000_0000 && (a < 0) == (b < 0) {
        assert(q >= 2);
        assert(d < p) by (nonlinear_arith)
            requires
                d == p / q,
                q >= 2,
                p > 0,
        ;
    }
}

proof fn narrow_remainder(a: i32, b: i32)
    requires
        b != 0,
    ensures
        i32::MIN <= remainder(a as int, b as int) <= i32::MAX,
{
    let p = if a < 0 {
        -a
    } else {
        a as int
    };
    let q = if b < 0 {
        -b
    } else {
        b as int
    };
    assert(0 <= p % q < q) by (nonlinear_arith)
        requires
            q >= 1,
    ;
}

/// The 32-bit operation numbered `k`.
fn compute32(k: u8, a: i32, b: i32) -> (r: Result<i32, WasmError>)
    ensures
        r == arith32(k as int, a, b),
{
    let n: u32 = b as u32 % 32;
    if 3 <= k && k <= 6 && b == 0 {
        return Err(WasmError::DivisionByZero);
    }
    match k {
        0 => Ok(a.wrapping_add(b)),
        1 => Ok(a.wrapping_sub(b)),
        2 => Ok(a.wrapping_mul(b)),
        3 => if a == i32::MIN && b == -1 {
            Err(WasmError::IntegerOverflow)
        } else {
            proof {
                narrow_quotient(a, b);
            }
            Ok(divide(a as i64, b as i64) as i32)
        },
        4 => {
            assert(b as u32 != 0) by (bit_vector)
                requires
                    b != 0,
            ;
            Ok((a as u32 / b as u32) as i32)
        },
        5 => {
            proof {
                narrow_remainder(a, b);
            }
            Ok(modulo(a as i64, b as i64) as i32)
        },
        6 => {
            assert(b as u32 != 0) by (bit_vector)
                requires
                    b != 0,
            ;
            Ok((a as u32 % b as u32) as i32)
        },
        7 => Ok(a & b),
        8 => Ok(a | b),
        9 => Ok(a ^ b),
        10 => Ok(((a as u32) << n) as i32),
        11 => Ok(a >> n),
        12 => Ok((a as u32 >> n) as i32),
        13 => Ok(rotate32(a as u32, n) as i32),
        _ => Ok(rotate32(a as u32, 32 - n) as i32),
    }
}

/// The 64-bit operation numbered `k`.
fn compute64(k: u8, a: i64, b: i64) -> (r: Result<i64, WasmError>)
    ensures
        r == arith64(k as int, a, b),
{
    let n: u32 = b as u32 % 64;
    if 3 <= k && k <= 6 && b == 0 {
        return Err(WasmError::DivisionByZero);
    }
    match k {
        0 => Ok(a.wrapping_add(b)),
        1 => Ok(a.wrapping_sub(b)),
        2 => Ok(a.wrapping_mul(b)),
        3 => if a == i64::MIN && b == -1 {
            Err(WasmError::IntegerOverflow)
        } else {
            Ok(divide(a, b))
        },
        4 => {
            assert(b as u64 != 0) by (bit_vector)
                requires
                    b != 0,
            ;
            Ok((a as u64 / b as u64) as i64)
        },
        5 => Ok(modulo(a, b)),
        6 => {
            assert(b as u64 != 0) by (bit_vector)
                requires
                    b != 0,
            ;
            Ok((a as u64 % b as u64) as i64)
        },
        7 => Ok(a & b),
        8 => Ok(a | b),
        9 => Ok(a ^ b),
        10 => Ok(((a as u64) << n) as i64),
        11 => Ok(a >> n),
        12 => Ok((a as u64 >> n) as i64),
        13 => Ok(rotate64(a as u64, n) as i64),
        _ => Ok(rotate64(a as u64, 64 - n) as i64),
    }
}

/// An integer instruction with one operand.
fn compute_int_unary(op: u8, v: Value) -> (r: Value)
    ensures
        r == int_unary(op, v),
{
    let a: i32 = v.as_i32();
    let w: i64 = v.as_i64();
    match op {
        0x45 => truth_value(a == 0),
        0x50 => truth_value(w == 0),
        0x67 => Value::I32((a as u32).leading_zeros() as i32),
        0x68 => Value::I32((a as u32).trailing_zeros() as i32),
        0x69 => Value::I32(count_ones((a as u32) as u64) as i32),
        0x79 => Value::I64((w as u64).leading_zeros() as i64),
        0x7A => Value::I64((w as u64).trailing_zeros() as i64),
        0x7B => Value::I64(count_ones(w as u64) as i64),
        0xA7 => Value::I32(w as i32),
        0xAC => Value::I64(a as i64),
        0xAD => Value::I64((a as u32) as i64),
        0xC0 => Value::I32((a as i8) as i32),
        0xC1 => Value::I32((a as i16) as i32),
        0xC2 => Value::I64((w as i8) as i64),
        0xC3 => Value::I64((w as i16) as i64),
        _ => Value::I64((w as i32) as i64),
    }
}

fn computed_i32(r: Result<i32, WasmError>) -> (c: Computed)
    ensures
        c == of_i32(r),
{
    match r {
        Ok(v) => Computed::Value(Value::I32(v)),
        Err(e) => Computed::Trap(e),
    }
}

fn computed_i64(r: Result<i64, WasmError>) -> (c: Computed)
    ensures
        c == of_i64(r),
{
    match r {
        Ok(v) => Computed::Value(Value::I64(v)),
        Err(e) => Computed::Trap(e),
    }
}

/// An integer instruction with two operands.
fn compute_int_binary(op: u8, x: Value, y: Value) -> (r: Computed)
    requires
        is_binary(op),
        !is_float(op),
    ensures
        r == int_binary(op, x, y),
{
    let a: i32 = x.as_i32();
    let b: i32 = y.as_i32();
    let v: i64 = x.as_i64();
    let w: i64 = y.as_i64();
    if op <= 0x4F {
        Computed::Value(
            truth_value(compare_ints(op - 0x46, a as i64, b as i64, (a as u32) as u64, (b as u32) as u64)),
        )
    } else if op <= 0x5A {
        Computed::Value(truth_value(compare_ints(op - 0x51, v, w, v as u64, w as u64)))
    } else if op <= 0x78 {
        computed_i32(compute32(op - 0x6A, a, b))
    } else {
        computed_i64(compute64(op - 0x7C, v, w))
    }
}

/// A floating-point value with this pattern.
pub fn float_value(x: u64, wide: bool) -> (r: Value)
    ensures
        r == float(x, wide),
{
    if wide {
        Value::F64(x)
    } else {
        Value::F32(x as u32)
    }
}

/// The pattern of a floating-point value.
pub fn pattern_of(v: Value, wide: bool) -> (r: u64)
    ensures
        r == pattern(v, wide),
        is_pattern(r, wide),
{
    if wide {
        v.as_f64()
    } else {
        v.as_f32() as u64
    }
}

/// The comparison numbered `k`.
pub fn compare_floats(k: u8, a: u64, b: u64, wide: bool) -> (r: bool)
    ensures
        r == float_relation(k as int, a, b, wide),
{
    match k {
        0 => is_equal(a, b, wide),
        1 => !is_equal(a, b, wide),
        2 => is_below(a, b, wide),
        3 => is_below(b, a, wide),
        4 => is_below(a, b, wide) || is_equal(a, b, wide),
        _ => is_below(b, a, wide) || is_equal(a, b, wide),
    }
}

/// The operation numbered `k` on one floating-point operand.
fn compute_float_unary(op: u8, k: u8, x: u64, wide: bool) -> (r: Computed)
    requires
        is_pattern(x, wide),
    ensures
        r == float_unary(op, k as int, x, wide),
{
    if k == 0 {
        Computed::Value(float_value(with_sign(x, wide, false), wide))
    } else if k == 1 {
        Computed::Value(float_value(with_sign(x, wide, !is_negative(x, wide)), wide))
    } else if not_a_number(x, wide) {
        Computed::Value(float_value(quiet(x, wide), wide))
    } else {
        Computed::Call(FloatCall::Unary(op, float_value(x, wide)))
    }
}

fn selection_or_sum(s: Option<u64>, a: u64, b: u64, wide: bool) -> (r: Computed)
    ensures
        r == or_sum(s, a, b, wide),
{
    match s {
        Some(x) => Computed::Value(float_value(x, wide)),
        None => Computed::Call(
            FloatCall::Binary(
                if wide {
                    0xA0
                } else {
                    0x92
                },
                float_value(a, wide),
                float_value(b, wide),
            ),
        ),
    }
}

/// The operation numbered `k` on two floating-point operands.
fn compute_float_binary(op: u8, k: u8, a: u64, b: u64, wide: bool) -> (r: Computed)
    requires
        is_pattern(a, wide),
    ensures
        r == float_binary(op, k as int, a, b, wide),
{
    if k <= 3 {
        Computed::Call(FloatCall::Binary(op, float_value(a, wide), float_value(b, wide)))
    } else if k == 4 {
        selection_or_sum(min_of(a, b, wide), a, b, wide)
    } else if k == 5 {
        selection_or_sum(max_of(a, b, wide), a, b, wide)
    } else {
        Computed::Value(float_value(with_sign(a, wide, is_negative(b, wide)), wide))
    }
}

fn bounds(long: bool, unsigned: bool) -> (r: (i128, i128))
    ensures
        r.0 == low_bound(long, unsigned),
        r.1 == high_bound(long, unsigned),
{
    if unsigned {
        if long {
            (0, u64::MAX as i128)
        } else {
            (0, u32::MAX as i128)
        }
    } else if long {
        (i64::MIN as i128, i64::MAX as i128)
    } else {
        (i32::MIN as i128, i32::MAX as i128)
    }
}

fn value_of_int(v: i128, long: bool) -> (r: Value)
    ensures
        r == int_value(v as int, long),
{
    if long {
        Value::I64(v as i64)
    } else {
        Value::I32(v as i32)
    }
}

fn compute_trunc(v: Value, wide: bool, long: bool, unsigned: bool) -> (r: Computed)
    ensures
        r == trunc_instr(pattern(v, wide), wide, long, unsigned),
{
    let (low, high) = bounds(long, unsigned);
    match truncate(pattern_of(v, wide), wide, low, high) {
        Ok(x) => Computed::Value(value_of_int(x, long)),
        Err(e) => Computed::Trap(e),
    }
}

/// Saturating truncation.
pub fn compute_sat_trunc(sub: u32, v: Value) -> (r: Value)
    ensures
        r == sat_trunc(sub, v),
{
    let unsigned: bool = sub % 2 == 1;
    let wide: bool = (sub / 2) % 2 == 1;
    let long: bool = sub >= 4;
    let (low, high) = bounds(long, unsigned);
    value_of_int(saturate(pattern_of(v, wide), wide, low, high), long)
}

/// A conversion from or to floating point.
fn compute_conversion(op: u8, v: Value) -> (r: Computed)
    ensures
        r == conversion(op, v),
{
    match op {
        0xA8 => compute_trunc(v, false, false, false),
        0xA9 => compute_trunc(v, false, false, true),
        0xAA => compute_trunc(v, true, false, false),
        0xAB => compute_trunc(v, true, false, true),
        0xAE => compute_trunc(v, false, true, false),
        0xAF => compute_trunc(v, false, true, true),
        0xB0 => compute_trunc(v, true, true, false),
        0xB1 => compute_trunc(v, true, true, true),
        0xB2 | 0xB3 | 0xB7 | 0xB8 => Computed::Call(FloatCall::Unary(op, Value::I32(v.as_i32()))),
        0xB4 | 0xB5 | 0xB9 | 0xBA => Computed::Call(FloatCall::Unary(op, Value::I64(v.as_i64()))),
        0xB6 => Computed::Call(FloatCall::Unary(op, Value::F64(v.as_f64()))),
        0xBB => Computed::Call(FloatCall::Unary(op, Value::F32(v.as_f32()))),
        0xBC => Computed::Value(Value::I32(v.as_f32() as i32)),
        0xBD => Computed::Value(Value::I64(v.as_f64() as i64)),
        0xBE => Computed::Value(Value::F32(v.as_i32() as u32)),
        _ => Computed::Value(Value::F64(v.as_i64() as u64)),
    }
}

/// Whether an instruction takes two operands.
pub fn takes_two(op: u8) -> (r: bool)
    ensures
        r == is_binary(op),
{
    (0x46 <= op && op <= 0x4F) || (0x51 <= op && op <= 0x66) || (0x6A <= op && op <= 0x78) || (0x7C <= op && op
        <= 0x8A) || (0x92 <= op && op <= 0x98) || (0xA0 <= op && op <= 0xA6)
}

/// Whether a numeric instruction concerns floating-point numbers.
pub fn concerns_floats(op: u8) -> (r: bool)
    ensures
        r == is_float(op),
{
    (0x5B <= op && op <= 0x66) || (0x8B <= op && op <= 0xA6) || (0xA8 <= op && op <= 0xAB) || (0xAE <= op && op
        <= 0xBF)
}

/// A numeric instruction with one operand.
pub fn compute_unary(op: u8, v: Value) -> (r: Computed)
    requires
        is_numeric(op),
        !is_binary(op),
    ensures
        r == unary(op, v),
{
    if !concerns_floats(op) {
        Computed::Value(compute_int_unary(op, v))
    } else if op <= 0x91 {
        compute_float_unary(op, op - 0x8B, pattern_of(v, false), false)
    } else if op <= 0x9F {
        compute_float_unary(op, op - 0x99, pattern_of(v, true), true)
    } else {
        compute_conversion(op, v)
    }
}

/// A numeric instruction with two operands.
pub fn compute_binary(op: u8, x: Value, y: Value) -> (r: Computed)
    requires
        is_binary(op),
    ensures
        r == binary(op, x, y),
{
    if !concerns_floats(op) {
        compute_int_binary(op, x, y)
    } else if op <= 0x60 {
        Computed::Value(truth_value(compare_floats(op - 0x5B, pattern_of(x, false), pattern_of(y, false), false)))
    } else if op <= 0x66 {
        Computed::Value(truth_value(compare_floats(op - 0x61, pattern_of(x, true), pattern_of(y, true), true)))
    } else if op <= 0x98 {
        compute_float_binary(op, op - 0x92, pattern_of(x, false), pattern_of(y, false), false)
    } else {
        compute_float_binary(op, op - 0xA0, pattern_of(x, true), pattern_of(y, true), true)
    }
}

} // verus!
