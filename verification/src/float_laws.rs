//! What the floating-point instructions decide and select, in terms of the numbers that the
//! bit patterns stand for.

use vstd::prelude::*;
use vstd::arithmetic::power2::{lemma2_to64, lemma_pow2_adds, lemma_pow2_pos, lemma_pow2_unfold, pow2};
use crate::float_bits::{
    below, equal, infinity, integer_magnitude, integer_part, is_nan, magnitude, negative, quieted, scale,
    significand,
};
use crate::machine::{FloatCall, Machine, Outcome};
use crate::numeric::{binary, float, pattern, unary};
use crate::scalar_laws::{casts32, casts64, unsigned32, unsigned64};
use crate::situation::{
    consumed, faces, faces_prefixed, operand, replaced, result_of, step_executes, traps, yields_at, yields_value,
};
use crate::step::{instruction, step};
use crate::types::{RuntimeClass, Value, WasmError};

verus! {

// ---------------------------------------------------------------------------
// Numbers

/// Two to the number of fraction bits.
pub open spec fn fraction_span(wide: bool) -> int {
    if wide {
        0x10_0000_0000_0000
    } else {
        0x80_0000
    }
}

/// The weight of the sign bit.
pub open spec fn top(wide: bool) -> int {
    if wide {
        0x8000_0000_0000_0000
    } else {
        0x8000_0000
    }
}

/// The pattern of an absolute value.
pub open spec fn size(x: int, wide: bool) -> int {
    x % top(wide)
}

/// Whether the sign bit is set.
pub open spec fn minus(x: int, wide: bool) -> bool {
    x >= top(wide)
}

/// The exponent field.
pub open spec fn exponent(x: int, wide: bool) -> int {
    size(x, wide) / fraction_span(wide)
}

/// The exponent field of infinities and of what is no number.
pub open spec fn last_exponent(wide: bool) -> int {
    if wide {
        0x7FF
    } else {
        0xFF
    }
}

/// Whether a pattern stands for no number: the last exponent and a fraction other than zero.
pub open spec fn no_number(x: int, wide: bool) -> bool {
    exponent(x, wide) == last_exponent(wide) && size(x, wide) % fraction_span(wide) != 0
}

/// The absolute value that a pattern of this size stands for, in multiples of the smallest
/// number above zero. An infinity comes after every other number.
pub open spec fn multiples(m: int, wide: bool) -> int {
    let f = m % fraction_span(wide);
    let e = m / fraction_span(wide);
    if e == 0 {
        f
    } else {
        (f + fraction_span(wide)) * pow2((e - 1) as nat)
    }
}

/// The number that a pattern stands for, in multiples of the smallest number above zero.
pub open spec fn quantity(x: int, wide: bool) -> int {
    if minus(x, wide) {
        -multiples(size(x, wide), wide)
    } else {
        multiples(size(x, wide), wide)
    }
}

proof fn multiples_grow(a: int, b: int, wide: bool)
    requires
        0 <= a < b,
    ensures
        0 <= multiples(a, wide) < multiples(b, wide),
{
    let s = fraction_span(wide);
    let (f, g) = (a % s, b % s);
    let (d, e) = (a / s, b / s);
    assert(a == d * s + f && b == e * s + g && 0 <= f < s && 0 <= g < s && 0 <= d <= e);
    if e > 0 {
        lemma_pow2_pos((e - 1) as nat);
    }
    if d == e {
        if e > 0 {
            let p = pow2((e - 1) as nat) as int;
            assert(0 <= (f + s) * p < (g + s) * p) by (nonlinear_arith)
                requires
                    0 <= f < g,
                    s > 0,
                    p > 0,
            ;
        }
    } else if d == 0 {
        let p = pow2((e - 1) as nat) as int;
        assert((g + s) * p >= s) by (nonlinear_arith)
            requires
                0 <= g,
                s > 0,
                p >= 1,
        ;
    } else {
        lemma_pow2_pos((d - 1) as nat);
        let p = pow2((d - 1) as nat) as int;
        lemma_pow2_adds((d - 1) as nat, (e - d) as nat);
        let r = pow2((e - d) as nat) as int;
        lemma_pow2_pos((e - d) as nat);
        lemma_pow2_unfold((e - d) as nat);
        lemma_pow2_pos((e - d - 1) as nat);
        assert(r >= 2);
        assert(0 <= (f + s) * p < (g + s) * (p * r)) by (nonlinear_arith)
            requires
                0 <= f < s,
                0 <= g,
                p > 0,
                r >= 2,
        ;
    }
}

/// Patterns are ordered, and tell no-numbers from numbers, as the fields say.
pub(crate) proof fn fields_agree(x: u64, wide: bool)
    requires
        wide || x <= 0xFFFF_FFFF,
    ensures
        magnitude(x, wide) == size(x as int, wide),
        negative(x, wide) == minus(x as int, wide),
        is_nan(x, wide) == no_number(x as int, wide),
        multiples(0, wide) == 0,
        multiples(size(x as int, wide), wide) >= 0,
        size(x as int, wide) > 0 ==> multiples(size(x as int, wide), wide) > 0,
{
    let m = size(x as int, wide);
    if wide {
        assert(m == x as int % 0x8000_0000_0000_0000);
        assert(m == magnitude(x, wide));
        assert(no_number(x as int, wide) <==> m > 0x7FF0_0000_0000_0000);
    } else {
        assert(m == x as int % 0x8000_0000);
        assert(m == magnitude(x, wide));
        assert(no_number(x as int, wide) <==> m > 0x7F80_0000);
    }
    if m > 0 {
        multiples_grow(0, m, wide);
    }
}

pub(crate) proof fn order_agrees(x: u64, y: u64, wide: bool)
    requires
        wide || (x <= 0xFFFF_FFFF && y <= 0xFFFF_FFFF),
    ensures
        ({
            let numbers = !no_number(x as int, wide) && !no_number(y as int, wide);
            &&& below(x, y, wide) <==> numbers && quantity(x as int, wide) < quantity(y as int, wide)
            &&& below(y, x, wide) <==> numbers && quantity(y as int, wide) < quantity(x as int, wide)
            &&& equal(x, y, wide) <==> numbers && quantity(x as int, wide) == quantity(y as int, wide)
        }),
{
    fields_agree(x, wide);
    fields_agree(y, wide);
    let (m, n) = (size(x as int, wide), size(y as int, wide));
    if m < n {
        multiples_grow(m, n, wide);
    } else if n < m {
        multiples_grow(n, m, wide);
    }
}

// ---------------------------------------------------------------------------
// Operands

/// Whether the value is a floating-point number of this precision with this pattern.
pub open spec fn is_float_of(v: Value, wide: bool, x: int) -> bool {
    if wide {
        v is F64 && v->F64_0 == x
    } else {
        v is F32 && v->F32_0 == x
    }
}

/// Whether the machine stands before an instruction with two floating-point operands.
pub open spec fn faces_floats(m: Machine, op: u8, wide: bool, x: int, y: int) -> bool {
    &&& faces(m, op)
    &&& m.store.class != RuntimeClass::ProofGrade
    &&& m.stack_ptr >= 2
    &&& is_float_of(operand(m, 1), wide, x)
    &&& is_float_of(operand(m, 0), wide, y)
}

/// Whether the machine stands before an instruction with one floating-point operand.
pub open spec fn faces_float(m: Machine, op: u8, wide: bool, x: int) -> bool {
    &&& faces(m, op)
    &&& m.store.class != RuntimeClass::ProofGrade
    &&& m.stack_ptr >= 1
    &&& is_float_of(operand(m, 0), wide, x)
}

/// Whether the next instruction hands this computation out and waits, its `n` operands
/// taken.
pub open spec fn asks(m: Machine, n: int, f: FloatCall) -> bool {
    step(m) == (consumed(m, n, m.pc + 1), Outcome::Float(f))
}

proof fn enters_binary(m: Machine, op: u8, wide: bool, x: int, y: int)
    requires
        faces_floats(m, op, wide, x, y),
        0x5B <= op <= 0x66 || 0x92 <= op <= 0x98 || 0xA0 <= op <= 0xA6,
    ensures
        step(m) == crate::plain::given(consumed(m, 2, m.pc + 1), binary(op, operand(m, 1), operand(m, 0))),
        pattern(operand(m, 1), wide) == x,
        pattern(operand(m, 0), wide) == y,
        wide || (x <= 0xFFFF_FFFF && y <= 0xFFFF_FFFF),
        float(pattern(operand(m, 1), wide), wide) == operand(m, 1),
        float(pattern(operand(m, 0), wide), wide) == operand(m, 0),
{
    reveal(instruction);
    step_executes(m, op);
}

proof fn enters_unary(m: Machine, op: u8)
    requires
        faces(m, op),
        m.store.class != RuntimeClass::ProofGrade,
        m.stack_ptr >= 1,
        0x8B <= op <= 0x91 || 0x99 <= op <= 0x9F || 0xA8 <= op <= 0xAB || 0xAE <= op <= 0xBF,
    ensures
        step(m) == crate::plain::given(consumed(m, 1, m.pc + 1), unary(op, operand(m, 0))),
{
    reveal(instruction);
    step_executes(m, op);
}

// ---------------------------------------------------------------------------
// Laws

/// Comparisons of floating-point numbers give one where the numbers stand so, and zero
/// elsewhere. Of what is no number only `ne` gives one.
pub proof fn float_comparisons(m: Machine, k: u8, wide: bool, x: int, y: int)
    requires
        k < 6,
        faces_floats(m, ((if wide { 0x61u8 } else { 0x5Bu8 }) + k) as u8, wide, x, y),
    ensures
        ({
            let numbers = !no_number(x, wide) && !no_number(y, wide);
            let (p, q) = (quantity(x, wide), quantity(y, wide));
            let h = match k {
                0 => numbers && p == q,
                1 => !(numbers && p == q),
                2 => numbers && p < q,
                3 => numbers && p > q,
                4 => numbers && p <= q,
                _ => numbers && p >= q,
            };
            yields_value(
                m,
                2,
                Value::I32(
                    if h {
                        1
                    } else {
                        0
                    },
                ),
            )
        }),
{
    let op = ((if wide { 0x61u8 } else { 0x5Bu8 }) + k) as u8;
    enters_binary(m, op, wide, x, y);
    order_agrees(x as u64, y as u64, wide);
    let r = result_of(m, 2);
    assert(step(m).0 =~= replaced(m, 2, r, m.pc + 1));
}

/// `abs`, `neg` and `copysign` keep all bits but the sign, which is cleared, turned over, or
/// that of the second operand. They do so also where the pattern is no number.
pub proof fn float_signs(m: Machine, op: u8, wide: bool, x: int)
    requires
        op == (if wide { 0x99u8 } else { 0x8Bu8 }) || op == (if wide { 0x9Au8 } else { 0x8Cu8 }),
        faces_float(m, op, wide, x),
    ensures
        ({
            let r = crate::movement_laws::scalar_number(result_of(m, 1));
            &&& yields_value(m, 1, result_of(m, 1))
            &&& is_float_of(result_of(m, 1), wide, r)
            &&& size(r, wide) == size(x, wide)
            &&& minus(r, wide) == ((op == 0x8C || op == 0x9A) && !minus(x, wide))
        }),
{
    enters_unary(m, op);
    fields_agree(x as u64, wide);
    assert(step(m).0 =~= replaced(m, 1, result_of(m, 1), m.pc + 1));
}

/// `copysign` keeps all bits of the first operand but the sign, and takes that of the second.
pub proof fn float_copysign(m: Machine, wide: bool, x: int, y: int)
    requires
        faces_floats(m, if wide { 0xA6u8 } else { 0x98u8 }, wide, x, y),
    ensures
        ({
            let r = crate::movement_laws::scalar_number(result_of(m, 2));
            &&& yields_value(m, 2, result_of(m, 2))
            &&& is_float_of(result_of(m, 2), wide, r)
            &&& size(r, wide) == size(x, wide)
            &&& minus(r, wide) == minus(y, wide)
        }),
{
    enters_binary(m, if wide { 0xA6u8 } else { 0x98u8 }, wide, x, y);
    fields_agree(x as u64, wide);
    fields_agree(y as u64, wide);
    assert(step(m).0 =~= replaced(m, 2, result_of(m, 2), m.pc + 1));
}

/// `min` and `max` give one of the operands, and neither lies beyond it; of two zeros `min`
/// gives a negative one and `max` a positive one, where there is one. Where an operand is no
/// number the sum is asked for.
pub proof fn float_extremes(m: Machine, op: u8, wide: bool, x: int, y: int)
    requires
        op == (if wide { 0xA4u8 } else { 0x96u8 }) || op == (if wide { 0xA5u8 } else { 0x97u8 }),
        faces_floats(m, op, wide, x, y),
    ensures
        ({
            let max = op == 0x97 || op == 0xA5;
            let r = crate::movement_laws::scalar_number(result_of(m, 2));
            if no_number(x, wide) || no_number(y, wide) {
                asks(m, 2, FloatCall::Binary(if wide { 0xA0u8 } else { 0x92u8 }, operand(m, 1), operand(m, 0)))
            } else {
                &&& yields_value(m, 2, result_of(m, 2))
                &&& is_float_of(result_of(m, 2), wide, r)
                &&& r == x || r == y
                &&& !max ==> quantity(r, wide) <= quantity(x, wide) && quantity(r, wide) <= quantity(y, wide)
                &&& max ==> quantity(r, wide) >= quantity(x, wide) && quantity(r, wide) >= quantity(y, wide)
                &&& quantity(x, wide) == quantity(y, wide) ==> minus(r, wide) == if max {
                    minus(x, wide) && minus(y, wide)
                } else {
                    minus(x, wide) || minus(y, wide)
                }
            }
        }),
{
    enters_binary(m, op, wide, x, y);
    fields_agree(x as u64, wide);
    fields_agree(y as u64, wide);
    order_agrees(x as u64, y as u64, wide);
    if !no_number(x, wide) && !no_number(y, wide) {
        assert(step(m).0 =~= replaced(m, 2, result_of(m, 2), m.pc + 1));
    }
}

/// `add`, `sub`, `mul` and `div` are asked for, with the operands in order.
pub proof fn float_arithmetic_is_asked_for(m: Machine, k: u8, wide: bool, x: int, y: int)
    requires
        k < 4,
        faces_floats(m, ((if wide { 0xA0u8 } else { 0x92u8 }) + k) as u8, wide, x, y),
    ensures
        asks(
            m,
            2,
            FloatCall::Binary(((if wide { 0xA0u8 } else { 0x92u8 }) + k) as u8, operand(m, 1), operand(m, 0)),
        ),
{
    enters_binary(m, ((if wide { 0xA0u8 } else { 0x92u8 }) + k) as u8, wide, x, y);
}

/// Rounding and the square root are asked for, except of what is no number: that is given
/// back with the highest fraction bit set.
pub proof fn float_rounding_is_asked_for(m: Machine, k: u8, wide: bool, x: int)
    requires
        2 <= k <= 6,
        faces_float(m, ((if wide { 0x99u8 } else { 0x8Bu8 }) + k) as u8, wide, x),
    ensures
        ({
            let op = ((if wide { 0x99u8 } else { 0x8Bu8 }) + k) as u8;
            let r = crate::movement_laws::scalar_number(result_of(m, 1));
            let q = fraction_span(wide) / 2;
            if no_number(x, wide) {
                &&& yields_value(m, 1, result_of(m, 1))
                &&& is_float_of(result_of(m, 1), wide, r)
                &&& r == x || r == x + q
                &&& r / q % 2 == 1
                &&& no_number(r, wide) && minus(r, wide) == minus(x, wide)
            } else {
                asks(m, 1, FloatCall::Unary(op, operand(m, 0)))
            }
        }),
{
    let op = ((if wide { 0x99u8 } else { 0x8Bu8 }) + k) as u8;
    enters_unary(m, op);
    fields_agree(x as u64, wide);
    if no_number(x, wide) {
        fields_agree(quieted(x as u64, wide), wide);
        assert(step(m).0 =~= replaced(m, 1, result_of(m, 1), m.pc + 1));
    }
}

// ---------------------------------------------------------------------------
// Truncation

/// How many of the smallest numbers above zero make one.
pub open spec fn one(wide: bool) -> int {
    if wide {
        pow2(1074) as int
    } else {
        pow2(149) as int
    }
}

/// Whether `i` is the integer part of a number given in multiples of the smallest above zero:
/// no farther from zero than the number, by less than one, on the same side.
pub open spec fn is_integer_part(i: int, v: int, wide: bool) -> bool {
    if v >= 0 {
        i >= 0 && i * one(wide) <= v < (i + 1) * one(wide)
    } else {
        i <= 0 && (i - 1) * one(wide) < v <= i * one(wide)
    }
}

proof fn scaled(s: int, k: nat, n: nat, d: nat)
    requires
        s >= 0,
    ensures
        d == k + n ==> (s / (pow2(n) as int)) * pow2(d) <= s * pow2(k) < (s / (pow2(n) as int) + 1) * pow2(d),
        k == d + n ==> s * pow2(k) == (s * pow2(n)) * pow2(d),
{
    if d == k + n {
        lemma_pow2_adds(k, n);
        lemma_pow2_pos(k);
        lemma_pow2_pos(n);
        let (a, b, c) = (pow2(k) as int, pow2(n) as int, pow2(d) as int);
        vstd::arithmetic::div_mod::lemma_fundamental_div_mod(s, b);
        vstd::arithmetic::div_mod::lemma_mod_bound(s, b);
        let q = s / b;
        assert(q * c <= s * a < (q + 1) * c) by (nonlinear_arith)
            requires
                c == a * b,
                a > 0,
                s == b * q + s % b,
                0 <= s % b < b,
        ;
    }
    if k == d + n {
        lemma_pow2_adds(d, n);
        let (a, b, c) = (pow2(k) as int, pow2(n) as int, pow2(d) as int);
        assert(s * a == (s * b) * c) by (nonlinear_arith)
            requires
                a == c * b,
        ;
    }
}

pub(crate) proof fn part_agrees(x: u64, wide: bool)
    requires
        wide || x <= 0xFFFF_FFFF,
    ensures
        is_integer_part(integer_part(x, wide), quantity(x as int, wide), wide),
{
    fields_agree(x, wide);
    let m = size(x as int, wide);
    let e = m / fraction_span(wide);
    let s = significand(x, wide) as int;
    let d: nat = if wide {
        1074
    } else {
        149
    };
    let k: nat = if e == 0 {
        0
    } else {
        (e - 1) as nat
    };
    assert(pow2(0) == 1) by {
        lemma2_to64();
    }
    lemma_pow2_pos(d);
    if wide {
        assert(m / 0x10_0000_0000_0000 == e);
    } else {
        assert(m / 0x80_0000 == e);
    }
    assert(s >= 0 && multiples(m, wide) == s * pow2(k));
    assert(scale(x, wide) == k - d);
    if k >= d {
        scaled(s, k, (k - d) as nat, d);
        let i = integer_magnitude(x, wide);
        assert(i * pow2(d) == multiples(m, wide));
        assert((i + 1) * pow2(d) == i * pow2(d) + pow2(d)) by (nonlinear_arith);
        assert(i >= 0) by (nonlinear_arith)
            requires
                i == s * pow2((k - d) as nat),
                s >= 0,
        ;
    } else {
        scaled(s, k, (d - k) as nat, d);
        lemma_pow2_pos((d - k) as nat);
        vstd::arithmetic::div_mod::lemma_div_pos_is_pos(s, pow2((d - k) as nat) as int);
    }
    let i = integer_magnitude(x, wide);
    let c = pow2(d) as int;
    assert((-i - 1) * c == -((i + 1) * c) && (-i) * c == -(i * c)) by (nonlinear_arith);
    assert(0 * c == 0);
    if minus(x as int, wide) && multiples(m, wide) == 0 {
        assert(i * c <= 0);
        assert(i == 0) by (nonlinear_arith)
            requires
                i * c <= 0,
                i >= 0,
                c > 0,
        ;
    }
}

/// The lowest integer of a type.
pub open spec fn least(long: bool, unsigned: bool) -> int {
    if unsigned {
        0
    } else if long {
        -0x8000_0000_0000_0000
    } else {
        -0x8000_0000
    }
}

/// The highest integer of a type.
pub open spec fn greatest(long: bool, unsigned: bool) -> int {
    if long {
        if unsigned {
            0xFFFF_FFFF_FFFF_FFFF
        } else {
            0x7FFF_FFFF_FFFF_FFFF
        }
    } else if unsigned {
        0xFFFF_FFFF
    } else {
        0x7FFF_FFFF
    }
}

/// Whether the value is this integer of this type.
pub open spec fn is_int_of(v: Value, long: bool, unsigned: bool, i: int) -> bool {
    if long {
        v is I64 && i == if unsigned {
            unsigned64(v->I64_0)
        } else {
            v->I64_0 as int
        }
    } else {
        v is I32 && i == if unsigned {
            unsigned32(v->I32_0)
        } else {
            v->I32_0 as int
        }
    }
}

proof fn int_value_is(i: int, long: bool, unsigned: bool)
    requires
        least(long, unsigned) <= i <= greatest(long, unsigned),
    ensures
        is_int_of(crate::numeric::int_value(i, long), long, unsigned, i),
{
    if long {
        casts64(0, i as u64);
        casts64(i as i64, 0);
    } else {
        casts32(0, i as u32);
        casts32(i as i32, 0);
    }
}

/// `trunc` gives the integer part where the type holds it; it traps with an overflow where
/// it does not, and with an invalid conversion where there is no number.
pub proof fn truncations(m: Machine, op: u8, wide: bool, long: bool, unsigned: bool, x: int, i: int)
    requires
        op == (if long { 0xAEint } else { 0xA8int }) + (if wide { 2int } else { 0int }) + (if unsigned { 1int } else { 0int }),
        faces_float(m, op, wide, x),
        is_integer_part(i, quantity(x, wide), wide),
    ensures
        ({
            if no_number(x, wide) {
                traps(m, WasmError::InvalidConversionToInteger)
            } else if i < least(long, unsigned) || i > greatest(long, unsigned) {
                traps(m, WasmError::IntegerOverflow)
            } else {
                yields_value(m, 1, result_of(m, 1)) && is_int_of(result_of(m, 1), long, unsigned, i)
            }
        }),
{
    enters_unary(m, op);
    fields_agree(x as u64, wide);
    part_agrees(x as u64, wide);
    part_is_unique(i, integer_part(x as u64, wide), quantity(x, wide), wide);
    if !no_number(x, wide) && least(long, unsigned) <= i <= greatest(long, unsigned) {
        int_value_is(i, long, unsigned);
        assert(step(m).0 =~= replaced(m, 1, result_of(m, 1), m.pc + 1));
    }
}

/// A number has one integer part.
pub proof fn part_is_unique(i: int, j: int, v: int, wide: bool)
    requires
        is_integer_part(i, v, wide),
        is_integer_part(j, v, wide),
    ensures
        i == j,
{
    lemma_pow2_pos(1074);
    lemma_pow2_pos(149);
    let c = one(wide);
    if v >= 0 {
        assert(i == j) by (nonlinear_arith)
            requires
                i * c <= v < (i + 1) * c,
                j * c <= v < (j + 1) * c,
                c > 0,
        ;
    } else {
        assert(i == j) by (nonlinear_arith)
            requires
                (i - 1) * c < v <= i * c,
                (j - 1) * c < v <= j * c,
                c > 0,
        ;
    }
}

/// The truncations that do not trap give the integer part, or the end of the type nearest to
/// it, and zero where there is no number.
pub proof fn saturating_truncations(
    m: Machine,
    sub: u32,
    at: int,
    wide: bool,
    long: bool,
    unsigned: bool,
    x: int,
    i: int,
)
    requires
        sub == (if long { 4int } else { 0int }) + (if wide { 2int } else { 0int }) + (if unsigned { 1int } else { 0int }),
        faces_prefixed(m, 0xFC, sub, at),
        m.store.class != RuntimeClass::ProofGrade,
        m.stack_ptr >= 1,
        is_float_of(operand(m, 0), wide, x),
        is_integer_part(i, quantity(x, wide), wide),
    ensures
        ({
            let r = result_of(m, 1);
            &&& yields_at(m, 1, r, at)
            &&& no_number(x, wide) ==> is_int_of(r, long, unsigned, 0)
            &&& !no_number(x, wide) ==> {
                &&& i < least(long, unsigned) ==> is_int_of(r, long, unsigned, least(long, unsigned))
                &&& i > greatest(long, unsigned) ==> is_int_of(r, long, unsigned, greatest(long, unsigned))
                &&& least(long, unsigned) <= i <= greatest(long, unsigned) ==> is_int_of(r, long, unsigned, i)
            }
        }),
{
    reveal(instruction);
    step_executes(m, 0xFC);
    fields_agree(x as u64, wide);
    part_agrees(x as u64, wide);
    part_is_unique(i, integer_part(x as u64, wide), quantity(x, wide), wide);
    int_value_is(0, long, unsigned);
    int_value_is(least(long, unsigned), long, unsigned);
    int_value_is(greatest(long, unsigned), long, unsigned);
    if least(long, unsigned) <= i <= greatest(long, unsigned) {
        int_value_is(i, long, unsigned);
    }
    assert(sub % 2 == (if unsigned { 1u32 } else { 0u32 }));
    assert((sub / 2) % 2 == (if wide { 1u32 } else { 0u32 }));
    assert(step(m).0 =~= replaced(m, 1, result_of(m, 1), at));
}

/// Reinterpretations keep the bits.
pub proof fn reinterpretations(m: Machine, op: u8, v: Value)
    requires
        0xBC <= op <= 0xBF,
        faces(m, op),
        m.store.class != RuntimeClass::ProofGrade,
        m.stack_ptr >= 1,
        operand(m, 0) == v,
        op == 0xBC ==> v is F32,
        op == 0xBD ==> v is F64,
        op == 0xBE ==> v is I32,
        op == 0xBF ==> v is I64,
    ensures
        ({
            let r = result_of(m, 1);
            &&& yields_value(m, 1, r)
            &&& op == 0xBC ==> r is I32 && unsigned32(r->I32_0) == v->F32_0
            &&& op == 0xBD ==> r is I64 && unsigned64(r->I64_0) == v->F64_0
            &&& op == 0xBE ==> r is F32 && r->F32_0 == unsigned32(v->I32_0)
            &&& op == 0xBF ==> r is F64 && r->F64_0 == unsigned64(v->I64_0)
        }),
{
    enters_unary(m, op);
    match v {
        Value::F32(x) => casts32(0, x),
        Value::F64(x) => casts64(0, x),
        Value::I32(x) => casts32(x, 0),
        Value::I64(x) => casts64(x, 0),
        _ => {},
    }
    assert(step(m).0 =~= replaced(m, 1, result_of(m, 1), m.pc + 1));
}

/// Conversions to floating point are asked for, with the operand as it is.
pub proof fn conversions_are_asked_for(m: Machine, op: u8, v: Value)
    requires
        0xB2 <= op <= 0xBB,
        faces(m, op),
        m.store.class != RuntimeClass::ProofGrade,
        m.stack_ptr >= 1,
        operand(m, 0) == v,
        op == 0xB2 || op == 0xB3 || op == 0xB7 || op == 0xB8 ==> v is I32,
        op == 0xB4 || op == 0xB5 || op == 0xB9 || op == 0xBA ==> v is I64,
        op == 0xB6 ==> v is F64,
        op == 0xBB ==> v is F32,
    ensures
        asks(m, 1, FloatCall::Unary(op, v)),
{
    enters_unary(m, op);
}

} // verus!
