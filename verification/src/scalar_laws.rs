//! What the scalar integer instructions compute, in terms of numbers and of bits.

use vstd::prelude::*;
use vstd::std_specs::bits::{
    axiom_u32_leading_zeros, axiom_u32_trailing_zeros, axiom_u64_leading_zeros, axiom_u64_trailing_zeros,
    u32_leading_zeros, u64_leading_zeros,
};
use crate::machine::Machine;
use vstd::arithmetic::power2::{lemma_pow2_unfold, pow2};
use crate::numeric::{
    binary, division_fits, is_binary, is_float, ones, quotient, remainder, rotated32, rotated64, unary, Computed,
};
use crate::situation::{faces, operand, replaced, result_of, step_executes, traps, yields_value};
use crate::step::{instruction, step};
use crate::types::{RuntimeClass, Value, WasmError};

verus! {

// ---------------------------------------------------------------------------
// Numbers and bits

/// The bits of a 32-bit integer as an unsigned number.
pub open spec fn unsigned32(a: i32) -> int {
    if a < 0 {
        a + 0x1_0000_0000
    } else {
        a as int
    }
}

/// The bits of a 64-bit integer as an unsigned number.
pub open spec fn unsigned64(a: i64) -> int {
    if a < 0 {
        a + 0x1_0000_0000_0000_0000
    } else {
        a as int
    }
}

/// Whether two numbers agree in their low bits, that is, modulo `span`.
pub open spec fn agree(x: int, y: int, span: int) -> bool {
    (x - y) % span == 0
}

/// Bit `k` of a 32-bit integer.
pub open spec fn bit32(a: i32, k: u32) -> bool {
    (a as u32 >> k) & 1 == 1
}

/// Bit `k` of a 64-bit integer.
pub open spec fn bit64(a: i64, k: u64) -> bool {
    (a as u64 >> k) & 1 == 1
}

pub proof fn casts32(a: i32, x: u32)
    ensures
        a as u32 == unsigned32(a),
        unsigned32(x as i32) == x,
        (a as u32) as i32 == a,
{
    assert((a >= 0 ==> a as u32 == a) && (a < 0 ==> a as u32 == a + 0x1_0000_0000) && ((x as i32) >= 0 ==> x as i32 == x)
        && ((x as i32) < 0 ==> x as i32 + 0x1_0000_0000 == x) && (a as u32) as i32 == a) by (bit_vector);
}

pub proof fn casts64(a: i64, x: u64)
    ensures
        a as u64 == unsigned64(a),
        unsigned64(x as i64) == x,
        (a as u64) as i64 == a,
{
    assert((a >= 0 ==> a as u64 == a) && (a < 0 ==> a as u64 == a + 0x1_0000_0000_0000_0000) && (x as i64 >= 0 ==> x
        as i64 == x) && ((x as i64) < 0 ==> x as i64 + 0x1_0000_0000_0000_0000 == x) && (a as u64) as i64 == a)
        by (bit_vector);
}

// ---------------------------------------------------------------------------
// One instruction

/// A numeric instruction with two operands takes them off the stack, the second from the
/// top, and leaves its result there.
proof fn takes_two(m: Machine, op: u8, x: Value, y: Value)
    requires
        faces(m, op),
        0x45 <= op <= 0xC4,
        is_binary(op),
        is_float(op) ==> m.store.class != RuntimeClass::ProofGrade,
        m.stack_ptr >= 2,
        operand(m, 1) == x,
        operand(m, 0) == y,
    ensures
        binary(op, x, y) matches Computed::Value(v) ==> yields_value(m, 2, v) && result_of(m, 2) == v,
        binary(op, x, y) matches Computed::Trap(e) ==> traps(m, e),
{
    reveal(instruction);
    step_executes(m, op);
    if let Computed::Value(v) = binary(op, x, y) {
        assert(step(m).0 =~= replaced(m, 2, v, m.pc + 1));
    }
}

/// A numeric instruction with one operand leaves its result in place of it.
proof fn takes_one(m: Machine, op: u8, x: Value)
    requires
        faces(m, op),
        0x45 <= op <= 0xC4,
        !is_binary(op),
        is_float(op) ==> m.store.class != RuntimeClass::ProofGrade,
        m.stack_ptr >= 1,
        operand(m, 0) == x,
    ensures
        unary(op, x) matches Computed::Value(v) ==> yields_value(m, 1, v) && result_of(m, 1) == v,
        unary(op, x) matches Computed::Trap(e) ==> traps(m, e),
{
    reveal(instruction);
    step_executes(m, op);
    if let Computed::Value(v) = unary(op, x) {
        assert(step(m).0 =~= replaced(m, 1, v, m.pc + 1));
    }
}

/// Whether the machine stands before a 32-bit instruction with these two operands.
pub open spec fn faces_i32s(m: Machine, op: u8, a: i32, b: i32) -> bool {
    faces(m, op) && m.stack_ptr >= 2 && operand(m, 1) == Value::I32(a) && operand(m, 0) == Value::I32(b)
}

/// Whether the machine stands before a 64-bit instruction with these two operands.
pub open spec fn faces_i64s(m: Machine, op: u8, a: i64, b: i64) -> bool {
    faces(m, op) && m.stack_ptr >= 2 && operand(m, 1) == Value::I64(a) && operand(m, 0) == Value::I64(b)
}

// ---------------------------------------------------------------------------
// Arithmetic

/// `i32.add`, `i32.sub` and `i32.mul` give the sum, the difference (the second operand
/// taken from the first) and the product, modulo two to the 32.
pub proof fn i32_arithmetic(m: Machine, op: u8, a: i32, b: i32)
    requires
        faces_i32s(m, op, a, b),
        0x6A <= op <= 0x6C,
    ensures
        ({
            let x = result_of(m, 2)->I32_0;
            &&& yields_value(m, 2, Value::I32(x))
            &&& op == 0x6A ==> agree(x as int, a + b, 0x1_0000_0000)
            &&& op == 0x6B ==> agree(x as int, a - b, 0x1_0000_0000)
            &&& op == 0x6C ==> agree(x as int, a * b, 0x1_0000_0000)
        }),
{
    takes_two(m, op, Value::I32(a), Value::I32(b));
    let p = a * b;
    let x = a.wrapping_mul(b);
    assert(agree(x as int, p, 0x1_0000_0000));
}

/// `i64.add`, `i64.sub` and `i64.mul` give the sum, the difference and the product,
/// modulo two to the 64.
pub proof fn i64_arithmetic(m: Machine, op: u8, a: i64, b: i64)
    requires
        faces_i64s(m, op, a, b),
        0x7C <= op <= 0x7E,
    ensures
        ({
            let x = result_of(m, 2)->I64_0;
            &&& yields_value(m, 2, Value::I64(x))
            &&& op == 0x7C ==> agree(x as int, a + b, 0x1_0000_0000_0000_0000)
            &&& op == 0x7D ==> agree(x as int, a - b, 0x1_0000_0000_0000_0000)
            &&& op == 0x7E ==> agree(x as int, a * b, 0x1_0000_0000_0000_0000)
        }),
{
    takes_two(m, op, Value::I64(a), Value::I64(b));
    let p = a * b;
    let x = a.wrapping_mul(b);
    assert(agree(x as int, p, 0x1_0000_0000_0000_0000));
}

/// The absolute value.
pub open spec fn size_of_number(a: int) -> int {
    if a < 0 {
        -a
    } else {
        a
    }
}

/// Whether `q` and `r` are the quotient and the remainder of `a` and `b` where division
/// rounds toward zero.
pub open spec fn divides(a: int, b: int, q: int, r: int) -> bool {
    &&& a == q * b + r
    &&& size_of_number(r) < size_of_number(b)
    &&& r > 0 ==> a > 0
    &&& r < 0 ==> a < 0
}

/// There is one quotient and one remainder.
pub proof fn division_is_unique(a: int, b: int, q: int, r: int, q2: int, r2: int)
    requires
        b != 0,
        divides(a, b, q, r),
        divides(a, b, q2, r2),
    ensures
        q == q2 && r == r2,
{
    assert((q - q2) * b == r2 - r) by (nonlinear_arith)
        requires
            q * b + r == q2 * b + r2,
    ;
    let d = q - q2;
    if d != 0 {
        assert(size_of_number(d * b) >= size_of_number(b)) by (nonlinear_arith)
            requires
                d != 0,
        ;
        assert(false);
    }
}

proof fn quotient_divides(a: int, b: int)
    requires
        b != 0,
    ensures
        divides(a, b, quotient(a, b), remainder(a, b)),
{
    division_fits(a, b);
    let p = size_of_number(a);
    let q = size_of_number(b);
    assert(0 <= p % q < q) by (nonlinear_arith)
        requires
            q >= 1,
            p >= 0,
    ;
    assert(p == 0 ==> p % q == 0) by (nonlinear_arith)
        requires
            q >= 1,
    ;
}

proof fn plain_quotient_divides(a: int, b: int)
    requires
        a >= 0,
        b > 0,
    ensures
        divides(a, b, a / b, a % b),
{
    assert(a == (a / b) * b + a % b && 0 <= a % b < b && (a == 0 ==> a % b == 0)) by (nonlinear_arith)
        requires
            a >= 0,
            b > 0,
    ;
}

proof fn narrow(a: int, b: int, q: int, r: int, top: int)
    requires
        divides(a, b, q, r),
        b != 0,
        top > 1,
        -top <= a < top,
        -top <= b < top,
        !(a == -top && b == -1),
    ensures
        -top <= q < top,
        -top <= r < top,
{
    if q >= top {
        assert(size_of_number(q * b) >= q) by (nonlinear_arith)
            requires
                b != 0,
                q > 0,
        ;
        assert(b == -1 || size_of_number(b) >= 2 || b == 1);
        if size_of_number(b) >= 2 {
            assert(size_of_number(q * b) >= 2 * q && (size_of_number(b) > 2 ==> size_of_number(q * b) >= q * size_of_number(b))) by (nonlinear_arith)
                requires
                    size_of_number(b) >= 2,
                    q > 0,
            ;
            assert(size_of_number(q * b) - size_of_number(b) >= q) by (nonlinear_arith)
                requires
                    size_of_number(b) >= 2,
                    q > 1,
            ;
        }
    } else if q < -top {
        assert(size_of_number(q * b) >= -q) by (nonlinear_arith)
            requires
                b != 0,
                q < 0,
        ;
        if size_of_number(b) >= 2 {
            assert(size_of_number(q * b) - size_of_number(b) >= -q) by (nonlinear_arith)
                requires
                    size_of_number(b) >= 2,
                    q < -1,
            ;
        }
    }
}

/// `i32.div_s`, `i32.div_u`, `i32.rem_s` and `i32.rem_u`: quotient and remainder, rounded
/// toward zero, with and without sign. Dividing by zero traps, and so does the one
/// quotient that is too large.
pub proof fn i32_division(m: Machine, op: u8, a: i32, b: i32)
    requires
        faces_i32s(m, op, a, b),
        0x6D <= op <= 0x70,
    ensures
        ({
            let x = result_of(m, 2)->I32_0;
            if b == 0 {
                traps(m, WasmError::DivisionByZero)
            } else if op == 0x6D && a == i32::MIN && b == -1 {
                traps(m, WasmError::IntegerOverflow)
            } else {
                &&& yields_value(m, 2, Value::I32(x))
                &&& op == 0x6D ==> exists|r: int| divides(a as int, b as int, x as int, r)
                &&& op == 0x6E ==> exists|r: int| divides(unsigned32(a), unsigned32(b), unsigned32(x), r)
                &&& op == 0x6F ==> exists|q: int| divides(a as int, b as int, q, x as int)
                &&& op == 0x70 ==> exists|q: int| divides(unsigned32(a), unsigned32(b), q, unsigned32(x))
            }
        }),
{
    takes_two(m, op, Value::I32(a), Value::I32(b));
    if b != 0 {
        casts32(a, 0);
        casts32(b, 0);
        quotient_divides(a as int, b as int);
        let (ua, ub) = (unsigned32(a), unsigned32(b));
        plain_quotient_divides(ua, ub);
        let (q, r) = (quotient(a as int, b as int), remainder(a as int, b as int));
        let (uq, ur) = ((a as u32 / b as u32), (a as u32 % b as u32));
        assert(uq == ua / ub && ur == ua % ub);
        casts32(0, uq);
        casts32(0, ur);
        let x = result_of(m, 2)->I32_0;
        if !(a == i32::MIN && b == -1) {
            narrow(a as int, b as int, q, r, 0x8000_0000);
            if op == 0x6D {
                assert(divides(a as int, b as int, x as int, r));
            } else if op == 0x6F {
                assert(divides(a as int, b as int, q, x as int));
            }
        } else {
            assert(0x8000_0000int % 1 == 0);
            if op == 0x6F {
                assert(divides(a as int, b as int, q, x as int));
            }
        }
        if op == 0x6E {
            assert(divides(ua, ub, unsigned32(x), ur as int));
        } else if op == 0x70 {
            assert(divides(ua, ub, uq as int, unsigned32(x)));
        }
    }
}

// ---------------------------------------------------------------------------
// Bits

/// `i32.and`, `i32.or` and `i32.xor` work bit by bit.
pub proof fn i32_bitwise(m: Machine, op: u8, a: i32, b: i32, k: u32)
    requires
        faces_i32s(m, op, a, b),
        0x71 <= op <= 0x73,
        k < 32,
    ensures
        ({
            let x = result_of(m, 2)->I32_0;
            &&& yields_value(m, 2, Value::I32(x))
            &&& op == 0x71 ==> bit32(x, k) == (bit32(a, k) && bit32(b, k))
            &&& op == 0x72 ==> bit32(x, k) == (bit32(a, k) || bit32(b, k))
            &&& op == 0x73 ==> bit32(x, k) == (bit32(a, k) != bit32(b, k))
        }),
{
    takes_two(m, op, Value::I32(a), Value::I32(b));
    assert({
        &&& (((a & b) as u32 >> k) & 1 == 1) == ((a as u32 >> k) & 1 == 1 && (b as u32 >> k) & 1 == 1)
        &&& (((a | b) as u32 >> k) & 1 == 1) == ((a as u32 >> k) & 1 == 1 || (b as u32 >> k) & 1 == 1)
        &&& (((a ^ b) as u32 >> k) & 1 == 1) == (((a as u32 >> k) & 1 == 1) != ((b as u32 >> k) & 1 == 1))
    }) by (bit_vector)
        requires
            k < 32,
    ;
}

proof fn shifted_bits32(a: i32, n: u32, k: u32)
    requires
        n < 32,
        k < 32,
    ensures
        bit32((((a as u32) << n) as i32), k) == (k >= n && bit32(a, (k - n) as u32)),
        bit32((a as u32 >> n) as i32, k) == (k + n < 32 && bit32(a, (k + n) as u32)),
        bit32(a >> n, k) == bit32(
            a,
            if k + n < 32 {
                (k + n) as u32
            } else {
                (32 - 1) as u32
            },
        ),
        bit32(rotated32(a as u32, n) as i32, ((k + n) % 32) as u32) == bit32(a, k),
        bit32(rotated32(a as u32, (32 - n) as u32) as i32, k) == bit32(a, ((k + n) % 32) as u32),
{
    let down = (k - n) as u32;
    let up = (k + n) as u32;
    let j = ((k + n) % 32) as u32;
    let i = (32 - n) as u32;
    let u = a as u32;
    assert({
        &&& (((((a as u32) << n) as i32) as u32 >> k) & 1 == 1) == (k >= n && (a as u32 >> down) & 1 == 1)
        &&& (((a as u32 >> n) as i32 as u32 >> k) & 1 == 1) == (k + n < 32 && (a as u32 >> up) & 1 == 1)
        &&& (((a >> n) as u32 >> k) & 1 == 1) == if k + n < 32 {
            (a as u32 >> up) & 1 == 1
        } else {
            (a as u32 >> (32 - 1)) & 1 == 1
        }
    }) by (bit_vector)
        requires
            n < 32,
            k < 32,
            k >= n ==> down == k - n,
            up == k + n,
    ;
    assert({
        &&& (((if n == 0 { u } else { (u << n) | (u >> i) }) as i32 as u32 >> j) & 1 == 1) == ((u >> k) & 1 == 1)
        &&& (((if n == 0 { u } else { (u << i) | (u >> n) }) as i32 as u32 >> k) & 1 == 1) == ((u >> j) & 1 == 1)
    }) by (bit_vector)
        requires
            n < 32,
            k < 32,
            j == (k + n) % 32,
            i == 32 - n,
    ;
}

/// `i32.shl`, `i32.shr_s`, `i32.shr_u`, `i32.rotl` and `i32.rotr` move the bits by the
/// second operand, modulo the width: up, down with copies of the sign, down with zeros,
/// and around.
pub proof fn i32_shifts(m: Machine, op: u8, a: i32, b: i32, k: u32)
    requires
        faces_i32s(m, op, a, b),
        0x74 <= op <= 0x78,
        k < 32,
    ensures
        ({
            let x = result_of(m, 2)->I32_0;
            let n = unsigned32(b) % 32;
            &&& yields_value(m, 2, Value::I32(x))
            &&& op == 0x74 ==> bit32(x, k) == (k >= n && bit32(a, (k - n) as u32))
            &&& op == 0x75 ==> bit32(
                x,
                k,
            ) == bit32(
                a,
                if k + n < 32 {
                    (k + n) as u32
                } else {
                    (32 - 1) as u32
                },
            )
            &&& op == 0x76 ==> bit32(x, k) == (k + n < 32 && bit32(a, (k + n) as u32))
            &&& op == 0x77 ==> bit32(x, ((k + n) % 32) as u32) == bit32(a, k)
            &&& op == 0x78 ==> bit32(x, k) == bit32(a, ((k + n) % 32) as u32)
        }),
{
    takes_two(m, op, Value::I32(a), Value::I32(b));
    casts32(b, 0);
    let n = b as u32 % 32;
    
    shifted_bits32(a, n, k);
}

// ---------------------------------------------------------------------------
// Comparisons

/// The comparisons of integers give one where they hold and zero elsewhere: equal, not
/// equal, then less, greater, less or equal and greater or equal, first with and then
/// without sign.
pub proof fn i32_comparisons(m: Machine, op: u8, a: i32, b: i32)
    requires
        faces_i32s(m, op, a, b),
        0x46 <= op <= 0x4F,
    ensures
        ({
            let x = result_of(m, 2)->I32_0;
            let (ua, ub) = (unsigned32(a), unsigned32(b));
            &&& yields_value(m, 2, Value::I32(x))
            &&& x == 0 || x == 1
            &&& op == 0x46 ==> (x == 1 <==> a == b)
            &&& op == 0x47 ==> (x == 1 <==> a != b)
            &&& op == 0x48 ==> (x == 1 <==> a < b)
            &&& op == 0x49 ==> (x == 1 <==> ua < ub)
            &&& op == 0x4A ==> (x == 1 <==> b < a)
            &&& op == 0x4B ==> (x == 1 <==> ub < ua)
            &&& op == 0x4C ==> (x == 0 <==> b < a)
            &&& op == 0x4D ==> (x == 0 <==> ub < ua)
            &&& op == 0x4E ==> (x == 0 <==> a < b)
            &&& op == 0x4F ==> (x == 0 <==> ua < ub)
        }),
{
    takes_two(m, op, Value::I32(a), Value::I32(b));
    casts32(a, 0);
    casts32(b, 0);
}

/// `i32.eqz` gives one exactly for zero.
pub proof fn i32_eqz(m: Machine, a: i32)
    requires
        faces(m, 0x45),
        m.stack_ptr >= 1,
        operand(m, 0) == Value::I32(a),
    ensures
        a == 0 ==> yields_value(m, 1, Value::I32(1)),
        a != 0 ==> yields_value(m, 1, Value::I32(0)),
{
    takes_one(m, 0x45, Value::I32(a));
}

// ---------------------------------------------------------------------------
// Counting bits

/// `i32.clz` and `i32.ctz` count the zeros above the highest and below the lowest one.
pub proof fn i32_zeros(m: Machine, op: u8, a: i32, k: u32)
    requires
        faces(m, op),
        m.stack_ptr >= 1,
        operand(m, 0) == Value::I32(a),
        op == 0x67 || op == 0x68,
        k < 32,
    ensures
        ({
            let x = result_of(m, 1)->I32_0;
            &&& yields_value(m, 1, Value::I32(x))
            &&& 0 <= x <= 32
            &&& x == 32 <==> a == 0
            &&& op == 0x67 ==> {
                &&& x < 32 ==> bit32(a, (32 - 1 - x) as u32)
                &&& k >= 32 - x ==> !bit32(a, k)
            }
            &&& op == 0x68 ==> {
                &&& x < 32 ==> bit32(a, x as u32)
                &&& k < x ==> !bit32(a, k)
            }
        }),
{
    takes_one(m, op, Value::I32(a));
    let u = a as u32;
    casts32(a, 0);
    axiom_u32_leading_zeros(u);
    axiom_u32_trailing_zeros(u);
    let up = u32_leading_zeros(u);
    let top = (32 - 1 - up) as u32;
    assert(((u >> k) & 1 == 0 || (u >> k) & 1 == 1) && ((u >> top) & 1 == 0 || (u >> top) & 1 == 1)) by (bit_vector);
}

proof fn one_more(x: nat, k: nat)
    requires
        (x / pow2(k)) % 2 == 0,
    ensures
        ones((x + pow2(k)) as nat) == ones(x) + 1,
    decreases k,
{
    vstd::arithmetic::power2::lemma_pow2_pos(k);
    if k == 0 {
        vstd::arithmetic::power2::lemma2_to64();
        assert(x / 1 == x);
    } else {
        let h = pow2((k - 1) as nat);
        lemma_pow2_unfold(k);
        vstd::arithmetic::power2::lemma_pow2_pos((k - 1) as nat);
        assert(x / (2 * h) == (x / 2) / h) by {
            vstd::arithmetic::div_mod::lemma_div_denominator(x as int, 2, h as int);
        }
        one_more(x / 2, (k - 1) as nat);
    }
}

proof fn few_ones(x: nat, w: nat)
    requires
        w <= 64,
        x < pow2(w),
    ensures
        ones(x) <= w,
    decreases w,
{
    if w == 0 {
        vstd::arithmetic::power2::lemma2_to64();
    } else {
        lemma_pow2_unfold(w);
        few_ones(x / 2, (w - 1) as nat);
    }
}

/// `i32.popcnt` counts the ones: of zero there are none, and a further one counts one
/// more.
pub proof fn i32_popcnt(m: Machine, n: Machine, a: i32, b: i32, k: nat)
    requires
        faces(m, 0x69),
        m.stack_ptr >= 1,
        operand(m, 0) == Value::I32(a),
        faces(n, 0x69),
        n.stack_ptr >= 1,
        operand(n, 0) == Value::I32(b),
        (unsigned32(a) / pow2(k) as int) % 2 == 0,
        unsigned32(b) == unsigned32(a) + pow2(k),
    ensures
        ({
            let x = result_of(m, 1)->I32_0;
            let y = result_of(n, 1)->I32_0;
            &&& yields_value(m, 1, Value::I32(x))
            &&& yields_value(n, 1, Value::I32(y))
            &&& a == 0 ==> x == 0
            &&& y == x + 1
        }),
{
    takes_one(m, 0x69, Value::I32(a));
    takes_one(n, 0x69, Value::I32(b));
    casts32(a, 0);
    casts32(b, 0);
    one_more(unsigned32(a) as nat, k);
    vstd::arithmetic::power2::lemma2_to64();
    vstd::arithmetic::power2::lemma2_to64_rest();
    few_ones(unsigned32(a) as nat, 32);
    few_ones(unsigned32(b) as nat, 32);
}

/// `i64.div_s`, `i64.div_u`, `i64.rem_s` and `i64.rem_u`: quotient and remainder, rounded
/// toward zero, with and without sign. Dividing by zero traps, and so does the one
/// quotient that is too large.
pub proof fn i64_division(m: Machine, op: u8, a: i64, b: i64)
    requires
        faces_i64s(m, op, a, b),
        0x7F <= op <= 0x82,
    ensures
        ({
            let x = result_of(m, 2)->I64_0;
            if b == 0 {
                traps(m, WasmError::DivisionByZero)
            } else if op == 0x7F && a == i64::MIN && b == -1 {
                traps(m, WasmError::IntegerOverflow)
            } else {
                &&& yields_value(m, 2, Value::I64(x))
                &&& op == 0x7F ==> exists|r: int| divides(a as int, b as int, x as int, r)
                &&& op == 0x80 ==> exists|r: int| divides(unsigned64(a), unsigned64(b), unsigned64(x), r)
                &&& op == 0x81 ==> exists|q: int| divides(a as int, b as int, q, x as int)
                &&& op == 0x82 ==> exists|q: int| divides(unsigned64(a), unsigned64(b), q, unsigned64(x))
            }
        }),
{
    takes_two(m, op, Value::I64(a), Value::I64(b));
    if b != 0 {
        casts64(a, 0);
        casts64(b, 0);
        quotient_divides(a as int, b as int);
        let (ua, ub) = (unsigned64(a), unsigned64(b));
        plain_quotient_divides(ua, ub);
        let (q, r) = (quotient(a as int, b as int), remainder(a as int, b as int));
        let (uq, ur) = ((a as u64 / b as u64), (a as u64 % b as u64));
        assert(uq == ua / ub && ur == ua % ub);
        casts64(0, uq);
        casts64(0, ur);
        let x = result_of(m, 2)->I64_0;
        if !(a == i64::MIN && b == -1) {
            narrow(a as int, b as int, q, r, 0x8000_0000_0000_0000);
            if op == 0x7F {
                assert(divides(a as int, b as int, x as int, r));
            } else if op == 0x81 {
                assert(divides(a as int, b as int, q, x as int));
            }
        } else {
            assert(0x8000_0000_0000_0000int % 1 == 0);
            if op == 0x81 {
                assert(divides(a as int, b as int, q, x as int));
            }
        }
        if op == 0x80 {
            assert(divides(ua, ub, unsigned64(x), ur as int));
        } else if op == 0x82 {
            assert(divides(ua, ub, uq as int, unsigned64(x)));
        }
    }
}

// ---------------------------------------------------------------------------
// Bits

/// `i64.and`, `i64.or` and `i64.xor` work bit by bit.
pub proof fn i64_bitwise(m: Machine, op: u8, a: i64, b: i64, k: u64)
    requires
        faces_i64s(m, op, a, b),
        0x83 <= op <= 0x85,
        k < 64,
    ensures
        ({
            let x = result_of(m, 2)->I64_0;
            &&& yields_value(m, 2, Value::I64(x))
            &&& op == 0x83 ==> bit64(x, k) == (bit64(a, k) && bit64(b, k))
            &&& op == 0x84 ==> bit64(x, k) == (bit64(a, k) || bit64(b, k))
            &&& op == 0x85 ==> bit64(x, k) == (bit64(a, k) != bit64(b, k))
        }),
{
    takes_two(m, op, Value::I64(a), Value::I64(b));
    assert({
        &&& (((a & b) as u64 >> k) & 1 == 1) == ((a as u64 >> k) & 1 == 1 && (b as u64 >> k) & 1 == 1)
        &&& (((a | b) as u64 >> k) & 1 == 1) == ((a as u64 >> k) & 1 == 1 || (b as u64 >> k) & 1 == 1)
        &&& (((a ^ b) as u64 >> k) & 1 == 1) == (((a as u64 >> k) & 1 == 1) != ((b as u64 >> k) & 1 == 1))
    }) by (bit_vector)
        requires
            k < 64,
    ;
}

proof fn shifted_bits64(a: i64, n: u32, k: u64)
    requires
        n < 64,
        k < 64,
    ensures
        bit64((((a as u64) << n) as i64), k) == (k >= n && bit64(a, (k - n) as u64)),
        bit64((a as u64 >> n) as i64, k) == (k + n < 64 && bit64(a, (k + n) as u64)),
        bit64(a >> n, k) == bit64(
            a,
            if k + n < 64 {
                (k + n) as u64
            } else {
                (64 - 1) as u64
            },
        ),
        bit64(rotated64(a as u64, n) as i64, ((k + n) % 64) as u64) == bit64(a, k),
        bit64(rotated64(a as u64, (64 - n) as u32) as i64, k) == bit64(a, ((k + n) % 64) as u64),
{
    let down = (k - n) as u64;
    let up = (k + n) as u64;
    let j = ((k + n) % 64) as u64;
    let i = (64 - n) as u32;
    let u = a as u64;
    assert({
        &&& (((((a as u64) << n) as i64) as u64 >> k) & 1 == 1) == (k >= n && (a as u64 >> down) & 1 == 1)
        &&& (((a as u64 >> n) as i64 as u64 >> k) & 1 == 1) == (k + n < 64 && (a as u64 >> up) & 1 == 1)
        &&& (((a >> n) as u64 >> k) & 1 == 1) == if k + n < 64 {
            (a as u64 >> up) & 1 == 1
        } else {
            (a as u64 >> (64 - 1)) & 1 == 1
        }
    }) by (bit_vector)
        requires
            n < 64,
            k < 64,
            k >= n ==> down == k - n,
            up == k + n,
    ;
    assert({
        &&& (((if n == 0 { u } else { (u << n) | (u >> i) }) as i64 as u64 >> j) & 1 == 1) == ((u >> k) & 1 == 1)
        &&& (((if n == 0 { u } else { (u << i) | (u >> n) }) as i64 as u64 >> k) & 1 == 1) == ((u >> j) & 1 == 1)
    }) by (bit_vector)
        requires
            n < 64,
            k < 64,
            j == (k + n) % 64,
            i == 64 - n,
    ;
}

/// `i64.shl`, `i64.shr_s`, `i64.shr_u`, `i64.rotl` and `i64.rotr` move the bits by the
/// second operand, modulo the width: up, down with copies of the sign, down with zeros,
/// and around.
pub proof fn i64_shifts(m: Machine, op: u8, a: i64, b: i64, k: u64)
    requires
        faces_i64s(m, op, a, b),
        0x86 <= op <= 0x8A,
        k < 64,
    ensures
        ({
            let x = result_of(m, 2)->I64_0;
            let n = unsigned64(b) % 64;
            &&& yields_value(m, 2, Value::I64(x))
            &&& op == 0x86 ==> bit64(x, k) == (k >= n && bit64(a, (k - n) as u64))
            &&& op == 0x87 ==> bit64(
                x,
                k,
            ) == bit64(
                a,
                if k + n < 64 {
                    (k + n) as u64
                } else {
                    (64 - 1) as u64
                },
            )
            &&& op == 0x88 ==> bit64(x, k) == (k + n < 64 && bit64(a, (k + n) as u64))
            &&& op == 0x89 ==> bit64(x, ((k + n) % 64) as u64) == bit64(a, k)
            &&& op == 0x8A ==> bit64(x, k) == bit64(a, ((k + n) % 64) as u64)
        }),
{
    takes_two(m, op, Value::I64(a), Value::I64(b));
    casts64(b, 0);
    let n = b as u32 % 64;
    assert(b as u32 % 64 == (b as u64) % 64) by (bit_vector);
    shifted_bits64(a, n, k);
}

// ---------------------------------------------------------------------------
// Comparisons

/// The comparisons of integers give one where they hold and zero elsewhere: equal, not
/// equal, then less, greater, less or equal and greater or equal, first with and then
/// without sign.
pub proof fn i64_comparisons(m: Machine, op: u8, a: i64, b: i64)
    requires
        faces_i64s(m, op, a, b),
        0x51 <= op <= 0x5A,
    ensures
        ({
            let x = result_of(m, 2)->I32_0;
            let (ua, ub) = (unsigned64(a), unsigned64(b));
            &&& yields_value(m, 2, Value::I32(x))
            &&& x == 0 || x == 1
            &&& op == 0x51 ==> (x == 1 <==> a == b)
            &&& op == 0x52 ==> (x == 1 <==> a != b)
            &&& op == 0x53 ==> (x == 1 <==> a < b)
            &&& op == 0x54 ==> (x == 1 <==> ua < ub)
            &&& op == 0x55 ==> (x == 1 <==> b < a)
            &&& op == 0x56 ==> (x == 1 <==> ub < ua)
            &&& op == 0x57 ==> (x == 0 <==> b < a)
            &&& op == 0x58 ==> (x == 0 <==> ub < ua)
            &&& op == 0x59 ==> (x == 0 <==> a < b)
            &&& op == 0x5A ==> (x == 0 <==> ua < ub)
        }),
{
    takes_two(m, op, Value::I64(a), Value::I64(b));
    casts64(a, 0);
    casts64(b, 0);
}

/// `i64.eqz` gives one exactly for zero.
pub proof fn i64_eqz(m: Machine, a: i64)
    requires
        faces(m, 0x50),
        m.stack_ptr >= 1,
        operand(m, 0) == Value::I64(a),
    ensures
        a == 0 ==> yields_value(m, 1, Value::I32(1)),
        a != 0 ==> yields_value(m, 1, Value::I32(0)),
{
    takes_one(m, 0x50, Value::I64(a));
}

// ---------------------------------------------------------------------------
// Counting bits

/// `i64.clz` and `i64.ctz` count the zeros above the highest and below the lowest one.
pub proof fn i64_zeros(m: Machine, op: u8, a: i64, k: u64)
    requires
        faces(m, op),
        m.stack_ptr >= 1,
        operand(m, 0) == Value::I64(a),
        op == 0x79 || op == 0x7A,
        k < 64,
    ensures
        ({
            let x = result_of(m, 1)->I64_0;
            &&& yields_value(m, 1, Value::I64(x))
            &&& 0 <= x <= 64
            &&& x == 64 <==> a == 0
            &&& op == 0x79 ==> {
                &&& x < 64 ==> bit64(a, (64 - 1 - x) as u64)
                &&& k >= 64 - x ==> !bit64(a, k)
            }
            &&& op == 0x7A ==> {
                &&& x < 64 ==> bit64(a, x as u64)
                &&& k < x ==> !bit64(a, k)
            }
        }),
{
    takes_one(m, op, Value::I64(a));
    let u = a as u64;
    casts64(a, 0);
    axiom_u64_leading_zeros(u);
    axiom_u64_trailing_zeros(u);
    let up = u64_leading_zeros(u);
    let top = (64 - 1 - up) as u64;
    assert(((u >> k) & 1 == 0 || (u >> k) & 1 == 1) && ((u >> top) & 1 == 0 || (u >> top) & 1 == 1)) by (bit_vector);
}

/// `i64.popcnt` counts the ones: of zero there are none, and a further one counts one
/// more.
pub proof fn i64_popcnt(m: Machine, n: Machine, a: i64, b: i64, k: nat)
    requires
        faces(m, 0x7B),
        m.stack_ptr >= 1,
        operand(m, 0) == Value::I64(a),
        faces(n, 0x7B),
        n.stack_ptr >= 1,
        operand(n, 0) == Value::I64(b),
        (unsigned64(a) / pow2(k) as int) % 2 == 0,
        unsigned64(b) == unsigned64(a) + pow2(k),
    ensures
        ({
            let x = result_of(m, 1)->I64_0;
            let y = result_of(n, 1)->I64_0;
            &&& yields_value(m, 1, Value::I64(x))
            &&& yields_value(n, 1, Value::I64(y))
            &&& a == 0 ==> x == 0
            &&& y == x + 1
        }),
{
    takes_one(m, 0x7B, Value::I64(a));
    takes_one(n, 0x7B, Value::I64(b));
    casts64(a, 0);
    casts64(b, 0);
    one_more(unsigned64(a) as nat, k);
    vstd::arithmetic::power2::lemma2_to64();
    vstd::arithmetic::power2::lemma2_to64_rest();
    few_ones(unsigned64(a) as nat, 64);
    few_ones(unsigned64(b) as nat, 64);
}

// ---------------------------------------------------------------------------
// Between the widths

/// `i32.wrap_i64` keeps the low bits; `i64.extend_i32_s` and `i64.extend_i32_u` keep the
/// number, with and without sign.
pub proof fn width_changes(m: Machine, op: u8, a: i32, w: i64)
    requires
        faces(m, op),
        m.stack_ptr >= 1,
        op == 0xA7 || op == 0xAC || op == 0xAD,
        operand(m, 0) == if op == 0xA7 {
            Value::I64(w)
        } else {
            Value::I32(a)
        },
    ensures
        op == 0xA7 ==> {
            let x = result_of(m, 1)->I32_0;
            yields_value(m, 1, Value::I32(x)) && agree(x as int, w as int, 0x1_0000_0000)
        },
        op == 0xAC ==> yields_value(m, 1, Value::I64(a as i64)),
        op == 0xAD ==> {
            let x = result_of(m, 1)->I64_0;
            yields_value(m, 1, Value::I64(x)) && x == unsigned32(a)
        },
{
    takes_one(m, op, operand(m, 0));
    casts32(a, 0);
    let y = w as i32;
    assert((w - y) % 0x1_0000_0000 == 0) by (bit_vector)
        requires
            y == w as i32,
    ;
    let v = a as u32;
    assert((v as i64) == v) by (bit_vector);
}

/// `i32.extend8_s`, `i32.extend16_s`, `i64.extend8_s`, `i64.extend16_s` and
/// `i64.extend32_s` give the signed number that the low bits hold.
pub proof fn sign_extensions(m: Machine, op: u8, a: i32, w: i64)
    requires
        faces(m, op),
        m.stack_ptr >= 1,
        0xC0 <= op <= 0xC4,
        operand(m, 0) == if op <= 0xC1 {
            Value::I32(a)
        } else {
            Value::I64(w)
        },
    ensures
        op <= 0xC1 ==> {
            let x = result_of(m, 1)->I32_0;
            &&& yields_value(m, 1, Value::I32(x))
            &&& op == 0xC0 ==> -0x80 <= x < 0x80 && agree(x as int, a as int, 0x100)
            &&& op == 0xC1 ==> -0x8000 <= x < 0x8000 && agree(x as int, a as int, 0x1_0000)
        },
        op >= 0xC2 ==> {
            let x = result_of(m, 1)->I64_0;
            &&& yields_value(m, 1, Value::I64(x))
            &&& op == 0xC2 ==> -0x80 <= x < 0x80 && agree(x as int, w as int, 0x100)
            &&& op == 0xC3 ==> -0x8000 <= x < 0x8000 && agree(x as int, w as int, 0x1_0000)
            &&& op == 0xC4 ==> -0x8000_0000 <= x < 0x8000_0000 && agree(x as int, w as int, 0x1_0000_0000)
        },
{
    takes_one(m, op, operand(m, 0));
    let (a8, a16) = (a as i8, a as i16);
    let (w8, w16, w32) = (w as i8, w as i16, w as i32);
    assert((a - a8) % 0x100 == 0 && (a - a16) % 0x1_0000 == 0) by (bit_vector)
        requires
            a8 == a as i8,
            a16 == a as i16,
    ;
    assert((w - w8) % 0x100 == 0 && (w - w16) % 0x1_0000 == 0 && (w - w32) % 0x1_0000_0000 == 0) by (bit_vector)
        requires
            w8 == w as i8,
            w16 == w as i16,
            w32 == w as i32,
    ;
}

} // verus!
