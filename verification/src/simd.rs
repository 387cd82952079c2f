//! Instructions with the prefix 0xFD: operations on vectors.

use vstd::prelude::*;
use crate::atomics::span;
use crate::calls::carried_out;
use crate::lanes::{
    add_dots, all_true, bits_selected, count, count_of, cut, dots_added, get_lane, get_signed_lane, gives, has_nan,
    is_all_true, is_lane_width, lane, lane_as, lanes, map_lanes, mapped, mask_of, pack_cut, packed, select_bits,
    sign_mask, signed_lane, some_nan, LaneOp,
};
use crate::machine::{follow, Done, ExecResult, FloatCall, Machine, Outcome, WasmInstance};
use crate::memory::pop_address;
use crate::numeric::{truth, Computed};
use crate::plain::given;
use crate::types::{v128_bytes_kept, v128_from_own_bytes, v128_of, Value, WasmError, V128};

verus! {

/// The vector of zeros.
pub open spec fn zero_vector() -> V128 {
    v128_of(Seq::new(16, |i: int| 0u8))
}

// ---------------------------------------------------------------------------
// Decoding

/// The operation with offset `k` in the block of integer arithmetic on lanes of `w`
/// bytes.
pub open spec fn arithmetic(k: int, w: int) -> Option<LaneOp> {
    if k == 0 {
        Some(LaneOp::Abs)
    } else if k == 1 {
        Some(LaneOp::Neg)
    } else if k == 0x0B {
        Some(LaneOp::Shl)
    } else if k == 0x0C {
        Some(LaneOp::ShrSigned)
    } else if k == 0x0D {
        Some(LaneOp::ShrUnsigned)
    } else if k == 0x0E {
        Some(LaneOp::Sum)
    } else if k == 0x11 {
        Some(LaneOp::Difference)
    } else if k == 0x15 && w >= 2 {
        Some(LaneOp::Product)
    } else if k == 0x0F && w <= 2 {
        Some(LaneOp::SumSat(false))
    } else if k == 0x10 && w <= 2 {
        Some(LaneOp::SumSat(true))
    } else if k == 0x12 && w <= 2 {
        Some(LaneOp::DifferenceSat(false))
    } else if k == 0x13 && w <= 2 {
        Some(LaneOp::DifferenceSat(true))
    } else if k == 0x16 && w <= 4 {
        Some(LaneOp::Min(false))
    } else if k == 0x17 && w <= 4 {
        Some(LaneOp::Min(true))
    } else if k == 0x18 && w <= 4 {
        Some(LaneOp::Max(false))
    } else if k == 0x19 && w <= 4 {
        Some(LaneOp::Max(true))
    } else if k == 0x1B && w <= 2 {
        Some(LaneOp::Average)
    } else {
        None
    }
}

/// The operation on lanes that an instruction stands for, with the lane width of its
/// result, where it has a place outside the blocks of arithmetic.
pub open spec fn special(op: u32) -> Option<(LaneOp, int)> {
    match op {
        0x0E | 0x100 => Some((LaneOp::Swizzle, 1)),
        0x4D => Some((LaneOp::Not, 1)),
        0x4E => Some((LaneOp::And, 1)),
        0x4F => Some((LaneOp::AndNot, 1)),
        0x50 => Some((LaneOp::Or, 1)),
        0x51 => Some((LaneOp::Xor, 1)),
        0x62 => Some((LaneOp::Ones, 1)),
        0x65 => Some((LaneOp::Narrow(false), 1)),
        0x66 => Some((LaneOp::Narrow(true), 1)),
        0x7C => Some((LaneOp::Pairwise(false), 2)),
        0x7D => Some((LaneOp::Pairwise(true), 2)),
        0x7E => Some((LaneOp::Pairwise(false), 4)),
        0x7F => Some((LaneOp::Pairwise(true), 4)),
        0x82 | 0x111 => Some((LaneOp::RoundedProduct, 2)),
        0x85 => Some((LaneOp::Narrow(false), 2)),
        0x86 => Some((LaneOp::Narrow(true), 2)),
        0xBA => Some((LaneOp::Dot, 4)),
        0x112 => Some((LaneOp::DotSat, 2)),
        0xE0 => Some((LaneOp::FloatAbs, 4)),
        0xE1 => Some((LaneOp::FloatNeg, 4)),
        0xE8 | 0x10D => Some((LaneOp::FloatMin, 4)),
        0xE9 | 0x10E => Some((LaneOp::FloatMax, 4)),
        0xEA => Some((LaneOp::PseudoMin, 4)),
        0xEB => Some((LaneOp::PseudoMax, 4)),
        0xEC => Some((LaneOp::FloatAbs, 8)),
        0xED => Some((LaneOp::FloatNeg, 8)),
        0xF4 | 0x10F => Some((LaneOp::FloatMin, 8)),
        0xF5 | 0x110 => Some((LaneOp::FloatMax, 8)),
        0xF6 => Some((LaneOp::PseudoMin, 8)),
        0xF7 => Some((LaneOp::PseudoMax, 8)),
        0xF8 | 0x101 => Some((LaneOp::SatTrunc(false, false), 4)),
        0xF9 | 0x102 => Some((LaneOp::SatTrunc(false, true), 4)),
        0xFC | 0x103 => Some((LaneOp::SatTrunc(true, false), 4)),
        0xFD | 0x104 => Some((LaneOp::SatTrunc(true, true), 4)),
        _ => None,
    }
}

/// The comparison that an instruction stands for, with the lane width.
pub open spec fn relation(op: u32) -> Option<(LaneOp, int)> {
    if 0x23 <= op <= 0x2C {
        Some((LaneOp::Relation((op - 0x23) as u8), 1))
    } else if 0x2D <= op <= 0x36 {
        Some((LaneOp::Relation((op - 0x2D) as u8), 2))
    } else if 0x37 <= op <= 0x40 {
        Some((LaneOp::Relation((op - 0x37) as u8), 4))
    } else if 0x41 <= op <= 0x46 {
        Some((LaneOp::FloatRelation((op - 0x41) as u8), 4))
    } else if 0x47 <= op <= 0x4C {
        Some((LaneOp::FloatRelation((op - 0x47) as u8), 8))
    } else if op == 0xD6 || op == 0xD7 {
        Some((LaneOp::Relation((op - 0xD6) as u8), 8))
    } else if 0xD8 <= op <= 0xDB {
        Some((LaneOp::Relation((2 * (op - 0xD7)) as u8), 8))
    } else {
        None
    }
}

/// The block of four extensions or extended products that starts at `base`.
pub open spec fn extension(op: u32, base: int, product: bool) -> LaneOp {
    let high = (op - base) % 2 == 1;
    let unsigned = op - base >= 2;
    if product {
        LaneOp::ExtendedProduct(high, unsigned)
    } else {
        LaneOp::Extend(high, unsigned)
    }
}

/// The extension or extended product that an instruction stands for, with the lane
/// width of its result.
pub open spec fn extended_op(op: u32) -> Option<(LaneOp, int)> {
    if 0x87 <= op <= 0x8A {
        Some((extension(op, 0x87, false), 2))
    } else if 0xA7 <= op <= 0xAA {
        Some((extension(op, 0xA7, false), 4))
    } else if 0xC7 <= op <= 0xCA {
        Some((extension(op, 0xC7, false), 8))
    } else if 0x9C <= op <= 0x9F {
        Some((extension(op, 0x9C, true), 2))
    } else if 0xBC <= op <= 0xBF {
        Some((extension(op, 0xBC, true), 4))
    } else if 0xDC <= op <= 0xDF {
        Some((extension(op, 0xDC, true), 8))
    } else {
        None
    }
}

/// The operation of a block of arithmetic that an instruction stands for.
pub open spec fn block_op(op: u32) -> Option<(LaneOp, int)> {
    let w: int = if op <= 0x7F {
        1
    } else if op <= 0x9F {
        2
    } else if op <= 0xBF {
        4
    } else {
        8
    };
    if 0x60 <= op <= 0xDF {
        match arithmetic((op - 0x60) % 0x20, w) {
            Some(l) => Some((l, w)),
            None => None,
        }
    } else {
        None
    }
}

/// The operation on lanes that an instruction stands for, with the lane width of its
/// result.
pub open spec fn lane_op(op: u32) -> Option<(LaneOp, int)> {
    if special(op) is Some {
        special(op)
    } else if relation(op) is Some {
        relation(op)
    } else if extended_op(op) is Some {
        extended_op(op)
    } else {
        block_op(op)
    }
}

/// Whether an operation takes a shift.
pub open spec fn is_shift(l: LaneOp) -> bool {
    l == LaneOp::Shl || l == LaneOp::ShrSigned || l == LaneOp::ShrUnsigned
}

/// Whether an operation takes one vector.
pub open spec fn is_unary(l: LaneOp) -> bool {
    match l {
        LaneOp::Abs | LaneOp::Neg | LaneOp::Ones | LaneOp::Extend(..) | LaneOp::Pairwise(_) => true,
        LaneOp::SatTrunc(..) | LaneOp::Not | LaneOp::FloatAbs | LaneOp::FloatNeg => true,
        _ => false,
    }
}

/// How many vectors an instruction takes whose floating-point result is left to the
/// embedder.
pub open spec fn float_arity(op: u32) -> int {
    match op {
        0x5E | 0x5F | 0x67 | 0x68 | 0x69 | 0x6A | 0x74 | 0x75 | 0x7A | 0x94 => 1,
        0xE3 | 0xEF | 0xFA | 0xFB | 0xFE | 0xFF => 1,
        0xE4 | 0xE5 | 0xE6 | 0xE7 | 0xF0 | 0xF1 | 0xF2 | 0xF3 => 2,
        0x105 | 0x106 | 0x107 | 0x108 => 3,
        _ => 0,
    }
}

// ---------------------------------------------------------------------------
// Results

/// The number of the minimum or maximum of lanes of this width.
pub open spec fn extreme_number(l: LaneOp, w: int) -> u32 {
    if w == 4 {
        if l == LaneOp::FloatMin {
            0xE8
        } else {
            0xE9
        }
    } else {
        if l == LaneOp::FloatMin {
            0xF4
        } else {
            0xF5
        }
    }
}

/// The result of an operation on two vectors. A minimum or maximum that meets a NaN is
/// left to the embedder.
pub open spec fn combined(l: LaneOp, w: int, a: V128, b: V128) -> Computed {
    if (l == LaneOp::FloatMin || l == LaneOp::FloatMax) && some_nan(a, b, w) {
        Computed::Call(FloatCall::Simd(extreme_number(l, w), a, b, zero_vector()))
    } else {
        Computed::Value(Value::V128(mapped(l, w, a, b, 0)))
    }
}

/// Executes an operation on lanes.
pub open spec fn lane_instruction(m: Machine, l: LaneOp, w: int) -> (Machine, Outcome) {
    if is_shift(l) {
        carried_out(
            follow(
                m.pop_i32(),
                |m: Machine, s: i32|
                    follow(
                        m.pop_v128(),
                        |m: Machine, a: V128| m.push(Value::V128(mapped(l, w, a, a, (s as u32 as int % (8 * w)) as u32))),
                    ),
            ),
        )
    } else {
        let y = m.pop_v128();
        match y.1 {
            Err(e) => (y.0, Outcome::Trap(e)),
            Ok(b) => if is_unary(l) {
                given(y.0, Computed::Value(Value::V128(mapped(l, w, b, b, 0))))
            } else {
                let x = y.0.pop_v128();
                match x.1 {
                    Err(e) => (x.0, Outcome::Trap(e)),
                    Ok(a) => given(x.0, combined(l, w, a, b)),
                }
            },
        }
    }
}

/// Executes an instruction whose floating-point result is left to the embedder.
pub open spec fn float_instruction(m: Machine, op: u32) -> (Machine, Outcome) {
    let z = m.pop_v128();
    match z.1 {
        Err(e) => (z.0, Outcome::Trap(e)),
        Ok(c) => if float_arity(op) == 1 {
            (z.0, Outcome::Float(FloatCall::Simd(op, c, zero_vector(), zero_vector())))
        } else {
            let y = z.0.pop_v128();
            match y.1 {
                Err(e) => (y.0, Outcome::Trap(e)),
                Ok(b) => if float_arity(op) == 2 {
                    (y.0, Outcome::Float(FloatCall::Simd(op, b, c, zero_vector())))
                } else {
                    let x = y.0.pop_v128();
                    match x.1 {
                        Err(e) => (x.0, Outcome::Trap(e)),
                        Ok(a) => (x.0, Outcome::Float(FloatCall::Simd(op, a, b, c))),
                    }
                },
            }
        },
    }
}

/// Selects bits, or adds products of bytes.
pub open spec fn ternary(m: Machine, op: u32) -> Done<()> {
    follow(
        m.pop_v128(),
        |m: Machine, c: V128|
            follow(
                m.pop_v128(),
                |m: Machine, b: V128|
                    follow(
                        m.pop_v128(),
                        |m: Machine, a: V128|
                            m.push(
                                Value::V128(
                                    if op == 0x113 {
                                        dots_added(a, b, c)
                                    } else {
                                        bits_selected(a, b, c)
                                    },
                                ),
                            ),
                    ),
            ),
    )
}

/// The width of the lanes that a test looks at.
pub open spec fn test_width(op: u32) -> int {
    if op <= 0x64 {
        1
    } else if op <= 0x84 {
        2
    } else if op <= 0xA4 {
        4
    } else {
        8
    }
}

/// What a test of a vector gives: whether some bit is set, whether all lanes are set,
/// or the signs of the lanes.
pub open spec fn tested(op: u32, a: V128) -> Value {
    if op == 0x53 {
        truth(a != zero_vector())
    } else if op % 0x20 == 3 {
        truth(all_true(a, test_width(op)))
    } else {
        Value::I32(sign_mask(a, test_width(op), count(test_width(op)) as nat) as i32)
    }
}

/// Whether an instruction tests a vector.
pub open spec fn is_test(op: u32) -> bool {
    op == 0x53 || op == 0x63 || op == 0x83 || op == 0xA3 || op == 0xC3 || op == 0x64 || op == 0x84 || op == 0xA4 || op
        == 0xC4
}

// ---------------------------------------------------------------------------
// Lanes and scalars

/// The lane width that an instruction from 0x0F to 0x22 concerns.
pub open spec fn scalar_width(op: u32) -> int {
    match op {
        0x0F | 0x15 | 0x16 | 0x17 => 1,
        0x10 | 0x18 | 0x19 | 0x1A => 2,
        0x11 | 0x13 | 0x1B | 0x1C | 0x1F | 0x20 => 4,
        _ => 8,
    }
}

/// The bits of the scalar that such an instruction takes.
pub open spec fn scalar_bits(op: u32, v: Value) -> u64 {
    match op {
        0x12 | 0x1E => v.i64_or_zero() as u64,
        0x13 | 0x20 => v.f32_or_zero() as u64,
        0x14 | 0x22 => v.f64_or_zero(),
        _ => v.i32_or_zero() as u32 as u64,
    }
}

/// Whether such an instruction takes a scalar and replaces a lane.
pub open spec fn replaces(op: u32) -> bool {
    op == 0x17 || op == 0x1A || op == 0x1C || op == 0x1E || op == 0x20 || op == 0x22
}

/// The scalar that extracting a lane gives.
pub open spec fn extracted(op: u32, v: V128, i: int) -> Value {
    let w = scalar_width(op);
    match op {
        0x15 | 0x18 | 0x1B => Value::I32(signed_lane(v.0@, w, i) as i32),
        0x16 | 0x19 => Value::I32(lane(v.0@, w, i) as i32),
        0x1D => Value::I64(signed_lane(v.0@, w, i) as i64),
        0x1F => Value::F32(lane(v.0@, w, i) as u32),
        _ => Value::F64(lane(v.0@, w, i) as u64),
    }
}

/// The vector with another number in lane `i`.
pub open spec fn with_lane(v: V128, w: int, i: int, x: u64) -> V128 {
    packed(w, lanes(v, w).update(i, x as int))
}

/// The vector with the same number in every lane.
pub open spec fn filled_with(w: int, x: u64) -> V128 {
    packed(w, Seq::new(count(w) as nat, |i: int| x as int))
}

pub open spec fn splat(m: Machine, op: u32) -> Done<()> {
    follow(
        m.pop(),
        |m: Machine, v: Value| m.push(Value::V128(filled_with(scalar_width(op), scalar_bits(op, v)))),
    )
}

/// Extracts or replaces a lane.
pub open spec fn lane_access(m: Machine, op: u32) -> Done<()> {
    follow(
        m.read_byte(),
        |m: Machine, l: u8|
            {
                let w = scalar_width(op);
                let i = l as int % count(w);
                if replaces(op) {
                    follow(
                        m.pop(),
                        |m: Machine, x: Value|
                            follow(
                                m.pop_v128(),
                                |m: Machine, v: V128| m.push(Value::V128(with_lane(v, w, i, scalar_bits(op, x)))),
                            ),
                    )
                } else {
                    follow(m.pop_v128(), |m: Machine, v: V128| m.push(extracted(op, v, i)))
                }
            },
    )
}

/// Reads the sixteen bytes of a shuffle.
pub open spec fn read_sixteen(m: Machine) -> Done<Seq<u8>> {
    let code = m.store.module.code;
    if m.pc + 16 <= code.len() {
        (m.at(m.pc + 16), Ok(code.subrange(m.pc, m.pc + 16)))
    } else if m.pc <= code.len() {
        (m.at(code.len() as int), Err(WasmError::UnexpectedEnd))
    } else {
        (m, Err(WasmError::UnexpectedEnd))
    }
}

/// The bytes of two vectors that the indices name.
pub open spec fn shuffled(idx: Seq<u8>, a: V128, b: V128) -> V128 {
    v128_of(Seq::new(16, |i: int| (a.0@ + b.0@)[idx[i] as int % 32]))
}

pub open spec fn shuffle(m: Machine) -> Done<()> {
    follow(
        read_sixteen(m),
        |m: Machine, idx: Seq<u8>|
            follow(
                m.pop_v128(),
                |m: Machine, b: V128|
                    follow(m.pop_v128(), |m: Machine, a: V128| m.push(Value::V128(shuffled(idx, a, b)))),
            ),
    )
}

// ---------------------------------------------------------------------------
// Memory

/// Bytes that a vector load reads.
pub open spec fn vector_load_width(op: u32) -> int {
    match op {
        0x00 => 16,
        0x07 => 1,
        0x08 => 2,
        0x09 | 0x5C => 4,
        _ => 8,
    }
}

/// The vector that a load makes of the bytes it reads: the bytes, numbers widened, a
/// number repeated, or a number followed by zeros.
pub open spec fn loaded_vector(op: u32, b: Seq<u8>) -> V128 {
    match op {
        0x00 => v128_of(b),
        0x01 | 0x02 => packed(2, Seq::new(8, |i: int| lane_as(b, 1, i, op == 0x02))),
        0x03 | 0x04 => packed(4, Seq::new(4, |i: int| lane_as(b, 2, i, op == 0x04))),
        0x05 | 0x06 => packed(8, Seq::new(2, |i: int| lane_as(b, 4, i, op == 0x06))),
        0x07 => filled_with(1, lane(b, 1, 0) as u64),
        0x08 => filled_with(2, lane(b, 2, 0) as u64),
        0x09 => filled_with(4, lane(b, 4, 0) as u64),
        0x0A => filled_with(8, lane(b, 8, 0) as u64),
        0x5C => packed(4, seq![lane(b, 4, 0), 0, 0, 0]),
        _ => packed(8, seq![lane(b, 8, 0), 0]),
    }
}

pub open spec fn vector_load(m: Machine, op: u32) -> Done<()> {
    follow(
        m.read_memarg(),
        |m: Machine, g: (u32, u32)|
            follow(
                pop_address(m, g.1),
                |m: Machine, a: u32|
                    follow(
                        (m, m.store.mem_read(g.0 as int, a as int, vector_load_width(op))),
                        |m: Machine, b: Seq<u8>| m.push(Value::V128(loaded_vector(op, b))),
                    ),
            ),
    )
}

pub open spec fn vector_store(m: Machine) -> Done<()> {
    follow(
        m.read_memarg(),
        |m: Machine, g: (u32, u32)|
            follow(
                m.pop_v128(),
                |m: Machine, v: V128|
                    follow(pop_address(m, g.1), |m: Machine, a: u32| m.mem_write(g.0 as int, a as int, v.0@)),
            ),
    )
}

/// The lane width of a load or store of one lane.
pub open spec fn memory_lane_width(op: u32) -> int {
    match op {
        0x54 | 0x58 => 1,
        0x55 | 0x59 => 2,
        0x56 | 0x5A => 4,
        _ => 8,
    }
}

/// Loads or stores one lane.
pub open spec fn lane_memory(m: Machine, op: u32) -> Done<()> {
    let w = memory_lane_width(op);
    follow(
        m.read_memarg(),
        |m: Machine, g: (u32, u32)|
            follow(
                m.read_byte(),
                |m: Machine, l: u8|
                    follow(
                        m.pop_v128(),
                        |m: Machine, v: V128|
                            follow(
                                pop_address(m, g.1),
                                |m: Machine, a: u32|
                                    {
                                        let i = l as int % count(w);
                                        if op <= 0x57 {
                                            follow(
                                                (m, m.store.mem_read(g.0 as int, a as int, w)),
                                                |m: Machine, b: Seq<u8>|
                                                    m.push(Value::V128(with_lane(v, w, i, lane(b, w, 0) as u64))),
                                            )
                                        } else {
                                            m.mem_write(g.0 as int, a as int, v.0@.subrange(w * i, w * i + w))
                                        }
                                    },
                            ),
                    ),
            ),
    )
}

/// Executes a vector instruction that moves data without computing.
pub open spec fn vector_move(m: Machine, op: u32) -> Done<()> {
    if op <= 0x0A || op == 0x5C || op == 0x5D {
        vector_load(m, op)
    } else if op == 0x0B {
        vector_store(m)
    } else if 0x54 <= op <= 0x5B {
        lane_memory(m, op)
    } else if op == 0x0C {
        follow(m.read_v128(), |m: Machine, v: V128| m.push(Value::V128(v)))
    } else if op == 0x0D {
        shuffle(m)
    } else if 0x0F <= op <= 0x14 {
        splat(m, op)
    } else {
        lane_access(m, op)
    }
}

/// Whether an instruction moves data without computing.
pub open spec fn moves_data(op: u32) -> bool {
    op <= 0x0D || 0x0F <= op <= 0x22 || 0x54 <= op <= 0x5D
}

/// Executes the instruction with the prefix 0xFD and this number.
pub open spec fn vector_instruction(m: Machine, op: u32) -> (Machine, Outcome) {
    if moves_data(op) {
        carried_out(vector_move(m, op))
    } else if is_test(op) {
        carried_out(follow(m.pop_v128(), |m: Machine, a: V128| m.push(tested(op, a))))
    } else if op == 0x52 || 0x109 <= op <= 0x10C || op == 0x113 {
        carried_out(ternary(m, op))
    } else if float_arity(op) > 0 {
        float_instruction(m, op)
    } else {
        match lane_op(op) {
            Some((l, w)) => lane_instruction(m, l, w),
            None => (m, Outcome::Trap(WasmError::InvalidOpcode(0xFD))),
        }
    }
}

// ---------------------------------------------------------------------------
// Execution

fn decode_special(op: u32) -> (r: Option<(LaneOp, usize)>)
    ensures
        match r {
            Some((l, w)) => special(op) == Some((l, w as int)) && gives(l, w as int),
            None => special(op) is None,
        },
{
    match op {
        0x0E | 0x100 => Some((LaneOp::Swizzle, 1)),
        0x4D => Some((LaneOp::Not, 1)),
        0x4E => Some((LaneOp::And, 1)),
        0x4F => Some((LaneOp::AndNot, 1)),
        0x50 => Some((LaneOp::Or, 1)),
        0x51 => Some((LaneOp::Xor, 1)),
        0x62 => Some((LaneOp::Ones, 1)),
        0x65 => Some((LaneOp::Narrow(false), 1)),
        0x66 => Some((LaneOp::Narrow(true), 1)),
        0x7C => Some((LaneOp::Pairwise(false), 2)),
        0x7D => Some((LaneOp::Pairwise(true), 2)),
        0x7E => Some((LaneOp::Pairwise(false), 4)),
        0x7F => Some((LaneOp::Pairwise(true), 4)),
        0x82 | 0x111 => Some((LaneOp::RoundedProduct, 2)),
        0x85 => Some((LaneOp::Narrow(false), 2)),
        0x86 => Some((LaneOp::Narrow(true), 2)),
        0xBA => Some((LaneOp::Dot, 4)),
        0x112 => Some((LaneOp::DotSat, 2)),
        0xE0 => Some((LaneOp::FloatAbs, 4)),
        0xE1 => Some((LaneOp::FloatNeg, 4)),
        0xE8 | 0x10D => Some((LaneOp::FloatMin, 4)),
        0xE9 | 0x10E => Some((LaneOp::FloatMax, 4)),
        0xEA => Some((LaneOp::PseudoMin, 4)),
        0xEB => Some((LaneOp::PseudoMax, 4)),
        0xEC => Some((LaneOp::FloatAbs, 8)),
        0xED => Some((LaneOp::FloatNeg, 8)),
        0xF4 | 0x10F => Some((LaneOp::FloatMin, 8)),
        0xF5 | 0x110 => Some((LaneOp::FloatMax, 8)),
        0xF6 => Some((LaneOp::PseudoMin, 8)),
        0xF7 => Some((LaneOp::PseudoMax, 8)),
        0xF8 | 0x101 => Some((LaneOp::SatTrunc(false, false), 4)),
        0xF9 | 0x102 => Some((LaneOp::SatTrunc(false, true), 4)),
        0xFC | 0x103 => Some((LaneOp::SatTrunc(true, false), 4)),
        0xFD | 0x104 => Some((LaneOp::SatTrunc(true, true), 4)),
        _ => None,
    }
}

fn decode_relation(op: u32) -> (r: Option<(LaneOp, usize)>)
    ensures
        match r {
            Some((l, w)) => relation(op) == Some((l, w as int)) && gives(l, w as int),
            None => relation(op) is None,
        },
{
    if 0x23 <= op && op <= 0x2C {
        Some((LaneOp::Relation((op - 0x23) as u8), 1))
    } else if 0x2D <= op && op <= 0x36 {
        Some((LaneOp::Relation((op - 0x2D) as u8), 2))
    } else if 0x37 <= op && op <= 0x40 {
        Some((LaneOp::Relation((op - 0x37) as u8), 4))
    } else if 0x41 <= op && op <= 0x46 {
        Some((LaneOp::FloatRelation((op - 0x41) as u8), 4))
    } else if 0x47 <= op && op <= 0x4C {
        Some((LaneOp::FloatRelation((op - 0x47) as u8), 8))
    } else if op == 0xD6 || op == 0xD7 {
        Some((LaneOp::Relation((op - 0xD6) as u8), 8))
    } else if 0xD8 <= op && op <= 0xDB {
        Some((LaneOp::Relation((2 * (op - 0xD7)) as u8), 8))
    } else {
        None
    }
}

fn decode_extension(op: u32, base: u32, product: bool) -> (r: LaneOp)
    requires
        base <= op,
    ensures
        r == extension(op, base as int, product),
        r is Extend || r is ExtendedProduct,
{
    let high: bool = (op - base) % 2 == 1;
    let unsigned: bool = op - base >= 2;
    if product {
        LaneOp::ExtendedProduct(high, unsigned)
    } else {
        LaneOp::Extend(high, unsigned)
    }
}

fn decode_extended(op: u32) -> (r: Option<(LaneOp, usize)>)
    ensures
        match r {
            Some((l, w)) => extended_op(op) == Some((l, w as int)) && gives(l, w as int),
            None => extended_op(op) is None,
        },
{
    if 0x87 <= op && op <= 0x8A {
        Some((decode_extension(op, 0x87, false), 2))
    } else if 0xA7 <= op && op <= 0xAA {
        Some((decode_extension(op, 0xA7, false), 4))
    } else if 0xC7 <= op && op <= 0xCA {
        Some((decode_extension(op, 0xC7, false), 8))
    } else if 0x9C <= op && op <= 0x9F {
        Some((decode_extension(op, 0x9C, true), 2))
    } else if 0xBC <= op && op <= 0xBF {
        Some((decode_extension(op, 0xBC, true), 4))
    } else if 0xDC <= op && op <= 0xDF {
        Some((decode_extension(op, 0xDC, true), 8))
    } else {
        None
    }
}

fn decode_arithmetic(k: u32, w: usize) -> (r: Option<LaneOp>)
    requires
        is_lane_width(w as int),
    ensures
        r == arithmetic(k as int, w as int),
        r matches Some(l) ==> gives(l, w as int),
{
    match k {
        0x00 => Some(LaneOp::Abs),
        0x01 => Some(LaneOp::Neg),
        0x0B => Some(LaneOp::Shl),
        0x0C => Some(LaneOp::ShrSigned),
        0x0D => Some(LaneOp::ShrUnsigned),
        0x0E => Some(LaneOp::Sum),
        0x11 => Some(LaneOp::Difference),
        0x15 => if w >= 2 {
            Some(LaneOp::Product)
        } else {
            None
        },
        0x16 | 0x17 | 0x18 | 0x19 => if w > 4 {
            None
        } else if k == 0x16 {
            Some(LaneOp::Min(false))
        } else if k == 0x17 {
            Some(LaneOp::Min(true))
        } else if k == 0x18 {
            Some(LaneOp::Max(false))
        } else {
            Some(LaneOp::Max(true))
        },
        0x0F | 0x10 | 0x12 | 0x13 | 0x1B => if w > 2 {
            None
        } else if k == 0x0F {
            Some(LaneOp::SumSat(false))
        } else if k == 0x10 {
            Some(LaneOp::SumSat(true))
        } else if k == 0x12 {
            Some(LaneOp::DifferenceSat(false))
        } else if k == 0x13 {
            Some(LaneOp::DifferenceSat(true))
        } else {
            Some(LaneOp::Average)
        },
        _ => None,
    }
}

fn decode_block(op: u32) -> (r: Option<(LaneOp, usize)>)
    ensures
        match r {
            Some((l, w)) => block_op(op) == Some((l, w as int)) && gives(l, w as int),
            None => block_op(op) is None,
        },
{
    if op < 0x60 || op > 0xDF {
        return None;
    }
    let w: usize = if op <= 0x7F {
        1
    } else if op <= 0x9F {
        2
    } else if op <= 0xBF {
        4
    } else {
        8
    };
    match decode_arithmetic((op - 0x60) % 0x20, w) {
        Some(l) => Some((l, w)),
        None => None,
    }
}

/// The operation on lanes that an instruction stands for.
fn decode_lane_op(op: u32) -> (r: Option<(LaneOp, usize)>)
    ensures
        match r {
            Some((l, w)) => lane_op(op) == Some((l, w as int)) && gives(l, w as int),
            None => lane_op(op) is None,
        },
{
    match decode_special(op) {
        Some(x) => Some(x),
        None => match decode_relation(op) {
            Some(x) => Some(x),
            None => match decode_extended(op) {
                Some(x) => Some(x),
                None => decode_block(op),
            },
        },
    }
}

fn takes_one(l: LaneOp) -> (r: bool)
    ensures
        r == is_unary(l),
{
    match l {
        LaneOp::Abs | LaneOp::Neg | LaneOp::Ones | LaneOp::Extend(..) | LaneOp::Pairwise(_) => true,
        LaneOp::SatTrunc(..) | LaneOp::Not | LaneOp::FloatAbs | LaneOp::FloatNeg => true,
        _ => false,
    }
}

fn arity_of_float(op: u32) -> (r: u8)
    ensures
        r == float_arity(op),
{
    match op {
        0x5E | 0x5F | 0x67 | 0x68 | 0x69 | 0x6A | 0x74 | 0x75 | 0x7A | 0x94 => 1,
        0xE3 | 0xEF | 0xFA | 0xFB | 0xFE | 0xFF => 1,
        0xE4 | 0xE5 | 0xE6 | 0xE7 | 0xF0 | 0xF1 | 0xF2 | 0xF3 => 2,
        0x105 | 0x106 | 0x107 | 0x108 => 3,
        _ => 0,
    }
}

/// The result of an operation on two vectors.
fn combine(l: LaneOp, w: usize, a: &V128, b: &V128) -> (r: Computed)
    requires
        gives(l, w as int),
    ensures
        r == combined(l, w as int, *a, *b),
{
    let extreme: bool = match l {
        LaneOp::FloatMin | LaneOp::FloatMax => true,
        _ => false,
    };
    if extreme && has_nan(a, b, w) {
        let least: bool = match l {
            LaneOp::FloatMin => true,
            _ => false,
        };
        let number: u32 = if w == 4 {
            if least {
                0xE8
            } else {
                0xE9
            }
        } else {
            if least {
                0xF4
            } else {
                0xF5
            }
        };
        Computed::Call(FloatCall::Simd(number, *a, *b, V128::zero()))
    } else {
        Computed::Value(Value::V128(map_lanes(l, w, a, b, 0)))
    }
}

fn width_of_test(op: u32) -> (r: usize)
    ensures
        r == test_width(op),
{
    if op <= 0x64 {
        1
    } else if op <= 0x84 {
        2
    } else if op <= 0xA4 {
        4
    } else {
        8
    }
}

fn is_zero(a: &V128) -> (r: bool)
    ensures
        r == (*a == zero_vector()),
{
    let mut i: usize = 0;
    while i < 16
        invariant
            i <= 16,
            forall|k: int| 0 <= k < i ==> a.0@[k] == 0,
        decreases 16 - i,
    {
        if a.0[i] != 0 {
            proof {
                v128_bytes_kept(Seq::new(16, |k: int| 0u8));
            }
            return false;
        }
        i = i + 1;
    }
    proof {
        assert(a.0@ =~= Seq::new(16, |k: int| 0u8));
        v128_from_own_bytes(*a);
    }
    true
}

/// What a test of a vector gives.
fn test_vector(op: u32, a: &V128) -> (r: Value)
    ensures
        r == tested(op, *a),
{
    if op == 0x53 {
        if is_zero(a) {
            Value::I32(0)
        } else {
            Value::I32(1)
        }
    } else if op % 0x20 == 3 {
        if is_all_true(a, width_of_test(op)) {
            Value::I32(1)
        } else {
            Value::I32(0)
        }
    } else {
        Value::I32(mask_of(a, width_of_test(op)) as i32)
    }
}

fn width_of_scalar(op: u32) -> (r: usize)
    ensures
        r == scalar_width(op),
{
    match op {
        0x0F | 0x15 | 0x16 | 0x17 => 1,
        0x10 | 0x18 | 0x19 | 0x1A => 2,
        0x11 | 0x13 | 0x1B | 0x1C | 0x1F | 0x20 => 4,
        _ => 8,
    }
}

fn bits_of_scalar(op: u32, v: Value) -> (r: u64)
    ensures
        r == scalar_bits(op, v),
{
    match op {
        0x12 | 0x1E => v.as_i64() as u64,
        0x13 | 0x20 => v.as_f32() as u64,
        0x14 | 0x22 => v.as_f64(),
        _ => (v.as_i32() as u32) as u64,
    }
}

/// The vector with the same number in every lane.
fn fill(w: usize, x: u64) -> (r: V128)
    requires
        is_lane_width(w as int),
    ensures
        r == filled_with(w as int, x),
{
    let n: usize = count_of(w);
    let c: u64 = cut(x as i128, w);
    let mut nums: Vec<u64> = Vec::new();
    let mut i: usize = 0;
    while i < n
        invariant
            i <= n,
            nums@.len() == i,
            forall|k: int| 0 <= k < i ==> #[trigger] nums@[k] == c,
        decreases n - i,
    {
        nums.push(c);
        i = i + 1;
    }
    pack_cut(w, &nums, Ghost(Seq::new(count(w as int) as nat, |k: int| x as int)))
}

/// The vector with another number in lane `l`.
fn set_lane(v: &V128, w: usize, l: usize, x: u64) -> (r: V128)
    requires
        is_lane_width(w as int),
        l < count(w as int),
    ensures
        r == with_lane(*v, w as int, l as int, x),
{
    let n: usize = count_of(w);
    let ghost ints = lanes(*v, w as int).update(l as int, x as int);
    let mut nums: Vec<u64> = Vec::new();
    let mut i: usize = 0;
    while i < n
        invariant
            i <= n,
            n == count(w as int),
            is_lane_width(w as int),
            l < n,
            ints == lanes(*v, w as int).update(l as int, x as int),
            nums@.len() == i,
            forall|k: int| 0 <= k < i ==> #[trigger] nums@[k] == ints[k] % span(w as int),
        decreases n - i,
    {
        let y: u64 = if i == l {
            x
        } else {
            get_lane(v.0.as_slice(), w, i)
        };
        nums.push(cut(y as i128, w));
        i = i + 1;
    }
    pack_cut(w, &nums, Ghost(ints))
}

/// The scalar that extracting a lane gives.
fn extract(op: u32, v: &V128, i: usize) -> (r: Value)
    requires
        i < count(scalar_width(op)),
    ensures
        r == extracted(op, *v, i as int),
{
    let w: usize = width_of_scalar(op);
    match op {
        0x15 | 0x18 | 0x1B => Value::I32(get_signed_lane(v.0.as_slice(), w, i) as i32),
        0x16 | 0x19 => Value::I32(get_lane(v.0.as_slice(), w, i) as i32),
        0x1D => Value::I64(get_signed_lane(v.0.as_slice(), w, i) as i64),
        0x1F => Value::F32(get_lane(v.0.as_slice(), w, i) as u32),
        _ => Value::F64(get_lane(v.0.as_slice(), w, i)),
    }
}

/// The bytes of two vectors that the indices name.
fn shuffle_bytes(idx: &[u8], a: &V128, b: &V128) -> (r: V128)
    requires
        idx@.len() == 16,
    ensures
        r == shuffled(idx@, *a, *b),
{
    let mut x = [0u8;16];
    let mut i: usize = 0;
    while i < 16
        invariant
            i <= 16,
            idx@.len() == 16,
            forall|k: int| 0 <= k < i ==> #[trigger] x@[k] == (a.0@ + b.0@)[idx@[k] as int % 32],
        decreases 16 - i,
    {
        let j: usize = (idx[i] % 32) as usize;
        x[i] = if j < 16 {
            a.0[j]
        } else {
            b.0[j - 16]
        };
        i = i + 1;
    }
    let v = V128(x);
    proof {
        assert(v.0@ =~= Seq::new(16, |k: int| (a.0@ + b.0@)[idx@[k] as int % 32]));
        v128_from_own_bytes(v);
    }
    v
}

/// The vector of the numbers in the lower half of the bytes, widened.
fn widen(b: &[u8], w: usize, unsigned: bool) -> (r: V128)
    requires
        w == 2 || w == 4 || w == 8,
        b@.len() == 8,
    ensures
        r == packed(
            w as int,
            Seq::new(count(w as int) as nat, |i: int| lane_as(b@, w as int / 2, i, unsigned)),
        ),
{
    let n: usize = count_of(w);
    let mut nums: Vec<u64> = Vec::new();
    let mut i: usize = 0;
    while i < n
        invariant
            i <= n,
            n == count(w as int),
            w == 2 || w == 4 || w == 8,
            b@.len() == 8,
            nums@.len() == i,
            forall|k: int|
                0 <= k < i ==> #[trigger] nums@[k] == lane_as(b@, w as int / 2, k, unsigned) % span(w as int),
        decreases n - i,
    {
        let x: i128 = if unsigned {
            get_lane(b, w / 2, i) as i128
        } else {
            get_signed_lane(b, w / 2, i)
        };
        nums.push(cut(x, w));
        i = i + 1;
    }
    pack_cut(
        w,
        &nums,
        Ghost(Seq::new(count(w as int) as nat, |k: int| lane_as(b@, w as int / 2, k, unsigned))),
    )
}

/// The vector that a load makes of the bytes it reads.
fn vector_of_bytes(op: u32, b: &[u8]) -> (r: V128)
    requires
        b@.len() == vector_load_width(op),
    ensures
        r == loaded_vector(op, b@),
{
    match op {
        0x00 => crate::init_expr::read_v128_at(b, 0),
        0x01 | 0x02 => widen(b, 2, op == 0x02),
        0x03 | 0x04 => widen(b, 4, op == 0x04),
        0x05 | 0x06 => widen(b, 8, op == 0x06),
        0x07 => fill(1, get_lane(b, 1, 0)),
        0x08 => fill(2, get_lane(b, 2, 0)),
        0x09 => fill(4, get_lane(b, 4, 0)),
        0x0A => fill(8, get_lane(b, 8, 0)),
        0x5C => {
            let nums: Vec<u64> = vec![get_lane(b, 4, 0), 0, 0, 0];
            let ghost ints = seq![lane(b@, 4, 0), 0, 0, 0];
            pack_cut(4, &nums, Ghost(ints))
        },
        _ => {
            let nums: Vec<u64> = vec![get_lane(b, 8, 0), 0];
            let ghost ints = seq![lane(b@, 8, 0), 0];
            pack_cut(8, &nums, Ghost(ints))
        },
    }
}

fn width_of_vector_load(op: u32) -> (r: usize)
    ensures
        r == vector_load_width(op),
{
    match op {
        0x00 => 16,
        0x07 => 1,
        0x08 => 2,
        0x09 | 0x5C => 4,
        _ => 8,
    }
}

fn width_of_memory_lane(op: u32) -> (r: usize)
    ensures
        r == memory_lane_width(op),
{
    match op {
        0x54 | 0x58 => 1,
        0x55 | 0x59 => 2,
        0x56 | 0x5A => 4,
        _ => 8,
    }
}

impl WasmInstance {
    fn exec_lane_op(&mut self, l: LaneOp, w: usize) -> (r: ExecResult)
        requires
            old(self).wf(),
            gives(l, w as int),
        ensures
            (final(self)@, r@) == lane_instruction(old(self)@, l, w as int),
            final(self).wf(),
    {
        let shift: bool = match l {
            LaneOp::Shl | LaneOp::ShrSigned | LaneOp::ShrUnsigned => true,
            _ => false,
        };
        if shift {
            match self.exec_shift(l, w) {
                Ok(_) => ExecResult::Completed,
                Err(e) => ExecResult::Trap(e),
            }
        } else {
            let b = match self.pop_v128() {
                Ok(v) => v,
                Err(e) => {
                    return ExecResult::Trap(e);
                },
            };
            if takes_one(l) {
                let v = map_lanes(l, w, &b, &b, 0);
                self.give(Computed::Value(Value::V128(v)))
            } else {
                let a = match self.pop_v128() {
                    Ok(v) => v,
                    Err(e) => {
                        return ExecResult::Trap(e);
                    },
                };
                let c = combine(l, w, &a, &b);
                self.give(c)
            }
        }
    }

    fn exec_shift(&mut self, l: LaneOp, w: usize) -> (r: Result<(), WasmError>)
        requires
            old(self).wf(),
            gives(l, w as int),
            is_shift(l),
        ensures
            carried_out((final(self)@, r)) == lane_instruction(old(self)@, l, w as int),
            final(self).wf(),
    {
        let s: u32 = self.pop_i32()? as u32;
        let a = self.pop_v128()?;
        let n: u32 = match w {
            1 => s % 8,
            2 => s % 16,
            4 => s % 32,
            _ => s % 64,
        };
        assert(n == s as int % (8 * w as int));
        let v = map_lanes(l, w, &a, &a, n);
        self.push(Value::V128(v))
    }

    fn exec_vector_float(&mut self, op: u32) -> (r: ExecResult)
        requires
            old(self).wf(),
        ensures
            (final(self)@, r@) == float_instruction(old(self)@, op),
            final(self).wf(),
    {
        let c = match self.pop_v128() {
            Ok(v) => v,
            Err(e) => {
                return ExecResult::Trap(e);
            },
        };
        let n: u8 = arity_of_float(op);
        if n == 1 {
            return ExecResult::Float(FloatCall::Simd(op, c, V128::zero(), V128::zero()));
        }
        let b = match self.pop_v128() {
            Ok(v) => v,
            Err(e) => {
                return ExecResult::Trap(e);
            },
        };
        if n == 2 {
            return ExecResult::Float(FloatCall::Simd(op, b, c, V128::zero()));
        }
        match self.pop_v128() {
            Ok(a) => ExecResult::Float(FloatCall::Simd(op, a, b, c)),
            Err(e) => ExecResult::Trap(e),
        }
    }

    fn exec_ternary(&mut self, op: u32) -> (r: Result<(), WasmError>)
        requires
            old(self).wf(),
        ensures
            (final(self)@, r) == ternary(old(self)@, op),
            final(self).wf(),
    {
        let c = self.pop_v128()?;
        let b = self.pop_v128()?;
        let a = self.pop_v128()?;
        if op == 0x113 {
            self.push(Value::V128(add_dots(&a, &b, &c)))
        } else {
            self.push(Value::V128(select_bits(&a, &b, &c)))
        }
    }

    fn exec_vector_test(&mut self, op: u32) -> (r: Result<(), WasmError>)
        requires
            old(self).wf(),
        ensures
            (final(self)@, r) == follow(old(self)@.pop_v128(), |m: Machine, a: V128| m.push(tested(op, a))),
            final(self).wf(),
    {
        let a = self.pop_v128()?;
        self.push(test_vector(op, &a))
    }

    fn exec_splat(&mut self, op: u32) -> (r: Result<(), WasmError>)
        requires
            old(self).wf(),
        ensures
            (final(self)@, r) == splat(old(self)@, op),
            final(self).wf(),
    {
        let v = self.pop()?;
        self.push(Value::V128(fill(width_of_scalar(op), bits_of_scalar(op, v))))
    }

    fn exec_lane_access(&mut self, op: u32) -> (r: Result<(), WasmError>)
        requires
            old(self).wf(),
        ensures
            (final(self)@, r) == lane_access(old(self)@, op),
            final(self).wf(),
    {
        let l: u8 = self.read_byte()?;
        let w: usize = width_of_scalar(op);
        let i: usize = l as usize % count_of(w);
        let replace: bool = op == 0x17 || op == 0x1A || op == 0x1C || op == 0x1E || op == 0x20 || op == 0x22;
        if replace {
            let x = self.pop()?;
            let v = self.pop_v128()?;
            self.push(Value::V128(set_lane(&v, w, i, bits_of_scalar(op, x))))
        } else {
            let v = self.pop_v128()?;
            self.push(extract(op, &v, i))
        }
    }

    fn exec_shuffle(&mut self) -> (r: Result<(), WasmError>)
        requires
            old(self).wf(),
        ensures
            (final(self)@, r) == shuffle(old(self)@),
            final(self).wf(),
    {
        let p: usize = self.pc;
        let len: usize = self.module.code.len();
        if p > len {
            return Err(WasmError::UnexpectedEnd);
        }
        if len - p < 16 {
            self.pc = len;
            return Err(WasmError::UnexpectedEnd);
        }
        self.pc = p + 16;
        let b = self.pop_v128()?;
        let a = self.pop_v128()?;
        let v = shuffle_bytes(vstd::slice::slice_subrange(self.module.code.as_slice(), p, p + 16), &a, &b);
        self.push(Value::V128(v))
    }

    fn exec_vector_load(&mut self, op: u32) -> (r: Result<(), WasmError>)
        requires
            old(self).wf(),
        ensures
            (final(self)@, r) == vector_load(old(self)@, op),
            final(self).wf(),
    {
        let (mi, offset) = self.read_memarg()?;
        let a: u32 = self.pop_address(offset)?;
        let v = vector_of_bytes(op, self.mem_read(mi, a, width_of_vector_load(op))?);
        self.push(Value::V128(v))
    }

    fn exec_vector_store(&mut self) -> (r: Result<(), WasmError>)
        requires
            old(self).wf(),
        ensures
            (final(self)@, r) == vector_store(old(self)@),
            final(self).wf(),
    {
        let (mi, offset) = self.read_memarg()?;
        let v = self.pop_v128()?;
        let a: u32 = self.pop_address(offset)?;
        self.mem_write(mi, a, v.0.as_slice())
    }

    fn exec_lane_memory(&mut self, op: u32) -> (r: Result<(), WasmError>)
        requires
            old(self).wf(),
        ensures
            (final(self)@, r) == lane_memory(old(self)@, op),
            final(self).wf(),
    {
        let w: usize = width_of_memory_lane(op);
        let (mi, offset) = self.read_memarg()?;
        let l: u8 = self.read_byte()?;
        let v = self.pop_v128()?;
        let a: u32 = self.pop_address(offset)?;
        let i: usize = l as usize % count_of(w);
        if op <= 0x57 {
            let x: u64 = get_lane(self.mem_read(mi, a, w)?, w, 0);
            self.push(Value::V128(set_lane(&v, w, i, x)))
        } else {
            let at: usize = match w {
                1 => i,
                2 => 2 * i,
                4 => 4 * i,
                _ => 8 * i,
            };
            assert(at == w * i && at + w <= 16);
            self.mem_write(mi, a, vstd::slice::slice_subrange(v.0.as_slice(), at, at + w))
        }
    }

    fn exec_vector_move(&mut self, op: u32) -> (r: Result<(), WasmError>)
        requires
            old(self).wf(),
            moves_data(op),
        ensures
            (final(self)@, r) == vector_move(old(self)@, op),
            final(self).wf(),
    {
        if op <= 0x0A || op == 0x5C || op == 0x5D {
            self.exec_vector_load(op)
        } else if op == 0x0B {
            self.exec_vector_store()
        } else if 0x54 <= op && op <= 0x5B {
            self.exec_lane_memory(op)
        } else if op == 0x0C {
            let v = self.read_v128()?;
            self.push(Value::V128(v))
        } else if op == 0x0D {
            self.exec_shuffle()
        } else if 0x0F <= op && op <= 0x14 {
            self.exec_splat(op)
        } else {
            self.exec_lane_access(op)
        }
    }

    /// Executes the instruction with the prefix 0xFD and this number.
    pub fn exec_simd(&mut self, op: u32) -> (r: ExecResult)
        requires
            old(self).wf(),
        ensures
            (final(self)@, r@) == vector_instruction(old(self)@, op),
            final(self).wf(),
    {
        if op <= 0x0D || (0x0F <= op && op <= 0x22) || (0x54 <= op && op <= 0x5D) {
            return self.settle(op, 0);
        }
        if op == 0x53 || op == 0x63 || op == 0x83 || op == 0xA3 || op == 0xC3 || op == 0x64 || op == 0x84 || op == 0xA4
            || op == 0xC4 {
            return self.settle(op, 1);
        }
        if op == 0x52 || (0x109 <= op && op <= 0x10C) || op == 0x113 {
            return self.settle(op, 2);
        }
        if arity_of_float(op) > 0 {
            return self.exec_vector_float(op);
        }
        match decode_lane_op(op) {
            Some((l, w)) => self.exec_lane_op(l, w),
            None => ExecResult::Trap(WasmError::InvalidOpcode(0xFD)),
        }
    }

    /// Executes a move, a test or an instruction on three vectors.
    fn settle(&mut self, op: u32, group: u8) -> (r: ExecResult)
        requires
            old(self).wf(),
            group == 0 ==> moves_data(op),
        ensures
            (final(self)@, r@) == carried_out(
                if group == 0 {
                    vector_move(old(self)@, op)
                } else if group == 1 {
                    follow(old(self)@.pop_v128(), |m: Machine, a: V128| m.push(tested(op, a)))
                } else {
                    ternary(old(self)@, op)
                },
            ),
            final(self).wf(),
    {
        let r = match group {
            0 => self.exec_vector_move(op),
            1 => self.exec_vector_test(op),
            _ => self.exec_ternary(op),
        };
        match r {
            Ok(_) => ExecResult::Completed,
            Err(e) => ExecResult::Trap(e),
        }
    }
}

} // verus!
