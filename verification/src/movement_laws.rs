//! What the vector instructions that move bytes and lanes leave where.

use vstd::prelude::*;
use crate::bytes::{le_u16, le_u32, le_u64};
use crate::lanes::{count, is_lane_width, lane, packed, packed_lane, signed_lane, LaneOp};
use crate::machine::{Machine, Outcome, Store};
use crate::memory_laws::{number_at, numbers_unfold, plain_memarg, signed_at};
use crate::scalar_laws::{casts32, casts64, unsigned32, unsigned64};
use crate::simd::{filled_with, loaded_vector, shuffled, with_lane};
use crate::situation::{consumed, faces_prefixed, operand, replaced, result_of, yields_at};
use crate::step::step;
use crate::types::{v128_bytes_kept, v128_of, Value, WasmError, V128};
use crate::vector_laws::{
    by_lanes, combines, enters_vector, faces_vectors, lane_is_number, modulus, number, result_number,
    signed_number,
};

verus! {

/// `i8x16.swizzle` takes the bytes of the first operand that the second names, and zero
/// where it names none.
pub proof fn swizzle_picks(m: Machine, op: u32, at: int, a: V128, b: V128, i: int)
    requires
        op == 0x0E || op == 0x100,
        faces_vectors(m, op, at, a, b),
        0 <= i < 16,
    ensures
        ({
            let r = result_of(m, 2)->V128_0;
            let k = b.0@[i] as int;
            &&& yields_at(m, 2, Value::V128(r), at)
            &&& k < 16 ==> r.0@[i] == a.0@[k]
            &&& k >= 16 ==> r.0@[i] == 0
        }),
{
    reveal(by_lanes);
    combines(m, op, at, a, b, LaneOp::Swizzle, 1);
    let k = b.0@[i] as int;
    result_number(
        LaneOp::Swizzle,
        1,
        a,
        b,
        0,
        i,
        if k < 16 {
            a.0@[k] as int
        } else {
            0
        },
    );
}

/// `i8x16.shuffle` takes the bytes that its sixteen immediates name, of the first operand
/// below sixteen and of the second above.
pub proof fn shuffle_picks(m: Machine, p: int, a: V128, b: V128, i: int)
    requires
        faces_vectors(m, 0x0D, p, a, b),
        0 <= p && p + 16 <= m.store.module.code.len(),
        0 <= i < 16,
        m.store.module.code[p + i] < 32,
    ensures
        ({
            let r = result_of(m, 2)->V128_0;
            let k = m.store.module.code[p + i] as int;
            &&& yields_at(m, 2, Value::V128(r), p + 16)
            &&& k < 16 ==> r.0@[i] == a.0@[k]
            &&& k >= 16 ==> r.0@[i] == b.0@[k - 16]
        }),
{
    shuffle_gives(m, p, a, b);
    shuffled_byte(m.store.module.code.subrange(p, p + 16), a, b, i);
}

#[verifier::opaque]
spec fn picked(idx: Seq<u8>, a: V128, b: V128) -> V128 {
    shuffled(idx, a, b)
}

proof fn shuffled_byte(idx: Seq<u8>, a: V128, b: V128, i: int)
    requires
        0 <= i < 16,
        idx[i] < 32,
    ensures
        idx[i] < 16 ==> picked(idx, a, b).0@[i] == a.0@[idx[i] as int],
        idx[i] >= 16 ==> picked(idx, a, b).0@[i] == b.0@[idx[i] - 16],
{
    reveal(picked);
    let s = Seq::new(16, |i: int| (a.0@ + b.0@)[idx[i] as int % 32]);
    v128_bytes_kept(s);
    assert(picked(idx, a, b).0@[i] == s[i]);
    assert(idx[i] as int % 32 == idx[i]);
}

#[verifier::spinoff_prover]
#[verifier::rlimit(60)]
proof fn shuffle_gives(m: Machine, p: int, a: V128, b: V128)
    requires
        faces_vectors(m, 0x0D, p, a, b),
        0 <= p && p + 16 <= m.store.module.code.len(),
    ensures
        yields_at(m, 2, Value::V128(picked(m.store.module.code.subrange(p, p + 16), a, b)), p + 16),
{
    reveal(picked);
    enters_vector(m, 0x0D, p);
    let v = shuffled(m.store.module.code.subrange(p, p + 16), a, b);
    assert(step(m).0 =~= replaced(m, 2, Value::V128(v), p + 16));
}

/// `v128.const` gives the sixteen bytes that follow it.
pub proof fn vector_constants(m: Machine, p: int, i: int)
    requires
        faces_prefixed(m, 0xFD, 0x0C, p),
        0 <= p && p + 16 <= m.store.module.code.len(),
        m.stack_ptr < crate::types::MAX_STACK,
        0 <= i < 16,
    ensures
        ({
            let r = result_of(m, 0)->V128_0;
            yields_at(m, 0, Value::V128(r), p + 16) && r.0@[i] == m.store.module.code[p + i]
        }),
{
    enters_vector(m, 0x0C, p);
    let s = m.store.module.code.subrange(p, p + 16);
    assert(step(m).0 =~= replaced(m, 0, Value::V128(v128_of(s)), p + 16));
    v128_bytes_kept(s);
}

#[verifier::opaque]
spec fn spread(w: int, x: u64) -> V128 {
    filled_with(w, x)
}

#[verifier::opaque]
spec fn relaned(v: V128, w: int, k: int, x: u64) -> V128 {
    with_lane(v, w, k, x)
}

#[verifier::opaque]
spec fn loaded(op: u32, b: Seq<u8>) -> V128 {
    loaded_vector(op, b)
}

proof fn packed_number(w: int, nums: Seq<int>, i: int)
    requires
        is_lane_width(w),
        nums.len() == count(w),
        0 <= i < count(w),
    ensures
        number(packed(w, nums), w, i) == nums[i] % modulus(w),
        0 <= nums[i] < modulus(w) ==> number(packed(w, nums), w, i) == nums[i],
        -modulus(w) / 2 <= nums[i] < modulus(w) / 2 ==> signed_number(packed(w, nums), w, i) == nums[i],
{
    packed_lane(w, nums, i);
    lane_is_number(packed(w, nums), w, i);
    crate::vector_laws::cut_agrees(nums[i], modulus(w));
}

proof fn filled_number(w: int, x: u64, i: int)
    requires
        is_lane_width(w),
        0 <= i < count(w),
    ensures
        number(spread(w, x), w, i) == x as int % modulus(w),
        x < modulus(w) ==> number(spread(w, x), w, i) == x,
{
    reveal(spread);
    packed_number(w, Seq::new(count(w) as nat, |i: int| x as int), i);
}

proof fn lane_replaced(v: V128, w: int, k: int, x: u64, i: int)
    requires
        is_lane_width(w),
        0 <= i < count(w),
        0 <= k < count(w),
    ensures
        i == k ==> number(relaned(v, w, k, x), w, i) == x as int % modulus(w),
        i == k && x < modulus(w) ==> number(relaned(v, w, k, x), w, i) == x,
        i != k ==> number(relaned(v, w, k, x), w, i) == number(v, w, i),
{
    reveal(relaned);
    lane_is_number(v, w, i);
    packed_number(w, crate::lanes::lanes(v, w).update(k, x as int), i);
}

/// The unsigned number in the bits of a scalar.
pub open spec fn scalar_number(v: Value) -> int {
    match v {
        Value::I32(x) => unsigned32(x),
        Value::I64(x) => unsigned64(x),
        Value::F32(x) => x as int,
        Value::F64(x) => x as int,
        _ => 0,
    }
}

/// Bytes of the lanes of the six shapes: 8, 16, 32 and 64 bit integers, then floats of
/// single and double precision.
pub open spec fn shape_width(k: u32) -> int {
    if k == 0 {
        1
    } else if k == 1 {
        2
    } else if k == 2 || k == 4 {
        4
    } else {
        8
    }
}

/// Whether a scalar has the type that a lane of this shape is made from.
pub open spec fn fits_shape(k: u32, v: Value) -> bool {
    if k <= 2 {
        v is I32
    } else if k == 3 {
        v is I64
    } else if k == 4 {
        v is F32
    } else {
        v is F64
    }
}

proof fn scalar_is_number(op: u32, k: u32, v: Value)
    requires
        k < 6,
        fits_shape(k, v),
        op == 0x0F + k || op == (if k == 0 { 0x17 } else if k == 1 { 0x1A } else { 0x18 + 2 * k }),
    ensures
        crate::simd::scalar_bits(op, v) == scalar_number(v),
        crate::simd::scalar_width(op) == shape_width(k),
{
    match v {
        Value::I32(x) => casts32(x, 0),
        Value::I64(x) => casts64(x, 0),
        _ => {},
    }
}

#[verifier::spinoff_prover]
#[verifier::rlimit(60)]
proof fn splatted(m: Machine, op: u32, at: int, v: Value)
    requires
        0x0F <= op <= 0x14,
        faces_prefixed(m, 0xFD, op, at),
        m.stack_ptr >= 1,
        operand(m, 0) == v,
    ensures
        yields_at(m, 1, Value::V128(spread(crate::simd::scalar_width(op), crate::simd::scalar_bits(op, v))), at),
{
    reveal(spread);
    enters_vector(m, op, at);
    let r = filled_with(crate::simd::scalar_width(op), crate::simd::scalar_bits(op, v));
    assert(step(m).0 =~= replaced(m, 1, Value::V128(r), at));
}

#[verifier::spinoff_prover]
#[verifier::rlimit(60)]
proof fn lane_put(m: Machine, op: u32, p: int, a: V128, v: Value)
    requires
        op == 0x17 || op == 0x1A || op == 0x1C || op == 0x1E || op == 0x20 || op == 0x22,
        faces_prefixed(m, 0xFD, op, p),
        0 <= p < m.store.module.code.len(),
        m.stack_ptr >= 2,
        operand(m, 1) == Value::V128(a),
        operand(m, 0) == v,
        m.store.module.code[p] < count(crate::simd::scalar_width(op)),
    ensures
        yields_at(
            m,
            2,
            Value::V128(
                relaned(
                    a,
                    crate::simd::scalar_width(op),
                    m.store.module.code[p] as int,
                    crate::simd::scalar_bits(op, v),
                ),
            ),
            p + 1,
        ),
{
    reveal(relaned);
    enters_vector(m, op, p);
    let w = crate::simd::scalar_width(op);
    let l = m.store.module.code[p] as int;
    vstd::arithmetic::div_mod::lemma_small_mod(l as nat, count(w) as nat);
    let r = with_lane(a, w, l, crate::simd::scalar_bits(op, v));
    assert(step(m).0 =~= replaced(m, 2, Value::V128(r), p + 1));
}

/// `splat` fills every lane with its operand, cut to the lane.
pub proof fn splat_fills(m: Machine, k: u32, at: int, v: Value, i: int)
    requires
        k < 6,
        faces_prefixed(m, 0xFD, (0x0F + k) as u32, at),
        m.stack_ptr >= 1,
        operand(m, 0) == v,
        fits_shape(k, v),
        0 <= i < count(shape_width(k)),
    ensures
        ({
            let r = result_of(m, 1)->V128_0;
            let w = shape_width(k);
            yields_at(m, 1, Value::V128(r), at) && number(r, w, i) == scalar_number(v) % modulus(w)
        }),
{
    let op = (0x0F + k) as u32;
    scalar_is_number(op, k, v);
    splatted(m, op, at, v);
    filled_number(shape_width(k), crate::simd::scalar_bits(op, v), i);
}

/// `replace_lane` puts its operand into the lane that it names, cut to the lane, and leaves
/// the others.
pub proof fn lane_replacement(m: Machine, k: u32, p: int, a: V128, v: Value, i: int)
    requires
        k < 6,
        faces_prefixed(m, 0xFD, if k == 0 { 0x17 } else if k == 1 { 0x1A } else { (0x18 + 2 * k) as u32 }, p),
        0 <= p < m.store.module.code.len(),
        m.store.module.code[p] < count(shape_width(k)),
        m.stack_ptr >= 2,
        operand(m, 1) == Value::V128(a),
        operand(m, 0) == v,
        fits_shape(k, v),
        0 <= i < count(shape_width(k)),
    ensures
        ({
            let r = result_of(m, 2)->V128_0;
            let w = shape_width(k);
            &&& yields_at(m, 2, Value::V128(r), p + 1)
            &&& number(r, w, i) == if i == m.store.module.code[p] {
                scalar_number(v) % modulus(w)
            } else {
                number(a, w, i)
            }
        }),
{
    let op = if k == 0 { 0x17u32 } else if k == 1 { 0x1Au32 } else { (0x18 + 2 * k) as u32 };
    let w = shape_width(k);
    scalar_is_number(op, k, v);
    lane_put(m, op, p, a, v);
    lane_replaced(a, w, m.store.module.code[p] as int, crate::simd::scalar_bits(op, v), i);
}

/// `extract_lane` gives the number in the lane that it names: for integers of 8 and 16 bits
/// with or without sign, for the others their bits.
pub proof fn lane_extraction(m: Machine, op: u32, p: int, a: V128)
    requires
        op == 0x15 || op == 0x16 || op == 0x18 || op == 0x19 || op == 0x1B || op == 0x1D || op == 0x1F || op == 0x21,
        faces_prefixed(m, 0xFD, op, p),
        0 <= p < m.store.module.code.len(),
        op <= 0x16 ==> m.store.module.code[p] < 16,
        0x18 <= op <= 0x19 ==> m.store.module.code[p] < 8,
        op == 0x1B || op == 0x1F ==> m.store.module.code[p] < 4,
        op == 0x1D || op == 0x21 ==> m.store.module.code[p] < 2,
        m.stack_ptr >= 1,
        operand(m, 0) == Value::V128(a),
    ensures
        ({
            let v = result_of(m, 1);
            let i = m.store.module.code[p] as int;
            &&& yields_at(m, 1, v, p + 1)
            &&& op == 0x15 ==> v is I32 && v->I32_0 == signed_number(a, 1, i)
            &&& op == 0x16 ==> v is I32 && v->I32_0 == number(a, 1, i)
            &&& op == 0x18 ==> v is I32 && v->I32_0 == signed_number(a, 2, i)
            &&& op == 0x19 ==> v is I32 && v->I32_0 == number(a, 2, i)
            &&& op == 0x1B ==> v is I32 && v->I32_0 == signed_number(a, 4, i)
            &&& op == 0x1D ==> v is I64 && v->I64_0 == signed_number(a, 8, i)
            &&& op == 0x1F ==> v is F32 && v->F32_0 == number(a, 4, i)
            &&& op == 0x21 ==> v is F64 && v->F64_0 == number(a, 8, i)
        }),
{
    enters_vector(m, op, p);
    let i = m.store.module.code[p] as int;
    let w = crate::simd::scalar_width(op);
    vstd::arithmetic::div_mod::lemma_small_mod(i as nat, count(w) as nat);
    lane_is_number(a, w, i);
    assert(step(m).0 =~= replaced(m, 1, result_of(m, 1), p + 1));
}

// ---------------------------------------------------------------------------
// Memory

/// Whether the machine stands before a vector instruction that takes a memory argument, with
/// this base as operand `k`, and all of `n` bytes lie within the first memory.
pub open spec fn reaches(
    m: Machine,
    op: u32,
    p: int,
    flags: u32,
    q: int,
    offset: u32,
    at: int,
    k: int,
    base: i32,
    n: int,
) -> bool {
    &&& faces_prefixed(m, 0xFD, op, p)
    &&& plain_memarg(m, p, flags, q, offset, at)
    &&& m.stack_ptr > k
    &&& operand(m, k) == Value::I32(base)
    &&& m.store.memories.len() > 0
    &&& unsigned32(base) + offset <= u32::MAX
    &&& unsigned32(base) + offset + n <= m.store.memories[0].len()
}

proof fn lane_in_memory(s: Seq<u8>, p: int, n: int, w: int, i: int)
    requires
        is_lane_width(w),
        0 <= p,
        0 <= i,
        w * i + w <= n,
        p + n <= s.len(),
    ensures
        lane(s.subrange(p, p + n), w, i) == number_at(s, p + w * i, w),
        signed_lane(s.subrange(p, p + n), w, i) == signed_at(s, p + w * i, w),
        0 <= number_at(s, p + w * i, w) < modulus(w),
{
    let b = s.subrange(p, p + n);
    numbers_unfold(s, p + w * i);
    if w == 1 {
    } else if w == 2 {
        assert(le_u16(b, 2 * i) == le_u16(s, p + 2 * i));
    } else if w == 4 {
        assert(le_u32(b, 4 * i) == le_u32(s, p + 4 * i));
    } else {
        assert(le_u32(b, 8 * i) == le_u32(s, p + 8 * i) && le_u32(b, 8 * i + 4) == le_u32(s, p + 8 * i + 4));
        assert(le_u64(b, 8 * i) == le_u64(s, p + 8 * i));
    }
}

/// `v128.load` takes sixteen bytes, and `v128.store` writes them, in order.
pub proof fn vector_load_reads(m: Machine, p: int, flags: u32, q: int, offset: u32, at: int, base: i32, i: int)
    requires
        reaches(m, 0x00, p, flags, q, offset, at, 0, base, 16),
        0 <= i < 16,
    ensures
        ({
            let r = result_of(m, 1)->V128_0;
            let a = unsigned32(base) + offset;
            yields_at(m, 1, Value::V128(r), at) && r.0@[i] == m.store.memories[0][a + i]
        }),
{
    enters_vector(m, 0x00, p);
    casts32(base, 0);
    let a = unsigned32(base) + offset;
    let b = m.store.memories[0].subrange(a, a + 16);
    assert(step(m).0 =~= replaced(m, 1, Value::V128(v128_of(b)), at));
    v128_bytes_kept(b);
}

/// `v128.store` writes the sixteen bytes in order, and nothing else.
pub proof fn vector_store_writes(
    m: Machine,
    p: int,
    flags: u32,
    q: int,
    offset: u32,
    at: int,
    base: i32,
    v: V128,
    i: int,
)
    requires
        reaches(m, 0x0B, p, flags, q, offset, at, 1, base, 16),
        operand(m, 0) == Value::V128(v),
        0 <= i < m.store.memories[0].len(),
    ensures
        ({
            let a = unsigned32(base) + offset;
            let (s, t) = (m.store.memories[0], step(m).0.store.memories[0]);
            &&& step(m).1 == Outcome::Completed
            &&& step(m).0 == (Machine {
                store: Store { memories: m.store.memories.update(0, t), ..m.store },
                ..consumed(m, 2, at)
            })
            &&& t.len() == s.len()
            &&& t[i] == if a <= i < a + 16 {
                v.0@[i - a]
            } else {
                s[i]
            }
        }),
{
    enters_vector(m, 0x0B, p);
    casts32(base, 0);
    let t = step(m).0.store.memories[0];
    assert(step(m).0 =~= Machine {
        store: Store { memories: m.store.memories.update(0, t), ..m.store },
        ..consumed(m, 2, at)
    });
}

#[verifier::spinoff_prover]
#[verifier::rlimit(60)]
proof fn load_gives(m: Machine, op: u32, p: int, flags: u32, q: int, offset: u32, at: int, base: i32, n: int)
    requires
        0x01 <= op <= 0x0A || op == 0x5C || op == 0x5D,
        n == crate::simd::vector_load_width(op),
        reaches(m, op, p, flags, q, offset, at, 0, base, n),
    ensures
        ({
            let a = unsigned32(base) + offset;
            yields_at(m, 1, Value::V128(loaded(op, m.store.memories[0].subrange(a, a + n))), at)
        }),
{
    reveal(loaded);
    enters_vector(m, op, p);
    casts32(base, 0);
    let a = unsigned32(base) + offset;
    let b = m.store.memories[0].subrange(a, a + n);
    assert(step(m).0 =~= replaced(m, 1, Value::V128(loaded_vector(op, b)), at));
}

/// Loads that widen take eight bytes as numbers of half a lane, with or without sign.
pub proof fn vector_load_widens(
    m: Machine,
    op: u32,
    p: int,
    flags: u32,
    q: int,
    offset: u32,
    at: int,
    base: i32,
    i: int,
)
    requires
        0x01 <= op <= 0x06,
        reaches(m, op, p, flags, q, offset, at, 0, base, 8),
        0 <= i < (if op <= 2 { 8int } else if op <= 4 { 4int } else { 2int }),
    ensures
        ({
            let r = result_of(m, 1)->V128_0;
            let a = unsigned32(base) + offset;
            let s = m.store.memories[0];
            &&& yields_at(m, 1, Value::V128(r), at)
            &&& op == 0x01 ==> signed_number(r, 2, i) == signed_at(s, a + i, 1)
            &&& op == 0x02 ==> number(r, 2, i) == number_at(s, a + i, 1)
            &&& op == 0x03 ==> signed_number(r, 4, i) == signed_at(s, a + 2 * i, 2)
            &&& op == 0x04 ==> number(r, 4, i) == number_at(s, a + 2 * i, 2)
            &&& op == 0x05 ==> signed_number(r, 8, i) == signed_at(s, a + 4 * i, 4)
            &&& op == 0x06 ==> number(r, 8, i) == number_at(s, a + 4 * i, 4)
        }),
{
    load_gives(m, op, p, flags, q, offset, at, base, 8);
    widened_load(m.store.memories[0], unsigned32(base) + offset, op, i);
}

#[verifier::spinoff_prover]
#[verifier::rlimit(60)]
proof fn widened_load(s: Seq<u8>, a: int, op: u32, i: int)
    requires
        0x01 <= op <= 0x06,
        0 <= a,
        a + 8 <= s.len(),
        0 <= i < (if op <= 2 { 8int } else if op <= 4 { 4int } else { 2int }),
    ensures
        ({
            let r = loaded(op, s.subrange(a, a + 8));
            &&& op == 0x01 ==> signed_number(r, 2, i) == signed_at(s, a + i, 1)
            &&& op == 0x02 ==> number(r, 2, i) == number_at(s, a + i, 1)
            &&& op == 0x03 ==> signed_number(r, 4, i) == signed_at(s, a + 2 * i, 2)
            &&& op == 0x04 ==> number(r, 4, i) == number_at(s, a + 2 * i, 2)
            &&& op == 0x05 ==> signed_number(r, 8, i) == signed_at(s, a + 4 * i, 4)
            &&& op == 0x06 ==> number(r, 8, i) == number_at(s, a + 4 * i, 4)
        }),
{
    reveal(loaded);
    let b = s.subrange(a, a + 8);
    if op <= 0x02 {
        lane_in_memory(s, a, 8, 1, i);
        packed_number(2, Seq::new(8, |i: int| crate::lanes::lane_as(b, 1, i, op == 0x02)), i);
    } else if op <= 0x04 {
        lane_in_memory(s, a, 8, 2, i);
        packed_number(4, Seq::new(4, |i: int| crate::lanes::lane_as(b, 2, i, op == 0x04)), i);
    } else {
        lane_in_memory(s, a, 8, 4, i);
        packed_number(8, Seq::new(2, |i: int| crate::lanes::lane_as(b, 4, i, op == 0x06)), i);
    }
}

/// Bytes of the number that a load which repeats it, or puts zeros behind it, reads.
pub open spec fn repeated_width(op: u32) -> int {
    if op == 0x07 {
        1
    } else if op == 0x08 {
        2
    } else if op == 0x09 || op == 0x5C {
        4
    } else {
        8
    }
}

/// Loads that repeat fill every lane with the number they read; loads with zeros put it into
/// the first lane and zeros into the others.
pub proof fn vector_load_repeats(
    m: Machine,
    op: u32,
    p: int,
    flags: u32,
    q: int,
    offset: u32,
    at: int,
    base: i32,
    i: int,
)
    requires
        0x07 <= op <= 0x0A || op == 0x5C || op == 0x5D,
        reaches(m, op, p, flags, q, offset, at, 0, base, repeated_width(op)),
        0 <= i < count(repeated_width(op)),
    ensures
        ({
            let r = result_of(m, 1)->V128_0;
            let w = repeated_width(op);
            let x = number_at(m.store.memories[0], unsigned32(base) + offset, w);
            &&& yields_at(m, 1, Value::V128(r), at)
            &&& number(r, w, i) == if op <= 0x0A || i == 0 {
                x
            } else {
                0
            }
        }),
{
    load_gives(m, op, p, flags, q, offset, at, base, repeated_width(op));
    repeated_load(m.store.memories[0], unsigned32(base) + offset, op, i);
}

#[verifier::spinoff_prover]
#[verifier::rlimit(60)]
proof fn repeated_load(s: Seq<u8>, a: int, op: u32, i: int)
    requires
        0x07 <= op <= 0x0A || op == 0x5C || op == 0x5D,
        0 <= a,
        a + repeated_width(op) <= s.len(),
        0 <= i < count(repeated_width(op)),
    ensures
        ({
            let w = repeated_width(op);
            number(loaded(op, s.subrange(a, a + w)), w, i) == if op <= 0x0A || i == 0 {
                number_at(s, a, w)
            } else {
                0
            }
        }),
{
    reveal(loaded);
    let w = repeated_width(op);
    let b = s.subrange(a, a + w);
    lane_in_memory(s, a, w, w, 0);
    if op <= 0x0A {
        reveal(spread);
        filled_number(w, lane(b, w, 0) as u64, i);
    } else if op == 0x5C {
        packed_number(4, seq![lane(b, 4, 0), 0, 0, 0], i);
    } else {
        packed_number(8, seq![lane(b, 8, 0), 0], i);
    }
}

/// Bytes of the lane that a load or store of one lane moves.
pub open spec fn moved_width(op: u32) -> int {
    if op == 0x54 || op == 0x58 {
        1
    } else if op == 0x55 || op == 0x59 {
        2
    } else if op == 0x56 || op == 0x5A {
        4
    } else {
        8
    }
}

/// Loads of one lane put the number they read into the lane that they name, and leave the
/// others.
pub proof fn lane_load_reads(
    m: Machine,
    op: u32,
    p: int,
    flags: u32,
    q: int,
    offset: u32,
    at: int,
    base: i32,
    v: V128,
    i: int,
)
    requires
        0x54 <= op <= 0x57,
        reaches(m, op, p, flags, q, offset, at, 1, base, moved_width(op)),
        0 <= at < m.store.module.code.len(),
        m.store.module.code[at] < count(moved_width(op)),
        operand(m, 0) == Value::V128(v),
        0 <= i < count(moved_width(op)),
    ensures
        ({
            let r = result_of(m, 2)->V128_0;
            let w = moved_width(op);
            &&& yields_at(m, 2, Value::V128(r), at + 1)
            &&& number(r, w, i) == if i == m.store.module.code[at] {
                number_at(m.store.memories[0], unsigned32(base) + offset, w)
            } else {
                number(v, w, i)
            }
        }),
{
    let a = unsigned32(base) + offset;
    let w = moved_width(op);
    let x = lane(m.store.memories[0].subrange(a, a + w), w, 0) as u64;
    lane_in_memory(m.store.memories[0], a, w, w, 0);
    lane_loaded(m, op, p, flags, q, offset, at, base, v, x);
    lane_replaced(v, w, m.store.module.code[at] as int, x, i);
}

#[verifier::spinoff_prover]
#[verifier::rlimit(100)]
proof fn lane_loaded(
    m: Machine,
    op: u32,
    p: int,
    flags: u32,
    q: int,
    offset: u32,
    at: int,
    base: i32,
    v: V128,
    x: u64,
)
    requires
        0x54 <= op <= 0x57,
        reaches(m, op, p, flags, q, offset, at, 1, base, moved_width(op)),
        0 <= at < m.store.module.code.len(),
        m.store.module.code[at] < count(moved_width(op)),
        operand(m, 0) == Value::V128(v),
        ({
            let a = unsigned32(base) + offset;
            let w = moved_width(op);
            x == lane(m.store.memories[0].subrange(a, a + w), w, 0) as u64
        }),
    ensures
        yields_at(m, 2, Value::V128(relaned(v, moved_width(op), m.store.module.code[at] as int, x)), at + 1),
{
    enters_vector(m, op, p);
    casts32(base, 0);
    let w = moved_width(op);
    let l = m.store.module.code[at];
    let a = (unsigned32(base) + offset) as u32;
    let m0 = Machine { pc: p, fuel: (m.fuel - 1) as u64, ..m };
    let m1 = Machine { pc: at, ..m0 };
    let m2 = Machine { pc: at + 1, ..m0 };
    let m3 = m2.with_stack_ptr(m.stack_ptr - 1);
    let m4 = m2.with_stack_ptr(m.stack_ptr - 2);
    let b = m.store.memories[0].subrange(a as int, a + w);
    assert(m0.read_memarg() == (m1, Ok::<(u32, u32), WasmError>((0u32, offset))));
    assert(m1.read_byte() == (m2, Ok::<u8, WasmError>(l)));
    assert(m2.pop_v128() == (m3, Ok::<V128, WasmError>(v)));
    assert(crate::memory::pop_address(m3, offset) == (m4, Ok::<u32, WasmError>(a)));
    assert(m4.store.mem_read(0, a as int, w) == Ok::<Seq<u8>, WasmError>(b));
    lane_memory_loads(m0, m1, m2, m3, m4, op, (0u32, offset), l, v, a, b);
    vstd::arithmetic::div_mod::lemma_small_mod(l as nat, count(w) as nat);
    assert(step(m).0 =~= replaced(m, 2, Value::V128(relaned(v, w, l as int, x)), at + 1));
}

proof fn lane_memory_loads(
    m0: Machine,
    m1: Machine,
    m2: Machine,
    m3: Machine,
    m4: Machine,
    op: u32,
    g: (u32, u32),
    l: u8,
    v: V128,
    a: u32,
    b: Seq<u8>,
)
    requires
        0x54 <= op <= 0x57,
        m0.read_memarg() == (m1, Ok::<(u32, u32), WasmError>(g)),
        m1.read_byte() == (m2, Ok::<u8, WasmError>(l)),
        m2.pop_v128() == (m3, Ok::<V128, WasmError>(v)),
        crate::memory::pop_address(m3, g.1) == (m4, Ok::<u32, WasmError>(a)),
        m4.store.mem_read(g.0 as int, a as int, moved_width(op)) == Ok::<Seq<u8>, WasmError>(b),
    ensures
        crate::simd::lane_memory(m0, op) == m4.push(
            Value::V128(
                relaned(
                    v,
                    moved_width(op),
                    l as int % count(moved_width(op)),
                    lane(b, moved_width(op), 0) as u64,
                ),
            ),
        ),
{
    reveal(relaned);
    assert(crate::simd::memory_lane_width(op) == moved_width(op));
}

/// Stores of one lane write its bytes, and nothing else.
pub proof fn lane_store_writes(
    m: Machine,
    op: u32,
    p: int,
    flags: u32,
    q: int,
    offset: u32,
    at: int,
    base: i32,
    v: V128,
    i: int,
)
    requires
        0x58 <= op <= 0x5B,
        reaches(m, op, p, flags, q, offset, at, 1, base, moved_width(op)),
        0 <= at < m.store.module.code.len(),
        m.store.module.code[at] < count(moved_width(op)),
        operand(m, 0) == Value::V128(v),
        0 <= i < m.store.memories[0].len(),
    ensures
        ({
            let a = unsigned32(base) + offset;
            let w = moved_width(op);
            let (s, t) = (m.store.memories[0], step(m).0.store.memories[0]);
            &&& step(m).1 == Outcome::Completed
            &&& step(m).0 == (Machine {
                store: Store { memories: m.store.memories.update(0, t), ..m.store },
                ..consumed(m, 2, at + 1)
            })
            &&& t.len() == s.len()
            &&& t[i] == if a <= i < a + w {
                v.0@[w * m.store.module.code[at] + i - a]
            } else {
                s[i]
            }
        }),
{
    enters_vector(m, op, p);
    casts32(base, 0);
    let w = moved_width(op);
    let l = m.store.module.code[at] as int;
    vstd::arithmetic::div_mod::lemma_small_mod(l as nat, count(w) as nat);
    assert(0 <= w * l && w * l + w <= 16) by (nonlinear_arith)
        requires
            0 <= l < count(w),
            w == 1 || w == 2 || w == 4 || w == 8,
            count(w) * w == 16,
    ;
    let t = step(m).0.store.memories[0];
    assert(step(m).0 =~= Machine {
        store: Store { memories: m.store.memories.update(0, t), ..m.store },
        ..consumed(m, 2, at + 1)
    });
}

} // verus!
