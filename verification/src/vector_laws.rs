//! What the vector instructions compute, in terms of the numbers in the lanes.

use vstd::prelude::*;
use vstd::arithmetic::power2::pow2;
use crate::atomics::span;
use crate::bytes::{le_u32, le_u64};
use crate::lanes::{
    bits_selected, clamped_to, count, is_lane_width, lane, lane_result, mapped, mapped_lane, signed_lane,
    LaneOp,
};
use crate::machine::Machine;
use crate::numeric::ones;
use crate::scalar_laws::{casts32, unsigned32};
use crate::simd::{
    arithmetic, float_arity, is_shift, is_test, is_unary, lane_op, moves_data, vector_instruction,
};
use crate::situation::{faces_prefixed, operand, replaced, result_of, step_executes, yields_at};
use crate::step::{instruction, step};
use crate::types::{v128_bytes_kept, v128_from_own_bytes, Value, V128};

verus! {

// ---------------------------------------------------------------------------
// Lanes

/// The number of values that a lane of `w` bytes can hold.
pub open spec fn modulus(w: int) -> int {
    if w == 1 {
        0x100
    } else if w == 2 {
        0x1_0000
    } else if w == 4 {
        0x1_0000_0000
    } else {
        0x1_0000_0000_0000_0000
    }
}

/// The number in two bytes, the lower first.
pub open spec fn two_bytes(v: V128, p: int) -> int {
    v.0@[p] + 0x100 * v.0@[p + 1]
}

/// The number in four bytes, the lowest first.
pub open spec fn four_bytes(v: V128, p: int) -> int {
    two_bytes(v, p) + 0x1_0000 * two_bytes(v, p + 2)
}

/// The unsigned number in lane `i` of lanes of `w` bytes.
pub open spec fn number(v: V128, w: int, i: int) -> int {
    if w == 1 {
        v.0@[i] as int
    } else if w == 2 {
        two_bytes(v, 2 * i)
    } else if w == 4 {
        four_bytes(v, 4 * i)
    } else {
        four_bytes(v, 8 * i) + 0x1_0000_0000 * four_bytes(v, 8 * i + 4)
    }
}

/// The signed number in lane `i` of lanes of `w` bytes.
pub open spec fn signed_number(v: V128, w: int, i: int) -> int {
    if number(v, w, i) < modulus(w) / 2 {
        number(v, w, i)
    } else {
        number(v, w, i) - modulus(w)
    }
}

/// The number in a lane, with or without sign.
pub open spec fn number_as(v: V128, w: int, i: int, unsigned: bool) -> int {
    if unsigned {
        number(v, w, i)
    } else {
        signed_number(v, w, i)
    }
}

/// Whether `x` is `y` modulo what a lane can hold.
pub open spec fn same_lane(x: int, y: int, w: int) -> bool {
    (x - y) % modulus(w) == 0
}

#[verifier::spinoff_prover]
#[verifier::rlimit(40)]
pub(crate) proof fn lane_is_number(v: V128, w: int, i: int)
    requires
        is_lane_width(w),
        0 <= i < count(w),
    ensures
        lane(v.0@, w, i) == number(v, w, i),
        signed_lane(v.0@, w, i) == signed_number(v, w, i),
        0 <= number(v, w, i) < modulus(w),
        span(w) == modulus(w),
{
    if w == 1 {
    } else if w == 2 {
    } else if w == 4 {
    } else {
        assert(w == 8);
        let p = 8 * i;
        assert(le_u32(v.0@, p) == four_bytes(v, p));
        assert(le_u32(v.0@, p + 4) == four_bytes(v, p + 4));
        assert(le_u64(v.0@, p) == four_bytes(v, p) + 0x1_0000_0000 * four_bytes(v, p + 4));
    }
}

#[verifier::spinoff_prover]
#[verifier::rlimit(40)]
proof fn pairs_decide(a: V128, b: V128, p: int)
    requires
        0 <= p <= 14,
        two_bytes(a, p) == two_bytes(b, p),
    ensures
        a.0@[p] == b.0@[p] && a.0@[p + 1] == b.0@[p + 1],
{
}

#[verifier::spinoff_prover]
#[verifier::rlimit(40)]
proof fn fours_decide(a: V128, b: V128, p: int)
    requires
        0 <= p <= 12,
        four_bytes(a, p) == four_bytes(b, p),
    ensures
        forall|j: int| p <= j < p + 4 ==> a.0@[j] == b.0@[j],
{
    assert(0 <= two_bytes(a, p) < 0x1_0000 && 0 <= two_bytes(b, p) < 0x1_0000);
    assert(two_bytes(a, p) == two_bytes(b, p) && two_bytes(a, p + 2) == two_bytes(b, p + 2));
    pairs_decide(a, b, p);
    pairs_decide(a, b, p + 2);
}

#[verifier::spinoff_prover]
#[verifier::rlimit(40)]
proof fn eights_decide(a: V128, b: V128, i: int)
    requires
        0 <= i < 2,
        number(a, 8, i) == number(b, 8, i),
    ensures
        forall|j: int| 8 * i <= j < 8 * i + 8 ==> a.0@[j] == b.0@[j],
{
    let p = 8 * i;
    four_bounded(a, p);
    four_bounded(b, p);
    halves_decide(four_bytes(a, p), four_bytes(a, p + 4), four_bytes(b, p), four_bytes(b, p + 4));
    fours_decide(a, b, p);
    fours_decide(a, b, p + 4);
}

proof fn halves_decide(x: int, y: int, z: int, u: int)
    requires
        0 <= x < 0x1_0000_0000,
        0 <= z < 0x1_0000_0000,
        x + 0x1_0000_0000 * y == z + 0x1_0000_0000 * u,
    ensures
        x == z,
        y == u,
{
}

proof fn four_bounded(v: V128, p: int)
    ensures
        0 <= four_bytes(v, p) < 0x1_0000_0000,
{
    assert(0 <= two_bytes(v, p) < 0x1_0000 && 0 <= two_bytes(v, p + 2) < 0x1_0000);
}

/// Vectors whose lanes hold the same numbers are the same.
#[verifier::spinoff_prover]
#[verifier::rlimit(40)]
pub proof fn lanes_decide(a: V128, b: V128, w: int)
    requires
        is_lane_width(w),
        forall|i: int| 0 <= i < count(w) ==> #[trigger] number(a, w, i) == number(b, w, i),
    ensures
        a == b,
{
    assert forall|j: int| 0 <= j < 16 implies a.0@[j] == b.0@[j] by {
        if w == 1 {
            assert(number(a, 1, j) == number(b, 1, j));
        } else if w == 2 {
            assert(number(a, 2, j / 2) == number(b, 2, j / 2));
            pairs_decide(a, b, 2 * (j / 2));
        } else if w == 4 {
            assert(number(a, 4, j / 4) == number(b, 4, j / 4));
            fours_decide(a, b, 4 * (j / 4));
        } else {
            assert(w == 8);
            assert(number(a, 8, j / 8) == number(b, 8, j / 8));
            eights_decide(a, b, j / 8);
        }
    }
    assert(a.0@ =~= b.0@);
    v128_from_own_bytes(a);
    v128_from_own_bytes(b);
}

pub(crate) proof fn cut_agrees(e: int, d: int)
    requires
        d > 0,
    ensures
        (e % d - e) % d == 0,
        0 <= e % d < d,
        0 <= e < d ==> e % d == e,
        -d <= e < 0 ==> e % d == e + d,
{
    vstd::arithmetic::div_mod::lemma_fundamental_div_mod(e, d);
    let q = e / d;
    assert(e % d - e == (-q) * d) by (nonlinear_arith)
        requires
            e == d * q + e % d,
    ;
    vstd::arithmetic::div_mod::lemma_mod_multiples_basic(-q, d);
    if 0 <= e < d {
        vstd::arithmetic::div_mod::lemma_small_mod(e as nat, d as nat);
    } else if -d <= e < 0 {
        vstd::arithmetic::div_mod::lemma_mod_add_multiples_vanish(e, d);
        vstd::arithmetic::div_mod::lemma_small_mod((e + d) as nat, d as nat);
    }
}

/// The result of an operation, lane by lane.
#[verifier::opaque]
pub open spec fn lanewise(l: LaneOp, w: int, a: V128, b: V128, s: u32) -> V128 {
    mapped(l, w, a, b, s)
}

/// What a lane of a result holds, in terms of what the operation says of it.
#[verifier::spinoff_prover]
#[verifier::rlimit(40)]
pub(crate) proof fn result_number(l: LaneOp, w: int, a: V128, b: V128, s: u32, i: int, e: int)
    requires
        is_lane_width(w),
        0 <= i < count(w),
        e == lane_result(l, w, a.0@, b.0@, s, i),
    ensures
        ({
            let r = lanewise(l, w, a, b, s);
            &&& same_lane(number(r, w, i), e, w)
            &&& 0 <= e < modulus(w) ==> number(r, w, i) == e
            &&& -(modulus(w) / 2) <= e < modulus(w) / 2 ==> signed_number(r, w, i) == e
        }),
{
    reveal(lanewise);
    mapped_lane(l, w, a, b, s, i);
    lane_is_number(lanewise(l, w, a, b, s), w, i);
    cut_agrees(e, modulus(w));
}

// ---------------------------------------------------------------------------
// One instruction

/// Whether an instruction with the prefix 0xFD works lane by lane.
#[verifier::opaque]
pub open spec fn by_lanes(op: u32, l: LaneOp, w: int) -> bool {
    &&& !moves_data(op)
    &&& !is_test(op)
    &&& op != 0x52
    &&& !(0x109 <= op <= 0x10C)
    &&& op != 0x113
    &&& float_arity(op) == 0
    &&& lane_op(op) == Some((l, w))
}

/// Whether the machine stands before a vector instruction with these two operands.
pub open spec fn faces_vectors(m: Machine, op: u32, at: int, a: V128, b: V128) -> bool {
    faces_prefixed(m, 0xFD, op, at) && m.stack_ptr >= 2 && operand(m, 1) == Value::V128(a) && operand(m, 0)
        == Value::V128(b)
}

/// Whether the machine stands before a vector instruction with this operand.
pub open spec fn faces_vector(m: Machine, op: u32, at: int, a: V128) -> bool {
    faces_prefixed(m, 0xFD, op, at) && m.stack_ptr >= 1 && operand(m, 0) == Value::V128(a)
}

/// Whether the machine stands before a shift of a vector by this much.
pub open spec fn faces_shift(m: Machine, op: u32, at: int, a: V128, s: i32) -> bool {
    faces_prefixed(m, 0xFD, op, at) && m.stack_ptr >= 2 && operand(m, 1) == Value::V128(a) && operand(m, 0)
        == Value::I32(s)
}

pub(crate) proof fn enters_vector(m: Machine, op: u32, at: int)
    requires
        faces_prefixed(m, 0xFD, op, at),
    ensures
        step(m) == vector_instruction(Machine { pc: at, fuel: (m.fuel - 1) as u64, ..m }, op),
{
    reveal(instruction);
    step_executes(m, 0xFD);
}

#[verifier::spinoff_prover]
#[verifier::rlimit(40)]
pub(crate) proof fn combines(m: Machine, op: u32, at: int, a: V128, b: V128, l: LaneOp, w: int)
    requires
        faces_vectors(m, op, at, a, b),
        by_lanes(op, l, w),
        !is_shift(l),
        !is_unary(l),
        l != LaneOp::FloatMin && l != LaneOp::FloatMax,
    ensures
        yields_at(m, 2, Value::V128(lanewise(l, w, a, b, 0)), at),
        result_of(m, 2) == Value::V128(lanewise(l, w, a, b, 0)),
{
    reveal(by_lanes);
    reveal(lanewise);
    enters_vector(m, op, at);
    assert(step(m).0 =~= replaced(m, 2, Value::V128(lanewise(l, w, a, b, 0)), at));
}

#[verifier::spinoff_prover]
#[verifier::rlimit(40)]
pub(crate) proof fn transforms(m: Machine, op: u32, at: int, a: V128, l: LaneOp, w: int)
    requires
        faces_vector(m, op, at, a),
        by_lanes(op, l, w),
        !is_shift(l),
        is_unary(l),
    ensures
        yields_at(m, 1, Value::V128(lanewise(l, w, a, a, 0)), at),
        result_of(m, 1) == Value::V128(lanewise(l, w, a, a, 0)),
{
    reveal(by_lanes);
    reveal(lanewise);
    enters_vector(m, op, at);
    assert(step(m).0 =~= replaced(m, 1, Value::V128(lanewise(l, w, a, a, 0)), at));
}

/// The number of the first instruction on integer lanes of `w` bytes.
pub open spec fn first_of(w: int) -> u32 {
    if w == 1 {
        0x60
    } else if w == 2 {
        0x80
    } else if w == 4 {
        0xA0
    } else {
        0xC0
    }
}

/// The instructions of a block of arithmetic work lane by lane.
#[verifier::spinoff_prover]
#[verifier::rlimit(40)]
pub(crate) proof fn in_block(w: int, k: u32, l: LaneOp)
    requires
        is_lane_width(w),
        k < 0x20,
        arithmetic(k as int, w) == Some(l),
    ensures
        by_lanes((first_of(w) + k) as u32, l, w),
{
    reveal(by_lanes);
    let op = (first_of(w) + k) as u32;
    assert((op - 0x60) % 0x20 == k);
    if w == 1 {
        assert(lane_op(op) == Some((l, w)));
    } else if w == 2 {
        assert(lane_op(op) == Some((l, w)));
    } else if w == 4 {
        assert(lane_op(op) == Some((l, w)));
    } else {
        assert(lane_op(op) == Some((l, w)));
    }
}

// ---------------------------------------------------------------------------
// Arithmetic

/// `add`, `sub` and `mul` of integer lanes give the sums, the differences (the second
/// operand taken from the first) and the products, modulo what a lane can hold. There is
/// no product of bytes.
#[verifier::spinoff_prover]
#[verifier::rlimit(40)]
pub proof fn lane_arithmetic(m: Machine, w: int, k: u32, at: int, a: V128, b: V128, i: int)
    requires
        is_lane_width(w),
        k == 0x0E || k == 0x11 || (k == 0x15 && w >= 2),
        faces_vectors(m, (first_of(w) + k) as u32, at, a, b),
        0 <= i < count(w),
    ensures
        ({
            let r = result_of(m, 2)->V128_0;
            let (x, y, z) = (number(a, w, i), number(b, w, i), number(r, w, i));
            &&& yields_at(m, 2, Value::V128(r), at)
            &&& k == 0x0E ==> same_lane(z, x + y, w)
            &&& k == 0x11 ==> same_lane(z, x - y, w)
            &&& k == 0x15 ==> same_lane(z, x * y, w)
        }),
{
    lane_is_number(a, w, i);
    lane_is_number(b, w, i);
    let (x, y) = (number(a, w, i), number(b, w, i));
    let op = (first_of(w) + k) as u32;
    if k == 0x0E {
        in_block(w, k, LaneOp::Sum);
        combines(m, op, at, a, b, LaneOp::Sum, w);
        result_number(LaneOp::Sum, w, a, b, 0, i, x + y);
    } else if k == 0x11 {
        in_block(w, k, LaneOp::Difference);
        combines(m, op, at, a, b, LaneOp::Difference, w);
        result_number(LaneOp::Difference, w, a, b, 0, i, x - y);
    } else {
        in_block(w, k, LaneOp::Product);
        combines(m, op, at, a, b, LaneOp::Product, w);
        result_number(LaneOp::Product, w, a, b, 0, i, x * y);
    }
}

/// Taking away what was added gives the vector back.
#[verifier::spinoff_prover]
#[verifier::rlimit(40)]
pub proof fn difference_undoes_sum(m: Machine, n: Machine, w: int, at: int, a: V128, b: V128)
    requires
        is_lane_width(w),
        faces_vectors(m, (first_of(w) + 0x0E) as u32, at, a, b),
        result_of(m, 2) is V128,
        faces_vectors(n, (first_of(w) + 0x11) as u32, at, result_of(m, 2)->V128_0, b),
    ensures
        yields_at(n, 2, Value::V128(a), at),
{
    let s = result_of(m, 2)->V128_0;
    let r = result_of(n, 2)->V128_0;
    assert forall|i: int| 0 <= i < count(w) implies #[trigger] number(r, w, i) == number(a, w, i) by {
        lane_arithmetic(m, w, 0x0E, at, a, b, i);
        lane_arithmetic(n, w, 0x11, at, s, b, i);
        lane_is_number(a, w, i);
        lane_is_number(r, w, i);
        let (x, y, z, v) = (number(a, w, i), number(b, w, i), number(s, w, i), number(r, w, i));
        let d = modulus(w);
        assert((z - (x + y)) % d == 0 && (v - (z - y)) % d == 0);
        vstd::arithmetic::div_mod::lemma_add_mod_noop(z - (x + y), v - (z - y), d);
        assert((v - x) % d == 0);
        cut_agrees(v - x, d);
    }
    assert(yields_at(n, 2, Value::V128(r), at)) by {
        lane_arithmetic(n, w, 0x11, at, s, b, 0);
    }
    lanes_decide(r, a, w);
}

/// Whether `z` is the number within the bounds that is nearest to `e`.
pub open spec fn nearest(z: int, e: int, low: int, high: int) -> bool {
    &&& low <= z <= high
    &&& low <= e <= high ==> z == e
    &&& e < low ==> z == low
    &&& e > high ==> z == high
}

/// The lowest number that a lane can hold.
pub open spec fn lowest(w: int, unsigned: bool) -> int {
    if unsigned {
        0
    } else {
        -(modulus(w) / 2)
    }
}

/// The highest number that a lane can hold.
pub open spec fn highest(w: int, unsigned: bool) -> int {
    if unsigned {
        modulus(w) - 1
    } else {
        modulus(w) / 2 - 1
    }
}

/// `add_sat` and `sub_sat` of lanes of one or two bytes give what the lane can hold
/// nearest to the sum or the difference, first with and then without sign.
#[verifier::spinoff_prover]
#[verifier::rlimit(40)]
pub proof fn lane_saturation(m: Machine, w: int, k: u32, at: int, a: V128, b: V128, i: int)
    requires
        w == 1 || w == 2,
        k == 0x0F || k == 0x10 || k == 0x12 || k == 0x13,
        faces_vectors(m, (first_of(w) + k) as u32, at, a, b),
        0 <= i < count(w),
    ensures
        ({
            let r = result_of(m, 2)->V128_0;
            let u = k == 0x10 || k == 0x13;
            let (x, y) = (number_as(a, w, i, u), number_as(b, w, i, u));
            &&& yields_at(m, 2, Value::V128(r), at)
            &&& nearest(
                number_as(r, w, i, u),
                if k <= 0x10 {
                    x + y
                } else {
                    x - y
                },
                lowest(w, u),
                highest(w, u),
            )
        }),
{
    let op = (first_of(w) + k) as u32;
    if k == 0x0F {
        in_block(w, k, LaneOp::SumSat(false));
        combines(m, op, at, a, b, LaneOp::SumSat(false), w);
        sum_clamped(w, a, b, i, false);
    } else if k == 0x10 {
        in_block(w, k, LaneOp::SumSat(true));
        combines(m, op, at, a, b, LaneOp::SumSat(true), w);
        sum_clamped(w, a, b, i, true);
    } else if k == 0x12 {
        in_block(w, k, LaneOp::DifferenceSat(false));
        combines(m, op, at, a, b, LaneOp::DifferenceSat(false), w);
        difference_clamped(w, a, b, i, false);
    } else {
        in_block(w, k, LaneOp::DifferenceSat(true));
        combines(m, op, at, a, b, LaneOp::DifferenceSat(true), w);
        difference_clamped(w, a, b, i, true);
    }
}

proof fn sum_clamped(w: int, a: V128, b: V128, i: int, u: bool)
    requires
        is_lane_width(w),
        0 <= i < count(w),
    ensures
        nearest(
            number_as(lanewise(LaneOp::SumSat(u), w, a, b, 0), w, i, u),
            number_as(a, w, i, u) + number_as(b, w, i, u),
            lowest(w, u),
            highest(w, u),
        ),
{
    lane_is_number(a, w, i);
    lane_is_number(b, w, i);
    clamped_number(LaneOp::SumSat(u), w, a, b, i, u, number_as(a, w, i, u) + number_as(b, w, i, u));
}

proof fn difference_clamped(w: int, a: V128, b: V128, i: int, u: bool)
    requires
        is_lane_width(w),
        0 <= i < count(w),
    ensures
        nearest(
            number_as(lanewise(LaneOp::DifferenceSat(u), w, a, b, 0), w, i, u),
            number_as(a, w, i, u) - number_as(b, w, i, u),
            lowest(w, u),
            highest(w, u),
        ),
{
    lane_is_number(a, w, i);
    lane_is_number(b, w, i);
    clamped_number(LaneOp::DifferenceSat(u), w, a, b, i, u, number_as(a, w, i, u) - number_as(b, w, i, u));
}

#[verifier::spinoff_prover]
#[verifier::rlimit(40)]
pub(crate) proof fn clamped_number(l: LaneOp, w: int, a: V128, b: V128, i: int, u: bool, e: int)
    requires
        is_lane_width(w),
        0 <= i < count(w),
        lane_result(l, w, a.0@, b.0@, 0, i) == clamped_to(e, w, u),
    ensures
        nearest(number_as(lanewise(l, w, a, b, 0), w, i, u), e, lowest(w, u), highest(w, u)),
{
    let c = clamped_to(e, w, u);
    lane_is_number(a, w, i);
    assert(nearest(c, e, lowest(w, u), highest(w, u)));
    result_number(l, w, a, b, 0, i, c);
}

/// `min_s`, `min_u`, `max_s` and `max_u` of integer lanes give one of the two numbers, and
/// none of them lies beyond it. There are none for lanes of eight bytes.
#[verifier::spinoff_prover]
#[verifier::rlimit(40)]
pub proof fn lane_extremes(m: Machine, w: int, k: u32, at: int, a: V128, b: V128, i: int)
    requires
        w == 1 || w == 2 || w == 4,
        0x16 <= k <= 0x19,
        faces_vectors(m, (first_of(w) + k) as u32, at, a, b),
        0 <= i < count(w),
    ensures
        ({
            let r = result_of(m, 2)->V128_0;
            let u = k == 0x17 || k == 0x19;
            let (x, y, z) = (number_as(a, w, i, u), number_as(b, w, i, u), number_as(r, w, i, u));
            &&& yields_at(m, 2, Value::V128(r), at)
            &&& z == x || z == y
            &&& k <= 0x17 ==> z <= x && z <= y
            &&& k >= 0x18 ==> z >= x && z >= y
        }),
{
    lane_is_number(a, w, i);
    lane_is_number(b, w, i);
    let op = (first_of(w) + k) as u32;
    let u = k == 0x17 || k == 0x19;
    let l = if k <= 0x17 {
        LaneOp::Min(u)
    } else {
        LaneOp::Max(u)
    };
    in_block(w, k, l);
    combines(m, op, at, a, b, l, w);
    result_number(l, w, a, b, 0, i, lane_result(l, w, a.0@, b.0@, 0, i));
}

/// `avgr_u` of lanes of one or two bytes gives the mean, rounded up.
#[verifier::spinoff_prover]
#[verifier::rlimit(40)]
pub proof fn lane_average(m: Machine, w: int, at: int, a: V128, b: V128, i: int)
    requires
        w == 1 || w == 2,
        faces_vectors(m, (first_of(w) + 0x1B) as u32, at, a, b),
        0 <= i < count(w),
    ensures
        ({
            let r = result_of(m, 2)->V128_0;
            let total = number(a, w, i) + number(b, w, i);
            &&& yields_at(m, 2, Value::V128(r), at)
            &&& total <= 2 * number(r, w, i) <= total + 1
        }),
{
    lane_is_number(a, w, i);
    lane_is_number(b, w, i);
    in_block(w, 0x1B, LaneOp::Average);
    combines(m, (first_of(w) + 0x1B) as u32, at, a, b, LaneOp::Average, w);
    result_number(LaneOp::Average, w, a, b, 0, i, lane_result(LaneOp::Average, w, a.0@, b.0@, 0, i));
}

/// `abs` and `neg` of integer lanes: the absolute value, and the number that gives zero
/// together with the operand, modulo what a lane can hold.
pub proof fn lane_signs(m: Machine, w: int, k: u32, at: int, a: V128, i: int)
    requires
        is_lane_width(w),
        k <= 1,
        faces_vector(m, (first_of(w) + k) as u32, at, a),
        0 <= i < count(w),
    ensures
        ({
            let r = result_of(m, 1)->V128_0;
            let (x, z) = (signed_number(a, w, i), number(r, w, i));
            &&& yields_at(m, 1, Value::V128(r), at)
            &&& k == 0 && x >= 0 ==> z == x
            &&& k == 0 && x < 0 ==> z + x == 0
            &&& k == 1 ==> same_lane(z, -x, w)
        }),
{
    lane_is_number(a, w, i);
    let op = (first_of(w) + k) as u32;
    let x = signed_number(a, w, i);
    if k == 0 {
        in_block(w, k, LaneOp::Abs);
        transforms(m, op, at, a, LaneOp::Abs, w);
        result_number(LaneOp::Abs, w, a, a, 0, i, if x < 0 { -x } else { x });
    } else {
        in_block(w, k, LaneOp::Neg);
        transforms(m, op, at, a, LaneOp::Neg, w);
        result_number(LaneOp::Neg, w, a, a, 0, i, -x);
    }
}

/// By how many bits a lane of `w` bytes is shifted.
pub open spec fn shift_amount(s: i32, w: int) -> nat {
    let n = unsigned32(s);
    if w == 1 {
        (n % 8) as nat
    } else if w == 2 {
        (n % 16) as nat
    } else if w == 4 {
        (n % 32) as nat
    } else {
        (n % 64) as nat
    }
}

proof fn shifts(m: Machine, op: u32, at: int, a: V128, s: i32, l: LaneOp, w: int)
    requires
        faces_shift(m, op, at, a, s),
        by_lanes(op, l, w),
        is_lane_width(w),
        is_shift(l),
    ensures
        ({
            let n = shift_amount(s, w) as u32;
            &&& n == shift_amount(s, w)
            &&& yields_at(m, 2, Value::V128(lanewise(l, w, a, a, n)), at)
            &&& result_of(m, 2) == Value::V128(lanewise(l, w, a, a, n))
        }),
{
    reveal(by_lanes);
    reveal(lanewise);
    enters_vector(m, op, at);
    casts32(s, 0);
    let n = shift_amount(s, w) as u32;
    let r = Value::V128(lanewise(l, w, a, a, n));
    assert((s as u32 as int % (8 * w)) as u32 == n);
    assert(step(m).0 =~= replaced(m, 2, r, at));
}

/// `shl` of integer lanes by a number modulo the bits of a lane: the product with a power
/// of two, modulo what a lane can hold.
pub proof fn lane_shl(m: Machine, w: int, at: int, a: V128, s: i32, i: int)
    requires
        is_lane_width(w),
        faces_shift(m, (first_of(w) + 0x0B) as u32, at, a, s),
        0 <= i < count(w),
    ensures
        ({
            let r = result_of(m, 2)->V128_0;
            &&& yields_at(m, 2, Value::V128(r), at)
            &&& same_lane(number(r, w, i), number(a, w, i) * pow2(shift_amount(s, w)), w)
        }),
{
    lane_is_number(a, w, i);
    in_block(w, 0x0B, LaneOp::Shl);
    shifts(m, (first_of(w) + 0x0B) as u32, at, a, s, LaneOp::Shl, w);
    let n = shift_amount(s, w) as u32;
    result_number(LaneOp::Shl, w, a, a, n, i, number(a, w, i) * pow2(n as nat));
}

/// `shr_s` of integer lanes: the signed number over a power of two, rounded down.
pub proof fn lane_shr_s(m: Machine, w: int, at: int, a: V128, s: i32, i: int)
    requires
        is_lane_width(w),
        faces_shift(m, (first_of(w) + 0x0C) as u32, at, a, s),
        0 <= i < count(w),
    ensures
        ({
            let r = result_of(m, 2)->V128_0;
            let p = pow2(shift_amount(s, w)) as int;
            let (x, z) = (signed_number(a, w, i), signed_number(r, w, i));
            yields_at(m, 2, Value::V128(r), at) && z * p <= x < z * p + p
        }),
{
    lane_is_number(a, w, i);
    in_block(w, 0x0C, LaneOp::ShrSigned);
    shifts(m, (first_of(w) + 0x0C) as u32, at, a, s, LaneOp::ShrSigned, w);
    let n = shift_amount(s, w) as u32;
    let p = pow2(n as nat) as int;
    let x = signed_number(a, w, i);
    vstd::arithmetic::power2::lemma_pow2_pos(n as nat);
    floored(x, p);
    result_number(LaneOp::ShrSigned, w, a, a, n, i, x / p);
}

/// `shr_u` of integer lanes: the unsigned number over a power of two, rounded down.
pub proof fn lane_shr_u(m: Machine, w: int, at: int, a: V128, s: i32, i: int)
    requires
        is_lane_width(w),
        faces_shift(m, (first_of(w) + 0x0D) as u32, at, a, s),
        0 <= i < count(w),
    ensures
        ({
            let r = result_of(m, 2)->V128_0;
            let p = pow2(shift_amount(s, w)) as int;
            let (x, z) = (number(a, w, i), number(r, w, i));
            yields_at(m, 2, Value::V128(r), at) && z * p <= x < z * p + p
        }),
{
    lane_is_number(a, w, i);
    in_block(w, 0x0D, LaneOp::ShrUnsigned);
    shifts(m, (first_of(w) + 0x0D) as u32, at, a, s, LaneOp::ShrUnsigned, w);
    let n = shift_amount(s, w) as u32;
    let p = pow2(n as nat) as int;
    let x = number(a, w, i);
    vstd::arithmetic::power2::lemma_pow2_pos(n as nat);
    floored(x, p);
    result_number(LaneOp::ShrUnsigned, w, a, a, n, i, x / p);
}

proof fn floored(x: int, p: int)
    requires
        p > 0,
    ensures
        (x / p) * p <= x < (x / p) * p + p,
        x >= 0 ==> 0 <= x / p <= x,
        x < 0 ==> x <= x / p < 0,
{
    vstd::arithmetic::div_mod::lemma_fundamental_div_mod(x, p);
    let q = x / p;
    assert(p * q == q * p) by (nonlinear_arith);
    assert(0 <= x % p < p);
    assert(x >= 0 ==> 0 <= q <= x) by (nonlinear_arith)
        requires
            p > 0,
            q * p <= x < q * p + p,
    ;
    assert(x < 0 ==> x <= q < 0) by (nonlinear_arith)
        requires
            p > 0,
            q * p <= x < q * p + p,
    ;
}

// ---------------------------------------------------------------------------
// Comparisons

/// The number of the first comparison of integer lanes of `w` bytes.
pub open spec fn first_comparison(w: int) -> u32 {
    if w == 1 {
        0x23
    } else if w == 2 {
        0x2D
    } else {
        0x37
    }
}

/// What the comparison numbered `k` says: equal, not equal, then less, greater, less or
/// equal and greater or equal, first with and then without sign.
pub open spec fn holds(k: u32, x: int, y: int, ux: int, uy: int) -> bool {
    match k {
        0 => x == y,
        1 => !(x == y),
        2 => x < y,
        3 => ux < uy,
        4 => y < x,
        5 => uy < ux,
        6 => !(y < x),
        7 => !(uy < ux),
        8 => !(x < y),
        _ => !(ux < uy),
    }
}

/// Comparisons of integer lanes of one, two or four bytes fill a lane with ones where they
/// hold, and with zeros elsewhere.
#[verifier::spinoff_prover]
#[verifier::rlimit(40)]
pub proof fn lane_comparisons(m: Machine, w: int, k: u32, at: int, a: V128, b: V128, i: int)
    requires
        w == 1 || w == 2 || w == 4,
        k <= 9,
        faces_vectors(m, (first_comparison(w) + k) as u32, at, a, b),
        0 <= i < count(w),
    ensures
        ({
            let r = result_of(m, 2)->V128_0;
            &&& yields_at(m, 2, Value::V128(r), at)
            &&& number(r, w, i) == if holds(
                k,
                signed_number(a, w, i),
                signed_number(b, w, i),
                number(a, w, i),
                number(b, w, i),
            ) {
                modulus(w) - 1
            } else {
                0
            }
        }),
{
    lane_is_number(a, w, i);
    lane_is_number(b, w, i);
    let l = LaneOp::Relation(k as u8);
    reveal(by_lanes);
    combines(m, (first_comparison(w) + k) as u32, at, a, b, l, w);
    compared(l, w, a, b, i);
}

#[verifier::spinoff_prover]
#[verifier::rlimit(40)]
pub(crate) proof fn compared(l: LaneOp, w: int, a: V128, b: V128, i: int)
    requires
        is_lane_width(w),
        0 <= i < count(w),
        lane_result(l, w, a.0@, b.0@, 0, i) == -1 || lane_result(l, w, a.0@, b.0@, 0, i) == 0,
    ensures
        number(lanewise(l, w, a, b, 0), w, i) == if lane_result(l, w, a.0@, b.0@, 0, i) == -1 {
            modulus(w) - 1
        } else {
            0
        },
{
    let e = lane_result(l, w, a.0@, b.0@, 0, i);
    reveal(lanewise);
    mapped_lane(l, w, a, b, 0, i);
    lane_is_number(lanewise(l, w, a, b, 0), w, i);
    cut_agrees(e, modulus(w));
}

/// Comparisons of lanes of eight bytes, which have a sign: equal, not equal, less, greater,
/// less or equal, greater or equal.
#[verifier::spinoff_prover]
#[verifier::rlimit(40)]
pub proof fn long_lane_comparisons(m: Machine, op: u32, at: int, a: V128, b: V128, i: int)
    requires
        0xD6 <= op <= 0xDB,
        faces_vectors(m, op, at, a, b),
        0 <= i < 2,
    ensures
        ({
            let r = result_of(m, 2)->V128_0;
            let (x, y) = (signed_number(a, 8, i), signed_number(b, 8, i));
            let h = match op {
                0xD6 => x == y,
                0xD7 => !(x == y),
                0xD8 => x < y,
                0xD9 => y < x,
                0xDA => !(y < x),
                _ => !(x < y),
            };
            &&& yields_at(m, 2, Value::V128(r), at)
            &&& number(r, 8, i) == if h {
                0xFFFF_FFFF_FFFF_FFFF
            } else {
                0int
            }
        }),
{
    lane_is_number(a, 8, i);
    lane_is_number(b, 8, i);
    let k = if op <= 0xD7 {
        (op - 0xD6) as u8
    } else {
        (2 * (op - 0xD7)) as u8
    };
    let l = LaneOp::Relation(k);
    reveal(by_lanes);
    combines(m, op, at, a, b, l, 8);
    compared(l, 8, a, b, i);
}

// ---------------------------------------------------------------------------
// Bits

/// Bit `k` of byte `i` of a vector.
pub open spec fn vector_bit(v: V128, i: int, k: u8) -> bool {
    (v.0@[i] >> k) & 1 == 1
}

/// `v128.and`, `v128.andnot`, `v128.or` and `v128.xor` work bit by bit.
#[verifier::spinoff_prover]
#[verifier::rlimit(40)]
pub proof fn vector_bitwise(m: Machine, op: u32, at: int, a: V128, b: V128, i: int, k: u8)
    requires
        0x4E <= op <= 0x51,
        faces_vectors(m, op, at, a, b),
        0 <= i < 16,
        k < 8,
    ensures
        ({
            let r = result_of(m, 2)->V128_0;
            let (x, y, z) = (vector_bit(a, i, k), vector_bit(b, i, k), vector_bit(r, i, k));
            &&& yields_at(m, 2, Value::V128(r), at)
            &&& op == 0x4E ==> z == (x && y)
            &&& op == 0x4F ==> z == (x && !y)
            &&& op == 0x50 ==> z == (x || y)
            &&& op == 0x51 ==> z == (x != y)
        }),
{
    let (x, y) = (a.0@[i], b.0@[i]);
    assert({
        &&& (((x & y) >> k) & 1 == 1) == ((x >> k) & 1 == 1 && (y >> k) & 1 == 1)
        &&& (((x & !y) >> k) & 1 == 1) == ((x >> k) & 1 == 1 && !((y >> k) & 1 == 1))
        &&& (((x | y) >> k) & 1 == 1) == ((x >> k) & 1 == 1 || (y >> k) & 1 == 1)
        &&& (((x ^ y) >> k) & 1 == 1) == (((x >> k) & 1 == 1) != ((y >> k) & 1 == 1))
    }) by (bit_vector)
        requires
            k < 8,
    ;
    let l = if op == 0x4E {
        LaneOp::And
    } else if op == 0x4F {
        LaneOp::AndNot
    } else if op == 0x50 {
        LaneOp::Or
    } else {
        LaneOp::Xor
    };
    reveal(by_lanes);
    combines(m, op, at, a, b, l, 1);
    result_number(l, 1, a, b, 0, i, lane_result(l, 1, a.0@, b.0@, 0, i));
}

/// `v128.not` turns every bit over: a byte and the byte of the result make 255.
pub proof fn vector_not(m: Machine, at: int, a: V128, i: int)
    requires
        faces_vector(m, 0x4D, at, a),
        0 <= i < 16,
    ensures
        ({
            let r = result_of(m, 1)->V128_0;
            yields_at(m, 1, Value::V128(r), at) && r.0@[i] + a.0@[i] == 0xFF
        }),
{
    let x = a.0@[i];
    assert((!x) + x == 0xFF) by (bit_vector);
    reveal(by_lanes);
    transforms(m, 0x4D, at, a, LaneOp::Not, 1);
    result_number(LaneOp::Not, 1, a, a, 0, i, (!x) as int);
}

/// `v128.bitselect` and the relaxed selections of lanes take each bit from the first
/// operand where the third has a one, else from the second.
pub proof fn vector_select(m: Machine, op: u32, at: int, a: V128, b: V128, c: V128, i: int, k: u8)
    requires
        op == 0x52 || 0x109 <= op <= 0x10C,
        faces_prefixed(m, 0xFD, op, at),
        m.stack_ptr >= 3,
        operand(m, 2) == Value::V128(a),
        operand(m, 1) == Value::V128(b),
        operand(m, 0) == Value::V128(c),
        0 <= i < 16,
        k < 8,
    ensures
        ({
            let r = result_of(m, 3)->V128_0;
            &&& yields_at(m, 3, Value::V128(r), at)
            &&& vector_bit(r, i, k) == if vector_bit(c, i, k) {
                vector_bit(a, i, k)
            } else {
                vector_bit(b, i, k)
            }
        }),
{
    enters_vector(m, op, at);
    let r = bits_selected(a, b, c);
    assert(step(m).0 =~= replaced(m, 3, Value::V128(r), at));
    v128_bytes_kept(Seq::new(16, |j: int| (a.0@[j] & c.0@[j]) | (b.0@[j] & !c.0@[j])));
    let (x, y, z) = (a.0@[i], b.0@[i], c.0@[i]);
    assert(((((x & z) | (y & !z)) >> k) & 1 == 1) == if (z >> k) & 1 == 1 {
        (x >> k) & 1 == 1
    } else {
        (y >> k) & 1 == 1
    }) by (bit_vector)
        requires
            k < 8,
    ;
}

} // verus!
