//! What the vector instructions that change the width of lanes, count, test and multiply
//! compute.

use vstd::prelude::*;
use vstd::arithmetic::power2::{lemma2_to64, lemma_pow2_pos, lemma_pow2_unfold, pow2};
use crate::lanes::{
    count, dot_sum, dots_added, is_lane_width, lane, lane_result, packed_lane, sign_mask, signed_lane, LaneOp,
};
use crate::machine::Machine;
use crate::numeric::ones;
use crate::situation::{faces_prefixed, operand, replaced, result_of, yields_at};
use crate::step::step;
use crate::types::{v128_bytes_kept, Value, V128};
use crate::vector_laws::{
    by_lanes, clamped_number, combines, cut_agrees, enters_vector, faces_vector, faces_vectors, highest,
    lane_is_number, lanewise, lowest, nearest, number, number_as, result_number, same_lane, signed_number, transforms,
};

verus! {

/// The lane of half the width that lane `i` of the low or the high half is made from.
pub open spec fn half(w: int, i: int, high: bool) -> int {
    if high {
        16int / w + i
    } else {
        i
    }
}

/// `extend` gives the number of a lane of half the width, of the low or the high half, with
/// or without its sign.
pub proof fn lane_widening(m: Machine, w: int, k: u32, at: int, a: V128, i: int)
    requires
        w == 2 || w == 4 || w == 8,
        k < 4,
        faces_vector(m, ((if w == 2 { 0x87u32 } else if w == 4 { 0xA7u32 } else { 0xC7u32 }) + k) as u32, at, a),
        0 <= i < count(w),
    ensures
        ({
            let r = result_of(m, 1)->V128_0;
            let j = half(w, i, k % 2 == 1);
            &&& yields_at(m, 1, Value::V128(r), at)
            &&& k < 2 ==> signed_number(r, w, i) == signed_number(a, w / 2, j)
            &&& k >= 2 ==> number(r, w, i) == number(a, w / 2, j)
        }),
{
    reveal(by_lanes);
    let op = ((if w == 2 { 0x87u32 } else if w == 4 { 0xA7u32 } else { 0xC7u32 }) + k) as u32;
    let l = LaneOp::Extend(k % 2 == 1, k >= 2);
    let j = half(w, i, k % 2 == 1);
    if w == 2 {
        transforms(m, op, at, a, l, 2);
    } else if w == 4 {
        transforms(m, op, at, a, l, 4);
    } else {
        transforms(m, op, at, a, l, 8);
    }
    lane_is_number(a, w / 2, j);
    result_number(l, w, a, a, 0, i, number_as(a, w / 2, j, k >= 2));
}

/// `extmul` gives the product of two such numbers.
pub proof fn lane_long_products(m: Machine, w: int, k: u32, at: int, a: V128, b: V128, i: int)
    requires
        w == 2 || w == 4 || w == 8,
        k < 4,
        faces_vectors(m, ((if w == 2 { 0x9Cu32 } else if w == 4 { 0xBCu32 } else { 0xDCu32 }) + k) as u32, at, a, b),
        0 <= i < count(w),
    ensures
        ({
            let r = result_of(m, 2)->V128_0;
            let j = half(w, i, k % 2 == 1);
            &&& yields_at(m, 2, Value::V128(r), at)
            &&& k < 2 ==> same_lane(number(r, w, i), signed_number(a, w / 2, j) * signed_number(b, w / 2, j), w)
            &&& k >= 2 ==> same_lane(number(r, w, i), number(a, w / 2, j) * number(b, w / 2, j), w)
        }),
{
    reveal(by_lanes);
    let op = ((if w == 2 { 0x9Cu32 } else if w == 4 { 0xBCu32 } else { 0xDCu32 }) + k) as u32;
    let l = LaneOp::ExtendedProduct(k % 2 == 1, k >= 2);
    let j = half(w, i, k % 2 == 1);
    if w == 2 {
        combines(m, op, at, a, b, l, 2);
    } else if w == 4 {
        combines(m, op, at, a, b, l, 4);
    } else {
        combines(m, op, at, a, b, l, 8);
    }
    lane_is_number(a, w / 2, j);
    lane_is_number(b, w / 2, j);
    result_number(l, w, a, b, 0, i, number_as(a, w / 2, j, k >= 2) * number_as(b, w / 2, j, k >= 2));
}

/// `extadd_pairwise` gives the sum of two neighbours.
pub proof fn lane_pairs(m: Machine, op: u32, at: int, a: V128, i: int)
    requires
        0x7C <= op <= 0x7F,
        faces_vector(m, op, at, a),
        0 <= i < count(if op <= 0x7D { 2 } else { 4 }),
    ensures
        ({
            let w: int = if op <= 0x7D { 2 } else { 4 };
            let u = op % 2 == 1;
            let r = result_of(m, 1)->V128_0;
            &&& yields_at(m, 1, Value::V128(r), at)
            &&& same_lane(number(r, w, i), number_as(a, w / 2, 2 * i, u) + number_as(a, w / 2, 2 * i + 1, u), w)
        }),
{
    reveal(by_lanes);
    let w: int = if op <= 0x7D { 2 } else { 4 };
    let u = op % 2 == 1;
    if op == 0x7C {
        transforms(m, op, at, a, LaneOp::Pairwise(false), 2);
    } else if op == 0x7D {
        transforms(m, op, at, a, LaneOp::Pairwise(true), 2);
    } else if op == 0x7E {
        transforms(m, op, at, a, LaneOp::Pairwise(false), 4);
    } else {
        transforms(m, op, at, a, LaneOp::Pairwise(true), 4);
    }
    lane_is_number(a, w / 2, 2 * i);
    lane_is_number(a, w / 2, 2 * i + 1);
    result_number(
        LaneOp::Pairwise(u),
        w,
        a,
        a,
        0,
        i,
        number_as(a, w / 2, 2 * i, u) + number_as(a, w / 2, 2 * i + 1, u),
    );
}

/// `narrow` takes the signed numbers of lanes of twice the width, of the first operand and
/// then of the second, to the nearest number that a lane can hold, with or without sign.
pub proof fn lane_narrowing(m: Machine, op: u32, at: int, a: V128, b: V128, i: int)
    requires
        op == 0x65 || op == 0x66 || op == 0x85 || op == 0x86,
        faces_vectors(m, op, at, a, b),
        0 <= i < count(if op <= 0x66 { 1 } else { 2 }),
    ensures
        ({
            let w: int = if op <= 0x66 { 1 } else { 2 };
            let n = count(2 * w);
            let x = if i < n { signed_number(a, 2 * w, i) } else { signed_number(b, 2 * w, i - n) };
            let r = result_of(m, 2)->V128_0;
            &&& yields_at(m, 2, Value::V128(r), at)
            &&& nearest(number_as(r, w, i, op % 2 == 0), x, lowest(w, op % 2 == 0), highest(w, op % 2 == 0))
        }),
{
    reveal(by_lanes);
    if op == 0x65 {
        combines(m, op, at, a, b, LaneOp::Narrow(false), 1);
        narrowed_lane(1, a, b, i, false);
    } else if op == 0x66 {
        combines(m, op, at, a, b, LaneOp::Narrow(true), 1);
        narrowed_lane(1, a, b, i, true);
    } else if op == 0x85 {
        combines(m, op, at, a, b, LaneOp::Narrow(false), 2);
        narrowed_lane(2, a, b, i, false);
    } else {
        combines(m, op, at, a, b, LaneOp::Narrow(true), 2);
        narrowed_lane(2, a, b, i, true);
    }
}

proof fn narrowed_lane(w: int, a: V128, b: V128, i: int, u: bool)
    requires
        w == 1 || w == 2,
        0 <= i < count(w),
    ensures
        ({
            let n = count(2 * w);
            let x = if i < n { signed_number(a, 2 * w, i) } else { signed_number(b, 2 * w, i - n) };
            let r = lanewise(LaneOp::Narrow(u), w, a, b, 0);
            nearest(number_as(r, w, i, u), x, lowest(w, u), highest(w, u))
        }),
{
    let n = count(2 * w);
    if i < n {
        lane_is_number(a, 2 * w, i);
        clamped_number(LaneOp::Narrow(u), w, a, b, i, u, signed_number(a, 2 * w, i));
    } else {
        lane_is_number(b, 2 * w, i - n);
        clamped_number(LaneOp::Narrow(u), w, a, b, i, u, signed_number(b, 2 * w, i - n));
    }
}

/// `dot` gives the sum of the products of two neighbours.
pub proof fn lane_dots(m: Machine, at: int, a: V128, b: V128, i: int)
    requires
        faces_vectors(m, 0xBA, at, a, b),
        0 <= i < 4,
    ensures
        ({
            let r = result_of(m, 2)->V128_0;
            let x = signed_number(a, 2, 2 * i) * signed_number(b, 2, 2 * i);
            let y = signed_number(a, 2, 2 * i + 1) * signed_number(b, 2, 2 * i + 1);
            &&& yields_at(m, 2, Value::V128(r), at)
            &&& same_lane(number(r, 4, i), x + y, 4)
        }),
{
    reveal(by_lanes);
    combines(m, 0xBA, at, a, b, LaneOp::Dot, 4);
    lane_is_number(a, 2, 2 * i);
    lane_is_number(a, 2, 2 * i + 1);
    lane_is_number(b, 2, 2 * i);
    lane_is_number(b, 2, 2 * i + 1);
    let x = signed_number(a, 2, 2 * i) * signed_number(b, 2, 2 * i);
    let y = signed_number(a, 2, 2 * i + 1) * signed_number(b, 2, 2 * i + 1);
    result_number(LaneOp::Dot, 4, a, b, 0, i, x + y);
}

/// The relaxed `dot` of bytes gives the sum of the products of two neighbours, or the nearest
/// number that a lane can hold.
pub proof fn lane_byte_dots(m: Machine, at: int, a: V128, b: V128, i: int)
    requires
        faces_vectors(m, 0x112, at, a, b),
        0 <= i < 8,
    ensures
        ({
            let r = result_of(m, 2)->V128_0;
            let x = signed_number(a, 1, 2 * i) * signed_number(b, 1, 2 * i);
            let y = signed_number(a, 1, 2 * i + 1) * signed_number(b, 1, 2 * i + 1);
            &&& yields_at(m, 2, Value::V128(r), at)
            &&& nearest(signed_number(r, 2, i), x + y, -0x8000, 0x7FFF)
        }),
{
    reveal(by_lanes);
    combines(m, 0x112, at, a, b, LaneOp::DotSat, 2);
    lane_is_number(a, 1, 2 * i);
    lane_is_number(a, 1, 2 * i + 1);
    lane_is_number(b, 1, 2 * i);
    lane_is_number(b, 1, 2 * i + 1);
    let x = signed_number(a, 1, 2 * i) * signed_number(b, 1, 2 * i);
    let y = signed_number(a, 1, 2 * i + 1) * signed_number(b, 1, 2 * i + 1);
    clamped_number(LaneOp::DotSat, 2, a, b, i, false, x + y);
}

/// The relaxed `dot` with addition gives the sum of the products of four bytes and of the number
/// in the lane of the third operand.
pub proof fn lane_added_dots(m: Machine, at: int, a: V128, b: V128, c: V128, i: int)
    requires
        faces_prefixed(m, 0xFD, 0x113, at),
        m.stack_ptr >= 3,
        operand(m, 2) == Value::V128(a),
        operand(m, 1) == Value::V128(b),
        operand(m, 0) == Value::V128(c),
        0 <= i < 4,
    ensures
        ({
            let r = result_of(m, 3)->V128_0;
            let p = signed_number(a, 1, 4 * i) * signed_number(b, 1, 4 * i);
            let q = signed_number(a, 1, 4 * i + 1) * signed_number(b, 1, 4 * i + 1);
            let s = signed_number(a, 1, 4 * i + 2) * signed_number(b, 1, 4 * i + 2);
            let t = signed_number(a, 1, 4 * i + 3) * signed_number(b, 1, 4 * i + 3);
            &&& yields_at(m, 3, Value::V128(r), at)
            &&& same_lane(number(r, 4, i), p + q + s + t + signed_number(c, 4, i), 4)
        }),
{
    dots_given(m, at, a, b, c);
    dots_number(a, b, c, i);
}

#[verifier::opaque]
spec fn dots(a: V128, b: V128, c: V128) -> V128 {
    dots_added(a, b, c)
}

#[verifier::spinoff_prover]
#[verifier::rlimit(60)]
proof fn dots_given(m: Machine, at: int, a: V128, b: V128, c: V128)
    requires
        faces_prefixed(m, 0xFD, 0x113, at),
        m.stack_ptr >= 3,
        operand(m, 2) == Value::V128(a),
        operand(m, 1) == Value::V128(b),
        operand(m, 0) == Value::V128(c),
    ensures
        yields_at(m, 3, Value::V128(dots(a, b, c)), at),
        result_of(m, 3) == Value::V128(dots(a, b, c)),
{
    reveal(dots);
    enters_vector(m, 0x113, at);
    assert(step(m).0 =~= replaced(m, 3, Value::V128(dots_added(a, b, c)), at));
}

proof fn dots_number(a: V128, b: V128, c: V128, i: int)
    requires
        0 <= i < 4,
    ensures
        ({
            let p = signed_number(a, 1, 4 * i) * signed_number(b, 1, 4 * i);
            let q = signed_number(a, 1, 4 * i + 1) * signed_number(b, 1, 4 * i + 1);
            let s = signed_number(a, 1, 4 * i + 2) * signed_number(b, 1, 4 * i + 2);
            let t = signed_number(a, 1, 4 * i + 3) * signed_number(b, 1, 4 * i + 3);
            same_lane(number(dots(a, b, c), 4, i), p + q + s + t + signed_number(c, 4, i), 4)
        }),
{
    reveal(dots);
    let nums = Seq::new(4, |i: int| dot_sum(a, b, c, i));
    packed_lane(4, nums, i);
    lane_is_number(dots_added(a, b, c), 4, i);
    lane_is_number(c, 4, i);
    lane_is_number(a, 1, 4 * i);
    lane_is_number(a, 1, 4 * i + 1);
    lane_is_number(a, 1, 4 * i + 2);
    lane_is_number(a, 1, 4 * i + 3);
    lane_is_number(b, 1, 4 * i);
    lane_is_number(b, 1, 4 * i + 1);
    lane_is_number(b, 1, 4 * i + 2);
    lane_is_number(b, 1, 4 * i + 3);
    cut_agrees(dot_sum(a, b, c, i), 0x1_0000_0000);
}

/// The rounded product of fixed-point numbers with fifteen fraction bits is the multiple of
/// the last fraction bit next to the product, except that minus one squared is cut.
pub proof fn lane_rounded_products(m: Machine, op: u32, at: int, a: V128, b: V128, i: int)
    requires
        op == 0x82 || op == 0x111,
        faces_vectors(m, op, at, a, b),
        0 <= i < 8,
    ensures
        ({
            let r = result_of(m, 2)->V128_0;
            let (x, y, z) = (signed_number(a, 2, i), signed_number(b, 2, i), signed_number(r, 2, i));
            &&& yields_at(m, 2, Value::V128(r), at)
            &&& x == -0x8000 && y == -0x8000 ==> z == 0x7FFF
            &&& x != -0x8000 || y != -0x8000 ==> -0x4000 <= x * y - z * 0x8000 < 0x4000
        }),
{
    reveal(by_lanes);
    combines(m, op, at, a, b, LaneOp::RoundedProduct, 2);
    lane_is_number(a, 2, i);
    lane_is_number(b, 2, i);
    let (x, y) = (signed_number(a, 2, i), signed_number(b, 2, i));
    let e = lane_result(LaneOp::RoundedProduct, 2, a.0@, b.0@, 0, i);
    assert(-0x3FFF_8000 <= x * y <= 0x4000_0000) by (nonlinear_arith)
        requires
            -0x8000 <= x <= 0x7FFF,
            -0x8000 <= y <= 0x7FFF,
    ;
    if x != -0x8000 || y != -0x8000 {
        assert(x * y <= 0x3FFF_8000) by (nonlinear_arith)
            requires
                -0x8000 <= x <= 0x7FFF,
                -0x8000 <= y <= 0x7FFF,
                x != -0x8000 || y != -0x8000,
        ;
    } else {
        assert(x * y == 0x4000_0000) by (nonlinear_arith)
            requires
                x == -0x8000,
                y == -0x8000,
        ;
    }
    result_number(LaneOp::RoundedProduct, 2, a, b, 0, i, e);
}

/// `popcnt` gives the sum of the eight bits of each byte.
pub proof fn lane_bit_counts(m: Machine, at: int, a: V128, i: int)
    requires
        faces_vector(m, 0x62, at, a),
        0 <= i < 16,
    ensures
        ({
            let r = result_of(m, 1)->V128_0;
            let x = number(a, 1, i);
            &&& yields_at(m, 1, Value::V128(r), at)
            &&& number(r, 1, i) == x % 2 + x / 2 % 2 + x / 4 % 2 + x / 8 % 2 + x / 16 % 2 + x / 32 % 2 + x / 64 % 2 + x
                / 128 % 2
        }),
{
    reveal(by_lanes);
    transforms(m, 0x62, at, a, LaneOp::Ones, 1);
    lane_is_number(a, 1, i);
    let x = number(a, 1, i) as nat;
    byte_ones(x);
    result_number(LaneOp::Ones, 1, a, a, 0, i, ones(x) as int);
}

proof fn byte_ones(x: nat)
    requires
        x < 0x100,
    ensures
        ones(x) == x % 2 + x / 2 % 2 + x / 4 % 2 + x / 8 % 2 + x / 16 % 2 + x / 32 % 2 + x / 64 % 2 + x / 128 % 2,
{
    let (a, b, c, d) = (x / 2, x / 4, x / 8, x / 16);
    let (e, f, g) = (x / 32, x / 64, x / 128);
    assert(b == a / 2 && c == b / 2 && d == c / 2 && e == d / 2 && f == e / 2 && g == f / 2 && g / 2 == 0);
    assert(ones(0) == 0);
    assert(ones(g) == g % 2);
    assert(ones(f) == f % 2 + ones(g));
    assert(ones(e) == e % 2 + ones(f));
    assert(ones(d) == d % 2 + ones(e));
    assert(ones(c) == c % 2 + ones(d));
    assert(ones(b) == b % 2 + ones(c));
    assert(ones(a) == a % 2 + ones(b));
    assert(ones(x) == x % 2 + ones(a));
}

/// `any_true` gives one exactly where some byte is not zero.
pub proof fn any_lane_true(m: Machine, at: int, a: V128)
    requires
        faces_vector(m, 0x53, at, a),
    ensures
        ({
            let r = result_of(m, 1)->I32_0;
            &&& yields_at(m, 1, Value::I32(r), at)
            &&& r == 0 || r == 1
            &&& r == 0 <==> forall|i: int| 0 <= i < 16 ==> #[trigger] a.0@[i] == 0
        }),
{
    enters_vector(m, 0x53, at);
    let r = result_of(m, 1)->I32_0;
    assert(step(m).0 =~= replaced(m, 1, Value::I32(r), at));
    v128_bytes_kept(Seq::new(16, |i: int| 0u8));
    crate::types::v128_from_own_bytes(a);
    if forall|i: int| 0 <= i < 16 ==> #[trigger] a.0@[i] == 0 {
        assert(a.0@ =~= Seq::new(16, |i: int| 0u8));
    }
}

/// `all_true` gives one exactly where no lane is zero.
pub proof fn all_lanes_true(m: Machine, w: int, at: int, a: V128)
    requires
        is_lane_width(w),
        faces_vector(m, (crate::vector_laws::first_of(w) + 3) as u32, at, a),
    ensures
        ({
            let r = result_of(m, 1)->I32_0;
            &&& yields_at(m, 1, Value::I32(r), at)
            &&& r == 0 || r == 1
            &&& r == 1 <==> forall|i: int| 0 <= i < count(w) ==> #[trigger] number(a, w, i) != 0
        }),
{
    let op = (crate::vector_laws::first_of(w) + 3) as u32;
    enters_vector(m, op, at);
    assert(crate::simd::test_width(op) == w && op % 0x20 == 3);
    let r = result_of(m, 1)->I32_0;
    assert(step(m).0 =~= replaced(m, 1, Value::I32(r), at));
    assert forall|i: int| 0 <= i < count(w) implies lane(a.0@, w, i) == #[trigger] number(a, w, i) by {
        lane_is_number(a, w, i);
    }
    if r == 0 {
        let i = choose|i: int| 0 <= i < count(w) && #[trigger] lane(a.0@, w, i) == 0;
        assert(number(a, w, i) == 0);
    }
}

proof fn mask_bits(v: V128, w: int, n: nat)
    ensures
        sign_mask(v, w, n) < pow2(n),
        forall|i: int|
            0 <= i < n ==> (sign_mask(v, w, n) as int / pow2(i as nat) as int % 2 == 1 <==> #[trigger] signed_lane(
                v.0@,
                w,
                i,
            ) < 0),
    decreases n,
{
    lemma_pow2_pos(n);
    if n > 0 {
        let k = (n - 1) as nat;
        mask_bits(v, w, k);
        lemma_pow2_pos(k);
        lemma_pow2_unfold(n);
        let rest = sign_mask(v, w, k) as int;
        let whole = sign_mask(v, w, n) as int;
        assert forall|i: int| 0 <= i < n implies (whole / pow2(i as nat) as int % 2 == 1 <==> #[trigger] signed_lane(
            v.0@,
            w,
            i,
        ) < 0) by {
            let p = pow2(i as nat) as int;
            lemma_pow2_pos(i as nat);
            if i < k {
                vstd::arithmetic::power2::lemma_pow2_adds(i as nat, (k - i) as nat);
                let d = pow2((k - i) as nat) as int;
                vstd::arithmetic::power2::lemma_pow2_unfold((k - i) as nat);
                let e = pow2((k - i - 1) as nat) as int;
                assert(d == 2 * e);
                if whole != rest {
                    assert(whole == rest + p * d);
                    vstd::arithmetic::div_mod::lemma_div_multiples_vanish_fancy(d, 0, p);
                    assert((rest + p * d) / p == rest / p + d) by {
                        vstd::arithmetic::div_mod::lemma_hoist_over_denominator(rest, d, p as nat);
                    }
                    assert((rest / p + 2 * e) % 2 == (rest / p) % 2);
                }
            } else {
                assert(p == pow2(k));
                if whole != rest {
                    vstd::arithmetic::div_mod::lemma_hoist_over_denominator(rest, 1, p as nat);
                    vstd::arithmetic::div_mod::lemma_basic_div(rest, p);
                    assert(whole == rest + 1 * p);
                    assert(whole / p == 1);
                } else {
                    vstd::arithmetic::div_mod::lemma_basic_div(rest, p);
                    assert(whole / p == 0);
                }
            }
        }
    }
}

/// `bitmask` gives the number whose bits are the signs of the lanes, the first lane lowest.
pub proof fn lane_sign_bits(m: Machine, w: int, at: int, a: V128, i: int)
    requires
        is_lane_width(w),
        faces_vector(m, (crate::vector_laws::first_of(w) + 4) as u32, at, a),
        0 <= i < count(w),
    ensures
        ({
            let r = result_of(m, 1)->I32_0;
            &&& yields_at(m, 1, Value::I32(r), at)
            &&& 0 <= r < pow2(count(w) as nat)
            &&& r as int / pow2(i as nat) as int % 2 == 1 <==> signed_number(a, w, i) < 0
        }),
{
    let op = (crate::vector_laws::first_of(w) + 4) as u32;
    enters_vector(m, op, at);
    assert(crate::simd::test_width(op) == w && op % 0x20 == 4);
    let r = result_of(m, 1)->I32_0;
    assert(step(m).0 =~= replaced(m, 1, Value::I32(r), at));
    mask_bits(a, w, count(w) as nat);
    lane_is_number(a, w, i);
    lemma2_to64();
    assert(signed_lane(a.0@, w, i) == signed_number(a, w, i));
}

} // verus!
