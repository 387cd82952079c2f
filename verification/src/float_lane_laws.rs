//! What the vector instructions on floating-point lanes decide and select.

use vstd::prelude::*;
use crate::float_bits::{integer_part, maximum, minimum, negative, signed};
use crate::float_laws::{
    fields_agree, is_integer_part, minus, no_number, order_agrees, part_agrees, part_is_unique, quantity, size,
};
use crate::lanes::{count, lane, lane_result, nan_at, some_nan, LaneOp};
use crate::machine::{FloatCall, Machine, Outcome};
use crate::simd::zero_vector;
use crate::situation::{consumed, faces_prefixed, operand, replaced, result_of, yields_at};
use crate::step::step;
use crate::types::{Value, V128};
use crate::vector_laws::{
    by_lanes, combines, compared, enters_vector, faces_vector, faces_vectors, lane_is_number, lanewise,
    modulus, nearest, number, number_as, result_number, transforms,
};

verus! {

proof fn lane_pattern(v: V128, w: int, i: int)
    requires
        w == 4 || w == 8,
        0 <= i < count(w),
    ensures
        crate::lanes::pattern_at(v.0@, w, i) == number(v, w, i),
        w == 8 || number(v, w, i) <= 0xFFFF_FFFF,
        0 <= number(v, w, i) < modulus(w),
{
    lane_is_number(v, w, i);
}

/// Comparisons of floating-point lanes fill a lane with ones where the numbers stand so, and
/// with zeros elsewhere. Of what is no number only `ne` holds.
pub proof fn float_lane_comparisons(m: Machine, w: int, k: u32, at: int, a: V128, b: V128, i: int)
    requires
        w == 4 || w == 8,
        k < 6,
        faces_vectors(m, ((if w == 4 { 0x41u32 } else { 0x47u32 }) + k) as u32, at, a, b),
        0 <= i < count(w),
    ensures
        ({
            let r = result_of(m, 2)->V128_0;
            let (x, y) = (number(a, w, i), number(b, w, i));
            let numbers = !no_number(x, w == 8) && !no_number(y, w == 8);
            let (p, q) = (quantity(x, w == 8), quantity(y, w == 8));
            let h = match k {
                0 => numbers && p == q,
                1 => !(numbers && p == q),
                2 => numbers && p < q,
                3 => numbers && p > q,
                4 => numbers && p <= q,
                _ => numbers && p >= q,
            };
            &&& yields_at(m, 2, Value::V128(r), at)
            &&& number(r, w, i) == if h {
                modulus(w) - 1
            } else {
                0
            }
        }),
{
    reveal(by_lanes);
    let l = LaneOp::FloatRelation(k as u8);
    combines(m, ((if w == 4 { 0x41u32 } else { 0x47u32 }) + k) as u32, at, a, b, l, w);
    lane_pattern(a, w, i);
    lane_pattern(b, w, i);
    order_agrees(number(a, w, i) as u64, number(b, w, i) as u64, w == 8);
    compared(l, w, a, b, i);
}

/// `abs` and `neg` of floating-point lanes keep all bits but the sign, which is cleared or
/// turned over.
pub proof fn float_lane_signs(m: Machine, w: int, neg: bool, at: int, a: V128, i: int)
    requires
        w == 4 || w == 8,
        faces_vector(
            m,
            if w == 4 {
                if neg {
                    0xE1
                } else {
                    0xE0
                }
            } else {
                if neg {
                    0xED
                } else {
                    0xEC
                }
            },
            at,
            a,
        ),
        0 <= i < count(w),
    ensures
        ({
            let r = result_of(m, 1)->V128_0;
            let (x, z) = (number(a, w, i), number(r, w, i));
            &&& yields_at(m, 1, Value::V128(r), at)
            &&& size(z, w == 8) == size(x, w == 8)
            &&& minus(z, w == 8) == (neg && !minus(x, w == 8))
        }),
{
    reveal(by_lanes);
    if w == 4 {
        if neg {
            transforms(m, 0xE1, at, a, LaneOp::FloatNeg, 4);
        } else {
            transforms(m, 0xE0, at, a, LaneOp::FloatAbs, 4);
        }
    } else {
        if neg {
            transforms(m, 0xED, at, a, LaneOp::FloatNeg, 8);
        } else {
            transforms(m, 0xEC, at, a, LaneOp::FloatAbs, 8);
        }
    }
    signed_lane_pattern(w, neg, a, i);
}

proof fn signed_pattern(x: u64, wide: bool, negated: bool)
    requires
        wide || x <= 0xFFFF_FFFF,
    ensures
        ({
            let z = signed(x, wide, negated) as int;
            &&& wide || z <= 0xFFFF_FFFF
            &&& size(z, wide) == size(x as int, wide)
            &&& minus(z, wide) == negated
        }),
{
    fields_agree(x, wide);
    fields_agree(signed(x, wide, negated), wide);
}

#[verifier::spinoff_prover]
#[verifier::rlimit(40)]
proof fn signed_lane_pattern(w: int, neg: bool, a: V128, i: int)
    requires
        w == 4 || w == 8,
        0 <= i < count(w),
    ensures
        ({
            let r = lanewise(
                if neg {
                    LaneOp::FloatNeg
                } else {
                    LaneOp::FloatAbs
                },
                w,
                a,
                a,
                0,
            );
            let (x, z) = (number(a, w, i), number(r, w, i));
            &&& size(z, w == 8) == size(x, w == 8)
            &&& minus(z, w == 8) == (neg && !minus(x, w == 8))
        }),
{
    lane_pattern(a, w, i);
    let x = number(a, w, i) as u64;
    fields_agree(x, w == 8);
    let negated = neg && !negative(x, w == 8);
    signed_pattern(x, w == 8, negated);
    let e = signed(x, w == 8, negated) as int;
    if neg {
        result_number(LaneOp::FloatNeg, w, a, a, 0, i, e);
    } else {
        result_number(LaneOp::FloatAbs, w, a, a, 0, i, e);
    }
}

/// `pmin` and `pmax` give the second operand where it is below or above the first, and else
/// the first.
pub proof fn float_lane_selections(m: Machine, w: int, max: bool, at: int, a: V128, b: V128, i: int)
    requires
        w == 4 || w == 8,
        faces_vectors(
            m,
            if w == 4 {
                if max {
                    0xEB
                } else {
                    0xEA
                }
            } else {
                if max {
                    0xF7
                } else {
                    0xF6
                }
            },
            at,
            a,
            b,
        ),
        0 <= i < count(w),
    ensures
        ({
            let r = result_of(m, 2)->V128_0;
            let (x, y, z) = (number(a, w, i), number(b, w, i), number(r, w, i));
            let numbers = !no_number(x, w == 8) && !no_number(y, w == 8);
            let (p, q) = (quantity(x, w == 8), quantity(y, w == 8));
            &&& yields_at(m, 2, Value::V128(r), at)
            &&& z == if numbers && (if max {
                p < q
            } else {
                q < p
            }) {
                y
            } else {
                x
            }
        }),
{
    reveal(by_lanes);
    lane_pattern(a, w, i);
    lane_pattern(b, w, i);
    lane_is_number(a, w, i);
    lane_is_number(b, w, i);
    order_agrees(number(a, w, i) as u64, number(b, w, i) as u64, w == 8);
    if w == 4 {
        if max {
            combines(m, 0xEB, at, a, b, LaneOp::PseudoMax, 4);
        } else {
            combines(m, 0xEA, at, a, b, LaneOp::PseudoMin, 4);
        }
    } else {
        if max {
            combines(m, 0xF7, at, a, b, LaneOp::PseudoMax, 8);
        } else {
            combines(m, 0xF6, at, a, b, LaneOp::PseudoMin, 8);
        }
    }
    let l = if max {
        LaneOp::PseudoMax
    } else {
        LaneOp::PseudoMin
    };
    result_number(l, w, a, b, 0, i, lane_result(l, w, a.0@, b.0@, 0, i));
}

/// The number of the minimum or maximum of lanes of this width.
pub open spec fn extreme_of(w: int, max: bool) -> u32 {
    if w == 4 {
        if max {
            0xE9
        } else {
            0xE8
        }
    } else {
        if max {
            0xF5
        } else {
            0xF4
        }
    }
}

/// `min` and `max` of floating-point lanes are asked for where some lane is no number. Elsewhere
/// each lane of the result is a lane of an operand, and neither lies beyond it.
pub proof fn float_lane_extremes(m: Machine, w: int, max: bool, at: int, a: V128, b: V128, i: int)
    requires
        w == 4 || w == 8,
        faces_vectors(m, extreme_of(w, max), at, a, b),
        0 <= i < count(w),
    ensures
        ({
            let r = result_of(m, 2)->V128_0;
            let (x, y, z) = (number(a, w, i), number(b, w, i), number(r, w, i));
            let (p, q, s) = (quantity(x, w == 8), quantity(y, w == 8), quantity(z, w == 8));
            &&& no_number(x, w == 8) || no_number(y, w == 8) ==> step(m) == (
                consumed(m, 2, at),
                Outcome::Float(FloatCall::Simd(extreme_of(w, max), a, b, zero_vector())),
            )
            &&& (forall|j: int|
                0 <= j < count(w) ==> !no_number(#[trigger] number(a, w, j), w == 8) && !no_number(
                    number(b, w, j),
                    w == 8,
                )) ==> {
                &&& yields_at(m, 2, Value::V128(r), at)
                &&& z == x || z == y
                &&& max ==> s >= p && s >= q
                &&& !max ==> s <= p && s <= q
            }
        }),
{
    extreme_gives(m, w, max, at, a, b);
    nan_lanes(a, b, w);
    if no_number(number(a, w, i), w == 8) || no_number(number(b, w, i), w == 8) {
        assert(nan_at(a, b, w, i));
        assert(some_nan(a, b, w));
    } else if !some_nan(a, b, w) {
        extreme_lane(w, max, a, b, i);
    } else {
        let j = choose|j: int| 0 <= j < count(w) && #[trigger] nan_at(a, b, w, j);
        assert(no_number(number(a, w, j), w == 8) || no_number(number(b, w, j), w == 8));
    }
}

proof fn nan_lanes(a: V128, b: V128, w: int)
    requires
        w == 4 || w == 8,
    ensures
        forall|j: int|
            0 <= j < count(w) ==> nan_at(a, b, w, j) == (no_number(#[trigger] number(a, w, j), w == 8) || no_number(
                number(b, w, j),
                w == 8,
            )),
        (forall|j: int|
            0 <= j < count(w) ==> !no_number(#[trigger] number(a, w, j), w == 8) && !no_number(
                number(b, w, j),
                w == 8,
            )) ==> !some_nan(a, b, w),
{
    assert forall|j: int| 0 <= j < count(w) implies nan_at(a, b, w, j) == (no_number(
        #[trigger] number(a, w, j),
        w == 8,
    ) || no_number(number(b, w, j), w == 8)) by {
        lane_pattern(a, w, j);
        lane_pattern(b, w, j);
        fields_agree(number(a, w, j) as u64, w == 8);
        fields_agree(number(b, w, j) as u64, w == 8);
    }
    if some_nan(a, b, w) {
        let j = choose|j: int| 0 <= j < count(w) && #[trigger] nan_at(a, b, w, j);
        assert(no_number(number(a, w, j), w == 8) || no_number(number(b, w, j), w == 8));
    }
}

#[verifier::spinoff_prover]
#[verifier::rlimit(40)]
proof fn extreme_lane(w: int, max: bool, a: V128, b: V128, i: int)
    requires
        w == 4 || w == 8,
        0 <= i < count(w),
        !some_nan(a, b, w),
    ensures
        ({
            let r = lanewise(
                if max {
                    LaneOp::FloatMax
                } else {
                    LaneOp::FloatMin
                },
                w,
                a,
                b,
                0,
            );
            let (x, y, z) = (number(a, w, i), number(b, w, i), number(r, w, i));
            let (p, q, s) = (quantity(x, w == 8), quantity(y, w == 8), quantity(z, w == 8));
            &&& z == x || z == y
            &&& max ==> s >= p && s >= q
            &&& !max ==> s <= p && s <= q
        }),
{
    assert(!nan_at(a, b, w, i));
    lane_pattern(a, w, i);
    lane_pattern(b, w, i);
    let (x, y) = (number(a, w, i) as u64, number(b, w, i) as u64);
    fields_agree(x, w == 8);
    fields_agree(y, w == 8);
    order_agrees(x, y, w == 8);
    if max {
        result_number(LaneOp::FloatMax, w, a, b, 0, i, maximum(x, y, w == 8)->Some_0 as int);
    } else {
        result_number(LaneOp::FloatMin, w, a, b, 0, i, minimum(x, y, w == 8)->Some_0 as int);
    }
}

#[verifier::spinoff_prover]
#[verifier::rlimit(60)]
proof fn extreme_gives(m: Machine, w: int, max: bool, at: int, a: V128, b: V128)
    requires
        w == 4 || w == 8,
        faces_vectors(m, extreme_of(w, max), at, a, b),
    ensures
        some_nan(a, b, w) ==> step(m) == (
            consumed(m, 2, at),
            Outcome::Float(FloatCall::Simd(extreme_of(w, max), a, b, zero_vector())),
        ),
        !some_nan(a, b, w) ==> {
            let r = lanewise(
                if max {
                    LaneOp::FloatMax
                } else {
                    LaneOp::FloatMin
                },
                w,
                a,
                b,
                0,
            );
            yields_at(m, 2, Value::V128(r), at) && result_of(m, 2) == Value::V128(r)
        },
{
    reveal(lanewise);
    enters_vector(m, extreme_of(w, max), at);
    if !some_nan(a, b, w) {
        assert(step(m).0 =~= replaced(m, 2, result_of(m, 2), at));
    }
}

/// Truncations of floating-point lanes give the integer part, or the end of the type nearest to
/// it, and zero where there is no number. Numbers of double precision fill the first two lanes,
/// and the others are zero.
pub proof fn float_lane_truncations(m: Machine, op: u32, at: int, a: V128, i: int, e: int)
    requires
        op == 0xF8 || op == 0xF9 || op == 0xFC || op == 0xFD || 0x101 <= op <= 0x104,
        faces_vector(m, op, at, a),
        0 <= i < 4,
        ({
            let wide = op == 0xFC || op == 0xFD || op == 0x103 || op == 0x104;
            wide ==> i < 2 ==> is_integer_part(e, quantity(number(a, 8, i), true), true)
        }),
        ({
            let wide = op == 0xFC || op == 0xFD || op == 0x103 || op == 0x104;
            !wide ==> is_integer_part(e, quantity(number(a, 4, i), false), false)
        }),
    ensures
        ({
            let wide = op == 0xFC || op == 0xFD || op == 0x103 || op == 0x104;
            let u = op == 0xF9 || op == 0xFD || op == 0x102 || op == 0x104;
            let r = result_of(m, 1)->V128_0;
            let z = number_as(r, 4, i, u);
            let low: int = if u { 0 } else { -0x8000_0000 };
            let high: int = if u { 0xFFFF_FFFF } else { 0x7FFF_FFFF };
            &&& yields_at(m, 1, Value::V128(r), at)
            &&& wide && i >= 2 ==> z == 0
            &&& !wide || i < 2 ==> if no_number(
                if wide {
                    number(a, 8, i)
                } else {
                    number(a, 4, i)
                },
                wide,
            ) {
                z == 0
            } else {
                nearest(z, e, low, high)
            }
        }),
{
    reveal(by_lanes);
    let wide = op == 0xFC || op == 0xFD || op == 0x103 || op == 0x104;
    let u = op == 0xF9 || op == 0xFD || op == 0x102 || op == 0x104;
    transforms(m, op, at, a, LaneOp::SatTrunc(wide, u), 4);
    if wide {
        if i < 2 {
            lane_pattern(a, 8, i);
            fields_agree(number(a, 8, i) as u64, true);
            part_agrees(number(a, 8, i) as u64, true);
            part_is_unique(e, integer_part(number(a, 8, i) as u64, true), quantity(number(a, 8, i), true), true);
        }
    } else {
        lane_pattern(a, 4, i);
        fields_agree(number(a, 4, i) as u64, false);
        part_agrees(number(a, 4, i) as u64, false);
        part_is_unique(e, integer_part(number(a, 4, i) as u64, false), quantity(number(a, 4, i), false), false);
    }
    result_number(LaneOp::SatTrunc(wide, u), 4, a, a, 0, i, lane_result(LaneOp::SatTrunc(wide, u), 4, a.0@, a.0@, 0, i));
}

/// Rounding, square roots and conversions of one vector are asked for.
pub proof fn float_lanes_are_asked_for_one(m: Machine, op: u32, at: int, a: V128)
    requires
        op == 0x5E || op == 0x5F || 0x67 <= op <= 0x6A || op == 0x74 || op == 0x75 || op == 0x7A || op == 0x94 || op
            == 0xE3 || op == 0xEF || op == 0xFA || op == 0xFB || op == 0xFE || op == 0xFF,
        faces_vector(m, op, at, a),
    ensures
        step(m) == (
            consumed(m, 1, at),
            Outcome::Float(FloatCall::Simd(op, a, zero_vector(), zero_vector())),
        ),
{
    enters_vector(m, op, at);
}

/// Arithmetic on two vectors of floating-point lanes is asked for, with the operands in order.
pub proof fn float_lanes_are_asked_for_two(m: Machine, op: u32, at: int, a: V128, b: V128)
    requires
        0xE4 <= op <= 0xE7 || 0xF0 <= op <= 0xF3,
        faces_vectors(m, op, at, a, b),
    ensures
        step(m) == (consumed(m, 2, at), Outcome::Float(FloatCall::Simd(op, a, b, zero_vector()))),
{
    enters_vector(m, op, at);
}

/// Fused multiplications and additions are asked for, with the three operands in order.
pub proof fn float_lanes_are_asked_for_three(m: Machine, op: u32, at: int, a: V128, b: V128, c: V128)
    requires
        0x105 <= op <= 0x108,
        faces_prefixed(m, 0xFD, op, at),
        m.stack_ptr >= 3,
        operand(m, 2) == Value::V128(a),
        operand(m, 1) == Value::V128(b),
        operand(m, 0) == Value::V128(c),
    ensures
        step(m) == (consumed(m, 3, at), Outcome::Float(FloatCall::Simd(op, a, b, c))),
{
    enters_vector(m, op, at);
}

} // verus!
