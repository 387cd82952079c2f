//! Vectors as lanes of one, two, four or eight bytes, and operations lane by lane.

use vstd::prelude::*;
use vstd::arithmetic::power2::{lemma2_to64, lemma2_to64_rest, lemma_pow2_strictly_increases, pow2};
use crate::atomics::span;
use crate::bytes::{le_u16, le_u32, le_u64, read_u16, read_u32, read_u64, u64_bytes};
use crate::float_bits::{
    below, is_below, is_nan, is_negative, max_of, maximum, min_of, minimum, negative, not_a_number, saturate,
    saturated, signed, two_to, with_sign,
};
use crate::numeric::{compare_floats, count_ones, float_relation, int_relation, ones};
use crate::types::{v128_bytes_kept, v128_from_own_bytes, v128_of, V128};

verus! {

/// Whether lanes have this many bytes.
pub open spec fn is_lane_width(w: int) -> bool {
    w == 1 || w == 2 || w == 4 || w == 8
}

/// The number of lanes of `w` bytes in a vector.
pub open spec fn count(w: int) -> int {
    if w == 1 {
        16
    } else if w == 2 {
        8
    } else if w == 4 {
        4
    } else {
        2
    }
}

/// Whether lane `i` of lanes of `w` bytes lies within `len` bytes.
pub open spec fn fits_lane(len: int, w: int, i: int) -> bool {
    if w == 1 {
        i < len
    } else if w == 2 {
        2 * i + 2 <= len
    } else if w == 4 {
        4 * i + 4 <= len
    } else {
        8 * i + 8 <= len
    }
}

/// The unsigned number in lane `i` of lanes of `w` bytes.
pub open spec fn lane(s: Seq<u8>, w: int, i: int) -> int {
    if w == 1 {
        s[i] as int
    } else if w == 2 {
        le_u16(s, 2 * i) as int
    } else if w == 4 {
        le_u32(s, 4 * i) as int
    } else {
        le_u64(s, 8 * i) as int
    }
}

/// The signed number in lane `i` of lanes of `w` bytes.
pub open spec fn signed_lane(s: Seq<u8>, w: int, i: int) -> int {
    let x = lane(s, w, i);
    if x >= span(w) / 2 {
        x - span(w)
    } else {
        x
    }
}

/// A number with or without sign.
pub open spec fn lane_as(s: Seq<u8>, w: int, i: int, unsigned: bool) -> int {
    if unsigned {
        lane(s, w, i)
    } else {
        signed_lane(s, w, i)
    }
}

/// The byte at position `j` of lanes that hold these numbers, cut to the lane width.
pub open spec fn packed_byte(w: int, lanes: Seq<int>, j: int) -> u8 {
    u64_bytes((lanes[j / w] % span(w)) as u64)[j % w]
}

/// The vector whose lanes hold these numbers, cut to the lane width.
pub open spec fn packed(w: int, lanes: Seq<int>) -> V128 {
    v128_of(Seq::new(16, |j: int| packed_byte(w, lanes, j)))
}

/// The lanes of a vector.
pub open spec fn lanes(v: V128, w: int) -> Seq<int> {
    Seq::new(count(w) as nat, |i: int| lane(v.0@, w, i))
}

/// A number within bounds.
pub open spec fn clamped(x: int, low: int, high: int) -> int {
    if x < low {
        low
    } else if x > high {
        high
    } else {
        x
    }
}

/// A number within what a lane can hold.
pub open spec fn clamped_to(x: int, w: int, unsigned: bool) -> int {
    if unsigned {
        clamped(x, 0, span(w) - 1)
    } else {
        clamped(x, -(span(w) / 2), span(w) / 2 - 1)
    }
}

/// An operation that gives each lane of its result from lanes of its operands.
#[derive(Debug, Clone, Copy, PartialEq, Eq, Structural)]
pub enum LaneOp {
    /// All ones where the comparison of integers with this number holds.
    Relation(u8),
    /// All ones where the comparison of floating-point numbers with this number holds.
    FloatRelation(u8),
    Abs,
    Neg,
    /// Number of one bits.
    Ones,
    /// Product of fixed-point numbers with fifteen fraction bits, rounded.
    RoundedProduct,
    Shl,
    ShrSigned,
    ShrUnsigned,
    Sum,
    SumSat(bool),
    Difference,
    DifferenceSat(bool),
    Product,
    Min(bool),
    Max(bool),
    Average,
    /// A lane of half the width, of the high half or not, without sign or not.
    Extend(bool, bool),
    /// The product of such lanes.
    ExtendedProduct(bool, bool),
    /// The sum of two neighbours of half the width.
    Pairwise(bool),
    /// A lane of twice the width, cut to the bounds.
    Narrow(bool),
    /// The sum of the products of two pairs of half the width.
    Dot,
    /// The same, cut to the bounds.
    DotSat,
    FloatAbs,
    FloatNeg,
    FloatMin,
    FloatMax,
    /// The second operand where it is below the first.
    PseudoMin,
    /// The second operand where it is above the first.
    PseudoMax,
    /// The integer part of a floating-point number, of double precision or not, without
    /// sign or not.
    SatTrunc(bool, bool),
    Not,
    And,
    AndNot,
    Or,
    Xor,
    /// The byte of the first operand that the second names.
    Swizzle,
}

/// Whether an operation gives lanes of `w` bytes.
pub open spec fn gives(op: LaneOp, w: int) -> bool {
    match op {
        LaneOp::FloatRelation(_) | LaneOp::FloatAbs | LaneOp::FloatNeg | LaneOp::FloatMin | LaneOp::FloatMax => w == 4
            || w == 8,
        LaneOp::PseudoMin | LaneOp::PseudoMax => w == 4 || w == 8,
        LaneOp::Extend(..) | LaneOp::ExtendedProduct(..) | LaneOp::Pairwise(_) | LaneOp::Dot | LaneOp::DotSat => w == 2
            || w == 4 || w == 8,
        LaneOp::Narrow(_) => w == 1 || w == 2 || w == 4,
        LaneOp::SatTrunc(..) => w == 4,
        LaneOp::RoundedProduct => w == 2,
        LaneOp::Not | LaneOp::And | LaneOp::AndNot | LaneOp::Or | LaneOp::Xor | LaneOp::Swizzle => w == 1,
        _ => is_lane_width(w),
    }
}

/// All ones or all zeros.
pub open spec fn filled(b: bool) -> int {
    if b {
        -1
    } else {
        0
    }
}

/// The index of the lane of half the width that lane `i` is extended from.
pub open spec fn half_index(w: int, i: int, high: bool) -> int {
    if high {
        i + count(w)
    } else {
        i
    }
}

/// The floating-point pattern in a lane.
pub open spec fn pattern_at(s: Seq<u8>, w: int, i: int) -> u64 {
    lane(s, w, i) as u64
}

/// Lane `i` of a result, before it is cut to the lane width; `s` is the shift.
pub open spec fn lane_result(op: LaneOp, w: int, a: Seq<u8>, b: Seq<u8>, s: u32, i: int) -> int {
    let x = lane(a, w, i);
    let y = lane(b, w, i);
    let sx = signed_lane(a, w, i);
    let sy = signed_lane(b, w, i);
    let fx = pattern_at(a, w, i);
    let fy = pattern_at(b, w, i);
    let h = w / 2;
    match op {
        LaneOp::Relation(k) => filled(int_relation(k as int, sx, sy, x, y)),
        LaneOp::FloatRelation(k) => filled(float_relation(k as int, fx, fy, w == 8)),
        LaneOp::Abs => if sx < 0 {
            -sx
        } else {
            sx
        },
        LaneOp::Neg => -sx,
        LaneOp::Ones => ones(x as nat) as int,
        LaneOp::RoundedProduct => clamped_to((sx * sy + 0x4000) / 0x8000, w, false),
        LaneOp::Shl => x * pow2(s as nat),
        LaneOp::ShrSigned => sx / pow2(s as nat) as int,
        LaneOp::ShrUnsigned => x / pow2(s as nat) as int,
        LaneOp::Sum => x + y,
        LaneOp::SumSat(u) => clamped_to(lane_as(a, w, i, u) + lane_as(b, w, i, u), w, u),
        LaneOp::Difference => x - y,
        LaneOp::DifferenceSat(u) => clamped_to(lane_as(a, w, i, u) - lane_as(b, w, i, u), w, u),
        LaneOp::Product => x * y,
        LaneOp::Min(u) => if lane_as(a, w, i, u) <= lane_as(b, w, i, u) {
            x
        } else {
            y
        },
        LaneOp::Max(u) => if lane_as(a, w, i, u) >= lane_as(b, w, i, u) {
            x
        } else {
            y
        },
        LaneOp::Average => (x + y + 1) / 2,
        LaneOp::Extend(high, u) => lane_as(a, h, half_index(w, i, high), u),
        LaneOp::ExtendedProduct(high, u) => lane_as(a, h, half_index(w, i, high), u) * lane_as(
            b,
            h,
            half_index(w, i, high),
            u,
        ),
        LaneOp::Pairwise(u) => lane_as(a, h, 2 * i, u) + lane_as(a, h, 2 * i + 1, u),
        LaneOp::Narrow(u) => if i < count(2 * w) {
            clamped_to(signed_lane(a, 2 * w, i), w, u)
        } else {
            clamped_to(signed_lane(b, 2 * w, i - count(2 * w)), w, u)
        },
        LaneOp::Dot => dot(a, b, h, 2 * i),
        LaneOp::DotSat => clamped_to(dot(a, b, h, 2 * i), w, false),
        LaneOp::FloatAbs => signed(fx, w == 8, false) as int,
        LaneOp::FloatNeg => signed(fx, w == 8, !negative(fx, w == 8)) as int,
        LaneOp::FloatMin => minimum(fx, fy, w == 8)->Some_0 as int,
        LaneOp::FloatMax => maximum(fx, fy, w == 8)->Some_0 as int,
        LaneOp::PseudoMin => if below(fy, fx, w == 8) {
            y
        } else {
            x
        },
        LaneOp::PseudoMax => if below(fx, fy, w == 8) {
            y
        } else {
            x
        },
        LaneOp::SatTrunc(wide, u) => if wide {
            if i < 2 {
                saturated(pattern_at(a, 8, i), true, trunc_low(u), trunc_high(u))
            } else {
                0
            }
        } else {
            saturated(fx, false, trunc_low(u), trunc_high(u))
        },
        LaneOp::Not => (!a[i]) as int,
        LaneOp::And => (a[i] & b[i]) as int,
        LaneOp::AndNot => (a[i] & !b[i]) as int,
        LaneOp::Or => (a[i] | b[i]) as int,
        LaneOp::Xor => (a[i] ^ b[i]) as int,
        LaneOp::Swizzle => if b[i] < 16 {
            a[b[i] as int] as int
        } else {
            0
        },
    }
}

/// The sum of the products of two neighbouring lanes.
pub open spec fn dot(a: Seq<u8>, b: Seq<u8>, w: int, i: int) -> int {
    signed_lane(a, w, i) * signed_lane(b, w, i) + signed_lane(a, w, i + 1) * signed_lane(b, w, i + 1)
}

/// Bounds of a 32-bit integer.
pub open spec fn trunc_low(unsigned: bool) -> int {
    if unsigned {
        0
    } else {
        i32::MIN as int
    }
}

/// Bounds of a 32-bit integer.
pub open spec fn trunc_high(unsigned: bool) -> int {
    if unsigned {
        u32::MAX as int
    } else {
        i32::MAX as int
    }
}

/// The result of an operation.
pub open spec fn mapped(op: LaneOp, w: int, a: V128, b: V128, s: u32) -> V128 {
    packed(w, Seq::new(count(w) as nat, |i: int| lane_result(op, w, a.0@, b.0@, s, i)))
}

/// Whether every lane is other than zero.
pub open spec fn all_true(v: V128, w: int) -> bool {
    forall|i: int| 0 <= i < count(w) ==> #[trigger] lane(v.0@, w, i) != 0
}

/// The number whose bits are the signs of the first `n` lanes.
pub open spec fn sign_mask(v: V128, w: int, n: nat) -> nat
    decreases n,
{
    if n == 0 {
        0
    } else {
        let rest = sign_mask(v, w, (n - 1) as nat);
        if signed_lane(v.0@, w, n - 1) < 0 {
            rest + pow2((n - 1) as nat)
        } else {
            rest
        }
    }
}

/// Whether some lane of one of two vectors is a NaN.
pub open spec fn some_nan(a: V128, b: V128, w: int) -> bool {
    exists|i: int| 0 <= i < count(w) && #[trigger] nan_at(a, b, w, i)
}

/// Whether lane `i` of one of two vectors is a NaN.
pub open spec fn nan_at(a: V128, b: V128, w: int, i: int) -> bool {
    is_nan(pattern_at(a.0@, w, i), w == 8) || is_nan(pattern_at(b.0@, w, i), w == 8)
}

/// For each bit, that of the first operand where the third has a one, else that of the
/// second.
pub open spec fn bits_selected(a: V128, b: V128, c: V128) -> V128 {
    v128_of(Seq::new(16, |i: int| (a.0@[i] & c.0@[i]) | (b.0@[i] & !c.0@[i])))
}

/// The sum of the products of four bytes and of a number.
pub open spec fn dot_sum(a: V128, b: V128, c: V128, i: int) -> int {
    dot(a.0@, b.0@, 1, 4 * i) + dot(a.0@, b.0@, 1, 4 * i + 2) + signed_lane(c.0@, 4, i)
}

/// The sums of the products of four bytes and of a number, for each lane.
pub open spec fn dots_added(a: V128, b: V128, c: V128) -> V128 {
    packed(4, Seq::new(4, |i: int| dot_sum(a, b, c, i)))
}

// ---------------------------------------------------------------------------
// Laws

proof fn lane_of_byte(j: int, w: int)
    requires
        is_lane_width(w),
        0 <= j < 16,
    ensures
        0 <= j / w < count(w),
        0 <= j % w < w,
{
    if w == 1 {
    } else if w == 2 {
    } else if w == 4 {
    } else {
        assert(w == 8);
    }
}

proof fn small_bytes(x: u64)
    ensures
        u64_bytes(x).len() == 8,
        x < 0x100 ==> u64_bytes(x)[0] == x,
        x < 0x1_0000 ==> u64_bytes(x)[0] + u64_bytes(x)[1] * 0x100 == x,
        x < 0x1_0000_0000 ==> u64_bytes(x)[0] + u64_bytes(x)[1] * 0x100 + u64_bytes(x)[2] * 0x1_0000 + u64_bytes(x)[3]
            * 0x100_0000 == x,
{
}

proof fn narrow_lane(s: Seq<u8>, w: int, x: u64, i: int)
    requires
        w == 1 || w == 2 || w == 4,
        s.len() == 16,
        0 <= i < count(w),
        x < span(w),
        forall|k: int| 0 <= k < w ==> #[trigger] s[w * i + k] == u64_bytes(x)[k],
    ensures
        lane(s, w, i) == x,
{
    small_bytes(x);
    if w == 1 {
        assert(s[1 * i + 0] == u64_bytes(x)[0]);
    } else if w == 2 {
        assert(s[2 * i + 0] == u64_bytes(x)[0] && s[2 * i + 1] == u64_bytes(x)[1]);
    } else {
        assert(s[4 * i + 0] == u64_bytes(x)[0] && s[4 * i + 1] == u64_bytes(x)[1]);
        assert(s[4 * i + 2] == u64_bytes(x)[2] && s[4 * i + 3] == u64_bytes(x)[3]);
    }
}

proof fn wide_lane(s: Seq<u8>, x: u64, i: int)
    requires
        s.len() == 16,
        0 <= i < 2,
        forall|k: int| 0 <= k < 8 ==> #[trigger] s[8 * i + k] == u64_bytes(x)[k],
    ensures
        lane(s, 8, i) == x,
{
    let b = u64_bytes(x);
    crate::bytes::u64_round_trip(x);
    assert(s[8 * i + 0] == b[0] && s[8 * i + 1] == b[1] && s[8 * i + 2] == b[2] && s[8 * i + 3] == b[3]);
    assert(s[8 * i + 4] == b[4] && s[8 * i + 5] == b[5] && s[8 * i + 6] == b[6] && s[8 * i + 7] == b[7]);
}

proof fn byte_places(w: int, i: int, k: int)
    requires
        is_lane_width(w),
        0 <= i,
        0 <= k < w,
    ensures
        (w * i + k) / w == i,
        (w * i + k) % w == k,
{
    if w == 1 {
    } else if w == 2 {
    } else if w == 4 {
    } else {
        assert(w == 8);
    }
}

proof fn bytes_in_lane(s: Seq<u8>, w: int, nums: Seq<int>, i: int)
    requires
        is_lane_width(w),
        s.len() == 16,
        nums.len() == count(w),
        0 <= i < count(w),
        forall|j: int| 0 <= j < 16 ==> #[trigger] s[j] == packed_byte(w, nums, j),
    ensures
        lane(s, w, i) == nums[i] % span(w),
{
    let x = (nums[i] % span(w)) as u64;
    assert forall|k: int| 0 <= k < w implies #[trigger] s[w * i + k] == u64_bytes(x)[k] by {
        byte_places(w, i, k);
        assert(0 <= w * i + k < 16) by {
            if w == 1 {
            } else if w == 2 {
            } else if w == 4 {
            } else {
                assert(w == 8);
            }
        }
        assert(s[w * i + k] == packed_byte(w, nums, w * i + k));
    }
    if w == 8 {
        wide_lane(s, x, i);
    } else {
        narrow_lane(s, w, x, i);
    }
}

/// A lane of a vector that was built from numbers holds the number, cut to the lane
/// width.
pub proof fn packed_lane(w: int, nums: Seq<int>, i: int)
    requires
        is_lane_width(w),
        nums.len() == count(w),
        0 <= i < count(w),
    ensures
        lane(packed(w, nums).0@, w, i) == nums[i] % span(w),
{
    let s = Seq::new(16, |j: int| packed_byte(w, nums, j));
    v128_bytes_kept(s);
    bytes_in_lane(s, w, nums, i);
}

/// Every operation on lanes gives in each lane what it says, cut to the lane width.
pub proof fn mapped_lane(op: LaneOp, w: int, a: V128, b: V128, s: u32, i: int)
    requires
        is_lane_width(w),
        0 <= i < count(w),
    ensures
        lane(mapped(op, w, a, b, s).0@, w, i) == lane_result(op, w, a.0@, b.0@, s, i) % span(w),
{
    packed_lane(w, Seq::new(count(w) as nat, |k: int| lane_result(op, w, a.0@, b.0@, s, k)), i);
}

/// The bits of a selection come from the operand that the mask names: with all ones
/// from the first, with all zeros from the second.
pub proof fn selection_by_constant(a: V128, b: V128)
    ensures
        bits_selected(a, b, v128_of(Seq::new(16, |i: int| 0xFFu8))) == a,
        bits_selected(a, b, v128_of(Seq::new(16, |i: int| 0u8))) == b,
{
    let ones = Seq::new(16, |i: int| 0xFFu8);
    let zeros = Seq::new(16, |i: int| 0u8);
    v128_bytes_kept(ones);
    v128_bytes_kept(zeros);
    assert forall|x: u8, y: u8| #[trigger] ((x & 0xFFu8) | (y & !0xFFu8)) == x by {
        assert(((x & 0xFFu8) | (y & !0xFFu8)) == x) by (bit_vector);
    }
    assert forall|x: u8, y: u8| #[trigger] ((x & 0u8) | (y & !0u8)) == y by {
        assert(((x & 0u8) | (y & !0u8)) == y) by (bit_vector);
    }
    assert(Seq::new(16, |i: int| (a.0@[i] & ones[i]) | (b.0@[i] & !ones[i])) =~= a.0@);
    assert(Seq::new(16, |i: int| (a.0@[i] & zeros[i]) | (b.0@[i] & !zeros[i])) =~= b.0@);
    v128_from_own_bytes(a);
    v128_from_own_bytes(b);
}

// ---------------------------------------------------------------------------
// Execution

/// The number of lanes of `w` bytes in a vector.
pub fn count_of(w: usize) -> (r: usize)
    requires
        is_lane_width(w as int),
    ensures
        r == count(w as int),
        r * w == 16,
{
    match w {
        1 => 16,
        2 => 8,
        4 => 4,
        _ => 2,
    }
}

fn span_of(w: usize) -> (r: i128)
    requires
        is_lane_width(w as int),
    ensures
        r == span(w as int),
{
    match w {
        1 => 0x100,
        2 => 0x1_0000,
        4 => 0x1_0000_0000,
        _ => 0x1_0000_0000_0000_0000,
    }
}

/// The unsigned number in a lane.
pub fn get_lane(s: &[u8], w: usize, i: usize) -> (r: u64)
    requires
        is_lane_width(w as int),
        fits_lane(s@.len() as int, w as int, i as int),
        i < 16,
    ensures
        r == lane(s@, w as int, i as int),
        r < span(w as int),
{
    match w {
        1 => s[i] as u64,
        2 => read_u16(s, 2 * i) as u64,
        4 => read_u32(s, 4 * i) as u64,
        _ => read_u64(s, 8 * i),
    }
}

/// The signed number in a lane.
pub fn get_signed_lane(s: &[u8], w: usize, i: usize) -> (r: i128)
    requires
        is_lane_width(w as int),
        fits_lane(s@.len() as int, w as int, i as int),
        i < 16,
    ensures
        r == signed_lane(s@, w as int, i as int),
        -(span(w as int) / 2) <= r < span(w as int) / 2,
{
    let x: i128 = get_lane(s, w, i) as i128;
    let n: i128 = span_of(w);
    let half: i128 = match w {
        1 => 0x80,
        2 => 0x8000,
        4 => 0x8000_0000,
        _ => 0x8000_0000_0000_0000,
    };
    if x >= half {
        x - n
    } else {
        x
    }
}

fn get_lane_as(s: &[u8], w: usize, i: usize, unsigned: bool) -> (r: i128)
    requires
        is_lane_width(w as int),
        fits_lane(s@.len() as int, w as int, i as int),
        i < 16,
    ensures
        r == lane_as(s@, w as int, i as int, unsigned),
        -(span(w as int) / 2) <= r < span(w as int),
{
    if unsigned {
        get_lane(s, w, i) as i128
    } else {
        get_signed_lane(s, w, i)
    }
}

/// A number cut to the lane width.
pub fn cut(x: i128, w: usize) -> (r: u64)
    requires
        is_lane_width(w as int),
        -0x4000_0000_0000_0000_0000_0000_0000_0000 <= x,
    ensures
        r == x as int % span(w as int),
{
    let n: u128 = span_of(w) as u128;
    if x >= 0 {
        ((x as u128) % n) as u64
    } else {
        let y: u128 = (-(x + 1)) as u128;
        let d: u128 = n - 1 - y % n;
        proof {
            let q = y as int / n as int;
            vstd::arithmetic::div_mod::lemma_fundamental_div_mod(y as int, n as int);
            assert(x == d + n * (-q - 1)) by (nonlinear_arith)
                requires
                    y == -(x + 1),
                    y == n * q + y % n,
                    d == n - 1 - y % n,
            ;
            vstd::arithmetic::div_mod::lemma_fundamental_div_mod_converse(
                x as int,
                n as int,
                -q - 1,
                d as int,
            );
        }
        d as u64
    }
}

fn clamp_to(x: i128, w: usize, unsigned: bool) -> (r: i128)
    requires
        is_lane_width(w as int),
    ensures
        r == clamped_to(x as int, w as int, unsigned),
        -0x8000_0000_0000_0000 <= r <= 0xFFFF_FFFF_FFFF_FFFF,
{
    let n: i128 = span_of(w);
    let (low, high): (i128, i128) = if unsigned {
        (0, n - 1)
    } else {
        match w {
            1 => (-0x80, 0x7F),
            2 => (-0x8000, 0x7FFF),
            4 => (-0x8000_0000, 0x7FFF_FFFF),
            _ => (-0x8000_0000_0000_0000, 0x7FFF_FFFF_FFFF_FFFF),
        }
    };
    if x < low {
        low
    } else if x > high {
        high
    } else {
        x
    }
}

/// The quotient rounded down.
fn floor_quotient(x: i128, p: u128) -> (r: i128)
    requires
        -0x8000_0000_0000_0000 <= x <= 0xFFFF_FFFF_FFFF_FFFF,
        1 <= p <= 0x1_0000_0000_0000_0000,
    ensures
        r == x as int / p as int,
        -0x8000_0000_0000_0000 <= r <= 0xFFFF_FFFF_FFFF_FFFF,
{
    if x >= 0 {
        let q: u128 = x as u128 / p;
        assert(0 <= q <= x) by (nonlinear_arith)
            requires
                q == x as u128 / p,
                p >= 1,
                x >= 0,
        ;
        q as i128
    } else {
        let y: u128 = (-(x + 1)) as u128;
        let q: u128 = y / p;
        proof {
            vstd::arithmetic::div_mod::lemma_fundamental_div_mod(y as int, p as int);
            assert(0 <= q <= y) by (nonlinear_arith)
                requires
                    q == y / p,
                    p >= 1,
            ;
            let rem = p as int - 1 - (y % p) as int;
            assert(x == p * (-(q as int) - 1) + rem) by (nonlinear_arith)
                requires
                    y == -(x + 1),
                    y == p * q + y % p,
                    rem == p as int - 1 - (y % p) as int,
            ;
            vstd::arithmetic::div_mod::lemma_fundamental_div_mod_converse(
                x as int,
                p as int,
                -(q as int) - 1,
                rem,
            );
        }
        -(q as i128) - 1
    }
}

/// The sum of the products of two neighbouring lanes.
fn dot_of(a: &[u8], b: &[u8], w: usize, i: usize) -> (r: i128)
    requires
        w == 1 || w == 2 || w == 4,
        a@.len() == 16,
        b@.len() == 16,
        fits_lane(16, w as int, i + 1),
        i < 15,
    ensures
        r == dot(a@, b@, w as int, i as int),
        -0x1_0000_0000_0000_0000 <= r <= 0x1_0000_0000_0000_0000,
{
    let p: i128 = get_signed_lane(a, w, i);
    let q: i128 = get_signed_lane(b, w, i);
    let s: i128 = get_signed_lane(a, w, i + 1);
    let t: i128 = get_signed_lane(b, w, i + 1);
    proof {
        signed_product_bound(p as int, q as int);
        signed_product_bound(s as int, t as int);
    }
    p * q + s * t
}

proof fn signed_product_bound(p: int, q: int)
    requires
        -0x8000_0000 <= p <= 0x8000_0000,
        -0x8000_0000 <= q <= 0x8000_0000,
    ensures
        -0x4000_0000_0000_0000 <= p * q <= 0x4000_0000_0000_0000,
{
    assert(-0x4000_0000_0000_0000 <= p * q <= 0x4000_0000_0000_0000) by (nonlinear_arith)
        requires
            -0x8000_0000 <= p <= 0x8000_0000,
            -0x8000_0000 <= q <= 0x8000_0000,
    ;
}

proof fn product_bound(p: int, q: int)
    requires
        -0x8000_0000 <= p <= 0xFFFF_FFFF,
        -0x8000_0000 <= q <= 0xFFFF_FFFF,
    ensures
        -0x8000_0000_0000_0000 <= p * q <= 0xFFFF_FFFF_FFFF_FFFF,
{
    assert(-0x8000_0000_0000_0000 <= p * q <= 0xFFFF_FFFF_FFFF_FFFF) by (nonlinear_arith)
        requires
            -0x8000_0000 <= p <= 0xFFFF_FFFF,
            -0x8000_0000 <= q <= 0xFFFF_FFFF,
    ;
}

/// Lane `i` of a shift.
fn shift_lane(op: LaneOp, w: usize, a: &[u8], s: u32, i: usize) -> (r: u64)
    requires
        op == LaneOp::Shl || op == LaneOp::ShrSigned || op == LaneOp::ShrUnsigned,
        is_lane_width(w as int),
        a@.len() == 16,
        fits_lane(16, w as int, i as int),
        i < 16,
        s < 64,
    ensures
        r == lane_result(op, w as int, a@, a@, s, i as int) % span(w as int),
{
    let p: u128 = two_to(s);
    proof {
        lemma2_to64();
        lemma2_to64_rest();
        if s < 63 {
            lemma_pow2_strictly_increases(s as nat, 63);
        }
    }
    match op {
        LaneOp::Shl => {
            let x: u64 = get_lane(a, w, i);
            assert(0 <= x * p <= 0xFFFF_FFFF_FFFF_FFFF * 0x8000_0000_0000_0000) by (nonlinear_arith)
                requires
                    0 <= x <= 0xFFFF_FFFF_FFFF_FFFF,
                    0 <= p <= 0x8000_0000_0000_0000,
            ;
            cut((x as u128 * p) as i128, w)
        },
        LaneOp::ShrSigned => cut(floor_quotient(get_signed_lane(a, w, i), p), w),
        _ => cut(floor_quotient(get_lane(a, w, i) as i128, p), w),
    }
}

/// Lane `i` of an operation on integer lanes of one width.
fn int_lane(op: LaneOp, w: usize, a: &[u8], b: &[u8], i: usize) -> (r: u64)
    requires
        match op {
            LaneOp::Relation(_) | LaneOp::Abs | LaneOp::Neg | LaneOp::Ones | LaneOp::Sum | LaneOp::SumSat(_) => true,
            LaneOp::Difference | LaneOp::DifferenceSat(_) | LaneOp::Product | LaneOp::Min(_) | LaneOp::Max(_) => true,
            LaneOp::Average | LaneOp::RoundedProduct => true,
            _ => false,
        },
        gives(op, w as int),
        a@.len() == 16,
        b@.len() == 16,
        fits_lane(16, w as int, i as int),
        i < 16,
    ensures
        r == lane_result(op, w as int, a@, b@, 0, i as int) % span(w as int),
{
    let x: u64 = get_lane(a, w, i);
    let y: u64 = get_lane(b, w, i);
    let sx: i128 = get_signed_lane(a, w, i);
    let sy: i128 = get_signed_lane(b, w, i);
    match op {
        LaneOp::Relation(k) => {
            let holds: bool = match k {
                0 => sx == sy,
                1 => sx != sy,
                2 => sx < sy,
                3 => x < y,
                4 => sx > sy,
                5 => x > y,
                6 => sx <= sy,
                7 => x <= y,
                8 => sx >= sy,
                _ => x >= y,
            };
            if holds {
                cut(-1, w)
            } else {
                cut(0, w)
            }
        },
        LaneOp::Abs => if sx < 0 {
            cut(-sx, w)
        } else {
            cut(sx, w)
        },
        LaneOp::Neg => cut(-sx, w),
        LaneOp::Ones => cut(count_ones(x) as i128, w),
        LaneOp::Sum => cut(x as i128 + y as i128, w),
        LaneOp::SumSat(u) => cut(clamp_to(get_lane_as(a, w, i, u) + get_lane_as(b, w, i, u), w, u), w),
        LaneOp::Difference => cut(x as i128 - y as i128, w),
        LaneOp::DifferenceSat(u) => cut(clamp_to(get_lane_as(a, w, i, u) - get_lane_as(b, w, i, u), w, u), w),
        LaneOp::Product => {
            assert(0 <= x * y <= 0xFFFF_FFFF_FFFF_FFFF * 0xFFFF_FFFF_FFFF_FFFF) by (nonlinear_arith)
                requires
                    0 <= x <= 0xFFFF_FFFF_FFFF_FFFF,
                    0 <= y <= 0xFFFF_FFFF_FFFF_FFFF,
            ;
            ((x as u128 * y as u128) % (span_of(w) as u128)) as u64
        },
        LaneOp::Min(u) => if get_lane_as(a, w, i, u) <= get_lane_as(b, w, i, u) {
            cut(x as i128, w)
        } else {
            cut(y as i128, w)
        },
        LaneOp::Max(u) => if get_lane_as(a, w, i, u) >= get_lane_as(b, w, i, u) {
            cut(x as i128, w)
        } else {
            cut(y as i128, w)
        },
        LaneOp::Average => cut(((x as u128 + y as u128 + 1) / 2) as i128, w),
        _ => {
            proof {
                signed_product_bound(sx as int, sy as int);
            }
            cut(clamp_to(floor_quotient(sx * sy + 0x4000, 0x8000), w, false), w)
        },
    }
}

/// Lane `i` of an operation between lanes of different widths.
fn mixed_lane(op: LaneOp, w: usize, a: &[u8], b: &[u8], i: usize) -> (r: u64)
    requires
        match op {
            LaneOp::Extend(..) | LaneOp::ExtendedProduct(..) | LaneOp::Pairwise(_) => true,
            LaneOp::Narrow(_) | LaneOp::Dot | LaneOp::DotSat => true,
            _ => false,
        },
        gives(op, w as int),
        a@.len() == 16,
        b@.len() == 16,
        fits_lane(16, w as int, i as int),
        i < 16,
    ensures
        r == lane_result(op, w as int, a@, b@, 0, i as int) % span(w as int),
{
    match op {
        LaneOp::Extend(high, u) => {
            let k: usize = if high {
                i + count_of(w)
            } else {
                i
            };
            cut(get_lane_as(a, w / 2, k, u), w)
        },
        LaneOp::ExtendedProduct(high, u) => {
            let k: usize = if high {
                i + count_of(w)
            } else {
                i
            };
            let p: i128 = get_lane_as(a, w / 2, k, u);
            let q: i128 = get_lane_as(b, w / 2, k, u);
            proof {
                product_bound(p as int, q as int);
            }
            cut(p * q, w)
        },
        LaneOp::Pairwise(u) => cut(get_lane_as(a, w / 2, 2 * i, u) + get_lane_as(a, w / 2, 2 * i + 1, u), w),
        LaneOp::Narrow(u) => if i < count_of(2 * w) {
            cut(clamp_to(get_signed_lane(a, 2 * w, i), w, u), w)
        } else {
            cut(clamp_to(get_signed_lane(b, 2 * w, i - count_of(2 * w)), w, u), w)
        },
        LaneOp::Dot => cut(dot_of(a, b, w / 2, 2 * i), w),
        _ => cut(clamp_to(dot_of(a, b, w / 2, 2 * i), w, false), w),
    }
}

/// Lane `i` of an operation on floating-point lanes.
fn float_lane(op: LaneOp, w: usize, a: &[u8], b: &[u8], i: usize) -> (r: u64)
    requires
        match op {
            LaneOp::FloatRelation(_) | LaneOp::FloatAbs | LaneOp::FloatNeg | LaneOp::FloatMin | LaneOp::FloatMax => true,
            LaneOp::PseudoMin | LaneOp::PseudoMax => true,
            _ => false,
        },
        gives(op, w as int),
        a@.len() == 16,
        b@.len() == 16,
        fits_lane(16, w as int, i as int),
        i < 16,
        op == LaneOp::FloatMin || op == LaneOp::FloatMax ==> !is_nan(pattern_at(a@, w as int, i as int), w == 8)
            && !is_nan(pattern_at(b@, w as int, i as int), w == 8),
    ensures
        r == lane_result(op, w as int, a@, b@, 0, i as int) % span(w as int),
{
    let x: u64 = get_lane(a, w, i);
    let y: u64 = get_lane(b, w, i);
    let wide: bool = w == 8;
    match op {
        LaneOp::FloatRelation(k) => if compare_floats(k, x, y, wide) {
            cut(-1, w)
        } else {
            cut(0, w)
        },
        LaneOp::FloatAbs => cut(with_sign(x, wide, false) as i128, w),
        LaneOp::FloatNeg => cut(with_sign(x, wide, !is_negative(x, wide)) as i128, w),
        LaneOp::FloatMin => match min_of(x, y, wide) {
            Some(m) => cut(m as i128, w),
            None => 0,
        },
        LaneOp::FloatMax => match max_of(x, y, wide) {
            Some(m) => cut(m as i128, w),
            None => 0,
        },
        LaneOp::PseudoMin => if is_below(y, x, wide) {
            cut(y as i128, w)
        } else {
            cut(x as i128, w)
        },
        _ => if is_below(x, y, wide) {
            cut(y as i128, w)
        } else {
            cut(x as i128, w)
        },
    }
}

/// Lane `i` of a saturating truncation.
fn trunc_lane(wide: bool, unsigned: bool, a: &[u8], i: usize) -> (r: u64)
    requires
        a@.len() == 16,
        i < 4,
    ensures
        r == lane_result(LaneOp::SatTrunc(wide, unsigned), 4, a@, a@, 0, i as int) % span(4),
{
    let (low, high): (i128, i128) = if unsigned {
        (0, u32::MAX as i128)
    } else {
        (i32::MIN as i128, i32::MAX as i128)
    };
    if wide {
        if i < 2 {
            cut(saturate(get_lane(a, 8, i), true, low, high), 4)
        } else {
            cut(0, 4)
        }
    } else {
        cut(saturate(get_lane(a, 4, i), false, low, high), 4)
    }
}

/// Lane `i` of an operation on bytes.
fn byte_lane(op: LaneOp, a: &[u8], b: &[u8], i: usize) -> (r: u64)
    requires
        match op {
            LaneOp::Not | LaneOp::And | LaneOp::AndNot | LaneOp::Or | LaneOp::Xor | LaneOp::Swizzle => true,
            _ => false,
        },
        a@.len() == 16,
        b@.len() == 16,
        i < 16,
    ensures
        r == lane_result(op, 1, a@, b@, 0, i as int) % span(1),
{
    match op {
        LaneOp::Not => (!a[i]) as u64,
        LaneOp::And => (a[i] & b[i]) as u64,
        LaneOp::AndNot => (a[i] & !b[i]) as u64,
        LaneOp::Or => (a[i] | b[i]) as u64,
        LaneOp::Xor => (a[i] ^ b[i]) as u64,
        _ => if b[i] < 16 {
            a[b[i] as usize] as u64
        } else {
            0
        },
    }
}

/// Lane `i` of an operation.
fn compute_lane(op: LaneOp, w: usize, a: &[u8], b: &[u8], s: u32, i: usize) -> (r: u64)
    requires
        gives(op, w as int),
        a@.len() == 16,
        b@.len() == 16,
        fits_lane(16, w as int, i as int),
        i < 16,
        s < 64,
        op == LaneOp::FloatMin || op == LaneOp::FloatMax ==> !is_nan(pattern_at(a@, w as int, i as int), w == 8)
            && !is_nan(pattern_at(b@, w as int, i as int), w == 8),
    ensures
        r == lane_result(op, w as int, a@, b@, s, i as int) % span(w as int),
{
    match op {
        LaneOp::Shl | LaneOp::ShrSigned | LaneOp::ShrUnsigned => shift_lane(op, w, a, s, i),
        LaneOp::Extend(..) | LaneOp::ExtendedProduct(..) | LaneOp::Pairwise(_) => mixed_lane(op, w, a, b, i),
        LaneOp::Narrow(_) | LaneOp::Dot | LaneOp::DotSat => mixed_lane(op, w, a, b, i),
        LaneOp::FloatRelation(_) | LaneOp::FloatAbs | LaneOp::FloatNeg => float_lane(op, w, a, b, i),
        LaneOp::FloatMin | LaneOp::FloatMax => float_lane(op, w, a, b, i),
        LaneOp::PseudoMin | LaneOp::PseudoMax => float_lane(op, w, a, b, i),
        LaneOp::SatTrunc(wide, unsigned) => trunc_lane(wide, unsigned, a, i),
        LaneOp::Not | LaneOp::And | LaneOp::AndNot | LaneOp::Or | LaneOp::Xor | LaneOp::Swizzle => byte_lane(
            op,
            a,
            b,
            i,
        ),
        _ => int_lane(op, w, a, b, i),
    }
}

/// Byte `k` of a number.
fn byte_of(x: u64, k: usize) -> (r: u8)
    requires
        k < 8,
    ensures
        r == u64_bytes(x)[k as int],
{
    let lo: u32 = (x % 0x1_0000_0000) as u32;
    let hi: u32 = (x / 0x1_0000_0000) as u32;
    let v: u32 = if k < 4 {
        lo
    } else {
        hi
    };
    match k % 4 {
        0 => (v % 0x100) as u8,
        1 => ((v / 0x100) % 0x100) as u8,
        2 => ((v / 0x1_0000) % 0x100) as u8,
        _ => (v / 0x100_0000) as u8,
    }
}

/// The vector whose lanes hold these numbers.
pub fn pack(w: usize, nums: &Vec<u64>) -> (r: V128)
    requires
        is_lane_width(w as int),
        nums@.len() == count(w as int),
    ensures
        r == v128_of(Seq::new(16, |j: int| u64_bytes(nums@[j / (w as int)])[j % (w as int)])),
{
    let mut b = [0u8;16];
    let mut j: usize = 0;
    while j < 16
        invariant
            j <= 16,
            is_lane_width(w as int),
            nums@.len() == count(w as int),
            forall|k: int| 0 <= k < j ==> #[trigger] b@[k] == u64_bytes(nums@[k / (w as int)])[k % (w as int)],
        decreases 16 - j,
    {
        proof {
            lane_of_byte(j as int, w as int);
        }
        b[j] = byte_of(nums[j / w], j % w);
        j = j + 1;
    }
    let v = V128(b);
    proof {
        let want = Seq::new(16, |k: int| u64_bytes(nums@[k / (w as int)])[k % (w as int)]);
        assert(v.0@ =~= want);
        v128_from_own_bytes(v);
    }
    v
}

proof fn pack_is_packed(w: int, nums: Seq<u64>, ints: Seq<int>)
    requires
        is_lane_width(w),
        nums.len() == count(w),
        ints.len() == nums.len(),
        forall|i: int| 0 <= i < nums.len() ==> #[trigger] nums[i] == ints[i] % span(w),
    ensures
        v128_of(Seq::new(16, |j: int| u64_bytes(nums[j / w])[j % w])) == packed(w, ints),
{
    assert forall|j: int| 0 <= j < 16 implies #[trigger] packed_byte(w, ints, j) == u64_bytes(nums[j / w])[j
        % w] by {
        lane_of_byte(j, w);
        assert(nums[j / w] == ints[j / w] % span(w));
    }
    assert(Seq::new(16, |j: int| u64_bytes(nums[j / w])[j % w]) =~= Seq::new(
        16,
        |j: int| packed_byte(w, ints, j),
    ));
}

/// The vector whose lanes hold these numbers, cut to the lane width; those given must
/// be cut.
pub(crate) fn pack_cut(w: usize, nums: &Vec<u64>, Ghost(ints): Ghost<Seq<int>>) -> (r: V128)
    requires
        is_lane_width(w as int),
        nums@.len() == count(w as int),
        ints.len() == nums@.len(),
        forall|i: int| 0 <= i < nums@.len() ==> #[trigger] nums@[i] == ints[i] % span(w as int),
    ensures
        r == packed(w as int, ints),
{
    proof {
        pack_is_packed(w as int, nums@, ints);
    }
    pack(w, nums)
}

/// The result of an operation.
pub fn map_lanes(op: LaneOp, w: usize, a: &V128, b: &V128, s: u32) -> (r: V128)
    requires
        gives(op, w as int),
        s < 64,
        op == LaneOp::FloatMin || op == LaneOp::FloatMax ==> !some_nan(*a, *b, w as int),
    ensures
        r == mapped(op, w as int, *a, *b, s),
{
    let n: usize = count_of(w);
    let mut nums: Vec<u64> = Vec::new();
    let mut i: usize = 0;
    while i < n
        invariant
            i <= n,
            n == count(w as int),
            gives(op, w as int),
            s < 64,
            op == LaneOp::FloatMin || op == LaneOp::FloatMax ==> !some_nan(*a, *b, w as int),
            nums@.len() == i,
            forall|k: int|
                0 <= k < i ==> #[trigger] nums@[k] == lane_result(op, w as int, a.0@, b.0@, s, k) % span(w as int),
        decreases n - i,
    {
        proof {
            if op == LaneOp::FloatMin || op == LaneOp::FloatMax {
                assert(!nan_at(*a, *b, w as int, i as int));
            }
        }
        let x: u64 = compute_lane(op, w, a.0.as_slice(), b.0.as_slice(), s, i);
        nums.push(x);
        i = i + 1;
    }
    pack_cut(
        w,
        &nums,
        Ghost(Seq::new(count(w as int) as nat, |k: int| lane_result(op, w as int, a.0@, b.0@, s, k))),
    )
}

/// Whether every lane is other than zero.
pub fn is_all_true(v: &V128, w: usize) -> (r: bool)
    requires
        is_lane_width(w as int),
    ensures
        r == all_true(*v, w as int),
{
    let n: usize = count_of(w);
    let mut i: usize = 0;
    while i < n
        invariant
            i <= n,
            n == count(w as int),
            is_lane_width(w as int),
            forall|k: int| 0 <= k < i ==> #[trigger] lane(v.0@, w as int, k) != 0,
        decreases n - i,
    {
        if get_lane(v.0.as_slice(), w, i) == 0 {
            assert(lane(v.0@, w as int, i as int) == 0);
            return false;
        }
        i = i + 1;
    }
    true
}

/// The number whose bits are the signs of the lanes.
pub fn mask_of(v: &V128, w: usize) -> (r: u32)
    requires
        is_lane_width(w as int),
    ensures
        r == sign_mask(*v, w as int, count(w as int) as nat),
        r <= 0xFFFF,
{
    let n: usize = count_of(w);
    let mut r: u32 = 0;
    let mut p: u32 = 1;
    let mut i: usize = 0;
    proof {
        lemma2_to64();
    }
    while i < n
        invariant
            i <= n <= 16,
            n == count(w as int),
            is_lane_width(w as int),
            p == pow2(i as nat),
            p <= 0x1_0000,
            r == sign_mask(*v, w as int, i as nat),
            r < p,
        decreases n - i,
    {
        proof {
            lemma2_to64();
            vstd::arithmetic::power2::lemma_pow2_unfold((i + 1) as nat);
            if i < 15 {
                lemma_pow2_strictly_increases(i as nat, 15);
            }
        }
        if get_signed_lane(v.0.as_slice(), w, i) < 0 {
            r = r + p;
        }
        p = p * 2;
        i = i + 1;
    }
    r
}

/// Whether some lane of one of two vectors is a NaN.
pub fn has_nan(a: &V128, b: &V128, w: usize) -> (r: bool)
    requires
        w == 4 || w == 8,
    ensures
        r == some_nan(*a, *b, w as int),
{
    let n: usize = count_of(w);
    let mut i: usize = 0;
    while i < n
        invariant
            i <= n,
            n == count(w as int),
            w == 4 || w == 8,
            forall|k: int| 0 <= k < i ==> !#[trigger] nan_at(*a, *b, w as int, k),
        decreases n - i,
    {
        let x: u64 = get_lane(a.0.as_slice(), w, i);
        let y: u64 = get_lane(b.0.as_slice(), w, i);
        if not_a_number(x, w == 8) || not_a_number(y, w == 8) {
            assert(nan_at(*a, *b, w as int, i as int));
            return true;
        }
        i = i + 1;
    }
    false
}

/// For each bit, that of the first operand where the third has a one, else that of the
/// second.
pub fn select_bits(a: &V128, b: &V128, c: &V128) -> (r: V128)
    ensures
        r == bits_selected(*a, *b, *c),
{
    let mut x = [0u8;16];
    let mut i: usize = 0;
    while i < 16
        invariant
            i <= 16,
            forall|k: int| 0 <= k < i ==> #[trigger] x@[k] == (a.0@[k] & c.0@[k]) | (b.0@[k] & !c.0@[k]),
        decreases 16 - i,
    {
        x[i] = (a.0[i] & c.0[i]) | (b.0[i] & !c.0[i]);
        i = i + 1;
    }
    let v = V128(x);
    proof {
        assert(v.0@ =~= Seq::new(16, |k: int| (a.0@[k] & c.0@[k]) | (b.0@[k] & !c.0@[k])));
        v128_from_own_bytes(v);
    }
    v
}

/// The sums of the products of four bytes and of a number, for each lane.
pub fn add_dots(a: &V128, b: &V128, c: &V128) -> (r: V128)
    ensures
        r == dots_added(*a, *b, *c),
{
    let mut nums: Vec<u64> = Vec::new();
    let mut i: usize = 0;
    while i < 4
        invariant
            i <= 4,
            nums@.len() == i,
            forall|k: int| 0 <= k < i ==> #[trigger] nums@[k] == dot_sum(*a, *b, *c, k) % span(4),
        decreases 4 - i,
    {
        let d: i128 = dot_of(a.0.as_slice(), b.0.as_slice(), 1, 4 * i);
        let e: i128 = dot_of(a.0.as_slice(), b.0.as_slice(), 1, 4 * i + 2);
        let x: i128 = get_signed_lane(c.0.as_slice(), 4, i);
        nums.push(cut(d + e + x, 4));
        i = i + 1;
    }
    pack_cut(4, &nums, Ghost(Seq::new(4, |k: int| dot_sum(*a, *b, *c, k))))
}

} // verus!
