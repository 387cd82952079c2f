//! IEEE 754 numbers as bit patterns: order, sign, selection and truncation to
//! integers. A pattern is single precision, or, where `wide` is set, double precision.

use vstd::prelude::*;
use vstd::arithmetic::power2::{
    lemma2_to64, lemma2_to64_rest, lemma_pow2_strictly_increases, lemma_pow2_unfold, pow2,
};
use crate::types::WasmError;

verus! {

/// The weight of the sign bit.
pub open spec fn sign_bit(wide: bool) -> u64 {
    if wide {
        0x8000_0000_0000_0000
    } else {
        0x8000_0000
    }
}

/// The pattern of positive infinity.
pub open spec fn infinity(wide: bool) -> u64 {
    if wide {
        0x7FF0_0000_0000_0000
    } else {
        0x7F80_0000
    }
}

/// The weight of the bit that makes a NaN quiet.
pub open spec fn quiet_bit(wide: bool) -> u64 {
    if wide {
        0x0008_0000_0000_0000
    } else {
        0x0040_0000
    }
}

/// Whether a pattern fits the precision.
pub open spec fn is_pattern(x: u64, wide: bool) -> bool {
    wide || x <= 0xFFFF_FFFF
}

/// Whether the sign is negative.
pub open spec fn negative(x: u64, wide: bool) -> bool {
    x >= sign_bit(wide)
}

/// The pattern without its sign.
pub open spec fn magnitude(x: u64, wide: bool) -> u64 {
    if negative(x, wide) {
        (x - sign_bit(wide)) as u64
    } else {
        x
    }
}

/// Whether a pattern is no number.
pub open spec fn is_nan(x: u64, wide: bool) -> bool {
    magnitude(x, wide) > infinity(wide)
}

/// A number that orders patterns as the numbers they stand for are ordered. Both zeros
/// have the same rank.
pub open spec fn rank(x: u64, wide: bool) -> int {
    if negative(x, wide) {
        -magnitude(x, wide)
    } else {
        magnitude(x, wide) as int
    }
}

/// Whether one number is below another.
pub open spec fn below(a: u64, b: u64, wide: bool) -> bool {
    !is_nan(a, wide) && !is_nan(b, wide) && rank(a, wide) < rank(b, wide)
}

/// Whether two numbers are equal.
pub open spec fn equal(a: u64, b: u64, wide: bool) -> bool {
    !is_nan(a, wide) && !is_nan(b, wide) && rank(a, wide) == rank(b, wide)
}

/// The pattern with this sign.
pub open spec fn signed(x: u64, wide: bool, minus: bool) -> u64 {
    if minus {
        (magnitude(x, wide) + sign_bit(wide)) as u64
    } else {
        magnitude(x, wide)
    }
}

/// The quiet form of a NaN.
pub open spec fn quieted(x: u64, wide: bool) -> u64 {
    if (x / quiet_bit(wide)) % 2 == 1 {
        x
    } else {
        (x + quiet_bit(wide)) as u64
    }
}

/// The smaller of two numbers, minus zero being smaller than zero; nothing where one
/// is a NaN.
pub open spec fn minimum(a: u64, b: u64, wide: bool) -> Option<u64> {
    if below(a, b, wide) {
        Some(a)
    } else if below(b, a, wide) {
        Some(b)
    } else if equal(a, b, wide) {
        if negative(a, wide) && !negative(b, wide) {
            Some(a)
        } else {
            Some(b)
        }
    } else {
        None
    }
}

/// The larger of two numbers, zero being larger than minus zero; nothing where one is
/// a NaN.
pub open spec fn maximum(a: u64, b: u64, wide: bool) -> Option<u64> {
    if below(b, a, wide) {
        Some(a)
    } else if below(a, b, wide) {
        Some(b)
    } else if equal(a, b, wide) {
        if !negative(a, wide) && negative(b, wide) {
            Some(a)
        } else {
            Some(b)
        }
    } else {
        None
    }
}

// ---------------------------------------------------------------------------
// Truncation

/// The weight of the lowest exponent bit.
pub open spec fn exponent_unit(wide: bool) -> u64 {
    if wide {
        0x0010_0000_0000_0000
    } else {
        0x0080_0000
    }
}

/// The significand as an integer.
pub open spec fn significand(x: u64, wide: bool) -> u64 {
    let m = magnitude(x, wide);
    if m / exponent_unit(wide) == 0 {
        m
    } else {
        (m % exponent_unit(wide) + exponent_unit(wide)) as u64
    }
}

/// The power of two that the significand is multiplied by.
pub open spec fn scale(x: u64, wide: bool) -> int {
    let e = magnitude(x, wide) / exponent_unit(wide);
    let bias: int = if wide {
        1075
    } else {
        150
    };
    if e == 0 {
        1 - bias
    } else {
        e - bias
    }
}

/// The integer part of the absolute value of a finite number. That of an infinity
/// lies beyond every integer type.
pub open spec fn integer_magnitude(x: u64, wide: bool) -> int {
    if scale(x, wide) >= 0 {
        significand(x, wide) * pow2(scale(x, wide) as nat)
    } else {
        significand(x, wide) as int / pow2((-scale(x, wide)) as nat) as int
    }
}

/// The integer part of a number, rounded toward zero.
pub open spec fn integer_part(x: u64, wide: bool) -> int {
    if negative(x, wide) {
        -integer_magnitude(x, wide)
    } else {
        integer_magnitude(x, wide)
    }
}

/// The integer part of a number that must lie within bounds.
pub open spec fn truncated(x: u64, wide: bool, low: int, high: int) -> Result<int, WasmError> {
    if is_nan(x, wide) {
        Err(WasmError::InvalidConversionToInteger)
    } else if low <= integer_part(x, wide) <= high {
        Ok(integer_part(x, wide))
    } else {
        Err(WasmError::IntegerOverflow)
    }
}

/// The integer nearest to the integer part of a number within bounds; zero for a NaN.
pub open spec fn saturated(x: u64, wide: bool, low: int, high: int) -> int {
    if is_nan(x, wide) {
        0
    } else if integer_part(x, wide) < low {
        low
    } else if integer_part(x, wide) > high {
        high
    } else {
        integer_part(x, wide)
    }
}

// ---------------------------------------------------------------------------
// Laws

/// Of two numbers, exactly one holds: the first is below the second, they are equal,
/// or the second is below the first.
pub proof fn order_is_total(a: u64, b: u64, wide: bool)
    requires
        !is_nan(a, wide),
        !is_nan(b, wide),
    ensures
        below(a, b, wide) || equal(a, b, wide) || below(b, a, wide),
        !(below(a, b, wide) && below(b, a, wide)),
        !(below(a, b, wide) && equal(a, b, wide)),
{
}

/// The order of numbers is transitive.
pub proof fn order_is_transitive(a: u64, b: u64, c: u64, wide: bool)
    requires
        below(a, b, wide),
        below(b, c, wide),
    ensures
        below(a, c, wide),
{
}

/// A NaN is neither below, above nor equal to anything, itself included.
pub proof fn nan_is_unordered(a: u64, b: u64, wide: bool)
    requires
        is_nan(a, wide),
    ensures
        !below(a, b, wide),
        !below(b, a, wide),
        !equal(a, b, wide),
        !equal(a, a, wide),
{
}

/// Changing the sign twice gives the number back, and reverses the order once.
pub proof fn negation_reverses(a: u64, b: u64, wide: bool)
    requires
        is_pattern(a, wide),
        is_pattern(b, wide),
    ensures
        ({
            let na = signed(a, wide, !negative(a, wide));
            let nb = signed(b, wide, !negative(b, wide));
            &&& signed(na, wide, !negative(na, wide)) == a
            &&& below(a, b, wide) == below(nb, na, wide)
        }),
{
}

/// The minimum and maximum of two numbers are the two numbers.
pub proof fn extremes_are_operands(a: u64, b: u64, wide: bool)
    ensures
        minimum(a, b, wide) is None <==> is_nan(a, wide) || is_nan(b, wide),
        maximum(a, b, wide) is None <==> is_nan(a, wide) || is_nan(b, wide),
        minimum(a, b, wide) matches Some(m) ==> (m == a || m == b) && !below(a, m, wide) && !below(b, m, wide),
        maximum(a, b, wide) matches Some(m) ==> (m == a || m == b) && !below(m, a, wide) && !below(m, b, wide),
{
}

/// Where truncation does not trap, it agrees with saturating truncation, which stays
/// within the bounds.
pub proof fn saturation_extends_truncation(x: u64, wide: bool, low: int, high: int)
    requires
        low <= 0 <= high,
    ensures
        truncated(x, wide, low, high) matches Ok(v) ==> saturated(x, wide, low, high) == v,
        low <= saturated(x, wide, low, high) <= high,
{
}

// ---------------------------------------------------------------------------
// Execution

/// Whether the sign is negative.
pub fn is_negative(x: u64, wide: bool) -> (r: bool)
    ensures
        r == negative(x, wide),
{
    if wide {
        x >= 0x8000_0000_0000_0000
    } else {
        x >= 0x8000_0000
    }
}

/// The pattern without its sign.
pub fn without_sign(x: u64, wide: bool) -> (r: u64)
    ensures
        r == magnitude(x, wide),
{
    if !is_negative(x, wide) {
        x
    } else if wide {
        x - 0x8000_0000_0000_0000
    } else {
        x - 0x8000_0000
    }
}

/// Whether a pattern is no number.
pub fn not_a_number(x: u64, wide: bool) -> (r: bool)
    ensures
        r == is_nan(x, wide),
{
    if wide {
        without_sign(x, wide) > 0x7FF0_0000_0000_0000
    } else {
        without_sign(x, wide) > 0x7F80_0000
    }
}

fn rank_of(x: u64, wide: bool) -> (r: i128)
    ensures
        r == rank(x, wide),
{
    let m: u64 = without_sign(x, wide);
    if is_negative(x, wide) {
        -(m as i128)
    } else {
        m as i128
    }
}

/// Whether one number is below another.
pub fn is_below(a: u64, b: u64, wide: bool) -> (r: bool)
    ensures
        r == below(a, b, wide),
{
    !not_a_number(a, wide) && !not_a_number(b, wide) && rank_of(a, wide) < rank_of(b, wide)
}

/// Whether two numbers are equal.
pub fn is_equal(a: u64, b: u64, wide: bool) -> (r: bool)
    ensures
        r == equal(a, b, wide),
{
    !not_a_number(a, wide) && !not_a_number(b, wide) && rank_of(a, wide) == rank_of(b, wide)
}

/// The pattern with this sign.
pub fn with_sign(x: u64, wide: bool, minus: bool) -> (r: u64)
    requires
        is_pattern(x, wide),
    ensures
        r == signed(x, wide, minus),
        is_pattern(r, wide),
{
    let m: u64 = without_sign(x, wide);
    if !minus {
        m
    } else if wide {
        m + 0x8000_0000_0000_0000
    } else {
        m + 0x8000_0000
    }
}

/// The quiet form of a NaN.
pub fn quiet(x: u64, wide: bool) -> (r: u64)
    requires
        is_pattern(x, wide),
    ensures
        r == quieted(x, wide),
        is_pattern(r, wide),
{
    if wide {
        if (x / 0x0008_0000_0000_0000) % 2 == 1 {
            x
        } else {
            x + 0x0008_0000_0000_0000
        }
    } else {
        if (x / 0x0040_0000) % 2 == 1 {
            x
        } else {
            x + 0x0040_0000
        }
    }
}

/// The smaller of two numbers.
pub fn min_of(a: u64, b: u64, wide: bool) -> (r: Option<u64>)
    ensures
        r == minimum(a, b, wide),
{
    if is_below(a, b, wide) {
        Some(a)
    } else if is_below(b, a, wide) {
        Some(b)
    } else if is_equal(a, b, wide) {
        if is_negative(a, wide) && !is_negative(b, wide) {
            Some(a)
        } else {
            Some(b)
        }
    } else {
        None
    }
}

/// The larger of two numbers.
pub fn max_of(a: u64, b: u64, wide: bool) -> (r: Option<u64>)
    ensures
        r == maximum(a, b, wide),
{
    if is_below(b, a, wide) {
        Some(a)
    } else if is_below(a, b, wide) {
        Some(b)
    } else if is_equal(a, b, wide) {
        if !is_negative(a, wide) && is_negative(b, wide) {
            Some(a)
        } else {
            Some(b)
        }
    } else {
        None
    }
}

/// Two to the power of `n`.
pub fn two_to(n: u32) -> (r: u128)
    requires
        n <= 64,
    ensures
        r == pow2(n as nat),
        1 <= r <= 0x1_0000_0000_0000_0000,
{
    let mut r: u128 = 1;
    let mut i: u32 = 0;
    proof {
        lemma2_to64();
    }
    while i < n
        invariant
            i <= n <= 64,
            r == pow2(i as nat),
            1 <= r <= 0x1_0000_0000_0000_0000,
        decreases n - i,
    {
        proof {
            lemma_pow2_unfold((i + 1) as nat);
            lemma2_to64();
            lemma2_to64_rest();
            if i < 63 {
                lemma_pow2_strictly_increases(i as nat, 63);
            }
        }
        r = r * 2;
        i = i + 1;
    }
    r
}

/// The integer part of a number; beyond 80 bits only its sign and that it is large.
fn integer_of(x: u64, wide: bool) -> (r: i128)
    requires
        is_pattern(x, wide),
    ensures
        r == integer_part(x, wide) || (r == 0x1_0000_0000_0000_0000_0000 && integer_part(x, wide)
            >= 0x1_0000_0000_0000_0000_0000) || (r == -0x1_0000_0000_0000_0000_0000 && integer_part(
            x,
            wide,
        ) <= -0x1_0000_0000_0000_0000_0000),
{
    let m: u64 = without_sign(x, wide);
    let unit: u64 = if wide {
        0x0010_0000_0000_0000
    } else {
        0x0080_0000
    };
    let bias: i32 = if wide {
        1075
    } else {
        150
    };
    let e: u64 = m / unit;
    assert(e <= 0x7FF);
    let s: u64 = if e == 0 {
        m
    } else {
        m % unit + unit
    };
    let k: i32 = if e == 0 {
        1 - bias
    } else {
        e as i32 - bias
    };
    assert(s == significand(x, wide) && k == scale(x, wide));
    assert(s < 0x20_0000_0000_0000);
    let v: i128 = if k > 64 {
        proof {
            large_part(s, k as nat);
        }
        0x1_0000_0000_0000_0000_0000
    } else if k >= 0 {
        let p: u128 = two_to(k as u32);
        assert(0 <= s * p <= 0x20_0000_0000_0000 * 0x1_0000_0000_0000_0000) by (nonlinear_arith)
            requires
                0 <= s <= 0x20_0000_0000_0000,
                0 <= p <= 0x1_0000_0000_0000_0000,
        ;
        (s as u128 * p) as i128
    } else if k < -64 {
        proof {
            small_part(s, (-k) as nat);
        }
        0
    } else {
        let p: u128 = two_to((-k) as u32);
        (s as u128 / p) as i128
    };
    if is_negative(x, wide) {
        -v
    } else {
        v
    }
}

proof fn large_part(s: u64, k: nat)
    requires
        k > 64,
        s >= 0x0080_0000,
    ensures
        s * pow2(k) >= 0x1_0000_0000_0000_0000_0000,
{
    lemma2_to64();
    lemma2_to64_rest();
    assert(pow2(65) == 2 * pow2(64)) by {
        lemma_pow2_unfold(65);
    }
    assert(pow2(k) >= pow2(65)) by {
        if k > 65 {
            lemma_pow2_strictly_increases(65, k);
        }
    }
    assert(s * pow2(k) >= 0x0080_0000 * 0x2_0000_0000_0000_0000) by (nonlinear_arith)
        requires
            s >= 0x0080_0000,
            pow2(k) >= 0x2_0000_0000_0000_0000,
    ;
}

proof fn small_part(s: u64, k: nat)
    requires
        k > 64,
        s < 0x20_0000_0000_0000,
    ensures
        s as int / pow2(k) as int == 0,
{
    lemma2_to64();
    lemma2_to64_rest();
    lemma_pow2_strictly_increases(64, k);
    assert(s as int / pow2(k) as int == 0) by (nonlinear_arith)
        requires
            0 <= s < pow2(k),
    ;
}

/// The integer part of a number that must lie within bounds.
pub fn truncate(x: u64, wide: bool, low: i128, high: i128) -> (r: Result<i128, WasmError>)
    requires
        is_pattern(x, wide),
        -0x8000_0000_0000_0000 <= low <= 0 <= high <= 0xFFFF_FFFF_FFFF_FFFF,
    ensures
        match r {
            Ok(v) => truncated(x, wide, low as int, high as int) == Ok::<int, WasmError>(v as int),
            Err(e) => truncated(x, wide, low as int, high as int) == Err::<int, WasmError>(e),
        },
{
    if not_a_number(x, wide) {
        return Err(WasmError::InvalidConversionToInteger);
    }
    let v: i128 = integer_of(x, wide);
    if low <= v && v <= high {
        Ok(v)
    } else {
        Err(WasmError::IntegerOverflow)
    }
}

/// The integer nearest to the integer part of a number within bounds.
pub fn saturate(x: u64, wide: bool, low: i128, high: i128) -> (r: i128)
    requires
        is_pattern(x, wide),
        -0x8000_0000_0000_0000 <= low <= 0 <= high <= 0xFFFF_FFFF_FFFF_FFFF,
    ensures
        r == saturated(x, wide, low as int, high as int),
{
    if not_a_number(x, wide) {
        return 0;
    }
    let v: i128 = integer_of(x, wide);
    if v < low {
        low
    } else if v > high {
        high
    } else {
        v
    }
}

} // verus!
