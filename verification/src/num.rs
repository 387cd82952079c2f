//! Integer operations shared by the constant evaluator and the interpreter.

use vstd::prelude::*;

verus! {

/// The low 31 bits of `v` as an unsigned number.
pub open spec fn i31_unsigned(v: i32) -> i32 {
    (v as int % 0x8000_0000) as i32
}

/// The low 31 bits of `v` as a signed number.
pub open spec fn i31_signed(v: i32) -> i32 {
    let u = v as int % 0x8000_0000;
    if u >= 0x4000_0000 {
        (u - 0x8000_0000) as i32
    } else {
        u as i32
    }
}

/// The low 31 bits of `v` as an unsigned number.
pub fn i31_get_u(v: i32) -> (r: i32)
    ensures
        r == i31_unsigned(v),
{
    if v < 0 {
        v + 0x7FFF_FFFF + 1
    } else {
        v
    }
}

/// The low 31 bits of `v` as a signed number.
pub fn i31_get_s(v: i32) -> (r: i32)
    ensures
        r == i31_signed(v),
{
    let u: i32 = i31_get_u(v);
    if u >= 0x4000_0000 {
        u - 0x7FFF_FFFF - 1
    } else {
        u
    }
}

/// An unsigned 31-bit read is never negative, and the signed read of the same
/// reference differs from it by nothing or by two to the 31.
pub proof fn i31_reads_agree(v: i32)
    ensures
        0 <= i31_unsigned(v),
        i31_signed(v) == i31_unsigned(v) || i31_signed(v) == i31_unsigned(v) - 0x8000_0000,
        i31_signed(i31_unsigned(v)) == i31_signed(v),
        i31_unsigned(i31_signed(v)) == i31_unsigned(v),
{
}

} // verus!
