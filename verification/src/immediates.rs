//! Skipping the immediates of instructions that are not executed.

use vstd::prelude::*;
use crate::reader::{
    byte_at, decode_leb128_i32, decode_leb128_u32, group_leb_moves, leb_i32, leb_u32, read_byte, Parsed,
};
use crate::types::WasmError;

verus! {

broadcast use group_leb_moves;

/// The immediates that follow an opcode.
#[derive(Debug, Clone, Copy, PartialEq, Eq, Structural)]
pub enum Shape {
    /// None.
    Empty,
    /// One unsigned index.
    Index,
    /// Two unsigned indices.
    TwoIndices,
    /// A heap type.
    Heap,
    /// Flags, a label and two heap types.
    Cast,
}

/// Forgets the value that was read.
pub open spec fn skipped<T>(r: Parsed<T>) -> Parsed<()> {
    match r.0 {
        Ok(_) => (Ok(()), r.1),
        Err(e) => (Err(e), r.1),
    }
}

/// Skips `n` bytes, all of which must be there.
pub open spec fn fixed(s: Seq<u8>, p: int, n: int) -> Parsed<()> {
    if p + n > s.len() {
        (Err(WasmError::UnexpectedEnd), p)
    } else {
        (Ok(()), p + n)
    }
}

/// Skips two unsigned indices.
pub open spec fn two_indices(s: Seq<u8>, p: int) -> Parsed<()> {
    let a = leb_u32(s, p);
    match a.0 {
        Err(e) => (Err(e), a.1),
        Ok(_) => skipped(leb_u32(s, a.1)),
    }
}

/// Skips the flags, label and heap types of a branch on a cast.
pub open spec fn cast_immediates(s: Seq<u8>, p: int) -> Parsed<()> {
    let f = byte_at(s, p);
    match f.0 {
        Err(e) => (Err(e), f.1),
        Ok(_) => {
            let l = leb_u32(s, f.1);
            match l.0 {
                Err(e) => (Err(e), l.1),
                Ok(_) => {
                    let h = leb_i32(s, l.1);
                    match h.0 {
                        Err(e) => (Err(e), h.1),
                        Ok(_) => skipped(leb_i32(s, h.1)),
                    }
                },
            }
        },
    }
}

/// Skips immediates of a shape.
pub open spec fn shape_at(s: Seq<u8>, p: int, shape: Shape) -> Parsed<()> {
    match shape {
        Shape::Empty => (Ok(()), p),
        Shape::Index => skipped(leb_u32(s, p)),
        Shape::TwoIndices => two_indices(s, p),
        Shape::Heap => skipped(leb_i32(s, p)),
        Shape::Cast => cast_immediates(s, p),
    }
}

/// The shape of the immediates of an instruction with the prefix 0xFB.
pub open spec fn gc_shape(sub: u32) -> Shape {
    if sub <= 1 || sub == 6 || sub == 7 || 11 <= sub <= 14 || sub == 16 {
        Shape::Index
    } else if 2 <= sub <= 5 || 8 <= sub <= 10 || 17 <= sub <= 19 {
        Shape::TwoIndices
    } else if 20 <= sub <= 23 {
        Shape::Heap
    } else if sub == 24 || sub == 25 {
        Shape::Cast
    } else {
        Shape::Empty
    }
}

/// Skipping moves forward and stays within the bytes.
pub broadcast proof fn shape_moves(s: Seq<u8>, p: int, shape: Shape)
    requires
        0 <= p <= s.len(),
    ensures
        p <= (#[trigger] shape_at(s, p, shape)).1 <= s.len(),
{
}

/// Skips `n` bytes, all of which must be there.
pub fn skip_fixed(bytes: &[u8], pos: &mut usize, n: usize) -> (r: Result<(), WasmError>)
    requires
        *old(pos) <= bytes@.len(),
    ensures
        (r, *final(pos) as int) == fixed(bytes@, *old(pos) as int, n as int),
{
    if n > bytes.len() - *pos {
        return Err(WasmError::UnexpectedEnd);
    }
    *pos = *pos + n;
    Ok(())
}

/// Skips immediates of a shape.
pub fn skip_shape(bytes: &[u8], pos: &mut usize, shape: Shape) -> (r: Result<(), WasmError>)
    ensures
        (r, *final(pos) as int) == shape_at(bytes@, *old(pos) as int, shape),
{
    match shape {
        Shape::Empty => {},
        Shape::Index => {
            decode_leb128_u32(bytes, pos)?;
        },
        Shape::TwoIndices => {
            decode_leb128_u32(bytes, pos)?;
            decode_leb128_u32(bytes, pos)?;
        },
        Shape::Heap => {
            decode_leb128_i32(bytes, pos)?;
        },
        Shape::Cast => {
            read_byte(bytes, pos)?;
            decode_leb128_u32(bytes, pos)?;
            decode_leb128_i32(bytes, pos)?;
            decode_leb128_i32(bytes, pos)?;
        },
    }
    Ok(())
}

/// The shape of the immediates of an instruction with the prefix 0xFB.
pub fn shape_of_gc(sub: u32) -> (r: Shape)
    ensures
        r == gc_shape(sub),
{
    match sub {
        0 | 1 | 6 | 7 | 11 | 12 | 13 | 14 | 16 => Shape::Index,
        2 | 3 | 4 | 5 | 8 | 9 | 10 | 17 | 18 | 19 => Shape::TwoIndices,
        20 | 21 | 22 | 23 => Shape::Heap,
        24 | 25 => Shape::Cast,
        _ => Shape::Empty,
    }
}

} // verus!
