//! Finding the end of a block without executing it.

use vstd::prelude::*;
use crate::decode_types::{skip_indices, skip_indices_moves, skip_u32s};
use crate::immediates::{cast_immediates, skip_shape, skipped, two_indices, Shape};
use crate::machine::{LegacyCatch, CODE_MARGIN, MAX_LEGACY_CATCHES};
use crate::reader::{
    byte_at, decode_leb128_i32, decode_leb128_i64, decode_leb128_u32, group_leb_moves, leb_i32, leb_i64, leb_u32,
    read_byte, Parsed,
};
use crate::types::WasmError;

verus! {

broadcast use group_leb_moves;

/// What an instruction means for the nesting of blocks.
#[derive(Debug, Clone, Copy, PartialEq, Eq, Structural)]
pub enum Mark {
    /// Nothing.
    Plain,
    /// Opens a block.
    Open,
    /// Separates the arms of a conditional.
    Else,
    /// Closes a block.
    Close,
    /// Starts the handler of a tag.
    Catch(u32),
    /// Starts the handler of every tag.
    CatchAll,
    /// Closes a block and hands exceptions to a label.
    Delegate(u32),
}

/// The immediates that follow an opcode.
#[derive(Debug, Clone, Copy, PartialEq, Eq, Structural)]
pub enum Immediate {
    Empty,
    Index,
    TwoIndices,
    /// A signed 32-bit integer.
    Signed,
    /// A signed 64-bit integer.
    SignedWide,
    /// Bytes that are passed over whether or not they are there.
    Over(usize),
    /// Flags, a memory index where the flags announce one, and an offset.
    Memarg,
    /// The same, and a lane that is passed over.
    MemargLane,
    /// A list of labels and a default label.
    Labels,
    /// A list of types.
    Types,
    /// Flags, a label and two heap types.
    Cast,
}

/// A block type. A reference type is followed by its heap type.
pub open spec fn block_type_at(s: Seq<u8>, p: int) -> Parsed<i32> {
    let t = leb_i32(s, p);
    match t.0 {
        Err(e) => (Err(e), t.1),
        Ok(bt) => if bt == -0x1D || bt == -0x1C {
            let h = leb_i32(s, t.1);
            match h.0 {
                Err(e) => (Err(e), h.1),
                Ok(_) => (Ok(bt), h.1),
            }
        } else {
            (Ok(bt), t.1)
        },
    }
}

/// One catch clause of a `try_table` block.
pub open spec fn clause_end(s: Seq<u8>, p: int) -> Parsed<()> {
    let k = byte_at(s, p);
    match k.0 {
        Err(e) => (Err(e), k.1),
        Ok(kind) => if kind <= 1 {
            two_indices(s, k.1)
        } else if kind <= 3 {
            skipped(leb_u32(s, k.1))
        } else {
            (Ok(()), k.1)
        },
    }
}

/// `n` catch clauses.
pub open spec fn clauses_end(s: Seq<u8>, p: int, n: nat) -> Parsed<()>
    decreases n,
{
    if n == 0 {
        (Ok(()), p)
    } else {
        let r = clause_end(s, p);
        match r.0 {
            Err(e) => (Err(e), r.1),
            Ok(_) => clauses_end(s, r.1, (n - 1) as nat),
        }
    }
}

/// A counted list of indices, and `extra` more.
pub open spec fn counted_indices(s: Seq<u8>, p: int, extra: nat) -> Parsed<()> {
    let c = leb_u32(s, p);
    match c.0 {
        Err(e) => (Err(e), c.1),
        Ok(count) => {
            let r = skip_indices(s, c.1, count as nat);
            match r.0 {
                Err(e) => (Err(e), r.1),
                Ok(_) => skip_indices(s, r.1, extra),
            }
        },
    }
}

/// A memory argument.
pub open spec fn memarg_end(s: Seq<u8>, p: int, multi_memory: bool) -> Parsed<()> {
    let f = leb_u32(s, p);
    match f.0 {
        Err(e) => (Err(e), f.1),
        Ok(flags) => if multi_memory && (flags / 64) % 2 == 1 {
            two_indices(s, f.1)
        } else {
            skipped(leb_u32(s, f.1))
        },
    }
}

/// The end of immediates.
pub open spec fn immediate_end(s: Seq<u8>, p: int, imm: Immediate, multi_memory: bool) -> Parsed<()> {
    match imm {
        Immediate::Empty => (Ok(()), p),
        Immediate::Index => skipped(leb_u32(s, p)),
        Immediate::TwoIndices => two_indices(s, p),
        Immediate::Signed => skipped(leb_i32(s, p)),
        Immediate::SignedWide => skipped(leb_i64(s, p)),
        Immediate::Over(n) => (Ok(()), p + n),
        Immediate::Memarg => memarg_end(s, p, multi_memory),
        Immediate::MemargLane => {
            let r = memarg_end(s, p, multi_memory);
            match r.0 {
                Err(e) => (Err(e), r.1),
                Ok(_) => (Ok(()), r.1 + 1),
            }
        },
        Immediate::Labels => counted_indices(s, p, 1),
        Immediate::Types => counted_indices(s, p, 0),
        Immediate::Cast => cast_immediates(s, p),
    }
}

/// The immediates of an opcode that does not concern blocks.
pub open spec fn plain_immediate(op: u8) -> Immediate {
    match op {
        0x08 | 0x09 | 0x0C | 0x0D | 0x10 | 0x12 | 0x14 | 0x15 => Immediate::Index,
        0x20 | 0x21 | 0x22 | 0x23 | 0x24 | 0x25 | 0x26 | 0xD2 => Immediate::Index,
        0x0E => Immediate::Labels,
        0x11 | 0x13 => Immediate::TwoIndices,
        0x1C => Immediate::Types,
        0x3F | 0x40 => Immediate::Index,
        0x41 | 0xD0 => Immediate::Signed,
        0x42 => Immediate::SignedWide,
        0x43 => Immediate::Over(4),
        0x44 => Immediate::Over(8),
        0xD5 | 0xD6 => Immediate::Index,
        _ => if 0x28 <= op <= 0x3E {
            Immediate::Memarg
        } else {
            Immediate::Empty
        },
    }
}

/// The immediates of an instruction with the prefix 0xFC.
pub open spec fn bulk_immediate(sub: u32) -> Immediate {
    if sub == 8 || sub == 10 || sub == 12 || sub == 14 {
        Immediate::TwoIndices
    } else if sub == 9 || sub == 11 || sub == 13 || 15 <= sub <= 17 {
        Immediate::Index
    } else {
        Immediate::Empty
    }
}

/// The immediates of an instruction with the prefix 0xFD.
pub open spec fn vector_immediate(sub: u32) -> Immediate {
    if sub <= 11 || sub == 92 || sub == 93 {
        Immediate::Memarg
    } else if 84 <= sub <= 91 {
        Immediate::MemargLane
    } else if sub == 12 || sub == 13 {
        Immediate::Over(16)
    } else if 21 <= sub <= 34 {
        Immediate::Over(1)
    } else {
        Immediate::Empty
    }
}

/// The immediates of an instruction with the prefix 0xFE.
pub open spec fn atomic_immediate(sub: u32) -> Immediate {
    if sub == 3 {
        Immediate::Over(1)
    } else if sub <= 2 || 0x10 <= sub <= 0x4E {
        Immediate::Memarg
    } else {
        Immediate::Empty
    }
}

/// The immediates of an instruction with the prefix 0xFB.
pub open spec fn gc_immediate(sub: u32) -> Immediate {
    if sub <= 1 || sub == 6 || sub == 7 || 11 <= sub <= 14 || sub == 16 {
        Immediate::Index
    } else if 2 <= sub <= 5 || 8 <= sub <= 10 || 17 <= sub <= 19 {
        Immediate::TwoIndices
    } else if 20 <= sub <= 23 {
        Immediate::Signed
    } else if sub == 24 || sub == 25 {
        Immediate::Cast
    } else {
        Immediate::Empty
    }
}

/// The immediates of an instruction with a prefix.
pub open spec fn prefixed_immediate(prefix: u8, sub: u32) -> Immediate {
    if prefix == 0xFB {
        gc_immediate(sub)
    } else if prefix == 0xFC {
        bulk_immediate(sub)
    } else if prefix == 0xFD {
        vector_immediate(sub)
    } else {
        atomic_immediate(sub)
    }
}

/// The mark `m`, once the immediates before it have been read.
pub open spec fn marked<T>(r: Parsed<T>, m: Mark) -> Parsed<Mark> {
    match r.0 {
        Ok(_) => (Ok(m), r.1),
        Err(e) => (Err(e), r.1),
    }
}

/// The rest of the head of a `try_table` block.
pub open spec fn try_table_head(s: Seq<u8>, p: int) -> Parsed<()> {
    let t = block_type_at(s, p);
    match t.0 {
        Err(e) => (Err(e), t.1),
        Ok(_) => {
            let c = leb_u32(s, t.1);
            match c.0 {
                Err(e) => (Err(e), c.1),
                Ok(n) => clauses_end(s, c.1, n as nat),
            }
        },
    }
}

/// The rest of an instruction whose opcode has been read.
pub open spec fn rest_at(s: Seq<u8>, p: int, op: u8, multi_memory: bool) -> Parsed<Mark> {
    match op {
        0x02 | 0x03 | 0x04 | 0x06 => marked(block_type_at(s, p), Mark::Open),
        0x1F => marked(try_table_head(s, p), Mark::Open),
        0x05 => (Ok(Mark::Else), p),
        0x0B => (Ok(Mark::Close), p),
        0x19 => (Ok(Mark::CatchAll), p),
        0x07 => {
            let t = leb_u32(s, p);
            match t.0 {
                Err(e) => (Err(e), t.1),
                Ok(tag) => (Ok(Mark::Catch(tag)), t.1),
            }
        },
        0x18 => {
            let t = leb_u32(s, p);
            match t.0 {
                Err(e) => (Err(e), t.1),
                Ok(label) => (Ok(Mark::Delegate(label)), t.1),
            }
        },
        0xFB | 0xFC | 0xFD | 0xFE => {
            let r = leb_u32(s, p);
            match r.0 {
                Err(e) => (Err(e), r.1),
                Ok(sub) => marked(
                    immediate_end(s, r.1, prefixed_immediate(op, sub), multi_memory),
                    Mark::Plain,
                ),
            }
        },
        _ => marked(immediate_end(s, p, plain_immediate(op), multi_memory), Mark::Plain),
    }
}

/// One instruction.
#[verifier::opaque]
pub open spec fn instr_at(s: Seq<u8>, p: int, multi_memory: bool) -> Parsed<Mark> {
    let b = byte_at(s, p);
    match b.0 {
        Err(e) => (Err(e), b.1),
        Ok(op) => rest_at(s, b.1, op, multi_memory),
    }
}

/// The position after the instruction that ends the current block, or its first arm,
/// `depth` blocks being open. Positions beyond the code by more than its margin do
/// not occur.
pub open spec fn block_end(s: Seq<u8>, p: int, depth: nat, multi_memory: bool) -> Parsed<()>
    decreases s.len() + CODE_MARGIN - p,
{
    let r = instr_at(s, p, multi_memory);
    match r.0 {
        Err(e) => (Err(e), r.1),
        Ok(m) => if r.1 <= p || r.1 > s.len() + CODE_MARGIN {
            (Err(WasmError::UnexpectedEnd), r.1)
        } else {
            match m {
                Mark::Open => block_end(s, r.1, depth + 1, multi_memory),
                Mark::Else => if depth <= 1 {
                    (Ok(()), r.1)
                } else {
                    block_end(s, r.1, depth, multi_memory)
                },
                Mark::Close | Mark::Delegate(_) => if depth <= 1 {
                    (Ok(()), r.1)
                } else {
                    block_end(s, r.1, (depth - 1) as nat, multi_memory)
                },
                _ => block_end(s, r.1, depth, multi_memory),
            }
        },
    }
}

/// `catches` with one more handler, unless there are too many.
pub open spec fn with_handler(catches: Seq<LegacyCatch>, depth: nat, pc: int, tag: u32) -> Seq<LegacyCatch> {
    if depth == 1 && catches.len() < MAX_LEGACY_CATCHES {
        catches.push(LegacyCatch { handler_pc: pc as usize, tag_idx: tag })
    } else {
        catches
    }
}

/// The handlers of a legacy `try` block whose body starts at `p`, and the label that
/// it delegates to, the highest number for none. The position is that of the end.
pub open spec fn try_handlers(
    s: Seq<u8>,
    p: int,
    depth: nat,
    multi_memory: bool,
    catches: Seq<LegacyCatch>,
) -> Parsed<(Seq<LegacyCatch>, u32)>
    decreases s.len() + CODE_MARGIN - p,
{
    let r = instr_at(s, p, multi_memory);
    match r.0 {
        Err(e) => (Err(e), r.1),
        Ok(m) => if r.1 <= p || r.1 > s.len() + CODE_MARGIN {
            (Err(WasmError::UnexpectedEnd), r.1)
        } else {
            match m {
                Mark::Open => try_handlers(s, r.1, depth + 1, multi_memory, catches),
                Mark::Close => if depth <= 1 {
                    (Ok((catches, u32::MAX)), r.1)
                } else {
                    try_handlers(s, r.1, (depth - 1) as nat, multi_memory, catches)
                },
                Mark::Delegate(label) => if depth <= 1 {
                    (Ok((catches, label)), r.1)
                } else {
                    try_handlers(s, r.1, (depth - 1) as nat, multi_memory, catches)
                },
                Mark::Catch(tag) => try_handlers(
                    s,
                    r.1,
                    depth,
                    multi_memory,
                    with_handler(catches, depth, r.1, tag),
                ),
                Mark::CatchAll => try_handlers(
                    s,
                    r.1,
                    depth,
                    multi_memory,
                    with_handler(catches, depth, r.1, u32::MAX),
                ),
                _ => try_handlers(s, r.1, depth, multi_memory, catches),
            }
        },
    }
}

proof fn clauses_move(s: Seq<u8>, p: int, n: nat)
    requires
        0 <= p <= s.len(),
    ensures
        p <= clauses_end(s, p, n).1 <= s.len(),
    decreases n,
{
    if n > 0 && clause_end(s, p).0 is Ok {
        clauses_move(s, clause_end(s, p).1, (n - 1) as nat);
    }
}

proof fn counted_moves(s: Seq<u8>, p: int, extra: nat)
    requires
        0 <= p <= s.len(),
    ensures
        p <= counted_indices(s, p, extra).1 <= s.len(),
{
    let c = leb_u32(s, p);
    if c.0 is Ok {
        skip_indices_moves(s, c.1, c.0->Ok_0 as nat);
        let r = skip_indices(s, c.1, c.0->Ok_0 as nat);
        if r.0 is Ok {
            skip_indices_moves(s, r.1, extra);
        }
    }
}

proof fn immediate_moves(s: Seq<u8>, p: int, imm: Immediate, multi_memory: bool)
    requires
        0 <= p <= s.len(),
        imm matches Immediate::Over(n) ==> n <= 16,
    ensures
        p <= immediate_end(s, p, imm, multi_memory).1 <= s.len() + 16,
{
    counted_moves(s, p, 0);
    counted_moves(s, p, 1);
}

/// An instruction takes at least a byte, and ends at most a few bytes past the code.
pub proof fn instr_moves(s: Seq<u8>, p: int, multi_memory: bool)
    requires
        0 <= p,
    ensures
        instr_at(s, p, multi_memory).1 >= p,
        p <= s.len() + 16 ==> instr_at(s, p, multi_memory).1 <= s.len() + 16,
        instr_at(s, p, multi_memory).0 is Ok ==> p < instr_at(s, p, multi_memory).1,
        instr_at(s, p, multi_memory).0 is Ok ==> instr_at(s, p, multi_memory).1 <= s.len() + 16,
{
    reveal(instr_at);
    if p < s.len() {
        let op = s[p];
        let q = p + 1;
        immediate_moves(s, q, plain_immediate(op), multi_memory);
        let r = leb_u32(s, q);
        if r.0 is Ok {
            immediate_moves(s, r.1, prefixed_immediate(op, r.0->Ok_0), multi_memory);
        }
        let t = block_type_at(s, q);
        if t.0 is Ok {
            let c = leb_u32(s, t.1);
            if c.0 is Ok {
                clauses_move(s, c.1, c.0->Ok_0 as nat);
            }
        }
    }
}

/// Reads a block type.
pub fn read_block_type(bytes: &[u8], pos: &mut usize) -> (r: Result<i32, WasmError>)
    ensures
        (r, *final(pos) as int) == block_type_at(bytes@, *old(pos) as int),
{
    let bt: i32 = decode_leb128_i32(bytes, pos)?;
    if bt == -0x1D || bt == -0x1C {
        decode_leb128_i32(bytes, pos)?;
    }
    Ok(bt)
}

/// Skips the head of a `try_table` block.
fn skip_try_table_head(bytes: &[u8], pos: &mut usize) -> (r: Result<(), WasmError>)
    ensures
        (r, *final(pos) as int) == try_table_head(bytes@, *old(pos) as int),
{
    read_block_type(bytes, pos)?;
    let n: u32 = decode_leb128_u32(bytes, pos)?;
    let ghost start = *pos as int;
    let mut i: u32 = 0;
    while i < n
        invariant
            i <= n,
            try_table_head(bytes@, *old(pos) as int) == clauses_end(bytes@, *pos as int, (n - i) as nat),
        decreases n - i,
    {
        let kind: u8 = read_byte(bytes, pos)?;
        if kind <= 1 {
            skip_shape(bytes, pos, Shape::TwoIndices)?;
        } else if kind <= 3 {
            skip_shape(bytes, pos, Shape::Index)?;
        }
        i = i + 1;
    }
    Ok(())
}

/// Skips a memory argument.
fn skip_memarg(bytes: &[u8], pos: &mut usize, multi_memory: bool) -> (r: Result<(), WasmError>)
    ensures
        (r, *final(pos) as int) == memarg_end(bytes@, *old(pos) as int, multi_memory),
{
    let flags: u32 = decode_leb128_u32(bytes, pos)?;
    if multi_memory && (flags / 64) % 2 == 1 {
        skip_shape(bytes, pos, Shape::TwoIndices)
    } else {
        skip_shape(bytes, pos, Shape::Index)
    }
}

/// Skips a counted list of indices, and `extra` more.
fn skip_counted(bytes: &[u8], pos: &mut usize, extra: usize) -> (r: Result<(), WasmError>)
    ensures
        (r, *final(pos) as int) == counted_indices(bytes@, *old(pos) as int, extra as nat),
{
    let n: u32 = decode_leb128_u32(bytes, pos)?;
    skip_u32s(bytes, pos, n as usize)?;
    skip_u32s(bytes, pos, extra)
}

/// Skips immediates.
fn skip_immediate(bytes: &[u8], pos: &mut usize, imm: Immediate, multi_memory: bool) -> (r: Result<(), WasmError>)
    requires
        *old(pos) <= bytes@.len(),
        bytes@.len() + CODE_MARGIN <= usize::MAX,
        imm matches Immediate::Over(n) ==> n <= 16,
    ensures
        (r, *final(pos) as int) == immediate_end(bytes@, *old(pos) as int, imm, multi_memory),
{
    match imm {
        Immediate::Empty => Ok(()),
        Immediate::Index => skip_shape(bytes, pos, Shape::Index),
        Immediate::TwoIndices => skip_shape(bytes, pos, Shape::TwoIndices),
        Immediate::Signed => skip_shape(bytes, pos, Shape::Heap),
        Immediate::SignedWide => {
            decode_leb128_i64(bytes, pos)?;
            Ok(())
        },
        Immediate::Over(n) => {
            *pos = *pos + n;
            Ok(())
        },
        Immediate::Memarg => skip_memarg(bytes, pos, multi_memory),
        Immediate::MemargLane => {
            skip_memarg(bytes, pos, multi_memory)?;
            *pos = *pos + 1;
            Ok(())
        },
        Immediate::Labels => skip_counted(bytes, pos, 1),
        Immediate::Types => skip_counted(bytes, pos, 0),
        Immediate::Cast => skip_shape(bytes, pos, Shape::Cast),
    }
}

/// The immediates of an opcode that does not concern blocks.
fn immediate_of_plain(op: u8) -> (r: Immediate)
    ensures
        r == plain_immediate(op),
        r matches Immediate::Over(n) ==> n <= 16,
{
    match op {
        0x08 | 0x09 | 0x0C | 0x0D | 0x10 | 0x12 | 0x14 | 0x15 => Immediate::Index,
        0x20 | 0x21 | 0x22 | 0x23 | 0x24 | 0x25 | 0x26 | 0xD2 => Immediate::Index,
        0x0E => Immediate::Labels,
        0x11 | 0x13 => Immediate::TwoIndices,
        0x1C => Immediate::Types,
        0x3F | 0x40 => Immediate::Index,
        0x41 | 0xD0 => Immediate::Signed,
        0x42 => Immediate::SignedWide,
        0x43 => Immediate::Over(4),
        0x44 => Immediate::Over(8),
        0xD5 | 0xD6 => Immediate::Index,
        _ => if 0x28 <= op && op <= 0x3E {
            Immediate::Memarg
        } else {
            Immediate::Empty
        },
    }
}

/// The immediates of an instruction with the prefix 0xFB or 0xFC.
fn immediate_of_object(prefix: u8, sub: u32) -> (r: Immediate)
    requires
        prefix == 0xFB || prefix == 0xFC,
    ensures
        r == prefixed_immediate(prefix, sub),
        !(r is Over),
{
    if prefix == 0xFC {
        match sub {
            8 | 10 | 12 | 14 => Immediate::TwoIndices,
            9 | 11 | 13 | 15 | 16 | 17 => Immediate::Index,
            _ => Immediate::Empty,
        }
    } else {
        match sub {
            0 | 1 | 6 | 7 | 11 | 12 | 13 | 14 | 16 => Immediate::Index,
            2 | 3 | 4 | 5 | 8 | 9 | 10 | 17 | 18 | 19 => Immediate::TwoIndices,
            20 | 21 | 22 | 23 => Immediate::Signed,
            24 | 25 => Immediate::Cast,
            _ => Immediate::Empty,
        }
    }
}

/// The immediates of an instruction with a prefix.
fn immediate_of_prefixed(prefix: u8, sub: u32) -> (r: Immediate)
    ensures
        r == prefixed_immediate(prefix, sub),
        r matches Immediate::Over(n) ==> n <= 16,
{
    if prefix == 0xFB || prefix == 0xFC {
        immediate_of_object(prefix, sub)
    } else if prefix == 0xFD {
        if sub <= 11 || sub == 92 || sub == 93 {
            Immediate::Memarg
        } else if 84 <= sub && sub <= 91 {
            Immediate::MemargLane
        } else if sub == 12 || sub == 13 {
            Immediate::Over(16)
        } else if 21 <= sub && sub <= 34 {
            Immediate::Over(1)
        } else {
            Immediate::Empty
        }
    } else if sub == 3 {
        Immediate::Over(1)
    } else if sub <= 2 || (0x10 <= sub && sub <= 0x4E) {
        Immediate::Memarg
    } else {
        Immediate::Empty
    }
}

/// Reads the rest of an instruction whose opcode has been read.
fn skip_rest(bytes: &[u8], pos: &mut usize, op: u8, multi_memory: bool) -> (r: Result<Mark, WasmError>)
    requires
        *old(pos) <= bytes@.len(),
        bytes@.len() + CODE_MARGIN <= usize::MAX,
    ensures
        (r, *final(pos) as int) == rest_at(bytes@, *old(pos) as int, op, multi_memory),
{
    match op {
        0x02 | 0x03 | 0x04 | 0x06 => {
            read_block_type(bytes, pos)?;
            Ok(Mark::Open)
        },
        0x1F => {
            skip_try_table_head(bytes, pos)?;
            Ok(Mark::Open)
        },
        0x05 => Ok(Mark::Else),
        0x0B => Ok(Mark::Close),
        0x19 => Ok(Mark::CatchAll),
        0x07 => {
            let tag: u32 = decode_leb128_u32(bytes, pos)?;
            Ok(Mark::Catch(tag))
        },
        0x18 => {
            let label: u32 = decode_leb128_u32(bytes, pos)?;
            Ok(Mark::Delegate(label))
        },
        0xFB | 0xFC | 0xFD | 0xFE => {
            let sub: u32 = decode_leb128_u32(bytes, pos)?;
            skip_immediate(bytes, pos, immediate_of_prefixed(op, sub), multi_memory)?;
            Ok(Mark::Plain)
        },
        _ => {
            skip_immediate(bytes, pos, immediate_of_plain(op), multi_memory)?;
            Ok(Mark::Plain)
        },
    }
}

/// Skips one instruction.
pub fn skip_instr(bytes: &[u8], pos: &mut usize, multi_memory: bool) -> (r: Result<Mark, WasmError>)
    requires
        bytes@.len() + CODE_MARGIN <= usize::MAX,
    ensures
        (r, *final(pos) as int) == instr_at(bytes@, *old(pos) as int, multi_memory),
{
    reveal(instr_at);
    let op: u8 = read_byte(bytes, pos)?;
    skip_rest(bytes, pos, op, multi_memory)
}

/// Skips to after the instruction that ends the current block or its first arm.
pub fn skip_to_end(bytes: &[u8], pos: &mut usize, multi_memory: bool) -> (r: Result<(), WasmError>)
    requires
        bytes@.len() + CODE_MARGIN <= usize::MAX,
    ensures
        (r, *final(pos) as int) == block_end(bytes@, *old(pos) as int, 1, multi_memory),
{
    let mut depth: usize = 1;
    loop
        invariant
            bytes@.len() + CODE_MARGIN <= usize::MAX,
            1 <= depth,
            depth <= *pos + 1,
            *pos > *old(pos) ==> *pos <= bytes@.len() + 16,
            *pos >= *old(pos),
            block_end(bytes@, *old(pos) as int, 1, multi_memory) == block_end(
                bytes@,
                *pos as int,
                depth as nat,
                multi_memory,
            ),
        decreases bytes@.len() + CODE_MARGIN - *pos,
    {
        proof {
            instr_moves(bytes@, *pos as int, multi_memory);
        }
        match skip_instr(bytes, pos, multi_memory)? {
            Mark::Open => {
                depth = depth + 1;
            },
            Mark::Else => {
                if depth == 1 {
                    return Ok(());
                }
            },
            Mark::Close | Mark::Delegate(_) => {
                if depth == 1 {
                    return Ok(());
                }
                depth = depth - 1;
            },
            _ => {},
        }
    }
}

/// Finds the handlers of a legacy `try` block, whose body starts at `pos`, and the
/// label that it delegates to, the highest number for none. Afterwards `pos` is at
/// the end of the block.
pub fn scan_legacy_try(bytes: &[u8], pos: &mut usize, multi_memory: bool) -> (r: Result<
    (Vec<LegacyCatch>, u32),
    WasmError,
>)
    requires
        bytes@.len() + CODE_MARGIN <= usize::MAX,
    ensures
        ({
            let e = try_handlers(bytes@, *old(pos) as int, 1, multi_memory, Seq::empty());
            &&& *final(pos) == e.1
            &&& match r {
                Ok(h) => e.0 == Ok::<(Seq<LegacyCatch>, u32), WasmError>((h.0@, h.1)) && h.0@.len()
                    <= MAX_LEGACY_CATCHES,
                Err(x) => e.0 == Err::<(Seq<LegacyCatch>, u32), WasmError>(x),
            }
        }),
{
    let mut catches: Vec<LegacyCatch> = Vec::new();
    let mut depth: usize = 1;
    loop
        invariant
            bytes@.len() + CODE_MARGIN <= usize::MAX,
            1 <= depth,
            depth <= *pos + 1,
            *pos > *old(pos) ==> *pos <= bytes@.len() + 16,
            *pos >= *old(pos),
            catches@.len() <= MAX_LEGACY_CATCHES,
            try_handlers(bytes@, *old(pos) as int, 1, multi_memory, Seq::empty()) == try_handlers(
                bytes@,
                *pos as int,
                depth as nat,
                multi_memory,
                catches@,
            ),
        decreases bytes@.len() + CODE_MARGIN - *pos,
    {
        proof {
            instr_moves(bytes@, *pos as int, multi_memory);
        }
        match skip_instr(bytes, pos, multi_memory)? {
            Mark::Open => {
                depth = depth + 1;
            },
            Mark::Close => {
                if depth == 1 {
                    return Ok((catches, u32::MAX));
                }
                depth = depth - 1;
            },
            Mark::Delegate(label) => {
                if depth == 1 {
                    return Ok((catches, label));
                }
                depth = depth - 1;
            },
            Mark::Catch(tag) => {
                if depth == 1 && catches.len() < MAX_LEGACY_CATCHES {
                    catches.push(LegacyCatch { handler_pc: *pos, tag_idx: tag });
                }
            },
            Mark::CatchAll => {
                if depth == 1 && catches.len() < MAX_LEGACY_CATCHES {
                    catches.push(LegacyCatch { handler_pc: *pos, tag_idx: u32::MAX });
                }
            },
            _ => {},
        }
    }
}

} // verus!
