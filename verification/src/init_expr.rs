//! Constant initializer expressions: skipping, scanning and evaluating them.

use vstd::prelude::*;
use crate::bytes::{le_u32, le_u64, read_u32, read_u64};
use crate::gc_types::{GcType, GcTypeDef};
use crate::immediates::{fixed, gc_shape, shape_at, shape_moves, shape_of_gc, skip_fixed, skip_shape, skipped, Shape};
use crate::module::{views, InitExprInfo};
use crate::num::{i31_get_s, i31_get_u, i31_signed, i31_unsigned};
use crate::reader::{
    byte_at, decode_leb128_i32, decode_leb128_i64, decode_leb128_u32, group_leb_moves, leb_i32, leb_i64, leb_u32,
    read_byte, Parsed,
};
use crate::types::{v128_from_own_bytes, v128_of, ValType, Value, WasmError, V128};

verus! {

broadcast use {group_leb_moves, shape_moves};

/// Most values that an initializer keeps at once; further ones are dropped.
pub const INIT_STACK: usize = 16;

// ---------------------------------------------------------------------------
// Skipping

/// Skips the immediates of a constant instruction.
pub open spec fn const_immediates(s: Seq<u8>, p: int, op: u8) -> Parsed<()> {
    match op {
        0x41 => skipped(leb_i32(s, p)),
        0x42 => skipped(leb_i64(s, p)),
        0x43 => fixed(s, p, 4),
        0x44 => fixed(s, p, 8),
        0x23 => skipped(leb_u32(s, p)),
        0xD0 => skipped(leb_i32(s, p)),
        0xD2 => skipped(leb_u32(s, p)),
        0xFD => {
            let sub = leb_u32(s, p);
            match sub.0 {
                Err(e) => (Err(e), sub.1),
                Ok(n) => if n == 12 {
                    fixed(s, sub.1, 16)
                } else {
                    (Ok(()), sub.1)
                },
            }
        },
        0xFB => {
            let sub = leb_u32(s, p);
            match sub.0 {
                Err(e) => (Err(e), sub.1),
                Ok(n) => shape_at(s, sub.1, gc_shape(n)),
            }
        },
        0x6A => (Ok(()), p),
        0x6B => (Ok(()), p),
        0x6C => (Ok(()), p),
        0x7C => (Ok(()), p),
        0x7D => (Ok(()), p),
        0x7E => (Ok(()), p),
        _ => (Err(WasmError::InvalidSection), p),
    }
}

/// Skips the initializer at `p`, up to and with its end marker.
pub open spec fn init_expr_end(s: Seq<u8>, p: int) -> Parsed<()>
    decreases s.len() - p,
{
    if p < 0 || p >= s.len() {
        (Err(WasmError::UnexpectedEnd), p)
    } else if s[p] == 0x0B {
        (Ok(()), p + 1)
    } else {
        let r = const_immediates(s, p + 1, s[p]);
        match r.0 {
            Err(e) => (Err(e), r.1),
            Ok(_) => init_expr_end(s, r.1),
        }
    }
}

/// Skipping an initializer moves forward and stays within the bytes.
pub broadcast proof fn init_expr_end_moves(s: Seq<u8>, p: int)
    requires
        0 <= p <= s.len(),
    ensures
        p <= (#[trigger] init_expr_end(s, p)).1 <= s.len(),
        init_expr_end(s, p).0 is Ok ==> p < init_expr_end(s, p).1,
    decreases s.len() - p,
{
    if p < s.len() && s[p] != 0x0B {
        let r = const_immediates(s, p + 1, s[p]);
        if r.0 is Ok {
            init_expr_end_moves(s, r.1);
        }
    }
}

/// Skips the immediates of a constant instruction.
fn skip_const_immediates(bytes: &[u8], pos: &mut usize, op: u8) -> (r: Result<(), WasmError>)
    requires
        *old(pos) <= bytes@.len(),
    ensures
        (r, *final(pos) as int) == const_immediates(bytes@, *old(pos) as int, op),
{
    match op {
        0x41 | 0xD0 => {
            decode_leb128_i32(bytes, pos)?;
        },
        0x42 => {
            decode_leb128_i64(bytes, pos)?;
        },
        0x43 => {
            return skip_fixed(bytes, pos, 4);
        },
        0x44 => {
            return skip_fixed(bytes, pos, 8);
        },
        0x23 | 0xD2 => {
            decode_leb128_u32(bytes, pos)?;
        },
        0xFD => {
            let sub: u32 = decode_leb128_u32(bytes, pos)?;
            if sub == 12 {
                return skip_fixed(bytes, pos, 16);
            }
        },
        0xFB => {
            let sub: u32 = decode_leb128_u32(bytes, pos)?;
            return skip_shape(bytes, pos, shape_of_gc(sub));
        },
        0x6A | 0x6B | 0x6C | 0x7C | 0x7D | 0x7E => {},
        _ => {
            return Err(WasmError::InvalidSection);
        },
    }
    Ok(())
}

/// Skips an initializer, up to and with its end marker.
pub fn skip_init_expr(bytes: &[u8], pos: &mut usize) -> (r: Result<(), WasmError>)
    ensures
        (r, *final(pos) as int) == init_expr_end(bytes@, *old(pos) as int),
{
    let ghost start = *pos as int;
    loop
        invariant
            start == *old(pos),
            init_expr_end(bytes@, start) == init_expr_end(bytes@, *pos as int),
        decreases bytes@.len() - *pos,
    {
        let op: u8 = read_byte(bytes, pos)?;
        if op == 0x0B {
            return Ok(());
        }
        skip_const_immediates(bytes, pos, op)?;
    }
}

// ---------------------------------------------------------------------------
// Scanning

/// What has been found while scanning an initializer: the information gathered and
/// the types of the values, unknown ones as `None`.
#[verifier::ext_equal]
pub struct Scan {
    pub info: InitExprInfo,
    pub types: Seq<Option<ValType>>,
}

/// Pushes a type, unless the stack is full.
pub open spec fn type_push(t: Seq<Option<ValType>>, v: Option<ValType>) -> Seq<Option<ValType>> {
    if t.len() < INIT_STACK {
        t.push(v)
    } else {
        t
    }
}

/// Drops up to `n` types from the top.
pub open spec fn type_drop(t: Seq<Option<ValType>>, n: int) -> Seq<Option<ValType>> {
    if n <= t.len() {
        t.take(t.len() - n)
    } else {
        Seq::empty()
    }
}

/// Replaces the top type, if there is one.
pub open spec fn type_top(t: Seq<Option<ValType>>, v: Option<ValType>) -> Seq<Option<ValType>> {
    if t.len() > 0 {
        t.update(t.len() - 1, v)
    } else {
        t
    }
}

/// Drops `n` types if there are that many.
pub open spec fn type_drop_exact(t: Seq<Option<ValType>>, n: int) -> Seq<Option<ValType>> {
    if n <= t.len() {
        t.take(t.len() - n)
    } else {
        t
    }
}

/// Replaces the two top types by one, if there are two.
pub open spec fn type_combine(t: Seq<Option<ValType>>, v: Option<ValType>) -> Seq<Option<ValType>> {
    if t.len() >= 2 {
        t.take(t.len() - 2).push(v)
    } else {
        t
    }
}

/// The type of a null reference to a heap type.
pub open spec fn null_type(ht: i32) -> Option<ValType> {
    if ht == -0x10 {
        Some(ValType::FuncRef)
    } else if ht == -0x11 {
        Some(ValType::ExternRef)
    } else if ht == -0x12 {
        Some(ValType::NullableAnyRef)
    } else if ht == -0x13 {
        Some(ValType::NullableEqRef)
    } else if ht == -0x14 {
        Some(ValType::I31Ref)
    } else if ht == -0x15 {
        Some(ValType::NullableStructRef)
    } else if ht == -0x16 {
        Some(ValType::NullableArrayRef)
    } else if ht == -0x0F {
        Some(ValType::NoneRef)
    } else if ht == -0x0D {
        Some(ValType::NullFuncRef)
    } else if ht == -0x0E {
        Some(ValType::NullExternRef)
    } else if ht == -0x17 || ht == -0x0C {
        Some(ValType::ExnRef)
    } else if ht >= 0 {
        Some(ValType::NullableTypedFuncRef)
    } else {
        None
    }
}

/// The number of fields of the struct type numbered `idx`, zero for any other type.
pub open spec fn struct_field_count(gc: Seq<GcType>, idx: int) -> int {
    if 0 <= idx < gc.len() {
        match gc[idx] {
            GcType::Struct { field_types, .. } => field_types.len() as int,
            _ => 0,
        }
    } else {
        0
    }
}

/// The position `n` bytes on, or the end of the bytes if it comes before.
pub open spec fn onward(s: Seq<u8>, p: int, n: int) -> int {
    if p + n > s.len() {
        s.len() as int
    } else {
        p + n
    }
}

/// The position after immediates of a shape, each of which may be malformed.
pub open spec fn past_shape(s: Seq<u8>, p: int, shape: Shape) -> int {
    match shape {
        Shape::Empty => p,
        Shape::Index => leb_u32(s, p).1,
        Shape::TwoIndices => leb_u32(s, leb_u32(s, p).1).1,
        Shape::Heap => leb_i32(s, p).1,
        Shape::Cast => leb_i32(s, leb_i32(s, leb_u32(s, byte_at(s, p).1).1).1).1,
    }
}

/// Whether an instruction with the prefix 0xFB may stand in a constant expression.
pub open spec fn gc_const(sub: u32) -> bool {
    sub <= 1 || 6 <= sub <= 8 || 26 <= sub <= 28
}

/// What the instruction `sub` with the prefix 0xFB, whose immediates stand at `p`,
/// does to the types.
pub open spec fn scan_gc_types(
    s: Seq<u8>,
    p: int,
    sub: u32,
    t: Seq<Option<ValType>>,
    gc: Seq<GcType>,
) -> Seq<Option<ValType>> {
    if sub == 0 {
        match leb_u32(s, p).0 {
            Ok(idx) => type_push(type_drop(t, struct_field_count(gc, idx as int)), None),
            Err(_) => type_push(t, None),
        }
    } else if sub == 1 {
        type_push(t, None)
    } else if sub == 6 || sub == 9 || sub == 10 {
        type_push(type_drop(t, 2), None)
    } else if sub == 7 {
        type_push(type_drop(t, 1), None)
    } else if sub == 8 {
        match leb_u32(s, leb_u32(s, p).1).0 {
            Ok(count) => type_push(type_drop(t, count as int), None),
            Err(_) => type_push(t, None),
        }
    } else if 2 <= sub <= 4 {
        type_top(t, None)
    } else if sub == 5 {
        type_drop_exact(t, 2)
    } else if 11 <= sub <= 13 {
        type_combine(t, None)
    } else if sub == 14 {
        type_drop_exact(t, 3)
    } else if sub == 15 || sub == 20 || sub == 21 || sub == 29 || sub == 30 {
        type_top(t, Some(ValType::I32))
    } else if sub == 28 {
        if t.len() > 0 {
            type_top(t, Some(ValType::I31Ref))
        } else {
            type_push(t, Some(ValType::I31Ref))
        }
    } else {
        t
    }
}

/// Scans one instruction whose opcode `op` has been read: the new state, the new
/// position, and whether the scan stops.
pub open spec fn scan_one(s: Seq<u8>, p: int, op: u8, st: Scan, gc: Seq<GcType>) -> (Scan, int, bool) {
    match op {
        0x0B => (st, p, true),
        0x23 => {
            let r = leb_u32(s, p);
            match r.0 {
                Ok(idx) => {
                    let top = match st.info.global_ref {
                        Some(cur) if cur >= idx => cur,
                        _ => idx,
                    };
                    (
                        Scan {
                            info: InitExprInfo { global_ref: Some(top), ..st.info },
                            types: type_push(st.types, None),
                        },
                        r.1,
                        false,
                    )
                },
                Err(_) => (st, r.1, false),
            }
        },
        0x41 => (Scan { types: type_push(st.types, Some(ValType::I32)), ..st }, leb_i32(s, p).1, false),
        0x42 => (Scan { types: type_push(st.types, Some(ValType::I64)), ..st }, leb_i64(s, p).1, false),
        0x43 => (Scan { types: type_push(st.types, Some(ValType::F32)), ..st }, onward(s, p, 4), false),
        0x44 => (Scan { types: type_push(st.types, Some(ValType::F64)), ..st }, onward(s, p, 8), false),
        0xD0 => {
            let r = leb_i32(s, p);
            let t = match r.0 {
                Ok(ht) => null_type(ht),
                Err(_) => None,
            };
            (Scan { types: type_push(st.types, t), ..st }, r.1, false)
        },
        0xD2 => {
            let r = leb_u32(s, p);
            let f = match (r.0, st.info.func_ref) {
                (Ok(idx), None) => Some(idx),
                (_, old) => old,
            };
            (
                Scan {
                    info: InitExprInfo { func_ref: f, ..st.info },
                    types: type_push(st.types, Some(ValType::TypedFuncRef)),
                },
                r.1,
                false,
            )
        },
        0xFD => (
            Scan {
                info: InitExprInfo {
                    has_non_const: st.info.has_non_const || (leb_u32(s, p).0 matches Ok(sub) && sub != 12),
                    ..st.info
                },
                types: type_push(st.types, Some(ValType::V128)),
            },
            onward(s, leb_u32(s, p).1, 16),
            false,
        ),
        0xFB => {
            let r = leb_u32(s, p);
            match r.0 {
                Ok(sub) => (
                    Scan {
                        info: InitExprInfo { has_non_const: st.info.has_non_const || !gc_const(sub), ..st.info },
                        types: scan_gc_types(s, r.1, sub, st.types, gc),
                    },
                    past_shape(s, r.1, gc_shape(sub)),
                    false,
                ),
                Err(_) => (st, r.1, false),
            }
        },
        0x6A => (Scan { types: type_combine(st.types, Some(ValType::I32)), ..st }, p, false),
        0x6B => (Scan { types: type_combine(st.types, Some(ValType::I32)), ..st }, p, false),
        0x6C => (Scan { types: type_combine(st.types, Some(ValType::I32)), ..st }, p, false),
        0x7C => (Scan { types: type_combine(st.types, Some(ValType::I64)), ..st }, p, false),
        0x7D => (Scan { types: type_combine(st.types, Some(ValType::I64)), ..st }, p, false),
        0x7E => (Scan { types: type_combine(st.types, Some(ValType::I64)), ..st }, p, false),
        _ => (Scan { info: InitExprInfo { has_non_const: true, ..st.info }, ..st }, p, true),
    }
}

/// Scans instructions from `p` on, until one stops the scan or the bytes end.
pub open spec fn scan_from(s: Seq<u8>, p: int, st: Scan, gc: Seq<GcType>) -> Scan
    decreases s.len() - p,
{
    if p < 0 || p >= s.len() {
        st
    } else {
        let r = scan_one(s, p + 1, s[p], st, gc);
        if r.2 {
            r.0
        } else {
            scan_from(s, r.1, r.0, gc)
        }
    }
}

/// What scanning the initializer at `start` finds.
#[verifier::opaque]
pub open spec fn init_info(s: Seq<u8>, start: int, gc: Seq<GcType>) -> InitExprInfo {
    let end = scan_from(s, start, Scan { info: InitExprInfo::nothing(), types: Seq::empty() }, gc);
    InitExprInfo {
        stack_depth: end.types.len() as u32,
        result_type: if end.types.len() > 0 {
            end.types.last()
        } else {
            None
        },
        ..end.info
    }
}

/// Pushes a type, unless the stack is full.
fn push_type(types: &mut Vec<Option<ValType>>, v: Option<ValType>)
    requires
        old(types)@.len() <= INIT_STACK,
    ensures
        final(types)@ == type_push(old(types)@, v),
        final(types)@.len() <= INIT_STACK,
{
    if types.len() < INIT_STACK {
        types.push(v);
    }
}

/// Drops up to `n` types from the top.
fn drop_types(types: &mut Vec<Option<ValType>>, n: usize)
    requires
        old(types)@.len() <= INIT_STACK,
    ensures
        final(types)@ == type_drop(old(types)@, n as int),
        final(types)@.len() <= INIT_STACK,
{
    let len: usize = types.len();
    if n <= len {
        types.truncate(len - n);
    } else {
        types.truncate(0);
    }
    assert(types@ =~= type_drop(old(types)@, n as int));
}

/// Replaces the top type, if there is one.
fn set_top_type(types: &mut Vec<Option<ValType>>, v: Option<ValType>)
    requires
        old(types)@.len() <= INIT_STACK,
    ensures
        final(types)@ == type_top(old(types)@, v),
        final(types)@.len() <= INIT_STACK,
{
    let len: usize = types.len();
    if len > 0 {
        types[len - 1] = v;
    }
}

/// Replaces the two top types by one, if there are two.
fn combine_types(types: &mut Vec<Option<ValType>>, v: Option<ValType>)
    requires
        old(types)@.len() <= INIT_STACK,
    ensures
        final(types)@ == type_combine(old(types)@, v),
        final(types)@.len() <= INIT_STACK,
{
    let len: usize = types.len();
    if len >= 2 {
        types.truncate(len - 2);
        types.push(v);
    }
}

/// Moves past immediates of a shape, each of which may be malformed.
fn pass_shape(bytes: &[u8], pos: &mut usize, shape: Shape)
    ensures
        *final(pos) == past_shape(bytes@, *old(pos) as int, shape),
{
    match shape {
        Shape::Empty => {},
        Shape::Index => {
            let _ = decode_leb128_u32(bytes, pos);
        },
        Shape::TwoIndices => {
            let _ = decode_leb128_u32(bytes, pos);
            let _ = decode_leb128_u32(bytes, pos);
        },
        Shape::Heap => {
            let _ = decode_leb128_i32(bytes, pos);
        },
        Shape::Cast => {
            let _ = read_byte(bytes, pos);
            let _ = decode_leb128_u32(bytes, pos);
            let _ = decode_leb128_i32(bytes, pos);
            let _ = decode_leb128_i32(bytes, pos);
        },
    }
}

/// Moves `n` bytes on, but not past the end of the bytes.
fn move_on(bytes: &[u8], pos: &mut usize, n: usize)
    requires
        *old(pos) <= bytes@.len(),
    ensures
        *final(pos) == onward(bytes@, *old(pos) as int, n as int),
{
    if n > bytes.len() - *pos {
        *pos = bytes.len();
    } else {
        *pos = *pos + n;
    }
}

/// The type of a null reference to a heap type.
fn type_of_null(ht: i32) -> (r: Option<ValType>)
    ensures
        r == null_type(ht),
{
    if ht == -0x10 {
        Some(ValType::FuncRef)
    } else if ht == -0x11 {
        Some(ValType::ExternRef)
    } else if ht == -0x12 {
        Some(ValType::NullableAnyRef)
    } else if ht == -0x13 {
        Some(ValType::NullableEqRef)
    } else if ht == -0x14 {
        Some(ValType::I31Ref)
    } else if ht == -0x15 {
        Some(ValType::NullableStructRef)
    } else if ht == -0x16 {
        Some(ValType::NullableArrayRef)
    } else if ht == -0x0F {
        Some(ValType::NoneRef)
    } else if ht == -0x0D {
        Some(ValType::NullFuncRef)
    } else if ht == -0x0E {
        Some(ValType::NullExternRef)
    } else if ht == -0x17 || ht == -0x0C {
        Some(ValType::ExnRef)
    } else if ht >= 0 {
        Some(ValType::NullableTypedFuncRef)
    } else {
        None
    }
}

/// The number of fields of the struct type numbered `idx`, zero for any other type.
fn count_struct_fields(gc_types: &[GcTypeDef], idx: u32) -> (r: usize)
    ensures
        r == struct_field_count(views(gc_types@), idx as int),
{
    if (idx as usize) < gc_types.len() {
        match &gc_types[idx as usize] {
            GcTypeDef::Struct { field_types, .. } => field_types.len(),
            _ => 0,
        }
    } else {
        0
    }
}

/// Scans the rest of an instruction with the prefix 0xFB.
fn scan_gc(bytes: &[u8], pos: &mut usize, sub: u32, types: &mut Vec<Option<ValType>>, gc_types: &[GcTypeDef])
    requires
        *old(pos) <= bytes@.len(),
        old(types)@.len() <= INIT_STACK,
    ensures
        final(types)@ == scan_gc_types(bytes@, *old(pos) as int, sub, old(types)@, views(gc_types@)),
        final(types)@.len() <= INIT_STACK,
        *final(pos) == past_shape(bytes@, *old(pos) as int, gc_shape(sub)),
{
    match sub {
        0 => {
            match decode_leb128_u32(bytes, pos) {
                Ok(idx) => {
                    drop_types(types, count_struct_fields(gc_types, idx));
                },
                Err(_) => {},
            }
            push_type(types, None);
        },
        8 => {
            let _ = decode_leb128_u32(bytes, pos);
            match decode_leb128_u32(bytes, pos) {
                Ok(count) => {
                    drop_types(types, count as usize);
                },
                Err(_) => {},
            }
            push_type(types, None);
        },
        _ => {
            pass_shape(bytes, pos, shape_of_gc(sub));
            match sub {
                1 => {
                    push_type(types, None);
                },
                6 | 9 | 10 => {
                    drop_types(types, 2);
                    push_type(types, None);
                },
                7 => {
                    drop_types(types, 1);
                    push_type(types, None);
                },
                2 | 3 | 4 => {
                    set_top_type(types, None);
                },
                5 => {
                    if types.len() >= 2 {
                        drop_types(types, 2);
                    }
                },
                11 | 12 | 13 => {
                    combine_types(types, None);
                },
                14 => {
                    if types.len() >= 3 {
                        drop_types(types, 3);
                    }
                },
                15 | 20 | 21 | 29 | 30 => {
                    set_top_type(types, Some(ValType::I32));
                },
                28 => {
                    if types.len() > 0 {
                        set_top_type(types, Some(ValType::I31Ref));
                    } else {
                        push_type(types, Some(ValType::I31Ref));
                    }
                },
                _ => {},
            }
        },
    }
}

/// Whether an instruction with the prefix 0xFB may stand in a constant expression.
fn is_gc_const(sub: u32) -> (r: bool)
    ensures
        r == gc_const(sub),
{
    sub <= 1 || (6 <= sub && sub <= 8) || (26 <= sub && sub <= 28)
}

/// Scans one instruction whose opcode `op` has been read; returns whether to stop.
fn scan_instruction(
    bytes: &[u8],
    pos: &mut usize,
    op: u8,
    info: &mut InitExprInfo,
    types: &mut Vec<Option<ValType>>,
    gc_types: &[GcTypeDef],
) -> (stop: bool)
    requires
        *old(pos) <= bytes@.len(),
        old(types)@.len() <= INIT_STACK,
    ensures
        ({
            let r = scan_one(
                bytes@,
                *old(pos) as int,
                op,
                Scan { info: *old(info), types: old(types)@ },
                views(gc_types@),
            );
            &&& r.0 == (Scan { info: *final(info), types: final(types)@ })
            &&& r.1 == *final(pos)
            &&& r.2 == stop
        }),
        *old(pos) <= *final(pos) <= bytes@.len(),
        final(types)@.len() <= INIT_STACK,
{
    match op {
        0x0B => {
            return true;
        },
        0x23 => {
            match decode_leb128_u32(bytes, pos) {
                Ok(idx) => {
                    let top: u32 = match info.global_ref {
                        Some(cur) => if cur >= idx {
                            cur
                        } else {
                            idx
                        },
                        None => idx,
                    };
                    info.global_ref = Some(top);
                    push_type(types, None);
                },
                Err(_) => {},
            }
        },
        0x41 => {
            let _ = decode_leb128_i32(bytes, pos);
            push_type(types, Some(ValType::I32));
        },
        0x42 => {
            let _ = decode_leb128_i64(bytes, pos);
            push_type(types, Some(ValType::I64));
        },
        0x43 => {
            move_on(bytes, pos, 4);
            push_type(types, Some(ValType::F32));
        },
        0x44 => {
            move_on(bytes, pos, 8);
            push_type(types, Some(ValType::F64));
        },
        0xD0 => {
            let t = match decode_leb128_i32(bytes, pos) {
                Ok(ht) => type_of_null(ht),
                Err(_) => None,
            };
            push_type(types, t);
        },
        0xD2 => {
            match decode_leb128_u32(bytes, pos) {
                Ok(idx) => {
                    if info.func_ref.is_none() {
                        info.func_ref = Some(idx);
                    }
                },
                Err(_) => {},
            }
            push_type(types, Some(ValType::TypedFuncRef));
        },
        0xFD => {
            if let Ok(sub) = decode_leb128_u32(bytes, pos) {
                if sub != 12 {
                    info.has_non_const = true;
                }
            }
            move_on(bytes, pos, 16);
            push_type(types, Some(ValType::V128));
        },
        0xFB => {
            match decode_leb128_u32(bytes, pos) {
                Ok(sub) => {
                    if !is_gc_const(sub) {
                        info.has_non_const = true;
                    }
                    scan_gc(bytes, pos, sub, types, gc_types);
                },
                Err(_) => {},
            }
        },
        0x6A | 0x6B | 0x6C => {
            combine_types(types, Some(ValType::I32));
        },
        0x7C | 0x7D | 0x7E => {
            combine_types(types, Some(ValType::I64));
        },
        _ => {
            info.has_non_const = true;
            return true;
        },
    }
    false
}

/// Scans the initializer at `start` without knowledge of struct types.
pub fn scan_init_expr_info(bytes: &[u8], start: usize) -> (r: InitExprInfo)
    ensures
        r == init_info(bytes@, start as int, Seq::empty()),
{
    let none: [GcTypeDef; 0] = [];
    assert(views(none@) =~= Seq::<GcType>::empty());
    scan_init_expr_info_gc(bytes, start, none.as_slice())
}

/// Scans the initializer at `start`.
pub fn scan_init_expr_info_gc(bytes: &[u8], start: usize, gc_types: &[GcTypeDef]) -> (r: InitExprInfo)
    ensures
        r == init_info(bytes@, start as int, views(gc_types@)),
{
    reveal(init_info);
    let mut pos: usize = start;
    let mut info = InitExprInfo::default();
    let mut types: Vec<Option<ValType>> = Vec::new();
    let ghost gc = views(gc_types@);
    let ghost begin = Scan { info: InitExprInfo::nothing(), types: Seq::empty() };
    let mut stop: bool = false;
    while !stop && pos < bytes.len()
        invariant
            types@.len() <= INIT_STACK,
            gc == views(gc_types@),
            scan_from(bytes@, start as int, begin, gc) == if stop {
                (Scan { info, types: types@ })
            } else {
                scan_from(bytes@, pos as int, Scan { info, types: types@ }, gc)
            },
            begin == (Scan { info: InitExprInfo::nothing(), types: Seq::empty() }),
        decreases if stop { 0int } else { 1 + bytes@.len() - pos },
    {
        let op: u8 = bytes[pos];
        pos = pos + 1;
        stop = scan_instruction(bytes, &mut pos, op, &mut info, &mut types, gc_types);
    }
    let depth: usize = types.len();
    info.stack_depth = depth as u32;
    info.result_type = if depth > 0 {
        types[depth - 1]
    } else {
        None
    };
    info
}

/// The highest global index that the initializer at `start` reads.
pub fn scan_init_expr_global_refs(bytes: &[u8], start: usize) -> (r: Option<u32>)
    ensures
        r == init_info(bytes@, start as int, Seq::empty()).global_ref,
{
    scan_init_expr_info(bytes, start).global_ref
}

// ---------------------------------------------------------------------------
// Evaluating

/// Pushes a value, unless the stack is full.
pub open spec fn value_push(st: Seq<Value>, v: Value) -> Seq<Value> {
    if st.len() < INIT_STACK {
        st.push(v)
    } else {
        st
    }
}

/// Replaces the top value, if there is one.
pub open spec fn value_top(st: Seq<Value>, v: Value) -> Seq<Value> {
    if st.len() > 0 {
        st.update(st.len() - 1, v)
    } else {
        st
    }
}

/// Drops `n` values if there are that many.
pub open spec fn value_drop(st: Seq<Value>, n: int) -> Seq<Value> {
    if st.len() >= n {
        st.take(st.len() - n)
    } else {
        st
    }
}

/// Replaces the two top values by one, if there are two.
pub open spec fn value_combine(st: Seq<Value>, v: Value) -> Seq<Value> {
    if st.len() >= 2 {
        st.take(st.len() - 2).push(v)
    } else {
        st
    }
}

/// The value of the global numbered `idx`, zero where it is not known.
pub open spec fn known_global(globals: Option<Seq<Value>>, idx: int) -> Value {
    match globals {
        Some(g) if idx < g.len() => g[idx],
        _ => Value::I32(0),
    }
}

/// What an instruction with the prefix 0xFB does to the values. Heap objects are
/// not made yet: zero stands for a reference to one.
pub open spec fn eval_gc(sub: u32, st: Seq<Value>) -> Seq<Value> {
    if sub <= 1 || 6 <= sub <= 10 {
        value_push(st, Value::I32(0))
    } else if 2 <= sub <= 4 || sub == 15 || sub == 20 || sub == 21 {
        value_top(st, Value::I32(0))
    } else if sub == 5 {
        value_drop(st, 2)
    } else if 11 <= sub <= 13 {
        value_combine(st, Value::I32(0))
    } else if sub == 14 {
        value_drop(st, 3)
    } else if sub == 29 && st.len() > 0 {
        value_top(st, Value::I32(i31_signed(st.last().i32_or_zero())))
    } else if sub == 30 && st.len() > 0 {
        value_top(st, Value::I32(i31_unsigned(st.last().i32_or_zero())))
    } else {
        st
    }
}

/// The wrapping sum, difference or product that an extended-const opcode names.
pub open spec fn const_arith32(op: u8, a: i32, b: i32) -> i32 {
    if op == 0x6A {
        a.wrapping_add(b)
    } else if op == 0x6B {
        a.wrapping_sub(b)
    } else {
        a.wrapping_mul(b)
    }
}

/// The wrapping sum, difference or product that an extended-const opcode names.
pub open spec fn const_arith64(op: u8, a: i64, b: i64) -> i64 {
    if op == 0x7C {
        a.wrapping_add(b)
    } else if op == 0x7D {
        a.wrapping_sub(b)
    } else {
        a.wrapping_mul(b)
    }
}

/// Evaluates one instruction whose opcode `op` has been read.
pub open spec fn eval_one(
    s: Seq<u8>,
    p: int,
    op: u8,
    st: Seq<Value>,
    globals: Option<Seq<Value>>,
) -> Parsed<Seq<Value>> {
    match op {
        0x41 => {
            let r = leb_i32(s, p);
            match r.0 {
                Ok(v) => (Ok(value_push(st, Value::I32(v))), r.1),
                Err(e) => (Err(e), r.1),
            }
        },
        0x42 => {
            let r = leb_i64(s, p);
            match r.0 {
                Ok(v) => (Ok(value_push(st, Value::I64(v))), r.1),
                Err(e) => (Err(e), r.1),
            }
        },
        0x43 => if p + 4 > s.len() {
            (Err(WasmError::UnexpectedEnd), p)
        } else {
            (Ok(value_push(st, Value::F32(le_u32(s, p)))), p + 4)
        },
        0x44 => if p + 8 > s.len() {
            (Err(WasmError::UnexpectedEnd), p)
        } else {
            (Ok(value_push(st, Value::F64(le_u64(s, p)))), p + 8)
        },
        0x23 => {
            let r = leb_u32(s, p);
            match r.0 {
                Ok(idx) => (Ok(value_push(st, known_global(globals, idx as int))), r.1),
                Err(e) => (Err(e), r.1),
            }
        },
        0xD0 => {
            let r = leb_i32(s, p);
            match r.0 {
                Ok(_) => (Ok(value_push(st, Value::NullRef)), r.1),
                Err(e) => (Err(e), r.1),
            }
        },
        0xD2 => {
            let r = leb_u32(s, p);
            match r.0 {
                Ok(idx) => (Ok(value_push(st, Value::I32(idx as i32))), r.1),
                Err(e) => (Err(e), r.1),
            }
        },
        0xFD => {
            let r = leb_u32(s, p);
            match r.0 {
                Err(e) => (Err(e), r.1),
                Ok(sub) => if sub != 12 {
                    (Err(WasmError::InvalidSection), r.1)
                } else if r.1 + 16 > s.len() {
                    (Err(WasmError::UnexpectedEnd), r.1)
                } else {
                    (Ok(value_push(st, Value::V128(v128_of(s.subrange(r.1, r.1 + 16))))), r.1 + 16)
                },
            }
        },
        0xFB => {
            let r = leb_u32(s, p);
            match r.0 {
                Err(e) => (Err(e), r.1),
                Ok(sub) => {
                    let q = shape_at(s, r.1, gc_shape(sub));
                    match q.0 {
                        Err(e) => (Err(e), q.1),
                        Ok(_) => (Ok(eval_gc(sub, st)), q.1),
                    }
                },
            }
        },
        _ => if 0x6A <= op <= 0x6C {
            (
                Ok(
                    value_combine(
                        st,
                        Value::I32(
                            const_arith32(op, st[st.len() - 2].i32_or_zero(), st[st.len() - 1].i32_or_zero()),
                        ),
                    ),
                ),
                p,
            )
        } else if 0x7C <= op <= 0x7E {
            (
                Ok(
                    value_combine(
                        st,
                        Value::I64(
                            const_arith64(op, st[st.len() - 2].i64_or_zero(), st[st.len() - 1].i64_or_zero()),
                        ),
                    ),
                ),
                p,
            )
        } else {
            (Err(WasmError::InvalidSection), p)
        },
    }
}

/// Evaluates instructions from `p` on, up to the end marker. The result is the top
/// value, or zero where none is left.
pub open spec fn eval_from(s: Seq<u8>, p: int, st: Seq<Value>, globals: Option<Seq<Value>>) -> Parsed<Value>
    decreases s.len() - p,
{
    if p < 0 || p >= s.len() {
        (Err(WasmError::UnexpectedEnd), p)
    } else if s[p] == 0x0B {
        (
            Ok(
                if st.len() > 0 {
                    st.last()
                } else {
                    Value::I32(0)
                },
            ),
            p + 1,
        )
    } else {
        let r = eval_one(s, p + 1, s[p], st, globals);
        match r.0 {
            Err(e) => (Err(e), r.1),
            Ok(next) => eval_from(s, r.1, next, globals),
        }
    }
}

/// The value of the initializer at `p`.
#[verifier::opaque]
pub open spec fn init_value(s: Seq<u8>, p: int, globals: Option<Seq<Value>>) -> Parsed<Value> {
    eval_from(s, p, Seq::empty(), globals)
}

proof fn eval_from_moves(s: Seq<u8>, p: int, st: Seq<Value>, globals: Option<Seq<Value>>)
    requires
        0 <= p <= s.len(),
    ensures
        p <= eval_from(s, p, st, globals).1 <= s.len(),
        eval_from(s, p, st, globals).0 is Ok ==> p < eval_from(s, p, st, globals).1,
    decreases s.len() - p,
{
    if p < s.len() && s[p] != 0x0B {
        let r = eval_one(s, p + 1, s[p], st, globals);
        if r.0 is Ok {
            eval_from_moves(s, r.1, r.0->Ok_0, globals);
        }
    }
}

/// Evaluating an initializer moves forward and stays within the bytes.
pub broadcast proof fn init_value_moves(s: Seq<u8>, p: int, globals: Option<Seq<Value>>)
    requires
        0 <= p <= s.len(),
    ensures
        p <= (#[trigger] init_value(s, p, globals)).1 <= s.len(),
        init_value(s, p, globals).0 is Ok ==> p < init_value(s, p, globals).1,
{
    reveal(init_value);
    eval_from_moves(s, p, Seq::empty(), globals);
}

/// Pushes a value, unless the stack is full.
fn push_value(st: &mut Vec<Value>, v: Value)
    ensures
        final(st)@ == value_push(old(st)@, v),
{
    if st.len() < INIT_STACK {
        st.push(v);
    }
}

/// Replaces the top value, if there is one.
pub(crate) fn set_top_value(st: &mut Vec<Value>, v: Value)
    ensures
        final(st)@ == value_top(old(st)@, v),
{
    let len: usize = st.len();
    if len > 0 {
        st[len - 1] = v;
    }
}

/// Drops `n` values if there are that many.
fn drop_values(st: &mut Vec<Value>, n: usize)
    ensures
        final(st)@ == value_drop(old(st)@, n as int),
{
    let len: usize = st.len();
    if len >= n {
        st.truncate(len - n);
    }
    assert(st@ =~= value_drop(old(st)@, n as int));
}

/// Replaces the two top values by one, if there are two.
pub(crate) fn combine_values(st: &mut Vec<Value>, v: Value)
    ensures
        final(st)@ == value_combine(old(st)@, v),
{
    let len: usize = st.len();
    if len >= 2 {
        st.truncate(len - 2);
        st.push(v);
    }
}

/// Applies an instruction with the prefix 0xFB to the values.
fn eval_gc_instruction(sub: u32, st: &mut Vec<Value>)
    ensures
        final(st)@ == eval_gc(sub, old(st)@),
{
    match sub {
        0 | 1 | 6 | 7 | 8 | 9 | 10 => {
            push_value(st, Value::I32(0));
        },
        2 | 3 | 4 | 15 | 20 | 21 => {
            set_top_value(st, Value::I32(0));
        },
        5 => {
            drop_values(st, 2);
        },
        11 | 12 | 13 => {
            combine_values(st, Value::I32(0));
        },
        14 => {
            drop_values(st, 3);
        },
        29 => {
            let len: usize = st.len();
            if len > 0 {
                let v: i32 = st[len - 1].as_i32();
                set_top_value(st, Value::I32(i31_get_s(v)));
            }
        },
        30 => {
            let len: usize = st.len();
            if len > 0 {
                let v: i32 = st[len - 1].as_i32();
                set_top_value(st, Value::I32(i31_get_u(v)));
            }
        },
        _ => {},
    }
}

/// Copies the sixteen bytes at `p` into a vector.
pub fn read_v128_at(bytes: &[u8], p: usize) -> (r: V128)
    requires
        p + 16 <= bytes@.len(),
    ensures
        r == v128_of(bytes@.subrange(p as int, p + 16)),
{
    let mut a: [u8; 16] = [0u8; 16];
    let mut i: usize = 0;
    while i < 16
        invariant
            i <= 16,
            p + 16 <= bytes@.len(),
            forall|j: int| 0 <= j < i ==> a@[j] == bytes@[p + j],
        decreases 16 - i,
    {
        assert(bytes@.len() == bytes.len());
        a[i] = bytes[p + i];
        i = i + 1;
    }
    let v = V128(a);
    proof {
        v128_from_own_bytes(v);
        assert(v.0@ =~= bytes@.subrange(p as int, p + 16));
    }
    v
}

/// Evaluates one instruction whose opcode `op` has been read.
fn eval_instruction(
    bytes: &[u8],
    pos: &mut usize,
    op: u8,
    st: &mut Vec<Value>,
    globals: Option<&[Value]>,
) -> (r: Result<(), WasmError>)
    requires
        *old(pos) <= bytes@.len(),
    ensures
        ({
            let g = match globals {
                Some(g) => Some(g@),
                None => None,
            };
            let e = eval_one(bytes@, *old(pos) as int, op, old(st)@, g);
            &&& *final(pos) == e.1
            &&& match r {
                Ok(_) => e.0 == Ok::<Seq<Value>, WasmError>(final(st)@),
                Err(x) => e.0 == Err::<Seq<Value>, WasmError>(x),
            }
        }),
        *old(pos) <= *final(pos) <= bytes@.len(),
{
    match op {
        0x41 => {
            let v: i32 = decode_leb128_i32(bytes, pos)?;
            push_value(st, Value::I32(v));
        },
        0x42 => {
            let v: i64 = decode_leb128_i64(bytes, pos)?;
            push_value(st, Value::I64(v));
        },
        0x43 => {
            if bytes.len() - *pos < 4 {
                return Err(WasmError::UnexpectedEnd);
            }
            let v: u32 = read_u32(bytes, *pos);
            *pos = *pos + 4;
            push_value(st, Value::F32(v));
        },
        0x44 => {
            if bytes.len() - *pos < 8 {
                return Err(WasmError::UnexpectedEnd);
            }
            let v: u64 = read_u64(bytes, *pos);
            *pos = *pos + 8;
            push_value(st, Value::F64(v));
        },
        0x23 => {
            let idx: u32 = decode_leb128_u32(bytes, pos)?;
            let v = match globals {
                Some(g) => if (idx as usize) < g.len() {
                    g[idx as usize]
                } else {
                    Value::I32(0)
                },
                None => Value::I32(0),
            };
            push_value(st, v);
        },
        0xD0 => {
            decode_leb128_i32(bytes, pos)?;
            push_value(st, Value::NullRef);
        },
        0xD2 => {
            let idx: u32 = decode_leb128_u32(bytes, pos)?;
            push_value(st, Value::I32(idx as i32));
        },
        0xFD => {
            let sub: u32 = decode_leb128_u32(bytes, pos)?;
            if sub != 12 {
                return Err(WasmError::InvalidSection);
            }
            if bytes.len() - *pos < 16 {
                return Err(WasmError::UnexpectedEnd);
            }
            let v = read_v128_at(bytes, *pos);
            *pos = *pos + 16;
            push_value(st, Value::V128(v));
        },
        0xFB => {
            let sub: u32 = decode_leb128_u32(bytes, pos)?;
            skip_shape(bytes, pos, shape_of_gc(sub))?;
            eval_gc_instruction(sub, st);
        },
        0x6A | 0x6B | 0x6C => {
            let len: usize = st.len();
            if len >= 2 {
                let b: i32 = st[len - 1].as_i32();
                let a: i32 = st[len - 2].as_i32();
                let v: i32 = if op == 0x6A {
                    a.wrapping_add(b)
                } else if op == 0x6B {
                    a.wrapping_sub(b)
                } else {
                    a.wrapping_mul(b)
                };
                combine_values(st, Value::I32(v));
            }
        },
        0x7C | 0x7D | 0x7E => {
            let len: usize = st.len();
            if len >= 2 {
                let b: i64 = st[len - 1].as_i64();
                let a: i64 = st[len - 2].as_i64();
                let v: i64 = if op == 0x7C {
                    a.wrapping_add(b)
                } else if op == 0x7D {
                    a.wrapping_sub(b)
                } else {
                    a.wrapping_mul(b)
                };
                combine_values(st, Value::I64(v));
            }
        },
        _ => {
            return Err(WasmError::InvalidSection);
        },
    }
    Ok(())
}

/// Evaluates an initializer that may read `globals`.
pub fn eval_init_expr_with_globals(bytes: &[u8], pos: &mut usize, globals: &[Value]) -> (r: Result<Value, WasmError>)
    ensures
        (r, *final(pos) as int) == init_value(bytes@, *old(pos) as int, Some(globals@)),
{
    eval_init_expr_inner(bytes, pos, Some(globals))
}

/// Evaluates an initializer while no global has a value yet.
pub fn eval_init_expr(bytes: &[u8], pos: &mut usize) -> (r: Result<Value, WasmError>)
    ensures
        (r, *final(pos) as int) == init_value(bytes@, *old(pos) as int, None),
{
    eval_init_expr_inner(bytes, pos, None)
}

/// Evaluates an initializer.
pub fn eval_init_expr_inner(bytes: &[u8], pos: &mut usize, globals: Option<&[Value]>) -> (r: Result<Value, WasmError>)
    ensures
        (r, *final(pos) as int) == init_value(
            bytes@,
            *old(pos) as int,
            match globals {
                Some(g) => Some(g@),
                None => None,
            },
        ),
{
    reveal(init_value);
    let ghost g = match globals {
        Some(g) => Some(g@),
        None => None,
    };
    let ghost start = *pos as int;
    let mut st: Vec<Value> = Vec::new();
    loop
        invariant
            start == *old(pos),
            g == match globals {
                Some(g) => Some(g@),
                None => None,
            },
            init_value(bytes@, start, g) == eval_from(bytes@, *pos as int, st@, g),
        decreases bytes@.len() - *pos,
    {
        let op: u8 = read_byte(bytes, pos)?;
        if op == 0x0B {
            let len: usize = st.len();
            return if len > 0 {
                Ok(st[len - 1])
            } else {
                Ok(Value::I32(0))
            };
        }
        eval_instruction(bytes, pos, op, &mut st, globals)?;
    }
}

} // verus!
