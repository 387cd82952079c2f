//! Decoding of value types, storage types and the type section.

use vstd::prelude::*;
use crate::gc_types::{GcType, GcTypeDef, StorageType, SubTypeInfo};
use crate::immediates::skipped;
use crate::module::{group_views, FuncType, FuncTypeDef, Module, WasmModule};
use crate::reader::{
    byte_at, decode_leb128_i32, decode_leb128_u32, group_leb_moves, leb_i32, leb_u32, peek_byte, read_byte, Parsed,
};
use crate::types::{ValType, WasmError, MAX_FUNCTIONS, MAX_PARAMS, MAX_RESULTS};

verus! {

broadcast use {group_leb_moves, group_views};

// ---------------------------------------------------------------------------
// Value types

/// The reference type that one byte spells.
pub open spec fn short_ref(b: u8) -> Option<ValType> {
    match b {
        0x70 => Some(ValType::FuncRef),
        0x6F => Some(ValType::ExternRef),
        0x6E => Some(ValType::NullableAnyRef),
        0x6D => Some(ValType::NullableEqRef),
        0x6C => Some(ValType::I31Ref),
        0x6B => Some(ValType::NullableStructRef),
        0x6A => Some(ValType::NullableArrayRef),
        0x73 => Some(ValType::NullFuncRef),
        0x72 => Some(ValType::NullExternRef),
        0x71 => Some(ValType::NoneRef),
        0x69 => Some(ValType::ExnRef),
        0x74 => Some(ValType::ExnRef),
        0x68 => Some(ValType::AnyRef),
        _ => None,
    }
}

/// The value type that one byte spells.
pub open spec fn short_type(b: u8) -> Option<ValType> {
    match b {
        0x7F => Some(ValType::I32),
        0x7E => Some(ValType::I64),
        0x7D => Some(ValType::F32),
        0x7C => Some(ValType::F64),
        0x7B => Some(ValType::V128),
        _ => short_ref(b),
    }
}

/// The type of a reference to a heap type, nullable or not.
pub open spec fn heap_ref(ht: i32, nullable: bool) -> Option<ValType> {
    if ht == -17 {
        Some(ValType::ExternRef)
    } else if ht == -16 {
        Some(if nullable { ValType::FuncRef } else { ValType::NonNullableFuncRef })
    } else if ht == -18 {
        Some(if nullable { ValType::NullableAnyRef } else { ValType::AnyRef })
    } else if ht == -19 {
        Some(if nullable { ValType::NullableEqRef } else { ValType::EqRef })
    } else if ht == -20 {
        Some(ValType::I31Ref)
    } else if ht == -21 {
        Some(if nullable { ValType::NullableStructRef } else { ValType::StructRef })
    } else if ht == -22 {
        Some(if nullable { ValType::NullableArrayRef } else { ValType::ArrayRef })
    } else if ht == -15 {
        Some(ValType::NoneRef)
    } else if ht == -14 {
        Some(ValType::NullExternRef)
    } else if ht == -13 {
        Some(ValType::NullFuncRef)
    } else if ht == -23 || ht == -12 {
        Some(ValType::ExnRef)
    } else if ht >= 0 {
        Some(if nullable { ValType::NullableTypedFuncRef } else { ValType::TypedFuncRef })
    } else {
        None
    }
}

/// The value type at `p`.
pub open spec fn valtype_at(s: Seq<u8>, p: int) -> Parsed<ValType> {
    let b = byte_at(s, p);
    match b.0 {
        Err(e) => (Err(e), b.1),
        Ok(x) => if x == 0x63 || x == 0x64 {
            let h = leb_i32(s, b.1);
            match h.0 {
                Err(e) => (Err(e), h.1),
                Ok(ht) => match heap_ref(ht, x == 0x63) {
                    Some(t) => (Ok(t), h.1),
                    None => (Err(WasmError::TypeMismatch), h.1),
                },
            }
        } else {
            match short_type(x) {
                Some(t) => (Ok(t), b.1),
                None => (Err(WasmError::TypeMismatch), b.1),
            }
        },
    }
}

/// Whether a heap type belongs to the garbage-collection proposal.
pub open spec fn gc_heap(ht: i32) -> bool {
    -23 <= ht <= -18 || -15 <= ht <= -12 || ht >= 0
}

/// Whether a one-byte type turns the garbage-collection proposal on.
pub open spec fn gc_short(b: u8) -> bool {
    0x68 <= b <= 0x6E || 0x71 <= b <= 0x74
}

/// What reading into a module gives: what was read, or the error and the module that the
/// failure leaves; and the position reached.
pub type Reading<T> = (Result<T, (WasmError, Module)>, int);

/// What a value type at `p` tells about the module it stands in.
pub open spec fn noted(s: Seq<u8>, p: int, m: Module) -> Module {
    let b = byte_at(s, p);
    match b.0 {
        Err(_) => m,
        Ok(x) => if x == 0x63 || x == 0x64 {
            match leb_i32(s, b.1).0 {
                Err(_) => m,
                Ok(ht) => Module {
                    gc_enabled: m.gc_enabled || gc_heap(ht),
                    has_self_ref_types: m.has_self_ref_types || (ht >= 0 && ht as u32 == m.func_types.len() as u32),
                    ..m
                },
            }
        } else {
            Module { gc_enabled: m.gc_enabled || gc_short(x), ..m }
        },
    }
}

/// The value type at `p`, in which a concrete type index must be below `limit`, and
/// the module with what the type tells about it.
pub open spec fn valtype_gc(s: Seq<u8>, p: int, m: Module, limit: u32) -> Reading<(ValType, Module)> {
    let b = byte_at(s, p);
    match b.0 {
        Err(e) => (Err((e, m)), b.1),
        Ok(x) => {
            let h = leb_i32(s, b.1);
            if (x == 0x63 || x == 0x64) && h.0 is Err {
                (Err((h.0->Err_0, m)), h.1)
            } else if (x == 0x63 || x == 0x64) && h.0->Ok_0 >= 0 && h.0->Ok_0 as u32 >= limit {
                (Err((WasmError::TypeMismatch, Module { gc_enabled: true, ..m })), h.1)
            } else {
                let r = valtype_at(s, p);
                match r.0 {
                    Err(e) => (Err((e, noted(s, p, m))), r.1),
                    Ok(t) => (Ok((t, noted(s, p, m))), r.1),
                }
            }
        },
    }
}

/// The reference type at `p`, in which a concrete type index must be below `limit`.
pub open spec fn reftype_at(s: Seq<u8>, p: int, limit: u32) -> Parsed<ValType> {
    let b = byte_at(s, p);
    match b.0 {
        Err(e) => (Err(e), b.1),
        Ok(x) => if x == 0x63 || x == 0x64 {
            let h = leb_i32(s, b.1);
            match h.0 {
                Err(e) => (Err(e), h.1),
                Ok(ht) => if ht == -16 {
                    (Ok(if x == 0x63 { ValType::FuncRef } else { ValType::TypedFuncRef }), h.1)
                } else if ht == -17 {
                    (Ok(ValType::ExternRef), h.1)
                } else if ht >= 0 && ht as u32 >= limit {
                    (Err(WasmError::TypeMismatch), h.1)
                } else {
                    (Ok(if x == 0x63 { ValType::NullableTypedFuncRef } else { ValType::TypedFuncRef }), h.1)
                },
            }
        } else {
            match short_ref(x) {
                Some(t) => (Ok(t), b.1),
                None => (Err(WasmError::TypeMismatch), b.1),
            }
        },
    }
}

/// Reading a value type moves forward and stays within the bytes.
pub broadcast proof fn valtype_gc_moves(s: Seq<u8>, p: int, m: Module, limit: u32)
    requires
        0 <= p <= s.len(),
    ensures
        p <= (#[trigger] valtype_gc(s, p, m, limit)).1 <= s.len(),
        valtype_gc(s, p, m, limit).0 is Ok ==> p < valtype_gc(s, p, m, limit).1,
{
}

/// Reading a reference type moves forward and stays within the bytes.
pub broadcast proof fn reftype_moves(s: Seq<u8>, p: int, limit: u32)
    requires
        0 <= p <= s.len(),
    ensures
        p <= (#[trigger] reftype_at(s, p, limit)).1 <= s.len(),
{
}

/// The reference type that one byte spells.
pub fn short_ref_type(b: u8) -> (r: Option<ValType>)
    ensures
        r == short_ref(b),
{
    match b {
        0x70 => Some(ValType::FuncRef),
        0x6F => Some(ValType::ExternRef),
        0x6E => Some(ValType::NullableAnyRef),
        0x6D => Some(ValType::NullableEqRef),
        0x6C => Some(ValType::I31Ref),
        0x6B => Some(ValType::NullableStructRef),
        0x6A => Some(ValType::NullableArrayRef),
        0x73 => Some(ValType::NullFuncRef),
        0x72 => Some(ValType::NullExternRef),
        0x71 => Some(ValType::NoneRef),
        0x69 => Some(ValType::ExnRef),
        0x74 => Some(ValType::ExnRef),
        0x68 => Some(ValType::AnyRef),
        _ => None,
    }
}

/// The value type that one byte spells.
pub fn decode_valtype(b: u8) -> (r: Result<ValType, WasmError>)
    ensures
        r == match short_type(b) {
            Some(t) => Ok::<ValType, WasmError>(t),
            None => Err(WasmError::TypeMismatch),
        },
{
    match b {
        0x7F => Ok(ValType::I32),
        0x7E => Ok(ValType::I64),
        0x7D => Ok(ValType::F32),
        0x7C => Ok(ValType::F64),
        0x7B => Ok(ValType::V128),
        _ => match short_ref_type(b) {
            Some(t) => Ok(t),
            None => Err(WasmError::TypeMismatch),
        },
    }
}

/// The type of a reference to a heap type, nullable or not.
fn heap_ref_type(ht: i32, nullable: bool) -> (r: Option<ValType>)
    ensures
        r == heap_ref(ht, nullable),
{
    if ht == -17 {
        Some(ValType::ExternRef)
    } else if ht == -16 {
        Some(if nullable { ValType::FuncRef } else { ValType::NonNullableFuncRef })
    } else if ht == -18 {
        Some(if nullable { ValType::NullableAnyRef } else { ValType::AnyRef })
    } else if ht == -19 {
        Some(if nullable { ValType::NullableEqRef } else { ValType::EqRef })
    } else if ht == -20 {
        Some(ValType::I31Ref)
    } else if ht == -21 {
        Some(if nullable { ValType::NullableStructRef } else { ValType::StructRef })
    } else if ht == -22 {
        Some(if nullable { ValType::NullableArrayRef } else { ValType::ArrayRef })
    } else if ht == -15 {
        Some(ValType::NoneRef)
    } else if ht == -14 {
        Some(ValType::NullExternRef)
    } else if ht == -13 {
        Some(ValType::NullFuncRef)
    } else if ht == -23 || ht == -12 {
        Some(ValType::ExnRef)
    } else if ht >= 0 {
        Some(if nullable { ValType::NullableTypedFuncRef } else { ValType::TypedFuncRef })
    } else {
        None
    }
}

/// Reads a value type, of one byte or with a heap type behind it.
pub fn decode_valtype_from_stream(bytes: &[u8], pos: &mut usize) -> (r: Result<ValType, WasmError>)
    ensures
        (r, *final(pos) as int) == valtype_at(bytes@, *old(pos) as int),
{
    let b: u8 = read_byte(bytes, pos)?;
    if b == 0x63 || b == 0x64 {
        let ht: i32 = decode_leb128_i32(bytes, pos)?;
        match heap_ref_type(ht, b == 0x63) {
            Some(t) => Ok(t),
            None => Err(WasmError::TypeMismatch),
        }
    } else {
        decode_valtype(b)
    }
}

/// Whether a heap type belongs to the garbage-collection proposal.
fn is_gc_heap_type(ht: i32) -> (r: bool)
    ensures
        r == gc_heap(ht),
{
    (-23 <= ht && ht <= -18) || (-15 <= ht && ht <= -12) || ht >= 0
}

/// Reads a value type in which a concrete type index must be below `max_type_idx`,
/// and notes on the module what the type tells about it.
pub fn decode_valtype_gc_aware_with_limit(
    bytes: &[u8],
    pos: &mut usize,
    module: &mut WasmModule,
    max_type_idx: u32,
) -> (r: Result<ValType, WasmError>)
    requires
        old(module).wf(),
    ensures
        ({
            let e = valtype_gc(bytes@, *old(pos) as int, old(module)@, max_type_idx);
            &&& *final(pos) == e.1
            &&& match r {
                Ok(t) => e.0 == Ok::<(ValType, Module), (WasmError, Module)>((t, final(module)@)),
                Err(x) => e.0 == Err::<(ValType, Module), (WasmError, Module)>((x, final(module)@)),
            }
        }),
        final(module).wf(),
        old(module).aligned() ==> final(module).aligned(),
        final(module).func_types@ == old(module).func_types@,
        final(module).functions@ == old(module).functions@,
{
    let saved: usize = *pos;
    let b: u8 = read_byte(bytes, pos)?;
    if b == 0x63 || b == 0x64 {
        let ht: i32 = decode_leb128_i32(bytes, pos)?;
        if is_gc_heap_type(ht) {
            module.gc_enabled = true;
        }
        if ht >= 0 && (ht as u32) >= max_type_idx {
            return Err(WasmError::TypeMismatch);
        }
        if ht >= 0 {
            let current_idx: u32 = module.func_types.len() as u32;
            if ht as u32 == current_idx {
                module.has_self_ref_types = true;
            }
        }
    } else if (0x68 <= b && b <= 0x6E) || (0x71 <= b && b <= 0x74) {
        module.gc_enabled = true;
    }
    *pos = saved;
    decode_valtype_from_stream(bytes, pos)
}

/// Reads a reference type in which a concrete type index must be below `max_type_idx`.
pub fn decode_reftype_real_with_limit(bytes: &[u8], pos: &mut usize, max_type_idx: u32) -> (r: Result<
    ValType,
    WasmError,
>)
    ensures
        (r, *final(pos) as int) == reftype_at(bytes@, *old(pos) as int, max_type_idx),
{
    let b: u8 = read_byte(bytes, pos)?;
    if b == 0x63 || b == 0x64 {
        let ht: i32 = decode_leb128_i32(bytes, pos)?;
        if ht == -16 {
            Ok(if b == 0x63 { ValType::FuncRef } else { ValType::TypedFuncRef })
        } else if ht == -17 {
            Ok(ValType::ExternRef)
        } else {
            if ht >= 0 && (ht as u32) >= max_type_idx {
                return Err(WasmError::TypeMismatch);
            }
            Ok(if b == 0x63 { ValType::NullableTypedFuncRef } else { ValType::TypedFuncRef })
        }
    } else {
        match short_ref_type(b) {
            Some(t) => Ok(t),
            None => Err(WasmError::TypeMismatch),
        }
    }
}

/// Reads a value type, and notes on the module what the type tells about it.
pub fn decode_valtype_gc_aware(bytes: &[u8], pos: &mut usize, module: &mut WasmModule) -> (r: Result<
    ValType,
    WasmError,
>)
    requires
        old(module).wf(),
    ensures
        ({
            let e = valtype_gc(bytes@, *old(pos) as int, old(module)@, u32::MAX);
            &&& *final(pos) == e.1
            &&& match r {
                Ok(t) => e.0 == Ok::<(ValType, Module), (WasmError, Module)>((t, final(module)@)),
                Err(x) => e.0 == Err::<(ValType, Module), (WasmError, Module)>((x, final(module)@)),
            }
        }),
        final(module).wf(),
        old(module).aligned() ==> final(module).aligned(),
{
    decode_valtype_gc_aware_with_limit(bytes, pos, module, u32::MAX)
}

/// Reads a reference type.
pub fn decode_reftype_real(bytes: &[u8], pos: &mut usize) -> (r: Result<ValType, WasmError>)
    ensures
        (r, *final(pos) as int) == reftype_at(bytes@, *old(pos) as int, u32::MAX),
{
    decode_reftype_real_with_limit(bytes, pos, u32::MAX)
}

/// A reference type at `p` of which nothing is kept: the type of the number that a
/// reference is held as stands for it.
pub open spec fn any_reftype_at(s: Seq<u8>, p: int) -> Parsed<ValType> {
    let b = byte_at(s, p);
    match b.0 {
        Err(e) => (Err(e), b.1),
        Ok(x) => if x == 0x63 || x == 0x64 {
            let h = leb_i32(s, b.1);
            match h.0 {
                Err(e) => (Err(e), h.1),
                Ok(_) => (Ok(ValType::I32), h.1),
            }
        } else if 0x68 <= x <= 0x74 {
            (Ok(ValType::I32), b.1)
        } else {
            (Err(WasmError::TypeMismatch), b.1)
        },
    }
}

/// Reads a reference type of which nothing is kept.
pub fn decode_reftype_from_stream(bytes: &[u8], pos: &mut usize) -> (r: Result<ValType, WasmError>)
    ensures
        (r, *final(pos) as int) == any_reftype_at(bytes@, *old(pos) as int),
{
    let b: u8 = read_byte(bytes, pos)?;
    if b == 0x63 || b == 0x64 {
        decode_leb128_i32(bytes, pos)?;
        Ok(ValType::I32)
    } else if 0x68 <= b && b <= 0x74 {
        Ok(ValType::I32)
    } else {
        Err(WasmError::TypeMismatch)
    }
}

// ---------------------------------------------------------------------------
// Storage types

/// The storage type at `p`, in which a concrete type index must be below `limit`.
pub open spec fn storage_at(s: Seq<u8>, p: int, m: Module, limit: u32) -> Reading<(StorageType, Module)> {
    match byte_at(s, p).0 {
        Err(e) => (Err((e, m)), p),
        Ok(x) => if x == 0x78 {
            (Ok((StorageType::I8, m)), p + 1)
        } else if x == 0x77 {
            (Ok((StorageType::I16, m)), p + 1)
        } else {
            let r = valtype_gc(s, p, m, limit);
            match r.0 {
                Err(e) => (Err(e), r.1),
                Ok((t, m2)) => if (x == 0x63 || x == 0x64) && leb_i32(s, p + 1).0->Ok_0 >= 0 {
                    (Ok((StorageType::RefType(t, leb_i32(s, p + 1).0->Ok_0 as u32), m2)), r.1)
                } else {
                    (Ok((StorageType::Val(t), m2)), r.1)
                },
            }
        },
    }
}

/// Reads a storage type in which a concrete type index must be below `max_type_idx`.
pub fn decode_storage_type_with_limit(
    bytes: &[u8],
    pos: &mut usize,
    module: &mut WasmModule,
    max_type_idx: u32,
) -> (r: Result<StorageType, WasmError>)
    requires
        old(module).wf(),
    ensures
        ({
            let e = storage_at(bytes@, *old(pos) as int, old(module)@, max_type_idx);
            &&& *final(pos) == e.1
            &&& match r {
                Ok(t) => e.0 == Ok::<(StorageType, Module), (WasmError, Module)>((t, final(module)@)),
                Err(x) => e.0 == Err::<(StorageType, Module), (WasmError, Module)>((x, final(module)@)),
            }
        }),
        final(module).wf(),
        old(module).aligned() ==> final(module).aligned(),
        final(module).func_types@ == old(module).func_types@,
{
    let b: u8 = peek_byte(bytes, *pos)?;
    assert(bytes@.len() == bytes.len());
    if b == 0x78 {
        *pos = *pos + 1;
        return Ok(StorageType::I8);
    }
    if b == 0x77 {
        *pos = *pos + 1;
        return Ok(StorageType::I16);
    }
    if b == 0x63 || b == 0x64 {
        let mut ahead: usize = *pos + 1;
        let heap = decode_leb128_i32(bytes, &mut ahead);
        let t = decode_valtype_gc_aware_with_limit(bytes, pos, module, max_type_idx)?;
        match heap {
            Ok(ht) => {
                if ht >= 0 {
                    return Ok(StorageType::RefType(t, ht as u32));
                }
            },
            Err(_) => {},
        }
        Ok(StorageType::Val(t))
    } else {
        let t = decode_valtype_gc_aware_with_limit(bytes, pos, module, max_type_idx)?;
        Ok(StorageType::Val(t))
    }
}

/// The storage type at `p`, of which a concrete type index is not kept.
pub open spec fn plain_storage_at(s: Seq<u8>, p: int) -> Parsed<StorageType> {
    match byte_at(s, p).0 {
        Err(e) => (Err(e), p),
        Ok(x) => if x == 0x78 {
            (Ok(StorageType::I8), p + 1)
        } else if x == 0x77 {
            (Ok(StorageType::I16), p + 1)
        } else {
            let r = valtype_at(s, p);
            match r.0 {
                Err(e) => (Err(e), r.1),
                Ok(t) => (Ok(StorageType::Val(t)), r.1),
            }
        },
    }
}

/// Reads a storage type, of which a concrete type index is not kept.
pub fn decode_storage_type(bytes: &[u8], pos: &mut usize) -> (r: Result<StorageType, WasmError>)
    ensures
        (r, *final(pos) as int) == plain_storage_at(bytes@, *old(pos) as int),
{
    let b: u8 = peek_byte(bytes, *pos)?;
    assert(bytes@.len() == bytes.len());
    if b == 0x78 {
        *pos = *pos + 1;
        return Ok(StorageType::I8);
    }
    if b == 0x77 {
        *pos = *pos + 1;
        return Ok(StorageType::I16);
    }
    let t = decode_valtype_from_stream(bytes, pos)?;
    Ok(StorageType::Val(t))
}

/// Skips a storage type.
pub fn skip_storage_type(bytes: &[u8], pos: &mut usize) -> (r: Result<(), WasmError>)
    ensures
        (r, *final(pos) as int) == skipped(plain_storage_at(bytes@, *old(pos) as int)),
{
    decode_storage_type(bytes, pos)?;
    Ok(())
}

// ---------------------------------------------------------------------------
// Composite types

/// Skips `n` unsigned indices.
pub open spec fn skip_indices(s: Seq<u8>, p: int, n: nat) -> Parsed<()>
    decreases n,
{
    if n == 0 {
        (Ok(()), p)
    } else {
        let r = leb_u32(s, p);
        match r.0 {
            Err(e) => (Err(e), r.1),
            Ok(_) => skip_indices(s, r.1, (n - 1) as nat),
        }
    }
}

/// Skips `n` unsigned indices.
pub fn skip_u32s(bytes: &[u8], pos: &mut usize, n: usize) -> (r: Result<(), WasmError>)
    ensures
        (r, *final(pos) as int) == skip_indices(bytes@, *old(pos) as int, n as nat),
{
    let mut i: usize = 0;
    let ghost start = *pos as int;
    while i < n
        invariant
            i <= n,
            start == *old(pos),
            skip_indices(bytes@, start, n as nat) == skip_indices(bytes@, *pos as int, (n - i) as nat),
        decreases n - i,
    {
        decode_leb128_u32(bytes, pos)?;
        i = i + 1;
    }
    Ok(())
}

pub proof fn skip_indices_moves(s: Seq<u8>, p: int, n: nat)
    requires
        0 <= p <= s.len(),
    ensures
        p <= skip_indices(s, p, n).1 <= s.len(),
    decreases n,
{
    if n > 0 && leb_u32(s, p).0 is Ok {
        skip_indices_moves(s, leb_u32(s, p).1, (n - 1) as nat);
    }
}

/// The header of a composite type: its place in the subtype hierarchy, the byte
/// that says what kind of type follows, and the module with subtyping noted on it.
pub open spec fn sub_header(s: Seq<u8>, p: int, m: Module) -> Reading<(SubTypeInfo, u8, Module)> {
    let plain = SubTypeInfo { supertype: None, is_final: true, rec_group_start: 0, rec_group_size: 1 };
    let b = byte_at(s, p);
    match b.0 {
        Err(e) => (Err((e, m)), b.1),
        Ok(x) => if x == 0x50 || x == 0x4F {
            let m2 = Module { gc_enabled: true, ..m };
            let c = leb_u32(s, b.1);
            match c.0 {
                Err(e) => (Err((e, m2)), c.1),
                Ok(count) => if count == 0 {
                    let k = byte_at(s, c.1);
                    match k.0 {
                        Err(e) => (Err((e, m2)), k.1),
                        Ok(kind) => (Ok((SubTypeInfo { is_final: x == 0x4F, ..plain }, kind, m2)), k.1),
                    }
                } else {
                    let f = leb_u32(s, c.1);
                    match f.0 {
                        Err(e) => (Err((e, m2)), f.1),
                        Ok(first) => {
                            let rest = skip_indices(s, f.1, (count - 1) as nat);
                            match rest.0 {
                                Err(e) => (Err((e, m2)), rest.1),
                                Ok(_) => {
                                    let k = byte_at(s, rest.1);
                                    match k.0 {
                                        Err(e) => (Err((e, m2)), k.1),
                                        Ok(kind) => (
                                            Ok(
                                                (
                                                    SubTypeInfo {
                                                        supertype: Some(first),
                                                        is_final: x == 0x4F,
                                                        ..plain
                                                    },
                                                    kind,
                                                    m2,
                                                ),
                                            ),
                                            k.1,
                                        ),
                                    }
                                },
                            }
                        },
                    }
                },
            }
        } else {
            (Ok((plain, x, m)), b.1)
        },
    }
}

/// `n` value types at `p`, after those in `acc`.
pub open spec fn valtypes_at(
    s: Seq<u8>,
    p: int,
    n: nat,
    m: Module,
    limit: u32,
    acc: Seq<ValType>,
) -> Reading<(Seq<ValType>, Module)>
    decreases n,
{
    if n == 0 {
        (Ok((acc, m)), p)
    } else {
        let r = valtype_gc(s, p, m, limit);
        match r.0 {
            Err(e) => (Err(e), r.1),
            Ok((t, m2)) => valtypes_at(s, r.1, (n - 1) as nat, m2, limit, acc.push(t)),
        }
    }
}

/// A mutability byte: zero or one.
pub open spec fn mutability_at(s: Seq<u8>, p: int) -> Parsed<bool> {
    let b = byte_at(s, p);
    match b.0 {
        Err(e) => (Err(e), b.1),
        Ok(x) => if x > 1 {
            (Err(WasmError::InvalidSection), b.1)
        } else {
            (Ok(x != 0), b.1)
        },
    }
}

/// `n` fields at `p`, after those in `types` and `muts`.
pub open spec fn fields_at(
    s: Seq<u8>,
    p: int,
    n: nat,
    m: Module,
    limit: u32,
    types: Seq<StorageType>,
    muts: Seq<bool>,
) -> Reading<(Seq<StorageType>, Seq<bool>, Module)>
    decreases n,
{
    if n == 0 {
        (Ok((types, muts, m)), p)
    } else {
        let r = storage_at(s, p, m, limit);
        match r.0 {
            Err(e) => (Err(e), r.1),
            Ok((t, m2)) => {
                let b = mutability_at(s, r.1);
                match b.0 {
                    Err(e) => (Err((e, m2)), b.1),
                    Ok(mt) => fields_at(s, b.1, (n - 1) as nat, m2, limit, types.push(t), muts.push(mt)),
                }
            },
        }
    }
}

/// The module with one more type.
pub open spec fn with_type(m: Module, f: FuncType, g: GcType, i: SubTypeInfo) -> Module {
    Module { func_types: m.func_types.push(f), gc_types: m.gc_types.push(g), sub_types: m.sub_types.push(i), ..m }
}

/// At most `max` value types with their count in front.
pub open spec fn counted_valtypes(s: Seq<u8>, p: int, max: int, m: Module, limit: u32) -> Reading<
    (Seq<ValType>, Module),
> {
    let c = leb_u32(s, p);
    match c.0 {
        Err(e) => (Err((e, m)), c.1),
        Ok(count) => if count > max {
            (Err((WasmError::TooManyFunctions, m)), c.1)
        } else {
            valtypes_at(s, c.1, count as nat, m, limit, Seq::empty())
        },
    }
}

/// The function type whose parameters and results stand at `p`.
pub open spec fn func_type_at(s: Seq<u8>, p: int, m: Module, limit: u32, info: SubTypeInfo) -> Reading<Module> {
    let a = counted_valtypes(s, p, MAX_PARAMS as int, m, limit);
    match a.0 {
        Err(e) => (Err(e), a.1),
        Ok((params, m2)) => {
            let b = counted_valtypes(s, a.1, MAX_RESULTS as int, m2, limit);
            match b.0 {
                Err(e) => (Err(e), b.1),
                Ok((results, m3)) => (Ok(with_type(m3, FuncType { params, results }, GcType::Func, info)), b.1),
            }
        },
    }
}

/// The signature that stands at the index of a struct or array type.
pub open spec fn no_signature() -> FuncType {
    FuncType { params: Seq::empty(), results: Seq::empty() }
}

/// The array type whose element stands at `p`.
pub open spec fn array_type_at(s: Seq<u8>, p: int, m: Module, limit: u32, info: SubTypeInfo) -> Reading<Module> {
    let r = storage_at(s, p, Module { gc_enabled: true, ..m }, limit);
    match r.0 {
        Err(e) => (Err(e), r.1),
        Ok((t, m2)) => {
            let b = mutability_at(s, r.1);
            match b.0 {
                Err(e) => (Err((e, m2)), b.1),
                Ok(mt) => (
                    Ok(with_type(m2, no_signature(), GcType::Array { elem_type: t, elem_mutable: mt }, info)),
                    b.1,
                ),
            }
        },
    }
}

/// The struct type whose fields stand at `p`.
pub open spec fn struct_type_at(s: Seq<u8>, p: int, m: Module, limit: u32, info: SubTypeInfo) -> Reading<Module> {
    let c = leb_u32(s, p);
    match c.0 {
        Err(e) => (Err((e, Module { gc_enabled: true, ..m })), c.1),
        Ok(count) => {
            let r = fields_at(
                s,
                c.1,
                count as nat,
                Module { gc_enabled: true, ..m },
                limit,
                Seq::empty(),
                Seq::empty(),
            );
            match r.0 {
                Err(e) => (Err(e), r.1),
                Ok((field_types, field_muts, m2)) => (
                    Ok(with_type(m2, no_signature(), GcType::Struct { field_types, field_muts }, info)),
                    r.1,
                ),
            }
        },
    }
}

/// The composite type at `p`, in which a concrete type index must be below `limit`.
pub open spec fn composite_at(s: Seq<u8>, p: int, m: Module, limit: u32) -> Reading<Module> {
    let h = sub_header(s, p, m);
    match h.0 {
        Err(e) => (Err(e), h.1),
        Ok((info, kind, m2)) => if kind == 0x60 {
            func_type_at(s, h.1, m2, limit, info)
        } else if kind == 0x5E {
            array_type_at(s, h.1, m2, limit, info)
        } else if kind == 0x5F {
            struct_type_at(s, h.1, m2, limit, info)
        } else {
            (Err((WasmError::InvalidSection, m2)), h.1)
        },
    }
}

/// What a function that adds to the module promises: its result, where it stopped and the
/// module that it leaves are as `e` says.
pub open spec fn yields(r: Result<(), WasmError>, pos: usize, module: WasmModule, e: Reading<Module>) -> bool {
    &&& pos == e.1
    &&& match r {
        Ok(_) => e.0 == Ok::<Module, (WasmError, Module)>(module@),
        Err(x) => e.0 == Err::<Module, (WasmError, Module)>((x, module@)),
    }
}

/// Reads the header of a composite type.
fn decode_sub_header(bytes: &[u8], pos: &mut usize, module: &mut WasmModule) -> (r: Result<
    (SubTypeInfo, u8),
    WasmError,
>)
    requires
        old(module).wf(),
    ensures
        ({
            let e = sub_header(bytes@, *old(pos) as int, old(module)@);
            &&& *final(pos) == e.1
            &&& match r {
                Ok(h) => e.0 == Ok::<(SubTypeInfo, u8, Module), (WasmError, Module)>((h.0, h.1, final(module)@)),
                Err(x) => e.0 == Err::<(SubTypeInfo, u8, Module), (WasmError, Module)>((x, final(module)@)),
            }
        }),
        final(module).wf(),
        old(module).aligned() ==> final(module).aligned(),
{
    let marker: u8 = read_byte(bytes, pos)?;
    let mut info = SubTypeInfo { supertype: None, is_final: true, rec_group_start: 0, rec_group_size: 1 };
    if marker == 0x50 || marker == 0x4F {
        module.gc_enabled = true;
        info.is_final = marker == 0x4F;
        let count: usize = decode_leb128_u32(bytes, pos)? as usize;
        if count > 0 {
            let first: u32 = decode_leb128_u32(bytes, pos)?;
            info.supertype = Some(first);
            skip_u32s(bytes, pos, count - 1)?;
        }
        let kind: u8 = read_byte(bytes, pos)?;
        Ok((info, kind))
    } else {
        Ok((info, marker))
    }
}

/// Reads at most `max` value types with their count in front.
fn decode_valtypes(bytes: &[u8], pos: &mut usize, max: usize, module: &mut WasmModule, limit: u32) -> (r: Result<
    Vec<ValType>,
    WasmError,
>)
    requires
        old(module).wf(),
    ensures
        ({
            let e = counted_valtypes(bytes@, *old(pos) as int, max as int, old(module)@, limit);
            &&& *final(pos) == e.1
            &&& match r {
                Ok(v) => v@.len() <= max && e.0 == Ok::<(Seq<ValType>, Module), (WasmError, Module)>(
                    (v@, final(module)@),
                ),
                Err(x) => e.0 == Err::<(Seq<ValType>, Module), (WasmError, Module)>((x, final(module)@)),
            }
        }),
        final(module).wf(),
        old(module).aligned() ==> final(module).aligned(),
{
    let count: u32 = decode_leb128_u32(bytes, pos)?;
    if count as usize > max {
        return Err(WasmError::TooManyFunctions);
    }
    let mut v: Vec<ValType> = Vec::new();
    let mut i: u32 = 0;
    let ghost p = *pos as int;
    let ghost m = module@;
    while i < count
        invariant
            i <= count <= max,
            v@.len() == i,
            module.wf(),
            old(module).aligned() ==> module.aligned(),
            valtypes_at(bytes@, p, count as nat, m, limit, Seq::empty()) == valtypes_at(
                bytes@,
                *pos as int,
                (count - i) as nat,
                module@,
                limit,
                v@,
            ),
            counted_valtypes(bytes@, *old(pos) as int, max as int, old(module)@, limit) == valtypes_at(
                bytes@,
                p,
                count as nat,
                m,
                limit,
                Seq::empty(),
            ),
        decreases count - i,
    {
        let t = decode_valtype_gc_aware_with_limit(bytes, pos, module, limit)?;
        v.push(t);
        i = i + 1;
    }
    Ok(v)
}

/// The signature with these parameters and results.
fn make_func_type(params: &Vec<ValType>, results: &Vec<ValType>) -> (r: FuncTypeDef)
    requires
        params@.len() <= MAX_PARAMS,
        results@.len() <= MAX_RESULTS,
    ensures
        r.wf(),
        r@ == (FuncType { params: params@, results: results@ }),
{
    let mut ft = FuncTypeDef::empty();
    ft.param_count = params.len() as u8;
    ft.result_count = results.len() as u8;
    let mut i: usize = 0;
    while i < params.len()
        invariant
            i <= params@.len() <= MAX_PARAMS,
            ft.param_count == params@.len(),
            ft.result_count == results@.len(),
            forall|j: int| 0 <= j < i ==> ft.params@[j] == params@[j],
        decreases params@.len() - i,
    {
        ft.params[i] = params[i];
        i = i + 1;
    }
    let mut k: usize = 0;
    while k < results.len()
        invariant
            k <= results@.len() <= MAX_RESULTS,
            params@.len() <= MAX_PARAMS,
            ft.param_count == params@.len(),
            ft.result_count == results@.len(),
            forall|j: int| 0 <= j < params@.len() ==> ft.params@[j] == params@[j],
            forall|j: int| 0 <= j < k ==> ft.results@[j] == results@[j],
        decreases results@.len() - k,
    {
        ft.results[k] = results[k];
        k = k + 1;
    }
    assert(ft@ =~= (FuncType { params: params@, results: results@ }));
    ft
}

/// Reads a mutability byte.
fn decode_mutability(bytes: &[u8], pos: &mut usize) -> (r: Result<bool, WasmError>)
    ensures
        (r, *final(pos) as int) == mutability_at(bytes@, *old(pos) as int),
{
    let b: u8 = read_byte(bytes, pos)?;
    if b > 1 {
        return Err(WasmError::InvalidSection);
    }
    Ok(b != 0)
}

/// Adds a type to the module.
fn add_type(module: &mut WasmModule, f: FuncTypeDef, g: GcTypeDef, i: SubTypeInfo)
    requires
        old(module).wf(),
        f.wf(),
    ensures
        final(module)@ == with_type(old(module)@, f@, g@, i),
        final(module).wf(),
        old(module).aligned() ==> final(module).aligned(),
{
    module.func_types.push(f);
    module.gc_types.push(g);
    module.sub_types.push(i);
}

/// Reads a struct's fields.
fn decode_struct_type(
    bytes: &[u8],
    pos: &mut usize,
    module: &mut WasmModule,
    limit: u32,
    info: SubTypeInfo,
) -> (r: Result<(), WasmError>)
    requires
        old(module).wf(),
    ensures
        yields(
            r,
            *final(pos),
            *final(module),
            struct_type_at(bytes@, *old(pos) as int, old(module)@, limit, info),
        ),
        final(module).wf(),
        old(module).aligned() ==> final(module).aligned(),
{
    module.gc_enabled = true;
    let count: u32 = decode_leb128_u32(bytes, pos)?;
    let mut types: Vec<StorageType> = Vec::new();
    let mut muts: Vec<bool> = Vec::new();
    let mut i: u32 = 0;
    let ghost p = *pos as int;
    let ghost m = module@;
    assert(m == (Module { gc_enabled: true, ..old(module)@ }));
    while i < count
        invariant
            i <= count,
            module.wf(),
            old(module).aligned() ==> module.aligned(),
            leb_u32(bytes@, *old(pos) as int) == (Ok::<u32, WasmError>(count), p),
            m == (Module { gc_enabled: true, ..old(module)@ }),
            fields_at(bytes@, p, count as nat, m, limit, Seq::empty(), Seq::empty()) == fields_at(
                bytes@,
                *pos as int,
                (count - i) as nat,
                module@,
                limit,
                types@,
                muts@,
            ),
        decreases count - i,
    {
        let t = decode_storage_type_with_limit(bytes, pos, module, limit)?;
        let mt: bool = decode_mutability(bytes, pos)?;
        types.push(t);
        muts.push(mt);
        i = i + 1;
    }
    let g = GcTypeDef::Struct { field_types: types, field_muts: muts };
    add_type(module, FuncTypeDef::empty(), g, info);
    Ok(())
}

/// Reads a function type's parameters and results.
fn decode_func_type(
    bytes: &[u8],
    pos: &mut usize,
    module: &mut WasmModule,
    limit: u32,
    info: SubTypeInfo,
) -> (r: Result<(), WasmError>)
    requires
        old(module).wf(),
    ensures
        yields(r, *final(pos), *final(module), func_type_at(bytes@, *old(pos) as int, old(module)@, limit, info)),
        final(module).wf(),
        old(module).aligned() ==> final(module).aligned(),
{
    let params = decode_valtypes(bytes, pos, MAX_PARAMS, module, limit)?;
    let results = decode_valtypes(bytes, pos, MAX_RESULTS, module, limit)?;
    let ft = make_func_type(&params, &results);
    add_type(module, ft, GcTypeDef::Func, info);
    Ok(())
}

/// Reads an array type's element.
fn decode_array_type(
    bytes: &[u8],
    pos: &mut usize,
    module: &mut WasmModule,
    limit: u32,
    info: SubTypeInfo,
) -> (r: Result<(), WasmError>)
    requires
        old(module).wf(),
    ensures
        yields(r, *final(pos), *final(module), array_type_at(bytes@, *old(pos) as int, old(module)@, limit, info)),
        final(module).wf(),
        old(module).aligned() ==> final(module).aligned(),
{
    module.gc_enabled = true;
    let t = decode_storage_type_with_limit(bytes, pos, module, limit)?;
    let mt: bool = decode_mutability(bytes, pos)?;
    add_type(module, FuncTypeDef::empty(), GcTypeDef::Array { elem_type: t, elem_mutable: mt }, info);
    Ok(())
}

/// Reads a composite type in which a concrete type index must be below
/// `max_type_idx`, and adds it to the module.
pub fn decode_composite_type_with_limit(
    bytes: &[u8],
    pos: &mut usize,
    module: &mut WasmModule,
    max_type_idx: u32,
) -> (r: Result<(), WasmError>)
    requires
        old(module).wf(),
    ensures
        yields(
            r,
            *final(pos),
            *final(module),
            composite_at(bytes@, *old(pos) as int, old(module)@, max_type_idx),
        ),
        final(module).wf(),
        old(module).aligned() ==> final(module).aligned(),
{
    let (info, kind) = decode_sub_header(bytes, pos, module)?;
    if kind == 0x60 {
        decode_func_type(bytes, pos, module, max_type_idx, info)
    } else if kind == 0x5E {
        decode_array_type(bytes, pos, module, max_type_idx, info)
    } else if kind == 0x5F {
        decode_struct_type(bytes, pos, module, max_type_idx, info)
    } else {
        Err(WasmError::InvalidSection)
    }
}

/// Reads a composite type and adds it to the module.
pub fn decode_composite_type(bytes: &[u8], pos: &mut usize, module: &mut WasmModule) -> (r: Result<(), WasmError>)
    requires
        old(module).wf(),
    ensures
        yields(r, *final(pos), *final(module), composite_at(bytes@, *old(pos) as int, old(module)@, u32::MAX)),
        final(module).wf(),
        old(module).aligned() ==> final(module).aligned(),
{
    decode_composite_type_with_limit(bytes, pos, module, u32::MAX)
}

// ---------------------------------------------------------------------------
// The type section

/// `n` composite types at `p`.
pub open spec fn composites_at(s: Seq<u8>, p: int, n: nat, m: Module, limit: u32) -> Reading<Module>
    decreases n,
{
    if n == 0 {
        (Ok(m), p)
    } else {
        let r = composite_at(s, p, m, limit);
        match r.0 {
            Err(e) => (Err(e), r.1),
            Ok(m2) => composites_at(s, r.1, (n - 1) as nat, m2, limit),
        }
    }
}

/// The types numbered `from` up to `to` put into one recursion group.
pub open spec fn grouped(sub: Seq<SubTypeInfo>, from: u32, to: u32, size: u32) -> Seq<SubTypeInfo> {
    Seq::new(
        sub.len(),
        |i: int|
            if from <= i < to {
                SubTypeInfo { rec_group_start: from, rec_group_size: size, ..sub[i] }
            } else {
                sub[i]
            },
    )
}

/// One entry of the type section at `p`: a recursion group, or a type that forms
/// a group of its own and may refer to itself. That the types of a recursion group refer
/// to themselves is not noted.
pub open spec fn type_entry(s: Seq<u8>, p: int, m: Module) -> Reading<Module> {
    let b = byte_at(s, p);
    match b.0 {
        Err(e) => (Err((e, m)), b.1),
        Ok(x) => {
            let first = m.func_types.len() as u32;
            if x == 0x4E {
                let c = leb_u32(s, b.1);
                match c.0 {
                    Err(e) => (Err((e, Module { gc_enabled: true, ..m })), c.1),
                    Ok(count) => {
                        let end = first.wrapping_add(count);
                        let r = composites_at(s, c.1, count as nat, Module { gc_enabled: true, ..m }, end);
                        match r.0 {
                            Err(e) => (Err(e), r.1),
                            Ok(m2) => (
                                Ok(
                                    Module {
                                        sub_types: grouped(m2.sub_types, first, end, count),
                                        has_self_ref_types: m.has_self_ref_types,
                                        ..m2
                                    },
                                ),
                                r.1,
                            ),
                        }
                    },
                }
            } else {
                let r = composite_at(s, p, m, first.wrapping_add(1));
                match r.0 {
                    Err(e) => (Err(e), r.1),
                    Ok(m2) => (
                        Ok(Module { sub_types: grouped(m2.sub_types, first, first.wrapping_add(1), 1), ..m2 }),
                        r.1,
                    ),
                }
            }
        },
    }
}

/// `n` entries of the type section at `p`.
pub open spec fn type_entries(s: Seq<u8>, p: int, n: nat, m: Module) -> Reading<Module>
    decreases n,
{
    if n == 0 {
        (Ok(m), p)
    } else {
        let r = type_entry(s, p, m);
        match r.0 {
            Err(e) => (Err(e), r.1),
            Ok(m2) => type_entries(s, r.1, (n - 1) as nat, m2),
        }
    }
}

/// The type section at `p`.
pub open spec fn type_section(s: Seq<u8>, p: int, m: Module) -> Reading<Module> {
    let c = leb_u32(s, p);
    match c.0 {
        Err(e) => (Err((e, m)), c.1),
        Ok(count) => if count > MAX_FUNCTIONS {
            (Err((WasmError::TooManyFunctions, m)), c.1)
        } else {
            type_entries(s, c.1, count as nat, m)
        },
    }
}

/// Puts the types numbered `from` up to `to` into one recursion group.
fn set_group(module: &mut WasmModule, from: u32, to: u32, size: u32)
    requires
        old(module).wf(),
    ensures
        final(module)@ == (Module { sub_types: grouped(old(module)@.sub_types, from, to, size), ..old(module)@ }),
        final(module).wf(),
        old(module).aligned() ==> final(module).aligned(),
{
    let mut i: u32 = from;
    while i < to && (i as usize) < module.sub_types.len()
        invariant
            module.wf(),
            old(module).aligned() ==> module.aligned(),
            from <= i,
            i <= to || i == from,
            module@ == (Module { sub_types: module.sub_types@, ..old(module)@ }),
            module.sub_types@.len() == old(module).sub_types@.len(),
            forall|j: int|
                #![auto]
                0 <= j < module.sub_types@.len() ==> module.sub_types@[j] == (if from <= j < i {
                    SubTypeInfo { rec_group_start: from, rec_group_size: size, ..old(module).sub_types@[j] }
                } else {
                    old(module).sub_types@[j]
                }),
        decreases to - i,
    {
        let mut info = module.sub_types[i as usize];
        info.rec_group_start = from;
        info.rec_group_size = size;
        module.sub_types[i as usize] = info;
        i = i + 1;
    }
    assert(module.sub_types@ =~= grouped(old(module)@.sub_types, from, to, size));
}

/// Puts the types numbered `from` up to `to` into one recursion group, and notes whether
/// a type outside such groups refers to itself.
fn close_group(module: &mut WasmModule, from: u32, to: u32, size: u32, self_ref: bool)
    requires
        old(module).wf(),
    ensures
        final(module)@ == (Module {
            sub_types: grouped(old(module)@.sub_types, from, to, size),
            has_self_ref_types: self_ref,
            ..old(module)@
        }),
        final(module).wf(),
        old(module).aligned() ==> final(module).aligned(),
{
    set_group(module, from, to, size);
    module.has_self_ref_types = self_ref;
}

/// Reads `n` composite types.
fn decode_composites(bytes: &[u8], pos: &mut usize, n: u32, module: &mut WasmModule, limit: u32) -> (r: Result<
    (),
    WasmError,
>)
    requires
        old(module).wf(),
    ensures
        yields(
            r,
            *final(pos),
            *final(module),
            composites_at(bytes@, *old(pos) as int, n as nat, old(module)@, limit),
        ),
        final(module).wf(),
        old(module).aligned() ==> final(module).aligned(),
{
    let mut i: u32 = 0;
    while i < n
        invariant
            i <= n,
            module.wf(),
            old(module).aligned() ==> module.aligned(),
            composites_at(bytes@, *old(pos) as int, n as nat, old(module)@, limit) == composites_at(
                bytes@,
                *pos as int,
                (n - i) as nat,
                module@,
                limit,
            ),
        decreases n - i,
    {
        decode_composite_type_with_limit(bytes, pos, module, limit)?;
        i = i + 1;
    }
    Ok(())
}

/// Reads one entry of the type section.
fn decode_type_entry(bytes: &[u8], pos: &mut usize, module: &mut WasmModule) -> (r: Result<(), WasmError>)
    requires
        old(module).wf(),
    ensures
        yields(r, *final(pos), *final(module), type_entry(bytes@, *old(pos) as int, old(module)@)),
        final(module).wf(),
        old(module).aligned() ==> final(module).aligned(),
{
    let marker: u8 = read_byte(bytes, pos)?;
    let first: u32 = module.func_types.len() as u32;
    if marker == 0x4E {
        module.gc_enabled = true;
        let count: u32 = decode_leb128_u32(bytes, pos)?;
        let end: u32 = first.wrapping_add(count);
        let noted: bool = module.has_self_ref_types;
        decode_composites(bytes, pos, count, module, end)?;
        close_group(module, first, end, count, noted);
    } else {
        *pos = *pos - 1;
        let end: u32 = first.wrapping_add(1);
        decode_composite_type_with_limit(bytes, pos, module, end)?;
        set_group(module, first, end, 1);
    }
    Ok(())
}

/// Reads the type section.
pub fn decode_type_section(bytes: &[u8], pos: &mut usize, module: &mut WasmModule) -> (r: Result<(), WasmError>)
    requires
        old(module).wf(),
    ensures
        yields(r, *final(pos), *final(module), type_section(bytes@, *old(pos) as int, old(module)@)),
        final(module).wf(),
        old(module).aligned() ==> final(module).aligned(),
{
    let count: u32 = decode_leb128_u32(bytes, pos)?;
    if count as usize > MAX_FUNCTIONS {
        return Err(WasmError::TooManyFunctions);
    }
    let mut i: u32 = 0;
    while i < count
        invariant
            i <= count,
            module.wf(),
            old(module).aligned() ==> module.aligned(),
            type_section(bytes@, *old(pos) as int, old(module)@) == type_entries(
                bytes@,
                *pos as int,
                (count - i) as nat,
                module@,
            ),
        decreases count - i,
    {
        decode_type_entry(bytes, pos, module)?;
        i = i + 1;
    }
    Ok(())
}

} // verus!
