//! Decoding of the sections other than the type section.

use vstd::prelude::*;
use crate::decode_types::{mutability_at, short_ref, short_ref_type, yields, Reading};
use crate::module::{
    group_views, ExportDef, ExportKind, Func, FuncDef, ImportDef, ImportKind, MemoryDef, Module, Table, TableDef,
    WasmModule,
};
use crate::reader::{
    byte_at, decode_leb128_i32, decode_leb128_u32, decode_leb128_u64, group_leb_moves, leb_i32, leb_u32, leb_u64,
    name_at, read_byte, read_name, Parsed,
};
use crate::types::{ValType, WasmError, MAX_EXPORTS, MAX_FUNCTIONS, MAX_IMPORTS};

verus! {

broadcast use {group_leb_moves, group_views};

// ---------------------------------------------------------------------------
// Byte copies

/// Appends bytes.
pub fn append_bytes(v: &mut Vec<u8>, s: &[u8])
    ensures
        final(v)@ == old(v)@ + s@,
{
    let mut i: usize = 0;
    while i < s.len()
        invariant
            i <= s@.len(),
            v@ == old(v)@ + s@.take(i as int),
        decreases s@.len() - i,
    {
        v.push(s[i]);
        i = i + 1;
        assert(s@.take(i as int) =~= s@.take(i - 1).push(s@[i - 1]));
        assert(v@ =~= old(v)@ + s@.take(i as int));
    }
    assert(s@.take(i as int) =~= s@);
}

/// The bytes from `from` up to `to`.
pub fn copy_bytes(s: &[u8], from: usize, to: usize) -> (r: Vec<u8>)
    requires
        from <= to <= s@.len(),
    ensures
        r@ == s@.subrange(from as int, to as int),
{
    let mut v: Vec<u8> = Vec::new();
    append_bytes(&mut v, vstd::slice::slice_subrange(s, from, to));
    assert(v@ =~= s@.subrange(from as int, to as int));
    v
}

// ---------------------------------------------------------------------------
// Limits

/// The limits of a table at `p`: whether it is indexed with 64 bits, its minimum
/// and its maximum.
pub open spec fn table_limits(s: Seq<u8>, p: int) -> Parsed<(bool, u32, Option<u32>)> {
    let f = byte_at(s, p);
    match f.0 {
        Err(e) => (Err(e), f.1),
        Ok(flags) => if flags != 0 && flags != 1 && flags != 4 && flags != 5 {
            (Err(WasmError::InvalidSection), f.1)
        } else {
            let wide = flags >= 4;
            let lo = bound_at(s, f.1, wide);
            match lo.0 {
                Err(e) => (Err(e), lo.1),
                Ok(min) => if flags % 2 == 1 {
                    let hi = bound_at(s, lo.1, wide);
                    match hi.0 {
                        Err(e) => (Err(e), hi.1),
                        Ok(max) => (Ok((wide, min as u32, Some(max as u32))), hi.1),
                    }
                } else {
                    (Ok((wide, min as u32, None)), lo.1)
                },
            }
        },
    }
}

/// A bound of 64 or of 32 bits at `p`.
pub open spec fn bound_at(s: Seq<u8>, p: int, wide: bool) -> Parsed<u64> {
    if wide {
        leb_u64(s, p)
    } else {
        let r = leb_u32(s, p);
        match r.0 {
            Err(e) => (Err(e), r.1),
            Ok(v) => (Ok(v as u64), r.1),
        }
    }
}

/// The most pages that 64-bit addresses reach, with pages of two to the `log2` bytes.
pub open spec fn max_pages64(log2: u32) -> u64 {
    if log2 == 0 {
        u64::MAX
    } else {
        1u64 << ((64 - log2) as u32)
    }
}

/// The custom page size at `p`, where the flags announce one.
pub open spec fn page_size_at(s: Seq<u8>, p: int, flags: u8) -> Parsed<Option<u32>> {
    if flags >= 8 {
        let r = leb_u32(s, p);
        match r.0 {
            Err(e) => (Err(e), r.1),
            Ok(v) => if v >= 64 {
                (Err(WasmError::InvalidSection), r.1)
            } else {
                (Ok(Some(v)), r.1)
            },
        }
    } else {
        (Ok(None), p)
    }
}

/// The upper bound at `p`, where the flags announce one.
pub open spec fn upper_at(s: Seq<u8>, p: int, flags: u8) -> Parsed<Option<u64>> {
    if flags % 2 == 1 {
        let r = bound_at(s, p, (flags / 4) % 2 == 1);
        match r.0 {
            Err(e) => (Err(e), r.1),
            Ok(v) => (Ok(Some(v)), r.1),
        }
    } else {
        (Ok(None), p)
    }
}

/// The memory with these flags and bounds.
pub open spec fn memory_of(flags: u8, min: u64, max: Option<u64>, log2: Option<u32>) -> MemoryDef {
    MemoryDef {
        min_pages: min as u32,
        max_pages: match max {
            Some(v) => v as u32,
            None => u32::MAX,
        },
        has_max: max is Some,
        is_memory64: (flags / 4) % 2 == 1,
        is_shared: (flags / 2) % 2 == 1,
        page_size_log2: log2,
    }
}

/// The memory type at `p`. A shared memory needs a maximum; the bounds of one with
/// 64-bit addresses must be reachable.
pub open spec fn memory_at(s: Seq<u8>, p: int) -> Parsed<MemoryDef> {
    let f = byte_at(s, p);
    match f.0 {
        Err(e) => (Err(e), f.1),
        Ok(flags) => if flags >= 16 || ((flags / 2) % 2 == 1 && flags % 2 == 0) {
            (Err(WasmError::InvalidSection), f.1)
        } else {
            let wide = (flags / 4) % 2 == 1;
            let lo = bound_at(s, f.1, wide);
            match lo.0 {
                Err(e) => (Err(e), lo.1),
                Ok(min) => {
                    let hi = upper_at(s, lo.1, flags);
                    match hi.0 {
                        Err(e) => (Err(e), hi.1),
                        Ok(max) => {
                            let g = page_size_at(s, hi.1, flags);
                            match g.0 {
                                Err(e) => (Err(e), g.1),
                                Ok(log2) => {
                                    let most = max_pages64(
                                        match log2 {
                                            Some(l) => l,
                                            None => 16,
                                        },
                                    );
                                    if wide && (min > most || (max is Some && max->Some_0 > most)) {
                                        (Err(WasmError::MemoryOutOfBounds), g.1)
                                    } else {
                                        (Ok(memory_of(flags, min, max, log2)), g.1)
                                    }
                                },
                            }
                        },
                    }
                },
            }
        },
    }
}

/// Reads a bound of 64 or of 32 bits.
fn decode_bound(bytes: &[u8], pos: &mut usize, wide: bool) -> (r: Result<u64, WasmError>)
    ensures
        (r, *final(pos) as int) == bound_at(bytes@, *old(pos) as int, wide),
{
    if wide {
        decode_leb128_u64(bytes, pos)
    } else {
        let v: u32 = decode_leb128_u32(bytes, pos)?;
        Ok(v as u64)
    }
}

/// Reads the limits of a table.
pub fn decode_table_limits(bytes: &[u8], pos: &mut usize) -> (r: Result<(bool, u32, Option<u32>), WasmError>)
    ensures
        (r, *final(pos) as int) == table_limits(bytes@, *old(pos) as int),
{
    let flags: u8 = read_byte(bytes, pos)?;
    if flags != 0 && flags != 1 && flags != 4 && flags != 5 {
        return Err(WasmError::InvalidSection);
    }
    let wide: bool = flags >= 4;
    let min: u64 = decode_bound(bytes, pos, wide)?;
    if flags % 2 == 1 {
        let max: u64 = decode_bound(bytes, pos, wide)?;
        Ok((wide, min as u32, Some(max as u32)))
    } else {
        Ok((wide, min as u32, None))
    }
}

/// Reads a memory type.
fn decode_memory_type(bytes: &[u8], pos: &mut usize) -> (r: Result<MemoryDef, WasmError>)
    ensures
        (r, *final(pos) as int) == memory_at(bytes@, *old(pos) as int),
        r matches Ok(d) ==> d.wf(),
{
    let flags: u8 = read_byte(bytes, pos)?;
    if flags >= 16 || ((flags / 2) % 2 == 1 && flags % 2 == 0) {
        return Err(WasmError::InvalidSection);
    }
    let wide: bool = (flags / 4) % 2 == 1;
    let min: u64 = decode_bound(bytes, pos, wide)?;
    let max: Option<u64> = if flags % 2 == 1 {
        let v: u64 = decode_bound(bytes, pos, wide)?;
        Some(v)
    } else {
        None
    };
    let log2: Option<u32> = if flags >= 8 {
        let v: u32 = decode_leb128_u32(bytes, pos)?;
        if v >= 64 {
            return Err(WasmError::InvalidSection);
        }
        Some(v)
    } else {
        None
    };
    if wide {
        let l: u32 = match log2 {
            Some(l) => l,
            None => 16,
        };
        let most: u64 = if l == 0 {
            u64::MAX
        } else {
            1u64 << (64 - l)
        };
        if min > most {
            return Err(WasmError::MemoryOutOfBounds);
        }
        match max {
            Some(v) => {
                if v > most {
                    return Err(WasmError::MemoryOutOfBounds);
                }
            },
            None => {},
        }
    }
    Ok(
        MemoryDef {
            min_pages: min as u32,
            max_pages: match max {
                Some(v) => v as u32,
                None => u32::MAX,
            },
            has_max: max.is_some(),
            is_memory64: wide,
            is_shared: (flags / 2) % 2 == 1,
            page_size_log2: log2,
        },
    )
}

// ---------------------------------------------------------------------------
// Table element types

/// The element type of a table, from its type byte and the heap type behind it.
pub open spec fn table_elem(b: u8, ht: i32) -> ValType {
    let nullable = b == 0x63;
    if b == 0x68 {
        ValType::NullableAnyRef
    } else if b == 0x63 || b == 0x64 {
        if ht == -16 {
            if nullable { ValType::FuncRef } else { ValType::TypedFuncRef }
        } else if ht == -17 {
            ValType::ExternRef
        } else if ht == -18 {
            if nullable { ValType::NullableAnyRef } else { ValType::AnyRef }
        } else if ht == -19 {
            if nullable { ValType::NullableEqRef } else { ValType::EqRef }
        } else if ht == -20 {
            ValType::I31Ref
        } else if ht == -21 {
            if nullable { ValType::NullableStructRef } else { ValType::StructRef }
        } else if ht == -22 {
            if nullable { ValType::NullableArrayRef } else { ValType::ArrayRef }
        } else if ht == -23 || ht == -12 {
            ValType::ExnRef
        } else if ht == -15 {
            ValType::NoneRef
        } else if ht == -13 {
            ValType::NullFuncRef
        } else if ht == -14 {
            ValType::NullExternRef
        } else if nullable {
            ValType::NullableTypedFuncRef
        } else {
            ValType::TypedFuncRef
        }
    } else {
        match short_ref(b) {
            Some(t) => t,
            None => ValType::FuncRef,
        }
    }
}

/// The element type of a table, from its type byte and the heap type behind it.
pub fn table_elem_type(b: u8, ht: i32) -> (r: ValType)
    ensures
        r == table_elem(b, ht),
{
    let nullable: bool = b == 0x63;
    if b == 0x68 {
        ValType::NullableAnyRef
    } else if b == 0x63 || b == 0x64 {
        if ht == -16 {
            if nullable { ValType::FuncRef } else { ValType::TypedFuncRef }
        } else if ht == -17 {
            ValType::ExternRef
        } else if ht == -18 {
            if nullable { ValType::NullableAnyRef } else { ValType::AnyRef }
        } else if ht == -19 {
            if nullable { ValType::NullableEqRef } else { ValType::EqRef }
        } else if ht == -20 {
            ValType::I31Ref
        } else if ht == -21 {
            if nullable { ValType::NullableStructRef } else { ValType::StructRef }
        } else if ht == -22 {
            if nullable { ValType::NullableArrayRef } else { ValType::ArrayRef }
        } else if ht == -23 || ht == -12 {
            ValType::ExnRef
        } else if ht == -15 {
            ValType::NoneRef
        } else if ht == -13 {
            ValType::NullFuncRef
        } else if ht == -14 {
            ValType::NullExternRef
        } else if nullable {
            ValType::NullableTypedFuncRef
        } else {
            ValType::TypedFuncRef
        }
    } else {
        match short_ref_type(b) {
            Some(t) => t,
            None => ValType::FuncRef,
        }
    }
}

/// A type byte at `p` and, where it announces one, the heap type behind it.
pub open spec fn ref_bytes_at(s: Seq<u8>, p: int) -> Parsed<(u8, Option<i32>)> {
    let b = byte_at(s, p);
    match b.0 {
        Err(e) => (Err(e), b.1),
        Ok(x) => if x == 0x63 || x == 0x64 {
            let h = leb_i32(s, b.1);
            match h.0 {
                Err(e) => (Err(e), h.1),
                Ok(ht) => (Ok((x, Some(ht))), h.1),
            }
        } else {
            (Ok((x, None)), b.1)
        },
    }
}

/// Reads a type byte and, where it announces one, the heap type behind it.
pub fn decode_ref_bytes(bytes: &[u8], pos: &mut usize) -> (r: Result<(u8, Option<i32>), WasmError>)
    ensures
        (r, *final(pos) as int) == ref_bytes_at(bytes@, *old(pos) as int),
{
    let b: u8 = read_byte(bytes, pos)?;
    if b == 0x63 || b == 0x64 {
        let ht: i32 = decode_leb128_i32(bytes, pos)?;
        Ok((b, Some(ht)))
    } else {
        Ok((b, None))
    }
}

/// The heap type read, zero where there is none.
pub open spec fn heap_or_zero(h: Option<i32>) -> i32 {
    match h {
        Some(ht) => ht,
        None => 0,
    }
}

// ---------------------------------------------------------------------------
// Imports

/// The module with an imported table, whose type stands at `p`.
pub open spec fn import_table(s: Seq<u8>, p: int, m: Module) -> Reading<(ImportKind, Module)> {
    let b = ref_bytes_at(s, p);
    match b.0 {
        Err(e) => (Err((e, m)), b.1),
        Ok((x, h)) => {
            let l = table_limits(s, b.1);
            match l.0 {
                Err(e) => (Err((e, m)), l.1),
                Ok((wide, min, max)) => {
                    let t = table_elem(x, heap_or_zero(h));
                    (
                        Ok(
                            (
                                ImportKind::Table(t),
                                Module {
                                    tables: m.tables.push(
                                        Table {
                                            min,
                                            max,
                                            elem_type: t,
                                            is_table64: wide,
                                            init_expr_bytes: None,
                                            is_non_nullable: x == 0x64,
                                        },
                                    ),
                                    ..m
                                },
                            ),
                        ),
                        l.1,
                    )
                },
            }
        },
    }
}

/// The module with the memory `d` behind its memories. Of the first one it notes how it
/// is addressed and the size of its pages.
pub open spec fn memory_added(m: Module, d: MemoryDef) -> Module {
    let first = m.memories.len() == 0;
    Module {
        is_memory64: if first {
            d.is_memory64
        } else {
            m.is_memory64
        },
        page_size_log2: if first {
            d.page_size_log2
        } else {
            m.page_size_log2
        },
        memories: m.memories.push(d),
        ..m
    }
}

/// The module with one more memory announced.
pub open spec fn memory_announced(m: Module) -> Module {
    Module { has_memory: true, memory_count: m.memory_count.wrapping_add(1), ..m }
}

/// The module with the imported memory `d`, which was announced.
pub open spec fn with_imported_memory(m: Module, d: MemoryDef) -> Module {
    Module {
        memory_min_pages: d.min_pages,
        has_memory_max: m.has_memory_max || d.has_max,
        memory_max_pages: d.max_pages,
        ..memory_added(m, d)
    }
}

/// What an import at `p` brings in, and the module with it.
#[verifier::opaque]
pub open spec fn import_desc(s: Seq<u8>, p: int, m: Module) -> Reading<(ImportKind, Module)> {
    let b = byte_at(s, p);
    match b.0 {
        Err(e) => (Err((e, m)), b.1),
        Ok(kind) => if kind == 0 {
            let r = leb_u32(s, b.1);
            match r.0 {
                Err(e) => (Err((e, m)), r.1),
                Ok(ti) => (Ok((ImportKind::Func(ti), m)), r.1),
            }
        } else if kind == 1 {
            import_table(s, b.1, m)
        } else if kind == 2 {
            let r = memory_at(s, b.1);
            match r.0 {
                Err(e) => (Err((e, memory_announced(m))), r.1),
                Ok(d) => (Ok((ImportKind::Memory, with_imported_memory(memory_announced(m), d))), r.1),
            }
        } else if kind == 3 {
            let r = ref_bytes_at(s, b.1);
            match r.0 {
                Err(e) => (Err((e, m)), r.1),
                Ok((x, h)) => {
                    let t = mutability_at(s, r.1);
                    match t.0 {
                        Err(e) => (Err((e, m)), t.1),
                        Ok(mutable) => (Ok((ImportKind::Global(x, mutable, h), m)), t.1),
                    }
                },
            }
        } else if kind == 4 {
            let a = byte_at(s, b.1);
            match a.0 {
                Err(e) => (Err((e, m)), a.1),
                Ok(_) => {
                    let r = leb_u32(s, a.1);
                    match r.0 {
                        Err(e) => (Err((e, m)), r.1),
                        Ok(ti) => (Ok((ImportKind::Tag(ti), m)), r.1),
                    }
                },
            }
        } else {
            (Err((WasmError::InvalidSection, m)), b.1)
        },
    }
}

/// The name at `p`, put behind the names of the module: where it starts there, its
/// length, and the module with it.
pub open spec fn stored_name(s: Seq<u8>, p: int, m: Module) -> Reading<(usize, usize, Module)> {
    let r = name_at(s, p);
    match r.0 {
        Err(e) => (Err((e, m)), r.1),
        Ok(name) => (
            Ok((m.names.len() as usize, name.len() as usize, Module { names: m.names + name, ..m })),
            r.1,
        ),
    }
}

/// The import at `p`.
pub open spec fn import_at(s: Seq<u8>, p: int, m: Module) -> Reading<Module> {
    let a = stored_name(s, p, m);
    match a.0 {
        Err(e) => (Err(e), a.1),
        Ok((module_name_offset, module_name_len, m1)) => {
            let b = stored_name(s, a.1, m1);
            match b.0 {
                Err(e) => (Err(e), b.1),
                Ok((field_name_offset, field_name_len, m2)) => {
                    let d = import_desc(s, b.1, m2);
                    match d.0 {
                        Err(e) => (Err(e), d.1),
                        Ok((kind, m3)) => (
                            Ok(
                                Module {
                                    imports: m3.imports.push(
                                        ImportDef {
                                            module_name_offset,
                                            module_name_len,
                                            field_name_offset,
                                            field_name_len,
                                            kind,
                                        },
                                    ),
                                    ..m3
                                },
                            ),
                            d.1,
                        ),
                    }
                },
            }
        },
    }
}

/// `n` imports at `p`.
pub open spec fn imports_at(s: Seq<u8>, p: int, n: nat, m: Module) -> Reading<Module>
    decreases n,
{
    if n == 0 {
        (Ok(m), p)
    } else {
        let r = import_at(s, p, m);
        match r.0 {
            Err(e) => (Err(e), r.1),
            Ok(m2) => imports_at(s, r.1, (n - 1) as nat, m2),
        }
    }
}

/// The import section at `p`.
pub open spec fn import_section(s: Seq<u8>, p: int, m: Module) -> Reading<Module> {
    let c = leb_u32(s, p);
    match c.0 {
        Err(e) => (Err((e, m)), c.1),
        Ok(count) => if count > MAX_IMPORTS {
            (Err((WasmError::TooManyImports, m)), c.1)
        } else {
            imports_at(s, c.1, count as nat, m)
        },
    }
}

/// Puts a memory behind those of the module.
fn add_memory(module: &mut WasmModule, d: MemoryDef)
    requires
        old(module).wf(),
        d.wf(),
    ensures
        final(module)@ == memory_added(old(module)@, d),
        final(module).wf(),
        old(module).aligned() ==> final(module).aligned(),
{
    if module.memories.len() == 0 {
        module.is_memory64 = d.is_memory64;
        module.page_size_log2 = d.page_size_log2;
    }
    module.memories.push(d);
}

/// Announces one more memory.
fn announce_memory(module: &mut WasmModule)
    requires
        old(module).wf(),
    ensures
        final(module)@ == memory_announced(old(module)@),
        final(module).wf(),
        old(module).aligned() ==> final(module).aligned(),
{
    module.has_memory = true;
    module.memory_count = module.memory_count.wrapping_add(1);
}

/// Puts an imported memory, which was announced, behind those of the module.
fn add_imported_memory(module: &mut WasmModule, d: MemoryDef)
    requires
        old(module).wf(),
        d.wf(),
    ensures
        final(module)@ == with_imported_memory(old(module)@, d),
        final(module).wf(),
        old(module).aligned() ==> final(module).aligned(),
{
    module.memory_min_pages = d.min_pages;
    if d.has_max {
        module.has_memory_max = true;
    }
    module.memory_max_pages = d.max_pages;
    add_memory(module, d);
}

/// Reads what an import brings in.
fn decode_import_desc(bytes: &[u8], pos: &mut usize, module: &mut WasmModule) -> (r: Result<ImportKind, WasmError>)
    requires
        old(module).wf(),
    ensures
        ({
            let e = import_desc(bytes@, *old(pos) as int, old(module)@);
            &&& *final(pos) == e.1
            &&& match r {
                Ok(k) => e.0 == Ok::<(ImportKind, Module), (WasmError, Module)>((k, final(module)@)),
                Err(x) => e.0 == Err::<(ImportKind, Module), (WasmError, Module)>((x, final(module)@)),
            }
        }),
        final(module).wf(),
        old(module).aligned() ==> final(module).aligned(),
{
    reveal(import_desc);
    let kind: u8 = read_byte(bytes, pos)?;
    match kind {
        0x00 => {
            let ti: u32 = decode_leb128_u32(bytes, pos)?;
            Ok(ImportKind::Func(ti))
        },
        0x01 => {
            let (b, h) = decode_ref_bytes(bytes, pos)?;
            let (wide, min, max) = decode_table_limits(bytes, pos)?;
            let ht: i32 = match h {
                Some(ht) => ht,
                None => 0,
            };
            let t = table_elem_type(b, ht);
            let def = TableDef {
                min,
                max,
                elem_type: t,
                is_table64: wide,
                init_expr_bytes: None,
                is_non_nullable: b == 0x64,
            };
            module.tables.push(def);
            Ok(ImportKind::Table(t))
        },
        0x02 => {
            announce_memory(module);
            let d = decode_memory_type(bytes, pos)?;
            add_imported_memory(module, d);
            Ok(ImportKind::Memory)
        },
        0x03 => {
            let (b, h) = decode_ref_bytes(bytes, pos)?;
            let mt: u8 = read_byte(bytes, pos)?;
            if mt > 1 {
                return Err(WasmError::InvalidSection);
            }
            Ok(ImportKind::Global(b, mt != 0, h))
        },
        0x04 => {
            let _attribute: u8 = read_byte(bytes, pos)?;
            let ti: u32 = decode_leb128_u32(bytes, pos)?;
            Ok(ImportKind::Tag(ti))
        },
        _ => Err(WasmError::InvalidSection),
    }
}

/// Reads a name and puts it behind the names of the module.
fn store_name(bytes: &[u8], pos: &mut usize, module: &mut WasmModule) -> (r: Result<(usize, usize), WasmError>)
    requires
        old(module).wf(),
    ensures
        ({
            let e = stored_name(bytes@, *old(pos) as int, old(module)@);
            &&& *final(pos) == e.1
            &&& match r {
                Ok(n) => e.0 == Ok::<(usize, usize, Module), (WasmError, Module)>((n.0, n.1, final(module)@)),
                Err(x) => e.0 == Err::<(usize, usize, Module), (WasmError, Module)>((x, final(module)@)),
            }
        }),
        final(module).wf(),
        old(module).aligned() ==> final(module).aligned(),
{
    let name = read_name(bytes, pos)?;
    let offset: usize = module.names.len();
    append_bytes(&mut module.names, name);
    Ok((offset, name.len()))
}

/// Reads an import.
fn decode_import(bytes: &[u8], pos: &mut usize, module: &mut WasmModule) -> (r: Result<(), WasmError>)
    requires
        old(module).wf(),
    ensures
        yields(r, *final(pos), *final(module), import_at(bytes@, *old(pos) as int, old(module)@)),
        final(module).wf(),
        old(module).aligned() ==> final(module).aligned(),
{
    let (module_name_offset, module_name_len) = store_name(bytes, pos, module)?;
    let (field_name_offset, field_name_len) = store_name(bytes, pos, module)?;
    let kind = decode_import_desc(bytes, pos, module)?;
    module.imports.push(
        ImportDef { module_name_offset, module_name_len, field_name_offset, field_name_len, kind },
    );
    Ok(())
}

/// Reads the import section.
pub fn decode_import_section(bytes: &[u8], pos: &mut usize, module: &mut WasmModule) -> (r: Result<(), WasmError>)
    requires
        old(module).wf(),
    ensures
        yields(r, *final(pos), *final(module), import_section(bytes@, *old(pos) as int, old(module)@)),
        final(module).wf(),
        old(module).aligned() ==> final(module).aligned(),
{
    let count: u32 = decode_leb128_u32(bytes, pos)?;
    if count as usize > MAX_IMPORTS {
        return Err(WasmError::TooManyImports);
    }
    let mut i: u32 = 0;
    while i < count
        invariant
            i <= count,
            module.wf(),
            old(module).aligned() ==> module.aligned(),
            import_section(bytes@, *old(pos) as int, old(module)@) == imports_at(
                bytes@,
                *pos as int,
                (count - i) as nat,
                module@,
            ),
        decreases count - i,
    {
        decode_import(bytes, pos, module)?;
        i = i + 1;
    }
    Ok(())
}

// ---------------------------------------------------------------------------
// Functions

/// `n` function declarations at `p`.
pub open spec fn functions_at(s: Seq<u8>, p: int, n: nat, m: Module) -> Reading<Module>
    decreases n,
{
    if n == 0 {
        (Ok(m), p)
    } else {
        let r = leb_u32(s, p);
        match r.0 {
            Err(e) => (Err((e, m)), r.1),
            Ok(ti) => functions_at(
                s,
                r.1,
                (n - 1) as nat,
                Module { functions: m.functions.push(Func { type_idx: ti, ..Func::none() }), ..m },
            ),
        }
    }
}

/// The function section at `p`.
pub open spec fn function_section(s: Seq<u8>, p: int, m: Module) -> Reading<Module> {
    let c = leb_u32(s, p);
    match c.0 {
        Err(e) => (Err((e, m)), c.1),
        Ok(count) => if count + m.imports.len() > MAX_FUNCTIONS {
            (Err((WasmError::TooManyFunctions, m)), c.1)
        } else {
            functions_at(s, c.1, count as nat, m)
        },
    }
}

/// Reads the function section.
pub fn decode_function_section(bytes: &[u8], pos: &mut usize, module: &mut WasmModule) -> (r: Result<(), WasmError>)
    requires
        old(module).wf(),
    ensures
        yields(r, *final(pos), *final(module), function_section(bytes@, *old(pos) as int, old(module)@)),
        final(module).wf(),
        old(module).aligned() ==> final(module).aligned(),
{
    let count: u32 = decode_leb128_u32(bytes, pos)?;
    if count as usize > MAX_FUNCTIONS || module.imports.len() > MAX_FUNCTIONS - count as usize {
        return Err(WasmError::TooManyFunctions);
    }
    let mut i: u32 = 0;
    while i < count
        invariant
            i <= count,
            module.wf(),
            old(module).aligned() ==> module.aligned(),
            function_section(bytes@, *old(pos) as int, old(module)@) == functions_at(
                bytes@,
                *pos as int,
                (count - i) as nat,
                module@,
            ),
        decreases count - i,
    {
        let ti: u32 = decode_leb128_u32(bytes, pos)?;
        let mut f = FuncDef::empty();
        f.type_idx = ti;
        assert(f@ =~= (Func { type_idx: ti, ..Func::none() }));
        module.functions.push(f);
        i = i + 1;
    }
    Ok(())
}

// ---------------------------------------------------------------------------
// Memories

/// The module with a defined memory, which is the first of its section or not.
pub open spec fn with_memory(m: Module, d: MemoryDef, first: bool) -> Module {
    let m2 = memory_added(m, d);
    if first {
        Module {
            memory_min_pages: d.min_pages,
            has_memory_max: d.has_max,
            memory_max_pages: d.max_pages,
            ..m2
        }
    } else {
        m2
    }
}

/// `n` memories at `p`.
pub open spec fn memories_at(s: Seq<u8>, p: int, n: nat, m: Module, first: bool) -> Reading<Module>
    decreases n,
{
    if n == 0 {
        (Ok(m), p)
    } else {
        let r = memory_at(s, p);
        match r.0 {
            Err(e) => (Err((e, m)), r.1),
            Ok(d) => memories_at(s, r.1, (n - 1) as nat, with_memory(m, d, first), false),
        }
    }
}

/// The memory section at `p`.
pub open spec fn memory_section(s: Seq<u8>, p: int, m: Module) -> Reading<Module> {
    let c = leb_u32(s, p);
    match c.0 {
        Err(e) => (Err((e, m)), c.1),
        Ok(count) => {
            let m2 = Module { memory_count: m.memory_count.wrapping_add(count), ..m };
            if count < 1 {
                (Ok(m2), c.1)
            } else {
                memories_at(s, c.1, count as nat, Module { has_memory: true, ..m2 }, true)
            }
        },
    }
}

/// Reads the memory section.
pub fn decode_memory_section(bytes: &[u8], pos: &mut usize, module: &mut WasmModule) -> (r: Result<(), WasmError>)
    requires
        old(module).wf(),
    ensures
        yields(r, *final(pos), *final(module), memory_section(bytes@, *old(pos) as int, old(module)@)),
        final(module).wf(),
        old(module).aligned() ==> final(module).aligned(),
{
    let count: u32 = decode_leb128_u32(bytes, pos)?;
    module.memory_count = module.memory_count.wrapping_add(count);
    if count < 1 {
        return Ok(());
    }
    module.has_memory = true;
    let mut i: u32 = 0;
    while i < count
        invariant
            i <= count,
            module.wf(),
            old(module).aligned() ==> module.aligned(),
            memory_section(bytes@, *old(pos) as int, old(module)@) == memories_at(
                bytes@,
                *pos as int,
                (count - i) as nat,
                module@,
                i == 0,
            ),
        decreases count - i,
    {
        let d = decode_memory_type(bytes, pos)?;
        add_memory(module, d);
        if i == 0 {
            module.memory_min_pages = d.min_pages;
            module.has_memory_max = d.has_max;
            module.memory_max_pages = d.max_pages;
        }
        i = i + 1;
    }
    Ok(())
}

// ---------------------------------------------------------------------------
// Exports

/// What an export with this kind byte makes visible. An unknown kind counts as a
/// function.
pub open spec fn export_kind(kind: u8, idx: u32) -> ExportKind {
    match kind {
        1 => ExportKind::Table(idx),
        2 => ExportKind::Memory(idx),
        3 => ExportKind::Global(idx),
        4 => ExportKind::Tag(idx),
        _ => ExportKind::Func(idx),
    }
}

/// The export at `p`.
pub open spec fn export_at(s: Seq<u8>, p: int, m: Module) -> Reading<Module> {
    let a = stored_name(s, p, m);
    match a.0 {
        Err(e) => (Err(e), a.1),
        Ok((name_offset, name_len, m2)) => {
            let k = byte_at(s, a.1);
            match k.0 {
                Err(e) => (Err((e, m2)), k.1),
                Ok(kind) => {
                    let r = leb_u32(s, k.1);
                    match r.0 {
                        Err(e) => (Err((e, m2)), r.1),
                        Ok(idx) => (
                            Ok(
                                Module {
                                    exports: m2.exports.push(
                                        ExportDef { name_offset, name_len, kind: export_kind(kind, idx) },
                                    ),
                                    ..m2
                                },
                            ),
                            r.1,
                        ),
                    }
                },
            }
        },
    }
}

/// `n` exports at `p`.
pub open spec fn exports_at(s: Seq<u8>, p: int, n: nat, m: Module) -> Reading<Module>
    decreases n,
{
    if n == 0 {
        (Ok(m), p)
    } else {
        let r = export_at(s, p, m);
        match r.0 {
            Err(e) => (Err(e), r.1),
            Ok(m2) => exports_at(s, r.1, (n - 1) as nat, m2),
        }
    }
}

/// The export section at `p`.
pub open spec fn export_section(s: Seq<u8>, p: int, m: Module) -> Reading<Module> {
    let c = leb_u32(s, p);
    match c.0 {
        Err(e) => (Err((e, m)), c.1),
        Ok(count) => if count > MAX_EXPORTS {
            (Err((WasmError::TooManyFunctions, m)), c.1)
        } else {
            exports_at(s, c.1, count as nat, m)
        },
    }
}

/// Reads an export.
fn decode_export(bytes: &[u8], pos: &mut usize, module: &mut WasmModule) -> (r: Result<(), WasmError>)
    requires
        old(module).wf(),
    ensures
        yields(r, *final(pos), *final(module), export_at(bytes@, *old(pos) as int, old(module)@)),
        final(module).wf(),
        old(module).aligned() ==> final(module).aligned(),
{
    let (name_offset, name_len) = store_name(bytes, pos, module)?;
    let kind: u8 = read_byte(bytes, pos)?;
    let idx: u32 = decode_leb128_u32(bytes, pos)?;
    let k = match kind {
        1 => ExportKind::Table(idx),
        2 => ExportKind::Memory(idx),
        3 => ExportKind::Global(idx),
        4 => ExportKind::Tag(idx),
        _ => ExportKind::Func(idx),
    };
    module.exports.push(ExportDef { name_offset, name_len, kind: k });
    Ok(())
}

/// Reads the export section.
pub fn decode_export_section(bytes: &[u8], pos: &mut usize, module: &mut WasmModule) -> (r: Result<(), WasmError>)
    requires
        old(module).wf(),
    ensures
        yields(r, *final(pos), *final(module), export_section(bytes@, *old(pos) as int, old(module)@)),
        final(module).wf(),
        old(module).aligned() ==> final(module).aligned(),
{
    let count: u32 = decode_leb128_u32(bytes, pos)?;
    if count as usize > MAX_EXPORTS {
        return Err(WasmError::TooManyFunctions);
    }
    let mut i: u32 = 0;
    while i < count
        invariant
            i <= count,
            module.wf(),
            old(module).aligned() ==> module.aligned(),
            export_section(bytes@, *old(pos) as int, old(module)@) == exports_at(
                bytes@,
                *pos as int,
                (count - i) as nat,
                module@,
            ),
        decreases count - i,
    {
        decode_export(bytes, pos, module)?;
        i = i + 1;
    }
    Ok(())
}

} // verus!
