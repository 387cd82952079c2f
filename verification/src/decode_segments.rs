//! Decoding of the sections that hold initializers: tables, globals, elements and
//! data.

use vstd::prelude::*;
use crate::decode_sections::{
    append_bytes, copy_bytes, decode_ref_bytes, decode_table_limits, heap_or_zero, ref_bytes_at, table_elem,
    table_elem_type, table_limits,
};
use crate::decode_types::{
    decode_reftype_real_with_limit, decode_valtype_gc_aware_with_limit, mutability_at, reftype_at, reftype_moves,
    short_ref, short_ref_type, valtype_gc, valtype_gc_moves, yields, Reading,
};
use crate::init_expr::{
    eval_init_expr, eval_init_expr_with_globals, init_info, init_value, init_value_moves, scan_init_expr_info,
    scan_init_expr_info_gc,
};
use crate::module::{
    group_views, views, DataSegment, ElemMode, Element, ElementSegment, Global, GlobalDef, ImportDef, ImportKind,
    InitExprInfo, Module, Table, TableDef, WasmModule,
};
use crate::reader::{
    byte_at, decode_leb128_i32, decode_leb128_u32, group_leb_moves, leb_i32, leb_u32, peek_byte, read_byte, Parsed,
};
use crate::types::{ValType, Value, WasmError, MAX_DATA_SEGMENTS, MAX_ELEMENT_SEGMENTS, MAX_GLOBALS};

verus! {

broadcast use {group_leb_moves, group_views, valtype_gc_moves, reftype_moves, init_value_moves};

// ---------------------------------------------------------------------------
// Tables

/// The prefix that announces a table with an initializer, if it stands at `p`.
pub open spec fn table_prefix(s: Seq<u8>, p: int) -> Parsed<bool> {
    match byte_at(s, p).0 {
        Err(e) => (Err(e), p),
        Ok(x) => if x == 0x40 {
            let b = byte_at(s, p + 1);
            match b.0 {
                Err(e) => (Err(e), b.1),
                Ok(y) => if y != 0 {
                    (Err(WasmError::InvalidSection), b.1)
                } else {
                    (Ok(true), b.1)
                },
            }
        } else {
            (Ok(false), p)
        },
    }
}

/// The initializer of a table at `p`, where it has one.
pub open spec fn table_init(s: Seq<u8>, p: int, has: bool) -> Parsed<Option<Seq<u8>>> {
    if has {
        let r = init_value(s, p, None);
        match r.0 {
            Err(e) => (Err(e), r.1),
            Ok(_) => (Ok(Some(s.subrange(p, r.1))), r.1),
        }
    } else {
        (Ok(None), p)
    }
}

/// Why a table may not have elements of this type.
pub open spec fn table_type_error(b: u8, h: Option<i32>, types: int) -> Option<WasmError> {
    match h {
        Some(ht) => if ht >= 0 && ht as u32 >= types as u32 {
            Some(WasmError::TypeMismatch)
        } else {
            None
        },
        None => if short_ref(b) is Some {
            None
        } else {
            Some(WasmError::InvalidSection)
        },
    }
}

/// The type of a table at `p`: its type byte, the heap type behind it, and whether
/// an initializer follows.
pub open spec fn table_head(s: Seq<u8>, p: int, types: int) -> Parsed<(bool, u8, Option<i32>)> {
    let a = table_prefix(s, p);
    match a.0 {
        Err(e) => (Err(e), a.1),
        Ok(has) => {
            let b = ref_bytes_at(s, a.1);
            match b.0 {
                Err(e) => (Err(e), b.1),
                Ok((x, h)) => match table_type_error(x, h, types) {
                    Some(e) => (Err(e), b.1),
                    None => (Ok((has, x, h)), b.1),
                },
            }
        },
    }
}

/// The table at `p`.
pub open spec fn table_at(s: Seq<u8>, p: int, types: int) -> Parsed<Table> {
    let a = table_head(s, p, types);
    match a.0 {
        Err(e) => (Err(e), a.1),
        Ok((has, x, h)) => {
            let l = table_limits(s, a.1);
            match l.0 {
                Err(e) => (Err(e), l.1),
                Ok((is_table64, min, max)) => {
                    let i = table_init(s, l.1, has);
                    match i.0 {
                        Err(e) => (Err(e), i.1),
                        Ok(init_expr_bytes) => (
                            Ok(
                                Table {
                                    min,
                                    max,
                                    elem_type: table_elem(x, heap_or_zero(h)),
                                    is_table64,
                                    init_expr_bytes,
                                    is_non_nullable: x == 0x64,
                                },
                            ),
                            i.1,
                        ),
                    }
                },
            }
        },
    }
}

/// `n` tables at `p`.
pub open spec fn tables_at(s: Seq<u8>, p: int, n: nat, m: Module) -> Reading<Module>
    decreases n,
{
    if n == 0 {
        (Ok(m), p)
    } else {
        let r = table_at(s, p, m.func_types.len() as int);
        match r.0 {
            Err(e) => (Err((e, m)), r.1),
            Ok(t) => tables_at(s, r.1, (n - 1) as nat, Module { tables: m.tables.push(t), ..m }),
        }
    }
}

/// The table section at `p`.
pub open spec fn table_section(s: Seq<u8>, p: int, m: Module) -> Reading<Module> {
    let c = leb_u32(s, p);
    match c.0 {
        Err(e) => (Err((e, m)), c.1),
        Ok(count) => tables_at(s, c.1, count as nat, m),
    }
}

/// Reads the prefix that announces a table with an initializer.
fn decode_table_prefix(bytes: &[u8], pos: &mut usize) -> (r: Result<bool, WasmError>)
    ensures
        (r, *final(pos) as int) == table_prefix(bytes@, *old(pos) as int),
{
    let x: u8 = peek_byte(bytes, *pos)?;
    if x == 0x40 {
        read_byte(bytes, pos)?;
        let y: u8 = read_byte(bytes, pos)?;
        if y != 0x00 {
            return Err(WasmError::InvalidSection);
        }
        Ok(true)
    } else {
        Ok(false)
    }
}

/// Reads the initializer of a table, where it has one.
fn decode_table_init(bytes: &[u8], pos: &mut usize, has: bool) -> (r: Result<Option<Vec<u8>>, WasmError>)
    requires
        *old(pos) <= bytes@.len(),
    ensures
        ({
            let e = table_init(bytes@, *old(pos) as int, has);
            &&& *final(pos) == e.1
            &&& match r {
                Ok(Some(v)) => e.0 == Ok::<Option<Seq<u8>>, WasmError>(Some(v@)),
                Ok(None) => e.0 == Ok::<Option<Seq<u8>>, WasmError>(None),
                Err(x) => e.0 == Err::<Option<Seq<u8>>, WasmError>(x),
            }
        }),
{
    if has {
        let start: usize = *pos;
        eval_init_expr(bytes, pos)?;
        Ok(Some(copy_bytes(bytes, start, *pos)))
    } else {
        Ok(None)
    }
}

/// Reads the type of a table.
fn decode_table_head(bytes: &[u8], pos: &mut usize, types: usize) -> (r: Result<(bool, u8, Option<i32>), WasmError>)
    ensures
        (r, *final(pos) as int) == table_head(bytes@, *old(pos) as int, types as int),
        r is Ok ==> *final(pos) <= bytes@.len(),
{
    let has: bool = decode_table_prefix(bytes, pos)?;
    let (b, h) = decode_ref_bytes(bytes, pos)?;
    match h {
        Some(ht) => {
            if ht >= 0 && (ht as u32) >= types as u32 {
                return Err(WasmError::TypeMismatch);
            }
        },
        None => {
            if short_ref_type(b).is_none() {
                return Err(WasmError::InvalidSection);
            }
        },
    }
    Ok((has, b, h))
}

/// Reads a table.
fn decode_table(bytes: &[u8], pos: &mut usize, types: usize) -> (r: Result<TableDef, WasmError>)
    ensures
        ({
            let e = table_at(bytes@, *old(pos) as int, types as int);
            &&& *final(pos) == e.1
            &&& match r {
                Ok(t) => e.0 == Ok::<Table, WasmError>(t@),
                Err(x) => e.0 == Err::<Table, WasmError>(x),
            }
        }),
{
    let (has, b, h) = decode_table_head(bytes, pos, types)?;
    let (is_table64, min, max) = decode_table_limits(bytes, pos)?;
    let init_expr_bytes = decode_table_init(bytes, pos, has)?;
    let ht: i32 = match h {
        Some(ht) => ht,
        None => 0,
    };
    Ok(
        TableDef {
            min,
            max,
            elem_type: table_elem_type(b, ht),
            is_table64,
            init_expr_bytes,
            is_non_nullable: b == 0x64,
        },
    )
}

/// Reads the table section.
pub fn decode_table_section(bytes: &[u8], pos: &mut usize, module: &mut WasmModule) -> (r: Result<(), WasmError>)
    requires
        old(module).wf(),
    ensures
        yields(r, *final(pos), *final(module), table_section(bytes@, *old(pos) as int, old(module)@)),
        final(module).wf(),
        old(module).aligned() ==> final(module).aligned(),
{
    let count: u32 = decode_leb128_u32(bytes, pos)?;
    let mut i: u32 = 0;
    while i < count
        invariant
            i <= count,
            module.wf(),
            old(module).aligned() ==> module.aligned(),
            table_section(bytes@, *old(pos) as int, old(module)@) == tables_at(
                bytes@,
                *pos as int,
                (count - i) as nat,
                module@,
            ),
        decreases count - i,
    {
        let t = decode_table(bytes, pos, module.func_types.len())?;
        module.tables.push(t);
        i = i + 1;
    }
    Ok(())
}

// ---------------------------------------------------------------------------
// Globals

/// The heap type of a reference type at `p`, where one is spelled out.
pub open spec fn heap_ahead(s: Seq<u8>, p: int) -> Option<i32> {
    if p < s.len() && (s[p] == 0x63 || s[p] == 0x64) {
        match leb_i32(s, p + 1).0 {
            Ok(ht) => Some(ht),
            Err(_) => None,
        }
    } else {
        None
    }
}

/// The global at `p`.
pub open spec fn global_at(s: Seq<u8>, p: int, m: Module) -> Reading<Module> {
    let t = valtype_gc(s, p, m, m.func_types.len() as u32);
    match t.0 {
        Err(e) => (Err(e), t.1),
        Ok((val_type, m2)) => {
            let b = mutability_at(s, t.1);
            match b.0 {
                Err(e) => (Err((e, m2)), b.1),
                Ok(mutable) => {
                    let info = init_info(s, b.1, m2.gc_types);
                    let v = init_value(s, b.1, None);
                    match v.0 {
                        Err(e) => (Err((e, m2)), v.1),
                        Ok(init) => (
                            Ok(
                                Module {
                                    globals: m2.globals.push(
                                        Global {
                                            val_type,
                                            mutable,
                                            init_value: init,
                                            init_global_ref: info.global_ref,
                                            init_expr_type: info.result_type,
                                            init_expr_stack_depth: info.stack_depth,
                                            init_func_ref: info.func_ref,
                                            init_expr_bytes: s.subrange(b.1, v.1),
                                            heap_type: heap_ahead(s, p),
                                            has_non_const: info.has_non_const,
                                        },
                                    ),
                                    ..m2
                                },
                            ),
                            v.1,
                        ),
                    }
                },
            }
        },
    }
}

/// `n` globals at `p`.
pub open spec fn globals_at(s: Seq<u8>, p: int, n: nat, m: Module) -> Reading<Module>
    decreases n,
{
    if n == 0 {
        (Ok(m), p)
    } else {
        let r = global_at(s, p, m);
        match r.0 {
            Err(e) => (Err(e), r.1),
            Ok(m2) => globals_at(s, r.1, (n - 1) as nat, m2),
        }
    }
}

/// The global section at `p`.
pub open spec fn global_section(s: Seq<u8>, p: int, m: Module) -> Reading<Module> {
    let c = leb_u32(s, p);
    match c.0 {
        Err(e) => (Err((e, m)), c.1),
        Ok(count) => if count > MAX_GLOBALS {
            (Err((WasmError::TooManyFunctions, m)), c.1)
        } else {
            globals_at(s, c.1, count as nat, m)
        },
    }
}

/// The heap type of a reference type at `pos`, where one is spelled out.
fn peek_heap_type(bytes: &[u8], pos: usize) -> (r: Option<i32>)
    ensures
        r == heap_ahead(bytes@, pos as int),
{
    if pos < bytes.len() && (bytes[pos] == 0x63 || bytes[pos] == 0x64) {
        let mut ahead: usize = pos + 1;
        match decode_leb128_i32(bytes, &mut ahead) {
            Ok(ht) => Some(ht),
            Err(_) => None,
        }
    } else {
        None
    }
}

/// Reads a global.
fn decode_global(bytes: &[u8], pos: &mut usize, module: &mut WasmModule) -> (r: Result<(), WasmError>)
    requires
        old(module).wf(),
    ensures
        yields(r, *final(pos), *final(module), global_at(bytes@, *old(pos) as int, old(module)@)),
        final(module).wf(),
        old(module).aligned() ==> final(module).aligned(),
{
    let heap_type = peek_heap_type(bytes, *pos);
    let limit: u32 = module.func_types.len() as u32;
    let val_type = decode_valtype_gc_aware_with_limit(bytes, pos, module, limit)?;
    let mt: u8 = read_byte(bytes, pos)?;
    if mt > 1 {
        return Err(WasmError::InvalidSection);
    }
    let start: usize = *pos;
    let info = scan_init_expr_info_gc(bytes, *pos, module.gc_types.as_slice());
    let init = eval_init_expr(bytes, pos)?;
    let def = GlobalDef {
        val_type,
        mutable: mt != 0,
        init_value: init,
        init_global_ref: info.global_ref,
        init_expr_type: info.result_type,
        init_expr_stack_depth: info.stack_depth,
        init_func_ref: info.func_ref,
        init_expr_bytes: copy_bytes(bytes, start, *pos),
        heap_type,
        has_non_const: info.has_non_const,
    };
    module.globals.push(def);
    Ok(())
}

/// Reads the global section.
pub fn decode_global_section(bytes: &[u8], pos: &mut usize, module: &mut WasmModule) -> (r: Result<(), WasmError>)
    requires
        old(module).wf(),
    ensures
        yields(r, *final(pos), *final(module), global_section(bytes@, *old(pos) as int, old(module)@)),
        final(module).wf(),
        old(module).aligned() ==> final(module).aligned(),
{
    let count: u32 = decode_leb128_u32(bytes, pos)?;
    if count as usize > MAX_GLOBALS {
        return Err(WasmError::TooManyFunctions);
    }
    let mut i: u32 = 0;
    while i < count
        invariant
            i <= count,
            module.wf(),
            old(module).aligned() ==> module.aligned(),
            global_section(bytes@, *old(pos) as int, old(module)@) == globals_at(
                bytes@,
                *pos as int,
                (count - i) as nat,
                module@,
            ),
        decreases count - i,
    {
        decode_global(bytes, pos, module)?;
        i = i + 1;
    }
    Ok(())
}

// ---------------------------------------------------------------------------
// Elements

/// The number of global imports.
pub open spec fn imported_globals(imports: Seq<ImportDef>) -> nat
    decreases imports.len(),
{
    if imports.len() == 0 {
        0
    } else {
        imported_globals(imports.drop_last()) + if imports.last().kind is Global {
            1nat
        } else {
            0
        }
    }
}

/// The initial values of all globals, zero for imported ones.
pub open spec fn initial_globals(m: Module) -> Seq<Value> {
    Seq::new(imported_globals(m.imports), |i: int| Value::I32(0)) + Seq::new(
        m.globals.len(),
        |i: int| m.globals[i].init_value,
    )
}

/// The offset that an initializer's value stands for.
pub open spec fn offset_of(v: Value, wide: bool) -> u32 {
    match v {
        Value::I32(x) => x as u32,
        Value::I64(x) if wide => x as u32,
        _ => 0,
    }
}

/// The offset of an active segment at `p`, with what scanning its initializer finds
/// and where the initializer stands.
pub open spec fn active_offset(s: Seq<u8>, p: int, wide: bool) -> Parsed<(u32, InitExprInfo, (usize, usize))> {
    let v = init_value(s, p, None);
    match v.0 {
        Err(e) => (Err(e), v.1),
        Ok(x) => (Ok((offset_of(x, wide), init_info(s, p, Seq::empty()), (p as usize, v.1 as usize))), v.1),
    }
}

/// The table of an element segment: its index stands at `p` where flag bit one is
/// set and the segment is active.
pub open spec fn elem_table(s: Seq<u8>, p: int, flags: u32) -> Parsed<u32> {
    if flags == 2 || flags == 6 {
        leb_u32(s, p)
    } else {
        (Ok(0), p)
    }
}

/// The offset of an element segment, which an active one has.
pub open spec fn elem_offset(s: Seq<u8>, p: int, flags: u32) -> Parsed<(u32, InitExprInfo, (usize, usize))> {
    if flags % 2 == 0 {
        active_offset(s, p, flags < 4)
    } else {
        (Ok((0, InitExprInfo::nothing(), (0, 0))), p)
    }
}

/// The element type: a kind byte before function indices, a reference type before
/// expressions, and function references where flag bits zero and one are clear.
pub open spec fn elem_type(s: Seq<u8>, p: int, flags: u32, limit: u32) -> Parsed<ValType> {
    if flags == 0 || flags == 4 {
        (Ok(ValType::FuncRef), p)
    } else if flags < 4 {
        let b = byte_at(s, p);
        match b.0 {
            Err(e) => (Err(e), b.1),
            Ok(kind) => if kind != 0 {
                (Err(WasmError::InvalidSection), b.1)
            } else {
                (Ok(ValType::FuncRef), b.1)
            },
        }
    } else {
        reftype_at(s, p, limit)
    }
}

/// `n` indices at `p`, after those in `acc`.
pub open spec fn indices_at(s: Seq<u8>, p: int, n: nat, acc: Seq<u32>) -> Parsed<Seq<u32>>
    decreases n,
{
    if n == 0 {
        (Ok(acc), p)
    } else {
        let r = leb_u32(s, p);
        match r.0 {
            Err(e) => (Err(e), r.1),
            Ok(v) => indices_at(s, r.1, (n - 1) as nat, acc.push(v)),
        }
    }
}

/// The items of an element segment: the function index of each and, of items that
/// are expressions, what scanning finds and the bytes.
#[verifier::ext_equal]
pub struct Items {
    pub indices: Seq<u32>,
    pub infos: Seq<InitExprInfo>,
    pub exprs: Seq<Seq<u8>>,
}

/// The function index that an item's value stands for; the highest number for one
/// that is no function.
pub open spec fn item_index(v: Value) -> u32 {
    match v {
        Value::I32(x) => x as u32,
        _ => u32::MAX,
    }
}

/// `n` expressions at `p`, after the items in `acc`.
pub open spec fn exprs_at(s: Seq<u8>, p: int, n: nat, globals: Seq<Value>, acc: Items) -> Parsed<Items>
    decreases n,
{
    if n == 0 {
        (Ok(acc), p)
    } else {
        let r = init_value(s, p, Some(globals));
        match r.0 {
            Err(e) => (Err(e), r.1),
            Ok(v) => exprs_at(
                s,
                r.1,
                (n - 1) as nat,
                globals,
                Items {
                    indices: acc.indices.push(item_index(v)),
                    infos: acc.infos.push(init_info(s, p, Seq::empty())),
                    exprs: acc.exprs.push(s.subrange(p, r.1)),
                },
            ),
        }
    }
}

/// The items of an element segment at `p`, with their count in front.
pub open spec fn items_at(s: Seq<u8>, p: int, flags: u32, globals: Seq<Value>) -> Parsed<Items> {
    let c = leb_u32(s, p);
    match c.0 {
        Err(e) => (Err(e), c.1),
        Ok(count) => if flags < 4 {
            let r = indices_at(s, c.1, count as nat, Seq::empty());
            match r.0 {
                Err(e) => (Err(e), r.1),
                Ok(indices) => (Ok(Items { indices, infos: Seq::empty(), exprs: Seq::empty() }), r.1),
            }
        } else {
            exprs_at(
                s,
                c.1,
                count as nat,
                globals,
                Items { indices: Seq::empty(), infos: Seq::empty(), exprs: Seq::empty() },
            )
        },
    }
}

/// When a segment with these flags is used.
pub open spec fn elem_mode(flags: u32) -> ElemMode {
    if flags % 2 == 0 {
        ElemMode::Active
    } else if flags == 1 || flags == 5 {
        ElemMode::Passive
    } else {
        ElemMode::Declarative
    }
}

/// What stands before the items of an element segment.
pub struct ElemHead {
    pub flags: u32,
    pub table_idx: u32,
    pub offset: u32,
    pub offset_expr_info: InitExprInfo,
    pub offset_expr_range: (usize, usize),
    pub elem_type: ValType,
}

/// The head of the element segment at `p`.
pub open spec fn elem_head(s: Seq<u8>, p: int, limit: u32) -> Parsed<ElemHead> {
    let f = leb_u32(s, p);
    match f.0 {
        Err(e) => (Err(e), f.1),
        Ok(flags) => if flags > 7 {
            (Err(WasmError::InvalidSection), f.1)
        } else {
            let t = elem_table(s, f.1, flags);
            match t.0 {
                Err(e) => (Err(e), t.1),
                Ok(table_idx) => {
                    let o = elem_offset(s, t.1, flags);
                    match o.0 {
                        Err(e) => (Err(e), o.1),
                        Ok((offset, offset_expr_info, offset_expr_range)) => {
                            let y = elem_type(s, o.1, flags, limit);
                            match y.0 {
                                Err(e) => (Err(e), y.1),
                                Ok(elem_type) => (
                                    Ok(
                                        ElemHead {
                                            flags,
                                            table_idx,
                                            offset,
                                            offset_expr_info,
                                            offset_expr_range,
                                            elem_type,
                                        },
                                    ),
                                    y.1,
                                ),
                            }
                        },
                    }
                },
            }
        },
    }
}

/// The element segment with this head and these items.
pub open spec fn element_of(h: ElemHead, items: Items) -> Element {
    Element {
        table_idx: h.table_idx,
        offset: h.offset,
        func_indices: items.indices,
        mode: elem_mode(h.flags),
        elem_type: h.elem_type,
        offset_expr_info: h.offset_expr_info,
        item_expr_infos: items.infos,
        offset_expr_range: h.offset_expr_range,
        item_expr_bytes: items.exprs,
    }
}

/// The element segment at `p`.
pub open spec fn element_at(s: Seq<u8>, p: int, limit: u32, globals: Seq<Value>) -> Parsed<Element> {
    let h = elem_head(s, p, limit);
    match h.0 {
        Err(e) => (Err(e), h.1),
        Ok(head) => {
            let i = items_at(s, h.1, head.flags, globals);
            match i.0 {
                Err(e) => (Err(e), i.1),
                Ok(items) => (Ok(element_of(head, items)), i.1),
            }
        },
    }
}

/// `n` element segments at `p`.
pub open spec fn elements_at(s: Seq<u8>, p: int, n: nat, m: Module, globals: Seq<Value>) -> Reading<Module>
    decreases n,
{
    if n == 0 {
        (Ok(m), p)
    } else {
        let r = element_at(s, p, m.func_types.len() as u32, globals);
        match r.0 {
            Err(e) => (Err((e, m)), r.1),
            Ok(x) => elements_at(
                s,
                r.1,
                (n - 1) as nat,
                Module { element_segments: m.element_segments.push(x), ..m },
                globals,
            ),
        }
    }
}

/// The element section at `p`.
pub open spec fn element_section(s: Seq<u8>, p: int, m: Module) -> Reading<Module> {
    let c = leb_u32(s, p);
    match c.0 {
        Err(e) => (Err((e, m)), c.1),
        Ok(count) => if count > MAX_ELEMENT_SEGMENTS {
            (Err((WasmError::InvalidSection, m)), c.1)
        } else {
            elements_at(s, c.1, count as nat, m, initial_globals(m))
        },
    }
}

/// The initial values of all globals, zero for imported ones.
fn collect_initial_globals(module: &WasmModule) -> (r: Vec<Value>)
    ensures
        r@ == initial_globals(module@),
{
    let mut v: Vec<Value> = Vec::new();
    let mut i: usize = 0;
    while i < module.imports.len()
        invariant
            i <= module.imports@.len(),
            v@ == Seq::new(imported_globals(module.imports@.take(i as int)), |k: int| Value::I32(0)),
        decreases module.imports@.len() - i,
    {
        assert(module.imports@.take(i + 1).drop_last() =~= module.imports@.take(i as int));
        match module.imports[i].kind {
            ImportKind::Global(_, _, _) => {
                v.push(Value::I32(0));
            },
            _ => {},
        }
        i = i + 1;
        assert(v@ =~= Seq::new(imported_globals(module.imports@.take(i as int)), |k: int| Value::I32(0)));
    }
    assert(module.imports@.take(i as int) =~= module.imports@);
    let ghost zeros = v@;
    let mut k: usize = 0;
    while k < module.globals.len()
        invariant
            k <= module.globals@.len(),
            v@ == zeros + Seq::new(k as nat, |j: int| module@.globals[j].init_value),
        decreases module.globals@.len() - k,
    {
        v.push(module.globals[k].init_value);
        k = k + 1;
        assert(v@ =~= zeros + Seq::new(k as nat, |j: int| module@.globals[j].init_value));
    }
    assert(v@ =~= initial_globals(module@));
    v
}

/// Reads the offset of an active segment.
fn decode_active_offset(bytes: &[u8], pos: &mut usize, wide: bool) -> (r: Result<
    (u32, InitExprInfo, (usize, usize)),
    WasmError,
>)
    requires
        *old(pos) <= bytes@.len(),
    ensures
        (r, *final(pos) as int) == active_offset(bytes@, *old(pos) as int, wide),
{
    let start: usize = *pos;
    let info = scan_init_expr_info(bytes, *pos);
    let v = eval_init_expr(bytes, pos)?;
    let offset: u32 = match v {
        Value::I32(x) => x as u32,
        Value::I64(x) => if wide {
            x as u32
        } else {
            0
        },
        _ => 0,
    };
    Ok((offset, info, (start, *pos)))
}

/// Reads the element type of an element segment.
fn decode_elem_type(bytes: &[u8], pos: &mut usize, flags: u32, limit: u32) -> (r: Result<ValType, WasmError>)
    ensures
        (r, *final(pos) as int) == elem_type(bytes@, *old(pos) as int, flags, limit),
{
    if flags == 0 || flags == 4 {
        Ok(ValType::FuncRef)
    } else if flags < 4 {
        let kind: u8 = read_byte(bytes, pos)?;
        if kind != 0x00 {
            return Err(WasmError::InvalidSection);
        }
        Ok(ValType::FuncRef)
    } else {
        decode_reftype_real_with_limit(bytes, pos, limit)
    }
}

/// Reads `n` indices.
fn decode_indices(bytes: &[u8], pos: &mut usize, n: u32) -> (r: Result<Vec<u32>, WasmError>)
    ensures
        ({
            let e = indices_at(bytes@, *old(pos) as int, n as nat, Seq::empty());
            &&& *final(pos) == e.1
            &&& match r {
                Ok(v) => e.0 == Ok::<Seq<u32>, WasmError>(v@),
                Err(x) => e.0 == Err::<Seq<u32>, WasmError>(x),
            }
        }),
{
    let mut v: Vec<u32> = Vec::new();
    let mut i: u32 = 0;
    while i < n
        invariant
            i <= n,
            indices_at(bytes@, *old(pos) as int, n as nat, Seq::empty()) == indices_at(
                bytes@,
                *pos as int,
                (n - i) as nat,
                v@,
            ),
        decreases n - i,
    {
        let x: u32 = decode_leb128_u32(bytes, pos)?;
        v.push(x);
        i = i + 1;
    }
    Ok(v)
}

/// Reads `n` expressions.
fn decode_exprs(bytes: &[u8], pos: &mut usize, n: u32, globals: &Vec<Value>) -> (r: Result<
    (Vec<u32>, Vec<InitExprInfo>, Vec<Vec<u8>>),
    WasmError,
>)
    requires
        *old(pos) <= bytes@.len(),
    ensures
        ({
            let none = Items { indices: Seq::empty(), infos: Seq::empty(), exprs: Seq::empty() };
            let e = exprs_at(bytes@, *old(pos) as int, n as nat, globals@, none);
            &&& *final(pos) == e.1
            &&& match r {
                Ok(v) => e.0 == Ok::<Items, WasmError>(
                    Items { indices: v.0@, infos: v.1@, exprs: views(v.2@) },
                ),
                Err(x) => e.0 == Err::<Items, WasmError>(x),
            }
        }),
{
    let mut indices: Vec<u32> = Vec::new();
    let mut infos: Vec<InitExprInfo> = Vec::new();
    let mut exprs: Vec<Vec<u8>> = Vec::new();
    let mut i: u32 = 0;
    let ghost none = Items { indices: Seq::empty(), infos: Seq::empty(), exprs: Seq::empty() };
    while i < n
        invariant
            i <= n,
            *pos <= bytes@.len(),
            none == (Items { indices: Seq::empty(), infos: Seq::empty(), exprs: Seq::empty() }),
            exprs_at(bytes@, *old(pos) as int, n as nat, globals@, none) == exprs_at(
                bytes@,
                *pos as int,
                (n - i) as nat,
                globals@,
                Items { indices: indices@, infos: infos@, exprs: views(exprs@) },
            ),
        decreases n - i,
    {
        let start: usize = *pos;
        let info = scan_init_expr_info(bytes, *pos);
        let v = eval_init_expr_with_globals(bytes, pos, globals.as_slice())?;
        let idx: u32 = match v {
            Value::I32(x) => x as u32,
            _ => u32::MAX,
        };
        indices.push(idx);
        infos.push(info);
        exprs.push(copy_bytes(bytes, start, *pos));
        i = i + 1;
    }
    Ok((indices, infos, exprs))
}

/// Reads the items of an element segment.
fn decode_items(bytes: &[u8], pos: &mut usize, flags: u32, globals: &Vec<Value>) -> (r: Result<
    (Vec<u32>, Vec<InitExprInfo>, Vec<Vec<u8>>),
    WasmError,
>)
    ensures
        ({
            let e = items_at(bytes@, *old(pos) as int, flags, globals@);
            &&& *final(pos) == e.1
            &&& match r {
                Ok(v) => e.0 == Ok::<Items, WasmError>(
                    Items { indices: v.0@, infos: v.1@, exprs: views(v.2@) },
                ),
                Err(x) => e.0 == Err::<Items, WasmError>(x),
            }
        }),
{
    let count: u32 = decode_leb128_u32(bytes, pos)?;
    if flags < 4 {
        let indices = decode_indices(bytes, pos, count)?;
        Ok((indices, Vec::new(), Vec::new()))
    } else {
        decode_exprs(bytes, pos, count, globals)
    }
}

/// Reads the head of an element segment.
fn decode_elem_head(bytes: &[u8], pos: &mut usize, limit: u32) -> (r: Result<ElemHead, WasmError>)
    ensures
        (r, *final(pos) as int) == elem_head(bytes@, *old(pos) as int, limit),
{
    let flags: u32 = decode_leb128_u32(bytes, pos)?;
    if flags > 7 {
        return Err(WasmError::InvalidSection);
    }
    let table_idx: u32 = if flags == 2 || flags == 6 {
        decode_leb128_u32(bytes, pos)?
    } else {
        0
    };
    let (offset, offset_expr_info, offset_expr_range) = if flags % 2 == 0 {
        decode_active_offset(bytes, pos, flags < 4)?
    } else {
        (0, InitExprInfo::default(), (0, 0))
    };
    let elem_type = decode_elem_type(bytes, pos, flags, limit)?;
    Ok(ElemHead { flags, table_idx, offset, offset_expr_info, offset_expr_range, elem_type })
}

/// Reads an element segment.
fn decode_element(bytes: &[u8], pos: &mut usize, limit: u32, globals: &Vec<Value>) -> (r: Result<
    ElementSegment,
    WasmError,
>)
    ensures
        ({
            let e = element_at(bytes@, *old(pos) as int, limit, globals@);
            &&& *final(pos) == e.1
            &&& match r {
                Ok(x) => e.0 == Ok::<Element, WasmError>(x@),
                Err(x) => e.0 == Err::<Element, WasmError>(x),
            }
        }),
{
    let h = decode_elem_head(bytes, pos, limit)?;
    let (func_indices, item_expr_infos, item_expr_bytes) = decode_items(bytes, pos, h.flags, globals)?;
    let mode = if h.flags % 2 == 0 {
        ElemMode::Active
    } else if h.flags == 1 || h.flags == 5 {
        ElemMode::Passive
    } else {
        ElemMode::Declarative
    };
    Ok(
        ElementSegment {
            table_idx: h.table_idx,
            offset: h.offset,
            func_indices,
            mode,
            elem_type: h.elem_type,
            offset_expr_info: h.offset_expr_info,
            item_expr_infos,
            offset_expr_range: h.offset_expr_range,
            item_expr_bytes,
        },
    )
}

/// Reads the element section.
pub fn decode_element_section(bytes: &[u8], pos: &mut usize, module: &mut WasmModule) -> (r: Result<(), WasmError>)
    requires
        old(module).wf(),
    ensures
        yields(r, *final(pos), *final(module), element_section(bytes@, *old(pos) as int, old(module)@)),
        final(module).wf(),
        old(module).aligned() ==> final(module).aligned(),
{
    let globals = collect_initial_globals(module);
    let count: u32 = decode_leb128_u32(bytes, pos)?;
    if count as usize > MAX_ELEMENT_SEGMENTS {
        return Err(WasmError::InvalidSection);
    }
    let mut i: u32 = 0;
    while i < count
        invariant
            i <= count,
            module.wf(),
            old(module).aligned() ==> module.aligned(),
            element_section(bytes@, *old(pos) as int, old(module)@) == elements_at(
                bytes@,
                *pos as int,
                (count - i) as nat,
                module@,
                globals@,
            ),
        decreases count - i,
    {
        let x = decode_element(bytes, pos, module.func_types.len() as u32, &globals)?;
        module.element_segments.push(x);
        i = i + 1;
    }
    Ok(())
}

// ---------------------------------------------------------------------------
// Start function, data and the data count

/// The start section at `p`.
pub open spec fn start_section(s: Seq<u8>, p: int, m: Module) -> Reading<Module> {
    let r = leb_u32(s, p);
    match r.0 {
        Err(e) => (Err((e, m)), r.1),
        Ok(idx) => (Ok(Module { start_func: Some(idx), ..m }), r.1),
    }
}

/// The data-count section at `p`.
pub open spec fn data_count_section(s: Seq<u8>, p: int, m: Module) -> Reading<Module> {
    let r = leb_u32(s, p);
    match r.0 {
        Err(e) => (Err((e, m)), r.1),
        Ok(count) => (Ok(Module { data_count: Some(count), ..m }), r.1),
    }
}

/// The memory of a data segment, whose index stands at `p` under flag two.
pub open spec fn data_memory(s: Seq<u8>, p: int, flags: u32) -> Parsed<u32> {
    if flags == 2 {
        leb_u32(s, p)
    } else {
        (Ok(0), p)
    }
}

/// The offset of a data segment, which an active one has.
pub open spec fn data_offset(s: Seq<u8>, p: int, flags: u32) -> Parsed<(u32, InitExprInfo, (usize, usize))> {
    if flags == 1 {
        (Ok((0, InitExprInfo::nothing(), (0, 0))), p)
    } else {
        active_offset(s, p, true)
    }
}

/// What stands before the bytes of the data segment at `p`, as a segment whose bytes
/// start at `start` of the code.
pub open spec fn data_head(s: Seq<u8>, p: int, start: int) -> Parsed<DataSegment> {
    let f = leb_u32(s, p);
    match f.0 {
        Err(e) => (Err(e), f.1),
        Ok(flags) => if flags > 2 {
            (Err(WasmError::InvalidSection), f.1)
        } else {
            let t = data_memory(s, f.1, flags);
            match t.0 {
                Err(e) => (Err(e), t.1),
                Ok(memory_idx) => {
                    let o = data_offset(s, t.1, flags);
                    match o.0 {
                        Err(e) => (Err(e), o.1),
                        Ok((offset, offset_expr_info, offset_expr_range)) => {
                            let l = leb_u32(s, o.1);
                            match l.0 {
                                Err(e) => (Err(e), l.1),
                                Ok(len) => (
                                    Ok(
                                        DataSegment {
                                            memory_idx,
                                            offset,
                                            is_active: flags != 1,
                                            data_offset: start as usize,
                                            data_len: len as usize,
                                            offset_expr_info,
                                            offset_expr_range,
                                        },
                                    ),
                                    l.1,
                                ),
                            }
                        },
                    }
                },
            }
        },
    }
}

/// The data segment at `p`.
pub open spec fn data_at(s: Seq<u8>, p: int, m: Module) -> Reading<Module> {
    let h = data_head(s, p, m.code.len() as int);
    match h.0 {
        Err(e) => (Err((e, m)), h.1),
        Ok(d) => if h.1 + d.data_len > s.len() {
            (Err((WasmError::UnexpectedEnd, m)), h.1)
        } else {
            (
                Ok(
                    Module {
                        code: m.code + s.subrange(h.1, h.1 + d.data_len),
                        data_segments: m.data_segments.push(d),
                        ..m
                    },
                ),
                h.1 + d.data_len,
            )
        },
    }
}

/// `n` data segments at `p`.
pub open spec fn datas_at(s: Seq<u8>, p: int, n: nat, m: Module) -> Reading<Module>
    decreases n,
{
    if n == 0 {
        (Ok(m), p)
    } else {
        let r = data_at(s, p, m);
        match r.0 {
            Err(e) => (Err(e), r.1),
            Ok(m2) => datas_at(s, r.1, (n - 1) as nat, m2),
        }
    }
}

/// The data section at `p`.
pub open spec fn data_section(s: Seq<u8>, p: int, m: Module) -> Reading<Module> {
    let c = leb_u32(s, p);
    match c.0 {
        Err(e) => (Err((e, m)), c.1),
        Ok(count) => if count > MAX_DATA_SEGMENTS {
            (Err((WasmError::InvalidSection, m)), c.1)
        } else {
            datas_at(s, c.1, count as nat, m)
        },
    }
}

/// Reads the start section.
pub fn decode_start_section(bytes: &[u8], pos: &mut usize, module: &mut WasmModule) -> (r: Result<(), WasmError>)
    requires
        old(module).wf(),
    ensures
        yields(r, *final(pos), *final(module), start_section(bytes@, *old(pos) as int, old(module)@)),
        final(module).wf(),
        old(module).aligned() ==> final(module).aligned(),
{
    let idx: u32 = decode_leb128_u32(bytes, pos)?;
    module.start_func = Some(idx);
    Ok(())
}

/// Reads the data-count section.
pub fn decode_data_count_section(bytes: &[u8], pos: &mut usize, module: &mut WasmModule) -> (r: Result<
    (),
    WasmError,
>)
    requires
        old(module).wf(),
    ensures
        yields(r, *final(pos), *final(module), data_count_section(bytes@, *old(pos) as int, old(module)@)),
        final(module).wf(),
        old(module).aligned() ==> final(module).aligned(),
{
    let count: u32 = decode_leb128_u32(bytes, pos)?;
    module.data_count = Some(count);
    Ok(())
}

/// Reads what stands before the bytes of a data segment.
fn decode_data_head(bytes: &[u8], pos: &mut usize, start: usize) -> (r: Result<DataSegment, WasmError>)
    ensures
        (r, *final(pos) as int) == data_head(bytes@, *old(pos) as int, start as int),
        r is Ok ==> *final(pos) <= bytes@.len(),
{
    let flags: u32 = decode_leb128_u32(bytes, pos)?;
    if flags > 2 {
        return Err(WasmError::InvalidSection);
    }
    let memory_idx: u32 = if flags == 2 {
        decode_leb128_u32(bytes, pos)?
    } else {
        0
    };
    let (offset, offset_expr_info, offset_expr_range) = if flags == 1 {
        (0, InitExprInfo::default(), (0, 0))
    } else {
        decode_active_offset(bytes, pos, true)?
    };
    let len: u32 = decode_leb128_u32(bytes, pos)?;
    Ok(
        DataSegment {
            memory_idx,
            offset,
            is_active: flags != 1,
            data_offset: start,
            data_len: len as usize,
            offset_expr_info,
            offset_expr_range,
        },
    )
}

/// Reads a data segment.
fn decode_data(bytes: &[u8], pos: &mut usize, module: &mut WasmModule) -> (r: Result<(), WasmError>)
    requires
        old(module).wf(),
    ensures
        yields(r, *final(pos), *final(module), data_at(bytes@, *old(pos) as int, old(module)@)),
        final(module).wf(),
        old(module).aligned() ==> final(module).aligned(),
{
    let d = decode_data_head(bytes, pos, module.code.len())?;
    if d.data_len > bytes.len() - *pos {
        return Err(WasmError::UnexpectedEnd);
    }
    append_bytes(&mut module.code, vstd::slice::slice_subrange(bytes, *pos, *pos + d.data_len));
    *pos = *pos + d.data_len;
    module.data_segments.push(d);
    Ok(())
}

/// Reads the data section.
pub fn decode_data_section(bytes: &[u8], pos: &mut usize, module: &mut WasmModule) -> (r: Result<(), WasmError>)
    requires
        old(module).wf(),
    ensures
        yields(r, *final(pos), *final(module), data_section(bytes@, *old(pos) as int, old(module)@)),
        final(module).wf(),
        old(module).aligned() ==> final(module).aligned(),
{
    let count: u32 = decode_leb128_u32(bytes, pos)?;
    if count as usize > MAX_DATA_SEGMENTS {
        return Err(WasmError::InvalidSection);
    }
    let mut i: u32 = 0;
    while i < count
        invariant
            i <= count,
            module.wf(),
            old(module).aligned() ==> module.aligned(),
            data_section(bytes@, *old(pos) as int, old(module)@) == datas_at(
                bytes@,
                *pos as int,
                (count - i) as nat,
                module@,
            ),
        decreases count - i,
    {
        decode_data(bytes, pos, module)?;
        i = i + 1;
    }
    Ok(())
}

} // verus!
