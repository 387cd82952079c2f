//! How the entries of a module are written: what stands in the bytes for each kind of entry.

use vstd::prelude::*;
use crate::decode_sections::{export_at, import_desc, memory_at, table_limits};
use crate::decode_segments::{data_head, elem_head, elem_mode, global_at, item_index, table_at};
use crate::decoder::section_header;
use crate::decode_types::{heap_ref, short_ref, short_type, valtype_at, valtype_gc};
use crate::init_expr::init_value;
use crate::linker::byte_type;
use crate::module::{ElemMode, ExportKind, ImportKind, Module};
use crate::reader::{leb_i32, leb_u32, leb_u64, name_at};
use crate::scalar_laws::{casts32, unsigned32};
use crate::types::{ValType, Value, WasmError};

verus! {

/// Whether a number of 32 or of 64 bits stands there.
pub open spec fn bound(s: Seq<u8>, p: int, wide: bool, x: u64, q: int) -> bool {
    if wide {
        leb_u64(s, p) == (Ok::<u64, WasmError>(x), q)
    } else {
        x <= u32::MAX && leb_u32(s, p) == (Ok::<u32, WasmError>(x as u32), q)
    }
}

/// The flags of a memory or a table: bit zero where there is a maximum, bit one where it is
/// shared, bit two where it is addressed with 64 bits, bit three where it has its own page
/// size.
pub open spec fn limit_flags(max: bool, shared: bool, wide: bool, paged: bool) -> int {
    (if max { 1int } else { 0int }) + (if shared { 2int } else { 0int }) + (if wide { 4int } else { 0int }) + (if paged {
        8int
    } else {
        0int
    })
}

/// A memory is its flags, its minimum, its maximum where it has one, and its page size where
/// it has one. A shared memory without a maximum is refused.
pub proof fn memories_are_written(
    s: Seq<u8>,
    p: int,
    shared: bool,
    wide: bool,
    min: u64,
    q: int,
    max: Option<u64>,
    r: int,
    log2: Option<u32>,
    end: int,
)
    requires
        0 <= p < s.len(),
        s[p] == limit_flags(max is Some, shared, wide, log2 is Some),
        bound(s, p + 1, wide, min, q),
        max matches Some(x) ==> bound(s, q, wide, x, r),
        max is None ==> r == q,
        log2 matches Some(l) ==> l < 64 && leb_u32(s, r) == (Ok::<u32, WasmError>(l), end),
        log2 is None ==> end == r,
        min <= u32::MAX,
        max matches Some(x) ==> x <= u32::MAX,
        log2 is None || log2->Some_0 <= 16,
    ensures
        shared && max is None ==> memory_at(s, p).0 == Err::<crate::module::MemoryDef, WasmError>(
            WasmError::InvalidSection,
        ),
        shared ==> max is Some ==> memory_at(s, p).0 is Ok,
        !shared || max is Some ==> {
            let d = memory_at(s, p).0->Ok_0;
            &&& memory_at(s, p).0 is Ok
            &&& memory_at(s, p).1 == end
            &&& d.min_pages == min
            &&& d.has_max == (max is Some)
            &&& max matches Some(x) ==> d.max_pages == x
            &&& d.is_shared == shared
            &&& d.is_memory64 == wide
            &&& d.page_size_log2 == log2
        },
{
    let flags = s[p];
    assert(flags / 2 % 2 == (if shared { 1u8 } else { 0u8 }));
    assert(flags / 4 % 2 == (if wide { 1u8 } else { 0u8 }));
    assert(flags >= 8 <==> log2 is Some);
    assert(flags % 2 == (if max is Some { 1u8 } else { 0u8 }));
    if wide {
        let l: u32 = match log2 {
            Some(l) => l,
            None => 16,
        };
        many_pages(l);
    }
}

proof fn many_pages(l: u32)
    requires
        l <= 16,
    ensures
        crate::decode_sections::max_pages64(l) >= 0xFFFF_FFFF,
{
    if l > 0 {
        let k = (64 - l) as u32;
        assert(1u64 << k >= 0xFFFF_FFFF) by (bit_vector)
            requires
                48 <= k <= 63,
        ;
    }
}

/// The limits of a table are its flags, its minimum, and its maximum where it has one.
pub proof fn table_limits_are_written(
    s: Seq<u8>,
    p: int,
    wide: bool,
    min: u64,
    q: int,
    max: Option<u64>,
    end: int,
)
    requires
        0 <= p < s.len(),
        s[p] == limit_flags(max is Some, false, wide, false),
        bound(s, p + 1, wide, min, q),
        max matches Some(x) ==> bound(s, q, wide, x, end),
        max is None ==> end == q,
        min <= u32::MAX,
        max matches Some(x) ==> x <= u32::MAX,
    ensures
        table_limits(s, p).0 is Ok,
        table_limits(s, p).1 == end,
        table_limits(s, p).0->Ok_0.0 == wide,
        table_limits(s, p).0->Ok_0.1 == min,
        max matches Some(x) ==> table_limits(s, p).0->Ok_0.2 == Some(x as u32),
        max is None ==> table_limits(s, p).0->Ok_0.2 is None,
{
}

/// An export is its name, the number of its space and the index there; the name goes behind
/// the names that there are.
pub proof fn exports_are_written(s: Seq<u8>, p: int, m: Module, name: Seq<u8>, q: int, idx: u32, end: int)
    requires
        name_at(s, p) == (Ok::<Seq<u8>, WasmError>(name), q),
        0 <= q < s.len(),
        s[q] <= 4,
        leb_u32(s, q + 1) == (Ok::<u32, WasmError>(idx), end),
        m.names.len() + name.len() <= usize::MAX,
    ensures
        export_at(s, p, m).1 == end,
        export_at(s, p, m).0 is Ok,
        ({
            let r = export_at(s, p, m).0->Ok_0;
            let e = r.exports.last();
            &&& r.exports.len() == m.exports.len() + 1
            &&& r.exports.drop_last() == m.exports
            &&& r.names.subrange(e.name_offset as int, e.name_offset + e.name_len) == name
            &&& m.names.is_prefix_of(r.names)
            &&& s[q] == 0 ==> e.kind == ExportKind::Func(idx)
            &&& s[q] == 1 ==> e.kind == ExportKind::Table(idx)
            &&& s[q] == 2 ==> e.kind == ExportKind::Memory(idx)
            &&& s[q] == 3 ==> e.kind == ExportKind::Global(idx)
            &&& s[q] == 4 ==> e.kind == ExportKind::Tag(idx)
            &&& r == (Module { exports: r.exports, names: r.names, ..m })
        }),
{
    let r = export_at(s, p, m).0->Ok_0;
    let e = r.exports.last();
    assert(r.exports.drop_last() =~= m.exports);
    assert(r.names.subrange(e.name_offset as int, e.name_offset + e.name_len) =~= name);
}

/// Imports of functions, tags and memories are a kind byte and a type; those of tags have one
/// more byte in between.
pub proof fn imports_are_written(s: Seq<u8>, p: int, m: Module, ti: u32, end: int)
    requires
        0 <= p < s.len(),
    ensures
        s[p] == 0 && leb_u32(s, p + 1) == (Ok::<u32, WasmError>(ti), end) ==> import_desc(s, p, m) == (
            Ok::<(ImportKind, Module), (WasmError, Module)>((ImportKind::Func(ti), m)),
            end,
        ),
        s[p] == 4 && p + 1 < s.len() && leb_u32(s, p + 2) == (Ok::<u32, WasmError>(ti), end) ==> import_desc(s, p, m)
            == (Ok::<(ImportKind, Module), (WasmError, Module)>((ImportKind::Tag(ti), m)), end),
        s[p] == 2 && memory_at(s, p + 1).0 is Ok ==> {
            let r = import_desc(s, p, m);
            &&& r.0 is Ok && r.1 == memory_at(s, p + 1).1
            &&& r.0->Ok_0.0 == ImportKind::Memory
            &&& r.0->Ok_0.1.memories == m.memories.push(memory_at(s, p + 1).0->Ok_0)
            &&& r.0->Ok_0.1.has_memory
        },
        s[p] > 4 ==> import_desc(s, p, m).0 is Err,
{
    reveal(import_desc);
}

// ---------------------------------------------------------------------------
// Types

/// A reference type of one byte is the nullable reference to the heap type whose number is
/// that byte read as a signed number of seven bits. The type 0x68 has no long form.
pub proof fn short_references_are_nullable(b: u8)
    requires
        0x40 <= b < 0x80,
        b != 0x68,
        short_ref(b) is Some,
    ensures
        heap_ref((b - 0x80) as i32, true) == short_ref(b),
{
}

/// Every abstract heap type has a reference type of one byte.
pub proof fn heap_types_have_short_forms(ht: i32)
    requires
        -24 < ht < 0,
        heap_ref(ht, true) is Some,
    ensures
        short_ref((ht + 0x80) as u8) == heap_ref(ht, true),
{
}

/// The number types are 0x7F down to 0x7B, in this order, and none of them is a reference.
pub proof fn number_types_come_first(s: Seq<u8>, p: int)
    requires
        0 <= p < s.len(),
        0x7B <= s[p] <= 0x7F,
    ensures
        valtype_at(s, p).1 == p + 1,
        valtype_at(s, p).0 is Ok,
        valtype_at(s, p).0->Ok_0 == if s[p] == 0x7F {
            ValType::I32
        } else if s[p] == 0x7E {
            ValType::I64
        } else if s[p] == 0x7D {
            ValType::F32
        } else if s[p] == 0x7C {
            ValType::F64
        } else {
            ValType::V128
        },
        short_ref(s[p]) is None,
        byte_type(s[p]) == short_type(s[p]),
{
}

/// References to functions, external values and exceptions are read alike in import bindings.
pub proof fn import_bytes_are_types(b: u8)
    requires
        byte_type(b) is Some,
        b != 0x63 && b != 0x64,
    ensures
        short_type(b) == byte_type(b),
{
}

/// A reference type with a heap type behind it starts with 0x63 where it admits null and with
/// 0x64 where it does not; for a type index the two differ.
pub proof fn long_references_are_written(s: Seq<u8>, p: int, ht: i32, end: int)
    requires
        0 <= p < s.len(),
        s[p] == 0x63 || s[p] == 0x64,
        leb_i32(s, p + 1) == (Ok::<i32, WasmError>(ht), end),
        ht >= 0 || ht == -16 || ht == -18 || ht == -19 || ht == -21 || ht == -22,
    ensures
        valtype_at(s, p).0 is Ok,
        valtype_at(s, p).1 == end,
        heap_ref(ht, true) != heap_ref(ht, false),
        heap_ref(ht, s[p] == 0x63) == Some(valtype_at(s, p).0->Ok_0),
        ht >= 0 ==> valtype_at(s, p).0->Ok_0 == if s[p] == 0x63 {
            ValType::NullableTypedFuncRef
        } else {
            ValType::TypedFuncRef
        },
{
}

// ---------------------------------------------------------------------------
// Segments

/// A data segment is a number that says how it is used: zero for the first memory, one for
/// none, two for the memory whose index follows; then its offset, unless it is used for none,
/// and the number of its bytes.
pub proof fn data_segments_are_written(
    s: Seq<u8>,
    p: int,
    start: int,
    flags: u32,
    q: int,
    mi: u32,
    r: int,
    v: i32,
    o: int,
    len: u32,
    end: int,
)
    requires
        leb_u32(s, p) == (Ok::<u32, WasmError>(flags), q),
        flags <= 2,
        flags == 2 ==> leb_u32(s, q) == (Ok::<u32, WasmError>(mi), r),
        flags != 2 ==> mi == 0 && r == q,
        flags != 1 ==> init_value(s, r, None) == (Ok::<Value, WasmError>(Value::I32(v)), o),
        flags == 1 ==> o == r,
        leb_u32(s, o) == (Ok::<u32, WasmError>(len), end),
        0 <= start <= usize::MAX,
    ensures
        ({
            let d = data_head(s, p, start).0->Ok_0;
            &&& data_head(s, p, start).0 is Ok
            &&& data_head(s, p, start).1 == end
            &&& d.memory_idx == mi
            &&& d.is_active == (flags != 1)
            &&& flags != 1 ==> d.offset == unsigned32(v)
            &&& d.data_offset == start
            &&& d.data_len == len
        }),
{
    casts32(v, 0);
}

/// An element segment is a number of three bits: bit zero where it is not active, bit one
/// where it names its table or, not being active, is only declared, bit two where its items
/// are expressions.
pub proof fn element_segments_are_written(
    s: Seq<u8>,
    p: int,
    limit: u32,
    flags: u32,
    q: int,
    ti: u32,
    r: int,
    v: i32,
    o: int,
)
    requires
        leb_u32(s, p) == (Ok::<u32, WasmError>(flags), q),
        flags <= 7,
        flags == 2 || flags == 6 ==> leb_u32(s, q) == (Ok::<u32, WasmError>(ti), r),
        flags != 2 && flags != 6 ==> ti == 0 && r == q,
        flags % 2 == 0 ==> init_value(s, r, None) == (Ok::<Value, WasmError>(Value::I32(v)), o),
        flags % 2 == 1 ==> o == r,
        flags == 1 || flags == 2 || flags == 3 ==> 0 <= o < s.len() && s[o] == 0,
        5 <= flags ==> 0 <= o < s.len() && (s[o] == 0x70 || s[o] == 0x6F),
    ensures
        ({
            let h = elem_head(s, p, limit).0->Ok_0;
            &&& elem_head(s, p, limit).0 is Ok
            &&& elem_head(s, p, limit).1 == if flags == 0 || flags == 4 {
                o
            } else {
                o + 1
            }
            &&& h.flags == flags
            &&& h.table_idx == ti
            &&& flags % 2 == 0 ==> h.offset == unsigned32(v) && elem_mode(flags) == ElemMode::Active
            &&& flags == 1 || flags == 5 ==> elem_mode(flags) == ElemMode::Passive
            &&& flags == 3 || flags == 7 ==> elem_mode(flags) == ElemMode::Declarative
            &&& flags <= 4 ==> h.elem_type == ValType::FuncRef
            &&& 5 <= flags ==> h.elem_type == if s[o] == 0x70 {
                ValType::FuncRef
            } else {
                ValType::ExternRef
            }
        }),
{
    casts32(v, 0);
}

/// An item that is an expression names the function that its value is the index of; one whose
/// value is no integer is null.
pub proof fn items_name_functions(x: i32, v: Value)
    ensures
        item_index(Value::I32(x)) == unsigned32(x),
        !(v is I32) ==> item_index(v) == 0xFFFF_FFFF,
{
    casts32(x, 0);
}

/// A table of function references or of external references is its type byte and its limits; one
/// with an initializer has two bytes in front, 0x40 and zero, and the expression behind.
pub proof fn tables_are_written(
    s: Seq<u8>,
    p: int,
    types: int,
    initialized: bool,
    q: int,
    wide: bool,
    min: u32,
    max: Option<u32>,
    r: int,
    v: Value,
    end: int,
)
    requires
        0 <= p,
        p + 3 < s.len(),
        initialized ==> s[p] == 0x40 && s[p + 1] == 0 && q == p + 2,
        !initialized ==> q == p,
        s[q] == 0x70 || s[q] == 0x6F,
        table_limits(s, q + 1) == (Ok::<(bool, u32, Option<u32>), WasmError>((wide, min, max)), r),
        initialized ==> init_value(s, r, None) == (Ok::<Value, WasmError>(v), end),
        !initialized ==> end == r,
    ensures
        ({
            let t = table_at(s, p, types).0->Ok_0;
            &&& table_at(s, p, types).0 is Ok
            &&& table_at(s, p, types).1 == end
            &&& t.min == min && t.max == max && t.is_table64 == wide
            &&& !t.is_non_nullable
            &&& t.elem_type == if s[q] == 0x70 {
                ValType::FuncRef
            } else {
                ValType::ExternRef
            }
            &&& initialized ==> t.init_expr_bytes == Some(s.subrange(r, end))
            &&& !initialized ==> t.init_expr_bytes is None
        }),
{
}

/// A global is its type, a byte that is one where it may be written, and its initializer.
pub proof fn globals_are_written(s: Seq<u8>, p: int, m: Module, t: ValType, m1: Module, q: int, v: Value, end: int)
    requires
        valtype_gc(s, p, m, m.func_types.len() as u32) == (
            Ok::<(ValType, Module), (WasmError, Module)>((t, m1)),
            q,
        ),
        0 <= q < s.len(),
        s[q] <= 1,
        init_value(s, q + 1, None) == (Ok::<Value, WasmError>(v), end),
    ensures
        ({
            let r = global_at(s, p, m).0->Ok_0;
            let g = r.globals.last();
            &&& global_at(s, p, m).0 is Ok
            &&& global_at(s, p, m).1 == end
            &&& r.globals.len() == m1.globals.len() + 1
            &&& r.globals.drop_last() == m1.globals
            &&& g.val_type == t
            &&& g.mutable == (s[q] == 1)
            &&& g.init_value == v
            &&& g.init_expr_bytes == s.subrange(q + 1, end)
        }),
{
    let r = global_at(s, p, m).0->Ok_0;
    assert(r.globals.drop_last() =~= m1.globals);
}

/// The sections stand in the order of their numbers, except that tags come between memories and
/// globals and the data count before the code; a section with the number zero may stand
/// anywhere.
pub proof fn sections_have_an_order(s: Seq<u8>, p: int, last: u8, len: u32, q: int)
    requires
        0 <= p < s.len(),
        last <= 13,
        leb_u32(s, p + 1) == (Ok::<u32, WasmError>(len), q),
        q + len <= s.len(),
    ensures
        s[p] == 0 ==> section_header(s, p, last) == (Ok::<(u8, int), WasmError>((0u8, q + len)), q),
        1 <= s[p] <= 11 && last <= 11 ==> (section_header(s, p, last).0 is Ok <==> s[p] > last),
        1 <= s[p] <= 11 && last == 13 ==> (section_header(s, p, last).0 is Ok <==> s[p] >= 6),
        1 <= s[p] <= 11 && last == 12 ==> (section_header(s, p, last).0 is Ok <==> s[p] >= 10),
        s[p] == 13 && last <= 11 ==> (section_header(s, p, last).0 is Ok <==> last <= 5),
        s[p] == 12 && last <= 11 ==> (section_header(s, p, last).0 is Ok <==> last <= 9),
        s[p] > 13 || (s[p] != 0 && s[p] == last) ==> section_header(s, p, last).0 is Err,
        section_header(s, p, last).0 is Ok ==> section_header(s, p, last) == (
            Ok::<(u8, int), WasmError>((s[p], q + len)),
            q,
        ),
{
}

} // verus!
