//! How types and function bodies are written, and how exports are found.

use vstd::prelude::*;
use crate::decode_code::{body_code, locals_at};
use crate::decode_types::{
    composite_at, counted_valtypes, fields_at, mutability_at, storage_at, type_entry, valtype_gc, valtypes_at,
};
use crate::gc_types::{GcType, StorageType};
use crate::instance::{exported_index, Space};
use crate::module::{exported_func, ExportKind, Module};
use crate::reader::leb_u32;
use crate::types::{ValType, WasmError};

verus! {

/// A function type is 0x60, its parameters and its results, each with their number in front; it
/// stands behind the types that there are, in a group of its own.
pub proof fn function_types_are_written(
    s: Seq<u8>,
    p: int,
    m: Module,
    params: Seq<ValType>,
    m1: Module,
    q: int,
    results: Seq<ValType>,
    m2: Module,
    end: int,
)
    requires
        0 <= p < s.len(),
        s[p] == 0x60,
        m.func_types.len() < u32::MAX,
        m.sub_types.len() == m.func_types.len(),
        m2.func_types == m.func_types,
        m2.gc_types == m.gc_types,
        m2.sub_types == m.sub_types,
        counted_valtypes(s, p + 1, 32, m, (m.func_types.len() + 1) as u32) == (
            Ok::<(Seq<ValType>, Module), (WasmError, Module)>((params, m1)),
            q,
        ),
        counted_valtypes(s, q, 32, m1, (m.func_types.len() + 1) as u32) == (
            Ok::<(Seq<ValType>, Module), (WasmError, Module)>((results, m2)),
            end,
        ),
    ensures
        ({
            let r = type_entry(s, p, m);
            let t = r.0->Ok_0;
            let n = m.func_types.len() as int;
            &&& r.0 is Ok && r.1 == end
            &&& t.func_types.len() == n + 1 && t.gc_types.len() == m.gc_types.len() + 1 && t.sub_types.len() == n + 1
            &&& t.func_types[n].params == params
            &&& t.func_types[n].results == results
            &&& t.gc_types.last() is Func
            &&& t.sub_types[n].supertype is None
            &&& t.sub_types[n].is_final
            &&& t.sub_types[n].rec_group_start == n
            &&& t.sub_types[n].rec_group_size == 1
            &&& forall|i: int| 0 <= i < n ==> #[trigger] t.func_types[i] == m.func_types[i]
            &&& forall|i: int| 0 <= i < n ==> #[trigger] t.sub_types[i] == m.sub_types[i]
        }),
{
}

/// Value types are read one after another, in order.
pub proof fn value_types_are_listed(
    s: Seq<u8>,
    p: int,
    n: nat,
    m: Module,
    limit: u32,
    found: Seq<ValType>,
    t: ValType,
    m1: Module,
    q: int,
)
    requires
        n > 0,
        valtype_gc(s, p, m, limit) == (Ok::<(ValType, Module), (WasmError, Module)>((t, m1)), q),
    ensures
        valtypes_at(s, p, n, m, limit, found) == valtypes_at(s, q, (n - 1) as nat, m1, limit, found.push(t)),
        valtypes_at(s, p, 0, m, limit, found) == (
            Ok::<(Seq<ValType>, Module), (WasmError, Module)>((found, m)),
            p,
        ),
{
}

/// A field is its storage and a byte that is one where it may be written. The storage bytes 0x78
/// and 0x77 stand for integers of 8 and of 16 bits.
pub proof fn fields_are_listed(
    s: Seq<u8>,
    p: int,
    n: nat,
    m: Module,
    limit: u32,
    types: Seq<StorageType>,
    muts: Seq<bool>,
)
    requires
        n > 0,
        0 <= p,
        p + 1 < s.len(),
        s[p] == 0x78 || s[p] == 0x77,
        s[p + 1] <= 1,
    ensures
        fields_at(s, p, n, m, limit, types, muts) == fields_at(
            s,
            p + 2,
            (n - 1) as nat,
            m,
            limit,
            types.push(
                if s[p] == 0x78 {
                    StorageType::I8
                } else {
                    StorageType::I16
                },
            ),
            muts.push(s[p + 1] == 1),
        ),
{
}

/// A byte that says whether something may be written is zero or one.
pub proof fn mutability_is_written(s: Seq<u8>, p: int)
    requires
        0 <= p < s.len(),
    ensures
        s[p] == 0 ==> mutability_at(s, p) == (Ok::<bool, WasmError>(false), p + 1),
        s[p] == 1 ==> mutability_at(s, p) == (Ok::<bool, WasmError>(true), p + 1),
        s[p] > 1 ==> mutability_at(s, p).0 is Err,
{
}

/// Struct types start with 0x5F and array types with 0x5E; neither has a signature. A header of
/// 0x50 before them leaves them open to subtypes, one of 0x4F does not, and both name the
/// supertype where there is one.
pub proof fn subtypes_are_written(
    s: Seq<u8>,
    p: int,
    m: Module,
    limit: u32,
    parent: u32,
    q: int,
    st: StorageType,
    m1: Module,
    r: int,
)
    requires
        0 <= p,
        p + 2 < s.len(),
        s[p] == 0x50 || s[p] == 0x4F,
        leb_u32(s, p + 1) == (Ok::<u32, WasmError>(1), p + 2),
        leb_u32(s, p + 2) == (Ok::<u32, WasmError>(parent), q),
        0 <= q < s.len(),
        s[q] == 0x5E,
        storage_at(s, q + 1, Module { gc_enabled: true, ..m }, limit) == (
            Ok::<(StorageType, Module), (WasmError, Module)>((st, m1)),
            r,
        ),
        0 <= r < s.len(),
        s[r] <= 1,
    ensures
        ({
            let c = composite_at(s, p, m, limit);
            let t = c.0->Ok_0;
            &&& c.0 is Ok && c.1 == r + 1
            &&& t.sub_types == m1.sub_types.push(t.sub_types.last())
            &&& t.sub_types.last().supertype == Some(parent)
            &&& t.sub_types.last().is_final == (s[p] == 0x4F)
            &&& t.gc_types == m1.gc_types.push(GcType::Array { elem_type: st, elem_mutable: s[r] == 1 })
            &&& t.func_types.len() == m1.func_types.len() + 1
            &&& t.func_types.last().params.len() == 0 && t.func_types.last().results.len() == 0
        }),
{
    reveal_with_fuel(crate::decode_types::skip_indices, 2);
}

// ---------------------------------------------------------------------------
// Function bodies

/// Locals are written in runs of one type: as many locals as the run counts, behind those
/// before it. A type that starts with 0x64 does not admit null.
pub proof fn locals_come_in_runs(
    s: Seq<u8>,
    p: int,
    n: nat,
    m: Module,
    limit: u32,
    found: Seq<(ValType, bool)>,
    k: u32,
    q: int,
    t: ValType,
    m1: Module,
    r: int,
)
    requires
        n > 0,
        leb_u32(s, p) == (Ok::<u32, WasmError>(k), q),
        valtype_gc(s, q, m, limit) == (Ok::<(ValType, Module), (WasmError, Module)>((t, m1)), r),
    ensures
        found.len() + k > u32::MAX ==> locals_at(s, p, n, m, limit, found).0 is Err,
        found.len() + k <= u32::MAX ==> locals_at(s, p, n, m, limit, found) == locals_at(
            s,
            r,
            (n - 1) as nat,
            m1,
            limit,
            found + Seq::new(k as nat, |i: int| (t, s[q] == 0x64)),
        ),
{
    let more = Seq::new(k as nat, |i: int| (t, s[q] == 0x64));
    assert(crate::decode_code::run_locals(k as nat, t, s[q] == 0x64) =~= more);
}

/// The code of a function goes behind the code that there is, and the function says where it
/// stands and how many locals it has.
pub proof fn bodies_are_appended(
    s: Seq<u8>,
    p: int,
    end: int,
    i: int,
    m: Module,
    locals: Seq<(ValType, bool)>,
    j: int,
)
    requires
        0 <= i < m.functions.len(),
        0 <= p < end <= s.len(),
        s[end - 1] == 0x0B,
        body_code(s, p, end, i, m, locals).0 is Ok,
        locals.len() <= m.functions[i].locals.len(),
        locals.len() <= u16::MAX,
        m.code.len() + (end - p) <= usize::MAX,
        0 <= j < locals.len(),
    ensures
        ({
            let t = body_code(s, p, end, i, m, locals).0->Ok_0;
            let f = t.functions[i];
            &&& body_code(s, p, end, i, m, locals).1 == end
            &&& t.functions.len() == m.functions.len()
            &&& f.type_idx == m.functions[i].type_idx
            &&& t.code.subrange(f.code_offset as int, f.code_offset + f.code_len) == s.subrange(p, end)
            &&& m.code.is_prefix_of(t.code)
            &&& f.local_count == locals.len()
            &&& f.locals[j] == locals[j].0
            &&& f.non_nullable_locals[j] == locals[j].1
        }),
{
    let t = body_code(s, p, end, i, m, locals).0->Ok_0;
    let f = t.functions[i];
    assert(t.code.subrange(f.code_offset as int, f.code_offset + f.code_len) =~= s.subrange(p, end));
    assert(m.code =~= t.code.subrange(0, m.code.len() as int));
}

// ---------------------------------------------------------------------------
// Exports

/// Whether the export with this number has this name and makes a function visible.
pub open spec fn exports_function(m: Module, i: int, name: Seq<u8>) -> bool {
    let e = m.exports[i];
    m.name(e.name_offset as int, e.name_len as int) == name && e.kind is Func
}

/// The function that is found under a name is that of the first export of a function with the
/// name; where there is none, none is found.
pub proof fn first_exported_function_is_found(m: Module, name: Seq<u8>, from: int)
    requires
        0 <= from <= m.exports.len(),
    ensures
        match exported_func(m, name, from) {
            Some(f) => exists|i: int|
                from <= i < m.exports.len() && #[trigger] exports_function(m, i, name) && m.exports[i].kind
                    == ExportKind::Func(f) && forall|j: int|
                    from <= j < i ==> !#[trigger] exports_function(m, j, name),
            None => forall|i: int| from <= i < m.exports.len() ==> !#[trigger] exports_function(m, i, name),
        },
    decreases m.exports.len() - from,
{
    if from < m.exports.len() {
        if exports_function(m, from, name) {
            assert(exports_function(m, from, name));
        } else {
            first_exported_function_is_found(m, name, from + 1);
            if exported_func(m, name, from + 1) is Some {
                let i = choose|i: int|
                    from + 1 <= i < m.exports.len() && #[trigger] exports_function(m, i, name) && m.exports[i].kind
                        == ExportKind::Func(exported_func(m, name, from + 1)->Some_0) && forall|j: int|
                        from + 1 <= j < i ==> !#[trigger] exports_function(m, j, name);
                assert(exports_function(m, i, name));
            }
        }
    }
}

/// Globals, tables and memories are found under a name in their own space only.
pub proof fn exports_are_found_in_their_space(m: Module, name: Seq<u8>, space: Space, from: int)
    requires
        0 <= from < m.exports.len(),
        ({
            let e = m.exports[from];
            m.name(e.name_offset as int, e.name_len as int) == name
        }),
    ensures
        ({
            let k = m.exports[from].kind;
            &&& k matches ExportKind::Global(i) ==> space == Space::Globals ==> exported_index(m, name, space, from)
                == Some(i)
            &&& k matches ExportKind::Table(i) ==> space == Space::Tables ==> exported_index(m, name, space, from)
                == Some(i)
            &&& k matches ExportKind::Memory(i) ==> space == Space::Memories ==> exported_index(m, name, space, from)
                == Some(i)
            &&& k is Func || k is Tag || (k is Global && space != Space::Globals) || (k is Table && space
                != Space::Tables) || (k is Memory && space != Space::Memories) ==> exported_index(m, name, space, from)
                == exported_index(m, name, space, from + 1)
        }),
{
}

} // verus!
