//! What holds of every decoded module: its recursion groups, the types that its types
//! refer to, and what it notes of its first memory.

use vstd::prelude::*;
use crate::decode_code::{bodies_at, body_at, locals_at, run_locals};
use crate::decode_sections::{
    export_at, exports_at, functions_at, import_at, import_desc, imports_at, memories_at, memory_at, with_memory,
};
use crate::decode_segments::{
    data_at, datas_at, element_at, elements_at, global_at, globals_at, initial_globals, table_at, tables_at,
};
use crate::decode_types::{
    array_type_at, composite_at, composites_at, counted_valtypes, fields_at, func_type_at, grouped, mutability_at,
    skip_indices_moves, storage_at, struct_type_at, sub_header, type_entries, type_entry, type_section, valtype_gc,
    valtype_gc_moves, valtypes_at,
};
use crate::decoder::{decoded, section_contents, section_header, sections_from, tags_at};
use crate::gc_types::{GcType, StorageType, SubTypeInfo};
use crate::instance::{type_added, type_found};
use crate::linker::{
    composite, equivalence_by_groups, equivalent, equivalent_reflexive, storage_known, type_references_known,
};
use crate::module::{Func, FuncType, Module};
use crate::reader::{byte_at, group_leb_moves, leb_u32};
use crate::types::{ValType, Value, WasmError, MAX_PARAMS, MAX_RESULTS};

verus! {

broadcast use {group_leb_moves, valtype_gc_moves};

// ---------------------------------------------------------------------------
// Coherent types

/// Whether two types belong to the same recursion group.
pub open spec fn same_group(x: SubTypeInfo, y: SubTypeInfo) -> bool {
    x.rec_group_start == y.rec_group_start && x.rec_group_size == y.rec_group_size
}

/// Whether the type at an index lies in its recursion group, the group lies among the
/// types, and every type between its bounds belongs to it.
pub open spec fn in_its_group(m: Module, i: int) -> bool {
    let x = m.sub_types[i];
    &&& x.rec_group_start <= i < x.rec_group_start + x.rec_group_size <= m.sub_types.len()
    &&& forall|k: int|
        x.rec_group_start <= k < x.rec_group_start + x.rec_group_size ==> same_group(#[trigger] m.sub_types[k], x)
}

/// Whether every type lies in its recursion group.
pub open spec fn groups_coherent(m: Module) -> bool {
    forall|i: int| 0 <= i < m.sub_types.len() ==> #[trigger] in_its_group(m, i)
}

/// Whether a storage refers to a type below `limit`, where it refers to one.
pub open spec fn storage_below(s: StorageType, limit: int) -> bool {
    s matches StorageType::RefType(_, i) ==> i < limit
}

/// Whether the storages of a composite type refer to types below `limit`.
pub open spec fn composite_below(g: GcType, limit: int) -> bool {
    match g {
        GcType::Struct { field_types, .. } => forall|f: int|
            0 <= f < field_types.len() ==> storage_below(#[trigger] field_types[f], limit),
        GcType::Array { elem_type, .. } => storage_below(elem_type, limit),
        GcType::Func => true,
    }
}

/// Whether the fields and elements of a module's types refer to types that there are.
pub open spec fn fields_known(m: Module) -> bool {
    forall|i: int| 0 <= i < m.gc_types.len() ==> composite_below(#[trigger] m.gc_types[i], m.func_types.len() as int)
}

/// Whether the supertypes of a module's types are types that there are.
pub open spec fn supertypes_known(m: Module) -> bool {
    forall|i: int|
        0 <= i < m.sub_types.len() ==> ((#[trigger] m.sub_types[i]).supertype matches Some(p) ==> p
            < m.func_types.len())
}

/// Whether the types of a module are coherent: each has its entry in every list and
/// lies in its recursion group, and fields refer to types that there are.
pub open spec fn types_coherent(m: Module) -> bool {
    m.aligned() && groups_coherent(m) && fields_known(m)
}

/// Whether what a module notes of its first memory holds of it.
pub open spec fn first_memory_noted(m: Module) -> bool {
    m.memories.len() > 0 ==> {
        &&& m.is_memory64 == m.memories[0].is_memory64
        &&& m.page_size_log2 == m.memories[0].page_size_log2
    }
}

/// Whether two modules have the same types.
pub open spec fn same_types(a: Module, b: Module) -> bool {
    &&& a.func_types == b.func_types
    &&& a.gc_types == b.gc_types
    &&& a.sub_types == b.sub_types
}

/// Whether two modules have the same memories, and note the same of the first.
pub open spec fn same_memories(a: Module, b: Module) -> bool {
    &&& a.memories == b.memories
    &&& a.is_memory64 == b.is_memory64
    &&& a.page_size_log2 == b.page_size_log2
}

/// Whether two modules have the same types and memories.
pub open spec fn same_core(a: Module, b: Module) -> bool {
    same_types(a, b) && same_memories(a, b)
}

// ---------------------------------------------------------------------------
// The type section

proof fn valtypes_keep(s: Seq<u8>, p: int, n: nat, m: Module, limit: u32, acc: Seq<ValType>)
    requires
        0 <= p <= s.len(),
    ensures
        p <= valtypes_at(s, p, n, m, limit, acc).1 <= s.len(),
        valtypes_at(s, p, n, m, limit, acc).0 matches Ok((_, m2)) ==> same_core(m, m2),
    decreases n,
{
    if n > 0 {
        let r = valtype_gc(s, p, m, limit);
        if let Ok((t, m2)) = r.0 {
            valtypes_keep(s, r.1, (n - 1) as nat, m2, limit, acc.push(t));
        }
    }
}

proof fn counted_keep(s: Seq<u8>, p: int, max: int, m: Module, limit: u32)
    requires
        0 <= p <= s.len(),
    ensures
        p <= counted_valtypes(s, p, max, m, limit).1 <= s.len(),
        counted_valtypes(s, p, max, m, limit).0 matches Ok((_, m2)) ==> same_core(m, m2),
{
    let c = leb_u32(s, p);
    if let Ok(count) = c.0 {
        valtypes_keep(s, c.1, count as nat, m, limit, Seq::empty());
    }
}

proof fn storage_keeps(s: Seq<u8>, p: int, m: Module, limit: u32)
    requires
        0 <= p <= s.len(),
    ensures
        p <= storage_at(s, p, m, limit).1 <= s.len(),
        storage_at(s, p, m, limit).0 matches Ok((t, m2)) ==> same_core(m, m2) && storage_below(t, limit as int),
{
}

proof fn fields_keep(
    s: Seq<u8>,
    p: int,
    n: nat,
    m: Module,
    limit: u32,
    types: Seq<StorageType>,
    muts: Seq<bool>,
)
    requires
        0 <= p <= s.len(),
        forall|f: int| 0 <= f < types.len() ==> storage_below(#[trigger] types[f], limit as int),
    ensures
        p <= fields_at(s, p, n, m, limit, types, muts).1 <= s.len(),
        fields_at(s, p, n, m, limit, types, muts).0 matches Ok((t, _, m2)) ==> same_core(m, m2) && forall|f: int|
            0 <= f < t.len() ==> storage_below(#[trigger] t[f], limit as int),
    decreases n,
{
    if n > 0 {
        storage_keeps(s, p, m, limit);
        let r = storage_at(s, p, m, limit);
        if let Ok((t, m2)) = r.0 {
            let b = mutability_at(s, r.1);
            if let Ok(mt) = b.0 {
                fields_keep(s, b.1, (n - 1) as nat, m2, limit, types.push(t), muts.push(mt));
            }
        }
    }
}

proof fn header_keeps(s: Seq<u8>, p: int, m: Module)
    requires
        0 <= p <= s.len(),
    ensures
        p <= sub_header(s, p, m).1 <= s.len(),
        sub_header(s, p, m).0 matches Ok((_, _, m2)) ==> same_core(m, m2) && p < sub_header(s, p, m).1,
{
    if byte_at(s, p).0 is Ok {
        let c = leb_u32(s, p + 1);
        if let Ok(count) = c.0 {
            let f = leb_u32(s, c.1);
            if count > 0 && f.0 is Ok {
                skip_indices_moves(s, f.1, (count - 1) as nat);
            }
        }
    }
}

/// Whether `b` is `a` with one more type, whose storages refer to types below `limit`.
spec fn one_more(a: Module, b: Module, limit: int) -> bool {
    let n = a.func_types.len();
    &&& same_memories(a, b)
    &&& b.func_types.len() == n + 1
    &&& b.gc_types.len() == a.gc_types.len() + 1
    &&& b.sub_types.len() == a.sub_types.len() + 1
    &&& a.func_types == b.func_types.drop_last()
    &&& a.gc_types == b.gc_types.drop_last()
    &&& a.sub_types == b.sub_types.drop_last()
    &&& composite_below(b.gc_types.last(), limit)
}

/// Where lists got one entry more, the lists before are what stands before the last entry.
proof fn last_is_new(a: Module, b: Module)
    requires
        b.func_types.len() > 0 && b.gc_types.len() > 0 && b.sub_types.len() > 0,
        b.func_types == a.func_types.push(b.func_types.last()),
        b.gc_types == a.gc_types.push(b.gc_types.last()),
        b.sub_types == a.sub_types.push(b.sub_types.last()),
    ensures
        a.func_types == b.func_types.drop_last(),
        a.gc_types == b.gc_types.drop_last(),
        a.sub_types == b.sub_types.drop_last(),
{
    assert(b.func_types.drop_last() =~= a.func_types);
    assert(b.gc_types.drop_last() =~= a.gc_types);
    assert(b.sub_types.drop_last() =~= a.sub_types);
}

proof fn func_type_adds_one(s: Seq<u8>, p: int, m: Module, limit: u32, info: SubTypeInfo)
    requires
        0 <= p <= s.len(),
    ensures
        p <= func_type_at(s, p, m, limit, info).1 <= s.len(),
        func_type_at(s, p, m, limit, info).0 matches Ok(m2) ==> one_more(m, m2, limit as int),
{
    counted_keep(s, p, MAX_PARAMS as int, m, limit);
    let a = counted_valtypes(s, p, MAX_PARAMS as int, m, limit);
    if let Ok((params, m1)) = a.0 {
        counted_keep(s, a.1, MAX_RESULTS as int, m1, limit);
    }
    if let Ok(m2) = func_type_at(s, p, m, limit, info).0 {
        last_is_new(m, m2);
    }
}

proof fn array_type_adds_one(s: Seq<u8>, p: int, m: Module, limit: u32, info: SubTypeInfo)
    requires
        0 <= p <= s.len(),
    ensures
        p <= array_type_at(s, p, m, limit, info).1 <= s.len(),
        array_type_at(s, p, m, limit, info).0 matches Ok(m2) ==> one_more(m, m2, limit as int),
{
    storage_keeps(s, p, Module { gc_enabled: true, ..m }, limit);
    if let Ok(m2) = array_type_at(s, p, m, limit, info).0 {
        last_is_new(m, m2);
    }
}

proof fn struct_type_adds_one(s: Seq<u8>, p: int, m: Module, limit: u32, info: SubTypeInfo)
    requires
        0 <= p <= s.len(),
    ensures
        p <= struct_type_at(s, p, m, limit, info).1 <= s.len(),
        struct_type_at(s, p, m, limit, info).0 matches Ok(m2) ==> one_more(m, m2, limit as int),
{
    let c = leb_u32(s, p);
    if let Ok(count) = c.0 {
        fields_keep(s, c.1, count as nat, Module { gc_enabled: true, ..m }, limit, Seq::empty(), Seq::empty());
    }
    if let Ok(m2) = struct_type_at(s, p, m, limit, info).0 {
        last_is_new(m, m2);
    }
}

proof fn composite_adds_one(s: Seq<u8>, p: int, m: Module, limit: u32)
    requires
        0 <= p <= s.len(),
    ensures
        p <= composite_at(s, p, m, limit).1 <= s.len(),
        composite_at(s, p, m, limit).0 matches Ok(m2) ==> one_more(m, m2, limit as int) && p < composite_at(
            s,
            p,
            m,
            limit,
        ).1,
{
    header_keeps(s, p, m);
    let h = sub_header(s, p, m);
    if let Ok((info, kind, m2)) = h.0 {
        if kind == 0x60 {
            func_type_adds_one(s, h.1, m2, limit, info);
        } else if kind == 0x5E {
            array_type_adds_one(s, h.1, m2, limit, info);
        } else if kind == 0x5F {
            struct_type_adds_one(s, h.1, m2, limit, info);
        }
    }
}

/// Whether `b` is `a` with `n` more types, whose storages refer to types below `limit`.
spec fn more_types(a: Module, b: Module, n: nat, limit: int) -> bool {
    &&& same_memories(a, b)
    &&& b.func_types.len() == a.func_types.len() + n
    &&& b.gc_types.len() == a.gc_types.len() + n
    &&& b.sub_types.len() == a.sub_types.len() + n
    &&& forall|i: int| 0 <= i < a.sub_types.len() ==> #[trigger] b.sub_types[i] == a.sub_types[i]
    &&& forall|i: int| 0 <= i < a.gc_types.len() ==> #[trigger] b.gc_types[i] == a.gc_types[i]
    &&& forall|i: int| a.gc_types.len() <= i < b.gc_types.len() ==> composite_below(#[trigger] b.gc_types[i], limit)
}

proof fn more_after_one(a: Module, b: Module, c: Module, n: nat, limit: int)
    requires
        one_more(a, b, limit),
        more_types(b, c, n, limit),
    ensures
        more_types(a, c, n + 1, limit),
{
    assert forall|i: int| 0 <= i < a.sub_types.len() implies #[trigger] c.sub_types[i] == a.sub_types[i] by {
        assert(c.sub_types[i] == b.sub_types[i]);
        assert(b.sub_types.drop_last()[i] == b.sub_types[i]);
    }
    assert forall|i: int| 0 <= i < a.gc_types.len() implies #[trigger] c.gc_types[i] == a.gc_types[i] by {
        assert(c.gc_types[i] == b.gc_types[i]);
        assert(b.gc_types.drop_last()[i] == b.gc_types[i]);
    }
    assert forall|i: int| a.gc_types.len() <= i < c.gc_types.len() implies composite_below(
        #[trigger] c.gc_types[i],
        limit,
    ) by {
        if i < b.gc_types.len() {
            assert(c.gc_types[i] == b.gc_types[i]);
        }
    }
}

proof fn composites_add(s: Seq<u8>, p: int, n: nat, m: Module, limit: u32)
    requires
        0 <= p <= s.len(),
    ensures
        p <= composites_at(s, p, n, m, limit).1 <= s.len(),
        composites_at(s, p, n, m, limit).0 matches Ok(m2) ==> more_types(m, m2, n, limit as int) && p + n
            <= composites_at(s, p, n, m, limit).1,
    decreases n,
{
    if n > 0 {
        composite_adds_one(s, p, m, limit);
        let r = composite_at(s, p, m, limit);
        if let Ok(m1) = r.0 {
            composites_add(s, r.1, (n - 1) as nat, m1, limit);
            if let Ok(m2) = composites_at(s, r.1, (n - 1) as nat, m1, limit).0 {
                more_after_one(m, m1, m2, (n - 1) as nat, limit as int);
            }
        }
    }
}

/// Whether `b` is what an entry of the type section made of `a`: one more recursion
/// group of `n` types.
spec fn group_added(a: Module, mid: Module, b: Module, n: nat, limit: u32) -> bool {
    let first = a.func_types.len() as u32;
    &&& more_types(a, mid, n, limit as int)
    &&& limit == first.wrapping_add(n as u32)
    &&& n <= u32::MAX
    &&& b == (Module { sub_types: grouped(mid.sub_types, first, limit, n as u32), ..mid })
}

proof fn entry_adds_group(s: Seq<u8>, p: int, m: Module) -> (r: (Module, nat, u32))
    requires
        0 <= p <= s.len(),
    ensures
        p <= type_entry(s, p, m).1 <= s.len(),
        type_entry(s, p, m).0 matches Ok(m2) ==> group_added(m, r.0, m2, r.1, r.2) && p + r.1 <= type_entry(s, p, m).1,
{
    let first = m.func_types.len() as u32;
    if byte_at(s, p).0 is Ok {
        if s[p] == 0x4E {
            let c = leb_u32(s, p + 1);
            if let Ok(count) = c.0 {
                let end = first.wrapping_add(count);
                let m1 = Module { gc_enabled: true, ..m };
                composites_add(s, c.1, count as nat, m1, end);
                let t = composites_at(s, c.1, count as nat, m1, end);
                if let Ok(m2) = t.0 {
                    let mid = Module { has_self_ref_types: m.has_self_ref_types, ..m2 };
                    assert(more_types(m, mid, count as nat, end as int));
                    (mid, count as nat, end)
                } else {
                    (m, 0, 0)
                }
            } else {
                (m, 0, 0)
            }
        } else {
            let end = first.wrapping_add(1);
            composites_add(s, p, 1, m, end);
            reveal_with_fuel(composites_at, 2);
            composite_adds_one(s, p, m, end);
            let t = composite_at(s, p, m, end);
            if let Ok(m2) = t.0 {
                assert(composites_at(s, p, 1, m, end).0 == Ok::<Module, (WasmError, Module)>(m2));
                (m2, 1, end)
            } else {
                (m, 0, 0)
            }
        }
    } else {
        (m, 0, 0)
    }
}

proof fn group_is_coherent(a: Module, mid: Module, b: Module, n: nat, limit: u32)
    requires
        group_added(a, mid, b, n, limit),
        types_coherent(a),
        b.func_types.len() <= u32::MAX,
    ensures
        types_coherent(b),
{
    let first = a.func_types.len() as int;
    assert(limit == first + n);
    assert forall|i: int| 0 <= i < b.sub_types.len() implies #[trigger] in_its_group(b, i) by {
        let x = b.sub_types[i];
        if i < first {
            assert(in_its_group(a, i));
            assert(b.sub_types[i] == mid.sub_types[i]);
            assert(mid.sub_types[i] == a.sub_types[i]);
            assert forall|k: int|
                x.rec_group_start <= k < x.rec_group_start + x.rec_group_size implies same_group(
                #[trigger] b.sub_types[k],
                x,
            ) by {
                assert(same_group(a.sub_types[k], a.sub_types[i]));
                assert(mid.sub_types[k] == a.sub_types[k]);
            }
        } else {
            assert(x.rec_group_start == first && x.rec_group_size == n);
        }
    }
    assert forall|i: int| 0 <= i < b.gc_types.len() implies composite_below(
        #[trigger] b.gc_types[i],
        b.func_types.len() as int,
    ) by {
        if i < first {
            assert(b.gc_types[i] == a.gc_types[i]);
            assert(composite_below(a.gc_types[i], a.func_types.len() as int));
        } else {
            assert(composite_below(mid.gc_types[i], limit as int));
        }
    }
}

proof fn entries_grow(s: Seq<u8>, p: int, n: nat, m: Module)
    requires
        0 <= p <= s.len(),
    ensures
        p <= type_entries(s, p, n, m).1 <= s.len(),
        type_entries(s, p, n, m).0 matches Ok(m2) ==> {
            &&& same_memories(m, m2)
            &&& m.func_types.len() <= m2.func_types.len() <= m.func_types.len() + (type_entries(s, p, n, m).1 - p)
            &&& types_coherent(m) && m2.func_types.len() <= u32::MAX ==> types_coherent(m2)
        },
    decreases n,
{
    if n > 0 {
        let g = entry_adds_group(s, p, m);
        let r = type_entry(s, p, m);
        if let Ok(m1) = r.0 {
            entries_grow(s, r.1, (n - 1) as nat, m1);
            if let Ok(m2) = type_entries(s, r.1, (n - 1) as nat, m1).0 {
                if types_coherent(m) && m2.func_types.len() <= u32::MAX {
                    group_is_coherent(m, g.0, m1, g.1, g.2);
                }
            }
        }
    }
}

proof fn type_section_grows(s: Seq<u8>, p: int, m: Module)
    requires
        0 <= p <= s.len(),
    ensures
        p <= type_section(s, p, m).1 <= s.len(),
        type_section(s, p, m).0 matches Ok(m2) ==> {
            &&& same_memories(m, m2)
            &&& m2.func_types.len() <= m.func_types.len() + (type_section(s, p, m).1 - p)
            &&& types_coherent(m) && m2.func_types.len() <= u32::MAX ==> types_coherent(m2)
        },
{
    let c = leb_u32(s, p);
    if let Ok(count) = c.0 {
        entries_grow(s, c.1, count as nat, m);
    }
}

// ---------------------------------------------------------------------------
// The other sections

/// Whether `b` has the types of `a`, and what it notes of its first memory holds where
/// it did of `a`.
spec fn kept(a: Module, b: Module) -> bool {
    same_types(a, b) && (first_memory_noted(a) ==> first_memory_noted(b))
}

proof fn import_keeps(s: Seq<u8>, p: int, m: Module)
    ensures
        import_at(s, p, m).0 matches Ok(m2) ==> kept(m, m2),
{
    reveal(import_desc);
}

proof fn imports_keep(s: Seq<u8>, p: int, n: nat, m: Module)
    ensures
        imports_at(s, p, n, m).0 matches Ok(m2) ==> kept(m, m2),
    decreases n,
{
    if n > 0 {
        import_keeps(s, p, m);
        let r = import_at(s, p, m);
        if let Ok(m1) = r.0 {
            imports_keep(s, r.1, (n - 1) as nat, m1);
        }
    }
}

proof fn functions_keep(s: Seq<u8>, p: int, n: nat, m: Module)
    ensures
        functions_at(s, p, n, m).0 matches Ok(m2) ==> kept(m, m2),
    decreases n,
{
    if n > 0 {
        let r = leb_u32(s, p);
        if let Ok(ti) = r.0 {
            functions_keep(
                s,
                r.1,
                (n - 1) as nat,
                Module {
                    functions: m.functions.push(
                        Func { type_idx: ti, ..Func::none() },
                    ),
                    ..m
                },
            );
        }
    }
}

proof fn tables_keep(s: Seq<u8>, p: int, n: nat, m: Module)
    ensures
        tables_at(s, p, n, m).0 matches Ok(m2) ==> kept(m, m2),
    decreases n,
{
    if n > 0 {
        let r = table_at(s, p, m.func_types.len() as int);
        if let Ok(t) = r.0 {
            tables_keep(s, r.1, (n - 1) as nat, Module { tables: m.tables.push(t), ..m });
        }
    }
}

proof fn memories_keep(s: Seq<u8>, p: int, n: nat, m: Module, first: bool)
    ensures
        memories_at(s, p, n, m, first).0 matches Ok(m2) ==> kept(m, m2),
    decreases n,
{
    if n > 0 {
        let r = memory_at(s, p);
        if let Ok(d) = r.0 {
            memories_keep(s, r.1, (n - 1) as nat, with_memory(m, d, first), false);
        }
    }
}

proof fn globals_keep(s: Seq<u8>, p: int, n: nat, m: Module)
    ensures
        globals_at(s, p, n, m).0 matches Ok(m2) ==> kept(m, m2),
    decreases n,
{
    if n > 0 {
        let r = global_at(s, p, m);
        if let Ok(m1) = r.0 {
            globals_keep(s, r.1, (n - 1) as nat, m1);
        }
    }
}

proof fn exports_keep(s: Seq<u8>, p: int, n: nat, m: Module)
    ensures
        exports_at(s, p, n, m).0 matches Ok(m2) ==> kept(m, m2),
    decreases n,
{
    if n > 0 {
        let r = export_at(s, p, m);
        if let Ok(m1) = r.0 {
            exports_keep(s, r.1, (n - 1) as nat, m1);
        }
    }
}

proof fn elements_keep(s: Seq<u8>, p: int, n: nat, m: Module, globals: Seq<Value>)
    ensures
        elements_at(s, p, n, m, globals).0 matches Ok(m2) ==> kept(m, m2),
    decreases n,
{
    if n > 0 {
        let r = element_at(s, p, m.func_types.len() as u32, globals);
        if let Ok(x) = r.0 {
            elements_keep(
                s,
                r.1,
                (n - 1) as nat,
                Module { element_segments: m.element_segments.push(x), ..m },
                globals,
            );
        }
    }
}

proof fn locals_keep(s: Seq<u8>, p: int, n: nat, m: Module, limit: u32, acc: Seq<(ValType, bool)>)
    ensures
        locals_at(s, p, n, m, limit, acc).0 matches Ok((_, m2)) ==> kept(m, m2),
    decreases n,
{
    if n > 0 {
        let c = leb_u32(s, p);
        if let Ok(count) = c.0 {
            let t = valtype_gc(s, c.1, m, limit);
            if let Ok((ty, m1)) = t.0 {
                let next = acc + run_locals(count as nat, ty, s[c.1] == 0x64);
                locals_keep(s, t.1, (n - 1) as nat, m1, limit, next);
            }
        }
    }
}

proof fn bodies_keep(s: Seq<u8>, p: int, i: nat, n: nat, m: Module)
    ensures
        bodies_at(s, p, i, n, m).0 matches Ok(m2) ==> kept(m, m2),
    decreases n - i,
{
    if i < n {
        let z = leb_u32(s, p);
        if let Ok(size) = z.0 {
            let c = leb_u32(s, z.1);
            if let Ok(runs) = c.0 {
                locals_keep(s, c.1, runs as nat, m, m.func_types.len() as u32, Seq::empty());
            }
        }
        let r = body_at(s, p, i as int, m);
        if let Ok(m1) = r.0 {
            bodies_keep(s, r.1, i + 1, n, m1);
        }
    }
}

proof fn datas_keep(s: Seq<u8>, p: int, n: nat, m: Module)
    ensures
        datas_at(s, p, n, m).0 matches Ok(m2) ==> kept(m, m2),
    decreases n,
{
    if n > 0 {
        let r = data_at(s, p, m);
        if let Ok(m1) = r.0 {
            datas_keep(s, r.1, (n - 1) as nat, m1);
        }
    }
}

proof fn tags_keep(s: Seq<u8>, p: int, n: nat, m: Module)
    ensures
        tags_at(s, p, n, m).0 matches Ok(m2) ==> kept(m, m2),
    decreases n,
{
    if n > 0 {
        let a = byte_at(s, p);
        if a.0 is Ok {
            let r = leb_u32(s, a.1);
            if let Ok(ti) = r.0 {
                tags_keep(s, r.1, (n - 1) as nat, Module { tag_types: m.tag_types.push(ti), ..m });
            }
        }
    }
}

proof fn section_keeps(s: Seq<u8>, p: int, end: int, id: u8, m: Module)
    requires
        id != 1,
    ensures
        section_contents(s, p, end, id, m).0 matches Ok(m2) ==> kept(m, m2),
{
    reveal(section_contents);
    let c = leb_u32(s, p);
    if let Ok(count) = c.0 {
        let n = count as nat;
        match id {
            2 => imports_keep(s, c.1, n, m),
            3 => functions_keep(s, c.1, n, m),
            4 => tables_keep(s, c.1, n, m),
            5 => {
                let m1 = Module { memory_count: m.memory_count.wrapping_add(count), ..m };
                memories_keep(s, c.1, n, Module { has_memory: true, ..m1 }, true);
            },
            6 => globals_keep(s, c.1, n, m),
            7 => exports_keep(s, c.1, n, m),
            9 => elements_keep(s, c.1, n, m, initial_globals(m)),
            10 => bodies_keep(s, c.1, 0, n, m),
            11 => datas_keep(s, c.1, n, m),
            0 | 1 | 8 | 12 => {},
            _ => tags_keep(s, c.1, n, m),
        }
    }
}

proof fn coherent_with_same_types(a: Module, b: Module)
    requires
        types_coherent(a),
        same_types(a, b),
    ensures
        types_coherent(b),
{
    assert forall|i: int| 0 <= i < b.sub_types.len() implies #[trigger] in_its_group(b, i) by {
        assert(in_its_group(a, i));
    }
}

proof fn sections_coherent(s: Seq<u8>, p: int, m: Module, last: u8, has_data: bool)
    requires
        0 <= p <= s.len(),
        last <= 13,
        last == 0 ==> m == Module::none(),
        types_coherent(m),
        first_memory_noted(m),
        m.func_types.len() <= u32::MAX,
    ensures
        sections_from(s, p, m, last, has_data) matches Ok((m2, _)) ==> {
            &&& types_coherent(m2)
            &&& first_memory_noted(m2)
            &&& m2.func_types.len() <= u32::MAX
        },
    decreases s.len() - p,
{
    if p < s.len() {
        let h = section_header(s, p, last);
        if let Ok((id, end)) = h.0 {
            let c = section_contents(s, h.1, end, id, m);
            if let Ok(m2) = c.0 {
                if id == 0 || c.1 == end {
                    let next = if id == 0 {
                        last
                    } else {
                        id
                    };
                    if id == 1 {
                        assert(c == type_section(s, h.1, m)) by {
                            reveal(section_contents);
                        }
                        type_section_grows(s, h.1, m);
                    } else {
                        section_keeps(s, h.1, end, id, m);
                        coherent_with_same_types(m, m2);
                    }
                    if id == 0 {
                        assert(m2 == m) by {
                            reveal(section_contents);
                        }
                    }
                    sections_coherent(s, end, m2, next, has_data || id == 11);
                }
            }
        }
    }
}

// ---------------------------------------------------------------------------
// Laws

/// The types of a decoded module are coherent: each has its entry in every list, lies
/// in its recursion group together with the other members, and has fields of types that
/// there are. Type indices reach all of them.
pub proof fn decoded_types_are_coherent(s: Seq<u8>)
    ensures
        decoded(s) matches Ok(m) ==> types_coherent(m) && m.func_types.len() <= u32::MAX,
{
    if s.len() >= 8 {
        sections_coherent(s, 8, Module::none(), 0, false);
    }
}

/// A decoded module notes how its first memory is addressed, and the size of its pages.
pub proof fn decoded_first_memory_is_noted(s: Seq<u8>)
    ensures
        decoded(s) matches Ok(m) ==> first_memory_noted(m),
{
    if s.len() >= 8 {
        sections_coherent(s, 8, Module::none(), 0, false);
    }
}

/// Adding a signature keeps the types coherent.
pub proof fn added_type_is_coherent(m: Module, ft: FuncType)
    requires
        types_coherent(m),
        m.func_types.len() < u32::MAX,
    ensures
        types_coherent(type_found(m, ft).0),
{
    let n = m.func_types.len() as int;
    let b = type_added(m, ft);
    assert forall|i: int| 0 <= i < b.sub_types.len() implies #[trigger] in_its_group(b, i) by {
        if i < n {
            assert(in_its_group(m, i));
            assert(b.sub_types[i] == m.sub_types[i]);
            let x = m.sub_types[i];
            assert forall|k: int|
                x.rec_group_start <= k < x.rec_group_start + x.rec_group_size implies same_group(
                #[trigger] b.sub_types[k],
                x,
            ) by {
                assert(b.sub_types[k] == m.sub_types[k]);
            }
        }
    }
    assert forall|i: int| 0 <= i < b.gc_types.len() implies composite_below(
        #[trigger] b.gc_types[i],
        b.func_types.len() as int,
    ) by {
        if i < n {
            assert(b.gc_types[i] == m.gc_types[i]);
            assert(composite_below(m.gc_types[i], n));
        }
    }
}

/// Where two types of coherent modules are equivalent, they stand at the same position
/// in groups of the same size, and so are all members of the two groups.
pub proof fn equivalent_groups(a: Module, i: u32, b: Module, j: u32, k: u32)
    requires
        types_coherent(a),
        types_coherent(b),
        i < a.func_types.len(),
        j < b.func_types.len(),
        equivalent(a, i, b, j),
        k < a.sub_types[i as int].rec_group_size,
        a.func_types.len() <= u32::MAX,
        b.func_types.len() <= u32::MAX,
    ensures
        ({
            let x = a.sub_types[i as int];
            let y = b.sub_types[j as int];
            &&& x.rec_group_size == y.rec_group_size
            &&& i - x.rec_group_start == j - y.rec_group_start
            &&& equivalent(a, (x.rec_group_start + k) as u32, b, (y.rec_group_start + k) as u32)
        }),
{
    let x = a.sub_types[i as int];
    let y = b.sub_types[j as int];
    equivalence_by_groups(a, i, b, j);
    assert(in_its_group(a, i as int));
    assert(in_its_group(b, j as int));
    let p = x.rec_group_start + k;
    let q = y.rec_group_start + k;
    assert(same_group(a.sub_types[p], x));
    assert(same_group(b.sub_types[q], y));
    equivalence_by_groups(a, p as u32, b, q as u32);
}

/// Two types of decoded modules are equivalent only if all types of their recursion
/// groups are, each to the one at its position.
pub proof fn decoded_groups_are_equivalent(s: Seq<u8>, t: Seq<u8>, i: u32, j: u32, k: u32)
    requires
        decoded(s) is Ok,
        decoded(t) is Ok,
        i < decoded(s)->Ok_0.func_types.len(),
        j < decoded(t)->Ok_0.func_types.len(),
        equivalent(decoded(s)->Ok_0, i, decoded(t)->Ok_0, j),
        k < decoded(s)->Ok_0.sub_types[i as int].rec_group_size,
    ensures
        ({
            let a = decoded(s)->Ok_0;
            let b = decoded(t)->Ok_0;
            let x = a.sub_types[i as int];
            let y = b.sub_types[j as int];
            &&& x.rec_group_size == y.rec_group_size
            &&& i - x.rec_group_start == j - y.rec_group_start
            &&& equivalent(a, (x.rec_group_start + k) as u32, b, (y.rec_group_start + k) as u32)
        }),
{
    decoded_types_are_coherent(s);
    decoded_types_are_coherent(t);
    let a = decoded(s)->Ok_0;
    let b = decoded(t)->Ok_0;
    equivalent_groups(a, i, b, j, k);
}

/// Every type of a coherent module whose supertypes there are is equivalent to itself.
pub proof fn coherent_type_is_itself(m: Module, i: u32)
    requires
        types_coherent(m),
        supertypes_known(m),
        i < m.func_types.len(),
    ensures
        equivalent(m, i, m, i),
{
    assert forall|k: int| 0 <= k < m.sub_types.len() implies (#[trigger] m.sub_types[k]).rec_group_start
        + m.sub_types[k].rec_group_size <= m.func_types.len() by {
        assert(in_its_group(m, k));
    }
    assert forall|idx: int| 0 <= idx < m.func_types.len() implies #[trigger] type_references_known(m, idx) by {
        assert(composite_below(m.gc_types[idx], m.func_types.len() as int));
        match composite(m, idx) {
            Some(GcType::Struct { field_types, .. }) => {
                assert forall|f: int| 0 <= f < field_types.len() implies storage_known(m, #[trigger] field_types[f]) by {
                    assert(storage_below(field_types[f], m.func_types.len() as int));
                }
            },
            _ => {},
        }
        assert(m.sub_types[idx].supertype matches Some(p) ==> p < m.func_types.len());
    }
    equivalent_reflexive(m, i);
}

/// Every type of a decoded module whose supertypes there are is equivalent to itself.
pub proof fn decoded_type_is_itself(s: Seq<u8>, i: u32)
    requires
        decoded(s) is Ok,
        supertypes_known(decoded(s)->Ok_0),
        i < decoded(s)->Ok_0.func_types.len(),
    ensures
        equivalent(decoded(s)->Ok_0, i, decoded(s)->Ok_0, i),
{
    decoded_types_are_coherent(s);
    coherent_type_is_itself(decoded(s)->Ok_0, i);
}

} // verus!
