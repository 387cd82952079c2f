//! What a new instance starts with, and what constant expressions come to.

use vstd::prelude::*;
use vstd::arithmetic::power2::pow2;
use crate::const_eval::{const_from, const_step, Evaluation};
use crate::decode_types::heap_ref;
use crate::gc_types::GcType;
use crate::init_expr::{
    const_arith32, const_arith64, eval_from, eval_one, null_type, scan_one, Scan, INIT_STACK,
};
use crate::instantiate::{
    all_data_placed, all_elements_placed, data_placed, element_placed, initial_memories, initial_sizes,
    initial_tables, instantiated, memories_fit,
};
use crate::machine::Object;
use crate::module::{DataSegment, ElemMode, Element, Module};
use crate::numeric::{arith32, arith64};
use crate::reader::leb_u32;
use crate::types::{RuntimeClass, ValType, Value, WasmError};

verus! {

// ---------------------------------------------------------------------------
// Memories

/// Whether this data segment is copied over this byte of a memory.
pub open spec fn covers(d: DataSegment, mi: int, a: int) -> bool {
    d.is_active && d.memory_idx == mi && d.offset <= a < d.offset + d.data_len
}

/// Whether no data segment from this one on is copied over this byte.
pub open spec fn uncovered_from(m: Module, i: int, mi: int, a: int) -> bool {
    forall|j: int| i <= j < m.data_segments.len() ==> !covers(#[trigger] m.data_segments[j], mi, a)
}

proof fn data_keeps_size(m: Module, memories: Seq<Seq<u8>>, d: DataSegment, mi: int, a: int)
    requires
        data_placed(m, memories, d) is Ok,
        d.within(m.code.len() as int),
        0 <= mi < memories.len(),
        0 <= a < memories[mi].len(),
    ensures
        ({
            let r = data_placed(m, memories, d)->Ok_0;
            &&& r.len() == memories.len()
            &&& r[mi].len() == memories[mi].len()
            &&& covers(d, mi, a) ==> r[mi][a] == m.code[d.data_offset + a - d.offset]
            &&& !covers(d, mi, a) ==> r[mi][a] == memories[mi][a]
        }),
{
}

proof fn later_data_stays(m: Module, memories: Seq<Seq<u8>>, i: int, mi: int, a: int, j: int)
    requires
        0 <= i <= m.data_segments.len(),
        all_data_placed(m, memories, i) is Ok,
        forall|k: int|
            0 <= k < m.data_segments.len() ==> (#[trigger] m.data_segments[k]).within(m.code.len() as int),
        0 <= mi < memories.len(),
        0 <= a < memories[mi].len(),
        i <= j < m.data_segments.len() ==> covers(m.data_segments[j], mi, a),
        uncovered_from(m, j + 1, mi, a),
        i <= j <= m.data_segments.len(),
        j == m.data_segments.len() ==> uncovered_from(m, i, mi, a),
    ensures
        ({
            let r = all_data_placed(m, memories, i)->Ok_0;
            &&& r.len() == memories.len()
            &&& r[mi].len() == memories[mi].len()
            &&& j < m.data_segments.len() ==> r[mi][a] == m.code[m.data_segments[j].data_offset + a
                - m.data_segments[j].offset]
            &&& j == m.data_segments.len() ==> r[mi][a] == memories[mi][a]
        }),
    decreases m.data_segments.len() - i,
{
    if i < m.data_segments.len() {
        let d = m.data_segments[i];
        data_keeps_size(m, memories, d, mi, a);
        let next = data_placed(m, memories, d)->Ok_0;
        if j == i {
            assert forall|k: int| i + 1 <= k < m.data_segments.len() implies !covers(
                #[trigger] m.data_segments[k],
                mi,
                a,
            ) by {}
            later_data_stays(m, next, i + 1, mi, a, m.data_segments.len() as int);
        } else {
            later_data_stays(m, next, i + 1, mi, a, j);
        }
    }
}

/// A byte of a memory starts as the last active data segment over it says.
pub proof fn data_segments_fill_memory(
    m: Module,
    fuel: u64,
    class: RuntimeClass,
    globals: Seq<Value>,
    mi: int,
    a: int,
    j: int,
)
    requires
        instantiated(m, fuel, class, globals) is Ok,
        memories_fit(m),
        forall|k: int|
            0 <= k < m.data_segments.len() ==> (#[trigger] m.data_segments[k]).within(m.code.len() as int),
        0 <= mi < initial_sizes(m).len(),
        0 <= a < initial_sizes(m)[mi],
        0 <= j < m.data_segments.len(),
        covers(m.data_segments[j], mi, a),
        uncovered_from(m, j + 1, mi, a),
    ensures
        ({
            let r = instantiated(m, fuel, class, globals)->Ok_0.store.memories;
            let d = m.data_segments[j];
            r[mi].len() == initial_sizes(m)[mi] && r[mi][a] == m.code[d.data_offset + a - d.offset]
        }),
{
    later_data_stays(m, initial_memories(m), 0, mi, a, j);
}

/// A byte of a memory that no active data segment is copied over starts as zero.
pub proof fn memory_starts_as_zero(
    m: Module,
    fuel: u64,
    class: RuntimeClass,
    globals: Seq<Value>,
    mi: int,
    a: int,
)
    requires
        instantiated(m, fuel, class, globals) is Ok,
        memories_fit(m),
        forall|k: int|
            0 <= k < m.data_segments.len() ==> (#[trigger] m.data_segments[k]).within(m.code.len() as int),
        0 <= mi < initial_sizes(m).len(),
        0 <= a < initial_sizes(m)[mi],
        uncovered_from(m, 0, mi, a),
    ensures
        ({
            let r = instantiated(m, fuel, class, globals)->Ok_0.store.memories;
            r[mi].len() == initial_sizes(m)[mi] && r[mi][a] == 0
        }),
{
    later_data_stays(m, initial_memories(m), 0, mi, a, m.data_segments.len() as int);
}

/// A memory starts with its minimum of pages, which have 65536 bytes unless it has its own
/// page size: two to that power.
pub proof fn memories_start_with_their_minimum(m: Module, mi: int)
    requires
        0 <= mi < m.memories.len(),
    ensures
        initial_sizes(m).len() == m.memories.len(),
        m.memories[mi].page_size_log2 is None ==> initial_sizes(m)[mi] == m.memories[mi].min_pages * 65536,
        m.memories[mi].page_size_log2 matches Some(l) ==> l < 64 ==> initial_sizes(m)[mi] == m.memories[mi].min_pages
            * pow2(l as nat),
{
    if let Some(l) = m.memories[mi].page_size_log2 {
        if l < 64 {
            vstd::bits::lemma_u64_pow2_no_overflow(l as nat);
            vstd::bits::lemma_u64_shl_is_mul(1, l as u64);
            assert(1u64 << l == 1u64 << (l as u64));
        }
    }
}

// ---------------------------------------------------------------------------
// Tables

proof fn elements_keep_size(m: Module, tables: Seq<Seq<Option<u32>>>, i: int, ti: int)
    requires
        0 <= i <= m.element_segments.len(),
        all_elements_placed(m, tables, i) is Ok,
        0 <= ti < tables.len(),
    ensures
        all_elements_placed(m, tables, i)->Ok_0.len() == tables.len(),
        all_elements_placed(m, tables, i)->Ok_0[ti].len() == tables[ti].len(),
        (forall|k: int|
            i <= k < m.element_segments.len() ==> (#[trigger] m.element_segments[k]).mode != ElemMode::Active
                || m.element_segments[k].table_idx != ti) ==> all_elements_placed(m, tables, i)->Ok_0[ti] == tables[ti],
    decreases m.element_segments.len() - i,
{
    if i < m.element_segments.len() {
        let next = element_placed(m, tables, m.element_segments[i])->Ok_0;
        elements_keep_size(m, next, i + 1, ti);
    }
}

/// A table starts with its minimum of slots, whatever is copied to it; one that no active
/// segment is copied to and that has no initializer starts with null in all of them.
pub proof fn tables_start_with_their_minimum(m: Module, globals: Seq<Value>, ti: int)
    requires
        all_elements_placed(m, initial_tables(m, globals), 0) is Ok,
        0 <= ti < m.tables.len(),
    ensures
        ({
            let t = all_elements_placed(m, initial_tables(m, globals), 0)->Ok_0[ti];
            &&& t.len() == m.tables[ti].min
            &&& m.tables[ti].init_expr_bytes is None && (forall|k: int|
                0 <= k < m.element_segments.len() ==> (#[trigger] m.element_segments[k]).mode != ElemMode::Active
                    || m.element_segments[k].table_idx != ti) ==> forall|k: int|
                0 <= k < t.len() ==> #[trigger] t[k] is None
        }),
{
    elements_keep_size(m, initial_tables(m, globals), 0, ti);
}

/// An active element segment puts the functions that it lists into its table, from its offset
/// on; an item with the highest number puts null there.
pub proof fn element_segments_fill_tables(m: Module, tables: Seq<Seq<Option<u32>>>, e: Element, k: int)
    requires
        e.mode == ElemMode::Active,
        element_placed(m, tables, e) is Ok,
        0 <= k < tables[e.table_idx as int].len(),
    ensures
        ({
            let t = element_placed(m, tables, e)->Ok_0[e.table_idx as int];
            &&& k < e.offset || k >= e.offset + e.func_indices.len() ==> t[k] == tables[e.table_idx as int][k]
            &&& e.offset <= k < e.offset + e.func_indices.len() ==> {
                let f = e.func_indices[k - e.offset];
                if f == 0xFFFF_FFFF {
                    t[k] is None
                } else {
                    t[k] == Some(f)
                }
            }
        }),
{
}

/// After instantiation the element segments that were copied or only declared are dropped, and
/// the passive ones are not; no data segment is dropped.
pub proof fn passive_segments_remain(m: Module, fuel: u64, class: RuntimeClass, globals: Seq<Value>, i: int)
    requires
        instantiated(m, fuel, class, globals) is Ok,
    ensures
        ({
            let s = instantiated(m, fuel, class, globals)->Ok_0.store;
            &&& s.dropped_elems.len() == m.element_segments.len()
            &&& s.dropped_data.len() == m.data_segments.len()
            &&& 0 <= i < m.element_segments.len() ==> s.dropped_elems[i] == (m.element_segments[i].mode
                != ElemMode::Passive)
            &&& 0 <= i < m.data_segments.len() ==> !s.dropped_data[i]
        }),
{
}

// ---------------------------------------------------------------------------
// Constant expressions

/// Constant arithmetic is that of the instructions.
pub proof fn constants_compute_as_instructions(op: u8, a: i32, b: i32, c: i64, d: i64)
    ensures
        0x6A <= op <= 0x6C ==> arith32(op - 0x6A, a, b) == Ok::<i32, WasmError>(const_arith32(op, a, b)),
        0x7C <= op <= 0x7E ==> arith64(op - 0x7C, c, d) == Ok::<i64, WasmError>(const_arith64(op, c, d)),
{
}

/// An expression is evaluated instruction by instruction up to its end, where the value on
/// top is the result.
pub proof fn expressions_end(s: Seq<u8>, p: int, st: Seq<Value>, v: Value, globals: Option<Seq<Value>>)
    requires
        0 <= p < s.len(),
        s[p] == 0x0B,
    ensures
        eval_from(s, p, st.push(v), globals) == (Ok::<Value, WasmError>(v), p + 1),
        forall|m: Module, g: Seq<Value>, heap: Seq<Object>| #[trigger]
            const_from(m, g, s, p, Evaluation { heap, stack: st.push(v) }) == (heap, Some(v)),
{
    assert(st.push(v).last() == v);
}

/// The evaluation that makes heap objects does to the operands what the one without a heap
/// does, for constants, globals, null, function references and arithmetic, and it leaves the
/// heap.
pub proof fn evaluations_agree(m: Module, globals: Seq<Value>, s: Seq<u8>, p: int, op: u8, e: Evaluation)
    requires
        op == 0x41 || op == 0x42 || op == 0x43 || op == 0x44 || op == 0x23 || op == 0xD0 || op == 0xD2 || 0x6A <= op
            <= 0x6C,
        e.stack.len() < INIT_STACK,
        0x6A <= op <= 0x6C ==> e.stack.len() >= 2,
        eval_one(s, p, op, e.stack, Some(globals)).0 is Ok,
    ensures
        ({
            let r = eval_one(s, p, op, e.stack, Some(globals));
            const_step(m, globals, s, p, op, e) == (Some(Evaluation { stack: r.0->Ok_0, ..e }), r.1)
        }),
{
}

/// The type that a null reference is given is the nullable reference to its heap type.
pub proof fn null_constants_are_nullable(ht: i32)
    ensures
        null_type(ht) == heap_ref(ht, true),
{
}

/// Whether the values have these types, as far as the types are known. Only numbers and
/// vectors are told.
pub open spec fn typed(types: Seq<Option<ValType>>, vals: Seq<Value>) -> bool {
    &&& types.len() == vals.len()
    &&& forall|k: int| 0 <= k < types.len() ==> has_type(#[trigger] vals[k], types[k])
}

/// Whether a value is of a number type, where that is known.
pub open spec fn has_type(v: Value, t: Option<ValType>) -> bool {
    match t {
        Some(ValType::I32) => v is I32,
        Some(ValType::I64) => v is I64,
        Some(ValType::F32) => v is F32,
        Some(ValType::F64) => v is F64,
        Some(ValType::V128) => v is V128,
        _ => true,
    }
}

/// Scanning an expression finds the types of the values that evaluating it gives, and goes on
/// at the same place.
pub proof fn scanning_types_the_values(
    s: Seq<u8>,
    p: int,
    op: u8,
    st: Scan,
    vals: Seq<Value>,
    globals: Option<Seq<Value>>,
    gc: Seq<GcType>,
)
    requires
        op == 0x41 || op == 0x42 || op == 0x43 || op == 0x44 || op == 0x23 || op == 0xD0 || op == 0xD2 || op == 0xFD
            || 0x6A <= op <= 0x6C || 0x7C <= op <= 0x7E,
        typed(st.types, vals),
        eval_one(s, p, op, vals, globals).0 is Ok,
    ensures
        ({
            let (r, n) = (eval_one(s, p, op, vals, globals), scan_one(s, p, op, st, gc));
            &&& typed(n.0.types, r.0->Ok_0)
            &&& n.1 == r.1
            &&& !n.2
            &&& n.0.info.has_non_const == st.info.has_non_const
        }),
{
}

/// Scanning notes the highest global that is read, and the first function that is referred to.
pub proof fn scanning_notes_references(s: Seq<u8>, p: int, i: u32, q: int, st: Scan, gc: Seq<GcType>)
    requires
        leb_u32(s, p) == (Ok::<u32, WasmError>(i), q),
    ensures
        ({
            let g = scan_one(s, p, 0x23, st, gc).0.info.global_ref;
            &&& g is Some && g->Some_0 >= i
            &&& g == Some(i) || g == st.info.global_ref
            &&& st.info.global_ref matches Some(j) ==> g->Some_0 >= j
        }),
        ({
            let f = scan_one(s, p, 0xD2, st, gc).0.info.func_ref;
            f == if st.info.func_ref is Some {
                st.info.func_ref
            } else {
                Some(i)
            }
        }),
{
}

} // verus!
