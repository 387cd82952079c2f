//! Making an instance of a module.

use vstd::prelude::*;
use crate::bulk::item_slots;
use crate::const_eval::{const_value, eval_gc_const_expr};
use crate::float_bits::{
    is_nan, is_negative, is_pattern, magnitude, negative, not_a_number, quiet, quieted, sign_bit, without_sign,
};
use crate::init_expr::{eval_init_expr_with_globals, init_value};
use crate::linker::is_funcref;
use crate::machine::{
    splice, Block, BlockFrame, CallFrame, Frames, GcObject, Machine, Object, Store, WasmInstance, CODE_MARGIN,
    MAX_TOTAL_LOCALS,
};
use crate::memory::mul_pages;
use crate::module::{
    group_views, views, DataSegment, ElemMode, Element, ElementSegment, Global, GlobalDef, MemoryDef, Module, Table,
    TableDef, WasmModule,
};
use crate::plain::{slot_of_value, value_slot};
use crate::types::{
    RuntimeClass, ValType, Value, WasmError, DEFAULT_RUNTIME_CLASS, MAX_BLOCK_DEPTH, MAX_CALL_DEPTH, MAX_STACK,
    WASM_PAGE_SIZE,
};

verus! {

broadcast use group_views;

// ---------------------------------------------------------------------------
// Memories

/// Bytes in a page of a memory.
pub open spec fn page_bytes(d: MemoryDef) -> u64 {
    match d.page_size_log2 {
        Some(l) => 1u64 << l,
        None => WASM_PAGE_SIZE as u64,
    }
}

/// How large each memory is at first. A module may declare its one memory without a
/// definition.
pub open spec fn initial_sizes(m: Module) -> Seq<int> {
    if m.memories.len() == 0 && m.has_memory {
        seq![m.memory_min_pages * WASM_PAGE_SIZE as u64]
    } else {
        Seq::new(m.memories.len(), |i: int| m.memories[i].min_pages * page_bytes(m.memories[i]))
    }
}

/// Whether every memory can be addressed.
pub open spec fn memories_fit(m: Module) -> bool {
    forall|i: int| 0 <= i < initial_sizes(m).len() ==> #[trigger] initial_sizes(m)[i] <= isize::MAX
}

/// The memories at first, all zero.
pub open spec fn initial_memories(m: Module) -> Seq<Seq<u8>> {
    Seq::new(initial_sizes(m).len(), |i: int| Seq::new(initial_sizes(m)[i] as nat, |k: int| 0u8))
}

/// Copies an active data segment to its memory.
pub open spec fn data_placed(m: Module, memories: Seq<Seq<u8>>, d: DataSegment) -> Result<Seq<Seq<u8>>, WasmError> {
    if !d.is_active {
        Ok(memories)
    } else if d.memory_idx >= memories.len() || d.offset + d.data_len > memories[d.memory_idx as int].len() {
        Err(WasmError::MemoryOutOfBounds)
    } else {
        Ok(
            memories.update(
                d.memory_idx as int,
                splice(
                    memories[d.memory_idx as int],
                    d.offset as int,
                    m.code.subrange(d.data_offset as int, d.data_offset + d.data_len),
                ),
            ),
        )
    }
}

/// Copies the active data segments from the one numbered `i` on.
pub open spec fn all_data_placed(m: Module, memories: Seq<Seq<u8>>, i: int) -> Result<Seq<Seq<u8>>, WasmError>
    decreases m.data_segments.len() - i,
{
    if i >= m.data_segments.len() {
        Ok(memories)
    } else {
        match data_placed(m, memories, m.data_segments[i]) {
            Err(e) => Err(e),
            Ok(next) => all_data_placed(m, next, i + 1),
        }
    }
}

// ---------------------------------------------------------------------------
// Globals

/// The sum of two floating-point patterns, where one of them is zero or no number.
pub open spec fn easy_sum(a: u64, b: u64, wide: bool) -> Option<u64> {
    if is_nan(a, wide) {
        Some(quieted(a, wide))
    } else if is_nan(b, wide) {
        Some(quieted(b, wide))
    } else if magnitude(a, wide) == 0 && magnitude(b, wide) == 0 {
        Some(
            if negative(a, wide) && negative(b, wide) {
                sign_bit(wide)
            } else {
                0
            },
        )
    } else if magnitude(a, wide) == 0 {
        Some(b)
    } else if magnitude(b, wide) == 0 {
        Some(a)
    } else {
        None
    }
}

/// What a global starts with.
#[derive(Debug, Clone, Copy, PartialEq, Eq)]
pub enum Start {
    /// This value.
    Known(Value),
    /// The floating-point sum of these two values.
    Sum(Value, Value),
}

/// The value `v` of an initializer, in which the global that it reads counted as zero,
/// corrected by that global's value `g`.
pub open spec fn corrected(v: Value, g: Value) -> Start {
    match (g, v) {
        (Value::I32(r), Value::I32(x)) => Start::Known(Value::I32(x.wrapping_add(r))),
        (Value::I64(r), Value::I64(x)) => Start::Known(Value::I64(x.wrapping_add(r))),
        (Value::F32(r), Value::F32(x)) => match easy_sum(x as u64, r as u64, false) {
            Some(s) => Start::Known(Value::F32(s as u32)),
            None => Start::Sum(v, g),
        },
        (Value::F64(r), Value::F64(x)) => match easy_sum(x, r, true) {
            Some(s) => Start::Known(Value::F64(s)),
            None => Start::Sum(v, g),
        },
        _ => Start::Known(g),
    }
}

/// What a global starts with, given those before it.
pub open spec fn start_of(g: Global, before: Seq<Value>) -> Start {
    match g.init_global_ref {
        Some(r) if r < before.len() => corrected(g.init_value, before[r as int]),
        _ => Start::Known(g.init_value),
    }
}

/// The values of the globals, the first of which are done. `sums` are the sums that
/// the embedder computed, in the order in which they are needed; the first that is
/// missing is the failure.
pub open spec fn globals_from(defs: Seq<Global>, done: Seq<Value>, sums: Seq<Value>) -> Result<
    Seq<Value>,
    (Value, Value),
>
    decreases defs.len() - done.len(),
{
    if done.len() >= defs.len() {
        Ok(done)
    } else {
        match start_of(defs[done.len() as int], done) {
            Start::Known(v) => globals_from(defs, done.push(v), sums),
            Start::Sum(a, b) => if sums.len() == 0 {
                Err((a, b))
            } else {
                globals_from(defs, done.push(sums[0]), sums.skip(1))
            },
        }
    }
}

/// Whether the value of a global of this type is made anew once there is a heap.
pub open spec fn is_heap_type(t: ValType) -> bool {
    match t {
        ValType::AnyRef | ValType::NullableAnyRef | ValType::EqRef | ValType::NullableEqRef | ValType::I31Ref => true,
        ValType::StructRef | ValType::NullableStructRef | ValType::ArrayRef | ValType::NullableArrayRef => true,
        ValType::NoneRef | ValType::NullFuncRef | ValType::NullExternRef => true,
        ValType::TypedFuncRef | ValType::NonNullableFuncRef | ValType::NullableTypedFuncRef => true,
        _ => false,
    }
}

/// Makes the globals anew that need the heap, from the one numbered `i` on.
pub open spec fn heap_globals(m: Module, i: int, globals: Seq<Value>, heap: Seq<Object>) -> (Seq<Value>, Seq<Object>)
    decreases m.globals.len() - i,
{
    if i >= m.globals.len() {
        (globals, heap)
    } else {
        let g = m.globals[i];
        if g.init_expr_bytes.len() == 0 || !is_heap_type(g.val_type) {
            heap_globals(m, i + 1, globals, heap)
        } else {
            let r = const_value(m, globals, g.init_expr_bytes, heap);
            match r.1 {
                Some(v) => heap_globals(m, i + 1, globals.update(i, v), r.0),
                None => heap_globals(m, i + 1, globals, r.0),
            }
        }
    }
}

// ---------------------------------------------------------------------------
// Tables

/// What the slots of a table hold at first.
pub open spec fn initial_slot(t: Table, globals: Seq<Value>) -> Option<u32> {
    match t.init_expr_bytes {
        Some(s) => match init_value(s, 0, Some(globals)).0 {
            Ok(v) => value_slot(v),
            Err(_) => None,
        },
        None => None,
    }
}

/// The tables at first.
pub open spec fn initial_tables(m: Module, globals: Seq<Value>) -> Seq<Seq<Option<u32>>> {
    Seq::new(
        m.tables.len(),
        |i: int| Seq::new(m.tables[i].min as nat, |k: int| initial_slot(m.tables[i], globals)),
    )
}

/// Whether an item of an element segment refers to a function that there is.
pub open spec fn item_exists(m: Module, f: u32) -> bool {
    f == u32::MAX || f < m.imported_funcs().len() + m.functions.len()
}

/// Copies an active element segment to its table.
pub open spec fn element_placed(m: Module, tables: Seq<Seq<Option<u32>>>, e: Element) -> Result<
    Seq<Seq<Option<u32>>>,
    WasmError,
> {
    let ti = e.table_idx as int;
    if e.mode != ElemMode::Active {
        Ok(tables)
    } else if ti >= tables.len() || e.offset + e.func_indices.len() > tables[ti].len() {
        Err(WasmError::TableIndexOutOfBounds)
    } else if is_funcref(m.tables[ti].elem_type) && is_funcref(e.elem_type) && exists|k: int|
        0 <= k < e.func_indices.len() && !item_exists(m, #[trigger] e.func_indices[k]) {
        Err(WasmError::UndefinedElement)
    } else {
        Ok(tables.update(ti, splice(tables[ti], e.offset as int, item_slots(e.func_indices))))
    }
}

/// Copies the active element segments from the one numbered `i` on.
pub open spec fn all_elements_placed(m: Module, tables: Seq<Seq<Option<u32>>>, i: int) -> Result<
    Seq<Seq<Option<u32>>>,
    WasmError,
>
    decreases m.element_segments.len() - i,
{
    if i >= m.element_segments.len() {
        Ok(tables)
    } else {
        match element_placed(m, tables, m.element_segments[i]) {
            Err(e) => Err(e),
            Ok(next) => all_elements_placed(m, next, i + 1),
        }
    }
}

/// The values of the items `k..` of an element segment that are expressions, after
/// those already there. An item without a value is null.
pub open spec fn item_values(
    m: Module,
    globals: Seq<Value>,
    items: Seq<Seq<u8>>,
    heap: Seq<Object>,
    done: Seq<Value>,
) -> (Seq<Object>, Seq<Value>)
    decreases items.len() - done.len(),
{
    if done.len() >= items.len() {
        (heap, done)
    } else {
        let r = const_value(m, globals, items[done.len() as int], heap);
        item_values(
            m,
            globals,
            items,
            r.0,
            done.push(
                match r.1 {
                    Some(v) => v,
                    None => Value::NullRef,
                },
            ),
        )
    }
}

/// The slots that references are written as.
pub open spec fn value_slots(vals: Seq<Value>) -> Seq<Option<u32>> {
    Seq::new(vals.len(), |i: int| value_slot(vals[i]))
}

/// The tables with the values of an active segment written, as far as the table
/// reaches.
pub open spec fn values_placed(tables: Seq<Seq<Option<u32>>>, e: Element, vals: Seq<Value>) -> Seq<Seq<Option<u32>>> {
    let ti = e.table_idx as int;
    if e.mode == ElemMode::Active && ti < tables.len() {
        tables.update(ti, splice(tables[ti], e.offset as int, value_slots(vals)))
    } else {
        tables
    }
}

/// The parts of an instance that the expressions of element segments fill.
#[verifier::ext_equal]
pub struct Filled {
    pub heap: Seq<Object>,
    pub tables: Seq<Seq<Option<u32>>>,
    pub elem_values: Seq<Seq<Value>>,
}

/// Evaluates the items of the element segments from the one numbered `i` on.
pub open spec fn heap_elements(m: Module, globals: Seq<Value>, i: int, f: Filled) -> Filled
    decreases m.element_segments.len() - i,
{
    if i >= m.element_segments.len() {
        f
    } else {
        let e = m.element_segments[i];
        if e.item_expr_bytes.len() == 0 {
            heap_elements(m, globals, i + 1, f)
        } else {
            let r = item_values(m, globals, e.item_expr_bytes, f.heap, Seq::empty());
            let known = if f.elem_values.len() <= i {
                Seq::new(m.element_segments.len(), |k: int| Seq::empty())
            } else {
                f.elem_values
            };
            heap_elements(
                m,
                globals,
                i + 1,
                Filled {
                    heap: r.0,
                    tables: values_placed(f.tables, e, r.1),
                    elem_values: known.update(i, r.1),
                },
            )
        }
    }
}

/// The number that a slot is held as among the items of an element segment.
pub open spec fn slot_item(slot: Option<u32>) -> u32 {
    match slot {
        Some(x) => x,
        None => u32::MAX,
    }
}

/// The numbers that references are held as among the items of an element segment.
pub open spec fn value_items(vals: Seq<Value>) -> Seq<u32> {
    Seq::new(vals.len(), |i: int| slot_item(value_slot(vals[i])))
}

/// The element segment with the values of its items in place of what stood for them,
/// where the items are expressions.
pub open spec fn with_values(e: Element, vals: Seq<Value>) -> Element {
    if e.item_expr_bytes.len() > 0 {
        Element { func_indices: value_items(vals), ..e }
    } else {
        e
    }
}

/// The module whose element segments hold the values of their items.
pub open spec fn with_items(m: Module, values: Seq<Seq<Value>>) -> Module {
    Module {
        element_segments: Seq::new(
            m.element_segments.len(),
            |i: int|
                if i < values.len() {
                    with_values(m.element_segments[i], values[i])
                } else {
                    m.element_segments[i]
                },
        ),
        ..m
    }
}

// ---------------------------------------------------------------------------
// Instances

/// The store of a new instance.
pub open spec fn initial_store(
    m: Module,
    class: RuntimeClass,
    globals: Seq<Value>,
    tables: Seq<Seq<Option<u32>>>,
    memories: Seq<Seq<u8>>,
) -> Store {
    let g = heap_globals(m, 0, globals, Seq::empty());
    let f = heap_elements(m, g.0, 0, Filled { heap: g.1, tables, elem_values: Seq::empty() });
    Store {
        module: with_items(m, f.elem_values),
        class,
        globals: g.0,
        tables: f.tables,
        table_aliases: Seq::new(tables.len(), |i: int| None),
        dropped_elems: Seq::new(
            m.element_segments.len(),
            |i: int|
                m.element_segments[i].mode == ElemMode::Active || m.element_segments[i].mode == ElemMode::Declarative,
        ),
        dropped_data: Seq::new(m.data_segments.len(), |i: int| false),
        memories,
        heap: f.heap,
        elem_values: f.elem_values,
    }
}

/// A machine with this store and fuel on which nothing has run.
pub open spec fn idle(store: Store, fuel: u64) -> Machine {
    Machine {
        stack: Seq::new(MAX_STACK as nat, |i: int| Value::I32(0)),
        stack_ptr: 0,
        pc: 0,
        fuel,
        finished: false,
        frames: Frames {
            locals: Seq::new(MAX_TOTAL_LOCALS as nat, |i: int| Value::I32(0)),
            calls: Seq::new(MAX_CALL_DEPTH as nat, |i: int| CallFrame::blank()),
            call_depth: 0,
            blocks: Seq::new(MAX_BLOCK_DEPTH as nat, |i: int| Block::plain(0, 0, 0, 0, 0, false)),
            block_depth: 0,
        },
        store,
    }
}

/// A new instance of a module whose globals start with these values. There is none where
/// an active segment does not fit.
pub open spec fn instantiated(m: Module, fuel: u64, class: RuntimeClass, globals: Seq<Value>) -> Result<
    Machine,
    WasmError,
> {
    match all_elements_placed(m, initial_tables(m, globals), 0) {
        Err(e) => Err(e),
        Ok(tables) => match all_data_placed(m, initial_memories(m), 0) {
            Err(e) => Err(e),
            Ok(memories) => Ok(idle(initial_store(m, class, globals, tables, memories), fuel)),
        },
    }
}

/// Whether making an instance gave what it should.
pub open spec fn makes(r: Result<WasmInstance, WasmError>, e: Result<Machine, WasmError>) -> bool {
    match r {
        Ok(inst) => inst.wf() && e == Ok::<Machine, WasmError>(inst@),
        Err(x) => e == Err::<Machine, WasmError>(x),
    }
}

/// What stops an active element segment from being placed.
pub open spec fn element_fault(m: Module, e: Element) -> Option<WasmError> {
    let ti = e.table_idx as int;
    if e.mode != ElemMode::Active {
        None
    } else if ti >= m.tables.len() || e.offset + e.func_indices.len() > m.tables[ti].min {
        Some(WasmError::TableIndexOutOfBounds)
    } else if is_funcref(m.tables[ti].elem_type) && is_funcref(e.elem_type) && exists|k: int|
        0 <= k < e.func_indices.len() && !item_exists(m, #[trigger] e.func_indices[k]) {
        Some(WasmError::UndefinedElement)
    } else {
        None
    }
}

/// What stops an active data segment from being placed.
pub open spec fn data_fault(m: Module, d: DataSegment) -> Option<WasmError> {
    if d.is_active && (d.memory_idx >= initial_sizes(m).len() || d.offset + d.data_len > initial_sizes(
        m,
    )[d.memory_idx as int]) {
        Some(WasmError::MemoryOutOfBounds)
    } else {
        None
    }
}

/// The first fault among the element segments from the one numbered `i` on.
pub open spec fn first_element_fault(m: Module, i: int) -> Option<WasmError>
    decreases m.element_segments.len() - i,
{
    if i >= m.element_segments.len() {
        None
    } else if element_fault(m, m.element_segments[i]) is Some {
        element_fault(m, m.element_segments[i])
    } else {
        first_element_fault(m, i + 1)
    }
}

/// Element segments are placed exactly where none has a fault; else the first fault is the
/// failure.
proof fn elements_fail_at_fault(m: Module, tables: Seq<Seq<Option<u32>>>, i: int)
    requires
        tables.len() == m.tables.len(),
        forall|k: int| 0 <= k < tables.len() ==> (#[trigger] tables[k]).len() == m.tables[k].min,
    ensures
        match all_elements_placed(m, tables, i) {
            Ok(_) => first_element_fault(m, i) is None,
            Err(e) => first_element_fault(m, i) == Some(e),
        },
    decreases m.element_segments.len() - i,
{
    if i < m.element_segments.len() {
        if let Ok(next) = element_placed(m, tables, m.element_segments[i]) {
            elements_fail_at_fault(m, next, i + 1);
        }
    }
}

/// Data segments are placed exactly where none of them has a fault.
proof fn data_fail_at_fault(m: Module, memories: Seq<Seq<u8>>, i: int)
    requires
        memories_fit(m),
        0 <= i,
        memories.len() == initial_sizes(m).len(),
        forall|k: int| 0 <= k < memories.len() ==> (#[trigger] memories[k]).len() == initial_sizes(m)[k],
    ensures
        match all_data_placed(m, memories, i) {
            Ok(_) => forall|k: int|
                i <= k < m.data_segments.len() ==> data_fault(m, #[trigger] m.data_segments[k]) is None,
            Err(e) => e == WasmError::MemoryOutOfBounds && exists|k: int|
                i <= k < m.data_segments.len() && data_fault(m, #[trigger] m.data_segments[k]) is Some,
        },
    decreases m.data_segments.len() - i,
{
    if i < m.data_segments.len() {
        if let Ok(next) = data_placed(m, memories, m.data_segments[i]) {
            data_fail_at_fault(m, next, i + 1);
        } else {
            assert(data_fault(m, m.data_segments[i]) is Some);
        }
    }
}

/// Where there is no first fault there is none at all.
proof fn no_element_fault(m: Module, i: int)
    requires
        first_element_fault(m, i) is None,
        0 <= i,
    ensures
        forall|k: int|
            i <= k < m.element_segments.len() ==> element_fault(m, #[trigger] m.element_segments[k]) is None,
    decreases m.element_segments.len() - i,
{
    if i < m.element_segments.len() {
        no_element_fault(m, i + 1);
    }
}

/// No memory has a negative size.
proof fn sizes_are_natural(m: Module, i: int)
    requires
        0 <= i < initial_sizes(m).len(),
    ensures
        initial_sizes(m)[i] >= 0,
{
    let pages = if m.memories.len() == 0 {
        m.memory_min_pages
    } else {
        m.memories[i].min_pages
    };
    let bytes = if m.memories.len() == 0 {
        WASM_PAGE_SIZE as u64
    } else {
        page_bytes(m.memories[i])
    };
    assert(pages * bytes >= 0) by (nonlinear_arith);
}

/// Making an instance fails only where an active segment does not fit, whatever the
/// globals, the fuel and the class are: with the fault of the first element segment that
/// has one or, where none has, with that of a data segment.
pub proof fn only_segments_fail(m: Module, fuel: u64, class: RuntimeClass, globals: Seq<Value>)
    requires
        memories_fit(m),
    ensures
        match instantiated(m, fuel, class, globals) {
            Ok(_) => {
                &&& forall|i: int|
                    0 <= i < m.element_segments.len() ==> element_fault(m, #[trigger] m.element_segments[i]) is None
                &&& forall|i: int|
                    0 <= i < m.data_segments.len() ==> data_fault(m, #[trigger] m.data_segments[i]) is None
            },
            Err(e) => {
                ||| first_element_fault(m, 0) == Some(e)
                ||| {
                    &&& first_element_fault(m, 0) is None
                    &&& e == WasmError::MemoryOutOfBounds
                    &&& exists|i: int|
                        0 <= i < m.data_segments.len() && data_fault(m, #[trigger] m.data_segments[i]) is Some
                }
            },
        },
{
    elements_fail_at_fault(m, initial_tables(m, globals), 0);
    if first_element_fault(m, 0) is None {
        no_element_fault(m, 0);
    }
    assert forall|k: int| 0 <= k < initial_memories(m).len() implies (#[trigger] initial_memories(m)[k]).len()
        == initial_sizes(m)[k] by {
        sizes_are_natural(m, k);
    }
    data_fail_at_fault(m, initial_memories(m), 0);
}

/// A new instance runs the given module with the given fuel in the given class, and
/// nothing has run on it yet. Only the items of element segments that are expressions
/// have been replaced by their values.
pub proof fn instance_is_fresh(m: Module, fuel: u64, class: RuntimeClass, globals: Seq<Value>)
    requires
        instantiated(m, fuel, class, globals) is Ok,
    ensures
        ({
            let i = instantiated(m, fuel, class, globals)->Ok_0;
            &&& i.store.module == with_items(m, i.store.elem_values)
            &&& i.fuel == fuel && i.store.class == class
            &&& i.stack_ptr == 0 && i.frames.call_depth == 0 && i.frames.block_depth == 0
            &&& !i.finished
        }),
{
}

/// Without items that are expressions, the module of a new instance is the given one.
pub proof fn plain_module_stays(m: Module, values: Seq<Seq<Value>>)
    requires
        forall|i: int| 0 <= i < m.element_segments.len() ==> (#[trigger] m.element_segments[i]).item_expr_bytes.len() == 0,
    ensures
        with_items(m, values) == m,
{
    assert(with_items(m, values).element_segments =~= m.element_segments);
}

/// What a segment holds in place of an expression is copied to a table as the value of
/// the expression, of which no reference to a heap object has the highest number.
pub proof fn items_hold_their_values(vals: Seq<Value>)
    requires
        forall|i: int| 0 <= i < vals.len() ==> value_slot(#[trigger] vals[i]) != Some(u32::MAX),
    ensures
        item_slots(value_items(vals)) == value_slots(vals),
{
    assert(item_slots(value_items(vals)) =~= value_slots(vals));
}

/// The bytes of an active data segment are in memory once it is placed, and every
/// memory keeps its size.
pub proof fn placed_data_is_there(m: Module, memories: Seq<Seq<u8>>, d: DataSegment)
    requires
        d.is_active,
        d.within(m.code.len() as int),
        data_placed(m, memories, d) is Ok,
    ensures
        ({
            let r = data_placed(m, memories, d)->Ok_0;
            &&& r[d.memory_idx as int].subrange(d.offset as int, d.offset + d.data_len) == m.code.subrange(
                d.data_offset as int,
                d.data_offset + d.data_len,
            )
            &&& r.len() == memories.len()
            &&& forall|i: int| 0 <= i < r.len() ==> (#[trigger] r[i]).len() == memories[i].len()
        }),
{
    let r = data_placed(m, memories, d)->Ok_0;
    assert(r[d.memory_idx as int].subrange(d.offset as int, d.offset + d.data_len) =~= m.code.subrange(
        d.data_offset as int,
        d.data_offset + d.data_len,
    ));
}

/// The items of an active element segment are in its table once it is placed, and every
/// table keeps its size.
pub proof fn placed_element_is_there(m: Module, tables: Seq<Seq<Option<u32>>>, e: Element)
    requires
        e.mode == ElemMode::Active,
        element_placed(m, tables, e) is Ok,
    ensures
        ({
            let r = element_placed(m, tables, e)->Ok_0;
            &&& r[e.table_idx as int].subrange(e.offset as int, e.offset + e.func_indices.len()) == item_slots(
                e.func_indices,
            )
            &&& r.len() == tables.len()
            &&& forall|i: int| 0 <= i < r.len() ==> (#[trigger] r[i]).len() == tables[i].len()
        }),
{
    let r = element_placed(m, tables, e)->Ok_0;
    assert(r[e.table_idx as int].subrange(e.offset as int, e.offset + e.func_indices.len()) =~= item_slots(
        e.func_indices,
    ));
}

/// A global that reads no other starts with the value of its initializer, and one that
/// reads an integer global starts with the sum.
pub proof fn globals_start_as_written(g: Global, before: Seq<Value>, r: u32, x: i32, y: i32)
    ensures
        g.init_global_ref is None ==> start_of(g, before) == Start::Known(g.init_value),
        g.init_global_ref == Some(r) && r < before.len() && before[r as int] == Value::I32(x) && g.init_value
            == Value::I32(y) ==> start_of(g, before) == Start::Known(Value::I32(y.wrapping_add(x))),
{
}

// ---------------------------------------------------------------------------
// Execution

/// `n` times the same value.
fn filled<T: Copy>(v: T, n: usize) -> (r: Vec<T>)
    ensures
        r@ == Seq::new(n as nat, |i: int| v),
{
    let mut r: Vec<T> = Vec::new();
    let mut i: usize = 0;
    while i < n
        invariant
            i <= n,
            r@ == Seq::new(i as nat, |k: int| v),
        decreases n - i,
    {
        r.push(v);
        i = i + 1;
        assert(r@ =~= Seq::new(i as nat, |k: int| v));
    }
    r
}

/// Bytes in a page of a memory.
fn page_of(d: &MemoryDef) -> (r: u64)
    requires
        d.wf(),
    ensures
        r == page_bytes(*d),
{
    match d.page_size_log2 {
        Some(l) => 1u64 << l,
        None => WASM_PAGE_SIZE as u64,
    }
}

/// Whether every memory can be addressed.
fn sizes_fit(m: &WasmModule) -> (r: bool)
    requires
        m.wf(),
    ensures
        r == memories_fit(m@),
{
    if m.memories.len() == 0 && m.has_memory {
        let size: u128 = mul_pages(m.memory_min_pages, WASM_PAGE_SIZE as u64);
        assert(initial_sizes(m@)[0] == size);
        return size <= isize::MAX as u128;
    }
    let mut i: usize = 0;
    while i < m.memories.len()
        invariant
            i <= m.memories@.len(),
            m.wf(),
            !(m.memories@.len() == 0 && m.has_memory),
            forall|k: int| 0 <= k < i ==> #[trigger] initial_sizes(m@)[k] <= isize::MAX,
        decreases m.memories@.len() - i,
    {
        assert(m.memories@[i as int].wf());
        let size: u128 = mul_pages(m.memories[i].min_pages, page_of(&m.memories[i]));
        assert(initial_sizes(m@)[i as int] == size);
        if size > isize::MAX as u128 {
            return false;
        }
        i = i + 1;
    }
    true
}

/// Whether an instance of a module can be made once the values of its globals are known,
/// for which see [`initial_globals`]: the module is well-formed, and its memories and its
/// code can be addressed.
pub fn can_instantiate(m: &WasmModule) -> (r: bool)
    ensures
        r == (m.wf() && memories_fit(m@) && m.code@.len() + CODE_MARGIN <= usize::MAX),
{
    m.well_formed() && sizes_fit(m) && m.code.len() <= usize::MAX - CODE_MARGIN
}

/// The memories at first.
fn make_memories(m: &WasmModule) -> (r: Vec<Vec<u8>>)
    requires
        m.wf(),
        memories_fit(m@),
    ensures
        views(r@) == initial_memories(m@),
{
    let mut memories: Vec<Vec<u8>> = Vec::new();
    if m.memories.len() == 0 && m.has_memory {
        let size: u128 = mul_pages(m.memory_min_pages, WASM_PAGE_SIZE as u64);
        assert(initial_sizes(m@)[0] == size);
        memories.push(filled(0u8, size as usize));
        assert(views(memories@) =~= initial_memories(m@));
        return memories;
    }
    let mut i: usize = 0;
    while i < m.memories.len()
        invariant
            i <= m.memories@.len(),
            m.wf(),
            memories_fit(m@),
            !(m.memories@.len() == 0 && m.has_memory),
            views(memories@) == initial_memories(m@).take(i as int),
        decreases m.memories@.len() - i,
    {
        assert(m.memories@[i as int].wf());
        let size: u128 = mul_pages(m.memories[i].min_pages, page_of(&m.memories[i]));
        assert(initial_sizes(m@)[i as int] == size);
        let zeros = filled(0u8, size as usize);
        assert(zeros@ =~= initial_memories(m@)[i as int]);
        memories.push(zeros);
        i = i + 1;
        assert(views(memories@) =~= initial_memories(m@).take(i as int));
    }
    assert(initial_memories(m@).take(i as int) =~= initial_memories(m@));
    memories
}

/// Copies bytes to a memory.
fn write_bytes(memory: &mut Vec<u8>, at: usize, bytes: &[u8], from: usize, n: usize)
    requires
        at + n <= old(memory)@.len(),
        from + n <= bytes@.len(),
    ensures
        final(memory)@ == splice(old(memory)@, at as int, bytes@.subrange(from as int, from + n)),
{
    let len: usize = memory.len();
    let total: usize = bytes.len();
    let mut i: usize = 0;
    assert(memory@ =~= splice(memory@, at as int, bytes@.subrange(from as int, from as int)));
    while i < n
        invariant
            i <= n,
            len == memory@.len(),
            len == old(memory)@.len(),
            at + n <= len,
            from + n <= bytes@.len(),
            total == bytes@.len(),
            memory@ == splice(old(memory)@, at as int, bytes@.subrange(from as int, from + i)),
        decreases n - i,
    {
        memory[at + i] = bytes[from + i];
        i = i + 1;
        assert(memory@ =~= splice(old(memory)@, at as int, bytes@.subrange(from as int, from + i)));
    }
}

/// Copies an active data segment to its memory.
fn place_data(m: &WasmModule, memories: &mut Vec<Vec<u8>>, d: &DataSegment) -> (r: Result<(), WasmError>)
    requires
        d.within(m.code@.len() as int),
    ensures
        match r {
            Ok(_) => data_placed(m@, views(old(memories)@), *d) == Ok::<Seq<Seq<u8>>, WasmError>(
                views(final(memories)@),
            ),
            Err(e) => data_placed(m@, views(old(memories)@), *d) == Err::<Seq<Seq<u8>>, WasmError>(e),
        },
{
    if !d.is_active {
        return Ok(());
    }
    let mi: usize = d.memory_idx as usize;
    if mi >= memories.len() {
        return Err(WasmError::MemoryOutOfBounds);
    }
    let len: usize = memories[mi].len();
    let at: usize = d.offset as usize;
    if at > len || d.data_len > len - at {
        return Err(WasmError::MemoryOutOfBounds);
    }
    write_bytes(&mut memories[mi], at, m.code.as_slice(), d.data_offset, d.data_len);
    Ok(())
}

/// Copies the active data segments.
fn place_all_data(m: &WasmModule, memories: &mut Vec<Vec<u8>>) -> (r: Result<(), WasmError>)
    requires
        m.wf(),
    ensures
        match r {
            Ok(_) => all_data_placed(m@, views(old(memories)@), 0) == Ok::<Seq<Seq<u8>>, WasmError>(
                views(final(memories)@),
            ),
            Err(e) => all_data_placed(m@, views(old(memories)@), 0) == Err::<Seq<Seq<u8>>, WasmError>(e),
        },
{
    let mut i: usize = 0;
    while i < m.data_segments.len()
        invariant
            i <= m.data_segments@.len(),
            m.wf(),
            all_data_placed(m@, views(old(memories)@), 0) == all_data_placed(m@, views(memories@), i as int),
        decreases m.data_segments@.len() - i,
    {
        assert(m.data_segments@[i as int].within(m.code@.len() as int));
        place_data(m, memories, &m.data_segments[i])?;
        i = i + 1;
    }
    Ok(())
}

/// The sum of two floating-point patterns, where one of them is zero or no number.
fn sum_easily(a: u64, b: u64, wide: bool) -> (r: Option<u64>)
    requires
        is_pattern(a, wide),
        is_pattern(b, wide),
    ensures
        r == easy_sum(a, b, wide),
        r matches Some(s) ==> is_pattern(s, wide),
{
    if not_a_number(a, wide) {
        Some(quiet(a, wide))
    } else if not_a_number(b, wide) {
        Some(quiet(b, wide))
    } else if without_sign(a, wide) == 0 && without_sign(b, wide) == 0 {
        if is_negative(a, wide) && is_negative(b, wide) {
            Some(a)
        } else {
            Some(0)
        }
    } else if without_sign(a, wide) == 0 {
        Some(b)
    } else if without_sign(b, wide) == 0 {
        Some(a)
    } else {
        None
    }
}

/// The value of an initializer corrected by the value of the global that it reads.
fn correct(v: Value, g: Value) -> (r: Start)
    ensures
        r == corrected(v, g),
{
    match (g, v) {
        (Value::I32(r), Value::I32(x)) => Start::Known(Value::I32(x.wrapping_add(r))),
        (Value::I64(r), Value::I64(x)) => Start::Known(Value::I64(x.wrapping_add(r))),
        (Value::F32(r), Value::F32(x)) => match sum_easily(x as u64, r as u64, false) {
            Some(s) => Start::Known(Value::F32(s as u32)),
            None => Start::Sum(v, g),
        },
        (Value::F64(r), Value::F64(x)) => match sum_easily(x, r, true) {
            Some(s) => Start::Known(Value::F64(s)),
            None => Start::Sum(v, g),
        },
        _ => Start::Known(g),
    }
}

/// What a global starts with, given those before it.
fn start_global(g: &GlobalDef, before: &Vec<Value>) -> (r: Start)
    ensures
        r == start_of(g@, before@),
{
    match g.init_global_ref {
        Some(r) => if (r as usize) < before.len() {
            correct(g.init_value, before[r as usize])
        } else {
            Start::Known(g.init_value)
        },
        None => Start::Known(g.init_value),
    }
}

/// The values of the globals of a module. `sums` are the floating-point sums that the
/// embedder computed, in the order in which they are needed; the first that is missing
/// is the failure.
pub fn initial_globals(m: &WasmModule, sums: &[Value]) -> (r: Result<Vec<Value>, (Value, Value)>)
    ensures
        match r {
            Ok(globals) => globals_from(m@.globals, Seq::empty(), sums@) == Ok::<Seq<Value>, (Value, Value)>(globals@)
                && globals@.len() == m.globals@.len(),
            Err(x) => globals_from(m@.globals, Seq::empty(), sums@) == Err::<Seq<Value>, (Value, Value)>(x),
        },
{
    let mut done: Vec<Value> = Vec::new();
    let mut used: usize = 0;
    assert(sums@.skip(0) =~= sums@);
    while done.len() < m.globals.len()
        invariant
            done@.len() <= m.globals@.len(),
            used <= sums@.len(),
            globals_from(m@.globals, Seq::empty(), sums@) == globals_from(
                m@.globals,
                done@,
                sums@.skip(used as int),
            ),
        decreases m.globals@.len() - done@.len(),
    {
        match start_global(&m.globals[done.len()], &done) {
            Start::Known(v) => {
                done.push(v);
            },
            Start::Sum(a, b) => {
                if used == sums.len() {
                    return Err((a, b));
                }
                assert(sums@.skip(used as int).skip(1) =~= sums@.skip(used + 1));
                done.push(sums[used]);
                used = used + 1;
            },
        }
    }
    Ok(done)
}

fn needs_heap(t: ValType) -> (r: bool)
    ensures
        r == is_heap_type(t),
{
    match t {
        ValType::AnyRef | ValType::NullableAnyRef | ValType::EqRef | ValType::NullableEqRef | ValType::I31Ref => true,
        ValType::StructRef | ValType::NullableStructRef | ValType::ArrayRef | ValType::NullableArrayRef => true,
        ValType::NoneRef | ValType::NullFuncRef | ValType::NullExternRef => true,
        ValType::TypedFuncRef | ValType::NonNullableFuncRef | ValType::NullableTypedFuncRef => true,
        _ => false,
    }
}

/// Makes the globals anew that need the heap.
pub fn eval_gc_globals(m: &WasmModule, globals: &mut Vec<Value>, heap: &mut Vec<GcObject>)
    requires
        old(globals)@.len() == m.globals@.len(),
    ensures
        (final(globals)@, views(final(heap)@)) == heap_globals(m@, 0, old(globals)@, views(old(heap)@)),
        final(globals)@.len() == old(globals)@.len(),
{
    let mut i: usize = 0;
    while i < m.globals.len()
        invariant
            i <= m.globals@.len(),
            globals@.len() == m.globals@.len(),
            heap_globals(m@, 0, old(globals)@, views(old(heap)@)) == heap_globals(
                m@,
                i as int,
                globals@,
                views(heap@),
            ),
        decreases m.globals@.len() - i,
    {
        if m.globals[i].init_expr_bytes.len() > 0 && needs_heap(m.globals[i].val_type) {
            let r = eval_gc_const_expr(m, globals, heap, m.globals[i].init_expr_bytes.as_slice());
            if let Some(v) = r {
                globals[i] = v;
            }
        }
        i = i + 1;
    }
}

/// What the slots of a table hold at first.
fn first_slot(t: &TableDef, globals: &Vec<Value>) -> (r: Option<u32>)
    ensures
        r == initial_slot(t@, globals@),
{
    match &t.init_expr_bytes {
        Some(bytes) => {
            let mut pos: usize = 0;
            match eval_init_expr_with_globals(bytes.as_slice(), &mut pos, globals.as_slice()) {
                Ok(v) => slot_of_value(v),
                Err(_) => None,
            }
        },
        None => None,
    }
}

/// The tables at first.
fn make_tables(m: &WasmModule, globals: &Vec<Value>) -> (r: Vec<Vec<Option<u32>>>)
    ensures
        views(r@) == initial_tables(m@, globals@),
{
    let mut tables: Vec<Vec<Option<u32>>> = Vec::new();
    let mut i: usize = 0;
    while i < m.tables.len()
        invariant
            i <= m.tables@.len(),
            views(tables@) == initial_tables(m@, globals@).take(i as int),
        decreases m.tables@.len() - i,
    {
        let slots = filled(first_slot(&m.tables[i], globals), m.tables[i].min as usize);
        assert(slots@ =~= initial_tables(m@, globals@)[i as int]);
        tables.push(slots);
        i = i + 1;
        assert(views(tables@) =~= initial_tables(m@, globals@).take(i as int));
    }
    assert(initial_tables(m@, globals@).take(i as int) =~= initial_tables(m@, globals@));
    tables
}

fn holds_functions(t: ValType) -> (r: bool)
    ensures
        r == is_funcref(t),
{
    match t {
        ValType::FuncRef | ValType::TypedFuncRef | ValType::NonNullableFuncRef | ValType::NullableTypedFuncRef => true,
        _ => false,
    }
}

/// Whether the items of a segment refer to functions that there are.
fn items_exist(m: &WasmModule, items: &Vec<u32>) -> (r: bool)
    ensures
        r == !(exists|k: int| 0 <= k < items@.len() && !item_exists(m@, #[trigger] items@[k])),
{
    let imported: usize = m.func_import_count();
    let mut i: usize = 0;
    while i < items.len()
        invariant
            i <= items@.len(),
            imported == m@.imported_funcs().len(),
            forall|k: int| 0 <= k < i ==> item_exists(m@, #[trigger] items@[k]),
        decreases items@.len() - i,
    {
        let f: u32 = items[i];
        if f != u32::MAX && f as usize >= imported && f as usize - imported >= m.functions.len() {
            assert(!item_exists(m@, items@[i as int]));
            return false;
        }
        i = i + 1;
    }
    true
}

/// Writes the items of a segment to a table.
fn write_items(table: &mut Vec<Option<u32>>, at: usize, items: &Vec<u32>)
    requires
        at + items@.len() <= old(table)@.len(),
    ensures
        final(table)@ == splice(old(table)@, at as int, item_slots(items@)),
{
    let len: usize = table.len();
    let mut i: usize = 0;
    assert(table@ =~= splice(table@, at as int, item_slots(items@).take(0)));
    while i < items.len()
        invariant
            i <= items@.len(),
            len == table@.len(),
            len == old(table)@.len(),
            at + items@.len() <= len,
            table@ == splice(old(table)@, at as int, item_slots(items@).take(i as int)),
        decreases items@.len() - i,
    {
        let f: u32 = items[i];
        table[at + i] = if f == u32::MAX {
            None
        } else {
            Some(f)
        };
        i = i + 1;
        assert(table@ =~= splice(old(table)@, at as int, item_slots(items@).take(i as int)));
    }
    assert(item_slots(items@).take(i as int) =~= item_slots(items@));
}

/// Copies an active element segment to its table.
fn place_element(m: &WasmModule, tables: &mut Vec<Vec<Option<u32>>>, e: &ElementSegment) -> (r: Result<(), WasmError>)
    requires
        old(tables)@.len() == m.tables@.len(),
    ensures
        final(tables)@.len() == old(tables)@.len(),
        match r {
            Ok(_) => element_placed(m@, views(old(tables)@), e@) == Ok::<Seq<Seq<Option<u32>>>, WasmError>(
                views(final(tables)@),
            ),
            Err(x) => element_placed(m@, views(old(tables)@), e@) == Err::<Seq<Seq<Option<u32>>>, WasmError>(x),
        },
{
    if e.mode != ElemMode::Active {
        return Ok(());
    }
    let ti: usize = e.table_idx as usize;
    if ti >= tables.len() {
        return Err(WasmError::TableIndexOutOfBounds);
    }
    let len: usize = tables[ti].len();
    let at: usize = e.offset as usize;
    if at > len || e.func_indices.len() > len - at {
        return Err(WasmError::TableIndexOutOfBounds);
    }
    if holds_functions(m.tables[ti].elem_type) && holds_functions(e.elem_type) && !items_exist(m, &e.func_indices) {
        return Err(WasmError::UndefinedElement);
    }
    write_items(&mut tables[ti], at, &e.func_indices);
    Ok(())
}

/// Copies the active element segments.
fn place_all_elements(m: &WasmModule, tables: &mut Vec<Vec<Option<u32>>>) -> (r: Result<(), WasmError>)
    requires
        old(tables)@.len() == m.tables@.len(),
    ensures
        final(tables)@.len() == old(tables)@.len(),
        match r {
            Ok(_) => all_elements_placed(m@, views(old(tables)@), 0) == Ok::<Seq<Seq<Option<u32>>>, WasmError>(
                views(final(tables)@),
            ),
            Err(e) => all_elements_placed(m@, views(old(tables)@), 0) == Err::<Seq<Seq<Option<u32>>>, WasmError>(e),
        },
{
    let mut i: usize = 0;
    while i < m.element_segments.len()
        invariant
            i <= m.element_segments@.len(),
            tables@.len() == m.tables@.len(),
            old(tables)@.len() == m.tables@.len(),
            all_elements_placed(m@, views(old(tables)@), 0) == all_elements_placed(m@, views(tables@), i as int),
        decreases m.element_segments@.len() - i,
    {
        place_element(m, tables, &m.element_segments[i])?;
        i = i + 1;
    }
    Ok(())
}

/// The values of the items of an element segment that are expressions.
fn eval_items(m: &WasmModule, globals: &Vec<Value>, items: &Vec<Vec<u8>>, heap: &mut Vec<GcObject>) -> (r: Vec<Value>)
    ensures
        (views(final(heap)@), r@) == item_values(m@, globals@, views(items@), views(old(heap)@), Seq::empty()),
{
    let mut done: Vec<Value> = Vec::new();
    assert(done@ =~= Seq::<Value>::empty());
    while done.len() < items.len()
        invariant
            done@.len() <= items@.len(),
            item_values(m@, globals@, views(items@), views(old(heap)@), Seq::empty()) == item_values(
                m@,
                globals@,
                views(items@),
                views(heap@),
                done@,
            ),
        decreases items@.len() - done@.len(),
    {
        let k: usize = done.len();
        match eval_gc_const_expr(m, globals, heap, items[k].as_slice()) {
            Some(v) => {
                done.push(v);
            },
            None => {
                done.push(Value::NullRef);
            },
        }
    }
    done
}

/// Writes references to a table, as far as it reaches.
fn write_values(table: &mut Vec<Option<u32>>, at: usize, vals: &Vec<Value>)
    ensures
        final(table)@ == splice(old(table)@, at as int, value_slots(vals@)),
{
    let len: usize = table.len();
    let mut i: usize = 0;
    assert(table@ =~= splice(table@, at as int, value_slots(vals@).take(0)));
    while i < vals.len() && at < len && i < len - at
        invariant
            i <= vals@.len(),
            at < len ==> i <= len - at,
            at >= len ==> i == 0,
            len == table@.len(),
            len == old(table)@.len(),
            table@ == splice(old(table)@, at as int, value_slots(vals@).take(i as int)),
        decreases vals@.len() - i,
    {
        table[at + i] = slot_of_value(vals[i]);
        i = i + 1;
        assert(table@ =~= splice(old(table)@, at as int, value_slots(vals@).take(i as int)));
    }
    assert(table@ =~= splice(old(table)@, at as int, value_slots(vals@)));
}

/// Evaluates the items of the element segment numbered `i`.
fn fill_element(
    m: &WasmModule,
    globals: &Vec<Value>,
    i: usize,
    heap: &mut Vec<GcObject>,
    tables: &mut Vec<Vec<Option<u32>>>,
    elem_values: &mut Vec<Vec<Value>>,
)
    requires
        i < m.element_segments@.len(),
        m.element_segments@[i as int].item_expr_bytes@.len() > 0,
        old(elem_values)@.len() <= i || old(elem_values)@.len() == m.element_segments@.len(),
    ensures
        final(tables)@.len() == old(tables)@.len(),
        final(elem_values)@.len() == m.element_segments@.len(),
        heap_elements(
            m@,
            globals@,
            i as int,
            Filled { heap: views(old(heap)@), tables: views(old(tables)@), elem_values: views(old(elem_values)@) },
        ) == heap_elements(
            m@,
            globals@,
            i + 1,
            Filled {
                heap: views(final(heap)@),
                tables: views(final(tables)@),
                elem_values: views(final(elem_values)@),
            },
        ),
{
    let e = &m.element_segments[i];
    let vals = eval_items(m, globals, &e.item_expr_bytes, heap);
    let ghost known = if elem_values@.len() <= i {
        Seq::new(m.element_segments@.len(), |k: int| Seq::<Value>::empty())
    } else {
        views(elem_values@)
    };
    if elem_values.len() <= i {
        let mut fresh: Vec<Vec<Value>> = Vec::new();
        while fresh.len() < m.element_segments.len()
            invariant
                fresh@.len() <= m.element_segments@.len(),
                views(fresh@) == Seq::new(fresh@.len(), |k: int| Seq::<Value>::empty()),
            decreases m.element_segments@.len() - fresh@.len(),
        {
            let none: Vec<Value> = Vec::new();
            let ghost n = fresh@.len();
            fresh.push(none);
            assert(views(fresh@) =~= Seq::new(n + 1, |k: int| Seq::<Value>::empty()));
        }
        *elem_values = fresh;
    }
    assert(views(elem_values@) =~= known);
    let ti: usize = e.table_idx as usize;
    if e.mode == ElemMode::Active && ti < tables.len() {
        write_values(&mut tables[ti], e.offset as usize, &vals);
    }
    elem_values[i] = vals;
}

/// The numbers that references are held as among the items of an element segment.
fn items_of(vals: &Vec<Value>) -> (r: Vec<u32>)
    ensures
        r@ == value_items(vals@),
{
    let mut r: Vec<u32> = Vec::new();
    while r.len() < vals.len()
        invariant
            r@.len() <= vals@.len(),
            forall|i: int| 0 <= i < r@.len() ==> #[trigger] r@[i] == slot_item(value_slot(vals@[i])),
        decreases vals@.len() - r@.len(),
    {
        match slot_of_value(vals[r.len()]) {
            Some(x) => {
                r.push(x);
            },
            None => {
                r.push(u32::MAX);
            },
        }
    }
    assert(r@ =~= value_items(vals@));
    r
}

/// Puts the values of items in place of the expressions.
fn set_items(m: &mut WasmModule, values: &Vec<Vec<Value>>)
    requires
        old(m).wf(),
    ensures
        final(m)@ == with_items(old(m)@, views(values@)),
        final(m).wf(),
{
    let mut i: usize = 0;
    while i < m.element_segments.len() && i < values.len()
        invariant
            i <= m.element_segments@.len(),
            i <= values@.len(),
            m.wf(),
            m@ == (Module { element_segments: m@.element_segments, ..old(m)@ }),
            m.element_segments@.len() == old(m).element_segments@.len(),
            forall|k: int|
                0 <= k < m.element_segments@.len() ==> (#[trigger] m.element_segments@[k])@ == (if k < i {
                    with_values(old(m)@.element_segments[k], values@[k]@)
                } else {
                    old(m)@.element_segments[k]
                }),
        decreases m.element_segments@.len() - i,
    {
        if m.element_segments[i].item_expr_bytes.len() > 0 {
            let items = items_of(&values[i]);
            m.element_segments[i].func_indices = items;
        }
        i = i + 1;
    }
    assert(m@.element_segments =~= with_items(old(m)@, views(values@)).element_segments);
}

/// Evaluates the items of the element segments, and puts the values into the segments
/// and, where a segment is active, into its table.
pub fn eval_gc_elem_exprs(
    m: &mut WasmModule,
    globals: &Vec<Value>,
    heap: &mut Vec<GcObject>,
    tables: &mut Vec<Vec<Option<u32>>>,
) -> (r: Vec<Vec<Value>>)
    requires
        old(m).wf(),
    ensures
        final(m)@ == with_items(old(m)@, views(r@)),
        final(m).wf(),
        final(tables)@.len() == old(tables)@.len(),
        (Filled { heap: views(final(heap)@), tables: views(final(tables)@), elem_values: views(r@) }) == heap_elements(
            old(m)@,
            globals@,
            0,
            Filled { heap: views(old(heap)@), tables: views(old(tables)@), elem_values: Seq::empty() },
        ),
{
    let r = eval_elements(m, globals, heap, tables);
    set_items(m, &r);
    r
}

/// Evaluates the items of the element segments.
fn eval_elements(
    m: &WasmModule,
    globals: &Vec<Value>,
    heap: &mut Vec<GcObject>,
    tables: &mut Vec<Vec<Option<u32>>>,
) -> (r: Vec<Vec<Value>>)
    ensures
        final(tables)@.len() == old(tables)@.len(),
        (Filled { heap: views(final(heap)@), tables: views(final(tables)@), elem_values: views(r@) }) == heap_elements(
            m@,
            globals@,
            0,
            Filled { heap: views(old(heap)@), tables: views(old(tables)@), elem_values: Seq::empty() },
        ),
{
    let mut elem_values: Vec<Vec<Value>> = Vec::new();
    assert(views(elem_values@) =~= Seq::<Seq<Value>>::empty());
    let mut i: usize = 0;
    while i < m.element_segments.len()
        invariant
            i <= m.element_segments@.len(),
            tables@.len() == old(tables)@.len(),
            elem_values@.len() == 0 || elem_values@.len() == m.element_segments@.len(),
            heap_elements(
                m@,
                globals@,
                0,
                Filled { heap: views(old(heap)@), tables: views(old(tables)@), elem_values: Seq::empty() },
            ) == heap_elements(
                m@,
                globals@,
                i as int,
                Filled { heap: views(heap@), tables: views(tables@), elem_values: views(elem_values@) },
            ),
        decreases m.element_segments@.len() - i,
    {
        if m.element_segments[i].item_expr_bytes.len() > 0 {
            fill_element(m, globals, i, heap, tables, &mut elem_values);
        }
        i = i + 1;
    }
    elem_values
}

/// Which element segments are dropped from the start.
fn dropped_at_start(m: &WasmModule) -> (r: Vec<bool>)
    ensures
        r@ == Seq::new(
            m@.element_segments.len(),
            |i: int|
                m@.element_segments[i].mode == ElemMode::Active || m@.element_segments[i].mode == ElemMode::Declarative,
        ),
{
    let mut r: Vec<bool> = Vec::new();
    while r.len() < m.element_segments.len()
        invariant
            r@.len() <= m.element_segments@.len(),
            forall|i: int|
                0 <= i < r@.len() ==> #[trigger] r@[i] == (m@.element_segments[i].mode == ElemMode::Active
                    || m@.element_segments[i].mode == ElemMode::Declarative),
        decreases m.element_segments@.len() - r@.len(),
    {
        let mode = m.element_segments[r.len()].mode;
        r.push(mode == ElemMode::Active || mode == ElemMode::Declarative);
    }
    r
}

/// The size of each memory.
fn sizes_of(memories: &Vec<Vec<u8>>) -> (r: Vec<usize>)
    ensures
        r@.len() == memories@.len(),
        forall|i: int| 0 <= i < memories@.len() ==> #[trigger] r@[i] == memories@[i]@.len(),
{
    let mut r: Vec<usize> = Vec::new();
    while r.len() < memories.len()
        invariant
            r@.len() <= memories@.len(),
            forall|i: int| 0 <= i < r@.len() ==> #[trigger] r@[i] == memories@[i]@.len(),
        decreases memories@.len() - r@.len(),
    {
        let size: usize = memories[r.len()].len();
        r.push(size);
    }
    r
}

impl WasmInstance {
    /// An instance on which nothing has run.
    fn idle(
        module: WasmModule,
        fuel: u64,
        runtime_class: RuntimeClass,
        globals: Vec<Value>,
        tables: Vec<Vec<Option<u32>>>,
        memories: Vec<Vec<u8>>,
        gc_heap: Vec<GcObject>,
        elem_gc_values: Vec<Vec<Value>>,
    ) -> (r: Self)
        requires
            module.wf(),
            module.code@.len() + CODE_MARGIN <= usize::MAX,
        ensures
            r.wf(),
            r@ == idle(
                (Store {
                    module: module@,
                    class: runtime_class,
                    globals: globals@,
                    tables: views(tables@),
                    table_aliases: Seq::new(tables@.len(), |i: int| None),
                    dropped_elems: Seq::new(
                        module@.element_segments.len(),
                        |i: int|
                            module@.element_segments[i].mode == ElemMode::Active || module@.element_segments[i].mode
                                == ElemMode::Declarative,
                    ),
                    dropped_data: Seq::new(module@.data_segments.len(), |i: int| false),
                    memories: views(memories@),
                    heap: views(gc_heap@),
                    elem_values: views(elem_gc_values@),
                }),
                fuel,
            ),
    {
        let frame = BlockFrame::plain(0, 0, 0, 0, 0, false);
        let block_stack = filled(frame, MAX_BLOCK_DEPTH);
        assert(views(block_stack@) =~= Seq::new(
            MAX_BLOCK_DEPTH as nat,
            |i: int| Block::plain(0, 0, 0, 0, 0, false),
        ));
        let call_stack = filled(CallFrame::zero(), MAX_CALL_DEPTH);
        let dropped_elems = dropped_at_start(&module);
        let dropped_data = filled(false, module.data_segments.len());
        let table_aliases: Vec<Option<usize>> = filled(None, tables.len());
        let memory_sizes = sizes_of(&memories);
        let r = WasmInstance {
            module,
            stack: filled(Value::I32(0), MAX_STACK),
            stack_ptr: 0,
            locals: filled(Value::I32(0), MAX_TOTAL_LOCALS),
            globals,
            tables,
            table_aliases,
            dropped_elems,
            dropped_data,
            memories,
            memory_sizes,
            pc: 0,
            fuel,
            call_stack,
            call_depth: 0,
            block_stack,
            block_depth: 0,
            finished: false,
            runtime_class,
            gc_heap,
            elem_gc_values,
        };
        assert(r.stacks_wf());
        assert(r.store_wf());
        r
    }

    /// Makes an instance of a module whose globals start with these values.
    fn with_globals(module: WasmModule, fuel: u64, runtime_class: RuntimeClass, globals: Vec<Value>) -> (r: Result<
        Self,
        WasmError,
    >)
        requires
            module.wf(),
            memories_fit(module@),
            module.code@.len() + CODE_MARGIN <= usize::MAX,
            globals@.len() == module.globals@.len(),
        ensures
            makes(r, instantiated(module@, fuel, runtime_class, globals@)),
    {
        let mut globals = globals;
        let mut tables = make_tables(&module, &globals);
        place_all_elements(&module, &mut tables)?;
        let mut memories = make_memories(&module);
        place_all_data(&module, &mut memories)?;
        let mut heap: Vec<GcObject> = Vec::new();
        assert(views(heap@) =~= Seq::<Object>::empty());
        eval_gc_globals(&module, &mut globals, &mut heap);
        let mut module = module;
        let ghost given = module@;
        let elem_values = eval_gc_elem_exprs(&mut module, &globals, &mut heap, &mut tables);
        assert(Seq::new(
            module@.element_segments.len(),
            |i: int|
                module@.element_segments[i].mode == ElemMode::Active || module@.element_segments[i].mode
                    == ElemMode::Declarative,
        ) =~= Seq::new(
            given.element_segments.len(),
            |i: int|
                given.element_segments[i].mode == ElemMode::Active || given.element_segments[i].mode
                    == ElemMode::Declarative,
        ));
        Ok(WasmInstance::idle(module, fuel, runtime_class, globals, tables, memories, heap, elem_values))
    }

    /// Makes an instance of a module, in a class. `sums` are the floating-point sums that
    /// the initializers of its globals need, in the order in which they need them: as
    /// many as make [`initial_globals`] succeed.
    pub fn with_sums(module: WasmModule, fuel: u64, runtime_class: RuntimeClass, sums: &[Value]) -> (r: Result<
        Self,
        WasmError,
    >)
        requires
            module.wf(),
            memories_fit(module@),
            module.code@.len() + CODE_MARGIN <= usize::MAX,
            globals_from(module@.globals, Seq::empty(), sums@) is Ok,
        ensures
            makes(
                r,
                instantiated(
                    module@,
                    fuel,
                    runtime_class,
                    globals_from(module@.globals, Seq::empty(), sums@)->Ok_0,
                ),
            ),
    {
        let globals = initial_globals(&module, sums).unwrap();
        WasmInstance::with_globals(module, fuel, runtime_class, globals)
    }

    /// Makes an instance of a module, in a class. The globals of the module need no
    /// floating-point sum of two numbers other than zero, that is, [`initial_globals`]
    /// succeeds without sums. For other modules there is [`WasmInstance::with_sums`].
    pub fn with_class(module: WasmModule, fuel: u64, runtime_class: RuntimeClass) -> (r: Result<Self, WasmError>)
        requires
            module.wf(),
            memories_fit(module@),
            module.code@.len() + CODE_MARGIN <= usize::MAX,
            globals_from(module@.globals, Seq::empty(), Seq::empty()) is Ok,
        ensures
            makes(
                r,
                instantiated(
                    module@,
                    fuel,
                    runtime_class,
                    globals_from(module@.globals, Seq::empty(), Seq::empty())->Ok_0,
                ),
            ),
    {
        let none: [Value; 0] = [];
        assert(none@ =~= Seq::<Value>::empty());
        WasmInstance::with_sums(module, fuel, runtime_class, none.as_slice())
    }

    /// Makes an instance of a module, in the default class. As for
    /// [`WasmInstance::with_class`], the globals of the module need no floating-point sum.
    pub fn new(module: WasmModule, fuel: u64) -> (r: Result<Self, WasmError>)
        requires
            module.wf(),
            memories_fit(module@),
            module.code@.len() + CODE_MARGIN <= usize::MAX,
            globals_from(module@.globals, Seq::empty(), Seq::empty()) is Ok,
        ensures
            makes(
                r,
                instantiated(
                    module@,
                    fuel,
                    DEFAULT_RUNTIME_CLASS,
                    globals_from(module@.globals, Seq::empty(), Seq::empty())->Ok_0,
                ),
            ),
    {
        WasmInstance::with_class(module, fuel, DEFAULT_RUNTIME_CLASS)
    }
}

} // verus!
