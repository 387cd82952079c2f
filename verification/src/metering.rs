//! Fuel decides only how far a run goes, never what it computes.

use vstd::prelude::*;
use crate::atomics::{
    atomic_exchange, atomic_instruction, atomic_load, atomic_modify, atomic_notify, atomic_store,
    atomic_wait, pop_aligned, width,
};
use crate::blocks::{
    block, block_instruction, branching, conditional, delegate, end, handlers_skipped, legacy_try,
    read_clause, read_clauses, read_labels, try_table,
};
use crate::bulk::{
    bulk_instruction, data_drop, elem_drop, memory_copy, memory_fill, memory_init, sat_conversion,
    table_copy, table_fill, table_grow, table_init, table_size, wide_product, wide_sum,
};
use crate::calls::{enter, frame_dropped, invoke, leave};
use crate::exceptions::{handler, legacy_caught, reaction, table_caught, thrown, Reaction};
use crate::gc_ops::{
    array_copy, array_fill, array_get, array_init, array_len, array_new, array_new_default,
    array_new_fixed, array_new_segment, array_set, branch_on_cast, converted, gc_instruction,
    i31_get, ref_cast, ref_test, struct_get, struct_new, struct_new_default, struct_set,
};
use crate::lanes::LaneOp;
use crate::machine::{CatchClause, Machine, Outcome, MAX_CATCH_CLAUSES};
use crate::memory::memory_instruction;
use crate::numeric::is_numeric;
use crate::plain::{constant, numeric, parametric, reference, variable};
use crate::program::{step_takes_one_unit, throwing_is_free};
use crate::run::{call, fresh, run, run_without_fuel};
use crate::simd::{
    float_instruction, lane_access, lane_instruction, lane_memory, lane_op, shuffle, splat, ternary,
    vector_instruction, vector_load, vector_store,
};
use crate::step::{instruction, is_block_instruction, prefixed, step};
use crate::transfers::{call_instruction, callee, reframed, throw_instruction};
use crate::types::Value;

verus! {

impl Machine {
    /// The machine with other fuel.
    pub open spec fn with_fuel(self, fuel: u64) -> Machine {
        Machine { fuel, ..self }
    }
}

/// What was done, with the machine it leaves holding other fuel.
pub open spec fn refueled<T>(r: (Machine, T), fuel: u64) -> (Machine, T) {
    (r.0.with_fuel(fuel), r.1)
}

#[verifier::spinoff_prover]
proof fn struct_new_unmetered(m: Machine, fuel: u64)
    ensures
        struct_new(m.with_fuel(fuel)) == refueled(struct_new(m), fuel),
{
}

#[verifier::spinoff_prover]
proof fn struct_new_default_unmetered(m: Machine, fuel: u64)
    ensures
        struct_new_default(m.with_fuel(fuel)) == refueled(struct_new_default(m), fuel),
{
}

#[verifier::spinoff_prover]
proof fn struct_get_unmetered(m: Machine, fuel: u64, b: bool)
    ensures
        struct_get(m.with_fuel(fuel), b) == refueled(struct_get(m, b), fuel),
{
}

#[verifier::spinoff_prover]
proof fn struct_set_unmetered(m: Machine, fuel: u64)
    ensures
        struct_set(m.with_fuel(fuel)) == refueled(struct_set(m), fuel),
{
}

#[verifier::spinoff_prover]
proof fn array_new_unmetered(m: Machine, fuel: u64)
    ensures
        array_new(m.with_fuel(fuel)) == refueled(array_new(m), fuel),
{
}

#[verifier::spinoff_prover]
proof fn array_new_default_unmetered(m: Machine, fuel: u64)
    ensures
        array_new_default(m.with_fuel(fuel)) == refueled(array_new_default(m), fuel),
{
}

#[verifier::spinoff_prover]
proof fn array_new_fixed_unmetered(m: Machine, fuel: u64)
    ensures
        array_new_fixed(m.with_fuel(fuel)) == refueled(array_new_fixed(m), fuel),
{
}

#[verifier::spinoff_prover]
proof fn array_new_segment_unmetered(m: Machine, fuel: u64, b: bool)
    ensures
        array_new_segment(m.with_fuel(fuel), b) == refueled(array_new_segment(m, b), fuel),
{
}

#[verifier::spinoff_prover]
proof fn array_get_unmetered(m: Machine, fuel: u64, b: bool)
    ensures
        array_get(m.with_fuel(fuel), b) == refueled(array_get(m, b), fuel),
{
}

#[verifier::spinoff_prover]
proof fn array_set_unmetered(m: Machine, fuel: u64)
    ensures
        array_set(m.with_fuel(fuel)) == refueled(array_set(m), fuel),
{
}

#[verifier::spinoff_prover]
proof fn array_len_unmetered(m: Machine, fuel: u64)
    ensures
        array_len(m.with_fuel(fuel)) == refueled(array_len(m), fuel),
{
}

#[verifier::spinoff_prover]
proof fn array_fill_unmetered(m: Machine, fuel: u64)
    ensures
        array_fill(m.with_fuel(fuel)) == refueled(array_fill(m), fuel),
{
}

#[verifier::spinoff_prover]
proof fn array_copy_unmetered(m: Machine, fuel: u64)
    ensures
        array_copy(m.with_fuel(fuel)) == refueled(array_copy(m), fuel),
{
}

#[verifier::spinoff_prover]
proof fn array_init_unmetered(m: Machine, fuel: u64, b: bool)
    ensures
        array_init(m.with_fuel(fuel), b) == refueled(array_init(m, b), fuel),
{
}

#[verifier::spinoff_prover]
proof fn ref_test_unmetered(m: Machine, fuel: u64, b: bool)
    ensures
        ref_test(m.with_fuel(fuel), b) == refueled(ref_test(m, b), fuel),
{
}

#[verifier::spinoff_prover]
proof fn ref_cast_unmetered(m: Machine, fuel: u64, b: bool)
    ensures
        ref_cast(m.with_fuel(fuel), b) == refueled(ref_cast(m, b), fuel),
{
}

#[verifier::spinoff_prover]
proof fn branch_on_cast_unmetered(m: Machine, fuel: u64, b: bool)
    ensures
        branch_on_cast(m.with_fuel(fuel), b) == refueled(branch_on_cast(m, b), fuel),
{
}

#[verifier::spinoff_prover]
proof fn converted_unmetered(m: Machine, fuel: u64, b: bool)
    ensures
        converted(m.with_fuel(fuel), b) == refueled(converted(m, b), fuel),
{
}

#[verifier::spinoff_prover]
proof fn i31_get_unmetered(m: Machine, fuel: u64, b: bool)
    ensures
        i31_get(m.with_fuel(fuel), b) == refueled(i31_get(m, b), fuel),
{
}

#[verifier::spinoff_prover]
proof fn sat_conversion_unmetered(m: Machine, fuel: u64, sub: u32)
    ensures
        sat_conversion(m.with_fuel(fuel), sub) == refueled(sat_conversion(m, sub), fuel),
{
}

#[verifier::spinoff_prover]
proof fn memory_init_unmetered(m: Machine, fuel: u64)
    ensures
        memory_init(m.with_fuel(fuel)) == refueled(memory_init(m), fuel),
{
}

#[verifier::spinoff_prover]
proof fn data_drop_unmetered(m: Machine, fuel: u64)
    ensures
        data_drop(m.with_fuel(fuel)) == refueled(data_drop(m), fuel),
{
}

#[verifier::spinoff_prover]
proof fn memory_copy_unmetered(m: Machine, fuel: u64)
    ensures
        memory_copy(m.with_fuel(fuel)) == refueled(memory_copy(m), fuel),
{
}

#[verifier::spinoff_prover]
proof fn memory_fill_unmetered(m: Machine, fuel: u64)
    ensures
        memory_fill(m.with_fuel(fuel)) == refueled(memory_fill(m), fuel),
{
}

#[verifier::spinoff_prover]
proof fn table_init_unmetered(m: Machine, fuel: u64)
    ensures
        table_init(m.with_fuel(fuel)) == refueled(table_init(m), fuel),
{
}

#[verifier::spinoff_prover]
proof fn elem_drop_unmetered(m: Machine, fuel: u64)
    ensures
        elem_drop(m.with_fuel(fuel)) == refueled(elem_drop(m), fuel),
{
}

#[verifier::spinoff_prover]
proof fn table_copy_unmetered(m: Machine, fuel: u64)
    ensures
        table_copy(m.with_fuel(fuel)) == refueled(table_copy(m), fuel),
{
}

#[verifier::spinoff_prover]
proof fn table_grow_unmetered(m: Machine, fuel: u64)
    ensures
        table_grow(m.with_fuel(fuel)) == refueled(table_grow(m), fuel),
{
}

#[verifier::spinoff_prover]
proof fn table_size_unmetered(m: Machine, fuel: u64)
    ensures
        table_size(m.with_fuel(fuel)) == refueled(table_size(m), fuel),
{
}

#[verifier::spinoff_prover]
proof fn table_fill_unmetered(m: Machine, fuel: u64)
    ensures
        table_fill(m.with_fuel(fuel)) == refueled(table_fill(m), fuel),
{
}

#[verifier::spinoff_prover]
proof fn wide_sum_unmetered(m: Machine, fuel: u64, b: bool)
    ensures
        wide_sum(m.with_fuel(fuel), b) == refueled(wide_sum(m, b), fuel),
{
}

#[verifier::spinoff_prover]
proof fn wide_product_unmetered(m: Machine, fuel: u64, b: bool)
    ensures
        wide_product(m.with_fuel(fuel), b) == refueled(wide_product(m, b), fuel),
{
}

#[verifier::spinoff_prover]
proof fn atomic_notify_unmetered(m: Machine, fuel: u64)
    ensures
        atomic_notify(m.with_fuel(fuel)) == refueled(atomic_notify(m), fuel),
{
}

#[verifier::spinoff_prover]
proof fn atomic_wait_unmetered(m: Machine, fuel: u64, w: int)
    ensures
        atomic_wait(m.with_fuel(fuel), w) == refueled(atomic_wait(m, w), fuel),
{
}

#[verifier::spinoff_prover]
proof fn atomic_load_unmetered(m: Machine, fuel: u64, k: u32)
    ensures
        atomic_load(m.with_fuel(fuel), k) == refueled(atomic_load(m, k), fuel),
{
}

#[verifier::spinoff_prover]
proof fn atomic_store_unmetered(m: Machine, fuel: u64, k: u32)
    ensures
        atomic_store(m.with_fuel(fuel), k) == refueled(atomic_store(m, k), fuel),
{
}

#[verifier::spinoff_prover]
proof fn atomic_modify_unmetered(m: Machine, fuel: u64, op: u32, k: u32)
    ensures
        atomic_modify(m.with_fuel(fuel), op, k) == refueled(atomic_modify(m, op, k), fuel),
{
    let n = m.with_fuel(fuel);
    let g = m.read_memarg();
    let g2 = n.read_memarg();
    assert(g2 == (g.0.with_fuel(fuel), g.1));
    if let Ok(arg) = g.1 {
        let v = g.0.pop();
        let v2 = g2.0.pop();
        assert(v2 == (v.0.with_fuel(fuel), v.1));
        if let Ok(x) = v.1 {
            let a = pop_aligned(v.0, arg.1, width(k));
            let a2 = pop_aligned(v2.0, arg.1, width(k));
            assert(a2 == (a.0.with_fuel(fuel), a.1));
            assert(a2.0.store == a.0.store);
        }
    }
}

#[verifier::spinoff_prover]
#[verifier::rlimit(40)]
proof fn atomic_exchange_unmetered(m: Machine, fuel: u64, k: u32)
    ensures
        atomic_exchange(m.with_fuel(fuel), k) == refueled(atomic_exchange(m, k), fuel),
{
    let n = m.with_fuel(fuel);
    let g = m.read_memarg();
    let g2 = n.read_memarg();
    assert(g2 == (g.0.with_fuel(fuel), g.1));
    if let Ok(arg) = g.1 {
        let v = g.0.pop();
        let v2 = g2.0.pop();
        assert(v2 == (v.0.with_fuel(fuel), v.1));
        if let Ok(x) = v.1 {
            let e = v.0.pop();
            let e2 = v2.0.pop();
            assert(e2 == (e.0.with_fuel(fuel), e.1));
            let a = pop_aligned(e.0, arg.1, width(k));
            let a2 = pop_aligned(e2.0, arg.1, width(k));
            assert(a2 == (a.0.with_fuel(fuel), a.1));
            assert(a2.0.store == a.0.store);
        }
    }
}

#[verifier::spinoff_prover]
#[verifier::rlimit(40)]
proof fn vector_load_unmetered(m: Machine, fuel: u64, op: u32)
    ensures
        vector_load(m.with_fuel(fuel), op) == refueled(vector_load(m, op), fuel),
{
}

#[verifier::spinoff_prover]
proof fn vector_store_unmetered(m: Machine, fuel: u64)
    ensures
        vector_store(m.with_fuel(fuel)) == refueled(vector_store(m), fuel),
{
}

#[verifier::spinoff_prover]
proof fn lane_memory_unmetered(m: Machine, fuel: u64, op: u32)
    ensures
        lane_memory(m.with_fuel(fuel), op) == refueled(lane_memory(m, op), fuel),
{
}

#[verifier::spinoff_prover]
proof fn shuffle_unmetered(m: Machine, fuel: u64)
    ensures
        shuffle(m.with_fuel(fuel)) == refueled(shuffle(m), fuel),
{
}

#[verifier::spinoff_prover]
proof fn splat_unmetered(m: Machine, fuel: u64, op: u32)
    ensures
        splat(m.with_fuel(fuel), op) == refueled(splat(m, op), fuel),
{
}

#[verifier::spinoff_prover]
proof fn lane_access_unmetered(m: Machine, fuel: u64, op: u32)
    ensures
        lane_access(m.with_fuel(fuel), op) == refueled(lane_access(m, op), fuel),
{
}

#[verifier::spinoff_prover]
proof fn lane_instruction_unmetered(m: Machine, fuel: u64, l: LaneOp, w: int)
    ensures
        lane_instruction(m.with_fuel(fuel), l, w) == refueled(lane_instruction(m, l, w), fuel),
{
}

#[verifier::spinoff_prover]
proof fn float_instruction_unmetered(m: Machine, fuel: u64, op: u32)
    ensures
        float_instruction(m.with_fuel(fuel), op) == refueled(float_instruction(m, op), fuel),
{
}

#[verifier::spinoff_prover]
proof fn ternary_unmetered(m: Machine, fuel: u64, op: u32)
    ensures
        ternary(m.with_fuel(fuel), op) == refueled(ternary(m, op), fuel),
{
}

proof fn constant_unmetered(m: Machine, fuel: u64, op: u8)
    ensures
        constant(m.with_fuel(fuel), op) == refueled(constant(m, op), fuel),
{
}

#[verifier::spinoff_prover]
proof fn numeric_unmetered(m: Machine, fuel: u64, op: u8)
    ensures
        numeric(m.with_fuel(fuel), op) == refueled(numeric(m, op), fuel),
{
}

#[verifier::spinoff_prover]
proof fn parametric_unmetered(m: Machine, fuel: u64, op: u8)
    ensures
        parametric(m.with_fuel(fuel), op) == refueled(parametric(m, op), fuel),
{
}

#[verifier::spinoff_prover]
proof fn reference_unmetered(m: Machine, fuel: u64, op: u8)
    ensures
        reference(m.with_fuel(fuel), op) == refueled(reference(m, op), fuel),
{
}

#[verifier::spinoff_prover]
proof fn variable_unmetered(m: Machine, fuel: u64, op: u8)
    ensures
        variable(m.with_fuel(fuel), op) == refueled(variable(m, op), fuel),
{
}

#[verifier::spinoff_prover]
#[verifier::rlimit(40)]
proof fn memory_instruction_unmetered(m: Machine, fuel: u64, op: u8)
    ensures
        memory_instruction(m.with_fuel(fuel), op) == refueled(memory_instruction(m, op), fuel),
{
}

#[verifier::spinoff_prover]
proof fn block_unmetered(m: Machine, fuel: u64, b: bool)
    ensures
        block(m.with_fuel(fuel), b) == refueled(block(m, b), fuel),
{
}

#[verifier::spinoff_prover]
proof fn conditional_unmetered(m: Machine, fuel: u64)
    ensures
        conditional(m.with_fuel(fuel)) == refueled(conditional(m), fuel),
{
}

#[verifier::spinoff_prover]
proof fn legacy_try_unmetered(m: Machine, fuel: u64)
    ensures
        legacy_try(m.with_fuel(fuel)) == refueled(legacy_try(m), fuel),
{
}

proof fn handlers_skipped_unmetered(m: Machine, fuel: u64)
    ensures
        handlers_skipped(m.with_fuel(fuel)) == refueled(handlers_skipped(m), fuel),
{
}

proof fn delegate_unmetered(m: Machine, fuel: u64)
    ensures
        delegate(m.with_fuel(fuel)) == refueled(delegate(m), fuel),
{
}

proof fn end_unmetered(m: Machine, fuel: u64)
    ensures
        end(m.with_fuel(fuel)) == refueled(end(m), fuel),
{
}

proof fn leave_unmetered(m: Machine, fuel: u64)
    ensures
        leave(m.with_fuel(fuel)) == refueled(leave(m), fuel),
{
}

#[verifier::spinoff_prover]
proof fn invoke_unmetered(m: Machine, fuel: u64, f: u32)
    ensures
        invoke(m.with_fuel(fuel), f) == refueled(invoke(m, f), fuel),
{
}

#[verifier::spinoff_prover]
proof fn callee_unmetered(m: Machine, fuel: u64, op: u8)
    ensures
        callee(m.with_fuel(fuel), op) == refueled(callee(m, op), fuel),
{
}

proof fn reframed_unmetered(m: Machine, fuel: u64, n: int)
    ensures
        reframed(m.with_fuel(fuel), n) == refueled(reframed(m, n), fuel),
{
}

proof fn legacy_caught_unmetered(
    m: Machine,
    fuel: u64,
    i: int,
    ci: int,
    tag: u32,
    values: Seq<Value>,
)
    ensures
        legacy_caught(m.with_fuel(fuel), i, ci, tag, values) == legacy_caught(
            m,
            i,
            ci,
            tag,
            values,
        ).with_fuel(fuel),
{
}

#[verifier::spinoff_prover]
proof fn table_caught_unmetered(
    m: Machine,
    fuel: u64,
    i: int,
    ci: int,
    tag: u32,
    values: Seq<Value>,
)
    ensures
        table_caught(m.with_fuel(fuel), i, ci, tag, values) == refueled(
            table_caught(m, i, ci, tag, values),
            fuel,
        ),
{
}

proof fn handler_unmetered(m: Machine, fuel: u64, idx: int, base: int, tag: u32)
    ensures
        handler(m.with_fuel(fuel), idx, base, tag) == handler(m, idx, base, tag),
    decreases idx,
{
    if idx > base && idx > 0 {
        if let Reaction::Pass(skip) = reaction(m.store.module, m.frames.blocks[idx - 1], tag) {
            if 0 <= skip <= idx - 1 {
                handler_unmetered(m, fuel, idx - 1 - skip, base, tag);
            }
        }
    }
}

proof fn thrown_unmetered(m: Machine, fuel: u64, tag: u32, values: Seq<Value>)
    ensures
        thrown(m.with_fuel(fuel), tag, values) == refueled(thrown(m, tag, values), fuel),
    decreases m.frames.call_depth,
{
    handler_unmetered(m, fuel, m.frames.block_depth, m.block_base(), tag);
    if let Some((i, ci)) = handler(m, m.frames.block_depth, m.block_base(), tag) {
        legacy_caught_unmetered(m, fuel, i, ci, tag, values);
        table_caught_unmetered(m, fuel, i, ci, tag, values);
    } else if m.frames.call_depth > 1 {
        thrown_unmetered(frame_dropped(m), fuel, tag, values);
        assert(frame_dropped(m.with_fuel(fuel)) == frame_dropped(m).with_fuel(fuel));
    }
}

proof fn labels_unmetered(m: Machine, fuel: u64, n: nat, read: Seq<u32>)
    ensures
        read_labels(m.with_fuel(fuel), n, read) == refueled(read_labels(m, n, read), fuel),
    decreases n,
{
    if n > 0 {
        let r = m.read_u32();
        assert(m.with_fuel(fuel).read_u32() == (r.0.with_fuel(fuel), r.1));
        if let Ok(l) = r.1 {
            labels_unmetered(r.0, fuel, (n - 1) as nat, read.push(l));
        }
    }
}

proof fn clause_unmetered(m: Machine, fuel: u64)
    ensures
        read_clause(m.with_fuel(fuel)) == refueled(read_clause(m), fuel),
{
}

proof fn clauses_unmetered(m: Machine, fuel: u64, n: nat, read: Seq<CatchClause>)
    ensures
        read_clauses(m.with_fuel(fuel), n, read) == refueled(read_clauses(m, n, read), fuel),
    decreases n,
{
    if n > 0 {
        clause_unmetered(m, fuel);
        let r = read_clause(m);
        if let Ok(c) = r.1 {
            clauses_unmetered(
                r.0,
                fuel,
                (n - 1) as nat,
                if read.len() < MAX_CATCH_CLAUSES {
                    read.push(c)
                } else {
                    read
                },
            );
        }
    }
}

#[verifier::spinoff_prover]
proof fn branching_unmetered(m: Machine, fuel: u64, op: u8)
    ensures
        branching(m.with_fuel(fuel), op) == refueled(branching(m, op), fuel),
{
    let c = m.read_u32();
    if let Ok(n) = c.1 {
        let i = c.0.pop_i32();
        labels_unmetered(i.0, fuel, n as nat + 1, Seq::empty());
        assert(c.0.with_fuel(fuel).pop_i32() == (i.0.with_fuel(fuel), i.1));
    }
}

#[verifier::spinoff_prover]
proof fn try_table_unmetered(m: Machine, fuel: u64)
    ensures
        try_table(m.with_fuel(fuel)) == refueled(try_table(m), fuel),
{
    let t = m.read_block_type();
    if let Ok(bt) = t.1 {
        let c = t.0.read_u32();
        if let Ok(n) = c.1 {
            clauses_unmetered(c.0, fuel, n as nat, Seq::empty());
            assert(t.0.with_fuel(fuel).read_u32() == (c.0.with_fuel(fuel), c.1));
        }
    }
}

#[verifier::spinoff_prover]
proof fn throw_instruction_unmetered(m: Machine, fuel: u64, op: u8)
    ensures
        throw_instruction(m.with_fuel(fuel), op) == refueled(throw_instruction(m, op), fuel),
{
    let r = m.read_u32();
    assert(m.with_fuel(fuel).read_u32() == (r.0.with_fuel(fuel), r.1));
    if let Ok(label) = r.1 {
        let b = r.0.frames.blocks[r.0.frames.block_depth - 1 - label];
        thrown_unmetered(r.0, fuel, b.legacy_exception_tag, b.legacy_exception_values);
    }
}

#[verifier::spinoff_prover]
proof fn call_instruction_unmetered(m: Machine, fuel: u64, op: u8)
    ensures
        call_instruction(m.with_fuel(fuel), op) == refueled(call_instruction(m, op), fuel),
{
    callee_unmetered(m, fuel, op);
    let c = callee(m, op);
    if let Ok((f, n)) = c.1 {
        invoke_unmetered(c.0, fuel, f);
        reframed_unmetered(c.0, fuel, n);
        invoke_unmetered(reframed(c.0, n).0, fuel, f);
    }
}

#[verifier::spinoff_prover]
proof fn gc_unmetered(m: Machine, fuel: u64, sub: u32)
    ensures
        gc_instruction(m.with_fuel(fuel), sub) == refueled(gc_instruction(m, sub), fuel),
{
    match sub {
        0 => struct_new_unmetered(m, fuel),
        1 => struct_new_default_unmetered(m, fuel),
        2 | 4 => struct_get_unmetered(m, fuel, false),
        3 => struct_get_unmetered(m, fuel, true),
        5 => struct_set_unmetered(m, fuel),
        6 => array_new_unmetered(m, fuel),
        7 => array_new_default_unmetered(m, fuel),
        8 => array_new_fixed_unmetered(m, fuel),
        9 => array_new_segment_unmetered(m, fuel, true),
        10 => array_new_segment_unmetered(m, fuel, false),
        11 | 13 => array_get_unmetered(m, fuel, false),
        12 => array_get_unmetered(m, fuel, true),
        14 => array_set_unmetered(m, fuel),
        15 => array_len_unmetered(m, fuel),
        16 => array_fill_unmetered(m, fuel),
        17 => array_copy_unmetered(m, fuel),
        18 => array_init_unmetered(m, fuel, true),
        19 => array_init_unmetered(m, fuel, false),
        20 => ref_test_unmetered(m, fuel, false),
        21 => ref_test_unmetered(m, fuel, true),
        22 => ref_cast_unmetered(m, fuel, false),
        23 => ref_cast_unmetered(m, fuel, true),
        24 => branch_on_cast_unmetered(m, fuel, false),
        25 => branch_on_cast_unmetered(m, fuel, true),
        26 => converted_unmetered(m, fuel, true),
        27 => converted_unmetered(m, fuel, false),
        29 => i31_get_unmetered(m, fuel, true),
        30 => i31_get_unmetered(m, fuel, false),
        _ => {},
    }
}

#[verifier::spinoff_prover]
proof fn bulk_unmetered(m: Machine, fuel: u64, sub: u32)
    ensures
        bulk_instruction(m.with_fuel(fuel), sub) == refueled(bulk_instruction(m, sub), fuel),
{
    match sub {
        0 | 1 | 2 | 3 | 4 | 5 | 6 | 7 => sat_conversion_unmetered(m, fuel, sub),
        8 => memory_init_unmetered(m, fuel),
        9 => data_drop_unmetered(m, fuel),
        10 => memory_copy_unmetered(m, fuel),
        11 => memory_fill_unmetered(m, fuel),
        12 => table_init_unmetered(m, fuel),
        13 => elem_drop_unmetered(m, fuel),
        14 => table_copy_unmetered(m, fuel),
        15 => table_grow_unmetered(m, fuel),
        16 => table_size_unmetered(m, fuel),
        17 => table_fill_unmetered(m, fuel),
        0x13 => wide_sum_unmetered(m, fuel, false),
        0x14 => wide_sum_unmetered(m, fuel, true),
        0x15 => wide_product_unmetered(m, fuel, false),
        0x16 => wide_product_unmetered(m, fuel, true),
        _ => {},
    }
}

#[verifier::spinoff_prover]
proof fn atomic_unmetered(m: Machine, fuel: u64, sub: u32)
    ensures
        atomic_instruction(m.with_fuel(fuel), sub) == refueled(atomic_instruction(m, sub), fuel),
{
    if sub == 0 {
        atomic_notify_unmetered(m, fuel);
    } else if sub == 1 {
        atomic_wait_unmetered(m, fuel, 4);
    } else if sub == 2 {
        atomic_wait_unmetered(m, fuel, 8);
    } else if 0x10 <= sub <= 0x16 {
        atomic_load_unmetered(m, fuel, (sub - 0x10) as u32);
    } else if 0x17 <= sub <= 0x1D {
        atomic_store_unmetered(m, fuel, (sub - 0x17) as u32);
    } else if 0x1E <= sub <= 0x47 {
        atomic_modify_unmetered(m, fuel, ((sub - 0x1E) / 7) as u32, ((sub - 0x1E) % 7) as u32);
    } else if 0x48 <= sub <= 0x4E {
        atomic_exchange_unmetered(m, fuel, (sub - 0x48) as u32);
    }
}

#[verifier::spinoff_prover]
#[verifier::rlimit(40)]
proof fn vector_unmetered(m: Machine, fuel: u64, op: u32)
    ensures
        vector_instruction(m.with_fuel(fuel), op) == refueled(vector_instruction(m, op), fuel),
{
    vector_load_unmetered(m, fuel, op);
    vector_store_unmetered(m, fuel);
    lane_memory_unmetered(m, fuel, op);
    shuffle_unmetered(m, fuel);
    splat_unmetered(m, fuel, op);
    lane_access_unmetered(m, fuel, op);
    ternary_unmetered(m, fuel, op);
    float_instruction_unmetered(m, fuel, op);
    if let Some((l, w)) = lane_op(op) {
        lane_instruction_unmetered(m, fuel, l, w);
    }
}

#[verifier::spinoff_prover]
proof fn block_instruction_unmetered(m: Machine, fuel: u64, op: u8)
    ensures
        block_instruction(m.with_fuel(fuel), op) == refueled(block_instruction(m, op), fuel),
{
    match op {
        0x02 => block_unmetered(m, fuel, false),
        0x03 => block_unmetered(m, fuel, true),
        0x04 => conditional_unmetered(m, fuel),
        0x06 => legacy_try_unmetered(m, fuel),
        0x07 => handlers_skipped_unmetered(m.read_u32().0, fuel),
        0x0C | 0x0D | 0x0E => branching_unmetered(m, fuel, op),
        0x18 => delegate_unmetered(m, fuel),
        0x19 => handlers_skipped_unmetered(m, fuel),
        0x1F => try_table_unmetered(m, fuel),
        _ => {},
    }
}

#[verifier::spinoff_prover]
proof fn prefixed_unmetered(m: Machine, fuel: u64, prefix: u8)
    ensures
        prefixed(m.with_fuel(fuel), prefix) == refueled(prefixed(m, prefix), fuel),
{
    let r = m.read_u32();
    assert(m.with_fuel(fuel).read_u32() == (r.0.with_fuel(fuel), r.1));
    if let Ok(sub) = r.1 {
        match prefix {
            0xFB => gc_unmetered(r.0, fuel, sub),
            0xFC => bulk_unmetered(r.0, fuel, sub),
            0xFD => vector_unmetered(r.0, fuel, sub),
            _ => atomic_unmetered(r.0, fuel, sub),
        }
    }
}

#[verifier::spinoff_prover]
proof fn instruction_unmetered(m: Machine, fuel: u64, op: u8)
    ensures
        instruction(m.with_fuel(fuel), op) == refueled(instruction(m, op), fuel),
{
    reveal(instruction);
    if is_block_instruction(op) {
        block_instruction_unmetered(m, fuel, op);
    } else if 0x08 <= op <= 0x0A {
        throw_instruction_unmetered(m, fuel, op);
    } else if op == 0x0B {
        end_unmetered(m, fuel);
    } else if op == 0x0F {
        leave_unmetered(m, fuel);
    } else if 0x10 <= op <= 0x15 {
        call_instruction_unmetered(m, fuel, op);
    } else if 0x1A <= op <= 0x1C {
        parametric_unmetered(m, fuel, op);
    } else if 0x20 <= op <= 0x26 {
        variable_unmetered(m, fuel, op);
    } else if 0x28 <= op <= 0x40 {
        memory_instruction_unmetered(m, fuel, op);
    } else if 0x41 <= op <= 0x44 {
        constant_unmetered(m, fuel, op);
    } else if is_numeric(op) {
        numeric_unmetered(m, fuel, op);
    } else if 0xD0 <= op <= 0xD6 {
        reference_unmetered(m, fuel, op);
    } else if 0xFB <= op <= 0xFE {
        prefixed_unmetered(m, fuel, op);
    }
}

/// What a step does depends on the fuel only in that there must be some.
pub proof fn step_ignores_amount(m: Machine, a: u64, b: u64)
    requires
        a > 0,
        b > 0,
    ensures
        step(m.with_fuel(b)) == refueled(step(m.with_fuel(a)), (b - 1) as u64),
{
    let p = m.with_fuel((a - 1) as u64);
    leave_unmetered(p, (b - 1) as u64);
    let r = p.read_byte();
    assert(p.with_fuel((b - 1) as u64) == m.with_fuel((b - 1) as u64));
    assert(m.with_fuel((b - 1) as u64).read_byte() == (r.0.with_fuel((b - 1) as u64), r.1));
    if let Ok(op) = r.1 {
        instruction_unmetered(r.0, (b - 1) as u64, op);
    }
}

/// A run that stops for want of fuel and goes on with more ends as it would have ended
/// with all the fuel at once.
pub proof fn run_in_two_parts(m: Machine, a: u64, b: u64)
    requires
        a + b <= u64::MAX,
        run(m.with_fuel(a)).1 is OutOfFuel,
    ensures
        run(m.with_fuel((a + b) as u64)) == run(run(m.with_fuel(a)).0.with_fuel(b)),
    decreases a,
{
    if a == 0 {
        run_without_fuel(m.with_fuel(0));
        assert(m.with_fuel(0).with_fuel(b) == m.with_fuel(b));
    } else {
        let all = (a + b) as u64;
        step_ignores_amount(m, a, all);
        step_takes_one_unit(m.with_fuel(a));
        step_takes_one_unit(m.with_fuel(all));
        let s = step(m.with_fuel(a));
        match s.1 {
            Outcome::Completed => {
                if !s.0.finished {
                    assert(s.0.with_fuel((a - 1) as u64) == s.0);
                    run_in_two_parts(s.0, (a - 1) as u64, b);
                }
            },
            Outcome::Exception(tag, values) => {
                let t = thrown(s.0, tag, values);
                thrown_unmetered(s.0, (all - 1) as u64, tag, values);
                throwing_is_free(s.0, tag, values);
                if t.1 {
                    assert(t.0.with_fuel((a - 1) as u64) == t.0);
                    run_in_two_parts(t.0, (a - 1) as u64, b);
                }
            },
            _ => {},
        }
    }
}

/// A run that ends with fuel to spare ends the same with more fuel, and leaves that much
/// more of it.
pub proof fn more_fuel_changes_nothing(m: Machine, a: u64, b: u64)
    requires
        a + b <= u64::MAX,
        !(run(m.with_fuel(a)).1 is OutOfFuel),
    ensures
        run(m.with_fuel((a + b) as u64)) == refueled(
            run(m.with_fuel(a)),
            (run(m.with_fuel(a)).0.fuel + b) as u64,
        ),
    decreases a,
{
    if a == 0 {
        run_without_fuel(m.with_fuel(0));
    } else {
        let all = (a + b) as u64;
        step_ignores_amount(m, a, all);
        step_takes_one_unit(m.with_fuel(a));
        step_takes_one_unit(m.with_fuel(all));
        let s = step(m.with_fuel(a));
        match s.1 {
            Outcome::Completed => {
                if !s.0.finished {
                    assert(s.0.with_fuel((a - 1) as u64) == s.0);
                    more_fuel_changes_nothing(s.0, (a - 1) as u64, b);
                }
            },
            Outcome::Exception(tag, values) => {
                let t = thrown(s.0, tag, values);
                thrown_unmetered(s.0, (all - 1) as u64, tag, values);
                throwing_is_free(s.0, tag, values);
                if t.1 {
                    assert(t.0.with_fuel((a - 1) as u64) == t.0);
                    more_fuel_changes_nothing(t.0, (a - 1) as u64, b);
                }
            },
            _ => {},
        }
    }
}

/// A call from outside that stops for want of fuel and goes on with more ends as it
/// would have ended with all the fuel at once.
pub proof fn call_in_two_parts(m: Machine, a: u64, b: u64, f: u32, args: Seq<Value>)
    requires
        a + b <= u64::MAX,
        call(m.with_fuel(a), f, args).1 is OutOfFuel,
    ensures
        call(m.with_fuel((a + b) as u64), f, args) == run(
            call(m.with_fuel(a), f, args).0.with_fuel(b),
        ),
{
    let all = (a + b) as u64;
    let p = fresh(m).push_many(args);
    assert(fresh(m.with_fuel(a)).push_many(args) == refueled(p, a));
    assert(fresh(m.with_fuel(all)).push_many(args) == refueled(p, all));
    invoke_unmetered(p.0, a, f);
    invoke_unmetered(p.0, all, f);
    if p.1 is Ok && f >= m.store.module.imported_funcs().len() {
        let e = enter(p.0, f);
        if e.1 is Ok {
            run_in_two_parts(e.0, a, b);
        }
    }
}

} // verus!
