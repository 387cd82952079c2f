//! What executing an instruction leaves alone: the module, the class and the fuel.

use vstd::prelude::*;
use crate::atomics::{
    atomic_exchange, atomic_instruction, atomic_load, atomic_modify, atomic_notify, atomic_store, atomic_wait,
};
use crate::blocks::{
    block, block_instruction, branching, conditional, delegate, end, handlers_skipped, legacy_try,
    read_clause, read_clauses, read_labels, try_table,
};
use crate::bulk::{
    bulk_instruction, data_drop, elem_drop, memory_copy, memory_fill, memory_init, sat_conversion, table_copy,
    table_fill, table_grow, table_init, table_size, wide_product, wide_sum,
};
use crate::calls::{carried_out, frame_dropped, invoke, leave};
use crate::exceptions::thrown;
use crate::gc_ops::{
    array_copy, array_fill, array_get, array_init, array_len, array_new, array_new_default, array_new_fixed,
    array_new_segment, array_set, branch_on_cast, converted, gc_instruction, i31_get, ref_cast, ref_test,
    struct_get, struct_new, struct_new_default, struct_set,
};
use crate::lanes::LaneOp;
use crate::machine::{CatchClause, Done, Machine, Outcome, MAX_CATCH_CLAUSES};
use crate::memory::{memory_instruction, pop_address};
use crate::plain::{constant, numeric, parametric, reference, variable};
use crate::simd::{
    float_instruction, lane_access, lane_instruction, lane_memory, lane_op, shuffle, splat, ternary,
    vector_instruction, vector_load, vector_move, vector_store,
};
use crate::step::{instruction, is_block_instruction, prefixed, step};
use crate::transfers::{call_instruction, callee, reframed, tail_call, throw_instruction};
use crate::types::Value;

verus! {

/// Whether two machines run the same module in the same class with the same fuel.
pub open spec fn same_program(a: Machine, b: Machine) -> bool {
    &&& a.fuel == b.fuel
    &&& a.store.module == b.store.module
    &&& a.store.class == b.store.class
}

proof fn struct_new_keeps(m: Machine)
    ensures
        same_program(m, struct_new(m).0),
{
}

proof fn struct_new_default_keeps(m: Machine)
    ensures
        same_program(m, struct_new_default(m).0),
{
}

proof fn struct_get_keeps(m: Machine, b: bool)
    ensures
        same_program(m, struct_get(m, b).0),
{
}

proof fn struct_set_keeps(m: Machine)
    ensures
        same_program(m, struct_set(m).0),
{
}

proof fn array_new_keeps(m: Machine)
    ensures
        same_program(m, array_new(m).0),
{
}

proof fn array_new_default_keeps(m: Machine)
    ensures
        same_program(m, array_new_default(m).0),
{
}

proof fn array_new_fixed_keeps(m: Machine)
    ensures
        same_program(m, array_new_fixed(m).0),
{
}

proof fn array_new_segment_keeps(m: Machine, b: bool)
    ensures
        same_program(m, array_new_segment(m, b).0),
{
}

proof fn array_get_keeps(m: Machine, b: bool)
    ensures
        same_program(m, array_get(m, b).0),
{
}

proof fn array_set_keeps(m: Machine)
    ensures
        same_program(m, array_set(m).0),
{
}

proof fn array_len_keeps(m: Machine)
    ensures
        same_program(m, array_len(m).0),
{
}

proof fn array_fill_keeps(m: Machine)
    ensures
        same_program(m, array_fill(m).0),
{
}

proof fn array_copy_keeps(m: Machine)
    ensures
        same_program(m, array_copy(m).0),
{
}

proof fn array_init_keeps(m: Machine, b: bool)
    ensures
        same_program(m, array_init(m, b).0),
{
}

proof fn ref_test_keeps(m: Machine, b: bool)
    ensures
        same_program(m, ref_test(m, b).0),
{
}

proof fn ref_cast_keeps(m: Machine, b: bool)
    ensures
        same_program(m, ref_cast(m, b).0),
{
}

proof fn branch_on_cast_keeps(m: Machine, b: bool)
    ensures
        same_program(m, branch_on_cast(m, b).0),
{
}

proof fn converted_keeps(m: Machine, b: bool)
    ensures
        same_program(m, converted(m, b).0),
{
}

proof fn i31_get_keeps(m: Machine, b: bool)
    ensures
        same_program(m, i31_get(m, b).0),
{
}

proof fn sat_conversion_keeps(m: Machine, sub: u32)
    ensures
        same_program(m, sat_conversion(m, sub).0),
{
}

proof fn memory_init_keeps(m: Machine)
    ensures
        same_program(m, memory_init(m).0),
{
}

proof fn data_drop_keeps(m: Machine)
    ensures
        same_program(m, data_drop(m).0),
{
}

proof fn memory_copy_keeps(m: Machine)
    ensures
        same_program(m, memory_copy(m).0),
{
}

proof fn memory_fill_keeps(m: Machine)
    ensures
        same_program(m, memory_fill(m).0),
{
}

proof fn table_init_keeps(m: Machine)
    ensures
        same_program(m, table_init(m).0),
{
}

proof fn elem_drop_keeps(m: Machine)
    ensures
        same_program(m, elem_drop(m).0),
{
}

proof fn table_copy_keeps(m: Machine)
    ensures
        same_program(m, table_copy(m).0),
{
}

proof fn table_grow_keeps(m: Machine)
    ensures
        same_program(m, table_grow(m).0),
{
}

proof fn table_size_keeps(m: Machine)
    ensures
        same_program(m, table_size(m).0),
{
}

proof fn table_fill_keeps(m: Machine)
    ensures
        same_program(m, table_fill(m).0),
{
}

proof fn wide_sum_keeps(m: Machine, b: bool)
    ensures
        same_program(m, wide_sum(m, b).0),
{
}

proof fn wide_product_keeps(m: Machine, b: bool)
    ensures
        same_program(m, wide_product(m, b).0),
{
}

proof fn atomic_notify_keeps(m: Machine)
    ensures
        same_program(m, atomic_notify(m).0),
{
}

proof fn atomic_wait_keeps(m: Machine, w: int)
    ensures
        same_program(m, atomic_wait(m, w).0),
{
}

proof fn atomic_load_keeps(m: Machine, k: u32)
    ensures
        same_program(m, atomic_load(m, k).0),
{
}

proof fn atomic_store_keeps(m: Machine, k: u32)
    ensures
        same_program(m, atomic_store(m, k).0),
{
}

proof fn atomic_modify_keeps(m: Machine, op: u32, k: u32)
    ensures
        same_program(m, atomic_modify(m, op, k).0),
{
}

#[verifier::rlimit(40)]
proof fn atomic_exchange_keeps(m: Machine, k: u32)
    ensures
        same_program(m, atomic_exchange(m, k).0),
{
}

proof fn vector_load_keeps(m: Machine, op: u32)
    ensures
        same_program(m, vector_load(m, op).0),
{
}

proof fn vector_store_keeps(m: Machine)
    ensures
        same_program(m, vector_store(m).0),
{
}

#[verifier::rlimit(40)]
proof fn lane_memory_keeps(m: Machine, op: u32)
    ensures
        same_program(m, lane_memory(m, op).0),
{
    let g = m.read_memarg();
    let l = g.0.read_byte();
    let v = l.0.pop_v128();
    assert(same_program(m, g.0) && same_program(g.0, l.0) && same_program(l.0, v.0));
    if let Ok(arg) = g.1 {
        let a = pop_address(v.0, arg.1);
        assert(same_program(v.0, a.0));
    }
}

proof fn shuffle_keeps(m: Machine)
    ensures
        same_program(m, shuffle(m).0),
{
}

proof fn splat_keeps(m: Machine, op: u32)
    ensures
        same_program(m, splat(m, op).0),
{
}

proof fn lane_access_keeps(m: Machine, op: u32)
    ensures
        same_program(m, lane_access(m, op).0),
{
}

proof fn lane_instruction_keeps(m: Machine, l: LaneOp, w: int)
    ensures
        same_program(m, lane_instruction(m, l, w).0),
{
}

proof fn float_instruction_keeps(m: Machine, op: u32)
    ensures
        same_program(m, float_instruction(m, op).0),
{
}

proof fn ternary_keeps(m: Machine, op: u32)
    ensures
        same_program(m, ternary(m, op).0),
{
}

proof fn memory_keeps(m: Machine, op: u8)
    ensures
        same_program(m, memory_instruction(m, op).0),
{
}

proof fn plain_keeps(m: Machine, op: u8)
    ensures
        same_program(m, constant(m, op).0),
        same_program(m, numeric(m, op).0),
        same_program(m, parametric(m, op).0),
        same_program(m, reference(m, op).0),
        same_program(m, variable(m, op).0),
{
}

proof fn throw_keeps(m: Machine, tag: u32, values: Seq<Value>)
    ensures
        same_program(m, thrown(m, tag, values).0),
    decreases m.frames.call_depth,
{
    if m.frames.call_depth > 1 {
        throw_keeps(frame_dropped(m), tag, values);
    }
}

proof fn labels_keep(m: Machine, n: nat, read: Seq<u32>)
    ensures
        same_program(m, read_labels(m, n, read).0),
    decreases n,
{
    if n > 0 {
        if let Ok(l) = m.read_u32().1 {
            labels_keep(m.read_u32().0, (n - 1) as nat, read.push(l));
        }
    }
}

proof fn clauses_keep(m: Machine, n: nat, read: Seq<CatchClause>)
    ensures
        same_program(m, read_clauses(m, n, read).0),
    decreases n,
{
    if n > 0 {
        let r = read_clause(m);
        if let Ok(c) = r.1 {
            clauses_keep(
                r.0,
                (n - 1) as nat,
                if read.len() < MAX_CATCH_CLAUSES {
                    read.push(c)
                } else {
                    read
                },
            );
        }
    }
}

proof fn block_keeps_one(m: Machine, b: bool)
    ensures
        same_program(m, block(m, b).0),
{
}

proof fn conditional_keeps(m: Machine)
    ensures
        same_program(m, conditional(m).0),
{
}

proof fn legacy_try_keeps(m: Machine)
    ensures
        same_program(m, legacy_try(m).0),
{
}

proof fn handlers_skipped_keeps(m: Machine)
    ensures
        same_program(m, handlers_skipped(m).0),
{
}

proof fn delegate_keeps(m: Machine)
    ensures
        same_program(m, delegate(m).0),
{
}

proof fn end_keeps(m: Machine)
    ensures
        same_program(m, end(m).0),
{
}

proof fn leave_keeps(m: Machine)
    ensures
        same_program(m, leave(m).0),
{
}

proof fn invoke_keeps(m: Machine, f: u32)
    ensures
        same_program(m, invoke(m, f).0),
{
}

proof fn callee_keeps(m: Machine, op: u8)
    ensures
        same_program(m, callee(m, op).0),
{
}

proof fn reframed_keeps(m: Machine, n: int)
    ensures
        same_program(m, reframed(m, n).0),
{
}

proof fn branching_keeps(m: Machine, op: u8)
    ensures
        same_program(m, branching(m, op).0),
{
    assert forall|m1: Machine, n: nat| same_program(m1, #[trigger] read_labels(m1, n, Seq::empty()).0) by {
        labels_keep(m1, n, Seq::empty());
    }
}

proof fn try_table_keeps(m: Machine)
    ensures
        same_program(m, try_table(m).0),
{
    assert forall|m1: Machine, n: nat| same_program(m1, #[trigger] read_clauses(m1, n, Seq::empty()).0) by {
        clauses_keep(m1, n, Seq::empty());
    }
}

proof fn tail_call_keeps(m: Machine, f: u32, n: int)
    ensures
        same_program(m, tail_call(m, f, n).0),
{
    reframed_keeps(m, n);
    invoke_keeps(reframed(m, n).0, f);
}

proof fn throw_instruction_keeps(m: Machine, op: u8)
    ensures
        same_program(m, throw_instruction(m, op).0),
{
    assert forall|m1: Machine, tag: u32, values: Seq<Value>| same_program(m1, #[trigger] thrown(m1, tag, values).0) by {
        throw_keeps(m1, tag, values);
    }
}

proof fn gc_keeps(m: Machine, sub: u32)
    ensures
        same_program(m, gc_instruction(m, sub).0),
{
    match sub {
        0 => struct_new_keeps(m),
        1 => struct_new_default_keeps(m),
        2 | 4 => struct_get_keeps(m, false),
        3 => struct_get_keeps(m, true),
        5 => struct_set_keeps(m),
        6 => array_new_keeps(m),
        7 => array_new_default_keeps(m),
        8 => array_new_fixed_keeps(m),
        9 => array_new_segment_keeps(m, true),
        10 => array_new_segment_keeps(m, false),
        11 | 13 => array_get_keeps(m, false),
        12 => array_get_keeps(m, true),
        14 => array_set_keeps(m),
        15 => array_len_keeps(m),
        16 => array_fill_keeps(m),
        17 => array_copy_keeps(m),
        18 => array_init_keeps(m, true),
        19 => array_init_keeps(m, false),
        20 => ref_test_keeps(m, false),
        21 => ref_test_keeps(m, true),
        22 => ref_cast_keeps(m, false),
        23 => ref_cast_keeps(m, true),
        24 => branch_on_cast_keeps(m, false),
        25 => branch_on_cast_keeps(m, true),
        26 => converted_keeps(m, true),
        27 => converted_keeps(m, false),
        29 => i31_get_keeps(m, true),
        30 => i31_get_keeps(m, false),
        _ => {},
    }
}

proof fn bulk_keeps(m: Machine, sub: u32)
    ensures
        same_program(m, bulk_instruction(m, sub).0),
{
    match sub {
        0 | 1 | 2 | 3 | 4 | 5 | 6 | 7 => sat_conversion_keeps(m, sub),
        8 => memory_init_keeps(m),
        9 => data_drop_keeps(m),
        10 => memory_copy_keeps(m),
        11 => memory_fill_keeps(m),
        12 => table_init_keeps(m),
        13 => elem_drop_keeps(m),
        14 => table_copy_keeps(m),
        15 => table_grow_keeps(m),
        16 => table_size_keeps(m),
        17 => table_fill_keeps(m),
        0x13 => wide_sum_keeps(m, false),
        0x14 => wide_sum_keeps(m, true),
        0x15 => wide_product_keeps(m, false),
        0x16 => wide_product_keeps(m, true),
        _ => {},
    }
}

proof fn atomic_keeps(m: Machine, sub: u32)
    ensures
        same_program(m, atomic_instruction(m, sub).0),
{
    if sub == 0 {
        atomic_notify_keeps(m);
    } else if sub == 1 {
        atomic_wait_keeps(m, 4);
    } else if sub == 2 {
        atomic_wait_keeps(m, 8);
    } else if 0x10 <= sub <= 0x16 {
        atomic_load_keeps(m, (sub - 0x10) as u32);
    } else if 0x17 <= sub <= 0x1D {
        atomic_store_keeps(m, (sub - 0x17) as u32);
    } else if 0x1E <= sub <= 0x47 {
        atomic_modify_keeps(m, ((sub - 0x1E) / 7) as u32, ((sub - 0x1E) % 7) as u32);
    } else if 0x48 <= sub <= 0x4E {
        atomic_exchange_keeps(m, (sub - 0x48) as u32);
    }
}

proof fn vector_keeps(m: Machine, op: u32)
    ensures
        same_program(m, vector_instruction(m, op).0),
{
    vector_load_keeps(m, op);
    vector_store_keeps(m);
    lane_memory_keeps(m, op);
    shuffle_keeps(m);
    splat_keeps(m, op);
    lane_access_keeps(m, op);
    ternary_keeps(m, op);
    float_instruction_keeps(m, op);
    if let Some((l, w)) = lane_op(op) {
        lane_instruction_keeps(m, l, w);
    }
}

proof fn block_keeps(m: Machine, op: u8)
    ensures
        same_program(m, block_instruction(m, op).0),
{
    match op {
        0x02 => block_keeps_one(m, false),
        0x03 => block_keeps_one(m, true),
        0x04 => conditional_keeps(m),
        0x06 => legacy_try_keeps(m),
        0x07 => handlers_skipped_keeps(m.read_u32().0),
        0x0C | 0x0D | 0x0E => branching_keeps(m, op),
        0x18 => delegate_keeps(m),
        0x19 => handlers_skipped_keeps(m),
        0x1F => try_table_keeps(m),
        _ => {},
    }
}

proof fn call_keeps(m: Machine, op: u8)
    ensures
        same_program(m, call_instruction(m, op).0),
{
    callee_keeps(m, op);
    let c = callee(m, op);
    if let Ok((f, n)) = c.1 {
        tail_call_keeps(c.0, f, n);
        invoke_keeps(c.0, f);
    }
}

proof fn prefixed_keeps(m: Machine, prefix: u8)
    ensures
        same_program(m, prefixed(m, prefix).0),
{
    let r = m.read_u32();
    if let Ok(sub) = r.1 {
        match prefix {
            0xFB => gc_keeps(r.0, sub),
            0xFC => bulk_keeps(r.0, sub),
            0xFD => vector_keeps(r.0, sub),
            _ => atomic_keeps(r.0, sub),
        }
    }
}

proof fn instruction_keeps(m: Machine, op: u8)
    ensures
        same_program(m, instruction(m, op).0),
{
    reveal(instruction);
    if is_block_instruction(op) {
        block_keeps(m, op);
    } else if 0x08 <= op <= 0x0A {
        throw_instruction_keeps(m, op);
    } else if op == 0x0B {
        end_keeps(m);
    } else if op == 0x0F {
        leave_keeps(m);
    } else if 0x10 <= op <= 0x15 {
        call_keeps(m, op);
    } else if 0x28 <= op <= 0x40 {
        memory_keeps(m, op);
    } else if 0xFB <= op <= 0xFE {
        prefixed_keeps(m, op);
    } else {
        plain_keeps(m, op);
    }
}

proof fn carried_out_has_fuel(r: Done<()>)
    ensures
        !(carried_out(r).1 is OutOfFuel),
{
}

proof fn outcomes_have_fuel(m: Machine, op: u8)
    ensures
        !(end(m).1 is OutOfFuel),
        !(leave(m).1 is OutOfFuel),
        !(throw_instruction(m, op).1 is OutOfFuel),
        !(numeric(m, op).1 is OutOfFuel),
{
}

proof fn lane_instruction_has_fuel(m: Machine, l: LaneOp, w: int)
    ensures
        !(lane_instruction(m, l, w).1 is OutOfFuel),
{
}

proof fn vector_has_fuel(m: Machine, op: u32)
    ensures
        !(vector_instruction(m, op).1 is OutOfFuel),
{
    carried_out_has_fuel(vector_move(m, op));
    carried_out_has_fuel(ternary(m, op));
    if let Some((l, w)) = lane_op(op) {
        lane_instruction_has_fuel(m, l, w);
    }
}

proof fn invoke_has_fuel(m: Machine, f: u32)
    ensures
        !(invoke(m, f).1 is OutOfFuel),
{
}

proof fn call_has_fuel(m: Machine, op: u8)
    ensures
        !(call_instruction(m, op).1 is OutOfFuel),
{
    let c = callee(m, op);
    if let Ok((f, n)) = c.1 {
        invoke_has_fuel(c.0, f);
        invoke_has_fuel(reframed(c.0, n).0, f);
    }
}

proof fn prefixed_has_fuel(m: Machine, prefix: u8)
    ensures
        !(prefixed(m, prefix).1 is OutOfFuel),
{
    let r = m.read_u32();
    if let Ok(sub) = r.1 {
        match prefix {
            0xFB => carried_out_has_fuel(gc_instruction(r.0, sub)),
            0xFC => carried_out_has_fuel(bulk_instruction(r.0, sub)),
            0xFD => vector_has_fuel(r.0, sub),
            _ => carried_out_has_fuel(atomic_instruction(r.0, sub)),
        }
    }
}

proof fn instruction_has_fuel(m: Machine, op: u8)
    ensures
        !(instruction(m, op).1 is OutOfFuel),
{
    reveal(instruction);
    if is_block_instruction(op) {
        carried_out_has_fuel(block_instruction(m, op));
    } else if 0x10 <= op <= 0x15 {
        call_has_fuel(m, op);
    } else if 0x1A <= op <= 0x1C {
        carried_out_has_fuel(parametric(m, op));
    } else if 0x20 <= op <= 0x26 {
        carried_out_has_fuel(variable(m, op));
    } else if 0x28 <= op <= 0x40 {
        carried_out_has_fuel(memory_instruction(m, op));
    } else if 0x41 <= op <= 0x44 {
        carried_out_has_fuel(constant(m, op));
    } else if 0xD0 <= op <= 0xD6 {
        carried_out_has_fuel(reference(m, op));
    } else if 0xFB <= op <= 0xFE {
        prefixed_has_fuel(m, op);
    } else {
        outcomes_have_fuel(m, op);
    }
}

/// A step takes one unit of fuel, and never changes the module or the class. Without
/// fuel it changes nothing.
pub proof fn step_takes_one_unit(m: Machine)
    ensures
        m.fuel == 0 ==> step(m) == (m, Outcome::OutOfFuel),
        m.fuel > 0 ==> step(m).0.fuel == m.fuel - 1 && !(step(m).1 is OutOfFuel),
        step(m).0.store.module == m.store.module,
        step(m).0.store.class == m.store.class,
{
    if m.fuel > 0 {
        let p = Machine { fuel: (m.fuel - 1) as u64, ..m };
        leave_keeps(p);
        if let Ok(op) = p.read_byte().1 {
            instruction_keeps(p.read_byte().0, op);
            instruction_has_fuel(p.read_byte().0, op);
        }
    }
}

/// Looking for the handler of an exception takes no fuel, and never changes the module
/// or the class.
pub proof fn throwing_is_free(m: Machine, tag: u32, values: Seq<Value>)
    ensures
        same_program(m, thrown(m, tag, values).0),
{
    throw_keeps(m, tag, values);
}

} // verus!
