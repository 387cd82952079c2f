//! What instructions do on tables and memories that are indexed with 64 bits, and on tables
//! that stand for another one.

use vstd::prelude::*;
use crate::machine::{Machine, Outcome, Store};
use crate::reader::leb_u32;
use crate::scalar_laws::{casts64, unsigned64};
use crate::situation::{
    consumed, faces, faces_prefixed, operand, replaced, result_of, step_executes, traps, yields_at,
};
use crate::step::{instruction, step};
use crate::table_laws::slot_for;
use crate::types::{Value, WasmError, MAX_STACK};

verus! {

proof fn enters_bulk(m: Machine, sub: u32, at: int)
    requires
        faces_prefixed(m, 0xFC, sub, at),
    ensures
        step(m) == crate::calls::carried_out(
            crate::bulk::bulk_instruction(Machine { pc: at, fuel: (m.fuel - 1) as u64, ..m }, sub),
        ),
{
    reveal(instruction);
    step_executes(m, 0xFC);
}

/// Whether a table is one of its own and is indexed with 64 bits.
pub open spec fn long_table(m: Machine, ti: u32) -> bool {
    &&& ti < m.store.tables.len()
    &&& m.store.tables[ti as int].len() <= u32::MAX
    &&& ti < m.store.table_aliases.len() ==> m.store.table_aliases[ti as int] is None
    &&& ti < m.store.module.tables.len()
    &&& m.store.module.tables[ti as int].is_table64
}

/// `table.get` of a table with long indices takes one.
pub proof fn long_table_get_reads(m: Machine, ti: u32, at: int, i: i64)
    requires
        faces(m, 0x25),
        leb_u32(m.store.module.code, m.pc + 1) == (Ok::<u32, WasmError>(ti), at),
        long_table(m, ti),
        m.stack_ptr > 0,
        operand(m, 0) == Value::I64(i),
    ensures
        ({
            let slots = m.store.tables[ti as int];
            if 0 <= i < slots.len() {
                &&& slots[i as int] is None ==> yields_at(m, 1, Value::NullRef, at)
                &&& slots[i as int] matches Some(x) ==> x < 0x8000_0000 ==> yields_at(m, 1, Value::I32(x as i32), at)
            } else {
                traps(m, WasmError::TableIndexOutOfBounds)
            }
        }),
{
    reveal(instruction);
    step_executes(m, 0x25);
    if 0 <= i < m.store.tables[ti as int].len() {
        assert(step(m).0 =~= replaced(m, 1, result_of(m, 1), at));
    }
}

/// `table.set` of a table with long indices takes one.
pub proof fn long_table_set_writes(m: Machine, ti: u32, at: int, i: i64, v: Value)
    requires
        faces(m, 0x26),
        leb_u32(m.store.module.code, m.pc + 1) == (Ok::<u32, WasmError>(ti), at),
        long_table(m, ti),
        m.stack_ptr > 1,
        operand(m, 1) == Value::I64(i),
        operand(m, 0) == v,
    ensures
        ({
            let slots = m.store.tables[ti as int];
            if 0 <= i < slots.len() {
                &&& step(m).1 == Outcome::Completed
                &&& step(m).0.store.tables == m.store.tables.update(ti as int, slots.update(i as int, slot_for(v)))
                &&& step(m).0.stack_ptr == m.stack_ptr - 2 && step(m).0.pc == at
            } else {
                traps(m, WasmError::TableIndexOutOfBounds) && step(m).0.store == m.store
            }
        }),
{
    reveal(instruction);
    step_executes(m, 0x26);
    let slots = m.store.tables[ti as int];
    if 0 <= i < slots.len() {
        assert(step(m).0.store.tables =~= m.store.tables.update(ti as int, slots.update(i as int, slot_for(v))));
    }
}

/// `table.size` of a table with long indices gives a long number.
pub proof fn long_table_size_counts(m: Machine, ti: u32, p: int, at: int)
    requires
        faces_prefixed(m, 0xFC, 16, p),
        leb_u32(m.store.module.code, p) == (Ok::<u32, WasmError>(ti), at),
        long_table(m, ti),
        m.stack_ptr < MAX_STACK,
    ensures
        yields_at(m, 0, Value::I64(m.store.tables[ti as int].len() as i64), at),
{
    enters_bulk(m, 16, p);
    assert(step(m).0 =~= replaced(m, 0, Value::I64(m.store.tables[ti as int].len() as i64), at));
}

/// `table.grow` of a table with long indices takes and gives long numbers.
pub proof fn long_table_grow_grows(m: Machine, ti: u32, p: int, at: int, v: Value, n: i64)
    requires
        faces_prefixed(m, 0xFC, 15, p),
        leb_u32(m.store.module.code, p) == (Ok::<u32, WasmError>(ti), at),
        long_table(m, ti),
        m.store.module.tables[ti as int].max is Some,
        m.store.module.tables[ti as int].max->Some_0 <= 100_000,
        m.stack_ptr > 1,
        operand(m, 1) == v,
        operand(m, 0) == Value::I64(n),
    ensures
        ({
            let slots = m.store.tables[ti as int];
            let more = step(m).0.store.tables[ti as int];
            if slots.len() + unsigned64(n) <= m.store.module.tables[ti as int].max->Some_0 {
                &&& step(m).1 == Outcome::Completed
                &&& result_of(m, 2) == Value::I64(slots.len() as i64)
                &&& more.len() == slots.len() + unsigned64(n)
                &&& forall|k: int|
                    0 <= k < more.len() ==> #[trigger] more[k] == if k < slots.len() {
                        slots[k]
                    } else {
                        slot_for(v)
                    }
            } else {
                yields_at(m, 2, Value::I64(-1i64), at)
            }
        }),
{
    enters_bulk(m, 15, p);
    casts64(n, 0);
    let slots = m.store.tables[ti as int];
    if slots.len() + unsigned64(n) > m.store.module.tables[ti as int].max->Some_0 {
        assert(step(m).0 =~= replaced(m, 2, Value::I64(-1i64), at));
    }
}

/// `table.fill` of a table with long indices takes long numbers.
pub proof fn long_table_fill_fills(m: Machine, ti: u32, p: int, at: int, d: i64, v: Value, n: i64)
    requires
        faces_prefixed(m, 0xFC, 17, p),
        leb_u32(m.store.module.code, p) == (Ok::<u32, WasmError>(ti), at),
        long_table(m, ti),
        m.stack_ptr > 2,
        operand(m, 2) == Value::I64(d),
        operand(m, 1) == v,
        operand(m, 0) == Value::I64(n),
    ensures
        ({
            let (slots, r) = (m.store.tables[ti as int], step(m).0.store.tables[ti as int]);
            if unsigned64(d) + unsigned64(n) <= slots.len() {
                &&& step(m).1 == Outcome::Completed
                &&& r.len() == slots.len()
                &&& forall|k: int|
                    0 <= k < r.len() ==> #[trigger] r[k] == if unsigned64(d) <= k < unsigned64(d) + unsigned64(n) {
                        slot_for(v)
                    } else {
                        slots[k]
                    }
            } else {
                traps(m, WasmError::TableIndexOutOfBounds) && step(m).0.store == m.store
            }
        }),
{
    enters_bulk(m, 17, p);
    casts64(n, 0);
    casts64(d, 0);
}

/// `table.copy` between tables with long indices takes long numbers.
pub proof fn long_table_copy_copies(
    m: Machine,
    dst: u32,
    src: u32,
    p: int,
    q: int,
    at: int,
    d: i64,
    s: i64,
    n: i64,
)
    requires
        faces_prefixed(m, 0xFC, 14, p),
        leb_u32(m.store.module.code, p) == (Ok::<u32, WasmError>(dst), q),
        leb_u32(m.store.module.code, q) == (Ok::<u32, WasmError>(src), at),
        long_table(m, dst),
        long_table(m, src),
        m.stack_ptr > 2,
        operand(m, 2) == Value::I64(d),
        operand(m, 1) == Value::I64(s),
        operand(m, 0) == Value::I64(n),
    ensures
        ({
            let (from, to) = (m.store.tables[src as int], m.store.tables[dst as int]);
            let r = step(m).0.store.tables[dst as int];
            if unsigned64(s) + unsigned64(n) <= from.len() && unsigned64(d) + unsigned64(n) <= to.len() {
                &&& step(m).1 == Outcome::Completed
                &&& r.len() == to.len()
                &&& forall|k: int|
                    0 <= k < r.len() ==> #[trigger] r[k] == if unsigned64(d) <= k < unsigned64(d) + unsigned64(n) {
                        from[unsigned64(s) + k - unsigned64(d)]
                    } else {
                        to[k]
                    }
            } else {
                traps(m, WasmError::TableIndexOutOfBounds) && step(m).0.store == m.store
            }
        }),
{
    enters_bulk(m, 14, p);
    casts64(n, 0);
    casts64(d, 0);
    casts64(s, 0);
}

/// A table that stands for another one reads that one's slots.
pub proof fn aliases_read_the_other_table(m: Machine, ti: u32, at: int, i: i32, other: usize)
    requires
        faces(m, 0x25),
        leb_u32(m.store.module.code, m.pc + 1) == (Ok::<u32, WasmError>(ti), at),
        ti < m.store.tables.len(),
        ti < m.store.table_aliases.len(),
        m.store.table_aliases[ti as int] == Some(other),
        other < m.store.tables.len(),
        m.store.tables[other as int].len() <= u32::MAX,
        ti < m.store.module.tables.len() ==> !m.store.module.tables[ti as int].is_table64,
        m.stack_ptr > 0,
        operand(m, 0) == Value::I32(i),
    ensures
        ({
            let slots = m.store.tables[other as int];
            if 0 <= i < slots.len() {
                &&& slots[i as int] is None ==> yields_at(m, 1, Value::NullRef, at)
                &&& slots[i as int] matches Some(x) ==> x < 0x8000_0000 ==> yields_at(m, 1, Value::I32(x as i32), at)
            } else {
                traps(m, WasmError::TableIndexOutOfBounds)
            }
        }),
{
    reveal(instruction);
    step_executes(m, 0x25);
    if 0 <= i < m.store.tables[other as int].len() {
        assert(step(m).0 =~= replaced(m, 1, result_of(m, 1), at));
    }
}

/// `memory.size` of a memory with long addresses gives a long number.
pub proof fn long_memory_size_counts(m: Machine, at: int)
    requires
        faces(m, 0x3F),
        leb_u32(m.store.module.code, m.pc + 1) == (Ok::<u32, WasmError>(0), at),
        m.stack_ptr < MAX_STACK,
        m.store.memories.len() > 0,
        m.store.module.memories.len() > 0,
        m.store.module.memories[0].page_size_log2 is None,
        m.store.module.memories[0].is_memory64,
        m.store.memories[0].len() <= 0xFFFF_FFFF,
    ensures
        ({
            let x = result_of(m, 0)->I64_0;
            let n = m.store.memories[0].len();
            yields_at(m, 0, Value::I64(x), at) && x * 0x1_0000 <= n < (x + 1) * 0x1_0000
        }),
{
    reveal(instruction);
    step_executes(m, 0x3F);
    let n = m.store.memories[0].len() as int;
    assert(step(m).0 =~= replaced(m, 0, Value::I64((n / 0x1_0000) as i64), at));
}

} // verus!
