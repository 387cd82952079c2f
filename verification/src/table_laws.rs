//! What the instructions on tables and on numbers of 128 bits read and write.

use vstd::prelude::*;
use crate::bulk::{bulk_instruction, joined};
use crate::machine::{Machine, Outcome, Store};
use crate::reader::leb_u32;
use crate::scalar_laws::{casts32, casts64, unsigned32, unsigned64};
use crate::situation::{
    consumed, faces, faces_prefixed, operand, replaced, result_of, step_executes, traps, yields_at,
};
use crate::step::{instruction, step};
use crate::types::{Value, WasmError, MAX_STACK};

verus! {

proof fn enters_bulk(m: Machine, sub: u32, at: int)
    requires
        faces_prefixed(m, 0xFC, sub, at),
    ensures
        step(m) == crate::calls::carried_out(
            bulk_instruction(Machine { pc: at, fuel: (m.fuel - 1) as u64, ..m }, sub),
        ),
{
    reveal(instruction);
    step_executes(m, 0xFC);
}

/// Whether a table is one of its own and is indexed with 32 bits.
pub open spec fn own_table(m: Machine, ti: u32) -> bool {
    &&& ti < m.store.tables.len()
    &&& m.store.tables[ti as int].len() <= u32::MAX
    &&& ti < m.store.table_aliases.len() ==> m.store.table_aliases[ti as int] is None
    &&& ti < m.store.module.tables.len() ==> !m.store.module.tables[ti as int].is_table64
}

/// Whether `r` differs from `m`, one unit of fuel and `n` operands before, at most in the
/// table numbered `ti`.
pub open spec fn only_table(m: Machine, r: Machine, n: int, ti: u32, pc: int) -> bool {
    &&& r == (Machine { store: Store { tables: r.store.tables, ..m.store }, ..consumed(m, n, pc) })
    &&& r.store.tables.len() == m.store.tables.len()
    &&& forall|j: int| 0 <= j < m.store.tables.len() && j != ti ==> r.store.tables[j] == m.store.tables[j]
}

/// The slot that holds a reference: none for null, a function index as it is, a heap index
/// with the highest bit set.
pub open spec fn slot_for(v: Value) -> Option<u32> {
    match v {
        Value::I32(x) => if x >= 0 {
            Some(x as u32)
        } else {
            None
        },
        Value::GcRef(h) => Some(
            if h < 0x8000_0000 {
                (h + 0x8000_0000) as u32
            } else {
                h
            },
        ),
        _ => None,
    }
}

/// `table.get` pushes the reference in a slot: null for an empty one, a function index
/// below two to the 31, a heap object above. It traps beyond the table.
pub proof fn table_get_reads(m: Machine, ti: u32, at: int, i: i32)
    requires
        faces(m, 0x25),
        leb_u32(m.store.module.code, m.pc + 1) == (Ok::<u32, WasmError>(ti), at),
        own_table(m, ti),
        m.stack_ptr > 0,
        operand(m, 0) == Value::I32(i),
    ensures
        ({
            let slots = m.store.tables[ti as int];
            if 0 <= i < slots.len() {
                match slots[i as int] {
                    None => yields_at(m, 1, Value::NullRef, at),
                    Some(x) => if x < 0x8000_0000 {
                        yields_at(m, 1, Value::I32(x as i32), at)
                    } else {
                        yields_at(m, 1, Value::GcRef((x - 0x8000_0000) as u32), at)
                    },
                }
            } else {
                traps(m, WasmError::TableIndexOutOfBounds)
            }
        }),
{
    reveal(instruction);
    step_executes(m, 0x25);
    if 0 <= i < m.store.tables[ti as int].len() {
        assert(step(m).0 =~= replaced(m, 1, result_of(m, 1), at));
    }
}

/// `table.set` writes a reference to a slot, and no other slot. It traps beyond the table.
pub proof fn table_set_writes(m: Machine, ti: u32, at: int, i: i32, v: Value)
    requires
        faces(m, 0x26),
        leb_u32(m.store.module.code, m.pc + 1) == (Ok::<u32, WasmError>(ti), at),
        own_table(m, ti),
        m.stack_ptr > 1,
        operand(m, 1) == Value::I32(i),
        operand(m, 0) == v,
    ensures
        ({
            let slots = m.store.tables[ti as int];
            let r = step(m).0;
            if 0 <= i < slots.len() {
                &&& step(m).1 == Outcome::Completed
                &&& only_table(m, r, 2, ti, at)
                &&& r.store.tables[ti as int] == slots.update(i as int, slot_for(v))
            } else {
                traps(m, WasmError::TableIndexOutOfBounds) && r.store == m.store
            }
        }),
{
    reveal(instruction);
    step_executes(m, 0x26);
    let r = step(m).0;
    if 0 <= i < m.store.tables[ti as int].len() {
        assert(r =~= (Machine { store: Store { tables: r.store.tables, ..m.store }, ..consumed(m, 2, at) }));
    }
}

/// `table.size` gives the number of slots.
pub proof fn table_size_counts(m: Machine, ti: u32, p: int, at: int)
    requires
        faces_prefixed(m, 0xFC, 16, p),
        leb_u32(m.store.module.code, p) == (Ok::<u32, WasmError>(ti), at),
        own_table(m, ti),
        m.stack_ptr < MAX_STACK,
        m.store.tables[ti as int].len() <= 0x7FFF_FFFF,
    ensures
        yields_at(m, 0, Value::I32(m.store.tables[ti as int].len() as i32), at),
{
    enters_bulk(m, 16, p);
    assert(step(m).0 =~= replaced(m, 0, Value::I32(m.store.tables[ti as int].len() as i32), at));
}

/// `table.grow` adds slots that hold the reference and gives the old size, or, beyond the
/// declared maximum, gives minus one and changes nothing.
pub proof fn table_grow_grows(m: Machine, ti: u32, p: int, at: int, v: Value, n: i32)
    requires
        faces_prefixed(m, 0xFC, 15, p),
        leb_u32(m.store.module.code, p) == (Ok::<u32, WasmError>(ti), at),
        own_table(m, ti),
        ti < m.store.module.tables.len(),
        m.store.module.tables[ti as int].max is Some,
        m.store.module.tables[ti as int].max->Some_0 <= 100_000,
        m.stack_ptr > 1,
        operand(m, 1) == v,
        operand(m, 0) == Value::I32(n),
        m.store.tables[ti as int].len() <= 0x7FFF_FFFF,
    ensures
        ({
            let slots = m.store.tables[ti as int];
            let r = step(m).0;
            let more = r.store.tables[ti as int];
            if slots.len() + unsigned32(n) <= m.store.module.tables[ti as int].max->Some_0 {
                &&& step(m).1 == Outcome::Completed
                &&& r.stack_ptr == m.stack_ptr - 1 && r.pc == at
                &&& result_of(m, 2) == Value::I32(slots.len() as i32)
                &&& more.len() == slots.len() + unsigned32(n)
                &&& forall|k: int|
                    0 <= k < more.len() ==> #[trigger] more[k] == if k < slots.len() {
                        slots[k]
                    } else {
                        slot_for(v)
                    }
                &&& forall|j: int| 0 <= j < m.store.tables.len() && j != ti ==> r.store.tables[j] == m.store.tables[j]
            } else {
                yields_at(m, 2, Value::I32(-1i32), at)
            }
        }),
{
    enters_bulk(m, 15, p);
    casts32(n, 0);
    let u = n as u32;
    let slots = m.store.tables[ti as int];
    if slots.len() + unsigned32(n) > m.store.module.tables[ti as int].max->Some_0 {
        assert(step(m).0 =~= replaced(m, 2, Value::I32(-1i32), at));
    }
}

/// `table.fill` writes a reference to `n` slots from `d` on, and to no other. It traps
/// where they do not all lie within the table.
pub proof fn table_fill_fills(m: Machine, ti: u32, p: int, at: int, d: i32, v: Value, n: i32)
    requires
        faces_prefixed(m, 0xFC, 17, p),
        leb_u32(m.store.module.code, p) == (Ok::<u32, WasmError>(ti), at),
        own_table(m, ti),
        m.stack_ptr > 2,
        operand(m, 2) == Value::I32(d),
        operand(m, 1) == v,
        operand(m, 0) == Value::I32(n),
    ensures
        ({
            let slots = m.store.tables[ti as int];
            let r = step(m).0;
            let (ud, un) = (unsigned32(d), unsigned32(n));
            if ud + un <= slots.len() {
                &&& step(m).1 == Outcome::Completed
                &&& only_table(m, r, 3, ti, at)
                &&& r.store.tables[ti as int].len() == slots.len()
                &&& forall|k: int|
                    0 <= k < slots.len() ==> #[trigger] r.store.tables[ti as int][k] == if ud <= k < ud + un {
                        slot_for(v)
                    } else {
                        slots[k]
                    }
            } else {
                traps(m, WasmError::TableIndexOutOfBounds) && r.store == m.store
            }
        }),
{
    enters_bulk(m, 17, p);
    casts32(d, 0);
    casts32(n, 0);
    let r = step(m).0;
    if unsigned32(d) + unsigned32(n) <= m.store.tables[ti as int].len() {
        assert(r =~= (Machine { store: Store { tables: r.store.tables, ..m.store }, ..consumed(m, 3, at) }));
    }
}

/// `table.copy` copies `n` slots from `s` of one table to `d` of another or of the same, as
/// they were before. It traps where they do not all lie within their tables.
pub proof fn table_copy_copies(m: Machine, dst: u32, src: u32, p: int, q: int, at: int, d: i32, s: i32, n: i32)
    requires
        faces_prefixed(m, 0xFC, 14, p),
        leb_u32(m.store.module.code, p) == (Ok::<u32, WasmError>(dst), q),
        leb_u32(m.store.module.code, q) == (Ok::<u32, WasmError>(src), at),
        own_table(m, dst),
        own_table(m, src),
        m.stack_ptr > 2,
        operand(m, 2) == Value::I32(d),
        operand(m, 1) == Value::I32(s),
        operand(m, 0) == Value::I32(n),
    ensures
        ({
            let (to, from) = (m.store.tables[dst as int], m.store.tables[src as int]);
            let r = step(m).0;
            let (ud, us, un) = (unsigned32(d), unsigned32(s), unsigned32(n));
            if ud + un <= to.len() && us + un <= from.len() {
                &&& step(m).1 == Outcome::Completed
                &&& only_table(m, r, 3, dst, at)
                &&& r.store.tables[dst as int].len() == to.len()
                &&& forall|k: int|
                    0 <= k < to.len() ==> #[trigger] r.store.tables[dst as int][k] == if ud <= k < ud + un {
                        from[us + (k - ud)]
                    } else {
                        to[k]
                    }
            } else {
                traps(m, WasmError::TableIndexOutOfBounds) && r.store == m.store
            }
        }),
{
    enters_bulk(m, 14, p);
    casts32(d, 0);
    casts32(s, 0);
    casts32(n, 0);
    let r = step(m).0;
    if unsigned32(d) + unsigned32(n) <= m.store.tables[dst as int].len() && unsigned32(s) + unsigned32(n)
        <= m.store.tables[src as int].len() {
        assert(r =~= (Machine { store: Store { tables: r.store.tables, ..m.store }, ..consumed(m, 3, at) }));
    }
}

/// `table.init` copies `n` items from `s` of an element segment to `d` of a table: the
/// highest number stands for null, every other one for itself. It traps where they do not
/// all lie within the segment and the table, or the segment has been dropped.
pub proof fn table_init_copies(m: Machine, ei: u32, ti: u32, p: int, q: int, at: int, d: i32, s: i32, n: i32)
    requires
        faces_prefixed(m, 0xFC, 12, p),
        leb_u32(m.store.module.code, p) == (Ok::<u32, WasmError>(ei), q),
        leb_u32(m.store.module.code, q) == (Ok::<u32, WasmError>(ti), at),
        own_table(m, ti),
        ei < m.store.module.element_segments.len(),
        ei < m.store.dropped_elems.len(),
        m.stack_ptr > 2,
        operand(m, 2) == Value::I32(d),
        operand(m, 1) == Value::I32(s),
        operand(m, 0) == Value::I32(n),
    ensures
        ({
            let to = m.store.tables[ti as int];
            let items = m.store.module.element_segments[ei as int].func_indices;
            let r = step(m).0;
            let (ud, us, un) = (unsigned32(d), unsigned32(s), unsigned32(n));
            if m.store.dropped_elems[ei as int] {
                (un > 0 || us > 0 ==> traps(m, WasmError::TableIndexOutOfBounds)) && r.store == m.store
            } else if ud + un <= to.len() && us + un <= items.len() {
                &&& step(m).1 == Outcome::Completed
                &&& only_table(m, r, 3, ti, at)
                &&& r.store.tables[ti as int].len() == to.len()
                &&& forall|k: int|
                    0 <= k < to.len() ==> #[trigger] r.store.tables[ti as int][k] == if ud <= k < ud + un {
                        if items[us + (k - ud)] == u32::MAX {
                            None
                        } else {
                            Some(items[us + (k - ud)])
                        }
                    } else {
                        to[k]
                    }
            } else {
                traps(m, WasmError::TableIndexOutOfBounds) && r.store == m.store
            }
        }),
{
    enters_bulk(m, 12, p);
    casts32(d, 0);
    casts32(s, 0);
    casts32(n, 0);
    let u = d as u32;
    assert((u as u64) as u32 == u);
    let r = step(m).0;
    if !m.store.dropped_elems[ei as int] && unsigned32(d) + unsigned32(n) <= m.store.tables[ti as int].len()
        && unsigned32(s) + unsigned32(n) <= m.store.module.element_segments[ei as int].func_indices.len() {
        assert(r =~= (Machine { store: Store { tables: r.store.tables, ..m.store }, ..consumed(m, 3, at) }));
    }
}

/// `elem.drop` marks the element segment as dropped, and no other.
pub proof fn elem_drop_drops(m: Machine, ei: u32, p: int, at: int)
    requires
        faces_prefixed(m, 0xFC, 13, p),
        leb_u32(m.store.module.code, p) == (Ok::<u32, WasmError>(ei), at),
        ei < m.store.dropped_elems.len(),
    ensures
        step(m).1 == Outcome::Completed,
        step(m).0 == (Machine {
            store: Store { dropped_elems: step(m).0.store.dropped_elems, ..m.store },
            ..consumed(m, 0, at)
        }),
        step(m).0.store.dropped_elems.len() == m.store.dropped_elems.len(),
        forall|k: int|
            0 <= k < m.store.dropped_elems.len() ==> #[trigger] step(m).0.store.dropped_elems[k] == (k == ei
                || m.store.dropped_elems[k]),
{
    enters_bulk(m, 13, p);
    assert(step(m).0 =~= (Machine {
        store: Store { dropped_elems: step(m).0.store.dropped_elems, ..m.store },
        ..consumed(m, 0, at)
    }));
}

// ---------------------------------------------------------------------------
// Numbers of 128 bits

/// The number with these halves.
pub open spec fn wide(lo: i64, hi: i64) -> int {
    unsigned64(lo) + unsigned64(hi) * 0x1_0000_0000_0000_0000
}

/// Two to the 128.
pub open spec fn wide_span() -> int {
    0x1_0000_0000_0000_0000_0000_0000_0000_0000int
}

/// Whether two values, the low half below the high half, stand in place of `n` operands.
pub open spec fn two_halves(m: Machine, n: int) -> bool {
    let r = step(m).0;
    &&& step(m).1 == Outcome::Completed
    &&& r.stack_ptr == m.stack_ptr - n + 2
    &&& r.stack[m.stack_ptr - n] is I64
    &&& r.stack[m.stack_ptr - n + 1] is I64
    &&& r.store == m.store
}

/// The number in the halves that stand in place of `n` operands.
pub open spec fn wide_result(m: Machine, n: int) -> int {
    let r = step(m).0;
    wide(r.stack[m.stack_ptr - n]->I64_0, r.stack[m.stack_ptr - n + 1]->I64_0)
}

/// `i64.add128` and `i64.sub128` give the sum and the difference, modulo two to the 128.
pub proof fn wide_sums(m: Machine, sub: u32, at: int, al: i64, ah: i64, bl: i64, bh: i64)
    requires
        sub == 0x13 || sub == 0x14,
        faces_prefixed(m, 0xFC, sub, at),
        m.stack_ptr >= 4,
        operand(m, 3) == Value::I64(al),
        operand(m, 2) == Value::I64(ah),
        operand(m, 1) == Value::I64(bl),
        operand(m, 0) == Value::I64(bh),
    ensures
        two_halves(m, 4),
        sub == 0x13 ==> (wide_result(m, 4) - (wide(al, ah) + wide(bl, bh))) % wide_span() == 0,
        sub == 0x14 ==> (wide_result(m, 4) - (wide(al, ah) - wide(bl, bh))) % wide_span() == 0,
{
    enters_bulk(m, sub, at);
    casts64(al, 0);
    casts64(ah, 0);
    casts64(bl, 0);
    casts64(bh, 0);
    let (x, y) = (joined(al, ah), joined(bl, bh));
    assert(x == wide(al, ah));
    assert(y == wide(bl, bh));
    wraps_around(x, y);
    if sub == 0x13 {
        halves(x.wrapping_add(y));
        assert(two_halves(m, 4) && wide_result(m, 4) == x.wrapping_add(y));
    } else {
        halves(x.wrapping_sub(y));
        assert(two_halves(m, 4) && wide_result(m, 4) == x.wrapping_sub(y));
    }
}

proof fn wraps_around(x: u128, y: u128)
    ensures
        (x.wrapping_add(y) - (x + y)) % wide_span() == 0,
        (x.wrapping_sub(y) - (x - y)) % wide_span() == 0,
{
}

proof fn halves(x: u128)
    ensures
        ({
            let (l, h) = (
                (x % 0x1_0000_0000_0000_0000) as u64 as i64,
                (x / 0x1_0000_0000_0000_0000) as u64 as i64,
            );
            wide(l, h) == x
        }),
{
    casts64(0, (x % 0x1_0000_0000_0000_0000) as u64);
    casts64(0, (x / 0x1_0000_0000_0000_0000) as u64);
}

/// `i64.mul_wide_s` and `i64.mul_wide_u` give the whole product, with and without sign.
pub proof fn wide_products(m: Machine, sub: u32, at: int, a: i64, b: i64)
    requires
        sub == 0x15 || sub == 0x16,
        faces_prefixed(m, 0xFC, sub, at),
        m.stack_ptr >= 2,
        operand(m, 1) == Value::I64(a),
        operand(m, 0) == Value::I64(b),
    ensures
        two_halves(m, 2),
        sub == 0x15 && a * b >= 0 ==> wide_result(m, 2) == a * b,
        sub == 0x15 && a * b < 0 ==> wide_result(m, 2) == a * b + wide_span(),
        sub == 0x16 ==> wide_result(m, 2) == unsigned64(a) * unsigned64(b),
{
    enters_bulk(m, sub, at);
    casts64(a, 0);
    casts64(b, 0);
    let p = a * b;
    let u = unsigned64(a) * unsigned64(b);
    assert(-0x4000_0000_0000_0000_0000_0000_0000_0000 <= p <= 0x4000_0000_0000_0000_0000_0000_0000_0000)
        by (nonlinear_arith)
        requires
            -0x8000_0000_0000_0000 <= a <= 0x7FFF_FFFF_FFFF_FFFF,
            -0x8000_0000_0000_0000 <= b <= 0x7FFF_FFFF_FFFF_FFFF,
            p == a * b,
    ;
    assert(0 <= u < 0x1_0000_0000_0000_0000_0000_0000_0000_0000int) by (nonlinear_arith)
        requires
            0 <= unsigned64(a) < 0x1_0000_0000_0000_0000,
            0 <= unsigned64(b) < 0x1_0000_0000_0000_0000,
            u == unsigned64(a) * unsigned64(b),
    ;
    if sub == 0x15 {
        let q = p as i128;
        assert(q == p);
        assert((q >= 0 ==> q as u128 == q) && (q < 0 ==> q as u128 == q + 0x1_0000_0000_0000_0000_0000_0000_0000_0000int))
            by (bit_vector);
        assert(p as u128 == q as u128);
        halves(p as u128);
    } else {
        assert((a as u64) * (b as u64) == u);
        halves(u as u128);
    }
}

} // verus!
