//! What the instructions on memories and tables read, write and leave alone.

use vstd::prelude::*;
use crate::bytes::{le_u16, le_u32, le_u64};
use crate::machine::{Machine, Outcome, Store};
use crate::reader::leb_u32;
use crate::scalar_laws::{casts32, casts64, unsigned32, unsigned64};
use crate::situation::{
    consumed, faces, faces_prefixed, operand, replaced, result_of, step_executes, traps, yields_at,
};
use crate::step::{instruction, step};
use crate::types::{RuntimeClass, Value, WasmError, MAX_STACK};

verus! {

// ---------------------------------------------------------------------------
// Bulk operations on memories

/// Whether `n` differs from `m`, one unit of fuel and three operands before, at most in
/// the contents of the memory numbered `mi`.
pub open spec fn only_memory(m: Machine, n: Machine, mi: int, pc: int) -> bool {
    &&& n == (Machine { store: Store { memories: n.store.memories, ..m.store }, ..consumed(m, 3, pc) })
    &&& n.store.memories.len() == m.store.memories.len()
    &&& n.store.memories[mi].len() == m.store.memories[mi].len()
    &&& forall|j: int| 0 <= j < m.store.memories.len() && j != mi ==> n.store.memories[j] == m.store.memories[j]
}

/// Whether the three operands on top of the stack are these numbers.
pub open spec fn three_operands(m: Machine, a: i32, b: i32, c: i32) -> bool {
    m.stack_ptr >= 3 && operand(m, 2) == Value::I32(a) && operand(m, 1) == Value::I32(b) && operand(m, 0)
        == Value::I32(c)
}

proof fn enters_bulk(m: Machine, sub: u32, at: int)
    requires
        faces_prefixed(m, 0xFC, sub, at),
    ensures
        step(m) == crate::calls::carried_out(
            crate::bulk::bulk_instruction(Machine { pc: at, fuel: (m.fuel - 1) as u64, ..m }, sub),
        ),
{
    reveal(instruction);
    step_executes(m, 0xFC);
}

/// `memory.init` with destination `d`, source `s` and length `n` copies the bytes from `s`
/// on of a data segment that is not dropped to the memory from `d` on. It traps where the
/// range lies beyond the segment or the memory, and then writes nothing.
pub proof fn memory_init_copies(m: Machine, di: u32, mi: u32, p: int, q: int, at: int, d: i32, s: i32, n: i32)
    requires
        faces_prefixed(m, 0xFC, 8, p),
        leb_u32(m.store.module.code, p) == (Ok::<u32, WasmError>(di), q),
        leb_u32(m.store.module.code, q) == (Ok::<u32, WasmError>(mi), at),
        three_operands(m, d, s, n),
        mi < m.store.memories.len(),
        di < m.store.module.data_segments.len(),
        di < m.store.dropped_data.len(),
        !m.store.dropped_data[di as int],
        m.store.module.data_segments[di as int].within(m.store.module.code.len() as int),
    ensures
        ({
            let r = step(m);
            let seg = m.store.module.data_segments[di as int];
            let (ud, us, un) = (unsigned32(d), unsigned32(s), unsigned32(n));
            let old_bytes = m.store.memories[mi as int];
            if us + un <= seg.data_len && ud + un <= old_bytes.len() {
                &&& r.1 == Outcome::Completed
                &&& only_memory(m, r.0, mi as int, at)
                &&& forall|k: int|
                    0 <= k < un ==> #[trigger] r.0.store.memories[mi as int][ud + k]
                        == m.store.module.code[seg.data_offset + us + k]
                &&& forall|k: int|
                    0 <= k < ud || ud + un <= k < old_bytes.len() ==> #[trigger] r.0.store.memories[mi as int][k]
                        == old_bytes[k]
            } else {
                r.1 == Outcome::Trap(WasmError::MemoryOutOfBounds) && r.0.store == m.store
            }
        }),
{
    enters_bulk(m, 8, p);
    casts32(d, 0);
    casts32(s, 0);
    casts32(n, 0);
    let r = step(m);
    assert(r.0 =~= (Machine { store: Store { memories: r.0.store.memories, ..m.store }, ..consumed(m, 3, at) }));
}

/// A dropped data segment is empty: `memory.init` copies nothing from it but nothing.
pub proof fn memory_init_of_dropped(m: Machine, di: u32, mi: u32, p: int, q: int, at: int, d: i32, s: i32, n: i32)
    requires
        faces_prefixed(m, 0xFC, 8, p),
        leb_u32(m.store.module.code, p) == (Ok::<u32, WasmError>(di), q),
        leb_u32(m.store.module.code, q) == (Ok::<u32, WasmError>(mi), at),
        three_operands(m, d, s, n),
        di < m.store.dropped_data.len(),
        m.store.dropped_data[di as int],
    ensures
        step(m).0.store == m.store,
        n != 0 || s != 0 ==> step(m).1 == Outcome::Trap(WasmError::MemoryOutOfBounds),
{
    enters_bulk(m, 8, p);
    casts32(d, 0);
    casts32(s, 0);
    casts32(n, 0);
}

/// `data.drop` marks the data segment as dropped, and no other.
pub proof fn data_drop_drops(m: Machine, di: u32, p: int, at: int)
    requires
        faces_prefixed(m, 0xFC, 9, p),
        leb_u32(m.store.module.code, p) == (Ok::<u32, WasmError>(di), at),
        di < m.store.dropped_data.len(),
    ensures
        step(m).1 == Outcome::Completed,
        step(m).0 == (Machine {
            store: Store { dropped_data: step(m).0.store.dropped_data, ..m.store },
            ..consumed(m, 0, at)
        }),
        step(m).0.store.dropped_data.len() == m.store.dropped_data.len(),
        forall|k: int|
            0 <= k < m.store.dropped_data.len() ==> #[trigger] step(m).0.store.dropped_data[k] == (k == di
                || m.store.dropped_data[k]),
{
    enters_bulk(m, 9, p);
    assert(step(m).0 =~= (Machine {
        store: Store { dropped_data: step(m).0.store.dropped_data, ..m.store },
        ..consumed(m, 0, at)
    }));
}

/// `memory.copy` with destination `d`, source `s` and length `n` copies bytes as they were
/// before, also where the ranges overlap. It traps where a range lies beyond its memory.
pub proof fn memory_copy_copies(m: Machine, dst: u32, src: u32, p: int, q: int, at: int, d: i32, s: i32, n: i32)
    requires
        faces_prefixed(m, 0xFC, 10, p),
        leb_u32(m.store.module.code, p) == (Ok::<u32, WasmError>(dst), q),
        leb_u32(m.store.module.code, q) == (Ok::<u32, WasmError>(src), at),
        three_operands(m, d, s, n),
        dst < m.store.memories.len(),
        src < m.store.memories.len(),
    ensures
        ({
            let r = step(m);
            let (ud, us, un) = (unsigned32(d), unsigned32(s), unsigned32(n));
            let (to, from) = (m.store.memories[dst as int], m.store.memories[src as int]);
            if us + un <= from.len() && ud + un <= to.len() {
                &&& r.1 == Outcome::Completed
                &&& only_memory(m, r.0, dst as int, at)
                &&& forall|k: int|
                    0 <= k < un ==> #[trigger] r.0.store.memories[dst as int][ud + k] == from[us + k]
                &&& forall|k: int|
                    0 <= k < ud || ud + un <= k < to.len() ==> #[trigger] r.0.store.memories[dst as int][k] == to[k]
            } else {
                r.1 == Outcome::Trap(WasmError::MemoryOutOfBounds) && r.0.store == m.store
            }
        }),
{
    enters_bulk(m, 10, p);
    casts32(d, 0);
    casts32(s, 0);
    casts32(n, 0);
    let r = step(m);
    assert(r.0 =~= (Machine { store: Store { memories: r.0.store.memories, ..m.store }, ..consumed(m, 3, at) }));
}

/// `memory.fill` with destination `d`, value `v` and length `n` writes the low byte of the
/// value. It traps where the range lies beyond the memory.
pub proof fn memory_fill_fills(m: Machine, mi: u32, p: int, at: int, d: i32, v: i32, n: i32)
    requires
        faces_prefixed(m, 0xFC, 11, p),
        leb_u32(m.store.module.code, p) == (Ok::<u32, WasmError>(mi), at),
        three_operands(m, d, v, n),
        mi < m.store.memories.len(),
    ensures
        ({
            let r = step(m);
            let (ud, un) = (unsigned32(d), unsigned32(n));
            let old_bytes = m.store.memories[mi as int];
            if ud + un <= old_bytes.len() {
                &&& r.1 == Outcome::Completed
                &&& only_memory(m, r.0, mi as int, at)
                &&& forall|k: int|
                    0 <= k < un ==> (unsigned32(v) - #[trigger] r.0.store.memories[mi as int][ud + k]) % 0x100 == 0
                &&& forall|k: int|
                    0 <= k < ud || ud + un <= k < old_bytes.len() ==> #[trigger] r.0.store.memories[mi as int][k]
                        == old_bytes[k]
            } else {
                r.1 == Outcome::Trap(WasmError::MemoryOutOfBounds) && r.0.store == m.store
            }
        }),
{
    enters_bulk(m, 11, p);
    casts32(d, 0);
    casts32(v, 0);
    casts32(n, 0);
    let u = v as u32;
    assert((u - (u as u8)) % 0x100 == 0) by (bit_vector);
    let r = step(m);
    assert(r.0 =~= (Machine { store: Store { memories: r.0.store.memories, ..m.store }, ..consumed(m, 3, at) }));
}

// ---------------------------------------------------------------------------
// Loads and stores

/// The number in `w` bytes from `p` on, the lowest first.
pub open spec fn number_at(s: Seq<u8>, p: int, w: int) -> int
    decreases w,
{
    if w <= 0 {
        0
    } else {
        s[p] + 0x100 * number_at(s, p + 1, w - 1)
    }
}

/// The signed number in `w` bytes from `p` on.
pub open spec fn signed_at(s: Seq<u8>, p: int, w: int) -> int {
    let x = number_at(s, p, w);
    let top = if w == 1 {
        0x80
    } else if w == 2 {
        0x8000
    } else if w == 4 {
        0x8000_0000
    } else {
        0x8000_0000_0000_0000int
    };
    if x >= top {
        x - 2 * top
    } else {
        x
    }
}

/// Numbers of one, two, four and eight bytes, byte by byte.
pub proof fn numbers_unfold(s: Seq<u8>, p: int)
    ensures
        number_at(s, p, 1) == s[p],
        number_at(s, p, 2) == s[p] + 0x100 * s[p + 1],
        number_at(s, p, 4) == s[p] + 0x100 * s[p + 1] + 0x1_0000 * s[p + 2] + 0x100_0000 * s[p + 3],
        number_at(s, p, 8) == number_at(s, p, 4) + 0x1_0000_0000 * number_at(s, p + 4, 4),
        number_at(s, p, 2) == le_u16(s, p),
        number_at(s, p, 4) == le_u32(s, p),
        number_at(s, p, 8) == le_u64(s, p),
{
    reveal_with_fuel(number_at, 9);
    assert(p + 1 + 1 == p + 2);
}

/// Where a memory argument without a memory index stands: `flags` without bit six or with
/// only one memory allowed, then the offset.
pub open spec fn plain_memarg(m: Machine, p: int, flags: u32, q: int, offset: u32, at: int) -> bool {
    &&& leb_u32(m.store.module.code, p) == (Ok::<u32, WasmError>(flags), q)
    &&& leb_u32(m.store.module.code, q) == (Ok::<u32, WasmError>(offset), at)
    &&& !m.store.module.multi_memory_enabled || flags < 64
}

/// Whether a memory argument with the memory index `mi` stands there.
pub open spec fn indexed_memarg(m: Machine, p: int, flags: u32, q: int, mi: u32, x: int, offset: u32, at: int) -> bool {
    &&& m.store.module.multi_memory_enabled
    &&& 64 <= flags < 128
    &&& leb_u32(m.store.module.code, p) == (Ok::<u32, WasmError>(flags), q)
    &&& leb_u32(m.store.module.code, q) == (Ok::<u32, WasmError>(mi), x)
    &&& leb_u32(m.store.module.code, x) == (Ok::<u32, WasmError>(offset), at)
}

/// Bytes that a load or store moves.
pub open spec fn access_width(op: u8) -> int {
    if op == 0x29 || op == 0x2B || op == 0x37 || op == 0x39 {
        8
    } else if op == 0x2C || op == 0x2D || op == 0x30 || op == 0x31 || op == 0x3A || op == 0x3C {
        1
    } else if op == 0x2E || op == 0x2F || op == 0x32 || op == 0x33 || op == 0x3B || op == 0x3D {
        2
    } else {
        4
    }
}

/// Loads give the number in the bytes at the base plus the offset, the lowest byte first:
/// with sign where the instruction says so, else without. They trap where the bytes do not
/// all lie within the memory.
pub proof fn loads_read(m: Machine, op: u8, flags: u32, q: int, offset: u32, at: int, base: i32)
    requires
        0x28 <= op <= 0x35,
        faces(m, op),
        plain_memarg(m, m.pc + 1, flags, q, offset, at),
        m.stack_ptr > 0,
        operand(m, 0) == Value::I32(base),
        m.store.memories.len() > 0,
        m.store.class != RuntimeClass::ProofGrade,
    ensures
        ({
            let p = unsigned32(base) + offset;
            let s = m.store.memories[0];
            let w = access_width(op);
            let v = result_of(m, 1);
            let (u, i) = (number_at(s, p, w), signed_at(s, p, w));
            if p + w <= s.len() && p <= u32::MAX {
                &&& yields_at(m, 1, v, at)
                &&& op == 0x28 || op == 0x2C || op == 0x2E ==> v is I32 && v->I32_0 == i
                &&& op == 0x2D || op == 0x2F ==> v is I32 && v->I32_0 == u
                &&& op == 0x29 || op == 0x30 || op == 0x32 || op == 0x34 ==> v is I64 && v->I64_0 == i
                &&& op == 0x31 || op == 0x33 || op == 0x35 ==> v is I64 && v->I64_0 == u
                &&& op == 0x2A ==> v is F32 && v->F32_0 == u
                &&& op == 0x2B ==> v is F64 && v->F64_0 == u
            } else {
                traps(m, WasmError::MemoryOutOfBounds) && step(m).0.store == m.store
            }
        }),
{
    reveal(instruction);
    step_executes(m, op);
    casts32(base, 0);
    let p = unsigned32(base) + offset;
    let s = m.store.memories[0];
    let w = access_width(op);
    if p + w <= s.len() && p <= u32::MAX {
        let b = s.subrange(p, p + w);
        numbers_unfold(s, p);
        numbers_unfold(b, 0);
        if w == 8 {
            assert(le_u32(b, 0) == le_u32(s, p) && le_u32(b, 4) == le_u32(s, p + 4));
        }
        casts32(0, le_u32(b, 0));
        casts64(0, le_u64(b, 0));
        let (x8, x16, x32) = (b[0], le_u16(b, 0), le_u32(b, 0));
        narrow_signs(x8, x16, x32);
        assert(step(m).0 =~= replaced(m, 1, result_of(m, 1), at));
    }
}

proof fn narrow_signs(x: u8, y: u16, z: u32)
    ensures
        x as i8 == if x >= 0x80 { x - 0x100 } else { x as int },
        y as i16 == if y >= 0x8000 { y - 0x1_0000 } else { y as int },
        z as i32 == if z >= 0x8000_0000 { z - 0x1_0000_0000 } else { z as int },
{
    assert(((x as i8) == if x >= 0x80 { x - 0x100 } else { x + 0 }) && ((y as i16) == if y >= 0x8000 { y - 0x1_0000 } else {
        y + 0 }) && ((z as i32) == if z >= 0x8000_0000 { z - 0x1_0000_0000 } else { z + 0 })) by (bit_vector);
}

/// Stores write the low bytes of the value at the base plus the offset, the lowest byte
/// first, and nothing else. They trap where the bytes do not all lie within the memory, and
/// then write nothing.
#[verifier::spinoff_prover]
#[verifier::rlimit(40)]
pub proof fn stores_write(m: Machine, op: u8, flags: u32, q: int, offset: u32, at: int, base: i32, v: Value)
    requires
        0x36 <= op <= 0x3E,
        faces(m, op),
        plain_memarg(m, m.pc + 1, flags, q, offset, at),
        m.stack_ptr > 1,
        operand(m, 1) == Value::I32(base),
        operand(m, 0) == v,
        m.store.memories.len() > 0,
        m.store.class != RuntimeClass::ProofGrade,
        op == 0x36 || op == 0x3A || op == 0x3B ==> v is I32,
        op == 0x37 || 0x3C <= op ==> v is I64,
        op == 0x38 ==> v is F32,
        op == 0x39 ==> v is F64,
    ensures
        ({
            let p = unsigned32(base) + offset;
            let s = m.store.memories[0];
            let t = step(m).0.store.memories[0];
            let w = access_width(op);
            let x = match v {
                Value::I32(x) => unsigned32(x),
                Value::I64(x) => unsigned64(x),
                Value::F32(x) => x as int,
                Value::F64(x) => x as int,
                _ => 0,
            };
            if p + w <= s.len() && p <= u32::MAX {
                &&& step(m).1 == Outcome::Completed
                &&& step(m).0 == (Machine {
                    store: Store { memories: step(m).0.store.memories, ..m.store },
                    ..consumed(m, 2, at)
                })
                &&& t.len() == s.len()
                &&& (number_at(t, p, w) - x) % (if w == 1 {
                    0x100
                } else if w == 2 {
                    0x1_0000
                } else if w == 4 {
                    0x1_0000_0000
                } else {
                    0x1_0000_0000_0000_0000int
                }) == 0
                &&& forall|k: int| 0 <= k < p || p + w <= k < s.len() ==> #[trigger] t[k] == s[k]
                &&& forall|j: int|
                    0 < j < m.store.memories.len() ==> step(m).0.store.memories[j] == m.store.memories[j]
            } else {
                traps(m, WasmError::MemoryOutOfBounds) && step(m).0.store == m.store
            }
        }),
{
    reveal(instruction);
    step_executes(m, op);
    casts32(base, 0);
    let p = unsigned32(base) + offset;
    let s = m.store.memories[0];
    let w = access_width(op);
    if p + w <= s.len() && p <= u32::MAX {
        assert(step(m).0 =~= (Machine {
            store: Store { memories: step(m).0.store.memories, ..m.store },
            ..consumed(m, 2, at)
        }));
        let b = crate::memory::stored(op, v);
        let t = step(m).0.store.memories[0];
        assert(b.len() == w);
        assert forall|k: int| 0 <= k < w implies #[trigger] b[0 + k] == t[p + k] by {}
        same_bytes(b, 0, t, p, w);
        stored_number(op, v);
    }
}

proof fn same_bytes(s: Seq<u8>, p: int, t: Seq<u8>, q: int, w: int)
    requires
        forall|k: int| 0 <= k < w ==> #[trigger] s[p + k] == t[q + k],
    ensures
        number_at(s, p, w) == number_at(t, q, w),
    decreases w,
{
    if w > 0 {
        assert(s[p + 0] == t[q + 0]);
        assert forall|k: int| 0 <= k < w - 1 implies #[trigger] s[p + 1 + k] == t[q + 1 + k] by {
            assert(s[p + (k + 1)] == t[q + (k + 1)]);
        }
        same_bytes(s, p + 1, t, q + 1, w - 1);
    }
}

proof fn little_endian(s: Seq<u8>)
    ensures
        number_at(s, 0, 1) == s[0],
        number_at(s, 0, 2) == le_u16(s, 0),
        number_at(s, 0, 4) == le_u32(s, 0),
        number_at(s, 0, 8) == le_u64(s, 0),
{
    numbers_unfold(s, 0);
}

/// The bytes of a store hold the value, modulo what they can hold.
proof fn stored_number(op: u8, v: Value)
    requires
        0x36 <= op <= 0x3E,
        op == 0x36 || op == 0x3A || op == 0x3B ==> v is I32,
        op == 0x37 || 0x3C <= op ==> v is I64,
        op == 0x38 ==> v is F32,
        op == 0x39 ==> v is F64,
    ensures
        ({
            let w = access_width(op);
            let x = match v {
                Value::I32(x) => unsigned32(x),
                Value::I64(x) => unsigned64(x),
                Value::F32(x) => x as int,
                Value::F64(x) => x as int,
                _ => 0,
            };
            (number_at(crate::memory::stored(op, v), 0, w) - x) % (if w == 1 {
                0x100
            } else if w == 2 {
                0x1_0000
            } else if w == 4 {
                0x1_0000_0000
            } else {
                0x1_0000_0000_0000_0000int
            }) == 0
        }),
{
    match v {
        Value::I32(x) => stored_short(op, x),
        Value::I64(x) => stored_long(op, x),
        Value::F32(x) => {
            little_endian(crate::bytes::u32_bytes(x));
            crate::bytes::u32_round_trip(x);
        },
        Value::F64(x) => {
            little_endian(crate::bytes::u64_bytes(x));
            crate::bytes::u64_round_trip(x);
        },
        _ => {},
    }
}

proof fn stored_short(op: u8, x: i32)
    requires
        op == 0x36 || op == 0x3A || op == 0x3B,
    ensures
        ({
            let n = number_at(crate::memory::stored(op, Value::I32(x)), 0, access_width(op)) - unsigned32(x);
            &&& op == 0x36 ==> n == 0
            &&& op == 0x3A ==> n % 0x100 == 0
            &&& op == 0x3B ==> n % 0x1_0000 == 0
        }),
{
    casts32(x, 0);
    let (y, z, u) = (x as u8, x as u16, x as u32);
    assert((x as u32 - (x as u8)) % 0x100 == 0 && (x as u32 - (x as u16)) % 0x1_0000 == 0) by (bit_vector);
    if op == 0x36 {
        little_endian(crate::bytes::u32_bytes(u));
        crate::bytes::u32_round_trip(u);
    } else if op == 0x3A {
        little_endian(seq![y]);
    } else {
        little_endian(crate::bytes::u16_bytes(z));
        crate::bytes::u16_round_trip(z);
    }
}

#[verifier::spinoff_prover]
#[verifier::rlimit(40)]
proof fn stored_long(op: u8, x: i64)
    requires
        op == 0x37 || 0x3C <= op <= 0x3E,
    ensures
        ({
            let n = number_at(crate::memory::stored(op, Value::I64(x)), 0, access_width(op)) - unsigned64(x);
            &&& op == 0x37 ==> n == 0
            &&& op == 0x3C ==> n % 0x100 == 0
            &&& op == 0x3D ==> n % 0x1_0000 == 0
            &&& op == 0x3E ==> n % 0x1_0000_0000 == 0
        }),
{
    casts64(x, 0);
    let (y, z, u, t) = (x as u8, x as u16, x as u32, x as u64);
    assert((x as u64 - (x as u8)) % 0x100 == 0 && (x as u64 - (x as u16)) % 0x1_0000 == 0 && (x as u64 - (x as u32))
        % 0x1_0000_0000 == 0) by (bit_vector);
    if op == 0x37 {
        little_endian(crate::bytes::u64_bytes(t));
        crate::bytes::u64_round_trip(t);
    } else if op == 0x3C {
        little_endian(seq![y]);
    } else if op == 0x3D {
        little_endian(crate::bytes::u16_bytes(z));
        crate::bytes::u16_round_trip(z);
    } else {
        little_endian(crate::bytes::u32_bytes(u));
        crate::bytes::u32_round_trip(u);
    }
}

/// Bit six of the flags of a load announces, where several memories are allowed, the index
/// of the memory.
pub proof fn loads_name_their_memory(
    m: Machine,
    flags: u32,
    q: int,
    mi: u32,
    x: int,
    offset: u32,
    at: int,
    base: i32,
)
    requires
        faces(m, 0x2D),
        indexed_memarg(m, m.pc + 1, flags, q, mi, x, offset, at),
        m.stack_ptr > 0,
        operand(m, 0) == Value::I32(base),
        mi < m.store.memories.len(),
        unsigned32(base) + offset < m.store.memories[mi as int].len(),
        unsigned32(base) + offset <= u32::MAX,
    ensures
        yields_at(m, 1, Value::I32(m.store.memories[mi as int][unsigned32(base) + offset] as i32), at),
{
    reveal(instruction);
    step_executes(m, 0x2D);
    casts32(base, 0);
    assert(flags / 64 == 1);
    assert(step(m).0 =~= replaced(
        m,
        1,
        Value::I32(m.store.memories[mi as int][unsigned32(base) + offset] as i32),
        at,
    ));
}

/// In the class without floating point, loads, stores, constants and numeric instructions
/// on floating-point values trap.
pub proof fn floats_can_be_disabled(m: Machine, op: u8)
    requires
        faces(m, op),
        m.store.class == RuntimeClass::ProofGrade,
        op == 0x2A || op == 0x2B || op == 0x38 || op == 0x39 || op == 0x43 || op == 0x44 || 0x5B <= op <= 0x66 || 0x8B
            <= op <= 0xA6 || 0xA8 <= op <= 0xAB || 0xAE <= op <= 0xBF,
    ensures
        traps(m, WasmError::FloatsDisabled),
        step(m).0.store == m.store,
{
    reveal(instruction);
    step_executes(m, op);
}

// ---------------------------------------------------------------------------
// Size and growth

/// `memory.size` gives the number of whole pages of 64 KiB.
pub proof fn memory_size_counts_pages(m: Machine, at: int)
    requires
        faces(m, 0x3F),
        leb_u32(m.store.module.code, m.pc + 1) == (Ok::<u32, WasmError>(0), at),
        m.stack_ptr < MAX_STACK,
        m.store.memories.len() > 0,
        m.store.module.memories.len() > 0,
        m.store.module.memories[0].page_size_log2 is None,
        !m.store.module.memories[0].is_memory64,
        m.store.memories[0].len() <= 0xFFFF_FFFF,
    ensures
        ({
            let x = result_of(m, 0)->I32_0;
            let n = m.store.memories[0].len();
            yields_at(m, 0, Value::I32(x), at) && x * 0x1_0000 <= n < (x + 1) * 0x1_0000
        }),
{
    reveal(instruction);
    step_executes(m, 0x3F);
    let n = m.store.memories[0].len() as int;
    assert(step(m).0 =~= replaced(m, 0, Value::I32((n / 0x1_0000) as i32), at));
}

/// `memory.grow` by `d` pages gives the old number of pages and adds that many pages of
/// zeros, or, beyond the declared maximum, gives minus one and changes nothing.
pub proof fn memory_grow_grows(m: Machine, at: int, d: i32, old_pages: int)
    requires
        faces(m, 0x40),
        leb_u32(m.store.module.code, m.pc + 1) == (Ok::<u32, WasmError>(0), at),
        m.stack_ptr > 0,
        operand(m, 0) == Value::I32(d),
        m.store.memories.len() > 0,
        m.store.module.memories.len() > 0,
        m.store.module.memories[0].page_size_log2 is None,
        !m.store.module.memories[0].is_memory64,
        m.store.module.memories[0].max_pages <= 0x8000,
        0 <= old_pages <= 0x8000,
        m.store.memories[0].len() == old_pages * 0x1_0000,
    ensures
        ({
            let most = m.store.module.memories[0].max_pages as int;
            let r = step(m).0;
            if old_pages + unsigned32(d) <= most {
                &&& step(m).1 == Outcome::Completed
                &&& result_of(m, 1) == Value::I32(old_pages as i32)
                &&& r.stack_ptr == m.stack_ptr && r.pc == at
                &&& r.store.memories[0].len() == (old_pages + unsigned32(d)) * 0x1_0000
                &&& forall|k: int|
                    0 <= k < r.store.memories[0].len() ==> #[trigger] r.store.memories[0][k] == if k
                        < m.store.memories[0].len() {
                        m.store.memories[0][k]
                    } else {
                        0u8
                    }
                &&& forall|j: int| 0 < j < m.store.memories.len() ==> r.store.memories[j] == m.store.memories[j]
            } else {
                yields_at(m, 1, Value::I32(-1i32), at)
            }
        }),
{
    reveal(instruction);
    step_executes(m, 0x40);
    casts32(d, 0);
    assert((old_pages * 0x1_0000) / 0x1_0000 == old_pages);
    assert(m.store.page_size(0) == 0x1_0000);
    let most = m.store.module.memories[0].max_pages as int;
    assert(m.store.max_pages(0) == most);
    let minus: i64 = (-1) as i64;
    assert(minus as i32 == -1) by (bit_vector)
        requires
            minus == -1,
    ;
    if old_pages + unsigned32(d) > most {
        assert(step(m).0 =~= replaced(m, 1, Value::I32(-1i32), at));
    } else {
        let pages = old_pages + unsigned32(d);
        let s = crate::memory::grown(m.store, 0, pages);
        assert(s.memories[0].len() == pages * 0x1_0000);
        assert(step(m).0.store == s);
        assert(step(m).1 == Outcome::Completed);
        assert(result_of(m, 1) == Value::I32(old_pages as i32));
    }
}

} // verus!
