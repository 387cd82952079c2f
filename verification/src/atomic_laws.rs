//! What the atomic instructions read and write.

use vstd::prelude::*;
use crate::atomics::{atomic_instruction, low_bytes, low_bytes_read_back, number, span};
use crate::bytes::{le_u16, le_u32, le_u64};
use crate::machine::{Machine, Outcome};
use crate::memory_laws::{number_at, numbers_unfold, plain_memarg};
use crate::scalar_laws::{casts32, casts64, unsigned32, unsigned64};
use crate::situation::{
    consumed, faces_prefixed, operand, replaced, result_of, step_executes, traps, yields_at,
};
use crate::step::{instruction, step};
use crate::types::{Value, WasmError};

verus! {

proof fn enters_atomic(m: Machine, sub: u32, at: int)
    requires
        faces_prefixed(m, 0xFE, sub, at),
    ensures
        step(m) == crate::calls::carried_out(
            atomic_instruction(Machine { pc: at, fuel: (m.fuel - 1) as u64, ..m }, sub),
        ),
{
    reveal(instruction);
    step_executes(m, 0xFE);
}

/// Bytes of the access with this number: 32 and 64 bits, then 8 and 16 bits of a 32-bit
/// value, then 8, 16 and 32 bits of a 64-bit one.
pub open spec fn bytes_of_access(k: int) -> int {
    if k == 1 {
        8
    } else if k == 2 || k == 4 {
        1
    } else if k == 3 || k == 5 {
        2
    } else {
        4
    }
}

/// Whether the access with this number is of a 64-bit value.
pub open spec fn of_long(k: int) -> bool {
    k == 1 || k == 4 || k == 5 || k == 6
}

/// What so many bytes can hold.
pub open spec fn capacity(w: int) -> int {
    if w == 1 {
        0x100
    } else if w == 2 {
        0x1_0000
    } else if w == 4 {
        0x1_0000_0000
    } else {
        0x1_0000_0000_0000_0000
    }
}

/// The unsigned number that an integer value holds.
pub open spec fn held(v: Value) -> int {
    match v {
        Value::I32(x) => unsigned32(x),
        Value::I64(x) => unsigned64(x),
        _ => 0,
    }
}

/// Whether a value has the type of the access with this number.
pub open spec fn fits_access(v: Value, k: int) -> bool {
    if of_long(k) {
        v is I64
    } else {
        v is I32
    }
}

proof fn bytes_are_number(s: Seq<u8>, p: int, w: int)
    requires
        w == 1 || w == 2 || w == 4 || w == 8,
        0 <= p,
        p + w <= s.len(),
    ensures
        number(s.subrange(p, p + w)) == number_at(s, p, w),
        0 <= number_at(s, p, w) < capacity(w),
{
    let b = s.subrange(p, p + w);
    numbers_unfold(s, p);
    if w == 2 {
        assert(le_u16(b, 0) == le_u16(s, p));
    } else if w == 4 {
        assert(le_u32(b, 0) == le_u32(s, p));
    } else if w == 8 {
        assert(le_u32(b, 0) == le_u32(s, p) && le_u32(b, 4) == le_u32(s, p + 4));
        assert(le_u64(b, 0) == le_u64(s, p));
    }
}

proof fn written_number(s: Seq<u8>, t: Seq<u8>, p: int, w: int, x: u64)
    requires
        w == 1 || w == 2 || w == 4 || w == 8,
        0 <= p,
        p + w <= s.len(),
        t == crate::machine::splice(s, p, low_bytes(x, w)),
    ensures
        t.len() == s.len(),
        number_at(t, p, w) == x as int % capacity(w),
        forall|k: int| 0 <= k < p || p + w <= k < s.len() ==> #[trigger] t[k] == s[k],
{
    low_bytes_read_back(x, w);
    assert(t.subrange(p, p + w) =~= low_bytes(x, w));
    bytes_are_number(t, p, w);
}

/// Atomic loads give the unsigned number at the base plus the offset, which must be a
/// multiple of the bytes read.
pub proof fn atomic_loads_read(m: Machine, k: int, p: int, flags: u32, q: int, offset: u32, at: int, base: i32)
    requires
        0 <= k <= 6,
        faces_prefixed(m, 0xFE, (0x10 + k) as u32, p),
        plain_memarg(m, p, flags, q, offset, at),
        m.stack_ptr > 0,
        operand(m, 0) == Value::I32(base),
        m.store.memories.len() > 0,
    ensures
        ({
            let a = unsigned32(base) + offset;
            let w = bytes_of_access(k);
            let s = m.store.memories[0];
            let v = result_of(m, 1);
            if a > u32::MAX {
                traps(m, WasmError::MemoryOutOfBounds)
            } else if a % w != 0 {
                traps(m, WasmError::UnalignedAtomic)
            } else if a + w > s.len() {
                traps(m, WasmError::MemoryOutOfBounds)
            } else {
                yields_at(m, 1, v, at) && fits_access(v, k) && held(v) == number_at(s, a, w)
            }
        }),
{
    enters_atomic(m, (0x10 + k) as u32, p);
    casts32(base, 0);
    let a = unsigned32(base) + offset;
    let w = bytes_of_access(k);
    let s = m.store.memories[0];
    if a <= u32::MAX && a % w == 0 && a + w <= s.len() {
        bytes_are_number(s, a, w);
        let x = number(s.subrange(a, a + w));
        casts32(0, x as u32);
        casts64(0, x);
        assert(step(m).0 =~= replaced(m, 1, result_of(m, 1), at));
    }
}

/// Atomic stores write the low bytes of the value, and nothing else.
pub proof fn atomic_stores_write(
    m: Machine,
    k: int,
    p: int,
    flags: u32,
    q: int,
    offset: u32,
    at: int,
    base: i32,
    v: Value,
)
    requires
        0 <= k <= 6,
        faces_prefixed(m, 0xFE, (0x17 + k) as u32, p),
        plain_memarg(m, p, flags, q, offset, at),
        m.stack_ptr > 1,
        operand(m, 1) == Value::I32(base),
        operand(m, 0) == v,
        fits_access(v, k),
        m.store.memories.len() > 0,
        unsigned32(base) + offset <= u32::MAX,
        (unsigned32(base) + offset) % bytes_of_access(k) == 0,
        unsigned32(base) + offset + bytes_of_access(k) <= m.store.memories[0].len(),
    ensures
        ({
            let a = unsigned32(base) + offset;
            let w = bytes_of_access(k);
            let (s, t) = (m.store.memories[0], step(m).0.store.memories[0]);
            &&& step(m).1 == Outcome::Completed
            &&& step(m).0.stack_ptr == m.stack_ptr - 2 && step(m).0.pc == at
            &&& t.len() == s.len()
            &&& number_at(t, a, w) == held(v) % capacity(w)
            &&& forall|j: int| 0 <= j < a || a + w <= j < s.len() ==> #[trigger] t[j] == s[j]
        }),
{
    enters_atomic(m, (0x17 + k) as u32, p);
    casts32(base, 0);
    held_number(v, k);
    let a = unsigned32(base) + offset;
    let w = bytes_of_access(k);
    let (s, t) = (m.store.memories[0], step(m).0.store.memories[0]);
    let x = crate::atomics::operand(v, of_long(k));
    assert(t == crate::machine::splice(s, a, low_bytes(x, w)));
    written_number(s, t, a, w, x);
}

proof fn held_number(v: Value, k: int)
    requires
        fits_access(v, k),
    ensures
        crate::atomics::operand(v, of_long(k)) == held(v),
{
    match v {
        Value::I32(x) => casts32(x, 0),
        Value::I64(x) => casts64(x, 0),
        _ => {},
    }
}

/// Atomic modifications give the number that was there and leave in its place the sum, the
/// difference, the bitwise combinations and the operand itself, in this order of the
/// instructions, cut to the bytes of the access.
#[verifier::spinoff_prover]
#[verifier::rlimit(80)]
pub proof fn atomic_modifications(
    m: Machine,
    op: int,
    k: int,
    p: int,
    flags: u32,
    q: int,
    offset: u32,
    at: int,
    base: i32,
    v: Value,
)
    requires
        0 <= op <= 5,
        0 <= k <= 6,
        faces_prefixed(m, 0xFE, (0x1E + 7 * op + k) as u32, p),
        plain_memarg(m, p, flags, q, offset, at),
        m.stack_ptr > 1,
        operand(m, 1) == Value::I32(base),
        operand(m, 0) == v,
        fits_access(v, k),
        m.store.memories.len() > 0,
        unsigned32(base) + offset <= u32::MAX,
        (unsigned32(base) + offset) % bytes_of_access(k) == 0,
        unsigned32(base) + offset + bytes_of_access(k) <= m.store.memories[0].len(),
    ensures
        ({
            let a = unsigned32(base) + offset;
            let w = bytes_of_access(k);
            let (s, t) = (m.store.memories[0], step(m).0.store.memories[0]);
            let (x, y) = (number_at(s, a, w), held(v));
            let z = number_at(t, a, w);
            let r = result_of(m, 2);
            &&& step(m).1 == Outcome::Completed
            &&& step(m).0.stack_ptr == m.stack_ptr - 1 && step(m).0.pc == at
            &&& fits_access(r, k) && held(r) == x
            &&& t.len() == s.len()
            &&& forall|j: int| 0 <= j < a || a + w <= j < s.len() ==> #[trigger] t[j] == s[j]
            &&& op == 0 ==> z == (x + y) % capacity(w)
            &&& op == 1 ==> z == (x - y) % capacity(w)
            &&& op == 2 ==> z == (x as u64 & y as u64) as int % capacity(w)
            &&& op == 3 ==> z == (x as u64 | y as u64) as int % capacity(w)
            &&& op == 4 ==> z == (x as u64 ^ y as u64) as int % capacity(w)
            &&& op == 5 ==> z == y % capacity(w)
        }),
{
    let sub = (0x1E + 7 * op + k) as u32;
    enters_atomic(m, sub, p);
    assert((sub - 0x1E) / 7 == op && (sub - 0x1E) % 7 == k);
    casts32(base, 0);
    held_number(v, k);
    let a = unsigned32(base) + offset;
    let w = bytes_of_access(k);
    let (s, t) = (m.store.memories[0], step(m).0.store.memories[0]);
    bytes_are_number(s, a, w);
    let x = number(s.subrange(a, a + w));
    let y = crate::atomics::operand(v, of_long(k));
    casts32(0, x as u32);
    casts64(0, x);
    let z = crate::atomics::modified(op as u32, x, y);
    assert(t == crate::machine::splice(s, a, low_bytes(z, w)));
    written_number(s, t, a, w, z);
    if op <= 1 {
        wrapped_modulo(x, y, w);
    }
}

proof fn wrapped_modulo(x: u64, y: u64, w: int)
    requires
        w == 1 || w == 2 || w == 4 || w == 8,
    ensures
        x.wrapping_add(y) as int % capacity(w) == (x + y) % capacity(w),
        x.wrapping_sub(y) as int % capacity(w) == (x - y) % capacity(w),
{
    if w == 1 {
    } else if w == 2 {
    } else if w == 4 {
    } else {
        assert(w == 8);
    }
}

/// The atomic compare and exchange gives the number that was there, and puts the
/// replacement in its place exactly where that number is the one expected, cut to the bytes
/// of the access.
#[verifier::spinoff_prover]
#[verifier::rlimit(40)]
pub proof fn atomic_exchanges(
    m: Machine,
    k: int,
    p: int,
    flags: u32,
    q: int,
    offset: u32,
    at: int,
    base: i32,
    e: Value,
    v: Value,
)
    requires
        0 <= k <= 6,
        faces_prefixed(m, 0xFE, (0x48 + k) as u32, p),
        plain_memarg(m, p, flags, q, offset, at),
        m.stack_ptr > 2,
        operand(m, 2) == Value::I32(base),
        operand(m, 1) == e,
        operand(m, 0) == v,
        fits_access(e, k),
        fits_access(v, k),
        m.store.memories.len() > 0,
        unsigned32(base) + offset <= u32::MAX,
        (unsigned32(base) + offset) % bytes_of_access(k) == 0,
        unsigned32(base) + offset + bytes_of_access(k) <= m.store.memories[0].len(),
    ensures
        ({
            let a = unsigned32(base) + offset;
            let w = bytes_of_access(k);
            let (s, t) = (m.store.memories[0], step(m).0.store.memories[0]);
            let x = number_at(s, a, w);
            let r = result_of(m, 3);
            &&& step(m).1 == Outcome::Completed
            &&& step(m).0.stack_ptr == m.stack_ptr - 2 && step(m).0.pc == at
            &&& fits_access(r, k) && held(r) == x
            &&& x != held(e) % capacity(w) ==> step(m).0.store == m.store
            &&& x == held(e) % capacity(w) ==> {
                &&& t.len() == s.len()
                &&& number_at(t, a, w) == held(v) % capacity(w)
                &&& forall|j: int| 0 <= j < a || a + w <= j < s.len() ==> #[trigger] t[j] == s[j]
            }
        }),
{
    enters_atomic(m, (0x48 + k) as u32, p);
    casts32(base, 0);
    held_number(v, k);
    held_number(e, k);
    let a = unsigned32(base) + offset;
    let w = bytes_of_access(k);
    let (s, t) = (m.store.memories[0], step(m).0.store.memories[0]);
    bytes_are_number(s, a, w);
    let x = number(s.subrange(a, a + w));
    let y = crate::atomics::operand(v, of_long(k));
    casts32(0, x as u32);
    casts64(0, x);
    assert(span(w) == capacity(w));
    if x == held(e) % capacity(w) {
        assert(t == crate::machine::splice(s, a, low_bytes(y, w)));
        written_number(s, t, a, w, y);
    }
}

/// `memory.atomic.notify` wakes none, and waits are over at once with the answer that the value
/// had changed; both look only whether the address is aligned and lies within the memory.
pub proof fn waits_end_at_once(m: Machine, sub: u32, p: int, flags: u32, q: int, offset: u32, at: int, base: i32)
    requires
        sub <= 2,
        faces_prefixed(m, 0xFE, sub, p),
        plain_memarg(m, p, flags, q, offset, at),
        m.stack_ptr > (if sub == 0 { 1int } else { 2int }),
        operand(m, if sub == 0 { 1 } else { 2 }) == Value::I32(base),
        m.store.memories.len() > 0,
    ensures
        ({
            let a = unsigned32(base) + offset;
            let w: int = if sub == 2 { 8 } else { 4 };
            let n: int = if sub == 0 { 2 } else { 3 };
            if a > u32::MAX {
                traps(m, WasmError::MemoryOutOfBounds)
            } else if a % w != 0 {
                traps(m, WasmError::UnalignedAtomic)
            } else if a + w > m.store.memories[0].len() {
                traps(m, WasmError::MemoryOutOfBounds)
            } else {
                yields_at(m, n, Value::I32(if sub == 0 { 0 } else { 1 }), at)
            }
        }),
{
    enters_atomic(m, sub, p);
    casts32(base, 0);
    let a = unsigned32(base) + offset;
    let w: int = if sub == 2 { 8 } else { 4 };
    let n: int = if sub == 0 { 2 } else { 3 };
    if a <= u32::MAX && a % w == 0 && a + w <= m.store.memories[0].len() {
        assert(step(m).0 =~= replaced(m, n, Value::I32(if sub == 0 { 0 } else { 1 }), at));
    }
}

/// `atomic.fence` passes over one byte and does nothing.
pub proof fn fence_does_nothing(m: Machine, p: int)
    requires
        faces_prefixed(m, 0xFE, 3, p),
        0 <= p < m.store.module.code.len(),
    ensures
        step(m) == (consumed(m, 0, p + 1), Outcome::Completed),
{
    enters_atomic(m, 3, p);
}

} // verus!
