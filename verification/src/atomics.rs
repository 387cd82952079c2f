//! Instructions with the prefix 0xFE: atomic accesses to memory. One thread runs, so
//! they are plain accesses to aligned addresses.

use vstd::prelude::*;
use crate::bytes::{le_u16, le_u32, le_u64, read_u16, read_u32, read_u64, u64_bytes};
use crate::machine::{follow, Done, Machine, WasmInstance};
use crate::memory::{bytes_of_u64, pop_address};
use crate::types::{Value, WasmError};

verus! {

/// Bytes that the access numbered `k` touches. The accesses are those of 32 and 64
/// bits, then 8 and 16 bits of a 32-bit value, then 8, 16 and 32 bits of a 64-bit one.
pub open spec fn width(k: u32) -> int {
    match k {
        0 => 4,
        1 => 8,
        2 => 1,
        3 => 2,
        4 => 1,
        5 => 2,
        _ => 4,
    }
}

/// Whether the access numbered `k` is of a 64-bit value.
pub open spec fn is_long(k: u32) -> bool {
    k == 1 || k >= 4
}

/// The number that bytes hold.
pub open spec fn number(b: Seq<u8>) -> u64 {
    if b.len() == 1 {
        b[0] as u64
    } else if b.len() == 2 {
        le_u16(b, 0) as u64
    } else if b.len() == 4 {
        le_u32(b, 0) as u64
    } else {
        le_u64(b, 0)
    }
}

/// The number of values that bytes can hold.
pub open spec fn span(w: int) -> int {
    if w == 1 {
        0x100
    } else if w == 2 {
        0x1_0000
    } else if w == 4 {
        0x1_0000_0000
    } else {
        0x1_0000_0000_0000_0000
    }
}

/// The low bytes of a number.
pub open spec fn low_bytes(x: u64, w: int) -> Seq<u8> {
    u64_bytes(x).take(w)
}

/// A number as a value of 32 or 64 bits.
pub open spec fn as_value(x: u64, long: bool) -> Value {
    if long {
        Value::I64(x as i64)
    } else {
        Value::I32(x as u32 as i32)
    }
}

/// The number that a value of 32 or 64 bits stands for, without sign.
pub open spec fn operand(v: Value, long: bool) -> u64 {
    if long {
        v.i64_or_zero() as u64
    } else {
        v.i32_or_zero() as u32 as u64
    }
}

/// Pops an address that must be aligned.
pub open spec fn pop_aligned(m: Machine, offset: u32, align: int) -> Done<u32> {
    follow(
        pop_address(m, offset),
        |m: Machine, a: u32|
            if a as int % align != 0 {
                (m, Err(WasmError::UnalignedAtomic))
            } else {
                (m, Ok(a))
            },
    )
}

pub open spec fn atomic_load(m: Machine, k: u32) -> Done<()> {
    follow(
        m.read_memarg(),
        |m: Machine, g: (u32, u32)|
            follow(
                pop_aligned(m, g.1, width(k)),
                |m: Machine, a: u32|
                    follow(
                        (m, m.store.mem_read(g.0 as int, a as int, width(k))),
                        |m: Machine, b: Seq<u8>| m.push(as_value(number(b), is_long(k))),
                    ),
            ),
    )
}

pub open spec fn atomic_store(m: Machine, k: u32) -> Done<()> {
    follow(
        m.read_memarg(),
        |m: Machine, g: (u32, u32)|
            follow(
                m.pop(),
                |m: Machine, v: Value|
                    follow(
                        pop_aligned(m, g.1, width(k)),
                        |m: Machine, a: u32|
                            m.mem_write(g.0 as int, a as int, low_bytes(operand(v, is_long(k)), width(k))),
                    ),
            ),
    )
}

/// What the modification numbered `op` makes of the number in memory: add, subtract,
/// and, or, exclusive or, exchange.
pub open spec fn modified(op: u32, old_value: u64, v: u64) -> u64 {
    match op {
        0 => old_value.wrapping_add(v),
        1 => old_value.wrapping_sub(v),
        2 => old_value & v,
        3 => old_value | v,
        4 => old_value ^ v,
        _ => v,
    }
}

/// Modifies the number at an address and pushes the one that was there.
pub open spec fn atomic_modify(m: Machine, op: u32, k: u32) -> Done<()> {
    follow(
        m.read_memarg(),
        |m: Machine, g: (u32, u32)|
            follow(
                m.pop(),
                |m: Machine, v: Value|
                    follow(
                        pop_aligned(m, g.1, width(k)),
                        |m: Machine, a: u32|
                            follow(
                                (m, m.store.mem_read(g.0 as int, a as int, width(k))),
                                |m: Machine, b: Seq<u8>|
                                    follow(
                                        m.mem_write(
                                            g.0 as int,
                                            a as int,
                                            low_bytes(modified(op, number(b), operand(v, is_long(k))), width(k)),
                                        ),
                                        |m: Machine, u: ()| m.push(as_value(number(b), is_long(k))),
                                    ),
                            ),
                    ),
            ),
    )
}

/// Replaces the number at an address where it is the one expected, and pushes the one
/// that was there.
pub open spec fn atomic_exchange(m: Machine, k: u32) -> Done<()> {
    follow(
        m.read_memarg(),
        |m: Machine, g: (u32, u32)|
            follow(
                m.pop(),
                |m: Machine, v: Value|
                    follow(
                        m.pop(),
                        |m: Machine, expected: Value|
                            follow(
                                pop_aligned(m, g.1, width(k)),
                                |m: Machine, a: u32|
                                    follow(
                                        (m, m.store.mem_read(g.0 as int, a as int, width(k))),
                                        |m: Machine, b: Seq<u8>|
                                            follow(
                                                if number(b) == operand(expected, is_long(k)) as int % span(
                                                    width(k),
                                                ) {
                                                    m.mem_write(
                                                        g.0 as int,
                                                        a as int,
                                                        low_bytes(operand(v, is_long(k)), width(k)),
                                                    )
                                                } else {
                                                    (m, Ok(()))
                                                },
                                                |m: Machine, u: ()| m.push(as_value(number(b), is_long(k))),
                                            ),
                                    ),
                            ),
                    ),
            ),
    )
}

/// Tests the address of a wait or notification.
pub open spec fn atomic_probe(m: Machine, g: (u32, u32), w: int, answer: i32) -> Done<()> {
    follow(
        pop_aligned(m, g.1, w),
        |m: Machine, a: u32|
            follow(
                (m, m.store.mem_read(g.0 as int, a as int, w)),
                |m: Machine, b: Seq<u8>| m.push(Value::I32(answer)),
            ),
    )
}

/// Nobody waits, so nobody is notified.
pub open spec fn atomic_notify(m: Machine) -> Done<()> {
    follow(
        m.read_memarg(),
        |m: Machine, g: (u32, u32)| follow(m.pop(), |m: Machine, v: Value| atomic_probe(m, g, 4, 0)),
    )
}

/// A wait is over at once.
pub open spec fn atomic_wait(m: Machine, w: int) -> Done<()> {
    follow(
        m.read_memarg(),
        |m: Machine, g: (u32, u32)|
            follow(
                m.pop(),
                |m: Machine, timeout: Value|
                    follow(m.pop(), |m: Machine, expected: Value| atomic_probe(m, g, w, 1)),
            ),
    )
}

/// Executes the instruction with the prefix 0xFE and this number.
pub open spec fn atomic_instruction(m: Machine, sub: u32) -> Done<()> {
    if sub == 0 {
        atomic_notify(m)
    } else if sub == 1 {
        atomic_wait(m, 4)
    } else if sub == 2 {
        atomic_wait(m, 8)
    } else if sub == 3 {
        follow(m.read_byte(), |m: Machine, b: u8| (m, Ok(())))
    } else if 0x10 <= sub <= 0x16 {
        atomic_load(m, (sub - 0x10) as u32)
    } else if 0x17 <= sub <= 0x1D {
        atomic_store(m, (sub - 0x17) as u32)
    } else if 0x1E <= sub <= 0x47 {
        atomic_modify(m, ((sub - 0x1E) / 7) as u32, ((sub - 0x1E) % 7) as u32)
    } else if 0x48 <= sub <= 0x4E {
        atomic_exchange(m, (sub - 0x48) as u32)
    } else {
        (m, Err(WasmError::InvalidOpcode(0xFE)))
    }
}

/// Storing the low bytes of a number and reading them back gives the number modulo
/// what the bytes can hold.
pub proof fn low_bytes_read_back(x: u64, w: int)
    requires
        w == 1 || w == 2 || w == 4 || w == 8,
    ensures
        number(low_bytes(x, w)) == x as int % span(w),
{
    crate::bytes::u64_round_trip(x);
    let b = u64_bytes(x);
    let l = low_bytes(x, w);
    assert(forall|i: int| 0 <= i < w ==> l[i] == b[i]);
    if w == 8 {
        assert(l =~= b);
    }
}

// ---------------------------------------------------------------------------
// Execution

fn width_of(k: u32) -> (r: usize)
    ensures
        r == width(k),
        r > 0,
{
    match k {
        0 => 4,
        1 => 8,
        2 => 1,
        3 => 2,
        4 => 1,
        5 => 2,
        _ => 4,
    }
}

fn number_of(b: &[u8]) -> (r: u64)
    requires
        b@.len() == 1 || b@.len() == 2 || b@.len() == 4 || b@.len() == 8,
    ensures
        r == number(b@),
{
    match b.len() {
        1 => b[0] as u64,
        2 => read_u16(b, 0) as u64,
        4 => read_u32(b, 0) as u64,
        _ => read_u64(b, 0),
    }
}

fn bytes_of_low(x: u64, w: usize) -> (r: Vec<u8>)
    requires
        w <= 8,
    ensures
        r@ == low_bytes(x, w as int),
        r@.len() == w,
{
    let mut r = bytes_of_u64(x);
    r.truncate(w);
    assert(r@ =~= low_bytes(x, w as int));
    r
}

fn value_of_number(x: u64, long: bool) -> (r: Value)
    ensures
        r == as_value(x, long),
{
    if long {
        Value::I64(x as i64)
    } else {
        Value::I32((x as u32) as i32)
    }
}

fn operand_of(v: Value, long: bool) -> (r: u64)
    ensures
        r == operand(v, long),
{
    if long {
        v.as_i64() as u64
    } else {
        (v.as_i32() as u32) as u64
    }
}

fn modify(op: u32, x: u64, v: u64) -> (r: u64)
    ensures
        r == modified(op, x, v),
{
    match op {
        0 => x.wrapping_add(v),
        1 => x.wrapping_sub(v),
        2 => x & v,
        3 => x | v,
        4 => x ^ v,
        _ => v,
    }
}

fn expectation(x: u64, w: usize) -> (r: u64)
    ensures
        r == x as int % span(w as int),
{
    match w {
        1 => x % 0x100,
        2 => x % 0x1_0000,
        4 => x % 0x1_0000_0000,
        _ => x,
    }
}

impl WasmInstance {
    fn pop_aligned(&mut self, offset: u32, align: usize) -> (r: Result<u32, WasmError>)
        requires
            old(self).wf(),
            align > 0,
            align <= 8,
        ensures
            (final(self)@, r) == pop_aligned(old(self)@, offset, align as int),
            final(self).wf(),
    {
        let a: u32 = self.pop_address(offset)?;
        if a % (align as u32) != 0 {
            return Err(WasmError::UnalignedAtomic);
        }
        Ok(a)
    }

    fn exec_atomic_load(&mut self, k: u32) -> (r: Result<(), WasmError>)
        requires
            old(self).wf(),
        ensures
            (final(self)@, r) == atomic_load(old(self)@, k),
            final(self).wf(),
    {
        let w: usize = width_of(k);
        let (mi, offset) = self.read_memarg()?;
        let a: u32 = self.pop_aligned(offset, w)?;
        let x: u64 = number_of(self.mem_read(mi, a, w)?);
        self.push(value_of_number(x, k == 1 || k >= 4))
    }

    fn exec_atomic_store(&mut self, k: u32) -> (r: Result<(), WasmError>)
        requires
            old(self).wf(),
        ensures
            (final(self)@, r) == atomic_store(old(self)@, k),
            final(self).wf(),
    {
        let w: usize = width_of(k);
        let (mi, offset) = self.read_memarg()?;
        let v = self.pop()?;
        let a: u32 = self.pop_aligned(offset, w)?;
        let b = bytes_of_low(operand_of(v, k == 1 || k >= 4), w);
        self.mem_write(mi, a, b.as_slice())
    }

    fn exec_atomic_modify(&mut self, op: u32, k: u32) -> (r: Result<(), WasmError>)
        requires
            old(self).wf(),
        ensures
            (final(self)@, r) == atomic_modify(old(self)@, op, k),
            final(self).wf(),
    {
        let w: usize = width_of(k);
        let long: bool = k == 1 || k >= 4;
        let (mi, offset) = self.read_memarg()?;
        let v = self.pop()?;
        let a: u32 = self.pop_aligned(offset, w)?;
        let x: u64 = number_of(self.mem_read(mi, a, w)?);
        let b = bytes_of_low(modify(op, x, operand_of(v, long)), w);
        self.mem_write(mi, a, b.as_slice())?;
        self.push(value_of_number(x, long))
    }

    fn exec_atomic_exchange(&mut self, k: u32) -> (r: Result<(), WasmError>)
        requires
            old(self).wf(),
        ensures
            (final(self)@, r) == atomic_exchange(old(self)@, k),
            final(self).wf(),
    {
        let w: usize = width_of(k);
        let long: bool = k == 1 || k >= 4;
        let (mi, offset) = self.read_memarg()?;
        let v = self.pop()?;
        let expected = self.pop()?;
        let a: u32 = self.pop_aligned(offset, w)?;
        let x: u64 = number_of(self.mem_read(mi, a, w)?);
        if x == expectation(operand_of(expected, long), w) {
            let b = bytes_of_low(operand_of(v, long), w);
            self.mem_write(mi, a, b.as_slice())?;
        }
        self.push(value_of_number(x, long))
    }

    fn exec_atomic_probe(&mut self, mi: u32, offset: u32, w: usize, answer: i32) -> (r: Result<(), WasmError>)
        requires
            old(self).wf(),
            0 < w <= 8,
        ensures
            (final(self)@, r) == atomic_probe(old(self)@, (mi, offset), w as int, answer),
            final(self).wf(),
    {
        let a: u32 = self.pop_aligned(offset, w)?;
        self.mem_read(mi, a, w)?;
        self.push(Value::I32(answer))
    }

    fn exec_atomic_notify(&mut self) -> (r: Result<(), WasmError>)
        requires
            old(self).wf(),
        ensures
            (final(self)@, r) == atomic_notify(old(self)@),
            final(self).wf(),
    {
        let (mi, offset) = self.read_memarg()?;
        self.pop()?;
        self.exec_atomic_probe(mi, offset, 4, 0)
    }

    fn exec_atomic_wait(&mut self, w: usize) -> (r: Result<(), WasmError>)
        requires
            old(self).wf(),
            0 < w <= 8,
        ensures
            (final(self)@, r) == atomic_wait(old(self)@, w as int),
            final(self).wf(),
    {
        let (mi, offset) = self.read_memarg()?;
        self.pop()?;
        self.pop()?;
        self.exec_atomic_probe(mi, offset, w, 1)
    }

    /// Executes the instruction with the prefix 0xFE and this number.
    pub fn exec_atomic(&mut self, sub: u32) -> (r: Result<(), WasmError>)
        requires
            old(self).wf(),
        ensures
            (final(self)@, r) == atomic_instruction(old(self)@, sub),
            final(self).wf(),
    {
        if sub == 0 {
            self.exec_atomic_notify()
        } else if sub == 1 {
            self.exec_atomic_wait(4)
        } else if sub == 2 {
            self.exec_atomic_wait(8)
        } else if sub == 3 {
            self.read_byte()?;
            Ok(())
        } else if 0x10 <= sub && sub <= 0x16 {
            self.exec_atomic_load(sub - 0x10)
        } else if 0x17 <= sub && sub <= 0x1D {
            self.exec_atomic_store(sub - 0x17)
        } else if 0x1E <= sub && sub <= 0x47 {
            self.exec_atomic_modify((sub - 0x1E) / 7, (sub - 0x1E) % 7)
        } else if 0x48 <= sub && sub <= 0x4E {
            self.exec_atomic_exchange(sub - 0x48)
        } else {
            Err(WasmError::InvalidOpcode(0xFE))
        }
    }
}

} // verus!
