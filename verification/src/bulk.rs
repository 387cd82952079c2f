//! Instructions with the prefix 0xFC: saturating conversions, bulk operations on
//! memories and tables, and arithmetic on 128 bits.

use vstd::prelude::*;
use crate::machine::{follow, splice, Done, Machine, Store, WasmInstance};
use crate::module::{group_views, views};
use crate::numeric::{compute_sat_trunc, sat_trunc};
use crate::plain::{slot_of_value, value_slot};
use crate::types::{RuntimeClass, Value, WasmError, MAX_TABLE_SIZE};

verus! {

broadcast use group_views;

// ---------------------------------------------------------------------------
// Memories

/// Writes bytes, of which there may be none, to a memory.
pub open spec fn bytes_put(m: Machine, mi: u32, at: u32, b: Seq<u8>) -> Machine {
    if b.len() == 0 {
        m
    } else {
        m.with_store(m.store.mem_written(mi as int, at as int, b))
    }
}

/// Succeeds where `b` holds.
pub open spec fn ensured(m: Machine, b: bool, error: WasmError) -> Done<()> {
    if b {
        (m, Ok(()))
    } else {
        (m, Err(error))
    }
}

/// Copies `n` bytes from `s` of a data segment to `d` of a memory. A dropped segment
/// is empty.
pub open spec fn data_copied(m: Machine, di: u32, mi: u32, d: u32, s: u32, n: u32) -> Done<()> {
    let fits = d + n <= m.store.mem_size(mi as int);
    if m.store.data_dropped(di as int) {
        ensured(m, n == 0 && s == 0 && fits, WasmError::MemoryOutOfBounds)
    } else if di >= m.store.module.data_segments.len() {
        (m, Err(WasmError::MemoryOutOfBounds))
    } else {
        let seg = m.store.module.data_segments[di as int];
        let from = seg.data_offset + s;
        if s + n <= seg.data_len && fits {
            (bytes_put(m, mi, d, m.store.module.code.subrange(from, from + n)), Ok(()))
        } else {
            (m, Err(WasmError::MemoryOutOfBounds))
        }
    }
}

/// Pops three integers: the first pushed comes first.
pub open spec fn pop_three(m: Machine) -> Done<(u32, u32, u32)> {
    follow(
        m.pop_i32(),
        |m: Machine, c: i32|
            follow(
                m.pop_i32(),
                |m: Machine, b: i32|
                    follow(m.pop_i32(), |m: Machine, a: i32| (m, Ok((a as u32, b as u32, c as u32)))),
            ),
    )
}

pub open spec fn memory_init(m: Machine) -> Done<()> {
    follow(
        m.read_u32(),
        |m: Machine, di: u32|
            follow(
                m.read_u32(),
                |m: Machine, mi: u32|
                    follow(
                        pop_three(m),
                        |m: Machine, t: (u32, u32, u32)| data_copied(m, di, mi, t.0, t.1, t.2),
                    ),
            ),
    )
}

pub open spec fn data_drop(m: Machine) -> Done<()> {
    follow(
        m.read_u32(),
        |m: Machine, di: u32|
            if di < m.store.dropped_data.len() {
                (
                    m.with_store(Store { dropped_data: m.store.dropped_data.update(di as int, true), ..m.store }),
                    Ok(()),
                )
            } else {
                (m, Ok(()))
            },
    )
}

/// Copies `n` bytes between memories, or within one as if through a buffer.
pub open spec fn bytes_moved(m: Machine, dst: u32, src: u32, d: u32, s: u32, n: u32) -> Done<()> {
    if s + n <= m.store.mem_size(src as int) && d + n <= m.store.mem_size(dst as int) {
        (
            if n == 0 {
                m
            } else {
                bytes_put(m, dst, d, m.store.memories[m.store.memory_at(src as int)].subrange(s as int, s + n))
            },
            Ok(()),
        )
    } else {
        (m, Err(WasmError::MemoryOutOfBounds))
    }
}

pub open spec fn memory_copy(m: Machine) -> Done<()> {
    follow(
        m.read_u32(),
        |m: Machine, dst: u32|
            follow(
                m.read_u32(),
                |m: Machine, src: u32|
                    follow(
                        pop_three(m),
                        |m: Machine, t: (u32, u32, u32)| bytes_moved(m, dst, src, t.0, t.1, t.2),
                    ),
            ),
    )
}

pub open spec fn memory_fill(m: Machine) -> Done<()> {
    follow(
        m.read_u32(),
        |m: Machine, mi: u32|
            follow(
                pop_three(m),
                |m: Machine, t: (u32, u32, u32)|
                    if t.0 + t.2 <= m.store.mem_size(mi as int) {
                        (bytes_put(m, mi, t.0, Seq::new(t.2 as nat, |i: int| t.1 as u8)), Ok(()))
                    } else {
                        (m, Err(WasmError::MemoryOutOfBounds))
                    },
            ),
    )
}

// ---------------------------------------------------------------------------
// Tables

/// Writes slots to a table.
pub open spec fn slots_put(m: Machine, ti: u32, at: int, slots: Seq<Option<u32>>) -> Machine {
    m.with_store(m.store.with_table(ti as int, splice(m.store.table(ti as int), at, slots)))
}

/// The slot that an item of an element segment is written as.
pub open spec fn item_slot(f: u32) -> Option<u32> {
    if f == u32::MAX {
        None
    } else {
        Some(f)
    }
}

/// The slots that items are written as.
pub open spec fn item_slots(items: Seq<u32>) -> Seq<Option<u32>> {
    Seq::new(items.len(), |i: int| item_slot(items[i]))
}

/// Copies `n` items from `s` of an element segment to `d` of a table. A dropped
/// segment is empty.
pub open spec fn elems_copied(m: Machine, ei: u32, ti: u32, d: u32, s: u32, n: u32) -> Done<()> {
    let fits = ti < m.store.tables.len() && d + n <= m.store.table(ti as int).len();
    if m.store.elem_dropped(ei as int) {
        ensured(m, n == 0 && s == 0 && fits, WasmError::TableIndexOutOfBounds)
    } else if ei >= m.store.module.element_segments.len() {
        (m, Err(WasmError::TableIndexOutOfBounds))
    } else {
        let items = m.store.module.element_segments[ei as int].func_indices;
        if s + n <= items.len() && fits {
            (slots_put(m, ti, d as int, item_slots(items.subrange(s as int, s + n))), Ok(()))
        } else {
            (m, Err(WasmError::TableIndexOutOfBounds))
        }
    }
}

/// Pops an unsigned integer of 32 or 64 bits.
pub open spec fn pop_size(m: Machine, wide: bool) -> Done<u64> {
    if wide {
        follow(m.pop_i64(), |m: Machine, v: i64| (m, Ok(v as u64)))
    } else {
        follow(m.pop_i32(), |m: Machine, v: i32| (m, Ok(v as u32 as u64)))
    }
}

pub open spec fn table_init(m: Machine) -> Done<()> {
    follow(
        m.read_u32(),
        |m: Machine, ei: u32|
            follow(
                m.read_u32(),
                |m: Machine, ti: u32|
                    follow(
                        m.pop_i32(),
                        |m: Machine, n: i32|
                            follow(
                                m.pop_i32(),
                                |m: Machine, s: i32|
                                    follow(
                                        pop_size(m, m.store.is_table64(ti)),
                                        |m: Machine, d: u64|
                                            elems_copied(m, ei, ti, d as u32, s as u32, n as u32),
                                    ),
                            ),
                    ),
            ),
    )
}

pub open spec fn elem_drop(m: Machine) -> Done<()> {
    follow(
        m.read_u32(),
        |m: Machine, ei: u32|
            if ei < m.store.dropped_elems.len() {
                (
                    m.with_store(Store { dropped_elems: m.store.dropped_elems.update(ei as int, true), ..m.store }),
                    Ok(()),
                )
            } else {
                (m, Ok(()))
            },
    )
}

/// Copies `n` slots between tables, or within one as if through a buffer.
pub open spec fn slots_moved(m: Machine, dst: u32, src: u32, d: u64, s: u64, n: u64) -> Done<()> {
    if dst < m.store.tables.len() && src < m.store.tables.len() && s + n <= m.store.table(src as int).len() && d + n
        <= m.store.table(dst as int).len() {
        (slots_put(m, dst, d as int, m.store.table(src as int).subrange(s as int, s + n)), Ok(()))
    } else {
        (m, Err(WasmError::TableIndexOutOfBounds))
    }
}

pub open spec fn table_copy(m: Machine) -> Done<()> {
    follow(
        m.read_u32(),
        |m: Machine, dst: u32|
            follow(
                m.read_u32(),
                |m: Machine, src: u32|
                    follow(
                        pop_size(m, m.store.is_table64(src) && m.store.is_table64(dst)),
                        |m: Machine, n: u64|
                            follow(
                                pop_size(m, m.store.is_table64(src)),
                                |m: Machine, s: u64|
                                    follow(
                                        pop_size(m, m.store.is_table64(dst)),
                                        |m: Machine, d: u64| slots_moved(m, dst, src, d, s, n),
                                    ),
                            ),
                    ),
            ),
    )
}

/// A table size as the index type of the table has it.
pub open spec fn size_value(wide: bool, n: int) -> Value {
    if wide {
        Value::I64(n as i64)
    } else {
        Value::I32(n as i32)
    }
}

/// Most slots that a table may have.
pub open spec fn slot_limit(s: Store, ti: u32) -> int {
    if ti < s.module.tables.len() {
        match s.module.tables[ti as int].max {
            Some(x) => if x < MAX_TABLE_SIZE {
                x as int
            } else {
                MAX_TABLE_SIZE as int
            },
            None => MAX_TABLE_SIZE as int,
        }
    } else {
        MAX_TABLE_SIZE as int
    }
}

/// Adds slots to a table and pushes its old size, or minus one where it may not have
/// that many.
pub open spec fn table_grown(m: Machine, ti: u32, n: u64, v: Value) -> Done<()> {
    let wide = m.store.is_table64(ti);
    if ti >= m.store.tables.len() || m.store.table(ti as int).len() + n > slot_limit(m.store, ti) {
        m.push(size_value(wide, -1))
    } else {
        let slots = m.store.table(ti as int);
        let more = slots + Seq::new(n as nat, |i: int| value_slot(v));
        m.with_store(m.store.with_table(ti as int, more)).push(size_value(wide, slots.len() as int))
    }
}

pub open spec fn table_grow(m: Machine) -> Done<()> {
    follow(
        m.read_u32(),
        |m: Machine, ti: u32|
            follow(
                pop_size(m, m.store.is_table64(ti)),
                |m: Machine, n: u64| follow(m.pop(), |m: Machine, v: Value| table_grown(m, ti, n, v)),
            ),
    )
}

pub open spec fn table_size(m: Machine) -> Done<()> {
    follow(
        m.read_u32(),
        |m: Machine, ti: u32|
            m.push(
                size_value(
                    m.store.is_table64(ti),
                    if ti < m.store.tables.len() {
                        m.store.table(ti as int).len() as int
                    } else {
                        0
                    },
                ),
            ),
    )
}

pub open spec fn table_fill(m: Machine) -> Done<()> {
    follow(
        m.read_u32(),
        |m: Machine, ti: u32|
            follow(
                pop_size(m, m.store.is_table64(ti)),
                |m: Machine, n: u64|
                    follow(
                        m.pop(),
                        |m: Machine, v: Value|
                            follow(
                                pop_size(m, m.store.is_table64(ti)),
                                |m: Machine, d: u64|
                                    if ti < m.store.tables.len() && d + n <= m.store.table(ti as int).len() {
                                        (
                                            slots_put(m, ti, d as int, Seq::new(n as nat, |i: int| value_slot(v))),
                                            Ok(()),
                                        )
                                    } else {
                                        (m, Err(WasmError::TableIndexOutOfBounds))
                                    },
                            ),
                    ),
            ),
    )
}

// ---------------------------------------------------------------------------
// Wide arithmetic

/// The number with this low and high half.
pub open spec fn joined(lo: i64, hi: i64) -> u128 {
    ((hi as u64) * 0x1_0000_0000_0000_0000 + (lo as u64)) as u128
}

/// Pushes the low and the high half of a number.
pub open spec fn push_wide(m: Machine, x: u128) -> Done<()> {
    follow(
        m.push(Value::I64((x % 0x1_0000_0000_0000_0000) as u64 as i64)),
        |m: Machine, u: ()| m.push(Value::I64((x / 0x1_0000_0000_0000_0000) as u64 as i64)),
    )
}

/// Adds or subtracts two 128-bit numbers.
pub open spec fn wide_sum(m: Machine, subtract: bool) -> Done<()> {
    follow(
        m.pop_i64(),
        |m: Machine, b_hi: i64|
            follow(
                m.pop_i64(),
                |m: Machine, b_lo: i64|
                    follow(
                        m.pop_i64(),
                        |m: Machine, a_hi: i64|
                            follow(
                                m.pop_i64(),
                                |m: Machine, a_lo: i64|
                                    push_wide(
                                        m,
                                        if subtract {
                                            joined(a_lo, a_hi).wrapping_sub(joined(b_lo, b_hi))
                                        } else {
                                            joined(a_lo, a_hi).wrapping_add(joined(b_lo, b_hi))
                                        },
                                    ),
                            ),
                    ),
            ),
    )
}

/// Multiplies two 64-bit numbers.
pub open spec fn wide_product(m: Machine, unsigned: bool) -> Done<()> {
    follow(
        m.pop_i64(),
        |m: Machine, b: i64|
            follow(
                m.pop_i64(),
                |m: Machine, a: i64|
                    push_wide(
                        m,
                        if unsigned {
                            ((a as u64) * (b as u64)) as u128
                        } else {
                            (a * b) as u128
                        },
                    ),
            ),
    )
}

/// Pops a floating-point number and pushes its integer part.
pub open spec fn sat_conversion(m: Machine, sub: u32) -> Done<()> {
    if m.store.class == RuntimeClass::ProofGrade {
        (m, Err(WasmError::FloatsDisabled))
    } else {
        follow(m.pop(), |m: Machine, v: Value| m.push(sat_trunc(sub, v)))
    }
}

/// Executes the instruction with the prefix 0xFC and this number.
pub open spec fn bulk_instruction(m: Machine, sub: u32) -> Done<()> {
    if sub <= 7 {
        sat_conversion(m, sub)
    } else {
        match sub {
            8 => memory_init(m),
            9 => data_drop(m),
            10 => memory_copy(m),
            11 => memory_fill(m),
            12 => table_init(m),
            13 => elem_drop(m),
            14 => table_copy(m),
            15 => table_grow(m),
            16 => table_size(m),
            17 => table_fill(m),
            0x13 => wide_sum(m, false),
            0x14 => wide_sum(m, true),
            0x15 => wide_product(m, false),
            0x16 => wide_product(m, true),
            _ => (m, Err(WasmError::InvalidOpcode(0xFC))),
        }
    }
}

/// A dropped data segment is empty: only copying nothing from its start succeeds, and
/// that changes nothing.
pub proof fn dropped_data_is_empty(m: Machine, di: u32, mi: u32, d: u32, s: u32, n: u32)
    requires
        m.store.data_dropped(di as int),
    ensures
        data_copied(m, di, mi, d, s, n).0 == m,
        data_copied(m, di, mi, d, s, n).1 is Ok <==> n == 0 && s == 0 && d <= m.store.mem_size(mi as int),
{
}

/// Bytes that are copied within or between memories are those that were there before,
/// even where the ranges overlap.
pub proof fn moved_bytes_are_the_old_ones(m: Machine, dst: u32, src: u32, d: u32, s: u32, n: u32)
    requires
        bytes_moved(m, dst, src, d, s, n).1 is Ok,
        n > 0,
    ensures
        bytes_moved(m, dst, src, d, s, n).0.store.mem_read(dst as int, d as int, n as int) == m.store.mem_read(
            src as int,
            s as int,
            n as int,
        ),
{
    let r = bytes_moved(m, dst, src, d, s, n).0;
    let to = m.store.memory_at(dst as int);
    let from = m.store.memory_at(src as int);
    assert(r.store.memories[to].subrange(d as int, d + n) =~= m.store.memories[from].subrange(s as int, s + n));
}

// ---------------------------------------------------------------------------
// Execution

/// The bytes `from..from + n`.
fn copy_of(bytes: &[u8], from: usize, n: usize) -> (r: Vec<u8>)
    requires
        from + n <= bytes@.len(),
    ensures
        r@ == bytes@.subrange(from as int, from + n),
{
    let mut r: Vec<u8> = Vec::new();
    let mut i: usize = 0;
    let total: usize = bytes.len();
    while i < n
        invariant
            i <= n,
            from + n <= bytes@.len(),
            total == bytes@.len(),
            r@ == bytes@.subrange(from as int, from + i),
        decreases n - i,
    {
        r.push(bytes[from + i]);
        i = i + 1;
        assert(r@ =~= bytes@.subrange(from as int, from + i));
    }
    r
}

/// `n` times the same slot.
fn slots_of(slot: Option<u32>, n: usize) -> (r: Vec<Option<u32>>)
    ensures
        r@ == Seq::new(n as nat, |i: int| slot),
{
    let mut r: Vec<Option<u32>> = Vec::new();
    let mut i: usize = 0;
    while i < n
        invariant
            i <= n,
            r@ == Seq::new(i as nat, |k: int| slot),
        decreases n - i,
    {
        r.push(slot);
        i = i + 1;
        assert(r@ =~= Seq::new(i as nat, |k: int| slot));
    }
    r
}

impl WasmInstance {
    /// Writes bytes, of which there may be none, to a memory.
    fn put_bytes(&mut self, mi: u32, at: u32, b: &Vec<u8>)
        requires
            old(self).wf(),
            at + b@.len() <= old(self)@.store.mem_size(mi as int),
        ensures
            final(self)@ == bytes_put(old(self)@, mi, at, b@),
            final(self).wf(),
    {
        if b.len() > 0 {
            let _ = self.mem_write(mi, at, b.as_slice());
        }
    }

    fn pop_three(&mut self) -> (r: Result<(u32, u32, u32), WasmError>)
        requires
            old(self).wf(),
        ensures
            (final(self)@, r) == pop_three(old(self)@),
            final(self).wf(),
    {
        let c: u32 = self.pop_i32()? as u32;
        let b: u32 = self.pop_i32()? as u32;
        let a: u32 = self.pop_i32()? as u32;
        Ok((a, b, c))
    }

    fn exec_memory_init(&mut self) -> (r: Result<(), WasmError>)
        requires
            old(self).wf(),
        ensures
            (final(self)@, r) == memory_init(old(self)@),
            final(self).wf(),
    {
        let di: u32 = self.read_leb128_u32()?;
        let mi: u32 = self.read_leb128_u32()?;
        let (d, s, n) = self.pop_three()?;
        let fits: bool = d as u64 + n as u64 <= self.mem_size(mi) as u64;
        if (di as usize) < self.dropped_data.len() && self.dropped_data[di as usize] {
            if n == 0 && s == 0 && fits {
                return Ok(());
            }
            return Err(WasmError::MemoryOutOfBounds);
        }
        if di as usize >= self.module.data_segments.len() {
            return Err(WasmError::MemoryOutOfBounds);
        }
        let seg = self.module.data_segments[di as usize];
        assert(seg.within(self.module.code@.len() as int));
        if s as u64 + n as u64 > seg.data_len as u64 || !fits {
            return Err(WasmError::MemoryOutOfBounds);
        }
        assert(self.module.code@.len() == self.module.code.len());
        let b = copy_of(self.module.code.as_slice(), seg.data_offset + s as usize, n as usize);
        self.put_bytes(mi, d, &b);
        Ok(())
    }

    fn exec_data_drop(&mut self) -> (r: Result<(), WasmError>)
        requires
            old(self).wf(),
        ensures
            (final(self)@, r) == data_drop(old(self)@),
            final(self).wf(),
    {
        let di: u32 = self.read_leb128_u32()?;
        if (di as usize) < self.dropped_data.len() {
            self.dropped_data[di as usize] = true;
        }
        Ok(())
    }

    fn exec_memory_copy(&mut self) -> (r: Result<(), WasmError>)
        requires
            old(self).wf(),
        ensures
            (final(self)@, r) == memory_copy(old(self)@),
            final(self).wf(),
    {
        let dst: u32 = self.read_leb128_u32()?;
        let src: u32 = self.read_leb128_u32()?;
        let (d, s, n) = self.pop_three()?;
        if s as u64 + n as u64 > self.mem_size(src) as u64 || d as u64 + n as u64 > self.mem_size(dst) as u64 {
            return Err(WasmError::MemoryOutOfBounds);
        }
        if n > 0 {
            let b = copy_of(self.memories[self.memory_at(src)].as_slice(), s as usize, n as usize);
            self.put_bytes(dst, d, &b);
        }
        Ok(())
    }

    fn exec_memory_fill(&mut self) -> (r: Result<(), WasmError>)
        requires
            old(self).wf(),
        ensures
            (final(self)@, r) == memory_fill(old(self)@),
            final(self).wf(),
    {
        let mi: u32 = self.read_leb128_u32()?;
        let (d, v, n) = self.pop_three()?;
        if d as u64 + n as u64 > self.mem_size(mi) as u64 {
            return Err(WasmError::MemoryOutOfBounds);
        }
        let x: u8 = v as u8;
        let mut b: Vec<u8> = Vec::new();
        let mut i: u32 = 0;
        while i < n
            invariant
                i <= n,
                b@ == Seq::new(i as nat, |k: int| x),
            decreases n - i,
        {
            b.push(x);
            i = i + 1;
            assert(b@ =~= Seq::new(i as nat, |k: int| x));
        }
        assert(b@ =~= Seq::new(n as nat, |k: int| v as u8));
        self.put_bytes(mi, d, &b);
        Ok(())
    }

    /// Writes slots to a table.
    pub fn put_slots(&mut self, ti: u32, at: usize, slots: &Vec<Option<u32>>)
        requires
            old(self).wf(),
            ti < old(self).tables@.len(),
            at + slots@.len() <= old(self)@.store.table(ti as int).len(),
        ensures
            final(self)@ == slots_put(old(self)@, ti, at as int, slots@),
            final(self).wf(),
    {
        let t: usize = self.resolve_table(ti);
        let ghost before = self.tables@;
        let ghost own = before[t as int]@;
        let len: usize = self.tables[t].len();
        let mut i: usize = 0;
        proof {
            assert(own == self@.store.table(ti as int));
            assert(splice(own, at as int, slots@.take(0)) =~= own);
            assert(views(before).update(t as int, own) =~= views(before));
        }
        while i < slots.len()
            invariant
                i <= slots@.len(),
                at + slots@.len() <= len,
                len == own.len(),
                self.wf(),
                t < before.len(),
                before == old(self).tables@,
                own == before[t as int]@,
                self.tables@.len() == before.len(),
                self.tables@[t as int]@ == splice(own, at as int, slots@.take(i as int)),
                self@ == old(self)@.with_store(
                    Store {
                        tables: views(before).update(t as int, splice(own, at as int, slots@.take(i as int))),
                        ..old(self)@.store
                    },
                ),
            decreases slots@.len() - i,
        {
            let ghost prev = self.tables@;
            self.tables[t][at + i] = slots[i];
            proof {
                let now = splice(own, at as int, slots@.take(i + 1));
                assert(self.tables@[t as int]@ =~= now);
                assert(views(self.tables@) =~= views(before).update(t as int, now)) by {
                    assert forall|k: int| 0 <= k < before.len() && k != t implies #[trigger] self.tables@[k]
                        == prev[k] by {}
                    assert(views(prev) =~= views(before).update(
                        t as int,
                        splice(own, at as int, slots@.take(i as int)),
                    ));
                }
            }
            i = i + 1;
        }
        assert(slots@.take(i as int) =~= slots@);
    }

    fn exec_table_init(&mut self) -> (r: Result<(), WasmError>)
        requires
            old(self).wf(),
        ensures
            (final(self)@, r) == table_init(old(self)@),
            final(self).wf(),
    {
        let ei: u32 = self.read_leb128_u32()?;
        let ti: u32 = self.read_leb128_u32()?;
        let wide: bool = self.is_table64(ti);
        let n: u32 = self.pop_i32()? as u32;
        let s: u32 = self.pop_i32()? as u32;
        let d: u32 = self.pop_size(wide)? as u32;
        let fits: bool = if (ti as usize) < self.tables.len() {
            let t: usize = self.resolve_table(ti);
            d as u64 + n as u64 <= self.tables[t].len() as u64
        } else {
            false
        };
        if (ei as usize) < self.dropped_elems.len() && self.dropped_elems[ei as usize] {
            if n == 0 && s == 0 && fits {
                return Ok(());
            }
            return Err(WasmError::TableIndexOutOfBounds);
        }
        if ei as usize >= self.module.element_segments.len() {
            return Err(WasmError::TableIndexOutOfBounds);
        }
        let total: usize = self.module.element_segments[ei as usize].func_indices.len();
        if s as u64 + n as u64 > total as u64 || !fits {
            return Err(WasmError::TableIndexOutOfBounds);
        }
        let slots = self.items_as_slots(ei as usize, s as usize, n as usize);
        self.put_slots(ti, d as usize, &slots);
        Ok(())
    }

    /// The slots that items of an element segment are written as.
    pub fn items_as_slots(&self, ei: usize, s: usize, n: usize) -> (r: Vec<Option<u32>>)
        requires
            ei < self.module.element_segments@.len(),
            s + n <= self.module.element_segments@[ei as int].func_indices@.len(),
        ensures
            r@ == item_slots(
                self.module.element_segments@[ei as int].func_indices@.subrange(s as int, s + n),
            ),
    {
        let ghost items = self.module.element_segments@[ei as int].func_indices@;
        let total: usize = self.module.element_segments[ei].func_indices.len();
        let mut r: Vec<Option<u32>> = Vec::new();
        let mut i: usize = 0;
        while i < n
            invariant
                i <= n,
                s + n <= total,
                total == items.len(),
                ei < self.module.element_segments@.len(),
                items == self.module.element_segments@[ei as int].func_indices@,
                r@ == item_slots(items.subrange(s as int, s + i)),
            decreases n - i,
        {
            let f: u32 = self.module.element_segments[ei].func_indices[s + i];
            if f == u32::MAX {
                r.push(None);
            } else {
                r.push(Some(f));
            }
            i = i + 1;
            assert(r@ =~= item_slots(items.subrange(s as int, s + i)));
        }
        r
    }

    /// Pops an unsigned integer of 32 or 64 bits.
    pub fn pop_size(&mut self, wide: bool) -> (r: Result<u64, WasmError>)
        requires
            old(self).wf(),
        ensures
            (final(self)@, r) == pop_size(old(self)@, wide),
            final(self).wf(),
    {
        if wide {
            Ok(self.pop_i64()? as u64)
        } else {
            Ok((self.pop_i32()? as u32) as u64)
        }
    }

    fn exec_elem_drop(&mut self) -> (r: Result<(), WasmError>)
        requires
            old(self).wf(),
        ensures
            (final(self)@, r) == elem_drop(old(self)@),
            final(self).wf(),
    {
        let ei: u32 = self.read_leb128_u32()?;
        if (ei as usize) < self.dropped_elems.len() {
            self.dropped_elems[ei as usize] = true;
        }
        Ok(())
    }

    fn exec_table_copy(&mut self) -> (r: Result<(), WasmError>)
        requires
            old(self).wf(),
        ensures
            (final(self)@, r) == table_copy(old(self)@),
            final(self).wf(),
    {
        let dst: u32 = self.read_leb128_u32()?;
        let src: u32 = self.read_leb128_u32()?;
        let src_wide: bool = self.is_table64(src);
        let dst_wide: bool = self.is_table64(dst);
        let n: u64 = self.pop_size(src_wide && dst_wide)?;
        let s: u64 = self.pop_size(src_wide)?;
        let d: u64 = self.pop_size(dst_wide)?;
        self.move_slots(dst, src, d, s, n)
    }

    /// Copies slots between tables, or within one.
    fn move_slots(&mut self, dst: u32, src: u32, d: u64, s: u64, n: u64) -> (r: Result<(), WasmError>)
        requires
            old(self).wf(),
        ensures
            (final(self)@, r) == slots_moved(old(self)@, dst, src, d, s, n),
            final(self).wf(),
    {
        if dst as usize >= self.tables.len() || src as usize >= self.tables.len() {
            return Err(WasmError::TableIndexOutOfBounds);
        }
        let from: usize = self.resolve_table(src);
        let to: usize = self.resolve_table(dst);
        let from_len: u64 = self.tables[from].len() as u64;
        let to_len: u64 = self.tables[to].len() as u64;
        if n > from_len || s > from_len - n || n > to_len || d > to_len - n {
            return Err(WasmError::TableIndexOutOfBounds);
        }
        let ghost own = self.tables@[from as int]@;
        assert(own == self@.store.table(src as int));
        let mut slots: Vec<Option<u32>> = Vec::new();
        let mut i: usize = 0;
        while i < n as usize
            invariant
                i <= n,
                s + n <= own.len() == from_len,
                from_len <= usize::MAX,
                from < self.tables@.len(),
                own == self.tables@[from as int]@,
                slots@ == own.subrange(s as int, s + i),
            decreases n - i,
        {
            slots.push(self.tables[from][s as usize + i]);
            i = i + 1;
            assert(slots@ =~= own.subrange(s as int, s + i));
        }
        self.put_slots(dst, d as usize, &slots);
        Ok(())
    }

    fn push_table_size(&mut self, wide: bool, n: i64) -> (r: Result<(), WasmError>)
        requires
            old(self).wf(),
        ensures
            (final(self)@, r) == old(self)@.push(size_value(wide, n as int)),
            final(self).wf(),
    {
        if wide {
            self.push(Value::I64(n))
        } else {
            self.push(Value::I32(n as i32))
        }
    }

    fn exec_table_grow(&mut self) -> (r: Result<(), WasmError>)
        requires
            old(self).wf(),
        ensures
            (final(self)@, r) == table_grow(old(self)@),
            final(self).wf(),
    {
        let ti: u32 = self.read_leb128_u32()?;
        let wide: bool = self.is_table64(ti);
        let n: u64 = self.pop_size(wide)?;
        let v = self.pop()?;
        if ti as usize >= self.tables.len() {
            return self.push_table_size(wide, -1);
        }
        let t: usize = self.resolve_table(ti);
        let len: u64 = self.tables[t].len() as u64;
        let mut limit: u64 = MAX_TABLE_SIZE as u64;
        if (ti as usize) < self.module.tables.len() {
            if let Some(x) = self.module.tables[ti as usize].max {
                if (x as u64) < limit {
                    limit = x as u64;
                }
            }
        }
        assert(limit == slot_limit(self@.store, ti));
        if n > limit || len > limit - n {
            return self.push_table_size(wide, -1);
        }
        let mut more = slots_of(slot_of_value(v), n as usize);
        let ghost before = self.tables@;
        let ghost added = more@;
        self.tables[t].append(&mut more);
        proof {
            let now = before[t as int]@ + added;
            assert(self.tables@[t as int]@ =~= now);
            assert(views(self.tables@) =~= views(before).update(t as int, now));
            assert(added =~= Seq::new(n as nat, |i: int| value_slot(v)));
        }
        self.push_table_size(wide, len as i64)
    }

    fn exec_table_size(&mut self) -> (r: Result<(), WasmError>)
        requires
            old(self).wf(),
        ensures
            (final(self)@, r) == table_size(old(self)@),
            final(self).wf(),
    {
        let ti: u32 = self.read_leb128_u32()?;
        let wide: bool = self.is_table64(ti);
        let n: usize = if (ti as usize) < self.tables.len() {
            let t: usize = self.resolve_table(ti);
            self.tables[t].len()
        } else {
            0
        };
        if wide {
            self.push(Value::I64(n as i64))
        } else {
            self.push(Value::I32(n as i32))
        }
    }

    fn exec_table_fill(&mut self) -> (r: Result<(), WasmError>)
        requires
            old(self).wf(),
        ensures
            (final(self)@, r) == table_fill(old(self)@),
            final(self).wf(),
    {
        let ti: u32 = self.read_leb128_u32()?;
        let wide: bool = self.is_table64(ti);
        let n: u64 = self.pop_size(wide)?;
        let v = self.pop()?;
        let d: u64 = self.pop_size(wide)?;
        if ti as usize >= self.tables.len() {
            return Err(WasmError::TableIndexOutOfBounds);
        }
        let t: usize = self.resolve_table(ti);
        let len: u64 = self.tables[t].len() as u64;
        if n > len || d > len - n {
            return Err(WasmError::TableIndexOutOfBounds);
        }
        let slots = slots_of(slot_of_value(v), n as usize);
        assert(slots@ =~= Seq::new(n as nat, |i: int| value_slot(v)));
        self.put_slots(ti, d as usize, &slots);
        Ok(())
    }

    fn push_wide(&mut self, x: u128) -> (r: Result<(), WasmError>)
        requires
            old(self).wf(),
        ensures
            (final(self)@, r) == push_wide(old(self)@, x),
            final(self).wf(),
    {
        self.push(Value::I64(((x % 0x1_0000_0000_0000_0000) as u64) as i64))?;
        self.push(Value::I64(((x / 0x1_0000_0000_0000_0000) as u64) as i64))
    }

    fn exec_wide_sum(&mut self, subtract: bool) -> (r: Result<(), WasmError>)
        requires
            old(self).wf(),
        ensures
            (final(self)@, r) == wide_sum(old(self)@, subtract),
            final(self).wf(),
    {
        let b_hi: u64 = self.pop_i64()? as u64;
        let b_lo: u64 = self.pop_i64()? as u64;
        let a_hi: u64 = self.pop_i64()? as u64;
        let a_lo: u64 = self.pop_i64()? as u64;
        let a: u128 = a_hi as u128 * 0x1_0000_0000_0000_0000 + a_lo as u128;
        let b: u128 = b_hi as u128 * 0x1_0000_0000_0000_0000 + b_lo as u128;
        if subtract {
            self.push_wide(a.wrapping_sub(b))
        } else {
            self.push_wide(a.wrapping_add(b))
        }
    }

    fn exec_wide_product(&mut self, unsigned: bool) -> (r: Result<(), WasmError>)
        requires
            old(self).wf(),
        ensures
            (final(self)@, r) == wide_product(old(self)@, unsigned),
            final(self).wf(),
    {
        let b: i64 = self.pop_i64()?;
        let a: i64 = self.pop_i64()?;
        if unsigned {
            let p: u64 = a as u64;
            let q: u64 = b as u64;
            assert(0 <= p * q <= 0xFFFF_FFFF_FFFF_FFFF * 0xFFFF_FFFF_FFFF_FFFF) by (nonlinear_arith)
                requires
                    0 <= p <= 0xFFFF_FFFF_FFFF_FFFF,
                    0 <= q <= 0xFFFF_FFFF_FFFF_FFFF,
            ;
            self.push_wide(p as u128 * q as u128)
        } else {
            assert(-0x4000_0000_0000_0000_0000_0000_0000_0000 <= a * b
                <= 0x4000_0000_0000_0000_0000_0000_0000_0000) by (nonlinear_arith)
                requires
                    -0x8000_0000_0000_0000 <= a <= 0x8000_0000_0000_0000,
                    -0x8000_0000_0000_0000 <= b <= 0x8000_0000_0000_0000,
            ;
            self.push_wide((a as i128 * b as i128) as u128)
        }
    }

    fn exec_sat_conversion(&mut self, sub: u32) -> (r: Result<(), WasmError>)
        requires
            old(self).wf(),
        ensures
            (final(self)@, r) == sat_conversion(old(self)@, sub),
            final(self).wf(),
    {
        if self.runtime_class == RuntimeClass::ProofGrade {
            return Err(WasmError::FloatsDisabled);
        }
        let v = self.pop()?;
        self.push(compute_sat_trunc(sub, v))
    }

    /// Executes the instruction with the prefix 0xFC and this number.
    pub fn exec_bulk(&mut self, sub: u32) -> (r: Result<(), WasmError>)
        requires
            old(self).wf(),
        ensures
            (final(self)@, r) == bulk_instruction(old(self)@, sub),
            final(self).wf(),
    {
        if sub <= 7 {
            return self.exec_sat_conversion(sub);
        }
        match sub {
            8 => self.exec_memory_init(),
            9 => self.exec_data_drop(),
            10 => self.exec_memory_copy(),
            11 => self.exec_memory_fill(),
            12 => self.exec_table_init(),
            13 => self.exec_elem_drop(),
            14 => self.exec_table_copy(),
            15 => self.exec_table_grow(),
            16 => self.exec_table_size(),
            17 => self.exec_table_fill(),
            0x13 => self.exec_wide_sum(false),
            0x14 => self.exec_wide_sum(true),
            0x15 => self.exec_wide_product(false),
            0x16 => self.exec_wide_product(true),
            _ => Err(WasmError::InvalidOpcode(0xFC)),
        }
    }
}

} // verus!
