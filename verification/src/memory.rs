//! Linear memory: loads, stores, size and growth.

use vstd::prelude::*;
use crate::bytes::{
    le_u16, le_u32, le_u64, read_u16, read_u32, read_u64, u16_bytes, u16_round_trip, u32_bytes, u32_round_trip,
    u64_bytes, u64_round_trip,
};
use crate::machine::{least, splice, Done, Machine, Store, WasmInstance};
use crate::module::group_views;
use crate::types::{RuntimeClass, Value, WasmError, MAX_MEMORY_PAGES, WASM_PAGE_SIZE};

verus! {

broadcast use group_views;

/// The address that a base and an offset make, if it fits in 32 bits.
pub open spec fn effective(base: i32, offset: u32) -> Result<u32, WasmError> {
    if (base as u32) + offset > u32::MAX {
        Err(WasmError::MemoryOutOfBounds)
    } else {
        Ok(((base as u32) + offset) as u32)
    }
}

impl Store {
    /// The memory that a memory index stands for: the first one where the index is past
    /// the last.
    pub open spec fn memory_at(self, mi: int) -> int {
        if mi < self.memories.len() {
            mi
        } else {
            0
        }
    }

    /// The size of the memory that `mi` stands for, zero where there is no memory at all.
    pub open spec fn mem_size(self, mi: int) -> int {
        if self.memories.len() > 0 {
            self.memories[self.memory_at(mi)].len() as int
        } else {
            0
        }
    }

    /// The `n` bytes at `addr` of the memory that `mi` stands for.
    pub open spec fn mem_read(self, mi: int, addr: int, n: int) -> Result<Seq<u8>, WasmError> {
        if addr + n > self.mem_size(mi) {
            Err(WasmError::MemoryOutOfBounds)
        } else {
            Ok(self.memories[self.memory_at(mi)].subrange(addr, addr + n))
        }
    }

    /// The store with bytes written at `addr` of the memory that `mi` stands for.
    pub open spec fn mem_written(self, mi: int, addr: int, b: Seq<u8>) -> Store {
        let at = self.memory_at(mi);
        Store { memories: self.memories.update(at, splice(self.memories[at], addr, b)), ..self }
    }

    /// Bytes in a page of the memory numbered `mi`.
    pub open spec fn page_size(self, mi: int) -> u64 {
        if mi < self.module.memories.len() {
            match self.module.memories[mi].page_size_log2 {
                Some(l) => 1u64 << l,
                None => WASM_PAGE_SIZE as u64,
            }
        } else {
            WASM_PAGE_SIZE as u64
        }
    }

    /// Whether the memory numbered `mi` is addressed with 64 bits.
    pub open spec fn is_memory64(self, mi: int) -> bool {
        mi < self.module.memories.len() && self.module.memories[mi].is_memory64
    }

    /// Most pages that the memory numbered `mi` may grow to.
    pub open spec fn max_pages(self, mi: int) -> int {
        if mi < self.module.memories.len() && self.module.memories[mi].max_pages != u32::MAX {
            self.module.memories[mi].max_pages as int
        } else if self.module.has_memory_max && mi == 0 && self.module.memory_max_pages != u32::MAX {
            self.module.memory_max_pages as int
        } else {
            (MAX_MEMORY_PAGES * WASM_PAGE_SIZE) / (self.page_size(mi) as int)
        }
    }
}

impl Machine {
    /// Writes bytes to memory.
    pub open spec fn mem_write(self, mi: int, addr: int, b: Seq<u8>) -> Done<()> {
        if addr + b.len() > self.store.mem_size(mi) {
            (self, Err(WasmError::MemoryOutOfBounds))
        } else {
            (self.with_store(self.store.mem_written(mi, addr, b)), Ok(()))
        }
    }
}

/// Whether a load or store moves a floating-point value.
pub open spec fn moves_float(op: u8) -> bool {
    op == 0x2A || op == 0x2B || op == 0x38 || op == 0x39
}

/// Bytes that a load reads.
pub open spec fn load_width(op: u8) -> int {
    match op {
        0x28 => 4,
        0x29 => 8,
        0x2A => 4,
        0x2B => 8,
        0x2C => 1,
        0x2D => 1,
        0x2E => 2,
        0x2F => 2,
        0x30 => 1,
        0x31 => 1,
        0x32 => 2,
        0x33 => 2,
        _ => 4,
    }
}

/// The value that a load makes of the bytes it reads.
pub open spec fn loaded(op: u8, b: Seq<u8>) -> Value {
    match op {
        0x28 => Value::I32(le_u32(b, 0) as i32),
        0x29 => Value::I64(le_u64(b, 0) as i64),
        0x2A => Value::F32(le_u32(b, 0)),
        0x2B => Value::F64(le_u64(b, 0)),
        0x2C => Value::I32((b[0] as i8) as i32),
        0x2D => Value::I32(b[0] as i32),
        0x2E => Value::I32((le_u16(b, 0) as i16) as i32),
        0x2F => Value::I32(le_u16(b, 0) as i32),
        0x30 => Value::I64((b[0] as i8) as i64),
        0x31 => Value::I64(b[0] as i64),
        0x32 => Value::I64((le_u16(b, 0) as i16) as i64),
        0x33 => Value::I64(le_u16(b, 0) as i64),
        0x34 => Value::I64((le_u32(b, 0) as i32) as i64),
        _ => Value::I64(le_u32(b, 0) as i64),
    }
}

/// The bytes that a store makes of a value.
pub open spec fn stored(op: u8, v: Value) -> Seq<u8> {
    match op {
        0x36 => u32_bytes(v.i32_or_zero() as u32),
        0x37 => u64_bytes(v.i64_or_zero() as u64),
        0x38 => u32_bytes(v.f32_or_zero()),
        0x39 => u64_bytes(v.f64_or_zero()),
        0x3A => seq![v.i32_or_zero() as u8],
        0x3B => u16_bytes(v.i32_or_zero() as u16),
        0x3C => seq![v.i64_or_zero() as u8],
        0x3D => u16_bytes(v.i64_or_zero() as u16),
        _ => u32_bytes(v.i64_or_zero() as u32),
    }
}

/// Pops an address, to which `offset` is added.
pub open spec fn pop_address(m: Machine, offset: u32) -> Done<u32> {
    let b = m.pop_i32();
    match b.1 {
        Err(e) => (b.0, Err(e)),
        Ok(base) => (b.0, effective(base, offset)),
    }
}

/// Executes a load.
pub open spec fn load(m: Machine, op: u8) -> Done<()> {
    if moves_float(op) && m.store.class == RuntimeClass::ProofGrade {
        (m, Err(WasmError::FloatsDisabled))
    } else {
        let a = m.read_memarg();
        match a.1 {
            Err(e) => (a.0, Err(e)),
            Ok((mi, offset)) => {
                let p = pop_address(a.0, offset);
                match p.1 {
                    Err(e) => (p.0, Err(e)),
                    Ok(addr) => match p.0.store.mem_read(mi as int, addr as int, load_width(op)) {
                        Err(e) => (p.0, Err(e)),
                        Ok(b) => p.0.push(loaded(op, b)),
                    },
                }
            },
        }
    }
}

/// Executes a store.
pub open spec fn store(m: Machine, op: u8) -> Done<()> {
    if moves_float(op) && m.store.class == RuntimeClass::ProofGrade {
        (m, Err(WasmError::FloatsDisabled))
    } else {
        let a = m.read_memarg();
        match a.1 {
            Err(e) => (a.0, Err(e)),
            Ok((mi, offset)) => {
                let v = a.0.pop();
                match v.1 {
                    Err(e) => (v.0, Err(e)),
                    Ok(x) => {
                        let p = pop_address(v.0, offset);
                        match p.1 {
                            Err(e) => (p.0, Err(e)),
                            Ok(addr) => p.0.mem_write(mi as int, addr as int, stored(op, x)),
                        }
                    },
                }
            },
        }
    }
}

/// A page count as the index type of the memory has it.
pub open spec fn page_value(wide: bool, pages: i64) -> Value {
    if wide {
        Value::I64(pages)
    } else {
        Value::I32(pages as i32)
    }
}

/// Executes `memory.size`.
pub open spec fn memory_size(m: Machine) -> Done<()> {
    let r = m.read_u32();
    match r.1 {
        Err(e) => (r.0, Err(e)),
        Ok(mi) => {
            let s = r.0.store;
            let pages = s.mem_size(mi as int) / (s.page_size(mi as int) as int);
            r.0.push(page_value(s.is_memory64(mi as int), pages as i64))
        },
    }
}

/// `m` cut or filled with zeros to `n` bytes.
pub open spec fn resized(m: Seq<u8>, n: int) -> Seq<u8> {
    Seq::new(
        n as nat,
        |i: int|
            if i < m.len() {
                m[i]
            } else {
                0u8
            },
    )
}

/// The store with the memory numbered `mi` at this many pages.
pub open spec fn grown(s: Store, mi: int, pages: int) -> Store {
    if mi < s.memories.len() {
        Store {
            memories: s.memories.update(
                mi,
                resized(s.memories[mi], least(pages * s.page_size(mi), usize::MAX as int)),
            ),
            ..s
        }
    } else {
        s
    }
}

/// Pops the number of pages to grow by.
pub open spec fn pop_delta(m: Machine, wide: bool) -> Done<u32> {
    if wide {
        let r = m.pop_i64();
        match r.1 {
            Err(e) => (r.0, Err(e)),
            Ok(v) => (r.0, Ok(v as u32)),
        }
    } else {
        let r = m.pop_i32();
        match r.1 {
            Err(e) => (r.0, Err(e)),
            Ok(v) => (r.0, Ok(v as u32)),
        }
    }
}

/// Executes `memory.grow`: pushes the old page count, or minus one where the memory
/// may not have that many pages.
pub open spec fn memory_grow(m: Machine) -> Done<()> {
    let r = m.read_u32();
    match r.1 {
        Err(e) => (r.0, Err(e)),
        Ok(idx) => {
            let mi = idx as int;
            let s = r.0.store;
            let wide = s.is_memory64(mi);
            let d = pop_delta(r.0, wide);
            match d.1 {
                Err(e) => (d.0, Err(e)),
                Ok(delta) => {
                    let old_pages = (s.mem_size(mi) / (s.page_size(mi) as int)) as u32;
                    let new_pages = old_pages.saturating_add(delta);
                    if new_pages > s.max_pages(mi) {
                        d.0.push(page_value(wide, (-1) as i64))
                    } else {
                        d.0.with_store(grown(s, mi, new_pages as int)).push(page_value(wide, old_pages as i64))
                    }
                },
            }
        },
    }
}

/// Executes an instruction on linear memory.
pub open spec fn memory_instruction(m: Machine, op: u8) -> Done<()> {
    if op <= 0x35 {
        load(m, op)
    } else if op <= 0x3E {
        store(m, op)
    } else if op == 0x3F {
        memory_size(m)
    } else {
        memory_grow(m)
    }
}

/// Bytes written to a memory are read back, and bytes elsewhere stay.
pub proof fn written_reads_back(s: Store, mi: int, addr: int, b: Seq<u8>, at: int, n: int)
    requires
        0 <= mi,
        s.memories.len() > 0,
        0 <= addr,
        addr + b.len() <= s.mem_size(mi),
        0 <= at,
        0 <= n,
        at + n <= addr || addr + b.len() <= at,
    ensures
        s.mem_written(mi, addr, b).mem_read(mi, addr, b.len() as int) == Ok::<Seq<u8>, WasmError>(b),
        s.mem_written(mi, addr, b).mem_read(mi, at, n) == s.mem_read(mi, at, n),
        s.mem_written(mi, addr, b).mem_size(mi) == s.mem_size(mi),
{
    let t = s.mem_written(mi, addr, b);
    let own = s.memory_at(mi);
    assert(t.memories[own].subrange(addr, addr + b.len()) =~= b);
    if at + n <= s.mem_size(mi) {
        assert(t.memories[own].subrange(at, at + n) =~= s.memories[own].subrange(at, at + n));
    }
}

/// A value of full width that is stored and loaded again is the value.
pub proof fn stored_loads_back(v: Value)
    ensures
        v is I32 ==> loaded(0x28, stored(0x36, v)) == v,
        v is I64 ==> loaded(0x29, stored(0x37, v)) == v,
        v is F32 ==> loaded(0x2A, stored(0x38, v)) == v,
        v is F64 ==> loaded(0x2B, stored(0x39, v)) == v,
{
    u32_round_trip(v.i32_or_zero() as u32);
    u64_round_trip(v.i64_or_zero() as u64);
    u32_round_trip(v.f32_or_zero());
    u64_round_trip(v.f64_or_zero());
    let x = v.i32_or_zero();
    let y = v.i64_or_zero();
    assert((x as u32) as i32 == x) by (bit_vector);
    assert((y as u64) as i64 == y) by (bit_vector);
}

/// A narrow store followed by a load of the same width gives the low bits, with or
/// without their sign.
pub proof fn narrow_store_keeps_low_bits(v: Value)
    ensures
        loaded(0x2C, stored(0x3A, v)) == Value::I32((v.i32_or_zero() as u8 as i8) as i32),
        loaded(0x2D, stored(0x3A, v)) == Value::I32((v.i32_or_zero() as u8) as i32),
        loaded(0x2E, stored(0x3B, v)) == Value::I32((v.i32_or_zero() as u16 as i16) as i32),
        loaded(0x2F, stored(0x3B, v)) == Value::I32((v.i32_or_zero() as u16) as i32),
        loaded(0x30, stored(0x3C, v)) == Value::I64((v.i64_or_zero() as u8 as i8) as i64),
        loaded(0x31, stored(0x3C, v)) == Value::I64((v.i64_or_zero() as u8) as i64),
        loaded(0x32, stored(0x3D, v)) == Value::I64((v.i64_or_zero() as u16 as i16) as i64),
        loaded(0x33, stored(0x3D, v)) == Value::I64((v.i64_or_zero() as u16) as i64),
        loaded(0x34, stored(0x3E, v)) == Value::I64((v.i64_or_zero() as u32 as i32) as i64),
        loaded(0x35, stored(0x3E, v)) == Value::I64((v.i64_or_zero() as u32) as i64),
{
    u16_round_trip(v.i32_or_zero() as u16);
    u16_round_trip(v.i64_or_zero() as u16);
    u32_round_trip(v.i64_or_zero() as u32);
}

/// Growing a memory keeps its bytes, and the new ones are zero.
pub proof fn growing_keeps_bytes(s: Store, mi: int, pages: int, i: int)
    requires
        0 <= mi < s.memories.len(),
        s.mem_size(mi) <= pages * s.page_size(mi) <= usize::MAX,
        0 <= i < pages * s.page_size(mi),
    ensures
        grown(s, mi, pages).mem_size(mi) == pages * s.page_size(mi),
        grown(s, mi, pages).memories[mi][i] == if i < s.mem_size(mi) {
            s.memories[mi][i]
        } else {
            0u8
        },
{
}

proof fn shifted_positive(l: u32)
    requires
        l < 64,
    ensures
        (1u64 << l) > 0,
{
    assert((1u64 << l) > 0) by (bit_vector)
        requires
            l < 64,
    ;
}

/// The address that a base and an offset make, if it fits in 32 bits.
pub fn effective_address(base: i32, offset: u32) -> (r: Result<u32, WasmError>)
    ensures
        r == effective(base, offset),
{
    match (base as u32).checked_add(offset) {
        Some(a) => Ok(a),
        None => Err(WasmError::MemoryOutOfBounds),
    }
}

/// The value that a load makes of the bytes it reads.
fn value_of_bytes(op: u8, b: &[u8]) -> (r: Value)
    requires
        b@.len() == load_width(op),
    ensures
        r == loaded(op, b@),
{
    match op {
        0x28 => Value::I32(read_u32(b, 0) as i32),
        0x29 => Value::I64(read_u64(b, 0) as i64),
        0x2A => Value::F32(read_u32(b, 0)),
        0x2B => Value::F64(read_u64(b, 0)),
        0x2C => Value::I32((b[0] as i8) as i32),
        0x2D => Value::I32(b[0] as i32),
        0x2E => Value::I32((read_u16(b, 0) as i16) as i32),
        0x2F => Value::I32(read_u16(b, 0) as i32),
        0x30 => Value::I64((b[0] as i8) as i64),
        0x31 => Value::I64(b[0] as i64),
        0x32 => Value::I64((read_u16(b, 0) as i16) as i64),
        0x33 => Value::I64(read_u16(b, 0) as i64),
        0x34 => Value::I64((read_u32(b, 0) as i32) as i64),
        _ => Value::I64(read_u32(b, 0) as i64),
    }
}

/// Bytes that a load reads.
fn width_of_load(op: u8) -> (r: usize)
    ensures
        r == load_width(op),
{
    match op {
        0x28 => 4,
        0x29 => 8,
        0x2A => 4,
        0x2B => 8,
        0x2C => 1,
        0x2D => 1,
        0x2E => 2,
        0x2F => 2,
        0x30 => 1,
        0x31 => 1,
        0x32 => 2,
        0x33 => 2,
        _ => 4,
    }
}

/// The two bytes of a 16-bit integer.
pub fn bytes_of_u16(v: u16) -> (r: Vec<u8>)
    ensures
        r@ == u16_bytes(v),
{
    let r = vec![(v % 0x100) as u8, (v / 0x100) as u8];
    assert(r@ =~= u16_bytes(v));
    r
}

/// The four bytes of a 32-bit integer.
pub fn bytes_of_u32(v: u32) -> (r: Vec<u8>)
    ensures
        r@ == u32_bytes(v),
{
    let r = vec![
        (v % 0x100) as u8,
        ((v / 0x100) % 0x100) as u8,
        ((v / 0x1_0000) % 0x100) as u8,
        (v / 0x100_0000) as u8,
    ];
    assert(r@ =~= u32_bytes(v));
    r
}

/// The eight bytes of a 64-bit integer.
pub fn bytes_of_u64(v: u64) -> (r: Vec<u8>)
    ensures
        r@ == u64_bytes(v),
{
    let mut r = bytes_of_u32((v % 0x1_0000_0000) as u32);
    let mut hi = bytes_of_u32((v / 0x1_0000_0000) as u32);
    r.append(&mut hi);
    assert(r@ =~= u64_bytes(v));
    r
}

/// The bytes that a store makes of a value.
fn bytes_of_value(op: u8, v: Value) -> (r: Vec<u8>)
    ensures
        r@ == stored(op, v),
{
    match op {
        0x36 => bytes_of_u32(v.as_i32() as u32),
        0x37 => bytes_of_u64(v.as_i64() as u64),
        0x38 => bytes_of_u32(v.as_f32()),
        0x39 => bytes_of_u64(v.as_f64()),
        0x3A => {
            let r = vec![v.as_i32() as u8];
            assert(r@ =~= stored(op, v));
            r
        },
        0x3B => bytes_of_u16(v.as_i32() as u16),
        0x3C => {
            let r = vec![v.as_i64() as u8];
            assert(r@ =~= stored(op, v));
            r
        },
        0x3D => bytes_of_u16(v.as_i64() as u16),
        _ => bytes_of_u32(v.as_i64() as u32),
    }
}

impl WasmInstance {
    /// The memory that a memory index stands for: the first one where the index is past
    /// the last.
    pub fn memory_at(&self, mi: u32) -> (r: usize)
        ensures
            r == self@.store.memory_at(mi as int),
    {
        if (mi as usize) < self.memories.len() {
            mi as usize
        } else {
            0
        }
    }

    /// The size of the memory that `mi` stands for, zero where there is no memory at all.
    pub fn mem_size(&self, mi: u32) -> (r: usize)
        requires
            self.wf(),
        ensures
            r == self@.store.mem_size(mi as int),
    {
        if self.memory_sizes.len() > 0 {
            self.memory_sizes[self.memory_at(mi)]
        } else {
            0
        }
    }

    /// The `n` bytes at `addr` of the memory that `mi` stands for.
    pub fn mem_read(&self, mi: u32, addr: u32, n: usize) -> (r: Result<&[u8], WasmError>)
        requires
            self.wf(),
            n > 0,
        ensures
            match r {
                Ok(b) => self@.store.mem_read(mi as int, addr as int, n as int) == Ok::<Seq<u8>, WasmError>(b@),
                Err(e) => self@.store.mem_read(mi as int, addr as int, n as int) == Err::<Seq<u8>, WasmError>(e),
            },
    {
        let size: usize = self.mem_size(mi);
        if n > size || addr as usize > size - n {
            return Err(WasmError::MemoryOutOfBounds);
        }
        Ok(
            vstd::slice::slice_subrange(
                self.memories[self.memory_at(mi)].as_slice(),
                addr as usize,
                addr as usize + n,
            ),
        )
    }

    /// Writes bytes at `addr` of the memory that `mi` stands for.
    pub fn mem_write(&mut self, mi: u32, addr: u32, b: &[u8]) -> (r: Result<(), WasmError>)
        requires
            old(self).wf(),
            b@.len() > 0,
        ensures
            (final(self)@, r) == old(self)@.mem_write(mi as int, addr as int, b@),
            final(self).wf(),
    {
        let size: usize = self.mem_size(mi);
        let n: usize = b.len();
        if n > size || addr as usize > size - n {
            return Err(WasmError::MemoryOutOfBounds);
        }
        let start: usize = addr as usize;
        let own: usize = self.memory_at(mi);
        let mut i: usize = 0;
        let ghost before = self.memories@[own as int]@;
        proof {
            assert(splice(before, start as int, b@.take(0)) =~= before);
            assert(self@.store.memories.update(own as int, before) =~= self@.store.memories);
        }
        while i < n
            invariant
                i <= n,
                n == b@.len(),
                start + n <= before.len() <= usize::MAX,
                own < old(self).memories@.len(),
                own == old(self)@.store.memory_at(mi as int),
                before == old(self).memories@[own as int]@,
                self.wf(),
                self@ == old(self)@.with_store(
                    old(self)@.store.mem_written(mi as int, start as int, b@.take(i as int)),
                ),
                self.memories@.len() == old(self).memories@.len(),
                self.memories@[own as int]@ == splice(before, start as int, b@.take(i as int)),
            decreases n - i,
        {
            self.memories[own][start + i] = b[i];
            proof {
                let now = splice(before, start as int, b@.take(i + 1));
                assert(self.memories@[own as int]@ =~= now);
                assert(self@.store.memories =~= old(self)@.store.memories.update(own as int, now));
                assert(self@.store =~= old(self)@.store.mem_written(mi as int, start as int, b@.take(i + 1)));
            }
            i = i + 1;
        }
        proof {
            assert(b@.take(i as int) =~= b@);
        }
        Ok(())
    }

    /// Bytes in a page of the memory numbered `mi`.
    pub fn page_size(&self, mi: u32) -> (r: u64)
        requires
            self.wf(),
        ensures
            r == self@.store.page_size(mi as int),
            r > 0,
    {
        if (mi as usize) < self.module.memories.len() {
            assert(self.module.memories@[mi as int].wf());
            match self.module.memories[mi as usize].page_size_log2 {
                Some(l) => {
                    proof {
                        shifted_positive(l);
                    }
                    1u64 << l
                },
                None => WASM_PAGE_SIZE as u64,
            }
        } else {
            WASM_PAGE_SIZE as u64
        }
    }

    /// Whether the memory numbered `mi` is addressed with 64 bits.
    pub fn is_memory64(&self, mi: u32) -> (r: bool)
        ensures
            r == self@.store.is_memory64(mi as int),
    {
        (mi as usize) < self.module.memories.len() && self.module.memories[mi as usize].is_memory64
    }

    /// Most pages that the memory numbered `mi` may grow to.
    fn max_pages(&self, mi: u32) -> (r: u64)
        requires
            self.wf(),
        ensures
            r == self@.store.max_pages(mi as int),
    {
        if (mi as usize) < self.module.memories.len() && self.module.memories[mi as usize].max_pages != u32::MAX {
            self.module.memories[mi as usize].max_pages as u64
        } else if self.module.has_memory_max && mi == 0 && self.module.memory_max_pages != u32::MAX {
            self.module.memory_max_pages as u64
        } else {
            let total: u64 = 0x1_0000_0000;
            let page: u64 = self.page_size(mi);
            total / page
        }
    }

    /// Pops an address, to which `offset` is added.
    pub fn pop_address(&mut self, offset: u32) -> (r: Result<u32, WasmError>)
        requires
            old(self).wf(),
        ensures
            (final(self)@, r) == pop_address(old(self)@, offset),
            final(self).wf(),
    {
        let base: i32 = self.pop_i32()?;
        effective_address(base, offset)
    }

    /// Executes a load.
    fn exec_load(&mut self, op: u8) -> (r: Result<(), WasmError>)
        requires
            old(self).wf(),
        ensures
            (final(self)@, r) == load(old(self)@, op),
            final(self).wf(),
    {
        if (op == 0x2A || op == 0x2B || op == 0x38 || op == 0x39) && self.runtime_class == RuntimeClass::ProofGrade {
            return Err(WasmError::FloatsDisabled);
        }
        let (mi, offset) = self.read_memarg()?;
        let addr: u32 = self.pop_address(offset)?;
        let b = self.mem_read(mi, addr, width_of_load(op))?;
        let v = value_of_bytes(op, b);
        self.push(v)
    }

    /// Executes a store.
    fn exec_store(&mut self, op: u8) -> (r: Result<(), WasmError>)
        requires
            old(self).wf(),
        ensures
            (final(self)@, r) == store(old(self)@, op),
            final(self).wf(),
    {
        if (op == 0x2A || op == 0x2B || op == 0x38 || op == 0x39) && self.runtime_class == RuntimeClass::ProofGrade {
            return Err(WasmError::FloatsDisabled);
        }
        let (mi, offset) = self.read_memarg()?;
        let v = self.pop()?;
        let addr: u32 = self.pop_address(offset)?;
        let b = bytes_of_value(op, v);
        self.mem_write(mi, addr, b.as_slice())
    }

    /// Executes `memory.size`.
    fn exec_memory_size(&mut self) -> (r: Result<(), WasmError>)
        requires
            old(self).wf(),
        ensures
            (final(self)@, r) == memory_size(old(self)@),
            final(self).wf(),
    {
        let mi: u32 = self.read_leb128_u32()?;
        let page: u64 = self.page_size(mi);
        let pages: i64 = (self.mem_size(mi) as u64 / page) as i64;
        if self.is_memory64(mi) {
            self.push(Value::I64(pages))
        } else {
            self.push(Value::I32(pages as i32))
        }
    }

    /// Sets the memory numbered `mi` to this many pages.
    fn grow_to(&mut self, mi: u32, pages: u32)
        requires
            old(self).wf(),
        ensures
            final(self)@ == old(self)@.with_store(grown(old(self)@.store, mi as int, pages as int)),
            final(self).wf(),
    {
        let page: u64 = self.page_size(mi);
        if (mi as usize) < self.memories.len() {
            let bytes: u128 = mul_pages(pages, page);
            let size: usize = if bytes > usize::MAX as u128 {
                usize::MAX
            } else {
                bytes as usize
            };
            let ghost before = self.memories@[mi as int]@;
            self.memories[mi as usize].resize(size, 0);
            self.memory_sizes[mi as usize] = size;
            proof {
                assert(self.memories@[mi as int]@ =~= resized(before, size as int));
                assert(self@.store.memories =~= grown(old(self)@.store, mi as int, pages as int).memories);
            }
        }
    }

    /// Executes `memory.grow`.
    fn exec_memory_grow(&mut self) -> (r: Result<(), WasmError>)
        requires
            old(self).wf(),
        ensures
            (final(self)@, r) == memory_grow(old(self)@),
            final(self).wf(),
    {
        let mi: u32 = self.read_leb128_u32()?;
        let wide: bool = self.is_memory64(mi);
        let delta: u32 = if wide {
            self.pop_i64()? as u32
        } else {
            self.pop_i32()? as u32
        };
        let page: u64 = self.page_size(mi);
        let old_pages: u32 = (self.mem_size(mi) as u64 / page) as u32;
        let new_pages: u32 = old_pages.saturating_add(delta);
        if new_pages as u64 > self.max_pages(mi) {
            if wide {
                self.push(Value::I64(-1))
            } else {
                self.push(Value::I32(-1))
            }
        } else {
            self.grow_to(mi, new_pages);
            if wide {
                self.push(Value::I64(old_pages as i64))
            } else {
                self.push(Value::I32((old_pages as i64) as i32))
            }
        }
    }

    /// Executes an instruction on linear memory.
    pub fn exec_memory(&mut self, op: u8) -> (r: Result<(), WasmError>)
        requires
            old(self).wf(),
        ensures
            (final(self)@, r) == memory_instruction(old(self)@, op),
            final(self).wf(),
    {
        if op <= 0x35 {
            self.exec_load(op)
        } else if op <= 0x3E {
            self.exec_store(op)
        } else if op == 0x3F {
            self.exec_memory_size()
        } else {
            self.exec_memory_grow()
        }
    }
}

/// The bytes in this many pages.
pub(crate) fn mul_pages(pages: u32, page: u64) -> (r: u128)
    ensures
        r == pages * page,
{
    assert(0 <= pages * page <= 0xFFFF_FFFF * 0xFFFF_FFFF_FFFF_FFFF) by (nonlinear_arith)
        requires
            0 <= pages <= 0xFFFF_FFFF,
            0 <= page <= 0xFFFF_FFFF_FFFF_FFFF,
    ;
    pages as u128 * page as u128
}

} // verus!
