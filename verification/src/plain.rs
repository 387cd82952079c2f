//! Constants, numeric instructions, selection, references, variables and access to
//! single table slots.

use vstd::prelude::*;
use crate::calls::{branch, carried_out};
use crate::decode_types::{skip_indices, skip_u32s};
use crate::machine::{follow, Done, ExecResult, Machine, Outcome, Store, WasmInstance};
use crate::module::group_views;
use crate::numeric::{
    binary, compute_binary, compute_unary, concerns_floats, integers_need_no_floats, is_binary, is_float, is_numeric,
    takes_two, truth, unary, Computed,
};
use crate::types::{RuntimeClass, Value, WasmError};

verus! {

broadcast use group_views;

// ---------------------------------------------------------------------------
// Numbers

/// What an instruction comes to when it has computed something.
pub open spec fn given(m: Machine, c: Computed) -> (Machine, Outcome) {
    match c {
        Computed::Value(v) => carried_out(m.push(v)),
        Computed::Trap(e) => (m, Outcome::Trap(e)),
        Computed::Call(f) => (m, Outcome::Float(f)),
    }
}

/// Executes a numeric instruction. Where floating-point numbers are not allowed,
/// those on them trap.
pub open spec fn numeric(m: Machine, op: u8) -> (Machine, Outcome) {
    if is_float(op) && m.store.class == RuntimeClass::ProofGrade {
        (m, Outcome::Trap(WasmError::FloatsDisabled))
    } else {
        let y = m.pop();
        match y.1 {
            Err(e) => (y.0, Outcome::Trap(e)),
            Ok(b) => if is_binary(op) {
                let x = y.0.pop();
                match x.1 {
                    Err(e) => (x.0, Outcome::Trap(e)),
                    Ok(a) => given(x.0, binary(op, a, b)),
                }
            } else {
                given(y.0, unary(op, b))
            },
        }
    }
}

/// Where floating-point numbers are not allowed, no numeric instruction asks for a
/// floating-point computation.
pub proof fn proof_grade_needs_no_floats(m: Machine, op: u8)
    requires
        m.store.class == RuntimeClass::ProofGrade,
    ensures
        !(numeric(m, op).1 is Float),
        is_float(op) ==> numeric(m, op) == (m, Outcome::Trap(WasmError::FloatsDisabled)),
{
    if !is_float(op) {
        let y = m.pop();
        if y.1 is Ok {
            let x = y.0.pop();
            if x.1 is Ok {
                integers_need_no_floats(op, x.1->Ok_0, y.1->Ok_0);
            }
            integers_need_no_floats(op, y.1->Ok_0, y.1->Ok_0);
        }
    }
}

/// Pushes the constant that follows the opcode.
pub open spec fn constant(m: Machine, op: u8) -> Done<()> {
    if (op == 0x43 || op == 0x44) && m.store.class == RuntimeClass::ProofGrade {
        (m, Err(WasmError::FloatsDisabled))
    } else if op == 0x41 {
        follow(m.read_i32(), |m: Machine, v: i32| m.push(Value::I32(v)))
    } else if op == 0x42 {
        follow(m.read_i64(), |m: Machine, v: i64| m.push(Value::I64(v)))
    } else if op == 0x43 {
        follow(m.read_f32(), |m: Machine, v: u32| m.push(Value::F32(v)))
    } else {
        follow(m.read_f64(), |m: Machine, v: u64| m.push(Value::F64(v)))
    }
}

// ---------------------------------------------------------------------------
// Selection and references

/// Whether a value is a null reference, which may also be held as minus one.
pub open spec fn is_null(v: Value) -> bool {
    v == Value::NullRef || v == Value::I32(-1i32)
}

/// Whether two references are the same.
pub open spec fn same_ref(a: Value, b: Value) -> bool {
    if is_null(a) || is_null(b) {
        is_null(a) && is_null(b)
    } else {
        match (a, b) {
            (Value::I32(x), Value::I32(y)) => x == y,
            (Value::GcRef(x), Value::GcRef(y)) => x == y,
            _ => false,
        }
    }
}

/// References are compared the same way round both ways, and all null references are
/// the same.
pub proof fn same_ref_symmetric(a: Value, b: Value)
    ensures
        same_ref(a, b) == same_ref(b, a),
        is_null(a) && is_null(b) ==> same_ref(a, b),
{
}

/// Pops a condition and two values, and pushes one of them.
pub open spec fn select(m: Machine) -> Done<()> {
    follow(
        m.pop_i32(),
        |m: Machine, c: i32|
            follow(
                m.pop(),
                |m: Machine, b: Value|
                    follow(
                        m.pop(),
                        |m: Machine, a: Value|
                            m.push(
                                if c != 0 {
                                    a
                                } else {
                                    b
                                },
                            ),
                    ),
            ),
    )
}

/// Skips the types of a typed selection.
pub open spec fn skip_types(m: Machine) -> Done<()> {
    follow(
        m.read_u32(),
        |m: Machine, n: u32|
            {
                let r = skip_indices(m.store.module.code, m.pc, n as nat);
                (m.at(r.1), r.0)
            },
    )
}

/// Executes an instruction on references.
pub open spec fn reference(m: Machine, op: u8) -> Done<()> {
    match op {
        0xD0 => follow(m.read_i32(), |m: Machine, ht: i32| m.push(Value::NullRef)),
        0xD1 => follow(m.pop(), |m: Machine, v: Value| m.push(truth(is_null(v)))),
        0xD2 => follow(m.read_u32(), |m: Machine, f: u32| m.push(Value::I32(f as i32))),
        0xD3 => follow(
            m.pop(),
            |m: Machine, b: Value| follow(m.pop(), |m: Machine, a: Value| m.push(truth(same_ref(a, b)))),
        ),
        0xD4 => follow(
            m.pop(),
            |m: Machine, v: Value|
                if is_null(v) {
                    (m, Err(WasmError::NullReference))
                } else {
                    m.push(v)
                },
        ),
        0xD5 => follow(
            m.read_u32(),
            |m: Machine, label: u32|
                follow(
                    m.pop(),
                    |m: Machine, v: Value|
                        if is_null(v) {
                            branch(m, label)
                        } else {
                            m.push(v)
                        },
                ),
        ),
        _ => follow(
            m.read_u32(),
            |m: Machine, label: u32|
                follow(
                    m.pop(),
                    |m: Machine, v: Value|
                        if is_null(v) {
                            (m, Ok(()))
                        } else {
                            follow(m.push(v), |m: Machine, u: ()| branch(m, label))
                        },
                ),
        ),
    }
}

// ---------------------------------------------------------------------------
// Variables

/// Executes an instruction on a local.
pub open spec fn local(m: Machine, op: u8) -> Done<()> {
    if op == 0x20 {
        follow(
            m.read_u32(),
            |m: Machine, i: u32| follow((m, m.get_local(i)), |m: Machine, v: Value| m.push(v)),
        )
    } else if op == 0x21 {
        follow(m.read_u32(), |m: Machine, i: u32| follow(m.pop(), |m: Machine, v: Value| m.set_local(i, v)))
    } else {
        follow(
            m.read_u32(),
            |m: Machine, i: u32|
                if m.stack_ptr == 0 {
                    (m, Err(WasmError::StackUnderflow))
                } else {
                    m.set_local(i, m.stack[m.stack_ptr - 1])
                },
        )
    }
}

/// Pushes a global.
pub open spec fn global_get(m: Machine) -> Done<()> {
    follow(
        m.read_u32(),
        |m: Machine, i: u32|
            if i >= m.store.globals.len() {
                (m, Err(WasmError::GlobalIndexOutOfBounds))
            } else {
                m.push(m.store.globals[i as int])
            },
    )
}

/// Whether the module declares a global as immutable.
pub open spec fn is_immutable(s: Store, i: u32) -> bool {
    i < s.module.globals.len() && !s.module.globals[i as int].mutable
}

/// Pops a value into a global.
pub open spec fn global_set(m: Machine) -> Done<()> {
    follow(
        m.read_u32(),
        |m: Machine, i: u32|
            if i >= m.store.globals.len() {
                (m, Err(WasmError::GlobalIndexOutOfBounds))
            } else if is_immutable(m.store, i) {
                (m, Err(WasmError::ImmutableGlobal))
            } else {
                follow(
                    m.pop(),
                    |m: Machine, v: Value|
                        (
                            m.with_store(Store { globals: m.store.globals.update(i as int, v), ..m.store }),
                            Ok(()),
                        ),
                )
            },
    )
}

/// Setting a global never changes one that is declared immutable.
pub proof fn immutable_globals_stay(m: Machine, i: u32)
    requires
        is_immutable(m.store, i),
        i < m.store.globals.len(),
    ensures
        global_set(m).0.store.globals.len() == m.store.globals.len(),
        global_set(m).0.store.globals[i as int] == m.store.globals[i as int],
{
}

// ---------------------------------------------------------------------------
// Table slots

/// The reference that a table slot holds. Slots hold function indices, or heap indices
/// with the highest bit set.
pub open spec fn slot_value(slot: Option<u32>) -> Value {
    match slot {
        None => Value::NullRef,
        Some(f) => if f >= 0x8000_0000 {
            Value::GcRef((f - 0x8000_0000) as u32)
        } else {
            Value::I32(f as i32)
        },
    }
}

/// The table slot that holds a reference.
pub open spec fn value_slot(v: Value) -> Option<u32> {
    match v {
        Value::I32(x) => if x < 0 {
            None
        } else {
            Some(x as u32)
        },
        Value::GcRef(h) => if h >= 0x8000_0000 {
            Some(h)
        } else {
            Some((h + 0x8000_0000) as u32)
        },
        _ => None,
    }
}

/// Reading a slot and writing the value back leaves the slot as it was.
pub proof fn slot_read_back(slot: Option<u32>)
    ensures
        value_slot(slot_value(slot)) == slot,
{
}

/// Writing a reference and reading the slot gives the reference back: null, a function
/// or a heap object within 31 bits.
pub proof fn slot_written_back(v: Value)
    requires
        v == Value::NullRef || (v matches Value::I32(x) && x >= 0) || (v matches Value::GcRef(h) && h < 0x8000_0000),
    ensures
        slot_value(value_slot(v)) == v,
{
}

impl Store {
    /// The table that a table index stands for.
    pub open spec fn table_at(self, ti: int) -> int {
        if ti < self.table_aliases.len() {
            match self.table_aliases[ti] {
                Some(j) => j as int,
                None => ti,
            }
        } else {
            ti
        }
    }

    /// The slots of the table that a table index stands for.
    pub open spec fn table(self, ti: int) -> Seq<Option<u32>> {
        self.tables[self.table_at(ti)]
    }

    /// The store with other slots in the table that an index stands for.
    pub open spec fn with_table(self, ti: int, slots: Seq<Option<u32>>) -> Store {
        Store { tables: self.tables.update(self.table_at(ti), slots), ..self }
    }

    /// Whether a table is indexed with 64 bits.
    pub open spec fn is_table64(self, ti: u32) -> bool {
        ti < self.module.tables.len() && self.module.tables[ti as int].is_table64
    }
}

/// Pops an index of 32 or 64 bits. A negative one lies beyond every table.
pub open spec fn pop_index(m: Machine, wide: bool) -> Done<int> {
    if wide {
        let r = m.pop_i64();
        match r.1 {
            Ok(v) => (
                r.0,
                Ok(
                    if v < 0 {
                        u64::MAX as int
                    } else {
                        v as int
                    },
                ),
            ),
            Err(e) => (r.0, Err(e)),
        }
    } else {
        let r = m.pop_i32();
        match r.1 {
            Ok(v) => (
                r.0,
                Ok(
                    if v < 0 {
                        u64::MAX as int
                    } else {
                        v as int
                    },
                ),
            ),
            Err(e) => (r.0, Err(e)),
        }
    }
}

/// Whether a table has a slot with this index.
pub open spec fn has_slot(s: Store, ti: u32, i: int) -> bool {
    ti < s.tables.len() && i < s.table(ti as int).len()
}

pub open spec fn table_get(m: Machine) -> Done<()> {
    follow(
        m.read_u32(),
        |m: Machine, ti: u32|
            follow(
                pop_index(m, m.store.is_table64(ti)),
                |m: Machine, i: int|
                    if has_slot(m.store, ti, i) {
                        m.push(slot_value(m.store.table(ti as int)[i]))
                    } else {
                        (m, Err(WasmError::TableIndexOutOfBounds))
                    },
            ),
    )
}

pub open spec fn table_set(m: Machine) -> Done<()> {
    follow(
        m.read_u32(),
        |m: Machine, ti: u32|
            follow(
                m.pop(),
                |m: Machine, v: Value|
                    follow(
                        pop_index(m, m.store.is_table64(ti)),
                        |m: Machine, i: int|
                            if has_slot(m.store, ti, i) {
                                (
                                    m.with_store(
                                        m.store.with_table(
                                            ti as int,
                                            m.store.table(ti as int).update(i, value_slot(v)),
                                        ),
                                    ),
                                    Ok(()),
                                )
                            } else {
                                (m, Err(WasmError::TableIndexOutOfBounds))
                            },
                    ),
            ),
    )
}

/// Executes an instruction on variables or table slots.
pub open spec fn variable(m: Machine, op: u8) -> Done<()> {
    match op {
        0x23 => global_get(m),
        0x24 => global_set(m),
        0x25 => table_get(m),
        0x26 => table_set(m),
        _ => local(m, op),
    }
}

/// Drops or selects a value.
pub open spec fn parametric(m: Machine, op: u8) -> Done<()> {
    match op {
        0x1A => follow(m.pop(), |m: Machine, v: Value| (m, Ok(()))),
        0x1B => select(m),
        _ => follow(skip_types(m), |m: Machine, u: ()| select(m)),
    }
}

// ---------------------------------------------------------------------------
// Execution

/// Whether a value is a null reference.
pub fn null_ref(v: Value) -> (r: bool)
    ensures
        r == is_null(v),
{
    match v {
        Value::NullRef => true,
        Value::I32(x) => x == -1,
        _ => false,
    }
}

/// Whether two references are the same.
fn refs_equal(a: Value, b: Value) -> (r: bool)
    ensures
        r == same_ref(a, b),
{
    if null_ref(a) || null_ref(b) {
        null_ref(a) && null_ref(b)
    } else {
        match (a, b) {
            (Value::I32(x), Value::I32(y)) => x == y,
            (Value::GcRef(x), Value::GcRef(y)) => x == y,
            _ => false,
        }
    }
}

/// The reference that a table slot holds.
pub fn value_of_slot(slot: Option<u32>) -> (r: Value)
    ensures
        r == slot_value(slot),
{
    match slot {
        None => Value::NullRef,
        Some(f) => if f >= 0x8000_0000 {
            Value::GcRef(f - 0x8000_0000)
        } else {
            Value::I32(f as i32)
        },
    }
}

/// The table slot that holds a reference.
pub fn slot_of_value(v: Value) -> (r: Option<u32>)
    ensures
        r == value_slot(v),
{
    match v {
        Value::I32(x) => if x < 0 {
            None
        } else {
            Some(x as u32)
        },
        Value::GcRef(h) => if h >= 0x8000_0000 {
            Some(h)
        } else {
            Some(h + 0x8000_0000)
        },
        _ => None,
    }
}

fn truth_of(b: bool) -> (r: Value)
    ensures
        r == truth(b),
{
    if b {
        Value::I32(1)
    } else {
        Value::I32(0)
    }
}

impl WasmInstance {
    /// Takes over what an instruction has computed.
    pub fn give(&mut self, c: Computed) -> (r: ExecResult)
        requires
            old(self).wf(),
        ensures
            (final(self)@, r@) == given(old(self)@, c),
            final(self).wf(),
    {
        match c {
            Computed::Value(v) => match self.push(v) {
                Ok(_) => ExecResult::Completed,
                Err(e) => ExecResult::Trap(e),
            },
            Computed::Trap(e) => ExecResult::Trap(e),
            Computed::Call(f) => ExecResult::Float(f),
        }
    }

    /// Executes a numeric instruction.
    pub fn exec_numeric(&mut self, op: u8) -> (r: ExecResult)
        requires
            old(self).wf(),
            is_numeric(op),
        ensures
            (final(self)@, r@) == numeric(old(self)@, op),
            final(self).wf(),
    {
        if concerns_floats(op) && self.runtime_class == RuntimeClass::ProofGrade {
            return ExecResult::Trap(WasmError::FloatsDisabled);
        }
        let b = match self.pop() {
            Ok(v) => v,
            Err(e) => {
                return ExecResult::Trap(e);
            },
        };
        if takes_two(op) {
            let a = match self.pop() {
                Ok(v) => v,
                Err(e) => {
                    return ExecResult::Trap(e);
                },
            };
            let c = compute_binary(op, a, b);
            self.give(c)
        } else {
            let c = compute_unary(op, b);
            self.give(c)
        }
    }

    /// Pushes the constant that follows the opcode.
    pub fn exec_constant(&mut self, op: u8) -> (r: Result<(), WasmError>)
        requires
            old(self).wf(),
        ensures
            (final(self)@, r) == constant(old(self)@, op),
            final(self).wf(),
    {
        if (op == 0x43 || op == 0x44) && self.runtime_class == RuntimeClass::ProofGrade {
            return Err(WasmError::FloatsDisabled);
        }
        match op {
            0x41 => {
                let v: i32 = self.read_leb128_i32()?;
                self.push(Value::I32(v))
            },
            0x42 => {
                let v: i64 = self.read_leb128_i64()?;
                self.push(Value::I64(v))
            },
            0x43 => {
                let v: u32 = self.read_f32()?;
                self.push(Value::F32(v))
            },
            _ => {
                let v: u64 = self.read_f64()?;
                self.push(Value::F64(v))
            },
        }
    }

    fn exec_select(&mut self) -> (r: Result<(), WasmError>)
        requires
            old(self).wf(),
        ensures
            (final(self)@, r) == select(old(self)@),
            final(self).wf(),
    {
        let c: i32 = self.pop_i32()?;
        let b = self.pop()?;
        let a = self.pop()?;
        if c != 0 {
            self.push(a)
        } else {
            self.push(b)
        }
    }

    /// Drops or selects a value.
    pub fn exec_parametric(&mut self, op: u8) -> (r: Result<(), WasmError>)
        requires
            old(self).wf(),
        ensures
            (final(self)@, r) == parametric(old(self)@, op),
            final(self).wf(),
    {
        match op {
            0x1A => {
                self.pop()?;
                Ok(())
            },
            0x1B => self.exec_select(),
            _ => {
                let n: u32 = self.read_leb128_u32()?;
                skip_u32s(self.module.code.as_slice(), &mut self.pc, n as usize)?;
                self.exec_select()
            },
        }
    }

    /// Executes an instruction on references.
    pub fn exec_reference(&mut self, op: u8) -> (r: Result<(), WasmError>)
        requires
            old(self).wf(),
        ensures
            (final(self)@, r) == reference(old(self)@, op),
            final(self).wf(),
    {
        match op {
            0xD0 => {
                self.read_leb128_i32()?;
                self.push(Value::NullRef)
            },
            0xD1 => {
                let v = self.pop()?;
                self.push(truth_of(null_ref(v)))
            },
            0xD2 => {
                let f: u32 = self.read_leb128_u32()?;
                self.push(Value::I32(f as i32))
            },
            0xD3 => {
                let b = self.pop()?;
                let a = self.pop()?;
                self.push(truth_of(refs_equal(a, b)))
            },
            0xD4 => {
                let v = self.pop()?;
                if null_ref(v) {
                    Err(WasmError::NullReference)
                } else {
                    self.push(v)
                }
            },
            0xD5 => {
                let label: u32 = self.read_leb128_u32()?;
                let v = self.pop()?;
                if null_ref(v) {
                    self.branch(label)
                } else {
                    self.push(v)
                }
            },
            _ => {
                let label: u32 = self.read_leb128_u32()?;
                let v = self.pop()?;
                if null_ref(v) {
                    Ok(())
                } else {
                    self.push(v)?;
                    self.branch(label)
                }
            },
        }
    }

    fn exec_local(&mut self, op: u8) -> (r: Result<(), WasmError>)
        requires
            old(self).wf(),
        ensures
            (final(self)@, r) == local(old(self)@, op),
            final(self).wf(),
    {
        let i: u32 = self.read_leb128_u32()?;
        if op == 0x20 {
            let v = self.get_local(i)?;
            self.push(v)
        } else if op == 0x21 {
            let v = self.pop()?;
            self.set_local(i, v)
        } else {
            if self.stack_ptr == 0 {
                return Err(WasmError::StackUnderflow);
            }
            let v = self.stack[self.stack_ptr - 1];
            self.set_local(i, v)
        }
    }

    fn exec_global_get(&mut self) -> (r: Result<(), WasmError>)
        requires
            old(self).wf(),
        ensures
            (final(self)@, r) == global_get(old(self)@),
            final(self).wf(),
    {
        let i: u32 = self.read_leb128_u32()?;
        if i as usize >= self.globals.len() {
            return Err(WasmError::GlobalIndexOutOfBounds);
        }
        let v = self.globals[i as usize];
        self.push(v)
    }

    fn exec_global_set(&mut self) -> (r: Result<(), WasmError>)
        requires
            old(self).wf(),
        ensures
            (final(self)@, r) == global_set(old(self)@),
            final(self).wf(),
    {
        let i: u32 = self.read_leb128_u32()?;
        if i as usize >= self.globals.len() {
            return Err(WasmError::GlobalIndexOutOfBounds);
        }
        if (i as usize) < self.module.globals.len() && !self.module.globals[i as usize].mutable {
            return Err(WasmError::ImmutableGlobal);
        }
        let v = self.pop()?;
        self.globals[i as usize] = v;
        Ok(())
    }

    /// The table that a table index stands for.
    pub fn resolve_table(&self, ti: u32) -> (r: usize)
        requires
            self.wf(),
        ensures
            r == self@.store.table_at(ti as int),
            ti < self.tables@.len() ==> r < self.tables@.len(),
    {
        if (ti as usize) < self.table_aliases.len() {
            assert(self.table_aliases@[ti as int] matches Some(j) ==> j < self.tables@.len());
            match self.table_aliases[ti as usize] {
                Some(j) => j,
                None => ti as usize,
            }
        } else {
            ti as usize
        }
    }

    /// Whether a table is indexed with 64 bits.
    pub fn is_table64(&self, ti: u32) -> (r: bool)
        ensures
            r == self@.store.is_table64(ti),
    {
        (ti as usize) < self.module.tables.len() && self.module.tables[ti as usize].is_table64
    }

    /// Pops an index of 32 or 64 bits.
    pub fn pop_index(&mut self, wide: bool) -> (r: Result<u64, WasmError>)
        requires
            old(self).wf(),
        ensures
            match r {
                Ok(i) => pop_index(old(self)@, wide) == (final(self)@, Ok::<int, WasmError>(i as int)),
                Err(e) => pop_index(old(self)@, wide) == (final(self)@, Err::<int, WasmError>(e)),
            },
            final(self).wf(),
    {
        let v: i64 = if wide {
            self.pop_i64()?
        } else {
            self.pop_i32()? as i64
        };
        if v < 0 {
            Ok(u64::MAX)
        } else {
            Ok(v as u64)
        }
    }

    fn exec_table_get(&mut self) -> (r: Result<(), WasmError>)
        requires
            old(self).wf(),
        ensures
            (final(self)@, r) == table_get(old(self)@),
            final(self).wf(),
    {
        let ti: u32 = self.read_leb128_u32()?;
        let wide: bool = self.is_table64(ti);
        let i: u64 = self.pop_index(wide)?;
        if ti as usize >= self.tables.len() {
            return Err(WasmError::TableIndexOutOfBounds);
        }
        let t: usize = self.resolve_table(ti);
        if i >= self.tables[t].len() as u64 {
            return Err(WasmError::TableIndexOutOfBounds);
        }
        let v = value_of_slot(self.tables[t][i as usize]);
        self.push(v)
    }

    fn exec_table_set(&mut self) -> (r: Result<(), WasmError>)
        requires
            old(self).wf(),
        ensures
            (final(self)@, r) == table_set(old(self)@),
            final(self).wf(),
    {
        let ti: u32 = self.read_leb128_u32()?;
        let v = self.pop()?;
        let wide: bool = self.is_table64(ti);
        let i: u64 = self.pop_index(wide)?;
        if ti as usize >= self.tables.len() {
            return Err(WasmError::TableIndexOutOfBounds);
        }
        let t: usize = self.resolve_table(ti);
        if i >= self.tables[t].len() as u64 {
            return Err(WasmError::TableIndexOutOfBounds);
        }
        let slot = slot_of_value(v);
        let ghost before = self.tables@;
        self.tables[t][i as usize] = slot;
        assert(self@.store.tables =~= crate::module::views(before).update(
            t as int,
            before[t as int]@.update(i as int, slot),
        ));
        Ok(())
    }

    /// Executes an instruction on variables or table slots.
    pub fn exec_variable(&mut self, op: u8) -> (r: Result<(), WasmError>)
        requires
            old(self).wf(),
        ensures
            (final(self)@, r) == variable(old(self)@, op),
            final(self).wf(),
    {
        match op {
            0x23 => self.exec_global_get(),
            0x24 => self.exec_global_set(),
            0x25 => self.exec_table_get(),
            0x26 => self.exec_table_set(),
            _ => self.exec_local(op),
        }
    }
}

} // verus!
