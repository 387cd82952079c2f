//! Instructions that call functions and throw exceptions.

use vstd::prelude::*;
use crate::calls::{frame_dropped, invoke, settled};
use crate::exceptions::{tag_arity, tag_param_count, thrown};
use crate::heap::{func_type_of, is_subtype};
use crate::machine::{follow, Done, ExecResult, Machine, Outcome, WasmInstance};
use crate::module::{group_views, Module, WasmModule};
use crate::types::{Value, WasmError, MAX_PARAMS};

verus! {

broadcast use group_views;

// ---------------------------------------------------------------------------
// Exceptions

/// Throws the exception of a tag, with values from the operand stack.
pub open spec fn throw(m: Machine) -> Done<Outcome> {
    follow(
        m.read_u32(),
        |m: Machine, tag: u32|
            follow(
                m.pop_many(tag_arity(m.store.module, tag)),
                |m: Machine, vals: Seq<Value>| (m, Ok(Outcome::Exception(tag, vals))),
            ),
    )
}

/// Throws the exception that a reference stands for, without its values.
pub open spec fn throw_ref(m: Machine) -> Done<Outcome> {
    follow(
        m.pop(),
        |m: Machine, v: Value|
            match v {
                Value::I32(tag) => (m, Ok(Outcome::Exception(tag as u32, Seq::empty()))),
                _ => (m, Err(WasmError::NullReference)),
            },
    )
}

/// Throws again the exception that a block around handles.
pub open spec fn rethrow(m: Machine) -> Done<Outcome> {
    follow(
        m.read_u32(),
        |m: Machine, label: u32|
            {
                let b = m.frames.blocks[m.frames.block_depth - 1 - label];
                let tag = b.legacy_exception_tag;
                if label >= m.frames.block_depth {
                    (m, Err(WasmError::BranchDepthExceeded))
                } else if !b.is_legacy_try || tag == u32::MAX {
                    (m, Err(WasmError::UncaughtException))
                } else {
                    let r = thrown(m, tag, b.legacy_exception_values);
                    if r.1 {
                        (r.0, Ok(Outcome::Completed))
                    } else {
                        (r.0, Ok(Outcome::Exception(tag, b.legacy_exception_values)))
                    }
                }
            },
    )
}

// ---------------------------------------------------------------------------
// Calls

/// The number of parameters of a type, none where there is no such type.
pub open spec fn type_params(m: Module, t: u32) -> int {
    if t < m.func_types.len() {
        m.func_types[t as int].params.len() as int
    } else {
        0
    }
}

/// The number of parameters of a function, none where there is no such function.
pub open spec fn function_params(m: Module, f: u32) -> int {
    match func_type_of(m, f) {
        Some(t) => type_params(m, t),
        None => 0,
    }
}

/// Leaves the innermost call, keeping the `n` values on top of the operand stack.
pub open spec fn reframed(m: Machine, n: int) -> Done<()> {
    follow(
        m.pop_many(n),
        |m: Machine, args: Seq<Value>|
            if m.frames.call_depth > 0 {
                frame_dropped(m).push_many(args)
            } else {
                m.push_many(args)
            },
    )
}

/// Calls a function in place of the innermost call.
pub open spec fn tail_call(m: Machine, f: u32, n: int) -> (Machine, Outcome) {
    let r = reframed(m, n);
    match r.1 {
        Err(e) => (r.0, Outcome::Trap(e)),
        Ok(_) => invoke(r.0, f),
    }
}

/// The slots that an indirect call looks in. A call other than a tail call takes the
/// first table for one that is not there.
pub open spec fn call_slots(m: Machine, ti: u32, tail: bool) -> Result<Seq<Option<u32>>, WasmError> {
    let s = m.store;
    if ti < s.tables.len() {
        Ok(s.table(ti as int))
    } else if tail {
        Err(WasmError::TableIndexOutOfBounds)
    } else if s.tables.len() > 0 {
        Ok(s.table(0))
    } else {
        Err(WasmError::UndefinedElement)
    }
}

/// The function in a slot, provided that its type is a subtype of `t`.
pub open spec fn function_in(m: Module, slots: Seq<Option<u32>>, i: i32, t: u32) -> Result<u32, WasmError> {
    if i < 0 || i >= slots.len() {
        Err(WasmError::UndefinedElement)
    } else {
        match slots[i as int] {
            None => Err(WasmError::UninitializedElement(i as u32)),
            Some(f) => match func_type_of(m, f) {
                None => Err(WasmError::FunctionNotFound(f)),
                Some(actual) => if actual == t || is_subtype(m, actual, t) {
                    Ok(f)
                } else {
                    Err(WasmError::IndirectCallTypeMismatch)
                },
            },
        }
    }
}

/// The function that an indirect call is to call, and the type that it names.
pub open spec fn indirect_callee(m: Machine, tail: bool) -> Done<(u32, u32)> {
    follow(
        m.read_u32(),
        |m: Machine, t: u32|
            follow(
                m.read_u32(),
                |m: Machine, ti: u32|
                    follow(
                        m.pop_i32(),
                        |m: Machine, i: i32|
                            follow(
                                (m, call_slots(m, ti, tail)),
                                |m: Machine, slots: Seq<Option<u32>>|
                                    match function_in(m.store.module, slots, i, t) {
                                        Ok(f) => (m, Ok((f, t))),
                                        Err(e) => (m, Err(e)),
                                    },
                            ),
                    ),
            ),
    )
}

/// The function that a reference stands for; negative where there is none.
pub open spec fn referred_function(v: Value) -> i32 {
    match v {
        Value::I32(x) => x,
        Value::GcRef(i) => i as i32,
        _ => -1i32,
    }
}

/// The function that a call through a reference is to call, and the type that it names.
pub open spec fn referred_callee(m: Machine) -> Done<(u32, u32)> {
    follow(
        m.read_u32(),
        |m: Machine, t: u32|
            follow(
                m.pop(),
                |m: Machine, v: Value|
                    {
                        let f = referred_function(v);
                        if f < 0 {
                            (m, Err(WasmError::NullFunctionReference))
                        } else {
                            (m, Ok((f as u32, t)))
                        }
                    },
            ),
    )
}

/// The function that a call instruction is to call, and the number of its arguments.
pub open spec fn callee(m: Machine, op: u8) -> Done<(u32, int)> {
    match op {
        0x10 | 0x12 => follow(
            m.read_u32(),
            |m: Machine, f: u32| (m, Ok((f, function_params(m.store.module, f)))),
        ),
        0x11 | 0x13 => follow(
            indirect_callee(m, op == 0x13),
            |m: Machine, c: (u32, u32)| (m, Ok((c.0, type_params(m.store.module, c.1)))),
        ),
        _ => follow(
            referred_callee(m),
            |m: Machine, c: (u32, u32)|
                (
                    m,
                    Ok(
                        (
                            c.0,
                            if c.1 < m.store.module.func_types.len() {
                                type_params(m.store.module, c.1)
                            } else {
                                function_params(m.store.module, c.0)
                            },
                        ),
                    ),
                ),
        ),
    }
}

/// Whether a call instruction replaces the innermost call.
pub open spec fn is_tail_call(op: u8) -> bool {
    op == 0x12 || op == 0x13 || op == 0x15
}

/// The instructions that call a function.
pub open spec fn call_instruction(m: Machine, op: u8) -> (Machine, Outcome) {
    let c = callee(m, op);
    match c.1 {
        Err(e) => (c.0, Outcome::Trap(e)),
        Ok((f, n)) => if is_tail_call(op) {
            tail_call(c.0, f, n)
        } else {
            invoke(c.0, f)
        },
    }
}

/// The instructions that throw an exception.
pub open spec fn throw_instruction(m: Machine, op: u8) -> (Machine, Outcome) {
    settled(
        match op {
            0x08 => throw(m),
            0x09 => rethrow(m),
            _ => throw_ref(m),
        },
    )
}

/// What throws ends the run or goes on in a handler; it never asks the embedder for
/// anything.
pub proof fn throwing_asks_nothing(m: Machine, op: u8)
    ensures
        !(throw_instruction(m, op).1 is HostCall),
        !(throw_instruction(m, op).1 is Float),
        !(throw_instruction(m, op).1 is Returned),
{
}

// ---------------------------------------------------------------------------
// Execution

impl WasmModule {
    /// The number of parameters of a type, none where there is no such type.
    pub fn type_param_count(&self, t: u32) -> (r: usize)
        requires
            self.wf(),
        ensures
            r == type_params(self@, t),
            r <= MAX_PARAMS,
    {
        if (t as usize) < self.func_types.len() {
            assert(self.func_types@[t as int].wf());
            self.func_types[t as usize].param_count as usize
        } else {
            0
        }
    }

    /// The number of parameters of a function, none where there is no such function.
    pub fn function_param_count(&self, f: u32) -> (r: usize)
        requires
            self.wf(),
        ensures
            r == function_params(self@, f),
            r <= MAX_PARAMS,
    {
        match self.func_type_index(f) {
            Some(t) => self.type_param_count(t),
            None => 0,
        }
    }
}

impl WasmInstance {
    fn exec_rethrow(&mut self) -> (r: ExecResult)
        requires
            old(self).wf(),
        ensures
            (final(self)@, r@) == settled(rethrow(old(self)@)),
            final(self).wf(),
    {
        let label: u32 = match self.read_leb128_u32() {
            Ok(l) => l,
            Err(e) => {
                return ExecResult::Trap(e);
            },
        };
        if label as usize >= self.block_depth {
            return ExecResult::Trap(WasmError::BranchDepthExceeded);
        }
        let b = self.block_stack[self.block_depth - 1 - label as usize];
        assert(self.block_stack@[self.block_depth - 1 - label].wf());
        let tag: u32 = b.legacy_exception_tag;
        if !b.is_legacy_try || tag == u32::MAX {
            return ExecResult::Trap(WasmError::UncaughtException);
        }
        let n: usize = b.legacy_exception_value_count as usize;
        let mut values: Vec<Value> = Vec::new();
        let mut i: usize = 0;
        while i < n
            invariant
                i <= n <= b.legacy_exception_values@.len(),
                values@ == b.legacy_exception_values@.take(i as int),
            decreases n - i,
        {
            values.push(b.legacy_exception_values[i]);
            i = i + 1;
            assert(values@ =~= b.legacy_exception_values@.take(i as int));
        }
        if self.handle_exception(tag, &values) {
            ExecResult::Completed
        } else {
            ExecResult::Exception(tag, values)
        }
    }

    /// Executes an instruction that throws an exception.
    pub fn exec_throw(&mut self, op: u8) -> (r: ExecResult)
        requires
            old(self).wf(),
        ensures
            (final(self)@, r@) == throw_instruction(old(self)@, op),
            final(self).wf(),
    {
        match op {
            0x08 => {
                let tag: u32 = match self.read_leb128_u32() {
                    Ok(t) => t,
                    Err(e) => {
                        return ExecResult::Trap(e);
                    },
                };
                let n: usize = tag_param_count(&self.module, tag);
                match self.pop_list(n) {
                    Ok(vals) => ExecResult::Exception(tag, vals),
                    Err(e) => ExecResult::Trap(e),
                }
            },
            0x09 => self.exec_rethrow(),
            _ => match self.pop() {
                Ok(Value::I32(tag)) => {
                    let none: Vec<Value> = Vec::new();
                    ExecResult::Exception(tag as u32, none)
                },
                Ok(_) => ExecResult::Trap(WasmError::NullReference),
                Err(e) => ExecResult::Trap(e),
            },
        }
    }

    /// Leaves the innermost call, keeping the `n` values on top of the operand stack.
    fn reframe(&mut self, n: usize) -> (r: Result<(), WasmError>)
        requires
            old(self).wf(),
            n <= MAX_PARAMS,
        ensures
            (final(self)@, r) == reframed(old(self)@, n as int),
            final(self).wf(),
    {
        let args = self.pop_values(n)?;
        assert(args@.take(n as int) =~= old(self)@.top(n as int));
        if self.call_depth > 0 {
            self.drop_frame();
        }
        self.push_values(args.as_slice(), n)
    }

    fn tail_call(&mut self, f: u32, n: usize) -> (r: ExecResult)
        requires
            old(self).wf(),
            n <= MAX_PARAMS,
        ensures
            (final(self)@, r@) == tail_call(old(self)@, f, n as int),
            final(self).wf(),
    {
        match self.reframe(n) {
            Err(e) => ExecResult::Trap(e),
            Ok(_) => self.invoke(f),
        }
    }

    /// The table that an indirect call looks in.
    fn call_table(&self, ti: u32, tail: bool) -> (r: Result<usize, WasmError>)
        requires
            self.wf(),
        ensures
            match r {
                Ok(k) => k < self.tables@.len() && call_slots(self@, ti, tail) == Ok::<Seq<Option<u32>>, WasmError>(
                    self.tables@[k as int]@,
                ),
                Err(e) => call_slots(self@, ti, tail) == Err::<Seq<Option<u32>>, WasmError>(e),
            },
    {
        if (ti as usize) < self.tables.len() {
            Ok(self.resolve_table(ti))
        } else if tail {
            Err(WasmError::TableIndexOutOfBounds)
        } else if self.tables.len() > 0 {
            Ok(self.resolve_table(0))
        } else {
            Err(WasmError::UndefinedElement)
        }
    }

    /// The function in a slot of a table, provided that its type is a subtype of `t`.
    fn function_at(&self, k: usize, i: i32, t: u32) -> (r: Result<u32, WasmError>)
        requires
            self.wf(),
            k < self.tables@.len(),
        ensures
            r == function_in(self@.store.module, self.tables@[k as int]@, i, t),
    {
        if i < 0 || i as usize >= self.tables[k].len() {
            return Err(WasmError::UndefinedElement);
        }
        match self.tables[k][i as usize] {
            None => Err(WasmError::UninitializedElement(i as u32)),
            Some(f) => match self.module.func_type_index(f) {
                None => Err(WasmError::FunctionNotFound(f)),
                Some(actual) => if actual == t || self.module.gc_is_subtype(actual, t) {
                    Ok(f)
                } else {
                    Err(WasmError::IndirectCallTypeMismatch)
                },
            },
        }
    }

    fn indirect_callee(&mut self, tail: bool) -> (r: Result<(u32, u32), WasmError>)
        requires
            old(self).wf(),
        ensures
            (final(self)@, r) == indirect_callee(old(self)@, tail),
            final(self).wf(),
    {
        let t: u32 = self.read_leb128_u32()?;
        let ti: u32 = self.read_leb128_u32()?;
        let i: i32 = self.pop_i32()?;
        let k: usize = self.call_table(ti, tail)?;
        let f: u32 = self.function_at(k, i, t)?;
        Ok((f, t))
    }

    fn referred_callee(&mut self) -> (r: Result<(u32, u32), WasmError>)
        requires
            old(self).wf(),
        ensures
            (final(self)@, r) == referred_callee(old(self)@),
            final(self).wf(),
    {
        let t: u32 = self.read_leb128_u32()?;
        let v = self.pop()?;
        let f: i32 = match v {
            Value::I32(x) => x,
            Value::GcRef(i) => i as i32,
            _ => -1,
        };
        if f < 0 {
            return Err(WasmError::NullFunctionReference);
        }
        Ok((f as u32, t))
    }

    /// The function that a call instruction is to call, and the number of its
    /// arguments.
    fn callee(&mut self, op: u8) -> (r: Result<(u32, usize), WasmError>)
        requires
            old(self).wf(),
        ensures
            match r {
                Ok((f, n)) => n <= MAX_PARAMS && callee(old(self)@, op) == (
                    final(self)@,
                    Ok::<(u32, int), WasmError>((f, n as int)),
                ),
                Err(e) => callee(old(self)@, op) == (final(self)@, Err::<(u32, int), WasmError>(e)),
            },
            final(self).wf(),
    {
        match op {
            0x10 | 0x12 => {
                let f: u32 = self.read_leb128_u32()?;
                Ok((f, self.module.function_param_count(f)))
            },
            0x11 | 0x13 => {
                let (f, t) = self.indirect_callee(op == 0x13)?;
                Ok((f, self.module.type_param_count(t)))
            },
            _ => {
                let (f, t) = self.referred_callee()?;
                if (t as usize) < self.module.func_types.len() {
                    Ok((f, self.module.type_param_count(t)))
                } else {
                    Ok((f, self.module.function_param_count(f)))
                }
            },
        }
    }

    /// Executes an instruction that calls a function.
    pub fn exec_call(&mut self, op: u8) -> (r: ExecResult)
        requires
            old(self).wf(),
        ensures
            (final(self)@, r@) == call_instruction(old(self)@, op),
            final(self).wf(),
    {
        match self.callee(op) {
            Err(e) => ExecResult::Trap(e),
            Ok((f, n)) => if op == 0x12 || op == 0x13 || op == 0x15 {
                self.tail_call(f, n)
            } else {
                self.invoke(f)
            },
        }
    }
}

} // verus!
