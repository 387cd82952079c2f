//! Branches, calls, returns and exceptions.

use vstd::prelude::*;
use crate::machine::{
    least, padded, splice, Block, BlockFrame, CallFrame, Done, ExecResult, Frames, Machine, Outcome, WasmInstance,
    MAX_TOTAL_LOCALS,
};
use crate::module::group_views;
use crate::types::{Value, WasmError, MAX_CALL_DEPTH, MAX_LOCALS, MAX_PARAMS, MAX_STACK};

verus! {

broadcast use group_views;

// ---------------------------------------------------------------------------
// Branches

/// Branches to the label `depth` blocks out.
pub open spec fn branch(m: Machine, depth: u32) -> Done<()> {
    let open = m.frames.block_depth - m.block_base();
    if depth >= open {
        (m, Err(WasmError::BranchDepthExceeded))
    } else {
        let idx = m.frames.block_depth - 1 - depth;
        let t = m.frames.blocks[idx];
        let c = m.carried(t.stack_base as int, t.result_count as int);
        if t.is_loop {
            (c.at(t.start_pc as int).with_block_depth(idx + 1), Ok(()))
        } else {
            (c.at(t.end_pc as int).with_block_depth(idx), Ok(()))
        }
    }
}

impl WasmInstance {
    /// Branches to the label `depth` blocks out.
    pub fn branch(&mut self, depth: u32) -> (r: Result<(), WasmError>)
        requires
            old(self).wf(),
        ensures
            (final(self)@, r) == branch(old(self)@, depth),
            final(self).wf(),
    {
        let base: usize = self.block_base();
        if self.block_depth < base || depth as usize >= self.block_depth - base {
            return Err(WasmError::BranchDepthExceeded);
        }
        let idx: usize = self.block_depth - 1 - depth as usize;
        let target = self.block_stack[idx];
        assert(self.block_stack@[idx as int].wf());
        self.carry(target.stack_base, target.result_count as usize);
        if target.is_loop {
            self.pc = target.start_pc;
            self.block_depth = idx + 1;
        } else {
            self.pc = target.end_pc;
            self.block_depth = idx;
        }
        Ok(())
    }
}

// ---------------------------------------------------------------------------
// Calls

/// The machine when the innermost call is left.
pub open spec fn frame_dropped(m: Machine) -> Machine {
    let f = m.frames.calls[m.frames.call_depth - 1];
    Machine {
        stack_ptr: f.stack_base as int,
        pc: f.return_pc as int,
        frames: Frames {
            call_depth: m.frames.call_depth - 1,
            block_depth: f.saved_block_depth as int,
            ..m.frames
        },
        ..m
    }
}

/// First free local.
pub open spec fn next_local(m: Machine) -> int {
    if m.frames.call_depth > 0 {
        let f = m.frames.calls[m.frames.call_depth - 1];
        f.local_base + f.local_count
    } else {
        0
    }
}

/// Moves the arguments of a call into locals from `base` on. Where the stack holds
/// too few, those there are are moved all the same.
pub open spec fn arguments_moved(m: Machine, base: int, n: int) -> Done<()> {
    let k = least(n, m.stack_ptr);
    let moved = Machine {
        stack_ptr: m.stack_ptr - k,
        frames: Frames { locals: splice(m.frames.locals, base + n - k, m.top(k)), ..m.frames },
        ..m
    };
    if m.stack_ptr < n {
        (moved, Err(WasmError::StackUnderflow))
    } else {
        (moved, Ok(()))
    }
}

/// Enters the function numbered `func_idx`, which the module defines. Its arguments
/// are on the operand stack.
pub open spec fn enter(m: Machine, func_idx: u32) -> Done<()> {
    let md = m.store.module;
    let li = func_idx - md.imported_funcs().len();
    if li < 0 || li >= md.functions.len() || md.functions[li].type_idx >= md.func_types.len() {
        (m, Err(WasmError::FunctionNotFound(func_idx)))
    } else {
        let f = md.functions[li];
        let ft = md.func_types[f.type_idx as int];
        let params = ft.params.len() as int;
        let base = next_local(m);
        if m.frames.call_depth >= MAX_CALL_DEPTH {
            (m, Err(WasmError::CallStackOverflow))
        } else if base + params + f.local_count > MAX_TOTAL_LOCALS {
            (m, Err(WasmError::StackOverflow))
        } else {
            let a = arguments_moved(m, base, params);
            match a.1 {
                Err(e) => (a.0, Err(e)),
                Ok(_) => {
                    let zeros = Seq::new(f.local_count as nat, |i: int| Value::zero_of(f.locals[i]));
                    let end = (f.code_offset + f.code_len) as usize;
                    let frame = CallFrame {
                        func_idx,
                        return_pc: m.pc as usize,
                        code_offset: f.code_offset,
                        code_end: end,
                        local_base: base as usize,
                        local_count: (params + f.local_count) as usize,
                        stack_base: a.0.stack_ptr as usize,
                        result_count: ft.results.len() as u8,
                        saved_block_depth: m.frames.block_depth as usize,
                        block_stack_base: m.frames.block_depth as usize,
                    };
                    let entered = Machine {
                        pc: f.code_offset as int,
                        frames: Frames {
                            locals: splice(a.0.frames.locals, base + params, zeros),
                            calls: m.frames.calls.update(m.frames.call_depth, frame),
                            call_depth: m.frames.call_depth + 1,
                            ..m.frames
                        },
                        ..a.0
                    };
                    entered.push_block(
                        Block::plain(
                            f.code_offset,
                            end,
                            frame.stack_base,
                            frame.result_count,
                            frame.result_count,
                            false,
                        ),
                    )
                },
            }
        }
    }
}

/// Asks for a call of the function import numbered `func_idx`, whose arguments are
/// on the operand stack.
pub open spec fn import_call(m: Machine, func_idx: u32) -> Done<Outcome> {
    let md = m.store.module;
    let imported = md.imported_funcs();
    if func_idx >= imported.len() {
        (m, Err(WasmError::ImportNotFound(func_idx)))
    } else if imported[func_idx as int] >= md.func_types.len() {
        (m, Err(WasmError::FunctionNotFound(func_idx)))
    } else {
        let n = md.func_types[imported[func_idx as int] as int].params.len();
        let r = m.pop_many(n as int);
        match r.1 {
            Err(e) => (r.0, Err(e)),
            Ok(args) => (r.0, Ok(Outcome::HostCall(func_idx, padded(args), n as u8))),
        }
    }
}

/// An outcome, a failure being a trap.
pub open spec fn settled(r: Done<Outcome>) -> (Machine, Outcome) {
    match r.1 {
        Ok(o) => (r.0, o),
        Err(e) => (r.0, Outcome::Trap(e)),
    }
}

/// One instruction carried out, a failure being a trap.
pub open spec fn carried_out(r: Done<()>) -> (Machine, Outcome) {
    match r.1 {
        Ok(_) => (r.0, Outcome::Completed),
        Err(e) => (r.0, Outcome::Trap(e)),
    }
}

/// Calls the function numbered `func_idx`.
pub open spec fn invoke(m: Machine, func_idx: u32) -> (Machine, Outcome) {
    if func_idx < m.store.module.imported_funcs().len() {
        settled(import_call(m, func_idx))
    } else {
        carried_out(enter(m, func_idx))
    }
}

/// Leaves the innermost call, or ends the run where there is none.
pub open spec fn leave(m: Machine) -> (Machine, Outcome) {
    if m.frames.call_depth == 0 {
        let done = Machine { finished: true, ..m };
        if m.stack_ptr > 0 {
            (done, Outcome::Returned(m.stack[m.stack_ptr - 1]))
        } else {
            (done, Outcome::Completed)
        }
    } else {
        let f = m.frames.calls[m.frames.call_depth - 1];
        let n = f.result_count as int;
        let c = frame_dropped(m).placed(f.stack_base as int, m.top(n));
        if m.frames.call_depth == 1 {
            let done = Machine { finished: true, ..c };
            if n > 0 {
                (done, Outcome::Returned(m.top(n)[0]))
            } else {
                (done, Outcome::Completed)
            }
        } else {
            (c, Outcome::Completed)
        }
    }
}

impl WasmInstance {
    /// First free local.
    fn next_local(&self) -> (r: usize)
        requires
            self.wf(),
        ensures
            r == next_local(self@),
            r <= MAX_TOTAL_LOCALS,
    {
        if self.call_depth > 0 {
            assert(self.call_stack@[self.call_depth - 1].wf());
            let f = self.call_stack[self.call_depth - 1];
            f.local_base + f.local_count
        } else {
            0
        }
    }

    /// Moves the arguments of a call into locals from `base` on.
    fn move_arguments(&mut self, base: usize, n: usize) -> (r: Result<(), WasmError>)
        requires
            old(self).wf(),
            n <= MAX_PARAMS,
            base + n <= MAX_TOTAL_LOCALS,
        ensures
            (final(self)@, r) == arguments_moved(old(self)@, base as int, n as int),
            final(self).wf(),
    {
        let ghost sp = self.stack_ptr as int;
        let k: usize = if n <= self.stack_ptr {
            n
        } else {
            self.stack_ptr
        };
        let first: usize = base + n - k;
        let mut i: usize = 0;
        while i < k
            invariant
                i <= k,
                k <= MAX_PARAMS,
                first + k <= MAX_TOTAL_LOCALS,
                self.wf(),
                sp == old(self).stack_ptr,
                k <= sp,
                self@ == (Machine {
                    frames: Frames {
                        locals: splice(old(self)@.frames.locals, first as int, old(self)@.top(k as int).take(i as int)),
                        ..old(self)@.frames
                    },
                    ..old(self)@
                }),
            decreases k - i,
        {
            self.locals[first + i] = self.stack[self.stack_ptr - (k - i)];
            i = i + 1;
        }
        assert(old(self)@.top(k as int).take(i as int) =~= old(self)@.top(k as int));
        self.stack_ptr = self.stack_ptr - k;
        if k < n {
            return Err(WasmError::StackUnderflow);
        }
        Ok(())
    }

    /// Sets the declared locals of a call, which start at `base`, to zero.
    fn clear_locals(&mut self, base: usize, li: usize)
        requires
            old(self).wf(),
            li < old(self).module.functions@.len(),
            base + old(self).module.functions@[li as int].local_count <= MAX_TOTAL_LOCALS,
        ensures
            final(self)@ == (Machine {
                frames: Frames {
                    locals: splice(
                        old(self)@.frames.locals,
                        base as int,
                        Seq::new(
                            old(self)@.store.module.functions[li as int].local_count as nat,
                            |i: int| Value::zero_of(old(self)@.store.module.functions[li as int].locals[i]),
                        ),
                    ),
                    ..old(self)@.frames
                },
                ..old(self)@
            }),
            final(self).module == old(self).module,
            final(self).wf(),
    {
        assert(self.module.functions@[li as int].within(self.module.code@.len() as int));
        let n: usize = self.module.functions[li].local_count as usize;
        let ghost types = self@.store.module.functions[li as int].locals;
        let mut i: usize = 0;
        while i < n
            invariant
                i <= n <= MAX_LOCALS,
                base + n <= MAX_TOTAL_LOCALS,
                self.wf(),
                self.module == old(self).module,
                li < self.module.functions@.len(),
                types == self.module.functions@[li as int].locals@,
                types.len() == MAX_LOCALS,
                self@ == (Machine {
                    frames: Frames {
                        locals: splice(
                            old(self)@.frames.locals,
                            base as int,
                            Seq::new(i as nat, |j: int| Value::zero_of(types[j])),
                        ),
                        ..old(self)@.frames
                    },
                    ..old(self)@
                }),
            decreases n - i,
        {
            let t = self.module.functions[li].locals[i];
            self.locals[base + i] = Value::default_for(t);
            i = i + 1;
        }
    }

    /// Enters the function numbered `func_idx`, which the module defines.
    pub fn enter_function(&mut self, func_idx: u32) -> (r: Result<(), WasmError>)
        requires
            old(self).wf(),
        ensures
            (final(self)@, r) == enter(old(self)@, func_idx),
            final(self).wf(),
    {
        let imports: usize = self.module.func_import_count();
        if (func_idx as usize) < imports {
            return Err(WasmError::FunctionNotFound(func_idx));
        }
        let li: usize = func_idx as usize - imports;
        if li >= self.module.functions.len() {
            return Err(WasmError::FunctionNotFound(func_idx));
        }
        let ti: usize = self.module.functions[li].type_idx as usize;
        if ti >= self.module.func_types.len() {
            return Err(WasmError::FunctionNotFound(func_idx));
        }
        assert(self.module.func_types@[ti as int].wf());
        assert(self.module.functions@[li as int].within(self.module.code@.len() as int));
        let params: usize = self.module.func_types[ti].param_count as usize;
        let result_count: u8 = self.module.func_types[ti].result_count;
        let local_count: usize = self.module.functions[li].local_count as usize;
        let code_offset: usize = self.module.functions[li].code_offset;
        let code_end: usize = code_offset + self.module.functions[li].code_len;
        if self.call_depth >= MAX_CALL_DEPTH {
            return Err(WasmError::CallStackOverflow);
        }
        let base: usize = self.next_local();
        if base + params + local_count > MAX_TOTAL_LOCALS {
            return Err(WasmError::StackOverflow);
        }
        self.move_arguments(base, params)?;
        let ghost moved = self@;
        proof {
            assert(moved.store.module == old(self)@.store.module);
            assert(self.module.functions@.len() == self@.store.module.functions.len());
            assert(self.module.functions@[li as int]@ == self@.store.module.functions[li as int]);
        }
        self.clear_locals(base + params, li);
        let frame = CallFrame {
            func_idx,
            return_pc: self.pc,
            code_offset,
            code_end,
            local_base: base,
            local_count: params + local_count,
            stack_base: self.stack_ptr,
            result_count,
            saved_block_depth: self.block_depth,
            block_stack_base: self.block_depth,
        };
        self.call_stack[self.call_depth] = frame;
        self.call_depth = self.call_depth + 1;
        self.pc = code_offset;
        let stack_base: usize = self.stack_ptr;
        self.push_block(BlockFrame::plain(code_offset, code_end, stack_base, result_count, result_count, false))
    }

    /// Asks for a call of the function import numbered `func_idx`.
    pub fn handle_import_call(&mut self, func_idx: u32) -> (r: Result<ExecResult, WasmError>)
        requires
            old(self).wf(),
        ensures
            match r {
                Ok(o) => import_call(old(self)@, func_idx) == (final(self)@, Ok::<Outcome, WasmError>(o@)),
                Err(e) => import_call(old(self)@, func_idx) == (final(self)@, Err::<Outcome, WasmError>(e)),
            },
            final(self).wf(),
    {
        let ti: usize = match self.module.func_import_type(func_idx) {
            Some(ti) => ti as usize,
            None => {
                return Err(WasmError::ImportNotFound(func_idx));
            },
        };
        if ti >= self.module.func_types.len() {
            return Err(WasmError::FunctionNotFound(func_idx));
        }
        assert(self.module.func_types@[ti as int].wf());
        let n: u8 = self.module.func_types[ti].param_count;
        let args = self.pop_values(n as usize)?;
        Ok(ExecResult::HostCall(func_idx, args, n))
    }

    /// Calls the function numbered `func_idx`.
    pub fn invoke(&mut self, func_idx: u32) -> (r: ExecResult)
        requires
            old(self).wf(),
        ensures
            (final(self)@, r@) == invoke(old(self)@, func_idx),
            final(self).wf(),
    {
        if (func_idx as usize) < self.module.func_import_count() {
            match self.handle_import_call(func_idx) {
                Ok(o) => o,
                Err(e) => ExecResult::Trap(e),
            }
        } else {
            match self.enter_function(func_idx) {
                Ok(_) => ExecResult::Completed,
                Err(e) => ExecResult::Trap(e),
            }
        }
    }

    /// Leaves the innermost call without keeping anything of it.
    pub fn drop_frame(&mut self)
        requires
            old(self).wf(),
            old(self).call_depth > 0,
        ensures
            final(self)@ == frame_dropped(old(self)@),
            final(self).wf(),
    {
        assert(self.call_stack@[self.call_depth - 1].wf());
        let f = self.call_stack[self.call_depth - 1];
        self.call_depth = self.call_depth - 1;
        self.stack_ptr = f.stack_base;
        self.pc = f.return_pc;
        self.block_depth = f.saved_block_depth;
    }

    /// Leaves the innermost call, or ends the run where there is none.
    pub fn do_return(&mut self) -> (r: ExecResult)
        requires
            old(self).wf(),
        ensures
            (final(self)@, r@) == leave(old(self)@),
            final(self).wf(),
    {
        if self.call_depth == 0 {
            self.finished = true;
            if self.stack_ptr > 0 {
                return ExecResult::Returned(self.stack[self.stack_ptr - 1]);
            }
            return ExecResult::Completed;
        }
        assert(self.call_stack@[self.call_depth - 1].wf());
        let f = self.call_stack[self.call_depth - 1];
        let n: usize = f.result_count as usize;
        let results = self.top_values(n);
        self.drop_frame();
        self.place(f.stack_base, results.as_slice(), n);
        assert(results@.take(n as int) =~= old(self)@.top(n as int));
        if self.call_depth == 0 {
            self.finished = true;
            if n > 0 {
                return ExecResult::Returned(results[0]);
            }
            return ExecResult::Completed;
        }
        ExecResult::Completed
    }
}

/// A branch that is taken leaves the values it carries on top of what was on the
/// operand stack when the block was opened, and goes to the start of a loop or past the
/// end of any other block.
pub proof fn branch_lands(m: Machine, depth: u32)
    requires
        m.valid(),
        branch(m, depth).1 is Ok,
    ensures
        ({
            let t = m.frames.blocks[m.frames.block_depth - 1 - depth];
            let r = branch(m, depth).0;
            &&& r.pc == if t.is_loop {
                t.start_pc
            } else {
                t.end_pc
            }
            &&& t.stack_base + t.result_count <= MAX_STACK ==> r.stack_ptr == t.stack_base + t.result_count
            &&& r.stack.take(t.stack_base as int) == m.stack.take(t.stack_base as int)
            &&& r.frames.calls == m.frames.calls && r.frames.call_depth == m.frames.call_depth
            &&& r.store == m.store
        }),
{
    let t = m.frames.blocks[m.frames.block_depth - 1 - depth];
    if m.frames.call_depth > 0 {
        assert(m.frames.calls[m.frames.call_depth - 1].wf());
    }
    assert(t.stack_base <= MAX_STACK);
    assert(branch(m, depth).0.stack.take(t.stack_base as int) =~= m.stack.take(t.stack_base as int));
}

/// Entering a function and leaving it at once goes back to where the call was, with the
/// arguments taken from the operand stack.
pub proof fn entered_frame_returns(m: Machine, f: u32)
    requires
        m.valid(),
        enter(m, f).1 is Ok,
    ensures
        ({
            let md = m.store.module;
            let ft = md.func_types[md.functions[f - md.imported_funcs().len()].type_idx as int];
            let r = frame_dropped(enter(m, f).0);
            &&& r.pc == m.pc
            &&& r.frames.call_depth == m.frames.call_depth
            &&& r.frames.block_depth == m.frames.block_depth
            &&& r.stack_ptr == m.stack_ptr - ft.params.len()
            &&& r.stack == m.stack
            &&& r.store == m.store
        }),
{
}

/// The arguments of a call are the first locals of the function, the declared locals
/// are zero.
pub proof fn arguments_become_locals(m: Machine, f: u32, i: u32)
    requires
        m.valid(),
        enter(m, f).1 is Ok,
    ensures
        ({
            let md = m.store.module;
            let fun = md.functions[f - md.imported_funcs().len()];
            let n = md.func_types[fun.type_idx as int].params.len();
            let r = enter(m, f).0;
            &&& i < n ==> r.get_local(i) == Ok::<Value, WasmError>(m.stack[m.stack_ptr - n + i])
            &&& n <= i < n + fun.local_count ==> r.get_local(i) == Ok::<Value, WasmError>(
                Value::zero_of(fun.locals[i - n]),
            )
            &&& i >= n + fun.local_count ==> r.get_local(i) == Err::<Value, WasmError>(WasmError::OutOfBounds)
        }),
{
}

} // verus!
