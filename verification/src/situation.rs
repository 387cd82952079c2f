//! What the laws of single instructions are stated with: a machine that stands before an
//! instruction, and the machine after it.

use vstd::prelude::*;
use crate::machine::{Machine, Outcome};
use crate::reader::leb_u32;
use crate::step::{instruction, step};
use crate::types::{Value, WasmError};

verus! {

/// Whether the machine stands within a call before the instruction with this opcode, and
/// has fuel for it.
pub open spec fn faces(m: Machine, op: u8) -> bool {
    &&& m.valid()
    &&& m.fuel > 0
    &&& m.frames.call_depth > 0
    &&& m.pc < m.frames.calls[m.frames.call_depth - 1].code_end
    &&& m.pc < m.store.module.code.len()
    &&& m.store.module.code[m.pc] == op
}

/// Whether the machine stands before the instruction with this prefix and this number,
/// whose immediates start at `at`.
pub open spec fn faces_prefixed(m: Machine, prefix: u8, sub: u32, at: int) -> bool {
    faces(m, prefix) && leb_u32(m.store.module.code, m.pc + 1) == (Ok::<u32, WasmError>(sub), at)
}

/// The value `k` places below the top of the operand stack.
pub open spec fn operand(m: Machine, k: int) -> Value {
    m.stack[m.stack_ptr - 1 - k]
}

/// The machine one unit of fuel later, at `pc`, with `n` operands fewer.
pub open spec fn consumed(m: Machine, n: int, pc: int) -> Machine {
    Machine { stack_ptr: m.stack_ptr - n, pc, fuel: (m.fuel - 1) as u64, ..m }
}

/// The machine one unit of fuel later, at `pc`, with `n` operands replaced by `v`.
pub open spec fn replaced(m: Machine, n: int, v: Value, pc: int) -> Machine {
    Machine {
        stack: m.stack.update(m.stack_ptr - n, v),
        stack_ptr: m.stack_ptr - n + 1,
        pc,
        fuel: (m.fuel - 1) as u64,
        ..m
    }
}

/// Whether the next instruction, which ends at `pc`, replaces `n` operands by `v`, and
/// changes nothing else.
pub open spec fn yields_at(m: Machine, n: int, v: Value, pc: int) -> bool {
    step(m) == (replaced(m, n, v, pc), Outcome::Completed)
}

/// Whether the next instruction, which is one byte long, replaces `n` operands by `v`,
/// and changes nothing else.
pub open spec fn yields_value(m: Machine, n: int, v: Value) -> bool {
    yields_at(m, n, v, m.pc + 1)
}

/// Whether the next instruction ends the run with this error.
pub open spec fn traps(m: Machine, e: WasmError) -> bool {
    step(m).1 == Outcome::Trap(e)
}

/// What the next instruction leaves in place of `n` operands.
pub open spec fn result_of(m: Machine, n: int) -> Value {
    step(m).0.stack[m.stack_ptr - n]
}

/// Stepping executes the instruction that stands there.
pub proof fn step_executes(m: Machine, op: u8)
    requires
        faces(m, op),
    ensures
        step(m) == instruction(Machine { pc: m.pc + 1, fuel: (m.fuel - 1) as u64, ..m }, op),
{
}

} // verus!
