//! Executing one instruction after another.

use vstd::prelude::*;
use crate::atomics::atomic_instruction;
use crate::blocks::{block_instruction, end};
use crate::bulk::bulk_instruction;
use crate::calls::{carried_out, leave};
use crate::gc_ops::gc_instruction;
use crate::machine::{ExecResult, Machine, Outcome, WasmInstance};
use crate::memory::memory_instruction;
use crate::numeric::is_numeric;
use crate::plain::{constant, numeric, parametric, proof_grade_needs_no_floats, reference, variable};
use crate::simd::vector_instruction;
use crate::transfers::{call_instruction, throw_instruction, throwing_asks_nothing};
use crate::types::{RuntimeClass, WasmError};

verus! {

/// Whether an opcode stands for an instruction on blocks, but for the end of one.
pub open spec fn is_block_instruction(op: u8) -> bool {
    (0x02 <= op <= 0x07) || (0x0C <= op <= 0x0E) || op == 0x18 || op == 0x19 || op == 0x1F
}

/// Executes the instruction with a prefix whose number follows.
pub open spec fn prefixed(m: Machine, prefix: u8) -> (Machine, Outcome) {
    let r = m.read_u32();
    match r.1 {
        Err(e) => (r.0, Outcome::Trap(e)),
        Ok(sub) => match prefix {
            0xFB => carried_out(gc_instruction(r.0, sub)),
            0xFC => carried_out(bulk_instruction(r.0, sub)),
            0xFD => vector_instruction(r.0, sub),
            _ => carried_out(atomic_instruction(r.0, sub)),
        },
    }
}

/// Executes the instruction whose opcode has been read.
#[verifier::opaque]
pub open spec fn instruction(m: Machine, op: u8) -> (Machine, Outcome) {
    if op == 0x00 {
        (m, Outcome::Trap(WasmError::UnreachableExecuted))
    } else if op == 0x01 {
        (m, Outcome::Completed)
    } else if is_block_instruction(op) {
        carried_out(block_instruction(m, op))
    } else if 0x08 <= op <= 0x0A {
        throw_instruction(m, op)
    } else if op == 0x0B {
        end(m)
    } else if op == 0x0F {
        leave(m)
    } else if 0x10 <= op <= 0x15 {
        call_instruction(m, op)
    } else if 0x1A <= op <= 0x1C {
        carried_out(parametric(m, op))
    } else if 0x20 <= op <= 0x26 {
        carried_out(variable(m, op))
    } else if 0x28 <= op <= 0x40 {
        carried_out(memory_instruction(m, op))
    } else if 0x41 <= op <= 0x44 {
        carried_out(constant(m, op))
    } else if is_numeric(op) {
        numeric(m, op)
    } else if 0xD0 <= op <= 0xD6 {
        carried_out(reference(m, op))
    } else if 0xFB <= op <= 0xFE {
        prefixed(m, op)
    } else {
        (m, Outcome::Trap(WasmError::InvalidOpcode(op)))
    }
}

/// Executes one instruction, for one unit of fuel. At the end of the code of a
/// function it returns; outside every call the run is over.
pub open spec fn step(m: Machine) -> (Machine, Outcome) {
    if m.fuel == 0 {
        (m, Outcome::OutOfFuel)
    } else {
        let p = Machine { fuel: (m.fuel - 1) as u64, ..m };
        if m.frames.call_depth <= 0 || m.pc >= m.frames.calls[m.frames.call_depth - 1].code_end {
            leave(p)
        } else {
            let r = p.read_byte();
            match r.1 {
                Err(e) => (r.0, Outcome::Trap(e)),
                Ok(op) => instruction(r.0, op),
            }
        }
    }
}

/// Where floating-point numbers are not allowed, only a vector instruction asks for a
/// floating-point computation.
pub proof fn only_vectors_need_floats(m: Machine, op: u8)
    requires
        m.store.class == RuntimeClass::ProofGrade,
        op != 0xFD,
    ensures
        !(instruction(m, op).1 is Float),
{
    reveal(instruction);
    proof_grade_needs_no_floats(m, op);
    throwing_asks_nothing(m, op);
}

impl WasmInstance {
    fn exec_prefixed(&mut self, prefix: u8) -> (r: ExecResult)
        requires
            old(self).wf(),
        ensures
            (final(self)@, r@) == prefixed(old(self)@, prefix),
            final(self).wf(),
    {
        let sub: u32 = match self.read_leb128_u32() {
            Ok(s) => s,
            Err(e) => {
                return ExecResult::Trap(e);
            },
        };
        if prefix == 0xFD {
            return self.exec_simd(sub);
        }
        let r = match prefix {
            0xFB => self.exec_gc(sub),
            0xFC => self.exec_bulk(sub),
            _ => self.exec_atomic(sub),
        };
        match r {
            Ok(_) => ExecResult::Completed,
            Err(e) => ExecResult::Trap(e),
        }
    }

    /// Executes an instruction that ends in a result of its own or in a trap.
    fn exec_simple(&mut self, op: u8) -> (r: Result<(), WasmError>)
        requires
            old(self).wf(),
            is_block_instruction(op) || 0x1A <= op <= 0x1C || 0x20 <= op <= 0x26 || 0x28 <= op <= 0x44 || 0xD0 <= op
                <= 0xD6,
        ensures
            carried_out((final(self)@, r)) == instruction(old(self)@, op),
            final(self).wf(),
    {
        reveal(instruction);
        if op >= 0xD0 {
            self.exec_reference(op)
        } else if op >= 0x41 {
            self.exec_constant(op)
        } else if op >= 0x28 {
            self.exec_memory(op)
        } else if op >= 0x20 {
            self.exec_variable(op)
        } else if 0x1A <= op && op <= 0x1C {
            self.exec_parametric(op)
        } else {
            self.exec_block_instruction(op)
        }
    }

    /// Executes the instruction whose opcode has been read.
    fn exec_instruction(&mut self, op: u8) -> (r: ExecResult)
        requires
            old(self).wf(),
        ensures
            (final(self)@, r@) == instruction(old(self)@, op),
            final(self).wf(),
    {
        reveal(instruction);
        match op {
            0x00 => ExecResult::Trap(WasmError::UnreachableExecuted),
            0x01 => ExecResult::Completed,
            0x08..=0x0A => self.exec_throw(op),
            0x0B => self.exec_end(),
            0x0F => self.do_return(),
            0x10..=0x15 => self.exec_call(op),
            0x45..=0xC4 => self.exec_numeric(op),
            0xFB..=0xFE => self.exec_prefixed(op),
            0x02..=0x07 | 0x0C..=0x0E | 0x18 | 0x19 | 0x1F | 0x1A..=0x1C | 0x20..=0x26 | 0x28..=0x44 | 0xD0..=0xD6 => {
                match self.exec_simple(op) {
                    Ok(_) => ExecResult::Completed,
                    Err(e) => ExecResult::Trap(e),
                }
            },
            _ => ExecResult::Trap(WasmError::InvalidOpcode(op)),
        }
    }

    /// Executes one instruction, for one unit of fuel.
    pub fn step(&mut self) -> (r: ExecResult)
        requires
            old(self).wf(),
        ensures
            (final(self)@, r@) == step(old(self)@),
            final(self).wf(),
    {
        if self.fuel == 0 {
            return ExecResult::OutOfFuel;
        }
        self.fuel = self.fuel - 1;
        if self.call_depth == 0 || self.pc >= self.call_stack[self.call_depth - 1].code_end {
            return self.do_return();
        }
        match self.read_byte() {
            Ok(op) => self.exec_instruction(op),
            Err(e) => ExecResult::Trap(e),
        }
    }
}

} // verus!
