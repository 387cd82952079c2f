//! That skipping over instructions and executing them agree on where an instruction ends,
//! and how blocks nest.

use vstd::prelude::*;
use crate::machine::{Machine, Outcome, CODE_MARGIN};
use crate::reader::leb_i32;
use crate::scan::{block_end, block_type_at, instr_at, rest_at, Mark};
use crate::lanes::LaneOp;
use crate::simd::{is_test, lane_instruction, lane_op, moves_data, replaces};
use crate::situation::{faces, faces_prefixed, step_executes};
use crate::step::{instruction, step};
use crate::types::WasmError;

verus! {

/// Whether the next instruction either fails or ends where skipping over it would.
pub open spec fn ends_where_skipped(m: Machine) -> bool {
    match step(m).1 {
        Outcome::Trap(_) => true,
        _ => instr_at(m.store.module.code, m.pc, m.store.module.multi_memory_enabled) == (
            Ok::<Mark, WasmError>(Mark::Plain),
            step(m).0.pc,
        ),
    }
}

proof fn skipped_from_opcode(m: Machine, op: u8)
    requires
        faces(m, op),
    ensures
        instr_at(m.store.module.code, m.pc, m.store.module.multi_memory_enabled) == rest_at(
            m.store.module.code,
            m.pc + 1,
            op,
            m.store.module.multi_memory_enabled,
        ),
{
    reveal(instr_at);
}

/// Execution and skipping agree on the length of `nop`, `drop`, `select` and the numeric
/// instructions.
pub proof fn simple_lengths_agree(m: Machine, op: u8)
    requires
        op == 0x01 || op == 0x1A || op == 0x1B || 0x45 <= op <= 0xC4,
        faces(m, op),
    ensures
        ends_where_skipped(m),
{
    reveal(instruction);
    step_executes(m, op);
    skipped_from_opcode(m, op);
}

/// They agree on the length of the instructions on variables and tables.
pub proof fn variable_lengths_agree(m: Machine, op: u8)
    requires
        0x20 <= op <= 0x26,
        faces(m, op),
    ensures
        ends_where_skipped(m),
{
    reveal(instruction);
    step_executes(m, op);
    skipped_from_opcode(m, op);
}

/// They agree on the length of loads, stores, `memory.size` and `memory.grow`.
pub proof fn memory_lengths_agree(m: Machine, op: u8)
    requires
        0x28 <= op <= 0x40,
        faces(m, op),
    ensures
        ends_where_skipped(m),
{
    reveal(instruction);
    step_executes(m, op);
    skipped_from_opcode(m, op);
}

/// They agree on the length of constants.
pub proof fn constant_lengths_agree(m: Machine, op: u8)
    requires
        0x41 <= op <= 0x44,
        faces(m, op),
    ensures
        ends_where_skipped(m),
{
    reveal(instruction);
    step_executes(m, op);
    skipped_from_opcode(m, op);
}

/// They agree on the length of the instructions on references that do not branch.
pub proof fn reference_lengths_agree(m: Machine, op: u8)
    requires
        0xD0 <= op <= 0xD4,
        faces(m, op),
    ensures
        ends_where_skipped(m),
{
    reveal(instruction);
    step_executes(m, op);
    skipped_from_opcode(m, op);
}

/// They agree on the length of the instructions on structs.
#[verifier::spinoff_prover]
#[verifier::rlimit(40)]
pub proof fn struct_lengths_agree(m: Machine, sub: u32, at: int)
    requires
        sub <= 5,
        faces_prefixed(m, 0xFB, sub, at),
    ensures
        ends_where_skipped(m),
{
    reveal(instruction);
    step_executes(m, 0xFB);
    skipped_from_opcode(m, 0xFB);
}

/// They agree on the length of the instructions that make arrays.
#[verifier::spinoff_prover]
#[verifier::rlimit(40)]
pub proof fn array_lengths_agree(m: Machine, sub: u32, at: int)
    requires
        6 <= sub <= 13,
        faces_prefixed(m, 0xFB, sub, at),
    ensures
        ends_where_skipped(m),
{
    reveal(instruction);
    step_executes(m, 0xFB);
    skipped_from_opcode(m, 0xFB);
}

/// They agree on the length of the instructions that write arrays.
#[verifier::spinoff_prover]
#[verifier::rlimit(40)]
pub proof fn array_write_lengths_agree(m: Machine, sub: u32, at: int)
    requires
        14 <= sub <= 19,
        faces_prefixed(m, 0xFB, sub, at),
    ensures
        ends_where_skipped(m),
{
    reveal(instruction);
    step_executes(m, 0xFB);
    skipped_from_opcode(m, 0xFB);
}

/// They agree on the length of tests, casts and conversions of references.
#[verifier::spinoff_prover]
#[verifier::rlimit(40)]
pub proof fn cast_lengths_agree(m: Machine, sub: u32, at: int)
    requires
        20 <= sub <= 23 || 26 <= sub,
        faces_prefixed(m, 0xFB, sub, at),
    ensures
        ends_where_skipped(m),
{
    reveal(instruction);
    step_executes(m, 0xFB);
    skipped_from_opcode(m, 0xFB);
}

/// They agree on the length of the truncations that do not trap.
#[verifier::spinoff_prover]
#[verifier::rlimit(60)]
pub proof fn truncation_lengths_agree(m: Machine, sub: u32, at: int)
    requires
        sub <= 7,
        faces_prefixed(m, 0xFC, sub, at),
    ensures
        ends_where_skipped(m),
{
    reveal(instruction);
    step_executes(m, 0xFC);
    skipped_from_opcode(m, 0xFC);
}

/// They agree on the length of the instructions that move bytes.
#[verifier::spinoff_prover]
#[verifier::rlimit(60)]
pub proof fn memory_bulk_lengths_agree(m: Machine, sub: u32, at: int)
    requires
        8 <= sub <= 11,
        faces_prefixed(m, 0xFC, sub, at),
    ensures
        ends_where_skipped(m),
{
    reveal(instruction);
    step_executes(m, 0xFC);
    skipped_from_opcode(m, 0xFC);
}

/// They agree on the length of the instructions that move table entries.
#[verifier::spinoff_prover]
#[verifier::rlimit(60)]
pub proof fn table_bulk_lengths_agree(m: Machine, sub: u32, at: int)
    requires
        12 <= sub <= 14,
        faces_prefixed(m, 0xFC, sub, at),
    ensures
        ends_where_skipped(m),
{
    reveal(instruction);
    step_executes(m, 0xFC);
    skipped_from_opcode(m, 0xFC);
}

/// They agree on the length of the other instructions on tables, and of those on wide integers.
#[verifier::spinoff_prover]
#[verifier::rlimit(60)]
pub proof fn table_size_lengths_agree(m: Machine, sub: u32, at: int)
    requires
        15 <= sub,
        faces_prefixed(m, 0xFC, sub, at),
    ensures
        ends_where_skipped(m),
{
    reveal(instruction);
    step_executes(m, 0xFC);
    skipped_from_opcode(m, 0xFC);
}

/// They agree on the length of the atomic instructions that wait or wake, and of the fence.
#[verifier::spinoff_prover]
#[verifier::rlimit(60)]
pub proof fn waiting_lengths_agree(m: Machine, sub: u32, at: int)
    requires
        sub < 0x10,
        faces_prefixed(m, 0xFE, sub, at),
    ensures
        ends_where_skipped(m),
{
    reveal(instruction);
    step_executes(m, 0xFE);
    skipped_from_opcode(m, 0xFE);
}

/// They agree on the length of atomic loads and stores.
#[verifier::spinoff_prover]
#[verifier::rlimit(60)]
pub proof fn atomic_access_lengths_agree(m: Machine, sub: u32, at: int)
    requires
        0x10 <= sub <= 0x1D,
        faces_prefixed(m, 0xFE, sub, at),
    ensures
        ends_where_skipped(m),
{
    reveal(instruction);
    step_executes(m, 0xFE);
    skipped_from_opcode(m, 0xFE);
}

/// They agree on the length of atomic modifications.
#[verifier::spinoff_prover]
#[verifier::rlimit(60)]
pub proof fn atomic_change_lengths_agree(m: Machine, sub: u32, at: int)
    requires
        0x1E <= sub <= 0x47,
        faces_prefixed(m, 0xFE, sub, at),
    ensures
        ends_where_skipped(m),
{
    reveal(instruction);
    step_executes(m, 0xFE);
    skipped_from_opcode(m, 0xFE);
}

/// They agree on the length of the atomic compare and exchange.
#[verifier::spinoff_prover]
#[verifier::rlimit(60)]
pub proof fn atomic_exchange_lengths_agree(m: Machine, sub: u32, at: int)
    requires
        0x48 <= sub,
        faces_prefixed(m, 0xFE, sub, at),
    ensures
        ends_where_skipped(m),
{
    reveal(instruction);
    step_executes(m, 0xFE);
    skipped_from_opcode(m, 0xFE);
}

/// They agree on the length of vector loads and the vector store.
#[verifier::spinoff_prover]
#[verifier::rlimit(60)]
pub proof fn vector_load_lengths_agree(m: Machine, sub: u32, at: int)
    requires
        sub <= 11 || sub == 92 || sub == 93,
        faces_prefixed(m, 0xFD, sub, at),
    ensures
        ends_where_skipped(m),
{
    reveal(instruction);
    step_executes(m, 0xFD);
    skipped_from_opcode(m, 0xFD);
}

/// They agree on the length of loads and stores of one lane.
#[verifier::spinoff_prover]
#[verifier::rlimit(60)]
pub proof fn vector_lane_lengths_agree(m: Machine, sub: u32, at: int)
    requires
        84 <= sub <= 91,
        faces_prefixed(m, 0xFD, sub, at),
    ensures
        ends_where_skipped(m),
{
    reveal(instruction);
    step_executes(m, 0xFD);
    skipped_from_opcode(m, 0xFD);
}

/// They agree on the length of vector constants and shuffles.
#[verifier::spinoff_prover]
#[verifier::rlimit(60)]
pub proof fn vector_constant_lengths_agree(m: Machine, sub: u32, at: int)
    requires
        sub == 12 || sub == 13,
        faces_prefixed(m, 0xFD, sub, at),
    ensures
        ends_where_skipped(m),
{
    reveal(instruction);
    step_executes(m, 0xFD);
    skipped_from_opcode(m, 0xFD);
}

/// They agree on the length of splats.
#[verifier::spinoff_prover]
#[verifier::rlimit(60)]
pub proof fn splat_lengths_agree(m: Machine, sub: u32, at: int)
    requires
        15 <= sub <= 20,
        faces_prefixed(m, 0xFD, sub, at),
    ensures
        ends_where_skipped(m),
{
    reveal(instruction);
    step_executes(m, 0xFD);
    skipped_from_opcode(m, 0xFD);
}

/// They agree on the length of the instructions that replace a lane.
#[verifier::spinoff_prover]
#[verifier::rlimit(60)]
pub proof fn lane_replacement_lengths_agree(m: Machine, sub: u32, at: int)
    requires
        replaces(sub),
        faces_prefixed(m, 0xFD, sub, at),
    ensures
        ends_where_skipped(m),
{
    reveal(instruction);
    step_executes(m, 0xFD);
    skipped_from_opcode(m, 0xFD);
}

/// They agree on the length of the instructions that extract a lane.
#[verifier::spinoff_prover]
#[verifier::rlimit(60)]
pub proof fn lane_extraction_lengths_agree(m: Machine, sub: u32, at: int)
    requires
        21 <= sub <= 34 && !replaces(sub),
        faces_prefixed(m, 0xFD, sub, at),
    ensures
        ends_where_skipped(m),
{
    reveal(instruction);
    step_executes(m, 0xFD);
    skipped_from_opcode(m, 0xFD);
}

/// They agree on the length of tests of vectors.
#[verifier::spinoff_prover]
#[verifier::rlimit(60)]
pub proof fn vector_test_lengths_agree(m: Machine, sub: u32, at: int)
    requires
        is_test(sub),
        faces_prefixed(m, 0xFD, sub, at),
    ensures
        ends_where_skipped(m),
{
    reveal(instruction);
    step_executes(m, 0xFD);
    skipped_from_opcode(m, 0xFD);
}

proof fn lanes_keep_position(m: Machine, l: LaneOp, w: int)
    ensures
        lane_instruction(m, l, w).1 is Trap || lane_instruction(m, l, w).0.pc == m.pc,
{
}

/// They agree on the length of the instructions that compute vectors.
#[verifier::spinoff_prover]
#[verifier::rlimit(60)]
pub proof fn vector_computation_lengths_agree(m: Machine, sub: u32, at: int)
    requires
        !moves_data(sub),
        !is_test(sub),
        faces_prefixed(m, 0xFD, sub, at),
    ensures
        ends_where_skipped(m),
{
    reveal(instruction);
    step_executes(m, 0xFD);
    skipped_from_opcode(m, 0xFD);
    if let Some((l, w)) = lane_op(sub) {
        lanes_keep_position(Machine { pc: at, fuel: (m.fuel - 1) as u64, ..m }, l, w);
    }
}

/// Skipping a block within a block ends where skipping the inner one and then the rest of
/// the outer one does.
pub proof fn inner_blocks_are_skipped(s: Seq<u8>, p: int, depth: nat, k: nat, multi_memory: bool)
    requires
        depth >= 1,
        k >= 1,
        block_end(s, p, depth, multi_memory).0 is Ok,
        block_end(s, p, depth, multi_memory).1 >= 1,
        s[block_end(s, p, depth, multi_memory).1 - 1] != 0x05,
    ensures
        block_end(s, p, depth + k, multi_memory) == block_end(s, block_end(s, p, depth, multi_memory).1, k, multi_memory),
    decreases s.len() + CODE_MARGIN - p,
{
    let r = instr_at(s, p, multi_memory);
    let m = r.0->Ok_0;
    if m == Mark::Open {
        inner_blocks_are_skipped(s, r.1, depth + 1, k, multi_memory);
        assert(depth + 1 + k == depth + k + 1);
    } else if m == Mark::Close || m is Delegate {
        if depth > 1 {
            inner_blocks_are_skipped(s, r.1, (depth - 1) as nat, k, multi_memory);
        }
    } else if m == Mark::Else {
        if depth > 1 {
            inner_blocks_are_skipped(s, r.1, depth, k, multi_memory);
        } else {
            reveal(instr_at);
        }
    } else {
        inner_blocks_are_skipped(s, r.1, depth, k, multi_memory);
    }
}

/// Of the opcodes `block`, `loop`, `if`, `try` and `try_table` open a block, `end` closes one,
/// and `nop` does neither.
pub proof fn opcodes_nest(s: Seq<u8>, p: int, depth: nat, multi_memory: bool)
    requires
        0 <= p < s.len(),
        depth >= 1,
    ensures
        s[p] == 0x01 ==> block_end(s, p, depth, multi_memory) == block_end(s, p + 1, depth, multi_memory),
        s[p] == 0x0B ==> block_end(s, p, depth, multi_memory) == if depth == 1 {
            (Ok::<(), WasmError>(()), p + 1)
        } else {
            block_end(s, p + 1, (depth - 1) as nat, multi_memory)
        },
        s[p] == 0x05 ==> block_end(s, p, depth, multi_memory) == if depth == 1 {
            (Ok::<(), WasmError>(()), p + 1)
        } else {
            block_end(s, p + 1, depth, multi_memory)
        },
        s[p] == 0x02 || s[p] == 0x03 || s[p] == 0x04 || s[p] == 0x06 ==> (block_type_at(s, p + 1).0 is Ok
            && block_type_at(s, p + 1).1 <= s.len() ==> block_end(s, p, depth, multi_memory) == block_end(
            s,
            block_type_at(s, p + 1).1,
            depth + 1,
            multi_memory,
        )),
{
    reveal(instr_at);
    broadcast use crate::reader::group_leb_moves;

}

/// A block type is a signed number, followed by a heap type where it is a reference to one.
pub proof fn block_types_are_numbers(s: Seq<u8>, p: int, bt: i32, q: int)
    requires
        leb_i32(s, p) == (Ok::<i32, WasmError>(bt), q),
    ensures
        bt != -28 && bt != -29 ==> block_type_at(s, p) == (Ok::<i32, WasmError>(bt), q),
        bt == -28 || bt == -29 ==> (leb_i32(s, q).0 is Ok ==> block_type_at(s, p) == (
            Ok::<i32, WasmError>(bt),
            leb_i32(s, q).1,
        )),
{
}

} // verus!
