//! What opening, separating and closing blocks does, and how a run is made of steps.

use vstd::prelude::*;
use crate::blocks::read_clauses;
use crate::calls::enter;
use crate::calls::branch;
use crate::machine::{CatchClause, Frames, Machine, Outcome};
use crate::reader::leb_u32;
use crate::run::{call, resumed, run, started};
use crate::scan::{block_end, block_type_at};
use crate::situation::{consumed, faces, operand, step_executes};
use crate::step::{instruction, step};
use crate::types::{Value, WasmError, MAX_BLOCK_DEPTH, MAX_STACK};

verus! {

/// How many parameters a block of this type takes: none, unless the type is a function type.
pub open spec fn taken(m: Machine, bt: i32) -> int {
    if 0 <= bt < m.store.module.func_types.len() {
        m.store.module.func_types[bt as int].params.len() as int
    } else {
        0
    }
}

/// How many results a block of this type gives: those of the function type, none where the
/// type is empty (-64), else one.
pub open spec fn returned(m: Machine, bt: i32) -> int {
    if 0 <= bt < m.store.module.func_types.len() {
        m.store.module.func_types[bt as int].results.len() as int
    } else if bt == -64 || bt >= 0 {
        0
    } else {
        1
    }
}

/// Whether the machine has a type for a block, the parameters on the stack, and room for one
/// more block.
pub open spec fn can_open(m: Machine, bt: i32) -> bool {
    &&& taken(m, bt) <= 32 && returned(m, bt) <= 32
    &&& taken(m, bt) <= m.stack_ptr
    &&& m.frames.block_depth < MAX_BLOCK_DEPTH
}

/// Whether `r` is the machine `s` with one more block, which it has entered.
pub open spec fn opened(s: Machine, bt: i32, start: int, end: int, is_loop: bool, r: Machine) -> bool {
    let b = r.frames.blocks[s.frames.block_depth];
    &&& r == (Machine {
        pc: start,
        frames: Frames {
            blocks: s.frames.blocks.update(s.frames.block_depth, b),
            block_depth: s.frames.block_depth + 1,
            ..s.frames
        },
        ..s
    })
    &&& b.start_pc == start
    &&& b.end_pc == end
    &&& b.is_loop == is_loop
    &&& b.stack_base == s.stack_ptr - taken(s, bt)
    &&& b.result_count == if is_loop {
        taken(s, bt)
    } else {
        returned(s, bt)
    }
    &&& b.end_result_count == returned(s, bt)
}

/// `block` and `loop` open a block that starts behind them and ends behind its `end`. A branch
/// to a block carries its results, a branch to a loop its parameters.
pub proof fn blocks_open(m: Machine, is_loop: bool, bt: i32, start: int, end: int)
    requires
        faces(m, if is_loop { 0x03 } else { 0x02 }),
        block_type_at(m.store.module.code, m.pc + 1) == (Ok::<i32, WasmError>(bt), start),
        block_end(m.store.module.code, start, 1, m.store.module.multi_memory_enabled) == (Ok::<(), WasmError>(()), end),
        0 <= start <= usize::MAX,
        0 <= end <= usize::MAX,
        can_open(m, bt),
    ensures
        step(m).1 == Outcome::Completed,
        opened(consumed(m, 0, m.pc), bt, start, end, is_loop, step(m).0),
        !step(m).0.frames.blocks[m.frames.block_depth].is_try_table,
        !step(m).0.frames.blocks[m.frames.block_depth].is_legacy_try,
{
    let op: u8 = if is_loop { 0x03 } else { 0x02 };
    reveal(instruction);
    step_executes(m, op);
}

/// `if` enters its first arm where the condition is not zero; else it enters the second arm
/// where there is one, and else goes on behind the block. The block ends behind its `end`.
pub proof fn conditionals_select(m: Machine, bt: i32, start: int, q: int, end: int, c: i32)
    requires
        faces(m, 0x04),
        block_type_at(m.store.module.code, m.pc + 1) == (Ok::<i32, WasmError>(bt), start),
        block_end(m.store.module.code, start, 1, m.store.module.multi_memory_enabled) == (Ok::<(), WasmError>(()), q),
        0 < q <= m.store.module.code.len(),
        m.store.module.code[q - 1] == 0x05 ==> block_end(
            m.store.module.code,
            q,
            1,
            m.store.module.multi_memory_enabled,
        ) == (Ok::<(), WasmError>(()), end),
        m.store.module.code[q - 1] != 0x05 ==> end == q,
        0 <= start <= usize::MAX,
        0 <= q <= usize::MAX,
        0 <= end <= usize::MAX,
        m.stack_ptr > 0,
        operand(m, 0) == Value::I32(c),
        can_open(consumed(m, 1, m.pc), bt),
    ensures
        step(m).1 == Outcome::Completed,
        c != 0 ==> opened(consumed(m, 1, m.pc), bt, start, end, false, step(m).0),
        c == 0 && m.store.module.code[q - 1] == 0x05 ==> opened(
            consumed(m, 1, m.pc),
            bt,
            q,
            end,
            false,
            step(m).0,
        ),
        c == 0 && m.store.module.code[q - 1] != 0x05 ==> step(m).0 == consumed(m, 1, end),
{
    reveal(instruction);
    step_executes(m, 0x04);
}

/// `else`, reached at the end of the first arm, leaves the block.
pub proof fn first_arm_leaves(m: Machine)
    requires
        faces(m, 0x05),
        m.frames.block_depth > m.block_base(),
    ensures
        step(m).1 == Outcome::Completed,
        step(m).0 == (Machine {
            frames: Frames { block_depth: m.frames.block_depth - 1, ..m.frames },
            ..consumed(m, 0, m.frames.blocks[m.frames.block_depth - 1].end_pc as int)
        }),
{
    reveal(instruction);
    step_executes(m, 0x05);
}

/// `end` closes the innermost block and leaves its results where its operands began.
pub proof fn end_closes(m: Machine, k: int)
    requires
        faces(m, 0x0B),
        m.frames.block_depth > m.block_base(),
        ({
            let b = m.frames.blocks[m.frames.block_depth - 1];
            &&& b.stack_base + b.end_result_count <= m.stack_ptr
            &&& 0 <= k < b.end_result_count
        }),
    ensures
        ({
            let b = m.frames.blocks[m.frames.block_depth - 1];
            let r = step(m).0;
            &&& step(m).1 == Outcome::Completed
            &&& r.pc == m.pc + 1
            &&& r.frames == (Frames { block_depth: m.frames.block_depth - 1, ..m.frames })
            &&& r.store == m.store
            &&& r.stack_ptr == b.stack_base + b.end_result_count
            &&& r.stack[b.stack_base + k] == m.stack[m.stack_ptr - b.end_result_count + k]
            &&& forall|j: int| 0 <= j < b.stack_base ==> #[trigger] r.stack[j] == m.stack[j]
        }),
{
    reveal(instruction);
    step_executes(m, 0x0B);
}

/// `try_table` opens a block with the clauses that follow its type, in order.
pub proof fn try_tables_open(
    m: Machine,
    bt: i32,
    p: int,
    n: u32,
    q: int,
    clauses: Seq<CatchClause>,
    start: int,
    end: int,
)
    requires
        faces(m, 0x1F),
        block_type_at(m.store.module.code, m.pc + 1) == (Ok::<i32, WasmError>(bt), p),
        leb_u32(m.store.module.code, p) == (Ok::<u32, WasmError>(n), q),
        read_clauses(consumed(m, 0, q), n as nat, Seq::empty()) == (
            consumed(m, 0, start),
            Ok::<Seq<CatchClause>, WasmError>(clauses),
        ),
        block_end(m.store.module.code, start, 1, m.store.module.multi_memory_enabled) == (Ok::<(), WasmError>(()), end),
        0 <= start <= usize::MAX,
        0 <= end <= usize::MAX,
        can_open(m, bt),
    ensures
        step(m).1 == Outcome::Completed,
        opened(consumed(m, 0, m.pc), bt, start, end, false, step(m).0),
        step(m).0.frames.blocks[m.frames.block_depth].is_try_table,
        step(m).0.frames.blocks[m.frames.block_depth].catches == clauses,
{
    reveal(instruction);
    step_executes(m, 0x1F);
    assert(Machine { pc: q, fuel: (m.fuel - 1) as u64, ..m } == consumed(m, 0, q));
}

/// A clause is its kind, its tag where it catches one (kinds zero and one), and its label. Of
/// the clauses of a block the first eight count.
pub proof fn clauses_are_written(m: Machine, n: nat, found: Seq<CatchClause>, tag: u32, q: int, label: u32, end: int)
    requires
        n > 0,
        0 <= m.pc < m.store.module.code.len(),
        m.store.module.code[m.pc] <= 3,
        m.store.module.code[m.pc] <= 1 ==> leb_u32(m.store.module.code, m.pc + 1) == (Ok::<u32, WasmError>(tag), q),
        m.store.module.code[m.pc] > 1 ==> tag == 0 && q == m.pc + 1,
        leb_u32(m.store.module.code, q) == (Ok::<u32, WasmError>(label), end),
    ensures
        read_clauses(m, n, found) == read_clauses(
            Machine { pc: end, ..m },
            (n - 1) as nat,
            if found.len() < 8 {
                found.push(CatchClause { kind: m.store.module.code[m.pc], tag_idx: tag, label })
            } else {
                found
            },
        ),
{
}

// ---------------------------------------------------------------------------
// Runs

/// A run is its first step and the run from there; it stops where a step does not complete,
/// where the outermost call is left, and where there is no fuel.
pub proof fn runs_are_steps(m: Machine)
    ensures
        m.fuel == 0 ==> run(m) == (m, Outcome::OutOfFuel),
        step(m).1 == Outcome::Completed && !step(m).0.finished ==> run(m) == run(step(m).0),
        step(m).1 == Outcome::Completed && step(m).0.finished ==> run(m) == step(m),
        !(step(m).1 is Completed) && !(step(m).1 is Exception) ==> run(m) == step(m),
{
    crate::program::step_takes_one_unit(m);
}

/// A step costs one unit of fuel, whatever it does.
pub proof fn steps_cost_one(m: Machine)
    requires
        m.fuel > 0,
    ensures
        step(m).0.fuel == m.fuel - 1,
{
    crate::program::step_takes_one_unit(m);
}

/// A pause for a result is over once the result is on the stack.
pub proof fn results_are_pushed(m: Machine, v: Value)
    requires
        m.valid(),
    ensures
        resumed(m, None) == run(m),
        m.stack_ptr < MAX_STACK ==> resumed(m, Some(v)) == run(
            Machine { stack: m.stack.update(m.stack_ptr, v), stack_ptr: m.stack_ptr + 1, ..m },
        ),
        m.stack_ptr >= MAX_STACK ==> resumed(m, Some(v)).1 == Outcome::Trap(WasmError::StackOverflow),
{
}

/// A call from outside starts without any open call or block, with the arguments on the operand
/// stack in order; a function that the module defines is entered and run.
pub proof fn calls_from_outside_enter(m: Machine, f: u32, args: Seq<Value>, s: Machine)
    requires
        m.valid(),
        m.stack_ptr + args.len() <= MAX_STACK,
        s.stack.len() == m.stack.len(),
        s == (Machine {
            stack: s.stack,
            stack_ptr: m.stack_ptr + args.len(),
            finished: false,
            frames: Frames { call_depth: 0, block_depth: 0, ..m.frames },
            ..m
        }),
        forall|k: int| 0 <= k < m.stack_ptr ==> #[trigger] s.stack[k] == m.stack[k],
        forall|k: int| m.stack_ptr <= k < m.stack_ptr + args.len() ==> #[trigger] s.stack[k] == args[k - m.stack_ptr],
        forall|k: int| m.stack_ptr + args.len() <= k < m.stack.len() ==> #[trigger] s.stack[k] == m.stack[k],
    ensures
        f >= m.store.module.imported_funcs().len() && enter(s, f).1 is Ok ==> call(m, f, args) == run(enter(s, f).0),
        f >= m.store.module.imported_funcs().len() ==> (enter(s, f).1 matches Err(e) ==> call(m, f, args).1
            == Outcome::Trap(e)),
{
    let p = crate::run::fresh(m).push_many(args);
    assert(args.take(args.len() as int) =~= args);
    assert(p.0.stack =~= s.stack);
    assert(p.0 =~= s);
}

/// A module without a start function starts at once; else the start function is called with
/// no arguments.
pub proof fn starting_calls(m: Machine)
    ensures
        m.store.module.start_func is None ==> started(m) == (m, Outcome::Completed),
        m.store.module.start_func matches Some(f) ==> started(m) == call(m, f, Seq::empty()),
{
}

} // verus!
