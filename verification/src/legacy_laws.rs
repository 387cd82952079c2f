//! What the older exception instructions do: handlers within a `try` block, `rethrow` and
//! `delegate`.

use vstd::prelude::*;
use crate::exceptions::{handler, thrown};
use crate::machine::{Frames, LegacyCatch, Machine, Outcome};
use crate::reader::leb_u32;
use crate::scan::{block_type_at, try_handlers};
use crate::situation::{consumed, faces, operand, step_executes, traps};
use crate::step::{instruction, step};
use crate::types::{Value, WasmError, MAX_STACK};

verus! {

/// A handler of a `try` block takes over where its block began: the values of the exception are
/// on the operand stack, or none where it handles every tag, and the block goes on as a block
/// that remembers the exception and catches nothing any more.
pub proof fn handlers_take_over(m: Machine, i: int, ci: int, tag: u32, values: Seq<Value>)
    requires
        m.valid(),
        handler(m, m.frames.block_depth, m.block_base(), tag) == Some((i, ci)),
        0 <= i < m.frames.block_depth,
        m.frames.blocks[i].is_legacy_try,
        0 <= ci < m.frames.blocks[i].legacy_catches.len(),
        m.frames.blocks[i].stack_base + values.len() <= MAX_STACK,
        values.len() <= 4,
    ensures
        ({
            let b = m.frames.blocks[i];
            let h = b.legacy_catches[ci];
            let r = thrown(m, tag, values).0;
            let n = r.frames.blocks[i];
            &&& thrown(m, tag, values).1
            &&& r.pc == h.handler_pc
            &&& r.frames.block_depth == i + 1
            &&& r.frames.call_depth == m.frames.call_depth
            &&& r.store == m.store
            &&& h.tag_idx == u32::MAX ==> r.stack_ptr == b.stack_base
            &&& h.tag_idx != u32::MAX ==> r.stack_ptr == b.stack_base + values.len() && forall|k: int|
                0 <= k < values.len() ==> #[trigger] r.stack[b.stack_base + k] == values[k]
            &&& n.is_legacy_try && n.legacy_catches.len() == 0
            &&& n.legacy_exception_tag == tag && n.legacy_exception_values == values
            &&& n.end_pc == b.end_pc && n.stack_base == b.stack_base
            &&& n.result_count == b.result_count && n.end_result_count == b.end_result_count
        }),
{
    assert(values.take(values.len() as int) =~= values);
}

/// `rethrow` throws the exception that the block with its label remembers; a block that
/// remembers none is refused.
pub proof fn rethrow_throws_again(m: Machine, label: u32, at: int)
    requires
        faces(m, 0x09),
        leb_u32(m.store.module.code, m.pc + 1) == (Ok::<u32, WasmError>(label), at),
        label < m.frames.block_depth,
    ensures
        ({
            let b = m.frames.blocks[m.frames.block_depth - 1 - label];
            let t = thrown(consumed(m, 0, at), b.legacy_exception_tag, b.legacy_exception_values);
            if b.is_legacy_try && b.legacy_exception_tag != u32::MAX {
                &&& step(m).0 == t.0
                &&& t.1 ==> step(m).1 == Outcome::Completed
                &&& !t.1 ==> step(m).1 == Outcome::Exception(b.legacy_exception_tag, b.legacy_exception_values)
            } else {
                traps(m, WasmError::UncaughtException)
            }
        }),
{
    reveal(instruction);
    step_executes(m, 0x09);
}

/// `throw_ref` throws the exception that its operand stands for, without values; a null
/// reference fails.
pub proof fn throw_ref_throws(m: Machine, tag: i32)
    requires
        faces(m, 0x0A),
        m.stack_ptr > 0,
    ensures
        operand(m, 0) == Value::I32(tag) ==> step(m).0 == consumed(m, 1, m.pc + 1) && step(m).1 == Outcome::Exception(
            tag as u32,
            Seq::empty(),
        ),
        operand(m, 0) == Value::NullRef ==> traps(m, WasmError::NullReference),
{
    reveal(instruction);
    step_executes(m, 0x0A);
}

/// Where the body of a `try` block ends without an exception, its handlers are passed over: the
/// results are left where the operands of the block began, behind its end.
pub proof fn handlers_are_passed_over(m: Machine, op: u8, at: int, tag: u32, k: int)
    requires
        op == 0x07 || op == 0x19,
        faces(m, op),
        op == 0x07 ==> leb_u32(m.store.module.code, m.pc + 1) == (Ok::<u32, WasmError>(tag), at),
        m.frames.block_depth > m.block_base(),
        ({
            let b = m.frames.blocks[m.frames.block_depth - 1];
            &&& b.is_legacy_try
            &&& b.stack_base + b.end_result_count <= m.stack_ptr
            &&& 0 <= k < b.end_result_count
        }),
    ensures
        ({
            let b = m.frames.blocks[m.frames.block_depth - 1];
            let r = step(m).0;
            &&& step(m).1 == Outcome::Completed
            &&& r.pc == b.end_pc
            &&& r.frames == (Frames { block_depth: m.frames.block_depth - 1, ..m.frames })
            &&& r.store == m.store
            &&& r.stack_ptr == b.stack_base + b.end_result_count
            &&& r.stack[b.stack_base + k] == m.stack[m.stack_ptr - b.end_result_count + k]
        }),
{
    reveal(instruction);
    step_executes(m, op);
}

/// `delegate`, reached without an exception, closes the block as `end` does.
pub proof fn delegate_closes(m: Machine, label: u32, at: int, k: int)
    requires
        faces(m, 0x18),
        leb_u32(m.store.module.code, m.pc + 1) == (Ok::<u32, WasmError>(label), at),
        m.frames.block_depth > 0,
        ({
            let b = m.frames.blocks[m.frames.block_depth - 1];
            &&& b.stack_base + b.end_result_count <= m.stack_ptr
            &&& 0 <= k < b.end_result_count
        }),
    ensures
        ({
            let b = m.frames.blocks[m.frames.block_depth - 1];
            let r = step(m).0;
            &&& step(m).1 == Outcome::Completed
            &&& r.pc == at
            &&& r.frames == (Frames { block_depth: m.frames.block_depth - 1, ..m.frames })
            &&& r.stack_ptr == b.stack_base + b.end_result_count
            &&& r.stack[b.stack_base + k] == m.stack[m.stack_ptr - b.end_result_count + k]
        }),
{
    reveal(instruction);
    step_executes(m, 0x18);
    let b = m.frames.blocks[m.frames.block_depth - 1];
    let vals = m.top(b.end_result_count as int);
    assert(vals.take(vals.len() as int) =~= vals);
}

/// `try` opens a block with the handlers that stand in its body, in order, and with the label
/// that it delegates to.
pub proof fn try_opens(
    m: Machine,
    bt: i32,
    start: int,
    handlers: Seq<LegacyCatch>,
    label: u32,
    end: int,
)
    requires
        faces(m, 0x06),
        block_type_at(m.store.module.code, m.pc + 1) == (Ok::<i32, WasmError>(bt), start),
        try_handlers(m.store.module.code, start, 1, m.store.module.multi_memory_enabled, Seq::empty()) == (
            Ok::<(Seq<LegacyCatch>, u32), WasmError>((handlers, label)),
            end,
        ),
        0 <= start <= usize::MAX,
        0 <= end <= usize::MAX,
        crate::block_laws::can_open(m, bt),
    ensures
        step(m).1 == Outcome::Completed,
        crate::block_laws::opened(consumed(m, 0, m.pc), bt, start, end, false, step(m).0),
        step(m).0.frames.blocks[m.frames.block_depth].is_legacy_try,
        step(m).0.frames.blocks[m.frames.block_depth].legacy_catches == handlers,
        step(m).0.frames.blocks[m.frames.block_depth].legacy_delegate_label == label,
        step(m).0.frames.blocks[m.frames.block_depth].legacy_exception_tag == u32::MAX,
{
    reveal(instruction);
    step_executes(m, 0x06);
}

/// A handler starts behind its `catch` or `catch_all`, if that stands in the block itself and
/// not in one within; `delegate` ends the block with its label.
pub proof fn handlers_start_behind_catch(
    s: Seq<u8>,
    p: int,
    depth: nat,
    multi_memory: bool,
    found: Seq<LegacyCatch>,
    tag: u32,
    q: int,
)
    requires
        0 <= p < s.len(),
        depth >= 1,
        found.len() < 8,
        q <= s.len(),
        s[p] == 0x07 || s[p] == 0x18 ==> leb_u32(s, p + 1) == (Ok::<u32, WasmError>(tag), q),
        0 <= q <= usize::MAX,
        p + 1 <= usize::MAX,
    ensures
        s[p] == 0x07 && q > p ==> try_handlers(s, p, depth, multi_memory, found) == try_handlers(
            s,
            q,
            depth,
            multi_memory,
            if depth == 1 {
                found.push(LegacyCatch { handler_pc: q as usize, tag_idx: tag })
            } else {
                found
            },
        ),
        s[p] == 0x19 ==> try_handlers(s, p, depth, multi_memory, found) == try_handlers(
            s,
            p + 1,
            depth,
            multi_memory,
            if depth == 1 {
                found.push(LegacyCatch { handler_pc: (p + 1) as usize, tag_idx: u32::MAX })
            } else {
                found
            },
        ),
        s[p] == 0x18 && depth == 1 && q > p ==> try_handlers(s, p, depth, multi_memory, found) == (
            Ok::<(Seq<LegacyCatch>, u32), WasmError>((found, tag)),
            q,
        ),
        s[p] == 0x0B && depth == 1 ==> try_handlers(s, p, depth, multi_memory, found) == (
            Ok::<(Seq<LegacyCatch>, u32), WasmError>((found, u32::MAX)),
            p + 1,
        ),
{
    reveal(crate::scan::instr_at);
}

} // verus!
