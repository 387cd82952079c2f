//! What the instructions on constants, variables, references, branches and calls do.

use vstd::prelude::*;
use crate::bytes::{le_u32, le_u64};
use crate::calls::branch;
use crate::machine::{Machine, Outcome, Store};
use crate::reader::{leb_i32, leb_i64, leb_u32};
use crate::situation::{consumed, faces, operand, replaced, result_of, step_executes, traps, yields_at, yields_value};
use crate::step::{instruction, step};
use crate::types::{RuntimeClass, Value, WasmError, MAX_STACK};

verus! {

/// Whether the immediate of the next instruction is `x` and the instruction ends at `at`.
pub open spec fn names_index(m: Machine, x: u32, at: int) -> bool {
    leb_u32(m.store.module.code, m.pc + 1) == (Ok::<u32, WasmError>(x), at)
}

// ---------------------------------------------------------------------------
// Nothing, constants, dropping and selecting

/// `nop` does nothing but take fuel; `unreachable` traps; `drop` takes one operand away.
pub proof fn simplest_instructions(m: Machine)
    ensures
        faces(m, 0x00) ==> traps(m, WasmError::UnreachableExecuted),
        faces(m, 0x01) ==> step(m) == (consumed(m, 0, m.pc + 1), Outcome::Completed),
        faces(m, 0x1A) && m.stack_ptr > 0 ==> step(m) == (consumed(m, 1, m.pc + 1), Outcome::Completed),
        faces(m, 0x1A) && m.stack_ptr == 0 ==> traps(m, WasmError::StackUnderflow),
{
    reveal(instruction);
    if faces(m, 0x01) {
        assert(step(m).0 =~= consumed(m, 0, m.pc + 1));
    }
    if faces(m, 0x1A) && m.stack_ptr > 0 {
        assert(step(m).0 =~= consumed(m, 1, m.pc + 1));
    }
}

/// `i32.const` and `i64.const` push the signed number that follows.
pub proof fn integer_constants(m: Machine, x: i32, y: i64, at: int)
    requires
        m.stack_ptr < MAX_STACK,
    ensures
        faces(m, 0x41) && leb_i32(m.store.module.code, m.pc + 1) == (Ok::<i32, WasmError>(x), at) ==> yields_at(
            m,
            0,
            Value::I32(x),
            at,
        ),
        faces(m, 0x42) && leb_i64(m.store.module.code, m.pc + 1) == (Ok::<i64, WasmError>(y), at) ==> yields_at(
            m,
            0,
            Value::I64(y),
            at,
        ),
{
    reveal(instruction);
    if faces(m, 0x41) && leb_i32(m.store.module.code, m.pc + 1) == (Ok::<i32, WasmError>(x), at) {
        assert(step(m).0 =~= replaced(m, 0, Value::I32(x), at));
    }
    if faces(m, 0x42) && leb_i64(m.store.module.code, m.pc + 1) == (Ok::<i64, WasmError>(y), at) {
        assert(step(m).0 =~= replaced(m, 0, Value::I64(y), at));
    }
}

/// The number in four bytes of code, the lowest first.
pub open spec fn code_number(m: Machine, p: int) -> int {
    let c = m.store.module.code;
    c[p] + 0x100 * c[p + 1] + 0x1_0000 * c[p + 2] + 0x100_0000 * c[p + 3]
}

/// `f32.const` and `f64.const` push the pattern in the bytes that follow, the lowest
/// first.
pub proof fn float_constants(m: Machine)
    requires
        m.stack_ptr < MAX_STACK,
        m.store.class != RuntimeClass::ProofGrade,
    ensures
        faces(m, 0x43) && m.pc + 5 <= m.store.module.code.len() ==> {
            let x = result_of(m, 0)->F32_0;
            yields_at(m, 0, Value::F32(x), m.pc + 5) && x == code_number(m, m.pc + 1)
        },
        faces(m, 0x44) && m.pc + 9 <= m.store.module.code.len() ==> {
            let x = result_of(m, 0)->F64_0;
            yields_at(m, 0, Value::F64(x), m.pc + 9) && x == code_number(m, m.pc + 1) + 0x1_0000_0000 * code_number(
                m,
                m.pc + 5,
            )
        },
{
    reveal(instruction);
    let c = m.store.module.code;
    if faces(m, 0x43) && m.pc + 5 <= c.len() {
        let x = le_u32(c, m.pc + 1);
        assert(step(m).0 =~= replaced(m, 0, Value::F32(x), m.pc + 5));
    }
    if faces(m, 0x44) && m.pc + 9 <= c.len() {
        let x = le_u64(c, m.pc + 1);
        assert(le_u32(c, m.pc + 1) == code_number(m, m.pc + 1));
        assert(le_u32(c, m.pc + 5) == code_number(m, m.pc + 5));
        assert(step(m).0 =~= replaced(m, 0, Value::F64(x), m.pc + 9));
    }
}

/// `select` leaves the first of two values where the condition on top is not zero, else
/// the second.
pub proof fn select_selects(m: Machine, a: Value, b: Value, c: i32)
    requires
        faces(m, 0x1B),
        m.stack_ptr >= 3,
        operand(m, 2) == a,
        operand(m, 1) == b,
        operand(m, 0) == Value::I32(c),
    ensures
        c != 0 ==> yields_value(m, 3, a),
        c == 0 ==> yields_value(m, 3, b),
{
    reveal(instruction);
    step_executes(m, 0x1B);
    let v = if c != 0 {
        a
    } else {
        b
    };
    assert(step(m).0 =~= replaced(m, 3, v, m.pc + 1));
}

// ---------------------------------------------------------------------------
// Variables

/// `local.get` pushes a local of the innermost call, `local.set` pops one, and `local.tee`
/// writes the top value without taking it. No other local changes.
pub proof fn local_instructions(m: Machine, i: u32, at: int)
    requires
        names_index(m, i, at),
        m.frames.call_depth > 0,
        ({
            let f = m.frames.calls[m.frames.call_depth - 1];
            i < f.local_count && f.local_base + f.local_count <= m.frames.locals.len()
        }),
    ensures
        ({
            let p = m.frames.calls[m.frames.call_depth - 1].local_base + i;
            let r = step(m).0;
            let v = operand(m, 0);
            &&& faces(m, 0x20) && m.stack_ptr < MAX_STACK ==> yields_at(m, 0, m.frames.locals[p], at)
            &&& faces(m, 0x21) && m.stack_ptr > 0 ==> {
                &&& step(m).1 == Outcome::Completed
                &&& r.stack_ptr == m.stack_ptr - 1 && r.pc == at && r.store == m.store
                &&& r.frames.locals == m.frames.locals.update(p, v)
            }
            &&& faces(m, 0x22) && m.stack_ptr > 0 ==> {
                &&& step(m).1 == Outcome::Completed
                &&& r.stack_ptr == m.stack_ptr && r.stack == m.stack && r.pc == at && r.store == m.store
                &&& r.frames.locals == m.frames.locals.update(p, v)
            }
        }),
{
    reveal(instruction);
    let p = m.frames.calls[m.frames.call_depth - 1].local_base + i;
    if faces(m, 0x20) && m.stack_ptr < MAX_STACK {
        assert(step(m).0 =~= replaced(m, 0, m.frames.locals[p], at));
    }
}

/// `global.get` pushes a global, and `global.set` pops a value into one that is mutable.
/// No other global changes.
pub proof fn global_instructions(m: Machine, i: u32, at: int)
    requires
        names_index(m, i, at),
        i < m.store.globals.len(),
    ensures
        faces(m, 0x23) && m.stack_ptr < MAX_STACK ==> yields_at(m, 0, m.store.globals[i as int], at),
        faces(m, 0x24) && m.stack_ptr > 0 && i < m.store.module.globals.len() ==> {
            if m.store.module.globals[i as int].mutable {
                step(m) == (
                    Machine {
                        store: Store { globals: m.store.globals.update(i as int, operand(m, 0)), ..m.store },
                        ..consumed(m, 1, at)
                    },
                    Outcome::Completed,
                )
            } else {
                traps(m, WasmError::ImmutableGlobal) && step(m).0.store == m.store
            }
        },
{
    reveal(instruction);
    if faces(m, 0x23) && m.stack_ptr < MAX_STACK {
        assert(step(m).0 =~= replaced(m, 0, m.store.globals[i as int], at));
    }
    if faces(m, 0x24) && m.stack_ptr > 0 && i < m.store.module.globals.len()
        && m.store.module.globals[i as int].mutable {
        assert(step(m).0 =~= (Machine {
            store: Store { globals: m.store.globals.update(i as int, operand(m, 0)), ..m.store },
            ..consumed(m, 1, at)
        }));
    }
}

// ---------------------------------------------------------------------------
// References

/// Whether a value is a null reference.
pub open spec fn null(v: Value) -> bool {
    v == Value::NullRef || v == Value::I32(-1i32)
}

/// `ref.null` pushes null and `ref.func` a function index.
pub proof fn reference_constants(m: Machine, ht: i32, f: u32, at: int)
    requires
        m.stack_ptr < MAX_STACK,
    ensures
        faces(m, 0xD0) && leb_i32(m.store.module.code, m.pc + 1) == (Ok::<i32, WasmError>(ht), at) ==> yields_at(
            m,
            0,
            Value::NullRef,
            at,
        ),
        faces(m, 0xD2) && names_index(m, f, at) && f < 0x8000_0000 ==> yields_at(m, 0, Value::I32(f as i32), at),
{
    reveal(instruction);
    if faces(m, 0xD0) && leb_i32(m.store.module.code, m.pc + 1) == (Ok::<i32, WasmError>(ht), at) {
        assert(step(m).0 =~= replaced(m, 0, Value::NullRef, at));
    }
    if faces(m, 0xD2) && names_index(m, f, at) {
        assert(step(m).0 =~= replaced(m, 0, Value::I32(f as i32), at));
    }
}

/// `ref.is_null` gives one exactly for null; `ref.as_non_null` passes on everything but
/// null, for which it traps.
pub proof fn null_checks(m: Machine, v: Value)
    requires
        m.stack_ptr >= 1,
        operand(m, 0) == v,
    ensures
        faces(m, 0xD1) && null(v) ==> yields_value(m, 1, Value::I32(1)),
        faces(m, 0xD1) && !null(v) ==> yields_value(m, 1, Value::I32(0)),
        faces(m, 0xD4) && null(v) ==> traps(m, WasmError::NullReference),
        faces(m, 0xD4) && !null(v) ==> yields_value(m, 1, v),
{
    reveal(instruction);
    if faces(m, 0xD1) {
        assert(step(m).0 =~= replaced(m, 1, result_of(m, 1), m.pc + 1));
    }
    if faces(m, 0xD4) && !null(v) {
        assert(step(m).0 =~= replaced(m, 1, v, m.pc + 1));
    }
}

/// `ref.eq` gives one exactly where both references are null, or neither is and they are
/// the same function, integer or object.
pub proof fn reference_equality(m: Machine, a: Value, b: Value)
    requires
        faces(m, 0xD3),
        m.stack_ptr >= 2,
        operand(m, 1) == a,
        operand(m, 0) == b,
        null(a) || a is I32 || a is GcRef,
        null(b) || b is I32 || b is GcRef,
    ensures
        yields_value(
            m,
            2,
            Value::I32(
                if (null(a) && null(b)) || a == b {
                    1
                } else {
                    0
                },
            ),
        ),
{
    reveal(instruction);
    step_executes(m, 0xD3);
    assert(step(m).0 =~= replaced(m, 2, result_of(m, 2), m.pc + 1));
}

// ---------------------------------------------------------------------------
// Branches

/// Whether `r` is what a branch to the label `l` makes of the machine `s`: the values that
/// the block takes stand where its operands began, and it goes on at the start of a loop
/// or behind any other block.
pub open spec fn branched(s: Machine, l: u32, r: Machine) -> bool {
    let idx = s.frames.block_depth - 1 - l;
    let t = s.frames.blocks[idx];
    let n = t.result_count as int;
    &&& r.pc == if t.is_loop {
        t.start_pc
    } else {
        t.end_pc
    }
    &&& r.frames.block_depth == if t.is_loop {
        idx + 1
    } else {
        idx
    }
    &&& r.stack_ptr == t.stack_base + n
    &&& forall|k: int| 0 <= k < n ==> #[trigger] r.stack[t.stack_base + k] == s.stack[s.stack_ptr - n + k]
    &&& forall|k: int| 0 <= k < t.stack_base ==> #[trigger] r.stack[k] == s.stack[k]
    &&& r.store == s.store
    &&& r.frames.locals == s.frames.locals
    &&& r.frames.calls == s.frames.calls
    &&& r.frames.call_depth == s.frames.call_depth
}

/// Whether the machine has a block for the label `l` whose values are there and have room.
pub open spec fn has_label(s: Machine, l: u32) -> bool {
    let t = s.frames.blocks[s.frames.block_depth - 1 - l];
    &&& l < s.frames.block_depth - s.block_base()
    &&& s.block_base() >= 0
    &&& s.frames.block_depth <= s.frames.blocks.len()
    &&& t.stack_base + t.result_count <= s.stack_ptr
}

/// Branching to a label that there is succeeds.
pub proof fn branch_is_branched(s: Machine, l: u32)
    requires
        s.stack.len() == MAX_STACK,
        0 <= s.stack_ptr <= MAX_STACK,
        has_label(s, l),
    ensures
        branch(s, l).1 is Ok,
        branched(s, l, branch(s, l).0),
{
}

/// `br` branches; `br_if` branches where the condition on top is not zero.
pub proof fn conditional_branches(m: Machine, l: u32, at: int, c: i32)
    requires
        names_index(m, l, at),
    ensures
        faces(m, 0x0C) && has_label(m, l) ==> step(m).1 == Outcome::Completed && branched(m, l, step(m).0),
        faces(m, 0x0D) && m.stack_ptr > 0 && operand(m, 0) == Value::I32(c) && c == 0 ==> step(m) == (
            consumed(m, 1, at),
            Outcome::Completed,
        ),
        faces(m, 0x0D) && m.stack_ptr > 0 && operand(m, 0) == Value::I32(c) && c != 0 && has_label(
            consumed(m, 1, at),
            l,
        ) ==> step(m).1 == Outcome::Completed && branched(consumed(m, 1, at), l, step(m).0),
{
    reveal(instruction);
    if faces(m, 0x0C) && has_label(m, l) {
        branch_is_branched(consumed(m, 0, at), l);
        assert(step(m) == (branch(consumed(m, 0, at), l).0, Outcome::Completed));
    }
    if faces(m, 0x0D) && m.stack_ptr > 0 && operand(m, 0) == Value::I32(c) {
        if c == 0 {
            assert(step(m).0 =~= consumed(m, 1, at));
        } else if has_label(consumed(m, 1, at), l) {
            branch_is_branched(consumed(m, 1, at), l);
            assert(step(m) == (branch(consumed(m, 1, at), l).0, Outcome::Completed));
        }
    }
}

/// `br_on_null` branches for null, which it takes away; `br_on_non_null` branches for
/// everything else, which it leaves there. Where they do not branch, the first leaves the
/// reference, and the second takes the null away.
pub proof fn null_branches(m: Machine, l: u32, at: int, v: Value)
    requires
        names_index(m, l, at),
        m.stack_ptr > 0,
        operand(m, 0) == v,
    ensures
        faces(m, 0xD5) && !null(v) ==> step(m) == (consumed(m, 0, at), Outcome::Completed),
        faces(m, 0xD5) && null(v) && has_label(consumed(m, 1, at), l) ==> step(m).1 == Outcome::Completed && branched(
            consumed(m, 1, at),
            l,
            step(m).0,
        ),
        faces(m, 0xD6) && null(v) ==> step(m) == (consumed(m, 1, at), Outcome::Completed),
        faces(m, 0xD6) && !null(v) && has_label(consumed(m, 0, at), l) ==> step(m).1 == Outcome::Completed && branched(
            consumed(m, 0, at),
            l,
            step(m).0,
        ),
{
    reveal(instruction);
    let whole = consumed(m, 0, at);
    let less = consumed(m, 1, at);
    if faces(m, 0xD5) || faces(m, 0xD6) {
        assert(less.push(v).0 =~= whole);
    }
    if faces(m, 0xD5) && null(v) && has_label(less, l) {
        branch_is_branched(less, l);
        assert(step(m) == (branch(less, l).0, Outcome::Completed));
    }
    if faces(m, 0xD6) && null(v) {
        assert(step(m).0 =~= less);
    }
    if faces(m, 0xD6) && !null(v) && has_label(whole, l) {
        branch_is_branched(whole, l);
        assert(step(m) == (branch(whole, l).0, Outcome::Completed));
    }
}

} // verus!
