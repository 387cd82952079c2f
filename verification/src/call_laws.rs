//! What calls, returns and tables of labels do.

use vstd::prelude::*;
use crate::blocks::read_labels;
use crate::calls::{branch, invoke};
use crate::control_laws::{branch_is_branched, branched, has_label, names_index};
use crate::heap::is_subtype;
use crate::machine::{Frames, Machine, Outcome};
use crate::module::{ImportDef, Module};
use crate::reader::leb_u32;
use crate::scalar_laws::{casts32, unsigned32};
use crate::situation::{consumed, faces, operand, step_executes, traps};
use crate::step::{instruction, step};
use crate::types::{Value, WasmError, MAX_BLOCK_DEPTH, MAX_CALL_DEPTH, MAX_PARAMS, MAX_STACK};

verus! {

// ---------------------------------------------------------------------------
// Tables of labels

proof fn labels_are_read(s: Machine, labels: Seq<u32>, places: Seq<int>, k: int)
    requires
        0 <= k <= labels.len(),
        places.len() == labels.len() + 1,
        s.pc == places[k],
        forall|j: int|
            0 <= j < labels.len() ==> leb_u32(s.store.module.code, #[trigger] places[j]) == (
                Ok::<u32, WasmError>(labels[j]),
                places[j + 1],
            ),
    ensures
        read_labels(s, (labels.len() - k) as nat, labels.take(k)) == (
            Machine { pc: places[labels.len() as int], ..s },
            Ok::<Seq<u32>, WasmError>(labels),
        ),
    decreases labels.len() - k,
{
    if k < labels.len() {
        assert(labels.take(k).push(labels[k]) =~= labels.take(k + 1));
        labels_are_read(Machine { pc: places[k + 1], ..s }, labels, places, k + 1);
    } else {
        assert(labels.take(k) =~= labels);
    }
}

/// `br_table` branches to the label that the index on top selects, and to the last label
/// where the index is that of the last or beyond.
pub proof fn table_branches(m: Machine, labels: Seq<u32>, places: Seq<int>, i: i32)
    requires
        faces(m, 0x0E),
        labels.len() >= 1,
        places.len() == labels.len() + 1,
        labels.len() <= 0x8000_0000,
        names_index(m, (labels.len() - 1) as u32, places[0]),
        forall|j: int|
            0 <= j < labels.len() ==> leb_u32(m.store.module.code, #[trigger] places[j]) == (
                Ok::<u32, WasmError>(labels[j]),
                places[j + 1],
            ),
        m.stack_ptr > 0,
        operand(m, 0) == Value::I32(i),
    ensures
        ({
            let s = consumed(m, 1, places[labels.len() as int]);
            let l = if unsigned32(i) < labels.len() {
                labels[unsigned32(i)]
            } else {
                labels.last()
            };
            has_label(s, l) ==> step(m).1 == Outcome::Completed && branched(s, l, step(m).0)
        }),
{
    reveal(instruction);
    step_executes(m, 0x0E);
    let start = consumed(m, 1, places[0]);
    labels_are_read(start, labels, places, 0);
    assert(labels.take(0) =~= Seq::empty());
    let s = consumed(m, 1, places[labels.len() as int]);
    assert((Machine { pc: places[labels.len() as int], ..start }) =~= s);
    let n = labels.len() - 1;
    let l = if 0 <= i < n {
        labels[i as int]
    } else {
        labels[n]
    };
    assert(step(m) == crate::calls::carried_out(branch(s, l)));
    if has_label(s, l) {
        branch_is_branched(s, l);
    }
}

// ---------------------------------------------------------------------------
// Calls

/// The function imports of a module, in order. Imported functions come before those that
/// the module defines.
pub open spec fn function_imports(m: Module) -> Seq<ImportDef> {
    m.imports.filter(|i: ImportDef| i.kind is Func)
}

/// Whether `r` is the machine `s` in which the function numbered `f`, which the module
/// defines, has just been entered: its code is next, its arguments have been taken from the
/// operand stack, and its call goes back to where `s` stands.
pub open spec fn entered(s: Machine, f: int, n: int, r: Machine) -> bool {
    let md = s.store.module;
    let fun = md.functions[f - n];
    let ft = md.func_types[fun.type_idx as int];
    let c = r.frames.calls[s.frames.call_depth];
    &&& r.pc == fun.code_offset
    &&& r.stack_ptr == s.stack_ptr - ft.params.len()
    &&& r.stack == s.stack
    &&& r.store == s.store
    &&& r.fuel == s.fuel
    &&& r.frames.call_depth == s.frames.call_depth + 1
    &&& forall|k: int| 0 <= k < s.frames.call_depth ==> r.frames.calls[k] == s.frames.calls[k]
    &&& r.frames.block_depth == s.frames.block_depth + 1
    &&& c.func_idx == f
    &&& c.return_pc == s.pc
    &&& c.code_offset == fun.code_offset
    &&& c.code_end == fun.code_offset + fun.code_len
    &&& c.local_count == ft.params.len() + fun.local_count
    &&& c.result_count == ft.results.len()
    &&& c.stack_base == r.stack_ptr
    &&& c.saved_block_depth == s.frames.block_depth
    &&& c.block_stack_base == s.frames.block_depth
    &&& forall|k: int|
        0 <= k < ft.params.len() ==> #[trigger] r.frames.locals[c.local_base + k] == s.stack[r.stack_ptr + k]
    &&& forall|k: int|
        0 <= k < fun.local_count ==> #[trigger] r.frames.locals[c.local_base + ft.params.len() + k]
            == Value::zero_of(fun.locals[k])
    &&& forall|k: int| 0 <= k < c.local_base ==> #[trigger] r.frames.locals[k] == s.frames.locals[k]
    &&& s.frames.call_depth > 0 ==> c.local_base == s.frames.calls[s.frames.call_depth - 1].local_base
        + s.frames.calls[s.frames.call_depth - 1].local_count
}

proof fn functions_are_imports(m: Module)
    ensures
        m.imported_funcs().len() == function_imports(m).len(),
        forall|k: int|
            0 <= k < function_imports(m).len() ==> #[trigger] m.imported_funcs()[k] == function_imports(
                m,
            )[k].kind->Func_0,
    decreases m.imports.len(),
{
    imports_filtered(m.imports);
}

proof fn imports_filtered(imports: Seq<ImportDef>)
    ensures
        crate::module::imported_func_types(imports).len() == imports.filter(|i: ImportDef| i.kind is Func).len(),
        forall|k: int|
            0 <= k < crate::module::imported_func_types(imports).len() ==> #[trigger] crate::module::imported_func_types(imports)[k]
                == imports.filter(|i: ImportDef| i.kind is Func)[k].kind->Func_0,
    decreases imports.len(),
{
    reveal(Seq::filter);
    if imports.len() > 0 {
        imports_filtered(imports.drop_last());
    }
}

/// Whether a call of the function numbered `f`, which the module defines, has room.
pub open spec fn has_room(s: Machine, f: int, n: int) -> bool {
    let md = s.store.module;
    let fun = md.functions[f - n];
    let ft = md.func_types[fun.type_idx as int];
    let base = if s.frames.call_depth > 0 {
        s.frames.calls[s.frames.call_depth - 1].local_base + s.frames.calls[s.frames.call_depth - 1].local_count
    } else {
        0
    };
    &&& n <= f < n + md.functions.len()
    &&& fun.type_idx < md.func_types.len()
    &&& ft.params.len() <= s.stack_ptr
    &&& ft.params.len() <= 255
    &&& ft.results.len() <= 255
    &&& fun.code_offset + fun.code_len <= usize::MAX
    &&& s.frames.call_depth < MAX_CALL_DEPTH
    &&& s.frames.block_depth < MAX_BLOCK_DEPTH
    &&& base + ft.params.len() + fun.local_count <= s.frames.locals.len()
}

/// Whether `r` is what a call of the function numbered `f` makes of the machine `s`: a
/// function that the module defines is entered, one that it imports is asked for with its
/// arguments in order.
pub open spec fn called(s: Machine, f: u32, r: (Machine, Outcome)) -> bool {
    let md = s.store.module;
    let n = function_imports(md).len() as int;
    &&& has_room(s, f as int, n) ==> r.1 == Outcome::Completed && entered(s, f as int, n, r.0)
    &&& f < n ==> {
        let ti = function_imports(md)[f as int].kind->Func_0;
        let k = md.func_types[ti as int].params.len() as int;
        ti < md.func_types.len() && k <= s.stack_ptr && k <= MAX_PARAMS ==> {
            &&& r.0 == (Machine { stack_ptr: s.stack_ptr - k, ..s })
            &&& r.1 is HostCall
            &&& r.1->HostCall_0 == f
            &&& r.1->HostCall_2 == k
            &&& forall|j: int| 0 <= j < k ==> #[trigger] r.1->HostCall_1[j] == s.stack[s.stack_ptr - k + j]
        }
    }
}

proof fn invoke_calls(s: Machine, f: u32)
    requires
        s.valid(),
    ensures
        called(s, f, invoke(s, f)),
{
    let md = s.store.module;
    functions_are_imports(md);
    let n = function_imports(md).len() as int;
    if f < n {
        let ti = function_imports(md)[f as int].kind->Func_0;
        let k = md.func_types[ti as int].params.len() as int;
        assert(md.imported_funcs()[f as int] == ti);
        if ti < md.func_types.len() && k <= s.stack_ptr && k <= MAX_PARAMS {
            assert(invoke(s, f).0 =~= (Machine { stack_ptr: s.stack_ptr - k, ..s }));
        }
    }
    if has_room(s, f as int, n) {
        if s.frames.call_depth > 0 {
            assert(s.frames.calls[s.frames.call_depth - 1].wf());
        }
    }
}

/// `call` calls the function that it names.
pub proof fn call_calls(m: Machine, f: u32, at: int)
    requires
        faces(m, 0x10),
        names_index(m, f, at),
        at <= usize::MAX,
    ensures
        called(consumed(m, 0, at), f, step(m)),
{
    reveal(instruction);
    step_executes(m, 0x10);
    let s = consumed(m, 0, at);
    leb_stays(m, at);
    assert(step(m) == invoke(s, f));
    invoke_calls(s, f);
}

proof fn leb_stays(m: Machine, at: int)
    requires
        m.valid(),
        exists|x: u32| names_index(m, x, at),
    ensures
        m.pc < at,
{
    broadcast use crate::reader::group_leb_moves;

    let x = choose|x: u32| names_index(m, x, at);
    assert(names_index(m, x, at));
}

/// `call_indirect` looks up its table by the index on top: a slot that holds a function of
/// the named type, or of a subtype of it, is called. It traps for an index beyond the
/// table, for an empty slot and for a function of another type.
pub proof fn indirect_call_calls(m: Machine, t: u32, ti: u32, p: int, at: int, i: i32)
    requires
        faces(m, 0x11),
        names_index(m, t, p),
        leb_u32(m.store.module.code, p) == (Ok::<u32, WasmError>(ti), at),
        0 <= at <= usize::MAX,
        m.stack_ptr > 0,
        operand(m, 0) == Value::I32(i),
        ti < m.store.tables.len(),
        ti < m.store.table_aliases.len() ==> m.store.table_aliases[ti as int] is None,
    ensures
        ({
            let slots = m.store.tables[ti as int];
            let md = m.store.module;
            if unsigned32(i) >= slots.len() || i < 0 {
                traps(m, WasmError::UndefinedElement)
            } else {
                match slots[i as int] {
                    None => traps(m, WasmError::UninitializedElement(i as u32)),
                    Some(f) => {
                        let n = function_imports(md).len();
                        let actual = if f < n {
                            Some(function_imports(md)[f as int].kind->Func_0)
                        } else if f - n < md.functions.len() {
                            Some(md.functions[f - n].type_idx)
                        } else {
                            None
                        };
                        &&& actual == Some(t) ==> called(consumed(m, 1, at), f, step(m))
                        &&& actual is Some && !is_subtype(md, actual->Some_0, t) ==> traps(
                            m,
                            WasmError::IndirectCallTypeMismatch,
                        )
                        &&& actual is Some && is_subtype(md, actual->Some_0, t) ==> called(
                            consumed(m, 1, at),
                            f,
                            step(m),
                        )
                    },
                }
            }
        }),
{
    reveal(instruction);
    step_executes(m, 0x11);
    casts32(i, 0);
    functions_are_imports(m.store.module);
    let s = consumed(m, 1, at);
    let slots = m.store.tables[ti as int];
    if 0 <= i < slots.len() && slots[i as int] is Some {
        let f = slots[i as int]->Some_0;
        invoke_calls(s, f);
    }
}

/// `call_ref` calls the function that the reference on top stands for, and traps for
/// null.
pub proof fn reference_call_calls(m: Machine, t: u32, at: int, v: Value)
    requires
        faces(m, 0x14),
        names_index(m, t, at),
        0 <= at <= usize::MAX,
        m.stack_ptr > 0,
        operand(m, 0) == v,
    ensures
        v == Value::NullRef || v == Value::I32(-1i32) ==> traps(m, WasmError::NullFunctionReference),
        v matches Value::I32(f) ==> f >= 0 ==> called(consumed(m, 1, at), f as u32, step(m)),
{
    reveal(instruction);
    step_executes(m, 0x14);
    let s = consumed(m, 1, at);
    if let Value::I32(f) = v {
        if f >= 0 {
            invoke_calls(s, f as u32);
        }
    }
}

/// `return` leaves the innermost call: its results, in order, stand where its arguments
/// began, and the caller goes on behind the call. The first result of the outermost call
/// ends the run.
pub proof fn return_returns(m: Machine)
    requires
        faces(m, 0x0F) || (m.valid() && m.fuel > 0 && m.frames.call_depth > 0 && m.pc >= m.frames.calls[m.frames.call_depth
            - 1].code_end),
        m.frames.calls[m.frames.call_depth - 1].stack_base + m.frames.calls[m.frames.call_depth - 1].result_count
            <= m.stack_ptr,
    ensures
        ({
            let c = m.frames.calls[m.frames.call_depth - 1];
            let n = c.result_count as int;
            let r = step(m);
            &&& r.0.frames.call_depth == m.frames.call_depth - 1
            &&& r.0.frames.block_depth == c.saved_block_depth
            &&& r.0.frames.calls == m.frames.calls
            &&& r.0.frames.locals == m.frames.locals
            &&& r.0.pc == c.return_pc
            &&& r.0.stack_ptr == c.stack_base + n
            &&& forall|k: int| 0 <= k < n ==> #[trigger] r.0.stack[c.stack_base + k] == m.stack[m.stack_ptr - n + k]
            &&& forall|k: int| 0 <= k < c.stack_base ==> #[trigger] r.0.stack[k] == m.stack[k]
            &&& r.0.store == m.store
            &&& m.frames.call_depth > 1 ==> r.1 == Outcome::Completed && r.0.finished == m.finished
            &&& m.frames.call_depth == 1 ==> r.0.finished && (if n > 0 {
                r.1 == Outcome::Returned(m.stack[m.stack_ptr - n])
            } else {
                r.1 == Outcome::Completed
            })
        }),
{
    reveal(instruction);
}

/// A tail call leaves the innermost call before it calls: the arguments stand where those
/// of the left call began.
pub proof fn tail_call_replaces(m: Machine, f: u32, at: int)
    requires
        faces(m, 0x12),
        names_index(m, f, at),
        0 <= at <= usize::MAX,
        m.frames.calls[m.frames.call_depth - 1].return_pc <= usize::MAX,
    ensures
        ({
            let md = m.store.module;
            let n = function_imports(md).len() as int;
            let fun = md.functions[f - n];
            let k = md.func_types[fun.type_idx as int].params.len() as int;
            let c = m.frames.calls[m.frames.call_depth - 1];
            n <= f < n + md.functions.len() && fun.type_idx < md.func_types.len() && k <= m.stack_ptr && c.stack_base + k
                <= MAX_STACK ==> {
                let s = tail_state(m, k);
                called(s, f, step(m))
            }
        }),
{
    reveal(instruction);
    step_executes(m, 0x12);
    let md = m.store.module;
    functions_are_imports(md);
    let n = function_imports(md).len() as int;
    let fun = md.functions[f - n];
    let k = md.func_types[fun.type_idx as int].params.len() as int;
    let c = m.frames.calls[m.frames.call_depth - 1];
    if n <= f < n + md.functions.len() && fun.type_idx < md.func_types.len() && k <= m.stack_ptr && c.stack_base + k
        <= MAX_STACK {
        let s = tail_state(m, k);
        let args = consumed(m, 0, at).top(k);
        assert(args.take(k) =~= args);
        assert(step(m) == invoke(s, f)) by {
            let d = crate::calls::frame_dropped(consumed(m, k, at));
            assert(d.push_many(args).0 =~= s);
        }
        assert(c.wf());
        invoke_calls(s, f);
    }
}

/// The machine whose innermost call has been left, with `k` arguments where those of the
/// left call began.
pub open spec fn tail_state(m: Machine, k: int) -> Machine {
    let c = m.frames.calls[m.frames.call_depth - 1];
    Machine {
        stack: Seq::new(
            m.stack.len(),
            |j: int|
                if c.stack_base <= j < c.stack_base + k {
                    m.stack[m.stack_ptr - k + (j - c.stack_base)]
                } else {
                    m.stack[j]
                },
        ),
        stack_ptr: c.stack_base + k,
        pc: c.return_pc as int,
        fuel: (m.fuel - 1) as u64,
        frames: Frames {
            call_depth: m.frames.call_depth - 1,
            block_depth: c.saved_block_depth as int,
            ..m.frames
        },
        ..m
    }
}

/// A tail call through a table or a reference does what the tail call of the function found
/// there does, once the index or the reference is off the stack.
pub proof fn tail_calls_agree(m: Machine, op: u8, t: u32, p: int, at: int, ti: u32, f: u32, n: Machine, end: int)
    requires
        op == 0x13 || op == 0x15,
        faces(m, op),
        names_index(m, t, p),
        op == 0x13 ==> leb_u32(m.store.module.code, p) == (Ok::<u32, WasmError>(ti), at),
        m.stack_ptr > 0,
        op == 0x13 ==> {
            &&& operand(m, 0) is I32
            &&& ti < m.store.tables.len()
            &&& ti < m.store.table_aliases.len() ==> m.store.table_aliases[ti as int] is None
            &&& 0 <= operand(m, 0)->I32_0 < m.store.tables[ti as int].len()
            &&& m.store.tables[ti as int][operand(m, 0)->I32_0 as int] == Some(f)
        },
        op == 0x15 ==> operand(m, 0) is I32 && operand(m, 0)->I32_0 == f,
        t < m.store.module.func_types.len(),
        crate::heap::func_type_of(m.store.module, f) == Some(t),
        n == (Machine { pc: n.pc, stack_ptr: m.stack_ptr - 1, ..m }),
        faces(n, 0x12),
        names_index(n, f, end),
        m.store.module.func_types[t as int].params.len() < m.stack_ptr,
    ensures
        step(m) == step(n),
{
    reveal(instruction);
    step_executes(m, op);
    step_executes(n, 0x12);
    let k = m.store.module.func_types[t as int].params.len() as int;
    let (a, b) = (consumed(m, 1 + k, at), consumed(n, k, end));
    let (x, y) = (Machine { pc: p, ..a }, Machine { pc: at, ..a });
    assert(crate::calls::frame_dropped(x) =~= crate::calls::frame_dropped(b));
    assert(crate::calls::frame_dropped(y) =~= crate::calls::frame_dropped(b));
    assert(consumed(m, 1, at).top(k) =~= consumed(n, 0, end).top(k));
}

} // verus!
