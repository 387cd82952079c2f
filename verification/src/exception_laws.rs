//! Which handler catches an exception, and what it finds.

use vstd::prelude::*;
use crate::exceptions::{
    clause_catches, first_clause, first_handler, handler, imported_tags, reaction, same_tag, tag_arity,
    tag_type, thrown, Reaction,
};
use crate::machine::{Block, CatchClause, Machine, Outcome};
use crate::module::{ImportDef, ImportKind, Module};
use crate::reader::leb_u32;
use crate::run::run;
use crate::situation::{consumed, faces, operand, step_executes};
use crate::step::{instruction, step};
use crate::types::{Value, WasmError, MAX_STACK};

verus! {

// ---------------------------------------------------------------------------
// Tags

/// The tag imports of a module, in order. Their tags come before those that the module
/// defines.
pub open spec fn tag_imports(m: Module) -> Seq<ImportDef> {
    m.imports.filter(|i: ImportDef| i.kind is Tag)
}

proof fn tags_are_imports(imports: Seq<ImportDef>)
    ensures
        imported_tags(imports).len() == imports.filter(|i: ImportDef| i.kind is Tag).len(),
        forall|k: int|
            0 <= k < imported_tags(imports).len() ==> (#[trigger] imported_tags(imports)[k]).0 == imports.filter(
                |i: ImportDef| i.kind is Tag,
            )[k] && imported_tags(imports)[k].0.kind == ImportKind::Tag(imported_tags(imports)[k].1),
    decreases imports.len(),
{
    reveal(Seq::filter);
    if imports.len() > 0 {
        tags_are_imports(imports.drop_last());
    }
}

/// Whether an import has the names of another.
pub open spec fn same_names(m: Module, x: ImportDef, y: ImportDef) -> bool {
    &&& m.name(x.module_name_offset as int, x.module_name_len as int) == m.name(
        y.module_name_offset as int,
        y.module_name_len as int,
    )
    &&& m.name(x.field_name_offset as int, x.field_name_len as int) == m.name(
        y.field_name_offset as int,
        y.field_name_len as int,
    )
}

/// Two different tag indices of which at least one is not that of an imported tag never
/// stand for the same tag.
pub proof fn defined_tags_stay_apart(m: Module, a: u32, b: u32)
    requires
        a != b,
        a >= tag_imports(m).len() || b >= tag_imports(m).len(),
    ensures
        !same_tag(m, a, b),
{
    tags_are_imports(m.imports);
}

/// Two different imported tags are the same exactly where their module names and their
/// field names are.
pub proof fn imported_tags_go_by_name(m: Module, a: u32, b: u32)
    requires
        a != b,
        a < tag_imports(m).len(),
        b < tag_imports(m).len(),
    ensures
        same_tag(m, a, b) <==> same_names(m, tag_imports(m)[a as int], tag_imports(m)[b as int]),
{
    tags_are_imports(m.imports);
}

/// An exception carries as many values as the type of its tag has parameters: an imported
/// tag names its type in its import, a defined one in the tag section.
pub proof fn tags_carry_their_parameters(m: Module, tag: u32)
    ensures
        ({
            let n = tag_imports(m).len();
            let ti = if tag < n {
                Some(tag_imports(m)[tag as int].kind->Tag_0)
            } else if tag - n < m.tag_types.len() {
                Some(m.tag_types[tag - n])
            } else {
                None
            };
            &&& tag_type(m, tag) == ti
            &&& ti is Some && ti->Some_0 < m.func_types.len() ==> tag_arity(m, tag)
                == m.func_types[ti->Some_0 as int].params.len()
            &&& ti is None || ti->Some_0 >= m.func_types.len() ==> tag_arity(m, tag) == 0
        }),
{
    tags_are_imports(m.imports);
}

// ---------------------------------------------------------------------------
// Handlers

/// Whether a clause catches an exception: all of them (kinds two and three), or those with
/// its tag (kinds zero and one).
pub open spec fn admits(m: Module, c: CatchClause, tag: u32) -> bool {
    c.kind == 2 || c.kind == 3 || ((c.kind == 0 || c.kind == 1) && (c.tag_idx == tag || (c.tag_idx < tag_imports(
        m,
    ).len() && tag < tag_imports(m).len() && same_names(
        m,
        tag_imports(m)[c.tag_idx as int],
        tag_imports(m)[tag as int],
    ))))
}

proof fn admitted(m: Module, b: Block, ci: int, tag: u32)
    ensures
        clause_catches(m, b, ci, tag) == admits(m, b.catches[ci], tag),
{
    let c = b.catches[ci];
    if c.tag_idx != tag {
        if c.tag_idx >= tag_imports(m).len() || tag >= tag_imports(m).len() {
            defined_tags_stay_apart(m, c.tag_idx, tag);
        } else {
            imported_tags_go_by_name(m, c.tag_idx, tag);
        }
    }
}

proof fn first_clause_admits(m: Module, b: Block, from: int, tag: u32)
    requires
        0 <= from,
    ensures
        match first_clause(m, b, from, tag) {
            Some(ci) => {
                &&& from <= ci < b.catches.len()
                &&& admits(m, b.catches[ci], tag)
                &&& forall|k: int| from <= k < ci ==> !admits(m, #[trigger] b.catches[k], tag)
            },
            None => forall|k: int| from <= k < b.catches.len() ==> !admits(m, #[trigger] b.catches[k], tag),
        },
    decreases b.catches.len() - from,
{
    if from < b.catches.len() {
        admitted(m, b, from, tag);
        if !clause_catches(m, b, from, tag) {
            first_clause_admits(m, b, from + 1, tag);
        }
    }
}

/// A `try_table` block hands an exception to the first of its clauses that catches it, and
/// lets it pass where none does. In particular an exception whose tag the module defines
/// is caught only by clauses with that very tag and by those that catch all.
pub proof fn clauses_are_tried_in_order(m: Module, b: Block, tag: u32)
    requires
        b.is_try_table,
        !b.is_legacy_try,
    ensures
        match reaction(m, b, tag) {
            Reaction::Handle(ci) => {
                &&& 0 <= ci < b.catches.len()
                &&& admits(m, b.catches[ci], tag)
                &&& forall|k: int| 0 <= k < ci ==> !admits(m, #[trigger] b.catches[k], tag)
                &&& tag >= tag_imports(m).len() ==> b.catches[ci].tag_idx == tag || b.catches[ci].kind >= 2
            },
            Reaction::Pass(n) => n == 0 && forall|k: int|
                0 <= k < b.catches.len() ==> !admits(m, #[trigger] b.catches[k], tag),
        },
{
    first_clause_admits(m, b, 0, tag);
}

/// Whether the handler of a legacy `try` block catches an exception: all of them (the
/// highest index), or those with its tag.
pub open spec fn takes(m: Module, h: u32, tag: u32) -> bool {
    h == u32::MAX || h == tag || (h < tag_imports(m).len() && tag < tag_imports(m).len() && same_names(
        m,
        tag_imports(m)[h as int],
        tag_imports(m)[tag as int],
    ))
}

proof fn first_handler_takes(m: Module, b: Block, from: int, tag: u32)
    requires
        0 <= from,
    ensures
        match first_handler(m, b, from, tag) {
            Some(ci) => {
                &&& from <= ci < b.legacy_catches.len()
                &&& takes(m, b.legacy_catches[ci].tag_idx, tag)
                &&& forall|k: int| from <= k < ci ==> !takes(m, (#[trigger] b.legacy_catches[k]).tag_idx, tag)
            },
            None => forall|k: int|
                from <= k < b.legacy_catches.len() ==> !takes(m, (#[trigger] b.legacy_catches[k]).tag_idx, tag),
        },
    decreases b.legacy_catches.len() - from,
{
    if from < b.legacy_catches.len() {
        let h = b.legacy_catches[from].tag_idx;
        if h != tag {
            if h >= tag_imports(m).len() || tag >= tag_imports(m).len() {
                defined_tags_stay_apart(m, h, tag);
            } else {
                imported_tags_go_by_name(m, h, tag);
            }
        }
        if !takes(m, h, tag) {
            first_handler_takes(m, b, from + 1, tag);
        }
    }
}

/// A legacy `try` block hands an exception to the first of its handlers that catches it. A
/// block that delegates passes it on, together with as many blocks around as its label
/// says.
pub proof fn handlers_are_tried_in_order(m: Module, b: Block, tag: u32)
    requires
        b.is_legacy_try,
    ensures
        b.legacy_delegate_label != u32::MAX ==> reaction(m, b, tag) == Reaction::Pass(b.legacy_delegate_label as int),
        b.legacy_delegate_label == u32::MAX ==> match reaction(m, b, tag) {
            Reaction::Handle(ci) => {
                &&& 0 <= ci < b.legacy_catches.len()
                &&& takes(m, b.legacy_catches[ci].tag_idx, tag)
                &&& forall|k: int| 0 <= k < ci ==> !takes(m, (#[trigger] b.legacy_catches[k]).tag_idx, tag)
            },
            Reaction::Pass(n) => n == 0 && forall|k: int|
                0 <= k < b.legacy_catches.len() ==> !takes(m, (#[trigger] b.legacy_catches[k]).tag_idx, tag),
        },
{
    first_handler_takes(m, b, 0, tag);
}

/// A block that is no `try` block lets every exception pass.
pub proof fn plain_blocks_catch_nothing(m: Module, b: Block, tag: u32)
    requires
        !b.is_try_table,
        !b.is_legacy_try,
    ensures
        reaction(m, b, tag) == Reaction::Pass(0),
{
}

/// Where no block delegates, the innermost block that handles an exception gets it: all
/// blocks within it let it pass.
pub proof fn innermost_handler_wins(m: Machine, idx: int, base: int, tag: u32)
    requires
        0 <= base,
        forall|j: int| base <= j < idx ==> (#[trigger] m.frames.blocks[j]).legacy_delegate_label == u32::MAX,
    ensures
        match handler(m, idx, base, tag) {
            Some((i, ci)) => {
                &&& base <= i < idx
                &&& reaction(m.store.module, m.frames.blocks[i], tag) == Reaction::Handle(ci)
                &&& forall|j: int|
                    i < j < idx ==> reaction(m.store.module, #[trigger] m.frames.blocks[j], tag) == Reaction::Pass(0)
            },
            None => forall|j: int|
                base <= j < idx ==> reaction(m.store.module, #[trigger] m.frames.blocks[j], tag) == Reaction::Pass(0),
        },
    decreases idx,
{
    if idx > base && idx > 0 {
        let b = m.frames.blocks[idx - 1];
        match reaction(m.store.module, b, tag) {
            Reaction::Handle(_) => {},
            Reaction::Pass(n) => {
                assert(n == 0);
                innermost_handler_wins(m, idx - 1, base, tag);
            },
        }
    }
}

// ---------------------------------------------------------------------------
// Throwing

/// `throw` takes the values of its tag off the operand stack, the topmost last, and throws
/// them.
pub proof fn throw_takes_values(m: Machine, tag: u32, at: int)
    requires
        faces(m, 0x08),
        leb_u32(m.store.module.code, m.pc + 1) == (Ok::<u32, WasmError>(tag), at),
    ensures
        ({
            let n = tag_arity(m.store.module, tag);
            let r = step(m);
            if m.stack_ptr < n {
                r.1 == Outcome::Trap(WasmError::StackUnderflow)
            } else {
                &&& r.0 == consumed(m, n, at)
                &&& r.1 is Exception
                &&& r.1->Exception_0 == tag
                &&& r.1->Exception_1.len() == n
                &&& forall|k: int|
                    0 <= k < n ==> #[trigger] r.1->Exception_1[k] == m.stack[m.stack_ptr - n + k]
            }
        }),
{
    reveal(instruction);
    step_executes(m, 0x08);
    if m.stack_ptr >= tag_arity(m.store.module, tag) {
        assert(step(m).0 =~= consumed(m, tag_arity(m.store.module, tag), at));
    }
}

/// An exception that no block of any call catches ends the run: every call is left.
pub proof fn uncaught_exception_ends_the_run(m: Machine)
    requires
        step(m).1 is Exception,
        !thrown(step(m).0, step(m).1->Exception_0, step(m).1->Exception_1).1,
    ensures
        run(m).1 == step(m).1,
{
}

/// A machine whose innermost call has no handler leaves that call and looks in the caller.
pub proof fn exceptions_leave_calls(m: Machine, tag: u32, values: Seq<Value>)
    requires
        m.valid(),
        handler(m, m.frames.block_depth, m.block_base(), tag) is None,
    ensures
        m.frames.call_depth == 0 ==> thrown(m, tag, values) == (m, false),
        m.frames.call_depth == 1 ==> !thrown(m, tag, values).1 && thrown(m, tag, values).0.frames.call_depth == 0,
        m.frames.call_depth > 1 ==> {
            let f = m.frames.calls[m.frames.call_depth - 1];
            let caller = Machine {
                stack_ptr: f.stack_base as int,
                pc: f.return_pc as int,
                frames: crate::machine::Frames {
                    call_depth: m.frames.call_depth - 1,
                    block_depth: f.saved_block_depth as int,
                    ..m.frames
                },
                ..m
            };
            thrown(m, tag, values) == thrown(caller, tag, values)
        },
{
}

/// A clause that catches goes on behind the block that its label names, counted from the
/// `try_table` block outwards, with the values of the exception (kinds zero and one) and
/// the exception itself (kinds one and three) on the operand stack, no more and no less.
pub proof fn caught_values_arrive(m: Machine, i: int, ci: int, tag: u32, values: Seq<Value>)
    requires
        m.valid(),
        handler(m, m.frames.block_depth, m.block_base(), tag) == Some((i, ci)),
        0 <= i < m.frames.block_depth,
        !m.frames.blocks[i].is_legacy_try,
        0 <= ci < m.frames.blocks[i].catches.len(),
        m.frames.blocks[i].stack_base + values.len() < MAX_STACK,
        ({
            let c = m.frames.blocks[i].catches[ci];
            let t = m.frames.blocks[i - 1 - c.label];
            &&& c.kind <= 3
            &&& c.label < i - m.block_base()
            &&& !t.is_loop
            &&& t.stack_base + values.len() < MAX_STACK
            &&& t.result_count == (if c.kind <= 1 {
                values.len() as int
            } else {
                0
            }) + (if c.kind == 1 || c.kind == 3 {
                1int
            } else {
                0
            })
        }),
        m.block_base() >= 0,
    ensures
        ({
            let c = m.frames.blocks[i].catches[ci];
            let t = m.frames.blocks[i - 1 - c.label];
            let r = thrown(m, tag, values);
            let base = t.stack_base as int;
            &&& r.1
            &&& r.0.pc == t.end_pc
            &&& r.0.frames.block_depth == i - 1 - c.label
            &&& r.0.frames.call_depth == m.frames.call_depth
            &&& r.0.stack_ptr == base + t.result_count
            &&& c.kind <= 1 ==> forall|k: int|
                0 <= k < values.len() ==> #[trigger] r.0.stack[base + k] == values[k]
            &&& c.kind == 1 || c.kind == 3 ==> r.0.stack[r.0.stack_ptr - 1] == Value::I32(tag as i32)
        }),
{
}

} // verus!
