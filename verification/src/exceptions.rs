//! Exception tags and the search for a handler.

use vstd::prelude::*;
use crate::calls::{branch, frame_dropped};
use crate::machine::{least, Block, BlockFrame, Machine, WasmInstance, MAX_EXCEPTION_VALUES};
use crate::module::{bytes_equal, group_views, ImportDef, ImportKind, Module, WasmModule};
use crate::types::Value;

verus! {

broadcast use group_views;

/// The tag imports among `imports`, in order, with their type indices.
pub open spec fn imported_tags(imports: Seq<ImportDef>) -> Seq<(ImportDef, u32)>
    decreases imports.len(),
{
    if imports.len() == 0 {
        Seq::empty()
    } else {
        let rest = imported_tags(imports.drop_last());
        match imports.last().kind {
            ImportKind::Tag(ti) => rest.push((imports.last(), ti)),
            _ => rest,
        }
    }
}

/// The type index of a tag. Imported tags come first.
pub open spec fn tag_type(m: Module, tag: u32) -> Option<u32> {
    let imported = imported_tags(m.imports);
    if tag < imported.len() {
        Some(imported[tag as int].1)
    } else if tag - imported.len() < m.tag_types.len() {
        Some(m.tag_types[tag - imported.len()])
    } else {
        None
    }
}

/// The number of values that an exception with this tag carries.
pub open spec fn tag_arity(m: Module, tag: u32) -> int {
    match tag_type(m, tag) {
        Some(ti) if ti < m.func_types.len() => m.func_types[ti as int].params.len() as int,
        _ => 0,
    }
}

/// The names under which a tag is imported.
pub open spec fn tag_names(m: Module, tag: u32) -> Option<(Seq<u8>, Seq<u8>)> {
    let imported = imported_tags(m.imports);
    if tag < imported.len() {
        let i = imported[tag as int].0;
        Some(
            (
                m.name(i.module_name_offset as int, i.module_name_len as int),
                m.name(i.field_name_offset as int, i.field_name_len as int),
            ),
        )
    } else {
        None
    }
}

/// Whether two tag indices stand for one tag: they are equal, or both are imported
/// under the same names.
pub open spec fn same_tag(m: Module, a: u32, b: u32) -> bool {
    a == b || (tag_names(m, a) is Some && tag_names(m, a) == tag_names(m, b))
}

/// `same_tag` is an equivalence: every tag is the same as itself.
pub proof fn same_tag_reflexive(m: Module, a: u32)
    ensures
        same_tag(m, a, a),
{
}

/// `same_tag` is an equivalence: it does not depend on the order.
pub proof fn same_tag_symmetric(m: Module, a: u32, b: u32)
    ensures
        same_tag(m, a, b) == same_tag(m, b, a),
{
}

/// `same_tag` is an equivalence: tags that are the same as a third are the same.
pub proof fn same_tag_transitive(m: Module, a: u32, b: u32, c: u32)
    requires
        same_tag(m, a, b),
        same_tag(m, b, c),
    ensures
        same_tag(m, a, c),
{
}

proof fn tags_prefix(imports: Seq<ImportDef>, i: int)
    requires
        0 <= i <= imports.len(),
    ensures
        imported_tags(imports.take(i)).len() <= i,
        imported_tags(imports.take(i)).is_prefix_of(imported_tags(imports)),
    decreases imports.len() - i,
{
    if i < imports.len() {
        tags_prefix(imports, i + 1);
        assert(imports.take(i + 1).drop_last() =~= imports.take(i));
        assert(imported_tags(imports.take(i)).is_prefix_of(imported_tags(imports.take(i + 1))));
        tags_at_most(imports.take(i));
    } else {
        assert(imports.take(i) =~= imports);
        tags_at_most(imports);
    }
}

proof fn tags_at_most(imports: Seq<ImportDef>)
    ensures
        imported_tags(imports).len() <= imports.len(),
    decreases imports.len(),
{
    if imports.len() > 0 {
        tags_at_most(imports.drop_last());
    }
}

/// Where the tag import numbered `tag` is found, or else how many there are.
enum TagImport {
    At(usize, u32),
    Count(usize),
}

fn find_tag_import(m: &WasmModule, tag: u32) -> (r: TagImport)
    ensures
        match r {
            TagImport::At(i, ti) => {
                &&& i < m.imports@.len()
                &&& tag < imported_tags(m.imports@).len()
                &&& imported_tags(m.imports@)[tag as int] == (m.imports@[i as int], ti)
            },
            TagImport::Count(n) => n == imported_tags(m.imports@).len() && n <= tag,
        },
{
    let mut count: usize = 0;
    let mut i: usize = 0;
    while i < m.imports.len()
        invariant
            i <= m.imports@.len(),
            count == imported_tags(m.imports@.take(i as int)).len(),
            count <= tag,
        decreases m.imports@.len() - i,
    {
        proof {
            assert(m.imports@.take(i + 1).drop_last() =~= m.imports@.take(i as int));
            tags_prefix(m.imports@, i + 1);
        }
        match m.imports[i].kind {
            ImportKind::Tag(ti) => {
                if count == tag as usize {
                    proof {
                        let upto = imported_tags(m.imports@.take(i + 1));
                        let all = imported_tags(m.imports@);
                        assert(upto[count as int] == (m.imports@[i as int], ti));
                        assert(upto == all.subrange(0, upto.len() as int));
                    }
                    return TagImport::At(i, ti);
                }
                count = count + 1;
            },
            _ => {},
        }
        i = i + 1;
    }
    assert(m.imports@.take(i as int) =~= m.imports@);
    TagImport::Count(count)
}

/// The type index of a tag.
pub fn tag_type_idx(m: &WasmModule, tag: u32) -> (r: Option<u32>)
    ensures
        r == tag_type(m@, tag),
{
    match find_tag_import(m, tag) {
        TagImport::At(_, ti) => Some(ti),
        TagImport::Count(n) => {
            let local: usize = tag as usize - n;
            if local < m.tag_types.len() {
                Some(m.tag_types[local])
            } else {
                None
            }
        },
    }
}

/// The number of values that an exception with this tag carries.
pub fn tag_param_count(m: &WasmModule, tag: u32) -> (r: usize)
    requires
        m.wf(),
    ensures
        r == tag_arity(m@, tag),
        r <= crate::types::MAX_PARAMS,
{
    match tag_type_idx(m, tag) {
        Some(ti) => {
            if (ti as usize) < m.func_types.len() {
                assert(m.func_types@[ti as int].wf());
                m.func_types[ti as usize].param_count as usize
            } else {
                0
            }
        },
        None => 0,
    }
}

/// Whether two tag indices stand for one tag.
pub fn tags_match(m: &WasmModule, a: u32, b: u32) -> (r: bool)
    ensures
        r == same_tag(m@, a, b),
{
    if a == b {
        return true;
    }
    match find_tag_import(m, a) {
        TagImport::At(i, _) => match find_tag_import(m, b) {
            TagImport::At(j, _) => {
                let x = m.imports[i];
                let y = m.imports[j];
                bytes_equal(
                    m.get_name(x.module_name_offset, x.module_name_len),
                    m.get_name(y.module_name_offset, y.module_name_len),
                ) && bytes_equal(
                    m.get_name(x.field_name_offset, x.field_name_len),
                    m.get_name(y.field_name_offset, y.field_name_len),
                )
            },
            _ => false,
        },
        _ => false,
    }
}

// ---------------------------------------------------------------------------
// Handlers

/// Whether the handler numbered `ci` of a legacy `try` block catches a tag.
pub open spec fn legacy_catches(m: Module, b: Block, ci: int, tag: u32) -> bool {
    b.legacy_catches[ci].tag_idx == u32::MAX || same_tag(m, b.legacy_catches[ci].tag_idx, tag)
}

/// Whether the clause numbered `ci` of a `try_table` block catches a tag.
pub open spec fn clause_catches(m: Module, b: Block, ci: int, tag: u32) -> bool {
    let c = b.catches[ci];
    (c.kind <= 1 && same_tag(m, c.tag_idx, tag)) || c.kind == 2 || c.kind == 3
}

/// The first handler from `ci` on that catches a tag.
pub open spec fn first_handler(m: Module, b: Block, ci: int, tag: u32) -> Option<int>
    decreases b.legacy_catches.len() - ci,
{
    if ci >= b.legacy_catches.len() {
        None
    } else if legacy_catches(m, b, ci, tag) {
        Some(ci)
    } else {
        first_handler(m, b, ci + 1, tag)
    }
}

/// The first clause from `ci` on that catches a tag.
pub open spec fn first_clause(m: Module, b: Block, ci: int, tag: u32) -> Option<int>
    decreases b.catches.len() - ci,
{
    if ci >= b.catches.len() {
        None
    } else if clause_catches(m, b, ci, tag) {
        Some(ci)
    } else {
        first_clause(m, b, ci + 1, tag)
    }
}

/// What a block does with an exception.
pub enum Reaction {
    /// Hands it to the handler or clause with this number.
    Handle(int),
    /// Lets it pass, together with this many blocks around.
    Pass(int),
}

/// What the block `b` does with an exception.
pub open spec fn reaction(m: Module, b: Block, tag: u32) -> Reaction {
    if b.is_legacy_try {
        if b.legacy_delegate_label != u32::MAX {
            Reaction::Pass(b.legacy_delegate_label as int)
        } else {
            match first_handler(m, b, 0, tag) {
                Some(ci) => Reaction::Handle(ci),
                None => Reaction::Pass(0),
            }
        }
    } else if b.is_try_table {
        match first_clause(m, b, 0, tag) {
            Some(ci) => Reaction::Handle(ci),
            None => Reaction::Pass(0),
        }
    } else {
        Reaction::Pass(0)
    }
}

/// The innermost of the blocks from `base` up to `idx` that handles an exception,
/// with the handler or clause.
pub open spec fn handler(m: Machine, idx: int, base: int, tag: u32) -> Option<(int, int)>
    decreases idx,
{
    if idx <= base || idx <= 0 {
        None
    } else {
        match reaction(m.store.module, m.frames.blocks[idx - 1], tag) {
            Reaction::Handle(ci) => Some((idx - 1, ci)),
            Reaction::Pass(skip) => if 0 <= skip <= idx - 1 {
                handler(m, idx - 1 - skip, base, tag)
            } else {
                None
            },
        }
    }
}

/// The machine when the handler numbered `ci` of the legacy `try` block numbered `i`
/// takes over.
pub open spec fn legacy_caught(m: Machine, i: int, ci: int, tag: u32, values: Seq<Value>) -> Machine {
    let b = m.frames.blocks[i];
    let h = b.legacy_catches[ci];
    let frame = Block {
        is_legacy_try: true,
        legacy_exception_tag: tag,
        legacy_exception_values: values.take(least(values.len() as int, MAX_EXCEPTION_VALUES as int)),
        ..Block::plain(h.handler_pc, b.end_pc, b.stack_base, b.result_count, b.end_result_count, false)
    };
    let opened = m.with_stack_ptr(b.stack_base as int).with_block_depth(i).push_block(frame).0;
    let loaded = if h.tag_idx == u32::MAX {
        opened
    } else {
        opened.placed(b.stack_base as int, values)
    };
    loaded.at(h.handler_pc as int)
}

/// The machine when the clause numbered `ci` of the `try_table` block numbered `i`
/// takes over, and whether its label exists.
pub open spec fn table_caught(m: Machine, i: int, ci: int, tag: u32, values: Seq<Value>) -> (Machine, bool) {
    let b = m.frames.blocks[i];
    let c = b.catches[ci];
    let left = m.with_stack_ptr(b.stack_base as int).with_block_depth(i);
    let loaded = if c.kind <= 1 {
        left.placed(b.stack_base as int, values)
    } else {
        left
    };
    let referred = if c.kind == 1 || c.kind == 3 {
        loaded.push(Value::I32(tag as i32)).0
    } else {
        loaded
    };
    let r = branch(referred, c.label);
    (r.0, r.1 is Ok)
}

/// The machine after an exception, and whether it was caught. Calls in which nothing
/// catches it are left.
pub open spec fn thrown(m: Machine, tag: u32, values: Seq<Value>) -> (Machine, bool)
    decreases m.frames.call_depth,
{
    match handler(m, m.frames.block_depth, m.block_base(), tag) {
        Some((i, ci)) => if m.frames.blocks[i].is_legacy_try {
            (legacy_caught(m, i, ci, tag, values), true)
        } else {
            table_caught(m, i, ci, tag, values)
        },
        None => if m.frames.call_depth <= 0 {
            (m, false)
        } else if m.frames.call_depth == 1 {
            (frame_dropped(m), false)
        } else {
            thrown(frame_dropped(m), tag, values)
        },
    }
}

impl WasmInstance {
    /// The first handler of a legacy `try` block that catches a tag.
    fn find_legacy_catch(&self, b: &BlockFrame, tag: u32) -> (r: Option<usize>)
        requires
            b.wf(),
        ensures
            match r {
                Some(ci) => first_handler(self.module@, b@, 0, tag) == Some(ci as int) && ci < b.legacy_catch_count,
                None => first_handler(self.module@, b@, 0, tag) is None,
            },
    {
        let mut ci: usize = 0;
        while ci < b.legacy_catch_count as usize
            invariant
                b.wf(),
                ci <= b.legacy_catch_count,
                first_handler(self.module@, b@, 0, tag) == first_handler(self.module@, b@, ci as int, tag),
            decreases b.legacy_catch_count - ci,
        {
            let c = b.legacy_catches[ci];
            assert(b@.legacy_catches[ci as int] == c);
            if c.tag_idx == u32::MAX || tags_match(&self.module, c.tag_idx, tag) {
                return Some(ci);
            }
            ci = ci + 1;
        }
        None
    }

    /// The first clause of a `try_table` block that catches a tag.
    fn find_clause(&self, b: &BlockFrame, tag: u32) -> (r: Option<usize>)
        requires
            b.wf(),
        ensures
            match r {
                Some(ci) => first_clause(self.module@, b@, 0, tag) == Some(ci as int) && ci < b.catch_count,
                None => first_clause(self.module@, b@, 0, tag) is None,
            },
    {
        let mut ci: usize = 0;
        while ci < b.catch_count as usize
            invariant
                b.wf(),
                ci <= b.catch_count,
                first_clause(self.module@, b@, 0, tag) == first_clause(self.module@, b@, ci as int, tag),
            decreases b.catch_count - ci,
        {
            let c = b.catches[ci];
            assert(b@.catches[ci as int] == c);
            if c.kind == 2 || c.kind == 3 || (c.kind <= 1 && tags_match(&self.module, c.tag_idx, tag)) {
                return Some(ci);
            }
            ci = ci + 1;
        }
        None
    }

    /// The innermost block of the innermost call that handles an exception, with the
    /// handler or clause.
    fn find_handler(&self, tag: u32) -> (r: Option<(usize, usize)>)
        requires
            self.wf(),
        ensures
            match r {
                Some((i, ci)) => {
                    &&& handler(self@, self@.frames.block_depth, self@.block_base(), tag) == Some((i as int, ci as int))
                    &&& i < self.block_depth
                    &&& if self.block_stack@[i as int].is_legacy_try {
                        ci < self.block_stack@[i as int].legacy_catch_count
                    } else {
                        ci < self.block_stack@[i as int].catch_count
                    }
                },
                None => handler(self@, self@.frames.block_depth, self@.block_base(), tag) is None,
            },
    {
        let base: usize = self.block_base();
        let mut idx: usize = self.block_depth;
        while idx > base
            invariant
                self.wf(),
                base == self@.block_base(),
                idx <= self.block_depth,
                handler(self@, self@.frames.block_depth, self@.block_base(), tag) == handler(
                    self@,
                    idx as int,
                    base as int,
                    tag,
                ),
            decreases idx,
        {
            let i: usize = idx - 1;
            let b = self.block_stack[i];
            assert(self.block_stack@[i as int].wf());
            assert(self@.frames.blocks[i as int] == b@);
            let mut skip: usize = 0;
            if b.is_legacy_try {
                if b.legacy_delegate_label != u32::MAX {
                    skip = b.legacy_delegate_label as usize;
                } else if let Some(ci) = self.find_legacy_catch(&b, tag) {
                    return Some((i, ci));
                }
            } else if b.is_try_table {
                if let Some(ci) = self.find_clause(&b, tag) {
                    return Some((i, ci));
                }
            }
            if skip > i {
                return None;
            }
            idx = i - skip;
        }
        None
    }

    /// Hands an exception to a handler of a legacy `try` block.
    fn catch_legacy(&mut self, i: usize, ci: usize, tag: u32, values: &Vec<Value>)
        requires
            old(self).wf(),
            i < old(self).block_depth,
            ci < old(self).block_stack@[i as int].legacy_catch_count,
        ensures
            final(self)@ == legacy_caught(old(self)@, i as int, ci as int, tag, values@),
            final(self).wf(),
    {
        let b = self.block_stack[i];
        assert(self.block_stack@[i as int].wf());
        assert(self@.frames.blocks[i as int] == b@);
        let h = b.legacy_catches[ci];
        assert(b@.legacy_catches[ci as int] == h);
        self.stack_ptr = b.stack_base;
        self.block_depth = i;
        let mut frame = BlockFrame::plain(
            h.handler_pc,
            b.end_pc,
            b.stack_base,
            b.result_count,
            b.end_result_count,
            false,
        );
        frame.is_legacy_try = true;
        frame.legacy_exception_tag = tag;
        let n: usize = if values.len() < MAX_EXCEPTION_VALUES {
            values.len()
        } else {
            MAX_EXCEPTION_VALUES
        };
        let ghost plain = frame;
        let mut kept = frame.legacy_exception_values;
        let mut k: usize = 0;
        while k < n
            invariant
                k <= n <= MAX_EXCEPTION_VALUES,
                n <= values@.len(),
                kept@.take(k as int) == values@.take(k as int),
            decreases n - k,
        {
            kept[k] = values[k];
            k = k + 1;
            assert(kept@.take(k as int) =~= values@.take(k as int));
        }
        frame.legacy_exception_values = kept;
        frame.legacy_exception_value_count = n as u8;
        let ghost want = Block {
            is_legacy_try: true,
            legacy_exception_tag: tag,
            legacy_exception_values: values@.take(least(values@.len() as int, MAX_EXCEPTION_VALUES as int)),
            ..Block::plain(h.handler_pc, b.end_pc, b.stack_base, b.result_count, b.end_result_count, false)
        };
        assert(frame@ =~= want);
        let _ = self.push_block(frame);
        if h.tag_idx != u32::MAX {
            self.place(b.stack_base, values.as_slice(), values.len());
            assert(values@.take(values@.len() as int) =~= values@);
        }
        self.pc = h.handler_pc;
    }

    /// Hands an exception to a clause of a `try_table` block. Returns whether its
    /// label exists.
    fn catch_table(&mut self, i: usize, ci: usize, tag: u32, values: &Vec<Value>) -> (r: bool)
        requires
            old(self).wf(),
            i < old(self).block_depth,
            ci < old(self).block_stack@[i as int].catch_count,
        ensures
            (final(self)@, r) == table_caught(old(self)@, i as int, ci as int, tag, values@),
            final(self).wf(),
    {
        let b = self.block_stack[i];
        assert(self.block_stack@[i as int].wf());
        assert(self@.frames.blocks[i as int] == b@);
        let c = b.catches[ci];
        assert(b@.catches[ci as int] == c);
        self.stack_ptr = b.stack_base;
        self.block_depth = i;
        if c.kind <= 1 {
            self.place(b.stack_base, values.as_slice(), values.len());
            assert(values@.take(values@.len() as int) =~= values@);
        }
        if c.kind == 1 || c.kind == 3 {
            let _ = self.push(Value::I32(tag as i32));
        }
        match self.branch(c.label) {
            Ok(_) => true,
            Err(_) => false,
        }
    }

    /// Looks for a handler of an exception, leaving the calls that have none. Returns
    /// whether one took over.
    pub fn handle_exception(&mut self, tag: u32, values: &Vec<Value>) -> (r: bool)
        requires
            old(self).wf(),
        ensures
            (final(self)@, r) == thrown(old(self)@, tag, values@),
            final(self).wf(),
    {
        loop
            invariant
                self.wf(),
                thrown(old(self)@, tag, values@) == thrown(self@, tag, values@),
            decreases self.call_depth,
        {
            if let Some((i, ci)) = self.find_handler(tag) {
                assert(self@.frames.blocks[i as int] == self.block_stack@[i as int]@);
                if self.block_stack[i].is_legacy_try {
                    self.catch_legacy(i, ci, tag, values);
                    return true;
                }
                return self.catch_table(i, ci, tag, values);
            }
            if self.call_depth == 0 {
                return false;
            }
            self.drop_frame();
            if self.call_depth == 0 {
                return false;
            }
        }
    }
}

} // verus!
