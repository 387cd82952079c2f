//! The state of a running instance, its model, and the primitive operations on it.

use vstd::prelude::*;
use crate::init_expr::read_v128_at;
use crate::bytes::{le_u32, le_u64, read_u32, read_u64};
use crate::module::{views, Module, WasmModule};
use crate::reader::{
    byte_at, decode_leb128_i32, decode_leb128_i64, decode_leb128_u32, group_leb_moves, leb_i32, leb_i64, leb_u32,
    read_byte,
};
use crate::types::{
    copied, v128_of, RuntimeClass, Value, WasmError, MAX_BLOCK_DEPTH, MAX_CALL_DEPTH, MAX_PARAMS, MAX_RESULTS,
    MAX_STACK, V128,
};

verus! {

broadcast use group_leb_moves;

/// Most catch clauses kept of one `try_table` block.
pub const MAX_CATCH_CLAUSES: usize = 8;

/// Most handlers kept of one legacy `try` block.
pub const MAX_LEGACY_CATCHES: usize = 8;

/// Most exception values kept for a rethrow.
pub const MAX_EXCEPTION_VALUES: usize = 4;

/// Most locals over all active calls.
pub const MAX_TOTAL_LOCALS: usize = 65_536;

/// Room kept above the code, so that a position a few immediates past its end is
/// still a number.
pub const CODE_MARGIN: usize = 64;

/// An active call.
#[derive(Debug, Clone, Copy, PartialEq, Eq)]
pub struct CallFrame {
    pub func_idx: u32,
    /// Where the caller goes on.
    pub return_pc: usize,
    /// Where the code of the function starts.
    pub code_offset: usize,
    /// Where the code of the function ends.
    pub code_end: usize,
    /// First local of the call.
    pub local_base: usize,
    /// Number of locals, parameters among them.
    pub local_count: usize,
    /// Operand-stack depth at entry.
    pub stack_base: usize,
    pub result_count: u8,
    /// The caller's block depth.
    pub saved_block_depth: usize,
    /// First block of the call.
    pub block_stack_base: usize,
}

impl CallFrame {
    /// The frame of all zeros.
    pub open spec fn blank() -> CallFrame {
        CallFrame {
            func_idx: 0,
            return_pc: 0,
            code_offset: 0,
            code_end: 0,
            local_base: 0,
            local_count: 0,
            stack_base: 0,
            result_count: 0,
            saved_block_depth: 0,
            block_stack_base: 0,
        }
    }

    /// The frame of all zeros.
    pub fn zero() -> (r: Self)
        ensures
            r == CallFrame::blank(),
    {
        CallFrame {
            func_idx: 0,
            return_pc: 0,
            code_offset: 0,
            code_end: 0,
            local_base: 0,
            local_count: 0,
            stack_base: 0,
            result_count: 0,
            saved_block_depth: 0,
            block_stack_base: 0,
        }
    }

    /// What a frame saves stays within the instance's limits.
    pub open spec fn wf(self) -> bool {
        &&& self.local_base + self.local_count <= MAX_TOTAL_LOCALS
        &&& self.stack_base <= MAX_STACK
        &&& self.result_count <= MAX_RESULTS
        &&& self.saved_block_depth <= MAX_BLOCK_DEPTH
        &&& self.block_stack_base <= MAX_BLOCK_DEPTH
    }
}

/// A catch clause of a `try_table` block.
#[derive(Debug, Clone, Copy, PartialEq, Eq)]
pub struct CatchClause {
    /// 0 catches a tag, 1 a tag with a reference, 2 all, 3 all with a reference.
    pub kind: u8,
    pub tag_idx: u32,
    pub label: u32,
}

impl CatchClause {
    fn zero() -> (r: Self)
        ensures
            r == (CatchClause { kind: 0, tag_idx: 0, label: 0 }),
    {
        CatchClause { kind: 0, tag_idx: 0, label: 0 }
    }
}

/// A handler of a legacy `try` block.
#[derive(Debug, Clone, Copy, PartialEq, Eq)]
pub struct LegacyCatch {
    /// First instruction of the handler.
    pub handler_pc: usize,
    /// Tag caught; the highest number catches all.
    pub tag_idx: u32,
}

impl LegacyCatch {
    fn zero() -> (r: Self)
        ensures
            r == (LegacyCatch { handler_pc: 0, tag_idx: 0 }),
    {
        LegacyCatch { handler_pc: 0, tag_idx: 0 }
    }
}

/// An open block.
#[derive(Debug, Clone, Copy, PartialEq, Eq)]
pub struct BlockFrame {
    /// Where a branch to a loop goes.
    pub start_pc: usize,
    /// Where a branch to any other block goes.
    pub end_pc: usize,
    /// Operand-stack depth at entry, below the parameters.
    pub stack_base: usize,
    /// Number of values that a branch carries.
    pub result_count: u8,
    /// Number of values at the end of the block.
    pub end_result_count: u8,
    pub is_loop: bool,
    pub is_try_table: bool,
    pub catch_count: u8,
    pub catches: [CatchClause; MAX_CATCH_CLAUSES],
    pub is_legacy_try: bool,
    pub legacy_catch_count: u8,
    pub legacy_catches: [LegacyCatch; MAX_LEGACY_CATCHES],
    /// Tag of the exception being handled; the highest number for none.
    pub legacy_exception_tag: u32,
    pub legacy_exception_values: [Value; MAX_EXCEPTION_VALUES],
    pub legacy_exception_value_count: u8,
    /// Label delegated to; the highest number for none.
    pub legacy_delegate_label: u32,
}

/// Model of [`BlockFrame`].
#[verifier::ext_equal]
pub struct Block {
    pub start_pc: usize,
    pub end_pc: usize,
    pub stack_base: usize,
    pub result_count: u8,
    pub end_result_count: u8,
    pub is_loop: bool,
    pub is_try_table: bool,
    pub catches: Seq<CatchClause>,
    pub is_legacy_try: bool,
    pub legacy_catches: Seq<LegacyCatch>,
    pub legacy_exception_tag: u32,
    pub legacy_exception_values: Seq<Value>,
    pub legacy_delegate_label: u32,
}

impl View for BlockFrame {
    type V = Block;

    open spec fn view(&self) -> Block {
        Block {
            start_pc: self.start_pc,
            end_pc: self.end_pc,
            stack_base: self.stack_base,
            result_count: self.result_count,
            end_result_count: self.end_result_count,
            is_loop: self.is_loop,
            is_try_table: self.is_try_table,
            catches: self.catches@.take(self.catch_count as int),
            is_legacy_try: self.is_legacy_try,
            legacy_catches: self.legacy_catches@.take(self.legacy_catch_count as int),
            legacy_exception_tag: self.legacy_exception_tag,
            legacy_exception_values: self.legacy_exception_values@.take(self.legacy_exception_value_count as int),
            legacy_delegate_label: self.legacy_delegate_label,
        }
    }
}

impl Block {
    /// A block that catches nothing.
    pub open spec fn plain(
        start_pc: usize,
        end_pc: usize,
        stack_base: usize,
        result_count: u8,
        end_result_count: u8,
        is_loop: bool,
    ) -> Block {
        Block {
            start_pc,
            end_pc,
            stack_base,
            result_count,
            end_result_count,
            is_loop,
            is_try_table: false,
            catches: Seq::empty(),
            is_legacy_try: false,
            legacy_catches: Seq::empty(),
            legacy_exception_tag: u32::MAX,
            legacy_exception_values: Seq::empty(),
            legacy_delegate_label: u32::MAX,
        }
    }
}

impl BlockFrame {
    /// The counts stay within the arrays, and what is saved within the instance's
    /// limits.
    pub open spec fn wf(self) -> bool {
        &&& self.stack_base <= MAX_STACK
        &&& self.result_count <= MAX_RESULTS
        &&& self.end_result_count <= MAX_RESULTS
        &&& self.catch_count <= MAX_CATCH_CLAUSES
        &&& self.legacy_catch_count <= MAX_LEGACY_CATCHES
        &&& self.legacy_exception_value_count <= MAX_EXCEPTION_VALUES
    }

    /// A block that catches nothing.
    pub fn plain(
        start_pc: usize,
        end_pc: usize,
        stack_base: usize,
        result_count: u8,
        end_result_count: u8,
        is_loop: bool,
    ) -> (r: Self)
        requires
            stack_base <= MAX_STACK,
            result_count <= MAX_RESULTS,
            end_result_count <= MAX_RESULTS,
        ensures
            r@ == Block::plain(start_pc, end_pc, stack_base, result_count, end_result_count, is_loop),
            r.wf(),
            r.catch_count == 0,
            r.legacy_catch_count == 0,
            r.legacy_exception_value_count == 0,
    {
        let r = BlockFrame {
            start_pc,
            end_pc,
            stack_base,
            result_count,
            end_result_count,
            is_loop,
            is_try_table: false,
            catch_count: 0,
            catches: [CatchClause::zero();MAX_CATCH_CLAUSES],
            is_legacy_try: false,
            legacy_catch_count: 0,
            legacy_catches: [LegacyCatch::zero();MAX_LEGACY_CATCHES],
            legacy_exception_tag: u32::MAX,
            legacy_exception_values: [Value::I32(0);MAX_EXCEPTION_VALUES],
            legacy_exception_value_count: 0,
            legacy_delegate_label: u32::MAX,
        };
        assert(r@ =~= Block::plain(start_pc, end_pc, stack_base, result_count, end_result_count, is_loop));
        r
    }
}

/// A floating-point computation that the embedder performs.
#[derive(Debug, Clone, Copy, PartialEq, Eq)]
pub enum FloatCall {
    /// The scalar instruction with this opcode on one operand.
    Unary(u8, Value),
    /// The scalar instruction with this opcode on two operands.
    Binary(u8, Value, Value),
    /// The vector instruction with this number on up to three operands; operands
    /// that it does not take are zero.
    Simd(u32, V128, V128, V128),
}

/// How a run ended or why it paused.
#[derive(Debug)]
pub enum ExecResult {
    /// Done, or one instruction carried out.
    Completed,
    /// The outermost function returned this value.
    Returned(Value),
    OutOfFuel,
    Trap(WasmError),
    /// A host function is to be called: import, arguments, argument count.
    HostCall(u32, [Value; MAX_PARAMS], u8),
    /// An exception that nothing caught: tag and values.
    Exception(u32, Vec<Value>),
    /// A floating-point result is to be computed; the run goes on when it is handed
    /// back.
    Float(FloatCall),
}

/// Model of [`ExecResult`].
#[verifier::ext_equal]
pub enum Outcome {
    Completed,
    Returned(Value),
    OutOfFuel,
    Trap(WasmError),
    HostCall(u32, Seq<Value>, u8),
    Exception(u32, Seq<Value>),
    Float(FloatCall),
}

impl View for ExecResult {
    type V = Outcome;

    open spec fn view(&self) -> Outcome {
        match *self {
            ExecResult::Completed => Outcome::Completed,
            ExecResult::Returned(v) => Outcome::Returned(v),
            ExecResult::OutOfFuel => Outcome::OutOfFuel,
            ExecResult::Trap(e) => Outcome::Trap(e),
            ExecResult::HostCall(i, args, n) => Outcome::HostCall(i, args@, n),
            ExecResult::Exception(t, v) => Outcome::Exception(t, v@),
            ExecResult::Float(c) => Outcome::Float(c),
        }
    }
}

/// An object of the garbage-collected heap.
#[derive(Debug)]
pub enum GcObject {
    Struct { type_idx: u32, fields: Vec<Value> },
    Array { type_idx: u32, elements: Vec<Value> },
    /// An external reference seen as an internal one.
    Internalized { value: Value },
    /// An internal reference seen as an external one.
    Externalized { value: Value },
}

/// Model of [`GcObject`].
#[verifier::ext_equal]
pub enum Object {
    Struct { type_idx: u32, fields: Seq<Value> },
    Array { type_idx: u32, elements: Seq<Value> },
    Internalized { value: Value },
    Externalized { value: Value },
}

impl View for GcObject {
    type V = Object;

    open spec fn view(&self) -> Object {
        match *self {
            GcObject::Struct { type_idx, fields } => Object::Struct { type_idx, fields: fields@ },
            GcObject::Array { type_idx, elements } => Object::Array { type_idx, elements: elements@ },
            GcObject::Internalized { value } => Object::Internalized { value },
            GcObject::Externalized { value } => Object::Externalized { value },
        }
    }
}

impl Clone for GcObject {
    fn clone(&self) -> (r: Self)
        ensures
            r@ == self@,
    {
        match self {
            GcObject::Struct { type_idx, fields } => GcObject::Struct { type_idx: *type_idx, fields: copied(fields) },
            GcObject::Array { type_idx, elements } => GcObject::Array {
                type_idx: *type_idx,
                elements: copied(elements),
            },
            GcObject::Internalized { value } => GcObject::Internalized { value: *value },
            GcObject::Externalized { value } => GcObject::Externalized { value: *value },
        }
    }
}

impl Object {
    /// The type of a struct or array; the highest number for a converted reference.
    pub open spec fn type_of(self) -> u32 {
        match self {
            Object::Struct { type_idx, .. } => type_idx,
            Object::Array { type_idx, .. } => type_idx,
            _ => u32::MAX,
        }
    }
}

impl GcObject {
    /// The type of a struct or array; the highest number for a converted reference.
    pub fn type_idx(&self) -> (r: u32)
        ensures
            r == self@.type_of(),
    {
        match self {
            GcObject::Struct { type_idx, .. } => *type_idx,
            GcObject::Array { type_idx, .. } => *type_idx,
            GcObject::Internalized { .. } | GcObject::Externalized { .. } => u32::MAX,
        }
    }
}

/// A running instance.
pub struct WasmInstance {
    pub module: WasmModule,
    pub stack: Vec<Value>,
    pub stack_ptr: usize,
    pub locals: Vec<Value>,
    pub globals: Vec<Value>,
    pub tables: Vec<Vec<Option<u32>>>,
    /// Of each table, the table it stands for, if another one.
    pub table_aliases: Vec<Option<usize>>,
    pub dropped_elems: Vec<bool>,
    pub dropped_data: Vec<bool>,
    pub memories: Vec<Vec<u8>>,
    pub memory_sizes: Vec<usize>,
    /// Position in the module's code.
    pub pc: usize,
    pub fuel: u64,
    pub call_stack: Vec<CallFrame>,
    pub call_depth: usize,
    pub block_stack: Vec<BlockFrame>,
    pub block_depth: usize,
    pub finished: bool,
    pub runtime_class: RuntimeClass,
    pub gc_heap: Vec<GcObject>,
    /// Of each element segment with expressions, the values of its items.
    pub elem_gc_values: Vec<Vec<Value>>,
}

/// The part of an instance that outlives a call.
#[verifier::ext_equal]
pub struct Store {
    pub module: Module,
    pub class: RuntimeClass,
    pub globals: Seq<Value>,
    pub tables: Seq<Seq<Option<u32>>>,
    pub table_aliases: Seq<Option<usize>>,
    pub dropped_elems: Seq<bool>,
    pub dropped_data: Seq<bool>,
    pub memories: Seq<Seq<u8>>,
    pub heap: Seq<Object>,
    pub elem_values: Seq<Seq<Value>>,
}

/// The active calls and blocks of an instance. Entries above the depths are left
/// over from earlier calls.
#[verifier::ext_equal]
pub struct Frames {
    pub locals: Seq<Value>,
    pub calls: Seq<CallFrame>,
    pub call_depth: int,
    pub blocks: Seq<Block>,
    pub block_depth: int,
}

/// Model of [`WasmInstance`]. Entries of the operand stack above `stack_ptr` are left
/// over from earlier pushes.
#[verifier::ext_equal]
pub struct Machine {
    pub stack: Seq<Value>,
    pub stack_ptr: int,
    pub pc: int,
    pub fuel: u64,
    pub finished: bool,
    pub frames: Frames,
    pub store: Store,
}

impl View for WasmInstance {
    type V = Machine;

    open spec fn view(&self) -> Machine {
        Machine {
            stack: self.stack@,
            stack_ptr: self.stack_ptr as int,
            pc: self.pc as int,
            fuel: self.fuel,
            finished: self.finished,
            frames: self.frames_view(),
            store: self.store_view(),
        }
    }
}

/// `m` with `b` written at `addr`.
pub open spec fn splice<T>(m: Seq<T>, addr: int, b: Seq<T>) -> Seq<T> {
    Seq::new(
        m.len(),
        |i: int|
            if addr <= i < addr + b.len() {
                b[i - addr]
            } else {
                m[i]
            },
    )
}

/// The smaller of two numbers.
pub open spec fn least(a: int, b: int) -> int {
    if a <= b {
        a
    } else {
        b
    }
}

/// An operation on a machine: the machine after it, and what it gives.
pub type Done<T> = (Machine, Result<T, WasmError>);

/// Goes on with `f`, unless `r` failed.
pub open spec fn follow<T, U>(r: Done<T>, f: spec_fn(Machine, T) -> Done<U>) -> Done<U> {
    match r.1 {
        Ok(v) => f(r.0, v),
        Err(e) => (r.0, Err(e)),
    }
}

impl WasmInstance {
    pub open spec fn frames_view(self) -> Frames {
        Frames {
            locals: self.locals@,
            calls: self.call_stack@,
            call_depth: self.call_depth as int,
            blocks: views(self.block_stack@),
            block_depth: self.block_depth as int,
        }
    }

    pub open spec fn store_view(self) -> Store {
        Store {
            module: self.module@,
            class: self.runtime_class,
            globals: self.globals@,
            tables: views(self.tables@),
            table_aliases: self.table_aliases@,
            dropped_elems: self.dropped_elems@,
            dropped_data: self.dropped_data@,
            memories: views(self.memories@),
            heap: views(self.gc_heap@),
            elem_values: views(self.elem_gc_values@),
        }
    }

    /// The stacks have their fixed sizes, the depths stay within them, and what the
    /// frames and blocks save stays within the limits.
    pub open spec fn stacks_wf(self) -> bool {
        &&& self.stack@.len() == MAX_STACK
        &&& self.stack_ptr <= MAX_STACK
        &&& self.locals@.len() == MAX_TOTAL_LOCALS
        &&& self.call_stack@.len() == MAX_CALL_DEPTH
        &&& self.call_depth <= MAX_CALL_DEPTH
        &&& forall|i: int| 0 <= i < MAX_CALL_DEPTH ==> (#[trigger] self.call_stack@[i]).wf()
        &&& self.block_stack@.len() == MAX_BLOCK_DEPTH
        &&& self.block_depth <= MAX_BLOCK_DEPTH
        &&& forall|i: int| 0 <= i < MAX_BLOCK_DEPTH ==> (#[trigger] self.block_stack@[i]).wf()
    }

    /// Memory sizes are recorded as they are, and aliases name tables.
    pub open spec fn store_wf(self) -> bool {
        &&& self.module.wf()
        &&& self.module.code@.len() + CODE_MARGIN <= usize::MAX
        &&& self.memory_sizes@.len() == self.memories@.len()
        &&& forall|i: int|
            0 <= i < self.memories@.len() ==> #[trigger] self.memory_sizes@[i] == self.memories@[i]@.len()
        &&& forall|i: int|
            0 <= i < self.table_aliases@.len() ==> ((#[trigger] self.table_aliases@[i]) matches Some(j) ==> j
                < self.tables@.len())
    }

    /// What every operation on an instance keeps.
    pub open spec fn wf(self) -> bool {
        self.stacks_wf() && self.store_wf()
    }
}

impl Machine {
    /// What holds of the model of every well-formed instance.
    pub open spec fn valid(self) -> bool {
        let f = self.frames;
        &&& self.stack.len() == MAX_STACK
        &&& 0 <= self.stack_ptr <= MAX_STACK
        &&& 0 <= self.pc <= usize::MAX
        &&& f.locals.len() == MAX_TOTAL_LOCALS
        &&& f.calls.len() == MAX_CALL_DEPTH
        &&& 0 <= f.call_depth <= MAX_CALL_DEPTH
        &&& forall|i: int| 0 <= i < MAX_CALL_DEPTH ==> (#[trigger] f.calls[i]).wf()
        &&& f.blocks.len() == MAX_BLOCK_DEPTH
        &&& 0 <= f.block_depth <= MAX_BLOCK_DEPTH
        &&& forall|i: int| 0 <= i < MAX_BLOCK_DEPTH ==> (#[trigger] f.blocks[i]).stack_base <= MAX_STACK
    }
}

/// The model of a well-formed instance is valid.
pub proof fn instance_is_valid(inst: WasmInstance)
    requires
        inst.wf(),
    ensures
        inst@.valid(),
{
    assert forall|i: int| 0 <= i < MAX_BLOCK_DEPTH implies (#[trigger] inst@.frames.blocks[i]).stack_base
        <= MAX_STACK by {
        assert(inst.block_stack@[i].wf());
    }
}

// ---------------------------------------------------------------------------
// Operand stack

impl Machine {
    /// Pushes a value.
    pub open spec fn push(self, v: Value) -> Done<()> {
        if self.stack_ptr >= MAX_STACK {
            (self, Err(WasmError::StackOverflow))
        } else {
            (
                Machine {
                    stack: self.stack.update(self.stack_ptr, v),
                    stack_ptr: self.stack_ptr + 1,
                    ..self
                },
                Ok(()),
            )
        }
    }

    /// Pops a value.
    pub open spec fn pop(self) -> Done<Value> {
        if self.stack_ptr == 0 {
            (self, Err(WasmError::StackUnderflow))
        } else {
            (Machine { stack_ptr: self.stack_ptr - 1, ..self }, Ok(self.stack[self.stack_ptr - 1]))
        }
    }

    /// Pops a value and reads it as an `i32`.
    pub open spec fn pop_i32(self) -> Done<i32> {
        let r = self.pop();
        match r.1 {
            Ok(v) => (r.0, Ok(v.i32_or_zero())),
            Err(e) => (r.0, Err(e)),
        }
    }

    /// Pops a value and reads it as an `i64`.
    pub open spec fn pop_i64(self) -> Done<i64> {
        let r = self.pop();
        match r.1 {
            Ok(v) => (r.0, Ok(v.i64_or_zero())),
            Err(e) => (r.0, Err(e)),
        }
    }

    /// Pops a value and reads it as a vector.
    pub open spec fn pop_v128(self) -> Done<V128> {
        let r = self.pop();
        match r.1 {
            Ok(v) => (r.0, Ok(v.v128_or_zero())),
            Err(e) => (r.0, Err(e)),
        }
    }

    // -----------------------------------------------------------------------
    // Code

    /// Reads a byte of code.
    pub open spec fn read_byte(self) -> Done<u8> {
        let r = byte_at(self.store.module.code, self.pc);
        (Machine { pc: r.1, ..self }, r.0)
    }

    /// Reads an unsigned 32-bit immediate.
    pub open spec fn read_u32(self) -> Done<u32> {
        let r = leb_u32(self.store.module.code, self.pc);
        (Machine { pc: r.1, ..self }, r.0)
    }

    /// Reads a signed 32-bit immediate.
    pub open spec fn read_i32(self) -> Done<i32> {
        let r = leb_i32(self.store.module.code, self.pc);
        (Machine { pc: r.1, ..self }, r.0)
    }

    /// Reads a signed 64-bit immediate.
    pub open spec fn read_i64(self) -> Done<i64> {
        let r = leb_i64(self.store.module.code, self.pc);
        (Machine { pc: r.1, ..self }, r.0)
    }

    /// Reads the four bytes of a single-precision constant.
    pub open spec fn read_f32(self) -> Done<u32> {
        if self.pc + 4 > self.store.module.code.len() {
            (self, Err(WasmError::UnexpectedEnd))
        } else {
            (Machine { pc: self.pc + 4, ..self }, Ok(le_u32(self.store.module.code, self.pc)))
        }
    }

    /// Reads the eight bytes of a double-precision constant.
    pub open spec fn read_f64(self) -> Done<u64> {
        if self.pc + 8 > self.store.module.code.len() {
            (self, Err(WasmError::UnexpectedEnd))
        } else {
            (Machine { pc: self.pc + 8, ..self }, Ok(le_u64(self.store.module.code, self.pc)))
        }
    }

    /// Reads the sixteen bytes of a vector constant.
    pub open spec fn read_v128(self) -> Done<V128> {
        if self.pc + 16 > self.store.module.code.len() {
            (self, Err(WasmError::UnexpectedEnd))
        } else {
            (
                Machine { pc: self.pc + 16, ..self },
                Ok(v128_of(self.store.module.code.subrange(self.pc, self.pc + 16))),
            )
        }
    }

    /// Reads a memory argument: the memory and the offset. Bit six of the flags
    /// announces a memory index where more than one memory is allowed.
    pub open spec fn read_memarg(self) -> Done<(u32, u32)> {
        let f = self.read_u32();
        match f.1 {
            Err(e) => (f.0, Err(e)),
            Ok(flags) => if self.store.module.multi_memory_enabled && (flags / 64) % 2 == 1 {
                let i = f.0.read_u32();
                match i.1 {
                    Err(e) => (i.0, Err(e)),
                    Ok(idx) => {
                        let o = i.0.read_u32();
                        match o.1 {
                            Err(e) => (o.0, Err(e)),
                            Ok(offset) => (o.0, Ok((idx, offset))),
                        }
                    },
                }
            } else {
                let o = f.0.read_u32();
                match o.1 {
                    Err(e) => (o.0, Err(e)),
                    Ok(offset) => (o.0, Ok((0, offset))),
                }
            },
        }
    }

    // -----------------------------------------------------------------------
    // Locals and blocks

    /// Where the local numbered `idx` of the innermost call stands.
    pub open spec fn local_slot(self, idx: u32) -> Option<int> {
        let f = self.frames.calls[self.frames.call_depth - 1];
        if self.frames.call_depth == 0 || idx >= f.local_count || f.local_base + idx >= MAX_TOTAL_LOCALS {
            None
        } else {
            Some(f.local_base + idx)
        }
    }

    /// The local numbered `idx` of the innermost call.
    pub open spec fn get_local(self, idx: u32) -> Result<Value, WasmError> {
        match self.local_slot(idx) {
            Some(i) => Ok(self.frames.locals[i]),
            None => Err(WasmError::OutOfBounds),
        }
    }

    /// Sets the local numbered `idx` of the innermost call.
    pub open spec fn set_local(self, idx: u32, v: Value) -> Done<()> {
        match self.local_slot(idx) {
            Some(i) => (
                Machine { frames: Frames { locals: self.frames.locals.update(i, v), ..self.frames }, ..self },
                Ok(()),
            ),
            None => (self, Err(WasmError::OutOfBounds)),
        }
    }

    /// Opens a block.
    pub open spec fn push_block(self, b: Block) -> Done<()> {
        if self.frames.block_depth >= MAX_BLOCK_DEPTH {
            (self, Err(WasmError::BranchDepthExceeded))
        } else {
            (
                Machine {
                    frames: Frames {
                        blocks: self.frames.blocks.update(self.frames.block_depth, b),
                        block_depth: self.frames.block_depth + 1,
                        ..self.frames
                    },
                    ..self
                },
                Ok(()),
            )
        }
    }

    /// The number of blocks that belong to the callers of the innermost call.
    pub open spec fn block_base(self) -> int {
        if self.frames.call_depth > 0 {
            self.frames.calls[self.frames.call_depth - 1].block_stack_base as int
        } else {
            0
        }
    }

    /// Sets the position in the code.
    pub open spec fn at(self, pc: int) -> Machine {
        Machine { pc, ..self }
    }

    /// Sets the block depth.
    pub open spec fn with_block_depth(self, depth: int) -> Machine {
        Machine { frames: Frames { block_depth: depth, ..self.frames }, ..self }
    }

    /// Sets the depth of the operand stack.
    pub open spec fn with_stack_ptr(self, ptr: int) -> Machine {
        Machine { stack_ptr: ptr, ..self }
    }

    /// The `n` values on top of the operand stack, the topmost last. Where the stack
    /// holds fewer, the first of them are zero.
    pub open spec fn top(self, n: int) -> Seq<Value> {
        Seq::new(
            n as nat,
            |i: int|
                if n - i <= self.stack_ptr {
                    self.stack[self.stack_ptr - (n - i)]
                } else {
                    Value::I32(0)
                },
        )
    }

    /// Puts values on the operand stack from depth `base` on, as far as there is
    /// room.
    pub open spec fn placed(self, base: int, vals: Seq<Value>) -> Machine {
        Machine {
            stack: splice(self.stack, base, vals),
            stack_ptr: least(base + vals.len(), MAX_STACK as int),
            ..self
        }
    }

    /// Moves the `n` values on top of the operand stack down to depth `base`.
    pub open spec fn carried(self, base: int, n: int) -> Machine {
        self.placed(base, self.top(n))
    }

    /// Pops `n` values.
    pub open spec fn pop_many(self, n: int) -> Done<Seq<Value>> {
        if self.stack_ptr < n {
            (self.with_stack_ptr(0), Err(WasmError::StackUnderflow))
        } else {
            (self.with_stack_ptr(self.stack_ptr - n), Ok(self.top(n)))
        }
    }

    /// Sets the store.
    pub open spec fn with_store(self, store: Store) -> Machine {
        Machine { store, ..self }
    }
}

/// `vals` filled up with zeros to the length of an argument list.
pub open spec fn padded(vals: Seq<Value>) -> Seq<Value> {
    Seq::new(
        MAX_PARAMS as nat,
        |i: int|
            if i < vals.len() {
                vals[i]
            } else {
                Value::I32(0)
            },
    )
}

impl WasmInstance {
    /// The `n` values on top of the operand stack, filled up with zeros.
    pub fn top_values(&self, n: usize) -> (r: [Value; MAX_PARAMS])
        requires
            self.wf(),
            n <= MAX_PARAMS,
        ensures
            r@ == padded(self@.top(n as int)),
    {
        let mut vals = [Value::I32(0);MAX_PARAMS];
        let mut i: usize = 0;
        while i < n
            invariant
                i <= n <= MAX_PARAMS,
                self.wf(),
                forall|j: int| 0 <= j < i ==> #[trigger] vals@[j] == self@.top(n as int)[j],
                forall|j: int| i <= j < MAX_PARAMS ==> #[trigger] vals@[j] == Value::I32(0),
            decreases n - i,
        {
            if n - i <= self.stack_ptr {
                vals[i] = self.stack[self.stack_ptr - (n - i)];
            }
            i = i + 1;
        }
        assert(vals@ =~= padded(self@.top(n as int)));
        vals
    }

    /// Puts the first `n` of `vals` on the operand stack from depth `base` on, as far
    /// as there is room.
    pub fn place(&mut self, base: usize, vals: &[Value], n: usize)
        requires
            old(self).wf(),
            base <= MAX_STACK,
            n <= vals@.len(),
        ensures
            final(self)@ == old(self)@.placed(base as int, vals@.take(n as int)),
            final(self).wf(),
    {
        self.stack_ptr = base;
        let mut i: usize = 0;
        while i < n
            invariant
                i <= n <= vals@.len(),
                self.wf(),
                base <= MAX_STACK,
                self@ == old(self)@.placed(base as int, vals@.take(i as int)),
            decreases n - i,
        {
            if self.stack_ptr < MAX_STACK {
                self.stack[self.stack_ptr] = vals[i];
                self.stack_ptr = self.stack_ptr + 1;
            }
            i = i + 1;
        }
    }

    /// Moves the `n` values on top of the operand stack down to depth `base`.
    pub fn carry(&mut self, base: usize, n: usize)
        requires
            old(self).wf(),
            base <= MAX_STACK,
            n <= MAX_PARAMS,
        ensures
            final(self)@ == old(self)@.carried(base as int, n as int),
            final(self).wf(),
    {
        let vals = self.top_values(n);
        self.place(base, vals.as_slice(), n);
        assert(vals@.take(n as int) =~= old(self)@.top(n as int));
    }

    /// Pops `n` values, and fills them up with zeros.
    pub fn pop_values(&mut self, n: usize) -> (r: Result<[Value; MAX_PARAMS], WasmError>)
        requires
            old(self).wf(),
            n <= MAX_PARAMS,
        ensures
            match r {
                Ok(vals) => old(self)@.pop_many(n as int) == (
                    final(self)@,
                    Ok::<Seq<Value>, WasmError>(old(self)@.top(n as int)),
                ) && vals@ == padded(old(self)@.top(n as int)),
                Err(e) => old(self)@.pop_many(n as int) == (final(self)@, Err::<Seq<Value>, WasmError>(e)),
            },
            final(self).wf(),
    {
        let vals = self.top_values(n);
        if self.stack_ptr < n {
            self.stack_ptr = 0;
            return Err(WasmError::StackUnderflow);
        }
        self.stack_ptr = self.stack_ptr - n;
        Ok(vals)
    }

    /// Pops `n` values.
    pub fn pop_list(&mut self, n: usize) -> (r: Result<Vec<Value>, WasmError>)
        requires
            old(self).wf(),
        ensures
            match r {
                Ok(vals) => old(self)@.pop_many(n as int) == (final(self)@, Ok::<Seq<Value>, WasmError>(vals@)),
                Err(e) => old(self)@.pop_many(n as int) == (final(self)@, Err::<Seq<Value>, WasmError>(e)),
            },
            final(self).wf(),
    {
        if self.stack_ptr < n {
            self.stack_ptr = 0;
            return Err(WasmError::StackUnderflow);
        }
        let base: usize = self.stack_ptr - n;
        let mut vals: Vec<Value> = Vec::new();
        let mut i: usize = 0;
        while i < n
            invariant
                i <= n,
                self.wf(),
                self@ == old(self)@,
                base + n == self.stack_ptr,
                vals@ == self@.top(n as int).take(i as int),
            decreases n - i,
        {
            vals.push(self.stack[base + i]);
            i = i + 1;
            assert(vals@ =~= self@.top(n as int).take(i as int));
        }
        assert(vals@ =~= self@.top(n as int));
        self.stack_ptr = base;
        Ok(vals)
    }

    /// Pushes a value.
    pub fn push(&mut self, v: Value) -> (r: Result<(), WasmError>)
        requires
            old(self).wf(),
        ensures
            (final(self)@, r) == old(self)@.push(v),
            final(self).wf(),
    {
        if self.stack_ptr >= MAX_STACK {
            return Err(WasmError::StackOverflow);
        }
        self.stack[self.stack_ptr] = v;
        self.stack_ptr = self.stack_ptr + 1;
        Ok(())
    }

    /// Pops a value.
    pub fn pop(&mut self) -> (r: Result<Value, WasmError>)
        requires
            old(self).wf(),
        ensures
            (final(self)@, r) == old(self)@.pop(),
            final(self).wf(),
    {
        if self.stack_ptr == 0 {
            return Err(WasmError::StackUnderflow);
        }
        self.stack_ptr = self.stack_ptr - 1;
        Ok(self.stack[self.stack_ptr])
    }

    /// Pops a value and reads it as an `i32`.
    pub fn pop_i32(&mut self) -> (r: Result<i32, WasmError>)
        requires
            old(self).wf(),
        ensures
            (final(self)@, r) == old(self)@.pop_i32(),
            final(self).wf(),
    {
        let v = self.pop()?;
        Ok(v.as_i32())
    }

    /// Pops a value and reads it as an `i64`.
    pub fn pop_i64(&mut self) -> (r: Result<i64, WasmError>)
        requires
            old(self).wf(),
        ensures
            (final(self)@, r) == old(self)@.pop_i64(),
            final(self).wf(),
    {
        let v = self.pop()?;
        Ok(v.as_i64())
    }

    /// Pops a value and reads it as a vector.
    pub fn pop_v128(&mut self) -> (r: Result<V128, WasmError>)
        requires
            old(self).wf(),
        ensures
            (final(self)@, r) == old(self)@.pop_v128(),
            final(self).wf(),
    {
        let v = self.pop()?;
        Ok(v.as_v128())
    }

    /// Reads a byte of code.
    pub fn read_byte(&mut self) -> (r: Result<u8, WasmError>)
        requires
            old(self).wf(),
        ensures
            (final(self)@, r) == old(self)@.read_byte(),
            final(self).wf(),
    {
        read_byte(self.module.code.as_slice(), &mut self.pc)
    }

    /// Reads an unsigned 32-bit immediate.
    pub fn read_leb128_u32(&mut self) -> (r: Result<u32, WasmError>)
        requires
            old(self).wf(),
        ensures
            (final(self)@, r) == old(self)@.read_u32(),
            final(self).wf(),
    {
        decode_leb128_u32(self.module.code.as_slice(), &mut self.pc)
    }

    /// Reads a signed 32-bit immediate.
    pub fn read_leb128_i32(&mut self) -> (r: Result<i32, WasmError>)
        requires
            old(self).wf(),
        ensures
            (final(self)@, r) == old(self)@.read_i32(),
            final(self).wf(),
    {
        decode_leb128_i32(self.module.code.as_slice(), &mut self.pc)
    }

    /// Reads a signed 64-bit immediate.
    pub fn read_leb128_i64(&mut self) -> (r: Result<i64, WasmError>)
        requires
            old(self).wf(),
        ensures
            (final(self)@, r) == old(self)@.read_i64(),
            final(self).wf(),
    {
        decode_leb128_i64(self.module.code.as_slice(), &mut self.pc)
    }

    /// Reads the four bytes of a single-precision constant.
    pub fn read_f32(&mut self) -> (r: Result<u32, WasmError>)
        requires
            old(self).wf(),
        ensures
            (final(self)@, r) == old(self)@.read_f32(),
            final(self).wf(),
    {
        if self.pc > self.module.code.len() || self.module.code.len() - self.pc < 4 {
            return Err(WasmError::UnexpectedEnd);
        }
        let v: u32 = read_u32(self.module.code.as_slice(), self.pc);
        self.pc = self.pc + 4;
        Ok(v)
    }

    /// Reads the eight bytes of a double-precision constant.
    pub fn read_f64(&mut self) -> (r: Result<u64, WasmError>)
        requires
            old(self).wf(),
        ensures
            (final(self)@, r) == old(self)@.read_f64(),
            final(self).wf(),
    {
        if self.pc > self.module.code.len() || self.module.code.len() - self.pc < 8 {
            return Err(WasmError::UnexpectedEnd);
        }
        let v: u64 = read_u64(self.module.code.as_slice(), self.pc);
        self.pc = self.pc + 8;
        Ok(v)
    }

    /// Reads the sixteen bytes of a vector constant.
    pub fn read_v128(&mut self) -> (r: Result<V128, WasmError>)
        requires
            old(self).wf(),
        ensures
            (final(self)@, r) == old(self)@.read_v128(),
            final(self).wf(),
    {
        if self.pc > self.module.code.len() || self.module.code.len() - self.pc < 16 {
            return Err(WasmError::UnexpectedEnd);
        }
        let v = read_v128_at(self.module.code.as_slice(), self.pc);
        self.pc = self.pc + 16;
        Ok(v)
    }

    /// Reads a memory argument: the memory and the offset.
    pub fn read_memarg(&mut self) -> (r: Result<(u32, u32), WasmError>)
        requires
            old(self).wf(),
        ensures
            (final(self)@, r) == old(self)@.read_memarg(),
            final(self).wf(),
    {
        let flags: u32 = self.read_leb128_u32()?;
        if self.module.multi_memory_enabled && (flags / 64) % 2 == 1 {
            let idx: u32 = self.read_leb128_u32()?;
            let offset: u32 = self.read_leb128_u32()?;
            Ok((idx, offset))
        } else {
            let offset: u32 = self.read_leb128_u32()?;
            Ok((0, offset))
        }
    }

    /// The local numbered `idx` of the innermost call.
    pub fn get_local(&self, idx: u32) -> (r: Result<Value, WasmError>)
        requires
            self.wf(),
        ensures
            r == self@.get_local(idx),
    {
        if self.call_depth == 0 {
            return Err(WasmError::OutOfBounds);
        }
        let f = self.call_stack[self.call_depth - 1];
        assert(self.call_stack@[self.call_depth - 1].wf());
        if idx as usize >= f.local_count {
            return Err(WasmError::OutOfBounds);
        }
        Ok(self.locals[f.local_base + idx as usize])
    }

    /// Sets the local numbered `idx` of the innermost call.
    pub fn set_local(&mut self, idx: u32, v: Value) -> (r: Result<(), WasmError>)
        requires
            old(self).wf(),
        ensures
            (final(self)@, r) == old(self)@.set_local(idx, v),
            final(self).wf(),
    {
        if self.call_depth == 0 {
            return Err(WasmError::OutOfBounds);
        }
        let f = self.call_stack[self.call_depth - 1];
        assert(self.call_stack@[self.call_depth - 1].wf());
        if idx as usize >= f.local_count {
            return Err(WasmError::OutOfBounds);
        }
        self.locals[f.local_base + idx as usize] = v;
        Ok(())
    }

    /// Opens a block.
    pub fn push_block(&mut self, b: BlockFrame) -> (r: Result<(), WasmError>)
        requires
            old(self).wf(),
            b.wf(),
        ensures
            (final(self)@, r) == old(self)@.push_block(b@),
            final(self).wf(),
    {
        broadcast use crate::module::group_views;

        if self.block_depth >= MAX_BLOCK_DEPTH {
            return Err(WasmError::BranchDepthExceeded);
        }
        self.block_stack[self.block_depth] = b;
        self.block_depth = self.block_depth + 1;
        Ok(())
    }

    /// Closes the innermost block.
    pub fn pop_block(&mut self) -> (r: Result<BlockFrame, WasmError>)
        requires
            old(self).wf(),
        ensures
            final(self).wf(),
            match r {
                Ok(b) => {
                    &&& old(self).block_depth > 0
                    &&& b.wf()
                    &&& b@ == old(self)@.frames.blocks[old(self).block_depth - 1]
                    &&& final(self)@ == old(self)@.with_block_depth(old(self).block_depth - 1)
                },
                Err(e) => {
                    &&& old(self).block_depth == 0
                    &&& e == WasmError::InvalidBlockType
                    &&& final(self)@ == old(self)@
                },
            },
    {
        if self.block_depth == 0 {
            return Err(WasmError::InvalidBlockType);
        }
        self.block_depth = self.block_depth - 1;
        assert(self.block_stack@[self.block_depth as int].wf());
        Ok(self.block_stack[self.block_depth])
    }

    /// The number of blocks that belong to the callers of the innermost call.
    pub fn block_base(&self) -> (r: usize)
        requires
            self.wf(),
        ensures
            r == self@.block_base(),
            r <= MAX_BLOCK_DEPTH,
    {
        if self.call_depth > 0 {
            assert(self.call_stack@[self.call_depth - 1].wf());
            self.call_stack[self.call_depth - 1].block_stack_base
        } else {
            0
        }
    }
}

/// What is pushed is popped again, and the rest of the operand stack stays.
pub proof fn push_then_pop(m: Machine, v: Value)
    requires
        m.valid(),
        m.stack_ptr < MAX_STACK,
    ensures
        m.push(v).1 is Ok,
        m.push(v).0.pop().1 == Ok::<Value, WasmError>(v),
        m.push(v).0.pop().0 == (Machine { stack: m.stack.update(m.stack_ptr, v), ..m }),
        m.push(v).0.stack.take(m.stack_ptr) == m.stack.take(m.stack_ptr),
{
    assert(m.push(v).0.stack.take(m.stack_ptr) =~= m.stack.take(m.stack_ptr));
}

/// A local that is set reads back, and no other local of the call changes.
pub proof fn set_local_then_get(m: Machine, i: u32, j: u32, v: Value)
    requires
        m.valid(),
        m.set_local(i, v).1 is Ok,
    ensures
        m.set_local(i, v).0.get_local(i) == Ok::<Value, WasmError>(v),
        j != i ==> m.set_local(i, v).0.get_local(j) == m.get_local(j),
{
}

} // verus!
