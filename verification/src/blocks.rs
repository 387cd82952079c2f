//! Instructions that open, close and leave blocks.

use vstd::prelude::*;
use crate::calls::{branch, leave};
use crate::machine::{
    follow, least, splice, Block, BlockFrame, CatchClause, Done, ExecResult, LegacyCatch, Machine, Outcome,
    WasmInstance, MAX_CATCH_CLAUSES, MAX_LEGACY_CATCHES,
};
use crate::module::{group_views, Module};
use crate::scan::{block_end, block_type_at, read_block_type, scan_legacy_try, skip_to_end, try_handlers};
use crate::types::{Value, WasmError, MAX_STACK};

verus! {

broadcast use group_views;

/// The number of parameters and results of a block type.
pub open spec fn block_arity(m: Module, bt: i32) -> (u8, u8) {
    if bt == -0x40 {
        (0, 0)
    } else if bt < 0 {
        (0, 1)
    } else if bt < m.func_types.len() {
        (m.func_types[bt as int].params.len() as u8, m.func_types[bt as int].results.len() as u8)
    } else {
        (0, 0)
    }
}

impl Machine {
    /// Reads a block type.
    pub open spec fn read_block_type(self) -> Done<i32> {
        let r = block_type_at(self.store.module.code, self.pc);
        (self.at(r.1), r.0)
    }

    /// Skips to after the end of the current block, or of its first arm.
    pub open spec fn skip_to_end(self) -> Done<int> {
        let r = block_end(self.store.module.code, self.pc, 1, self.store.module.multi_memory_enabled);
        match r.0 {
            Err(e) => (self.at(r.1), Err(e)),
            Ok(_) => (self.at(r.1), Ok(r.1)),
        }
    }

    /// Opens a block whose parameters are on the operand stack.
    pub open spec fn open_block(self, params: u8, b: Block) -> Done<()> {
        if self.stack_ptr < params {
            (self, Err(WasmError::StackUnderflow))
        } else {
            self.push_block(Block { stack_base: (self.stack_ptr - params) as usize, ..b })
        }
    }

    /// Pushes values as far as there is room.
    pub open spec fn push_many(self, vals: Seq<Value>) -> Done<()> {
        let n = least(vals.len() as int, MAX_STACK - self.stack_ptr);
        let pushed = Machine {
            stack: splice(self.stack, self.stack_ptr, vals.take(n)),
            stack_ptr: self.stack_ptr + n,
            ..self
        };
        if n < vals.len() {
            (pushed, Err(WasmError::StackOverflow))
        } else {
            (pushed, Ok(()))
        }
    }
}

/// Opens a block or a loop. A branch to a loop carries its parameters.
pub open spec fn block(m: Machine, is_loop: bool) -> Done<()> {
    follow(
        m.read_block_type(),
        |m0: Machine, bt: i32|
            {
                let arity = block_arity(m0.store.module, bt);
                follow(
                    m0.skip_to_end(),
                    |m1: Machine, end: int|
                        m1.at(m0.pc).open_block(
                            arity.0,
                            Block::plain(
                                m0.pc as usize,
                                end as usize,
                                0,
                                if is_loop {
                                    arity.0
                                } else {
                                    arity.1
                                },
                                arity.1,
                                is_loop,
                            ),
                        ),
                )
            },
    )
}

/// Whether the position `q` follows the opcode of an `else`.
pub open spec fn after_else(m: Machine, q: int) -> bool {
    0 < q <= m.store.module.code.len() && m.store.module.code[q - 1] == 0x05
}

/// Enters the arm of a conditional that the condition `c` selects, its first arm
/// starting at the current position.
pub open spec fn arm(m: Machine, bt: i32, c: i32) -> Done<()> {
    let arity = block_arity(m.store.module, bt);
    follow(
        m.skip_to_end(),
        |m1: Machine, q: int|
            follow(
                if after_else(m1, q) {
                    m1.skip_to_end()
                } else {
                    (m1, Ok(q))
                },
                |m2: Machine, end: int|
                    if c != 0 {
                        m2.at(m.pc).open_block(
                            arity.0,
                            Block::plain(m.pc as usize, end as usize, 0, arity.1, arity.1, false),
                        )
                    } else if after_else(m1, q) {
                        m2.at(q).open_block(
                            arity.0,
                            Block::plain(q as usize, end as usize, 0, arity.1, arity.1, false),
                        )
                    } else {
                        (m2.at(end), Ok(()))
                    },
            ),
    )
}

pub open spec fn conditional(m: Machine) -> Done<()> {
    follow(
        m.read_block_type(),
        |m: Machine, bt: i32| follow(m.pop_i32(), |m: Machine, c: i32| arm(m, bt, c)),
    )
}

/// Whether a block of the innermost call is open.
pub open spec fn in_block(m: Machine) -> bool {
    m.frames.block_depth > m.block_base()
}

/// The innermost block.
pub open spec fn innermost(m: Machine) -> Block {
    m.frames.blocks[m.frames.block_depth - 1]
}

/// The end of the first arm of a conditional: the whole block is left.
pub open spec fn first_arm_done(m: Machine) -> Machine {
    if in_block(m) {
        m.at(innermost(m).end_pc as int).with_block_depth(m.frames.block_depth - 1)
    } else {
        m
    }
}

/// The end of a block, or of the function where no block is open.
pub open spec fn end(m: Machine) -> (Machine, Outcome) {
    if in_block(m) {
        let b = innermost(m);
        let closed = m.with_block_depth(m.frames.block_depth - 1);
        if m.stack_ptr == b.stack_base + b.end_result_count {
            (closed, Outcome::Completed)
        } else {
            (closed.carried(b.stack_base as int, b.end_result_count as int), Outcome::Completed)
        }
    } else {
        leave(m)
    }
}

/// Reads `n` labels.
pub open spec fn read_labels(m: Machine, n: nat, read: Seq<u32>) -> Done<Seq<u32>>
    decreases n,
{
    if n == 0 {
        (m, Ok(read))
    } else {
        let r = m.read_u32();
        match r.1 {
            Err(e) => (r.0, Err(e)),
            Ok(l) => read_labels(r.0, (n - 1) as nat, read.push(l)),
        }
    }
}

/// Branches to the label that an index selects, to the last one where it is out of
/// range.
pub open spec fn branch_table(m: Machine) -> Done<()> {
    follow(
        m.read_u32(),
        |m: Machine, n: u32|
            follow(
                m.pop_i32(),
                |m: Machine, i: i32|
                    follow(
                        read_labels(m, n as nat + 1, Seq::empty()),
                        |m: Machine, labels: Seq<u32>|
                            branch(
                                m,
                                if 0 <= i < n {
                                    labels[i as int]
                                } else {
                                    labels[n as int]
                                },
                            ),
                    ),
            ),
    )
}

/// Branches unconditionally, on a condition, or by a table.
pub open spec fn branching(m: Machine, op: u8) -> Done<()> {
    if op == 0x0C {
        follow(m.read_u32(), |m: Machine, l: u32| branch(m, l))
    } else if op == 0x0D {
        follow(
            m.read_u32(),
            |m: Machine, l: u32|
                follow(
                    m.pop_i32(),
                    |m: Machine, c: i32|
                        if c != 0 {
                            branch(m, l)
                        } else {
                            (m, Ok(()))
                        },
                ),
        )
    } else {
        branch_table(m)
    }
}

/// One catch clause.
pub open spec fn read_clause(m: Machine) -> Done<CatchClause> {
    follow(
        m.read_byte(),
        |m: Machine, kind: u8|
            if kind <= 1 {
                follow(
                    m.read_u32(),
                    |m: Machine, tag_idx: u32|
                        follow(m.read_u32(), |m: Machine, label: u32| (m, Ok(CatchClause { kind, tag_idx, label }))),
                )
            } else if kind <= 3 {
                follow(m.read_u32(), |m: Machine, label: u32| (m, Ok(CatchClause { kind, tag_idx: 0, label })))
            } else {
                (m, Ok(CatchClause { kind, tag_idx: 0, label: 0 }))
            },
    )
}

/// Reads `n` catch clauses and keeps the first of them.
pub open spec fn read_clauses(m: Machine, n: nat, read: Seq<CatchClause>) -> Done<Seq<CatchClause>>
    decreases n,
{
    if n == 0 {
        (m, Ok(read))
    } else {
        let r = read_clause(m);
        match r.1 {
            Err(e) => (r.0, Err(e)),
            Ok(c) => read_clauses(
                r.0,
                (n - 1) as nat,
                if read.len() < MAX_CATCH_CLAUSES {
                    read.push(c)
                } else {
                    read
                },
            ),
        }
    }
}

/// Opens a `try_table` block.
pub open spec fn try_table(m: Machine) -> Done<()> {
    follow(
        m.read_block_type(),
        |m: Machine, bt: i32|
            follow(
                m.read_u32(),
                |m: Machine, n: u32|
                    follow(
                        read_clauses(m, n as nat, Seq::empty()),
                        |m0: Machine, catches: Seq<CatchClause>|
                            {
                                let arity = block_arity(m0.store.module, bt);
                                follow(
                                    m0.skip_to_end(),
                                    |m1: Machine, end: int|
                                        m1.at(m0.pc).open_block(
                                            arity.0,
                                            Block {
                                                is_try_table: true,
                                                catches,
                                                ..Block::plain(m0.pc as usize, end as usize, 0, arity.1, arity.1, false)
                                            },
                                        ),
                                )
                            },
                    ),
            ),
    )
}

/// The handlers of a legacy `try` block, the label it delegates to, and its end.
pub open spec fn find_handlers(m: Machine) -> Done<(Seq<LegacyCatch>, u32, int)> {
    let r = try_handlers(m.store.module.code, m.pc, 1, m.store.module.multi_memory_enabled, Seq::empty());
    match r.0 {
        Err(e) => (m.at(r.1), Err(e)),
        Ok(h) => (m, Ok((h.0, h.1, r.1))),
    }
}

/// Opens a legacy `try` block.
pub open spec fn legacy_try(m: Machine) -> Done<()> {
    follow(
        m.read_block_type(),
        |m: Machine, bt: i32|
            follow(
                find_handlers(m),
                |m: Machine, h: (Seq<LegacyCatch>, u32, int)|
                    {
                        let arity = block_arity(m.store.module, bt);
                        m.open_block(
                            arity.0,
                            Block {
                                is_legacy_try: true,
                                legacy_catches: h.0,
                                legacy_delegate_label: h.1,
                                ..Block::plain(m.pc as usize, h.2 as usize, 0, arity.1, arity.1, false)
                            },
                        )
                    },
            ),
    )
}

/// The end of the body of a legacy `try` block where nothing was thrown: its handlers
/// are skipped.
pub open spec fn handlers_skipped(m: Machine) -> Done<()> {
    if in_block(m) && innermost(m).is_legacy_try {
        let b = innermost(m);
        follow(
            m.pop_many(b.end_result_count as int),
            |m: Machine, vals: Seq<Value>|
                (
                    m.placed(b.stack_base as int, vals).at(b.end_pc as int).with_block_depth(m.frames.block_depth - 1),
                    Ok(()),
                ),
        )
    } else {
        (m, Ok(()))
    }
}

/// The end of a legacy `try` block that delegates, where nothing was thrown.
pub open spec fn delegate(m: Machine) -> Done<()> {
    follow(
        m.read_u32(),
        |m: Machine, l: u32|
            if m.frames.block_depth > 0 {
                let b = innermost(m);
                follow(
                    m.with_block_depth(m.frames.block_depth - 1).pop_many(b.end_result_count as int),
                    |m: Machine, vals: Seq<Value>| m.with_stack_ptr(b.stack_base as int).push_many(vals),
                )
            } else {
                (m, Ok(()))
            },
    )
}

/// The instructions on blocks, but for the end of one.
pub open spec fn block_instruction(m: Machine, op: u8) -> Done<()> {
    match op {
        0x02 => block(m, false),
        0x03 => block(m, true),
        0x04 => conditional(m),
        0x05 => (first_arm_done(m), Ok(())),
        0x06 => legacy_try(m),
        0x07 => follow(m.read_u32(), |m: Machine, tag: u32| handlers_skipped(m)),
        0x0C | 0x0D | 0x0E => branching(m, op),
        0x18 => delegate(m),
        0x19 => handlers_skipped(m),
        0x1F => try_table(m),
        _ => (m, Ok(())),
    }
}

impl WasmInstance {
    /// The number of parameters and results of a block type.
    pub fn decode_block_type(&self, bt: i32) -> (r: (u8, u8))
        requires
            self.wf(),
        ensures
            r == block_arity(self.module@, bt),
            r.0 <= 32,
            r.1 <= 32,
    {
        if bt == -0x40 {
            (0, 0)
        } else if bt < 0 {
            (0, 1)
        } else if (bt as usize) < self.module.func_types.len() {
            assert(self.module.func_types@[bt as int].wf());
            (self.module.func_types[bt as usize].param_count, self.module.func_types[bt as usize].result_count)
        } else {
            (0, 0)
        }
    }

    fn read_block_type(&mut self) -> (r: Result<i32, WasmError>)
        requires
            old(self).wf(),
        ensures
            (final(self)@, r) == old(self)@.read_block_type(),
            final(self).wf(),
    {
        read_block_type(self.module.code.as_slice(), &mut self.pc)
    }

    /// Skips to after the end of the current block, or of its first arm.
    fn skip_to_end(&mut self) -> (r: Result<usize, WasmError>)
        requires
            old(self).wf(),
        ensures
            match r {
                Ok(q) => old(self)@.skip_to_end() == (final(self)@, Ok::<int, WasmError>(q as int)),
                Err(e) => old(self)@.skip_to_end() == (final(self)@, Err::<int, WasmError>(e)),
            },
            final(self).wf(),
    {
        skip_to_end(self.module.code.as_slice(), &mut self.pc, self.module.multi_memory_enabled)?;
        Ok(self.pc)
    }

    /// Opens a block whose parameters are on the operand stack.
    fn open_block(&mut self, params: u8, b: BlockFrame) -> (r: Result<(), WasmError>)
        requires
            old(self).wf(),
            b.wf(),
        ensures
            (final(self)@, r) == old(self)@.open_block(params, b@),
            final(self).wf(),
    {
        if self.stack_ptr < params as usize {
            return Err(WasmError::StackUnderflow);
        }
        let frame = BlockFrame { stack_base: self.stack_ptr - params as usize, ..b };
        assert(frame@ =~= (Block { stack_base: (self.stack_ptr - params) as usize, ..b@ }));
        self.push_block(frame)
    }

    /// Pushes the first `n` values, as far as there is room.
    pub fn push_values(&mut self, vals: &[Value], n: usize) -> (r: Result<(), WasmError>)
        requires
            old(self).wf(),
            n <= vals@.len(),
        ensures
            (final(self)@, r) == old(self)@.push_many(vals@.take(n as int)),
            final(self).wf(),
    {
        let mut i: usize = 0;
        while i < n
            invariant
                i <= n <= vals@.len(),
                self.wf(),
                old(self).wf(),
                old(self).stack_ptr + i <= MAX_STACK,
                self@ == (Machine {
                    stack: splice(old(self)@.stack, old(self)@.stack_ptr, vals@.take(i as int)),
                    stack_ptr: old(self)@.stack_ptr + i,
                    ..old(self)@
                }),
            decreases n - i,
        {
            if self.stack_ptr >= MAX_STACK {
                assert(vals@.take(n as int).take(i as int) =~= vals@.take(i as int));
                return Err(WasmError::StackOverflow);
            }
            self.stack[self.stack_ptr] = vals[i];
            self.stack_ptr = self.stack_ptr + 1;
            i = i + 1;
        }
        assert(vals@.take(n as int).take(n as int) =~= vals@.take(n as int));
        Ok(())
    }

    fn exec_block(&mut self, is_loop: bool) -> (r: Result<(), WasmError>)
        requires
            old(self).wf(),
        ensures
            (final(self)@, r) == block(old(self)@, is_loop),
            final(self).wf(),
    {
        let bt: i32 = self.read_block_type()?;
        let (params, results) = self.decode_block_type(bt);
        let start: usize = self.pc;
        let end: usize = self.skip_to_end()?;
        self.pc = start;
        let carried: u8 = if is_loop {
            params
        } else {
            results
        };
        self.open_block(params, BlockFrame::plain(start, end, 0, carried, results, is_loop))
    }

    fn follows_else(&self, q: usize) -> (r: bool)
        ensures
            r == after_else(self@, q as int),
    {
        0 < q && q <= self.module.code.len() && self.module.code[q - 1] == 0x05
    }

    fn exec_arm(&mut self, bt: i32, c: i32) -> (r: Result<(), WasmError>)
        requires
            old(self).wf(),
        ensures
            (final(self)@, r) == arm(old(self)@, bt, c),
            final(self).wf(),
    {
        let (params, results) = self.decode_block_type(bt);
        let body: usize = self.pc;
        let q: usize = self.skip_to_end()?;
        let has_else: bool = self.follows_else(q);
        let end: usize = if has_else {
            self.skip_to_end()?
        } else {
            q
        };
        if c != 0 {
            self.pc = body;
            self.open_block(params, BlockFrame::plain(body, end, 0, results, results, false))
        } else if has_else {
            self.pc = q;
            self.open_block(params, BlockFrame::plain(q, end, 0, results, results, false))
        } else {
            self.pc = end;
            Ok(())
        }
    }

    fn exec_if(&mut self) -> (r: Result<(), WasmError>)
        requires
            old(self).wf(),
        ensures
            (final(self)@, r) == conditional(old(self)@),
            final(self).wf(),
    {
        let bt: i32 = self.read_block_type()?;
        let c: i32 = self.pop_i32()?;
        self.exec_arm(bt, c)
    }

    fn exec_else(&mut self)
        requires
            old(self).wf(),
        ensures
            final(self)@ == first_arm_done(old(self)@),
            final(self).wf(),
    {
        if self.block_depth > self.block_base() {
            if let Ok(b) = self.pop_block() {
                self.pc = b.end_pc;
            }
        }
    }

    /// The end of a block, or of the function where no block is open.
    pub fn exec_end(&mut self) -> (r: ExecResult)
        requires
            old(self).wf(),
        ensures
            (final(self)@, r@) == end(old(self)@),
            final(self).wf(),
    {
        if self.block_depth > self.block_base() {
            let b = self.block_stack[self.block_depth - 1];
            assert(self.block_stack@[self.block_depth - 1].wf());
            self.block_depth = self.block_depth - 1;
            if self.stack_ptr != b.stack_base + b.end_result_count as usize {
                self.carry(b.stack_base, b.end_result_count as usize);
            }
            ExecResult::Completed
        } else {
            self.do_return()
        }
    }

    /// Reads `n` labels and one more, and returns the one that an index selects.
    fn read_target(&mut self, n: u32, i: i32) -> (r: Result<u32, WasmError>)
        requires
            old(self).wf(),
        ensures
            ({
                let e = read_labels(old(self)@, n as nat + 1, Seq::empty());
                &&& final(self)@ == e.0
                &&& match r {
                    Ok(l) => e.1 is Ok && l == (if 0 <= i < n {
                        e.1->Ok_0[i as int]
                    } else {
                        e.1->Ok_0[n as int]
                    }),
                    Err(x) => e.1 == Err::<Seq<u32>, WasmError>(x),
                }
            }),
            final(self).wf(),
    {
        let ghost mut read: Seq<u32> = Seq::empty();
        let mut target: u32 = 0;
        let mut k: u32 = 0;
        while k < n
            invariant
                k <= n,
                self.wf(),
                read.len() == k,
                0 <= i < k ==> target == read[i as int],
                read_labels(old(self)@, n as nat + 1, Seq::empty()) == read_labels(self@, (n + 1 - k) as nat, read),
            decreases n - k,
        {
            let l: u32 = self.read_leb128_u32()?;
            if i >= 0 && i as u32 == k {
                target = l;
            }
            proof {
                read = read.push(l);
            }
            k = k + 1;
        }
        reveal_with_fuel(read_labels, 2);
        let last: u32 = self.read_leb128_u32()?;
        if 0 <= i && (i as u32) < n {
            Ok(target)
        } else {
            Ok(last)
        }
    }

    fn exec_branch_table(&mut self) -> (r: Result<(), WasmError>)
        requires
            old(self).wf(),
        ensures
            (final(self)@, r) == branch_table(old(self)@),
            final(self).wf(),
    {
        let n: u32 = self.read_leb128_u32()?;
        let i: i32 = self.pop_i32()?;
        let l: u32 = self.read_target(n, i)?;
        self.branch(l)
    }

    fn exec_branching(&mut self, op: u8) -> (r: Result<(), WasmError>)
        requires
            old(self).wf(),
        ensures
            (final(self)@, r) == branching(old(self)@, op),
            final(self).wf(),
    {
        if op == 0x0C {
            let l: u32 = self.read_leb128_u32()?;
            self.branch(l)
        } else if op == 0x0D {
            let l: u32 = self.read_leb128_u32()?;
            let c: i32 = self.pop_i32()?;
            if c != 0 {
                self.branch(l)
            } else {
                Ok(())
            }
        } else {
            self.exec_branch_table()
        }
    }

    fn read_clause(&mut self) -> (r: Result<CatchClause, WasmError>)
        requires
            old(self).wf(),
        ensures
            (final(self)@, r) == read_clause(old(self)@),
            final(self).wf(),
    {
        let kind: u8 = self.read_byte()?;
        if kind <= 1 {
            let tag_idx: u32 = self.read_leb128_u32()?;
            let label: u32 = self.read_leb128_u32()?;
            Ok(CatchClause { kind, tag_idx, label })
        } else if kind <= 3 {
            let label: u32 = self.read_leb128_u32()?;
            Ok(CatchClause { kind, tag_idx: 0, label })
        } else {
            Ok(CatchClause { kind, tag_idx: 0, label: 0 })
        }
    }

    /// Reads `n` catch clauses into a block that has none yet.
    fn read_clauses(&mut self, n: u32, b: BlockFrame) -> (r: Result<BlockFrame, WasmError>)
        requires
            old(self).wf(),
            b.wf(),
            b.catch_count == 0,
        ensures
            match r {
                Ok(f) => f.wf() && read_clauses(old(self)@, n as nat, Seq::empty()) == (
                    final(self)@,
                    Ok::<Seq<CatchClause>, WasmError>(f@.catches),
                ) && f@ == (Block { catches: f@.catches, ..b@ }),
                Err(e) => read_clauses(old(self)@, n as nat, Seq::empty()) == (
                    final(self)@,
                    Err::<Seq<CatchClause>, WasmError>(e),
                ),
            },
            final(self).wf(),
    {
        let mut f = b;
        assert(f@.catches =~= Seq::empty());
        let mut k: u32 = 0;
        while k < n
            invariant
                k <= n,
                self.wf(),
                f.wf(),
                f@ == (Block { catches: f@.catches, ..b@ }),
                read_clauses(old(self)@, n as nat, Seq::empty()) == read_clauses(
                    self@,
                    (n - k) as nat,
                    f@.catches,
                ),
            decreases n - k,
        {
            let c = self.read_clause()?;
            let ghost before = f@;
            let count: usize = f.catch_count as usize;
            if count < MAX_CATCH_CLAUSES {
                f.catches[count] = c;
                f.catch_count = f.catch_count + 1;
                assert(f@.catches =~= before.catches.push(c));
            }
            assert(f@ =~= (Block { catches: f@.catches, ..b@ }));
            k = k + 1;
        }
        Ok(f)
    }

    fn exec_try_table(&mut self) -> (r: Result<(), WasmError>)
        requires
            old(self).wf(),
        ensures
            (final(self)@, r) == try_table(old(self)@),
            final(self).wf(),
    {
        let bt: i32 = self.read_block_type()?;
        let n: u32 = self.read_leb128_u32()?;
        let ghost m = self@;
        let (params, results) = self.decode_block_type(bt);
        let clauses = self.read_clauses(n, BlockFrame::plain(0, 0, 0, results, results, false))?;
        proof {
            read_clauses_stay(m, n as nat, Seq::empty());
        }
        let start: usize = self.pc;
        let end: usize = self.skip_to_end()?;
        self.pc = start;
        let frame = BlockFrame { start_pc: start, end_pc: end, is_try_table: true, ..clauses };
        assert(frame@ =~= (Block {
            is_try_table: true,
            catches: clauses@.catches,
            ..Block::plain(start, end, 0, results, results, false)
        }));
        self.open_block(params, frame)
    }

    /// The block `b` with the handlers of a legacy `try` block whose body starts at the
    /// current position.
    fn find_handlers(&mut self, b: BlockFrame) -> (r: Result<BlockFrame, WasmError>)
        requires
            old(self).wf(),
            b.wf(),
            b.legacy_catch_count == 0,
        ensures
            match r {
                Ok(f) => f.wf() && find_handlers(old(self)@) == (
                    final(self)@,
                    Ok::<(Seq<LegacyCatch>, u32, int), WasmError>(
                        (f@.legacy_catches, f@.legacy_delegate_label, f@.end_pc as int),
                    ),
                ) && f@ == (Block {
                    legacy_catches: f@.legacy_catches,
                    legacy_delegate_label: f@.legacy_delegate_label,
                    end_pc: f@.end_pc,
                    ..b@
                }),
                Err(e) => find_handlers(old(self)@) == (
                    final(self)@,
                    Err::<(Seq<LegacyCatch>, u32, int), WasmError>(e),
                ),
            },
            final(self).wf(),
    {
        let start: usize = self.pc;
        let (catches, label) = scan_legacy_try(
            self.module.code.as_slice(),
            &mut self.pc,
            self.module.multi_memory_enabled,
        )?;
        let mut f = BlockFrame { end_pc: self.pc, legacy_delegate_label: label, ..b };
        self.pc = start;
        let mut k: usize = 0;
        while k < catches.len()
            invariant
                k <= catches@.len() <= MAX_LEGACY_CATCHES,
                f == (BlockFrame { legacy_catches: f.legacy_catches, ..f }),
                f.legacy_catches@.take(k as int) =~= catches@.take(k as int),
                f.wf(),
                f@ =~= (Block { end_pc: f.end_pc, legacy_delegate_label: f.legacy_delegate_label, ..b@ }),
                f.legacy_catch_count == 0,
                f.end_pc == find_handlers(old(self)@).1->Ok_0.2,
                f.legacy_delegate_label == label,
            decreases catches@.len() - k,
        {
            f.legacy_catches[k] = catches[k];
            k = k + 1;
        }
        f.legacy_catch_count = catches.len() as u8;
        assert(f@.legacy_catches =~= catches@);
        assert(f@ =~= (Block {
            legacy_catches: f@.legacy_catches,
            legacy_delegate_label: f@.legacy_delegate_label,
            end_pc: f@.end_pc,
            ..b@
        }));
        Ok(f)
    }

    fn exec_legacy_try(&mut self) -> (r: Result<(), WasmError>)
        requires
            old(self).wf(),
        ensures
            (final(self)@, r) == legacy_try(old(self)@),
            final(self).wf(),
    {
        let bt: i32 = self.read_block_type()?;
        let (params, results) = self.decode_block_type(bt);
        let start: usize = self.pc;
        let found = self.find_handlers(BlockFrame::plain(start, 0, 0, results, results, false))?;
        let frame = BlockFrame { is_legacy_try: true, ..found };
        assert(frame@ =~= (Block {
            is_legacy_try: true,
            legacy_catches: found@.legacy_catches,
            legacy_delegate_label: found@.legacy_delegate_label,
            ..Block::plain(start, found@.end_pc, 0, results, results, false)
        }));
        self.open_block(params, frame)
    }

    fn skip_handlers(&mut self) -> (r: Result<(), WasmError>)
        requires
            old(self).wf(),
        ensures
            (final(self)@, r) == handlers_skipped(old(self)@),
            final(self).wf(),
    {
        if self.block_depth > self.block_base() {
            let b = self.block_stack[self.block_depth - 1];
            assert(self.block_stack@[self.block_depth - 1].wf());
            if b.is_legacy_try {
                let n: usize = b.end_result_count as usize;
                let vals = self.pop_values(n)?;
                assert(vals@.take(n as int) =~= old(self)@.top(n as int));
                self.place(b.stack_base, vals.as_slice(), n);
                self.pc = b.end_pc;
                self.block_depth = self.block_depth - 1;
            }
        }
        Ok(())
    }

    fn exec_delegate(&mut self) -> (r: Result<(), WasmError>)
        requires
            old(self).wf(),
        ensures
            (final(self)@, r) == delegate(old(self)@),
            final(self).wf(),
    {
        let _label: u32 = self.read_leb128_u32()?;
        if self.block_depth > 0 {
            self.block_depth = self.block_depth - 1;
            let b = self.block_stack[self.block_depth];
            assert(self.block_stack@[self.block_depth as int].wf());
            let ghost m = self@;
            let n: usize = b.end_result_count as usize;
            let vals = self.pop_values(n)?;
            assert(vals@.take(n as int) =~= m.top(n as int));
            self.stack_ptr = b.stack_base;
            self.push_values(vals.as_slice(), n)?;
        }
        Ok(())
    }

    /// Executes an instruction on blocks, but for the end of one.
    pub fn exec_block_instruction(&mut self, op: u8) -> (r: Result<(), WasmError>)
        requires
            old(self).wf(),
        ensures
            (final(self)@, r) == block_instruction(old(self)@, op),
            final(self).wf(),
    {
        match op {
            0x02 => self.exec_block(false),
            0x03 => self.exec_block(true),
            0x04 => self.exec_if(),
            0x05 => {
                self.exec_else();
                Ok(())
            },
            0x06 => self.exec_legacy_try(),
            0x07 => {
                let _tag: u32 = self.read_leb128_u32()?;
                self.skip_handlers()
            },
            0x0C | 0x0D | 0x0E => self.exec_branching(op),
            0x18 => self.exec_delegate(),
            0x19 => self.skip_handlers(),
            0x1F => self.exec_try_table(),
            _ => Ok(()),
        }
    }
}

/// Reading clauses moves only the position in the code.
proof fn read_clauses_stay(m: Machine, n: nat, read: Seq<CatchClause>)
    ensures
        read_clauses(m, n, read).0 == m.at(read_clauses(m, n, read).0.pc),
    decreases n,
{
    if n > 0 {
        let r = read_clause(m);
        if let Ok(c) = r.1 {
            read_clauses_stay(
                r.0,
                (n - 1) as nat,
                if read.len() < MAX_CATCH_CLAUSES {
                    read.push(c)
                } else {
                    read
                },
            );
        }
    }
}

} // verus!
