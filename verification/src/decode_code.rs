//! Decoding of the code section.

use vstd::prelude::*;
use crate::decode_sections::append_bytes;
use crate::decode_types::{decode_valtype_gc_aware_with_limit, valtype_gc, valtype_gc_moves, yields, Reading};
use crate::machine::CODE_MARGIN;
use crate::module::{group_views, Func, Module, WasmModule};
use crate::reader::{decode_leb128_u32, group_leb_moves, leb_u32};
use crate::scan::{instr_at, instr_moves, skip_instr};
use crate::types::{ValType, WasmError, MAX_CODE_SIZE, MAX_LOCALS};

verus! {

broadcast use {group_leb_moves, group_views, valtype_gc_moves};

/// A run of locals: how many, their type, and whether the type excludes null.
pub struct LocalRun {
    pub count: u32,
    pub ty: ValType,
    pub non_nullable: bool,
}

/// The locals that a run stands for.
pub open spec fn run_locals(count: nat, ty: ValType, non_nullable: bool) -> Seq<(ValType, bool)> {
    Seq::new(count, |i: int| (ty, non_nullable))
}

/// The locals that runs stand for.
pub open spec fn all_locals(runs: Seq<LocalRun>) -> Seq<(ValType, bool)>
    decreases runs.len(),
{
    if runs.len() == 0 {
        Seq::empty()
    } else {
        let l = runs.last();
        all_locals(runs.drop_last()) + run_locals(l.count as nat, l.ty, l.non_nullable)
    }
}

/// `n` runs of locals at `p`, after the locals in `acc`. A function has fewer than
/// two to the 32 locals.
pub open spec fn locals_at(
    s: Seq<u8>,
    p: int,
    n: nat,
    m: Module,
    limit: u32,
    acc: Seq<(ValType, bool)>,
) -> Reading<(Seq<(ValType, bool)>, Module)>
    decreases n,
{
    if n == 0 {
        (Ok((acc, m)), p)
    } else {
        let c = leb_u32(s, p);
        match c.0 {
            Err(e) => (Err((e, m)), c.1),
            Ok(count) => {
                let t = valtype_gc(s, c.1, m, limit);
                match t.0 {
                    Err(e) => (Err(e), t.1),
                    Ok((ty, m2)) => {
                        let next = acc + run_locals(count as nat, ty, s[c.1] == 0x64);
                        if next.len() > u32::MAX {
                            (Err((WasmError::InvalidSection, m2)), t.1)
                        } else {
                            locals_at(s, t.1, (n - 1) as nat, m2, limit, next)
                        }
                    },
                }
            },
        }
    }
}

/// Whether the instruction at `p` names a data segment: it copies from one or drops one.
pub open spec fn data_instr(code: Seq<u8>, p: int) -> bool {
    code[p] == 0xFC && (leb_u32(code, p + 1).0 matches Ok(sub) && (sub == 8 || sub == 9))
}

/// Whether an instruction from `p` on names a data segment, where memory arguments are
/// read with or without a memory index.
pub open spec fn names_data(code: Seq<u8>, p: int, multi_memory: bool) -> bool
    decreases code.len() - p,
{
    if p < 0 || p >= code.len() {
        false
    } else {
        let r = instr_at(code, p, multi_memory);
        data_instr(code, p) || (r.0 is Ok && p < r.1 < code.len() && names_data(code, r.1, multi_memory))
    }
}

/// Whether an instruction of the code names a data segment. Several memories may be
/// enabled once the module is decoded, so either way of reading memory arguments counts.
pub open spec fn uses_data(code: Seq<u8>) -> bool {
    names_data(code, 0, false) || names_data(code, 0, true)
}

/// The number of parameters of the type numbered `ti`, zero where there is none.
pub open spec fn param_count_of(m: Module, ti: u32) -> int {
    if ti < m.func_types.len() {
        m.func_types[ti as int].params.len() as int
    } else {
        0
    }
}

/// The first locals, as many as a function has room for.
pub open spec fn fitting(locals: Seq<(ValType, bool)>) -> Seq<(ValType, bool)> {
    if locals.len() <= MAX_LOCALS {
        locals
    } else {
        locals.take(MAX_LOCALS as int)
    }
}

/// The function `f` with these locals, which are not counted yet.
pub open spec fn with_locals(f: Func, locals: Seq<(ValType, bool)>) -> Func {
    Func {
        locals: Seq::new(
            f.locals.len(),
            |j: int|
                if j < locals.len() {
                    locals[j].0
                } else {
                    f.locals[j]
                },
        ),
        non_nullable_locals: Seq::new(locals.len(), |j: int| locals[j].1),
        ..f
    }
}

/// The module with `f` as its function numbered `i`.
pub open spec fn with_function(m: Module, i: int, f: Func) -> Module {
    Module { functions: m.functions.update(i, f), ..m }
}

/// The rest of the body of function `i`, whose locals have been read: the code
/// between `p` and `end`. It must close with an end marker. Locals that run past
/// the end of the body count as too much code.
pub open spec fn body_code(
    s: Seq<u8>,
    p: int,
    end: int,
    i: int,
    m: Module,
    locals: Seq<(ValType, bool)>,
) -> Reading<Module> {
    let f = with_locals(m.functions[i], fitting(locals));
    let counted = Func { local_count: locals.len() as u16, ..f };
    if locals.len() + param_count_of(m, f.type_idx) > MAX_LOCALS {
        (Err((WasmError::TooManyFunctions, with_function(m, i, f))), p)
    } else if s[end - 1] != 0x0B {
        (Err((WasmError::InvalidSection, with_function(m, i, counted))), p)
    } else if p > end || m.code.len() + (end - p) > MAX_CODE_SIZE {
        (Err((WasmError::CodeTooLarge, with_function(m, i, counted))), p)
    } else {
        let placed = Func { code_offset: m.code.len() as usize, code_len: (end - p) as usize, ..counted };
        (
            Ok(
                Module {
                    code: m.code + s.subrange(p, end),
                    code_uses_data_count: m.code_uses_data_count || uses_data(s.subrange(p, end)),
                    ..with_function(m, i, placed)
                },
            ),
            end,
        )
    }
}

/// The body of function `i` at `p`.
pub open spec fn body_at(s: Seq<u8>, p: int, i: int, m: Module) -> Reading<Module> {
    let z = leb_u32(s, p);
    match z.0 {
        Err(e) => (Err((e, m)), z.1),
        Ok(size) => if z.1 + size > s.len() {
            (Err((WasmError::UnexpectedEnd, m)), z.1)
        } else {
            let c = leb_u32(s, z.1);
            match c.0 {
                Err(e) => (Err((e, m)), c.1),
                Ok(runs) => if i >= m.functions.len() {
                    (Err((WasmError::FunctionNotFound(i as u32), m)), c.1)
                } else {
                    let l = locals_at(s, c.1, runs as nat, m, m.func_types.len() as u32, Seq::empty());
                    match l.0 {
                        Err(e) => (Err(e), l.1),
                        Ok((locals, m2)) => body_code(s, l.1, z.1 + size, i, m2, locals),
                    }
                },
            }
        },
    }
}

/// The bodies of the functions from `i` up to `n`, at `p`.
pub open spec fn bodies_at(s: Seq<u8>, p: int, i: nat, n: nat, m: Module) -> Reading<Module>
    decreases n - i,
{
    if i >= n {
        (Ok(m), p)
    } else {
        let r = body_at(s, p, i as int, m);
        match r.0 {
            Err(e) => (Err(e), r.1),
            Ok(m2) => bodies_at(s, r.1, i + 1, n, m2),
        }
    }
}

/// The code section between `p` and `end`.
pub open spec fn code_section(s: Seq<u8>, p: int, end: int, m: Module) -> Reading<Module> {
    let c = leb_u32(s, p);
    match c.0 {
        Err(e) => (Err((e, m)), c.1),
        Ok(count) => {
            let r = bodies_at(s, c.1, 0, count as nat, m);
            match r.0 {
                Err(e) => (Err(e), r.1),
                Ok(m2) => if r.1 != end {
                    (Err((WasmError::InvalidSection, m2)), r.1)
                } else {
                    (Ok(m2), r.1)
                },
            }
        },
    }
}

/// Whether an instruction of the code names a data segment, where memory arguments are
/// read with or without a memory index.
fn scan_data_use(code: &[u8], multi_memory: bool) -> (r: bool)
    requires
        code@.len() + CODE_MARGIN <= usize::MAX,
    ensures
        r == names_data(code@, 0, multi_memory),
{
    let mut p: usize = 0;
    while p < code.len()
        invariant
            p <= code@.len() + 16,
            code@.len() + CODE_MARGIN <= usize::MAX,
            names_data(code@, 0, multi_memory) == names_data(code@, p as int, multi_memory),
        decreases code@.len() + CODE_MARGIN - p,
    {
        if code[p] == 0xFC {
            let mut q: usize = p + 1;
            if let Ok(sub) = decode_leb128_u32(code, &mut q) {
                if sub == 8 || sub == 9 {
                    return true;
                }
            }
        }
        let ghost at = p as int;
        proof {
            instr_moves(code@, at, multi_memory);
        }
        if skip_instr(code, &mut p, multi_memory).is_err() {
            return false;
        }
    }
    false
}

/// Reads runs of locals; also returns how many locals there are.
fn decode_locals(bytes: &[u8], pos: &mut usize, n: u32, module: &mut WasmModule, limit: u32) -> (r: Result<
    (Vec<LocalRun>, u64),
    WasmError,
>)
    requires
        old(module).wf(),
    ensures
        ({
            let e = locals_at(bytes@, *old(pos) as int, n as nat, old(module)@, limit, Seq::empty());
            &&& *final(pos) == e.1
            &&& match r {
                Ok(l) => {
                    &&& e.0 == Ok::<(Seq<(ValType, bool)>, Module), (WasmError, Module)>(
                        (all_locals(l.0@), final(module)@),
                    )
                    &&& l.1 == all_locals(l.0@).len()
                    &&& l.1 <= u32::MAX
                },
                Err(x) => e.0 == Err::<(Seq<(ValType, bool)>, Module), (WasmError, Module)>((x, final(module)@)),
            }
        }),
        final(module).wf(),
        old(module).aligned() ==> final(module).aligned(),
        final(module).functions@ == old(module).functions@,
        final(module).func_types@ == old(module).func_types@,
{
    let mut runs: Vec<LocalRun> = Vec::new();
    let mut total: u64 = 0;
    let mut i: u32 = 0;
    while i < n
        invariant
            i <= n,
            module.wf(),
            old(module).aligned() ==> module.aligned(),
            module.functions@ == old(module).functions@,
            module.func_types@ == old(module).func_types@,
            total == all_locals(runs@).len(),
            total <= u32::MAX,
            locals_at(bytes@, *old(pos) as int, n as nat, old(module)@, limit, Seq::empty()) == locals_at(
                bytes@,
                *pos as int,
                (n - i) as nat,
                module@,
                limit,
                all_locals(runs@),
            ),
        decreases n - i,
    {
        let count: u32 = decode_leb128_u32(bytes, pos)?;
        let non_nullable: bool = *pos < bytes.len() && bytes[*pos] == 0x64;
        let ty = decode_valtype_gc_aware_with_limit(bytes, pos, module, limit)?;
        total = total + count as u64;
        let ghost before = runs@;
        runs.push(LocalRun { count, ty, non_nullable });
        assert(runs@.drop_last() =~= before);
        if total > u32::MAX as u64 {
            return Err(WasmError::InvalidSection);
        }
        i = i + 1;
    }
    Ok((runs, total))
}

/// The first locals that runs stand for, as many as a function has room for.
fn expand_locals(runs: &Vec<LocalRun>) -> (r: Vec<(ValType, bool)>)
    ensures
        r@ == fitting(all_locals(runs@)),
{
    let mut v: Vec<(ValType, bool)> = Vec::new();
    let mut i: usize = 0;
    while i < runs.len()
        invariant
            i <= runs@.len(),
            v@ == fitting(all_locals(runs@.take(i as int))),
        decreases runs@.len() - i,
    {
        let mut k: u32 = 0;
        let ghost before = all_locals(runs@.take(i as int));
        let ghost run = runs@[i as int];
        assert(before + run_locals(0, run.ty, run.non_nullable) =~= before);
        while k < runs[i].count && v.len() < MAX_LOCALS
            invariant
                i < runs@.len(),
                run == runs@[i as int],
                k <= run.count,
                v@ == fitting(before + run_locals(k as nat, run.ty, run.non_nullable)),
            decreases run.count - k,
        {
            v.push((runs[i].ty, runs[i].non_nullable));
            k = k + 1;
            assert(v@ =~= before + run_locals(k as nat, run.ty, run.non_nullable));
        }
        assert(runs@.take(i + 1).drop_last() =~= runs@.take(i as int));
        i = i + 1;
        assert(v@ =~= fitting(all_locals(runs@.take(i as int))));
    }
    assert(runs@.take(i as int) =~= runs@);
    v
}

/// Records the locals of function `i`.
fn set_locals(module: &mut WasmModule, i: usize, locals: &Vec<(ValType, bool)>)
    requires
        old(module).wf(),
        i < old(module).functions@.len(),
        locals@.len() <= MAX_LOCALS,
    ensures
        final(module)@ == with_function(
            old(module)@,
            i as int,
            with_locals(old(module)@.functions[i as int], locals@),
        ),
        final(module).wf(),
        old(module).aligned() ==> final(module).aligned(),
        final(module).functions@.len() == old(module).functions@.len(),
{
    let ghost f = module.functions@[i as int];
    let mut types: [ValType; MAX_LOCALS] = module.functions[i].locals;
    let mut nn: Vec<bool> = Vec::new();
    let mut j: usize = 0;
    while j < locals.len()
        invariant
            j <= locals@.len() <= MAX_LOCALS,
            nn@ == Seq::new(j as nat, |k: int| locals@[k].1),
            forall|k: int|
                0 <= k < MAX_LOCALS ==> types@[k] == (if k < j {
                    locals@[k].0
                } else {
                    f.locals@[k]
                }),
        decreases locals@.len() - j,
    {
        let l = locals[j];
        types[j] = l.0;
        nn.push(l.1);
        j = j + 1;
        assert(nn@ =~= Seq::new(j as nat, |k: int| locals@[k].1));
    }
    module.functions[i].locals = types;
    module.functions[i].non_nullable_locals = nn;
    let ghost g = with_locals(f@, locals@);
    assert(module.functions@[i as int]@ =~= g);
    assert(module@.functions =~= old(module)@.functions.update(i as int, g));
}

/// Records the number of locals of function `i`.
fn set_local_count(module: &mut WasmModule, i: usize, count: u16)
    requires
        old(module).wf(),
        i < old(module).functions@.len(),
        count <= MAX_LOCALS,
    ensures
        final(module)@ == with_function(
            old(module)@,
            i as int,
            (Func { local_count: count, ..old(module)@.functions[i as int] }),
        ),
        final(module).wf(),
        old(module).aligned() ==> final(module).aligned(),
        final(module).functions@.len() == old(module).functions@.len(),
{
    module.functions[i].local_count = count;
    assert(module@.functions =~= old(module)@.functions.update(
        i as int,
        (Func { local_count: count, ..old(module)@.functions[i as int] }),
    ));
}

/// Records the place of the code of function `i`.
fn set_code(module: &mut WasmModule, i: usize, code_offset: usize, code_len: usize)
    requires
        old(module).wf(),
        i < old(module).functions@.len(),
        code_offset + code_len <= old(module).code@.len(),
    ensures
        final(module)@ == with_function(
            old(module)@,
            i as int,
            (Func { code_offset, code_len, ..old(module)@.functions[i as int] }),
        ),
        final(module).wf(),
        old(module).aligned() ==> final(module).aligned(),
{
    module.functions[i].code_offset = code_offset;
    module.functions[i].code_len = code_len;
    assert(module@.functions =~= old(module)@.functions.update(
        i as int,
        (Func { code_offset, code_len, ..old(module)@.functions[i as int] }),
    ));
}

/// The number of parameters of function `i`.
fn count_params(module: &WasmModule, i: usize) -> (r: u8)
    requires
        module.wf(),
        i < module.functions@.len(),
    ensures
        r == param_count_of(module@, module@.functions[i as int].type_idx),
{
    let ti: usize = module.functions[i].type_idx as usize;
    if ti < module.func_types.len() {
        assert(module.func_types@[ti as int].wf());
        module.func_types[ti].param_count
    } else {
        0
    }
}

/// Copies the code of function `i` into the module.
fn copy_code(bytes: &[u8], from: usize, to: usize, module: &mut WasmModule)
    requires
        old(module).wf(),
        from <= to <= bytes@.len(),
        to - from <= MAX_CODE_SIZE,
    ensures
        final(module)@ == (Module {
            code: old(module)@.code + bytes@.subrange(from as int, to as int),
            code_uses_data_count: old(module)@.code_uses_data_count || uses_data(
                bytes@.subrange(from as int, to as int),
            ),
            ..old(module)@
        }),
        final(module).functions@ == old(module).functions@,
        final(module).wf(),
        old(module).aligned() ==> final(module).aligned(),
{
    let code = vstd::slice::slice_subrange(bytes, from, to);
    if !module.code_uses_data_count && (scan_data_use(code, false) || scan_data_use(code, true)) {
        module.code_uses_data_count = true;
    }
    append_bytes(&mut module.code, code);
}

/// Reads the code of function `i`, whose locals have been read.
fn decode_body_code(
    bytes: &[u8],
    pos: &mut usize,
    end: usize,
    i: usize,
    module: &mut WasmModule,
    runs: &Vec<LocalRun>,
    total: u64,
) -> (r: Result<(), WasmError>)
    requires
        old(module).wf(),
        i < old(module).functions@.len(),
        0 < end <= bytes@.len(),
        total == all_locals(runs@).len(),
        total <= u32::MAX,
    ensures
        yields(
            r,
            *final(pos),
            *final(module),
            body_code(bytes@, *old(pos) as int, end as int, i as int, old(module)@, all_locals(runs@)),
        ),
        final(module).wf(),
        old(module).aligned() ==> final(module).aligned(),
{
    let ghost m = module@;
    let locals = expand_locals(runs);
    set_locals(module, i, &locals);
    let ghost f = with_locals(m.functions[i as int], fitting(all_locals(runs@)));
    let params: u64 = count_params(module, i) as u64;
    if total + params > MAX_LOCALS as u64 {
        return Err(WasmError::TooManyFunctions);
    }
    set_local_count(module, i, total as u16);
    let ghost counted = Func { local_count: total as u16, ..f };
    assert(m.functions.update(i as int, f).update(i as int, counted) =~= m.functions.update(i as int, counted));
    if bytes[end - 1] != 0x0B {
        return Err(WasmError::InvalidSection);
    }
    if *pos > end || module.code.len() > MAX_CODE_SIZE || end - *pos > MAX_CODE_SIZE - module.code.len() {
        return Err(WasmError::CodeTooLarge);
    }
    let offset: usize = module.code.len();
    copy_code(bytes, *pos, end, module);
    set_code(module, i, offset, end - *pos);
    proof {
        let placed = Func { code_offset: offset, code_len: (end - *pos) as usize, ..counted };
        assert(m.functions.update(i as int, counted).update(i as int, placed) =~= m.functions.update(i as int, placed));
    }
    *pos = end;
    Ok(())
}

/// Reads the body of function `i`.
fn decode_body(bytes: &[u8], pos: &mut usize, i: usize, module: &mut WasmModule) -> (r: Result<(), WasmError>)
    requires
        old(module).wf(),
    ensures
        yields(r, *final(pos), *final(module), body_at(bytes@, *old(pos) as int, i as int, old(module)@)),
        final(module).wf(),
        old(module).aligned() ==> final(module).aligned(),
{
    let size: usize = decode_leb128_u32(bytes, pos)? as usize;
    if size > bytes.len() - *pos {
        return Err(WasmError::UnexpectedEnd);
    }
    let end: usize = *pos + size;
    let runs_count: u32 = decode_leb128_u32(bytes, pos)?;
    if i >= module.functions.len() {
        return Err(WasmError::FunctionNotFound(i as u32));
    }
    let limit: u32 = module.func_types.len() as u32;
    let (runs, total) = decode_locals(bytes, pos, runs_count, module, limit)?;
    decode_body_code(bytes, pos, end, i, module, &runs, total)
}

/// Reads the code section, which must end at `end`.
pub fn decode_code_section(bytes: &[u8], pos: &mut usize, end: usize, module: &mut WasmModule) -> (r: Result<
    (),
    WasmError,
>)
    requires
        old(module).wf(),
    ensures
        yields(r, *final(pos), *final(module), code_section(bytes@, *old(pos) as int, end as int, old(module)@)),
        final(module).wf(),
        old(module).aligned() ==> final(module).aligned(),
{
    let count: u32 = decode_leb128_u32(bytes, pos)?;
    let ghost p = *pos as int;
    let mut i: u32 = 0;
    while i < count
        invariant
            i <= count,
            module.wf(),
            old(module).aligned() ==> module.aligned(),
            leb_u32(bytes@, *old(pos) as int) == (Ok::<u32, WasmError>(count), p),
            bodies_at(bytes@, p, 0, count as nat, old(module)@) == bodies_at(
                bytes@,
                *pos as int,
                i as nat,
                count as nat,
                module@,
            ),
        decreases count - i,
    {
        decode_body(bytes, pos, i as usize, module)?;
        i = i + 1;
    }
    if *pos != end {
        return Err(WasmError::InvalidSection);
    }
    Ok(())
}

} // verus!
