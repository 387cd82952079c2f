//! Looking up what modules export and import, and moving functions between modules.

use vstd::prelude::*;
use vstd::utf8::{decode_utf8, encode_utf8, valid_utf8};
use crate::gc_types::{GcType, GcTypeDef, SubTypeInfo};
use crate::heap::func_type_of;
use crate::linker::func_types_match;
use crate::module::{
    bytes_equal, group_views, imported_at_most, imported_func_types, imported_prefix, ExportKind, Func, FuncDef,
    FuncType, FuncTypeDef, ImportDef, ImportKind, Module, WasmModule,
};

verus! {

broadcast use group_views;

// ---------------------------------------------------------------------------
// Exports

/// Where the index of an export that is no function belongs.
#[derive(Debug, Clone, Copy, PartialEq, Eq, Structural)]
pub enum Space {
    Globals,
    Tables,
    Memories,
}

/// The index that an export has in a space, `None` where it belongs elsewhere.
pub open spec fn index_in(k: ExportKind, space: Space) -> Option<u32> {
    match k {
        ExportKind::Global(i) => if space == Space::Globals {
            Some(i)
        } else {
            None
        },
        ExportKind::Table(i) => if space == Space::Tables {
            Some(i)
        } else {
            None
        },
        ExportKind::Memory(i) => if space == Space::Memories {
            Some(i)
        } else {
            None
        },
        _ => None,
    }
}

/// The index of the first export from `from` on that has this name and belongs to this
/// space.
pub open spec fn exported_index(m: Module, name: Seq<u8>, space: Space, from: int) -> Option<u32>
    decreases m.exports.len() - from,
{
    if from >= m.exports.len() {
        None
    } else {
        let e = m.exports[from];
        if m.name(e.name_offset as int, e.name_len as int) == name && index_in(e.kind, space) is Some {
            index_in(e.kind, space)
        } else {
            exported_index(m, name, space, from + 1)
        }
    }
}

fn find_exported(module: &WasmModule, name: &[u8], space: Space) -> (r: Option<u32>)
    ensures
        r == exported_index(module@, name@, space, 0),
{
    let mut i: usize = 0;
    while i < module.exports.len()
        invariant
            i <= module.exports@.len(),
            exported_index(module@, name@, space, 0) == exported_index(module@, name@, space, i as int),
        decreases module.exports@.len() - i,
    {
        let e = module.exports[i];
        if bytes_equal(module.get_name(e.name_offset, e.name_len), name) {
            match e.kind {
                ExportKind::Global(idx) => {
                    if space == Space::Globals {
                        return Some(idx);
                    }
                },
                ExportKind::Table(idx) => {
                    if space == Space::Tables {
                        return Some(idx);
                    }
                },
                ExportKind::Memory(idx) => {
                    if space == Space::Memories {
                        return Some(idx);
                    }
                },
                _ => {},
            }
        }
        i = i + 1;
    }
    None
}

/// The global exported under a name.
pub fn exported_global_index(module: &WasmModule, name: &str) -> (r: Option<u32>)
    ensures
        r == exported_index(module@, encode_utf8(name@), Space::Globals, 0),
{
    find_exported(module, name.as_bytes(), Space::Globals)
}

/// The table exported under a name.
pub fn exported_table_index(module: &WasmModule, name: &str) -> (r: Option<u32>)
    ensures
        r == exported_index(module@, encode_utf8(name@), Space::Tables, 0),
{
    find_exported(module, name.as_bytes(), Space::Tables)
}

/// The memory exported under a name.
pub fn exported_memory_index(module: &WasmModule, name: &str) -> (r: Option<u32>)
    ensures
        r == exported_index(module@, encode_utf8(name@), Space::Memories, 0),
{
    find_exported(module, name.as_bytes(), Space::Memories)
}

/// An index found under a name is that of an export with this name, and where none is
/// found there is no such export.
pub proof fn exported_index_is_exported(m: Module, name: Seq<u8>, space: Space, from: int)
    requires
        0 <= from,
    ensures
        exported_index(m, name, space, from) is Some <==> exists|i: int|
            from <= i < m.exports.len() && m.name(
                (#[trigger] m.exports[i]).name_offset as int,
                m.exports[i].name_len as int,
            ) == name && index_in(m.exports[i].kind, space) is Some,
        exported_index(m, name, space, from) matches Some(x) ==> exists|i: int|
            from <= i < m.exports.len() && m.name(
                (#[trigger] m.exports[i]).name_offset as int,
                m.exports[i].name_len as int,
            ) == name && index_in(m.exports[i].kind, space) == Some(x),
    decreases m.exports.len() - from,
{
    if from < m.exports.len() {
        exported_index_is_exported(m, name, space, from + 1);
        assert(m.exports[from] == m.exports[from]);
    }
}

// ---------------------------------------------------------------------------
// Names

/// The text that bytes stand for, where what is not UTF-8 is replaced.
pub uninterp spec fn lossy_text(bytes: Seq<u8>) -> Seq<char>;

/// Calls `String::from_utf8_lossy`: the text that the bytes stand for. Well-formed UTF-8
/// is decoded as it is; how other bytes are replaced is left open.
#[verifier::external_body]
fn text_of(bytes: &[u8]) -> (r: String)
    ensures
        r@ == lossy_text(bytes@),
        valid_utf8(bytes@) ==> r@ == decode_utf8(bytes@),
{
    String::from_utf8_lossy(bytes).into_owned()
}

/// The text of a name. What is not UTF-8 is replaced.
pub fn bytes_to_string(bytes: &[u8]) -> (r: String)
    ensures
        r@ == lossy_text(bytes@),
        valid_utf8(bytes@) ==> r@ == decode_utf8(bytes@),
{
    text_of(bytes)
}

// ---------------------------------------------------------------------------
// Functions

/// Of the imports from `from` on, the function import numbered `n`.
pub open spec fn nth_import(imports: Seq<ImportDef>, from: int, n: int) -> Option<ImportDef>
    decreases imports.len() - from,
{
    if from >= imports.len() {
        None
    } else if imports[from].kind is Func {
        if n == 0 {
            Some(imports[from])
        } else {
            nth_import(imports, from + 1, n - 1)
        }
    } else {
        nth_import(imports, from + 1, n)
    }
}

/// There are as many function imports as functions are imported, and each has the type
/// that is looked up under its number.
pub proof fn nth_import_has_its_type(m: Module, n: u32)
    ensures
        nth_import(m.imports, 0, n as int) is Some <==> n < m.imported_funcs().len(),
        nth_import(m.imports, 0, n as int) matches Some(d) ==> d.kind == ImportKind::Func(
            m.imported_funcs()[n as int],
        ),
{
    assert(m.imports.take(0) =~= Seq::empty());
    nth_import_from(m.imports, 0, n as int);
}

proof fn nth_import_from(imports: Seq<ImportDef>, from: int, n: int)
    requires
        0 <= from <= imports.len(),
        n >= 0,
    ensures
        ({
            let k = imported_func_types(imports.take(from)).len();
            let all = imported_func_types(imports);
            &&& nth_import(imports, from, n) is Some <==> k + n < all.len()
            &&& nth_import(imports, from, n) matches Some(d) ==> d.kind == ImportKind::Func(all[k + n])
        }),
    decreases imports.len() - from,
{
    let all = imported_func_types(imports);
    let k = imported_func_types(imports.take(from)).len();
    if from >= imports.len() {
        assert(imports.take(from) =~= imports);
    } else {
        assert(imports.take(from + 1).drop_last() =~= imports.take(from));
        imported_prefix(imports, from + 1);
        let upto = imported_func_types(imports.take(from + 1));
        assert(upto == all.subrange(0, upto.len() as int));
        if let ImportKind::Func(ti) = imports[from].kind {
            assert(upto[k as int] == ti);
            if n > 0 {
                nth_import_from(imports, from + 1, n - 1);
            }
        } else {
            nth_import_from(imports, from + 1, n);
        }
    }
}

/// The function import numbered `func_idx`.
pub fn nth_function_import(module: &WasmModule, func_idx: u32) -> (r: Option<&ImportDef>)
    ensures
        match r {
            Some(d) => nth_import(module@.imports, 0, func_idx as int) == Some(*d),
            None => nth_import(module@.imports, 0, func_idx as int) is None,
        },
{
    let mut left: u32 = func_idx;
    let mut i: usize = 0;
    while i < module.imports.len()
        invariant
            i <= module.imports@.len(),
            nth_import(module@.imports, 0, func_idx as int) == nth_import(module@.imports, i as int, left as int),
        decreases module.imports@.len() - i,
    {
        match module.imports[i].kind {
            ImportKind::Func(_) => {
                if left == 0 {
                    return Some(&module.imports[i]);
                }
                left = left - 1;
            },
            _ => {},
        }
        i = i + 1;
    }
    None
}

/// The type index of a function, imported or defined.
pub fn function_type_idx(module: &WasmModule, func_idx: u32) -> (r: Option<u32>)
    ensures
        r == func_type_of(module@, func_idx),
{
    module.func_type_index(func_idx)
}

/// The signature of a function, imported or defined.
pub open spec fn signature_of(m: Module, f: u32) -> Option<FuncType> {
    match func_type_of(m, f) {
        Some(t) => if t < m.func_types.len() {
            Some(m.func_types[t as int])
        } else {
            None
        },
        None => None,
    }
}

/// The signature of a function, imported or defined.
pub fn function_type(module: &WasmModule, func_idx: u32) -> (r: Option<&FuncTypeDef>)
    ensures
        match r {
            Some(ft) => signature_of(module@, func_idx) == Some(ft@),
            None => signature_of(module@, func_idx) is None,
        },
{
    match module.func_type_index(func_idx) {
        Some(t) => if (t as usize) < module.func_types.len() {
            Some(&module.func_types[t as usize])
        } else {
            None
        },
        None => None,
    }
}

/// The first of the types from `from` on that is this signature.
pub open spec fn type_position(types: Seq<FuncType>, ft: FuncType, from: int) -> Option<int>
    decreases types.len() - from,
{
    if from >= types.len() {
        None
    } else if types[from] == ft {
        Some(from)
    } else {
        type_position(types, ft, from + 1)
    }
}

proof fn type_position_is_it(types: Seq<FuncType>, ft: FuncType, from: int)
    requires
        0 <= from,
    ensures
        match type_position(types, ft, from) {
            Some(i) => from <= i < types.len() && types[i] == ft,
            None => forall|i: int| from <= i < types.len() ==> #[trigger] types[i] != ft,
        },
    decreases types.len() - from,
{
    if from < types.len() {
        type_position_is_it(types, ft, from + 1);
    }
}

/// The place of a type without a supertype that forms a recursion group of its own.
pub open spec fn alone(idx: u32) -> SubTypeInfo {
    SubTypeInfo { supertype: None, is_final: true, rec_group_start: idx, rec_group_size: 1 }
}

/// The module with a signature behind its types, a function type in a group of its own.
/// A list that has no entry for each of the other types gets none for this one.
pub open spec fn type_added(m: Module, ft: FuncType) -> Module {
    let n = m.func_types.len();
    Module {
        func_types: m.func_types.push(ft),
        gc_types: if m.gc_types.len() == n {
            m.gc_types.push(GcType::Func)
        } else {
            m.gc_types
        },
        sub_types: if m.sub_types.len() == n {
            m.sub_types.push(alone(n as u32))
        } else {
            m.sub_types
        },
        ..m
    }
}

/// The module with a signature among its types, and its index.
pub open spec fn type_found(m: Module, ft: FuncType) -> (Module, u32) {
    match type_position(m.func_types, ft, 0) {
        Some(i) => (m, i as u32),
        None => (type_added(m, ft), m.func_types.len() as u32),
    }
}

/// Finding or adding a signature gives the index of the signature. The types that were
/// there stay as they were, where each had its entry in every list, each still has, and
/// a second search finds the same index and adds nothing.
pub proof fn found_type_is_there(m: Module, ft: FuncType)
    requires
        m.func_types.len() <= u32::MAX,
    ensures
        ({
            let r = type_found(m, ft);
            &&& r.1 < r.0.func_types.len()
            &&& r.0.func_types[r.1 as int] == ft
            &&& m.func_types.is_prefix_of(r.0.func_types)
            &&& m.gc_types.is_prefix_of(r.0.gc_types)
            &&& m.sub_types.is_prefix_of(r.0.sub_types)
            &&& m.aligned() ==> r.0.aligned()
            &&& type_found(r.0, ft) == r
        }),
{
    let r = type_found(m, ft);
    type_position_is_it(m.func_types, ft, 0);
    type_position_is_it(r.0.func_types, ft, 0);
    if type_position(m.func_types, ft, 0) is None {
        let n = m.func_types.len() as int;
        assert(r.0.func_types[n] == ft);
        assert forall|k: int| 0 <= k < n implies #[trigger] r.0.func_types[k] != ft by {
            assert(m.func_types[k] != ft);
        }
    }
}

/// Adds a signature to a module, a function type in a group of its own.
fn add_func_type(module: &mut WasmModule, ft: &FuncTypeDef)
    requires
        old(module).wf(),
        ft.wf(),
    ensures
        final(module)@ == type_added(old(module)@, ft@),
        final(module).wf(),
        old(module).aligned() ==> final(module).aligned(),
{
    let n: usize = module.func_types.len();
    if module.gc_types.len() == n {
        module.gc_types.push(GcTypeDef::Func);
    }
    if module.sub_types.len() == n {
        module.sub_types.push(
            SubTypeInfo { supertype: None, is_final: true, rec_group_start: n as u32, rec_group_size: 1 },
        );
    }
    module.func_types.push(*ft);
}

/// The index of a signature among a module's types. It is added where it is missing.
pub fn find_or_add_func_type(module: &mut WasmModule, ft: &FuncTypeDef) -> (r: u32)
    requires
        old(module).wf(),
        ft.wf(),
    ensures
        (final(module)@, r) == type_found(old(module)@, ft@),
        final(module).wf(),
        old(module).aligned() ==> final(module).aligned(),
{
    let mut i: usize = 0;
    while i < module.func_types.len()
        invariant
            i <= module.func_types@.len(),
            module.wf(),
            ft.wf(),
            module == old(module),
            type_position(module@.func_types, ft@, 0) == type_position(module@.func_types, ft@, i as int),
        decreases module.func_types@.len() - i,
    {
        assert(module.func_types@[i as int].wf());
        if func_types_match(&module.func_types[i], ft) {
            return i as u32;
        }
        i = i + 1;
    }
    let idx: u32 = module.func_types.len() as u32;
    add_func_type(module, ft);
    idx
}

/// The host module with a function of another module appended, and the function's
/// number in it. A function that is imported, or that there is none of, stays where it
/// is.
pub open spec fn function_copied(host: Module, src: Module, f: u32) -> (Module, u32) {
    let li = f - src.imported_funcs().len();
    if li < 0 || li >= src.functions.len() {
        (host, f)
    } else {
        let fun = src.functions[li];
        let t = type_found(host, signature_or_empty(src, fun.type_idx));
        let copied = Func {
            type_idx: t.1,
            code_offset: host.code.len() as usize,
            non_nullable_locals: Seq::empty(),
            ..fun
        };
        (
            Module {
                code: host.code + src.code.subrange(fun.code_offset as int, fun.code_offset + fun.code_len),
                functions: host.functions.push(copied),
                ..t.0
            },
            (host.imported_funcs().len() + host.functions.len()) as u32,
        )
    }
}

/// A copied function has the signature and the code that it had, and everything that
/// was in the host module stays where it was.
pub proof fn copy_keeps_function(host: Module, src: Module, f: u32)
    requires
        f >= src.imported_funcs().len(),
        f - src.imported_funcs().len() < src.functions.len(),
        signature_of(src, f) is Some,
        host.func_types.len() <= u32::MAX,
        host.imported_funcs().len() + host.functions.len() <= u32::MAX,
        host.code.len() <= usize::MAX,
        ({
            let fun = src.functions[f - src.imported_funcs().len()];
            fun.code_offset + fun.code_len <= src.code.len()
        }),
    ensures
        ({
            let c = function_copied(host, src, f);
            let fun = src.functions[f - src.imported_funcs().len()];
            let li = c.1 - c.0.imported_funcs().len();
            let copied = c.0.functions[li];
            &&& signature_of(c.0, c.1) == signature_of(src, f)
            &&& 0 <= li < c.0.functions.len()
            &&& c.0.code.subrange(copied.code_offset as int, copied.code_offset + copied.code_len)
                == src.code.subrange(fun.code_offset as int, fun.code_offset + fun.code_len)
            &&& copied.locals == fun.locals && copied.local_count == fun.local_count
            &&& host.functions.is_prefix_of(c.0.functions)
            &&& host.func_types.is_prefix_of(c.0.func_types)
            &&& host.aligned() ==> c.0.aligned()
            &&& host.code.is_prefix_of(c.0.code)
        }),
{
    let fun = src.functions[f - src.imported_funcs().len()];
    found_type_is_there(host, src.func_types[fun.type_idx as int]);
    let c = function_copied(host, src, f);
    let copied = c.0.functions[c.1 - c.0.imported_funcs().len()];
    assert(c.0.code.subrange(copied.code_offset as int, copied.code_offset + copied.code_len) =~= src.code.subrange(
        fun.code_offset as int,
        fun.code_offset + fun.code_len,
    ));
}

/// Appends code to a module.
fn append_code(module: &mut WasmModule, code: &[u8], from: usize, n: usize)
    requires
        old(module).wf(),
        from + n <= code@.len(),
    ensures
        final(module)@ == (Module {
            code: old(module)@.code + code@.subrange(from as int, from + n),
            ..old(module)@
        }),
        final(module).wf(),
{
    let total: usize = code.len();
    let mut i: usize = 0;
    assert(module.code@ =~= module.code@ + code@.subrange(from as int, from as int));
    while i < n
        invariant
            i <= n,
            total == code@.len(),
            from + n <= total,
            module.wf(),
            module@ == (Module {
                code: old(module)@.code + code@.subrange(from as int, from + i),
                ..old(module)@
            }),
        decreases n - i,
    {
        let ghost before = *module;
        module.code.push(code[from + i]);
        i = i + 1;
        proof {
            assert(module.code@ =~= old(module)@.code + code@.subrange(from as int, from + i));
            assert forall|k: int| 0 <= k < module.functions@.len() implies (
            #[trigger] module.functions@[k]).within(module.code@.len() as int) by {
                assert(before.functions@[k].within(before.code@.len() as int));
            }
            assert forall|k: int| 0 <= k < module.data_segments@.len() implies (
            #[trigger] module.data_segments@[k]).within(module.code@.len() as int) by {
                assert(before.data_segments@[k].within(before.code@.len() as int));
            }
        }
    }
}

/// Appends a function to a module.
fn append_function(module: &mut WasmModule, f: FuncDef)
    requires
        old(module).wf(),
        f.within(old(module).code@.len() as int),
    ensures
        final(module)@ == (Module { functions: old(module)@.functions.push(f@), ..old(module)@ }),
        final(module).wf(),
{
    module.functions.push(f);
}

/// The signature that a type index names in a module, or the empty one.
pub open spec fn signature_or_empty(m: Module, t: u32) -> FuncType {
    if t < m.func_types.len() {
        m.func_types[t as int]
    } else {
        FuncType { params: Seq::empty(), results: Seq::empty() }
    }
}

fn signature_at(module: &WasmModule, t: u32) -> (r: FuncTypeDef)
    requires
        module.wf(),
    ensures
        r.wf(),
        r@ == signature_or_empty(module@, t),
{
    if (t as usize) < module.func_types.len() {
        assert(module.func_types@[t as int].wf());
        module.func_types[t as usize]
    } else {
        FuncTypeDef::empty()
    }
}

/// Appends a function with its code, of which the module knows the type.
fn append_copy(module: &mut WasmModule, code: &[u8], fun: &FuncDef, type_idx: u32)
    requires
        old(module).wf(),
        fun.within(code@.len() as int),
    ensures
        final(module)@ == (Module {
            code: old(module)@.code + code@.subrange(fun.code_offset as int, fun.code_offset + fun.code_len),
            functions: old(module)@.functions.push(
                Func {
                    type_idx,
                    code_offset: old(module)@.code.len() as usize,
                    non_nullable_locals: Seq::empty(),
                    ..fun@
                },
            ),
            ..old(module)@
        }),
        final(module).wf(),
{
    let code_offset: usize = module.code.len();
    append_code(module, code, fun.code_offset, fun.code_len);
    let none: Vec<bool> = Vec::new();
    let copied = FuncDef {
        type_idx,
        code_offset,
        code_len: fun.code_len,
        local_count: fun.local_count,
        locals: fun.locals,
        non_nullable_locals: none,
    };
    assert(copied@ =~= (Func { type_idx, code_offset, non_nullable_locals: Seq::empty(), ..fun@ }));
    append_function(module, copied);
}

/// Appends a function of another module to the host module, and returns the function's
/// number in it. A function that is imported, or that there is none of, stays where it
/// is.
pub fn copy_function_from_module(host_module: &mut WasmModule, src_module: &WasmModule, func_idx: u32) -> (r: u32)
    requires
        old(host_module).wf(),
        src_module.wf(),
        old(host_module).imports@.len() + old(host_module).functions@.len() <= u32::MAX,
    ensures
        (final(host_module)@, r) == function_copied(old(host_module)@, src_module@, func_idx),
        final(host_module).wf(),
        old(host_module).aligned() ==> final(host_module).aligned(),
{
    let imported: usize = src_module.func_import_count();
    if (func_idx as usize) < imported || func_idx as usize - imported >= src_module.functions.len() {
        return func_idx;
    }
    let li: usize = func_idx as usize - imported;
    let fun = &src_module.functions[li];
    assert(src_module.functions@[li as int].within(src_module.code@.len() as int));
    let ft = signature_at(src_module, fun.type_idx);
    proof {
        imported_at_most(host_module.imports@);
    }
    let number: u32 = (host_module.func_import_count() + host_module.functions.len()) as u32;
    let type_idx: u32 = find_or_add_func_type(host_module, &ft);
    append_copy(host_module, src_module.code.as_slice(), fun, type_idx);
    number
}

} // verus!
