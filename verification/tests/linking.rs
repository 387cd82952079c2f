use wasm::decoder::decode;
use wasm::exceptions::{tag_param_count, tag_type_idx, tags_match};
use wasm::gc_types::StorageType;
use wasm::host::{handle_host_call, resolve_import, HostFunc};
use wasm::instance::{
    bytes_to_string, copy_function_from_module, exported_global_index, exported_memory_index, exported_table_index,
    find_or_add_func_type, function_type, function_type_idx, nth_function_import,
};
use wasm::linker::{
    cross_module_storage_eq, cross_module_type_subtype, decode_valtype_byte, func_types_match,
    global_types_compatible, ref_types_compatible, type_indices_equivalent, value_matches_type,
};
use wasm::machine::{ExecResult, WasmInstance};
use wasm::module::{FuncTypeDef, ImportKind, WasmModule};
use wasm::types::{ValType, Value, WasmError};

const I32: u8 = 0x7F;
const I64: u8 = 0x7E;

fn leb(mut v: u32) -> Vec<u8> {
    let mut out = Vec::new();
    loop {
        let b = (v % 128) as u8;
        v /= 128;
        if v == 0 {
            out.push(b);
            return out;
        }
        out.push(b + 128);
    }
}

fn section(id: u8, body: &[u8]) -> Vec<u8> {
    let mut out = vec![id];
    out.extend(leb(body.len() as u32));
    out.extend(body);
    out
}

fn list(items: &[Vec<u8>]) -> Vec<u8> {
    let mut out = leb(items.len() as u32);
    for i in items {
        out.extend(i);
    }
    out
}

fn module(sections: &[Vec<u8>]) -> Vec<u8> {
    let mut out = vec![0x00, 0x61, 0x73, 0x6D, 0x01, 0x00, 0x00, 0x00];
    for s in sections {
        out.extend(s);
    }
    out
}

fn func_type(params: &[u8], results: &[u8]) -> Vec<u8> {
    let mut out = vec![0x60];
    out.extend(leb(params.len() as u32));
    out.extend(params);
    out.extend(leb(results.len() as u32));
    out.extend(results);
    out
}

/// A function body; `locals` are groups of a count and a type.
fn body(locals: &[(u32, u8)], code: &[u8]) -> Vec<u8> {
    let mut inner = leb(locals.len() as u32);
    for (n, t) in locals {
        inner.extend(leb(*n));
        inner.push(*t);
    }
    inner.extend(code);
    inner.push(0x0B);
    let mut out = leb(inner.len() as u32);
    out.extend(inner);
    out
}

fn returned(r: ExecResult) -> Value {
    match r {
        ExecResult::Returned(v) => v,
        other => panic!("{other:?}"),
    }
}

fn name(s: &str) -> Vec<u8> {
    let mut out = leb(s.len() as u32);
    out.extend(s.as_bytes());
    out
}

fn import(from: &str, field: &str, kind: &[u8]) -> Vec<u8> {
    [name(from), name(field), kind.to_vec()].concat()
}

fn export(field: &str, kind: u8, idx: u8) -> Vec<u8> {
    [name(field), vec![kind, idx]].concat()
}

/// Two imported functions, two defined ones, a table, a memory and a global, all
/// exported.
fn library() -> WasmModule {
    decode(&module(&[
        section(1, &list(&[func_type(&[I32], &[I32]), func_type(&[], &[I64])])),
        section(
            2,
            &list(&[
                import("env", "first", &[0x00, 0]),
                import("env", "limit", &[0x03, I32, 0x00]),
                import("atos", "log", &[0x00, 1]),
            ]),
        ),
        section(3, &list(&[vec![0], vec![1]])),
        section(4, &list(&[vec![0x70, 0x00, 1]])),
        section(5, &list(&[vec![0x00, 1]])),
        section(6, &list(&[vec![I32, 0x01, 0x41, 3, 0x0B]])),
        section(
            7,
            &list(&[
                export("run", 0x00, 2),
                export("table", 0x01, 0),
                export("memory", 0x02, 0),
                export("counter", 0x03, 1),
                export("run", 0x03, 0),
            ]),
        ),
        section(10, &list(&[body(&[], &[0x20, 0]), body(&[(1, I64)], &[0x42, 7])])),
    ]))
    .expect("the module decodes")
}

#[test]
fn exports_are_found_by_name_and_sort() {
    let m = library();
    assert_eq!(m.find_export_func(b"run"), Some(2));
    assert_eq!(m.find_export_func(b"walk"), None);
    assert_eq!(exported_global_index(&m, "counter"), Some(1));
    assert_eq!(exported_global_index(&m, "run"), Some(0));
    assert_eq!(exported_global_index(&m, "memory"), None);
    assert_eq!(exported_table_index(&m, "table"), Some(0));
    assert_eq!(exported_memory_index(&m, "memory"), Some(0));
    assert_eq!(exported_memory_index(&m, "table"), None);
}

#[test]
fn names_become_text() {
    let m = library();
    let e = m.exports[3];
    assert_eq!(bytes_to_string(m.get_name(e.name_offset, e.name_len)), "counter");
    assert_eq!(bytes_to_string(b""), "");
    assert_eq!(bytes_to_string("h\u{e9}".as_bytes()), "h\u{e9}");
    assert_eq!(bytes_to_string(&[b'a', 0xFF, b'b']), "a\u{FFFD}b");
}

#[test]
fn function_imports_are_counted() {
    let m = library();
    assert_eq!(m.func_import_count(), 2);
    assert_eq!((m.func_import_type(0), m.func_import_type(1), m.func_import_type(2)), (Some(0), Some(1), None));
    let second = nth_function_import(&m, 1).expect("there are two");
    assert_eq!(m.get_name(second.field_name_offset, second.field_name_len), b"log");
    assert!(matches!(second.kind, ImportKind::Func(1)));
    assert!(nth_function_import(&m, 2).is_none());
    assert_eq!(m.get_imports().len(), 3);
}

#[test]
fn functions_have_types() {
    let m = library();
    assert_eq!([0, 1, 2, 3].map(|f| function_type_idx(&m, f)), [Some(0), Some(1), Some(0), Some(1)]);
    assert_eq!(function_type_idx(&m, 4), None);
    let t = function_type(&m, 2).expect("it has one");
    assert_eq!((t.param_count, t.params[0], t.result_count), (1, ValType::I32, 1));
    assert!(function_type(&m, 9).is_none());
    assert!(m.types_structurally_equal(0, 0));
    assert!(!m.types_structurally_equal(0, 1));
}

#[test]
fn signatures_are_found_or_added() {
    let mut m = library();
    let known = m.func_types[1];
    assert_eq!(find_or_add_func_type(&mut m, &known), 1);
    assert_eq!(m.func_types.len(), 2);
    let mut other = FuncTypeDef::empty();
    other.param_count = 1;
    other.params[0] = ValType::F64;
    assert_eq!(find_or_add_func_type(&mut m, &other), 2);
    assert_eq!(find_or_add_func_type(&mut m, &other), 2);
    assert!(func_types_match(&m.func_types[2], &other));
    assert!(!func_types_match(&m.func_types[1], &other));
}

#[test]
fn functions_move_between_modules() {
    let src = library();
    let mut host = decode(&module(&[])).expect("an empty module");
    assert_eq!(copy_function_from_module(&mut host, &src, 0), 0);
    assert_eq!(host.functions.len(), 0);
    assert_eq!(copy_function_from_module(&mut host, &src, 3), 0);
    assert_eq!(copy_function_from_module(&mut host, &src, 2), 1);
    assert_eq!(host.func_types.len(), 2);
    let mut inst = match WasmInstance::new(host, 100) {
        Ok(i) => i,
        Err(e) => panic!("{e:?}"),
    };
    assert_eq!(returned(inst.call_func(0, &[])), Value::I64(7));
    assert_eq!(returned(inst.call_func(1, &[Value::I32(5)])), Value::I32(5));
}

fn types(defs: &[Vec<u8>]) -> WasmModule {
    decode(&module(&[section(1, &list(defs))])).expect("the types decode")
}

#[test]
fn types_are_equivalent_across_modules() {
    let a = types(&[func_type(&[I32], &[]), vec![0x5F, 1, 0x63, 0x00, 0x00]]);
    let b = types(&[func_type(&[I64], &[]), func_type(&[I32], &[]), vec![0x5F, 1, 0x63, 0x01, 0x00]]);
    assert!(type_indices_equivalent(&a, 0, &b, 1));
    assert!(!type_indices_equivalent(&a, 0, &b, 0));
    assert!(type_indices_equivalent(&a, 1, &b, 2));
    assert!(type_indices_equivalent(&b, 2, &a, 1));
    assert!(!type_indices_equivalent(&a, 1, &b, 1));
    assert!(!type_indices_equivalent(&a, 9, &b, 9));
}

#[test]
fn subtypes_are_found_across_modules() {
    let a = types(&[vec![0x50, 0, 0x5F, 0], vec![0x50, 1, 0, 0x5F, 1, I32, 0x00]]);
    let b = types(&[vec![0x50, 0, 0x5F, 0]]);
    assert!(cross_module_type_subtype(&a, 1, &b, 0));
    assert!(cross_module_type_subtype(&a, 0, &b, 0));
    assert!(!cross_module_type_subtype(&b, 0, &a, 1));
    assert!(a.gc_is_subtype(1, 0));
    assert!(!a.gc_is_subtype(0, 1));
    let i8_storage = StorageType::I8;
    let i16_storage = StorageType::I16;
    assert!(cross_module_storage_eq(&i8_storage, 0, &a, &i8_storage, 0, &b, 1));
    assert!(!cross_module_storage_eq(&i8_storage, 0, &a, &i16_storage, 0, &b, 1));
}

#[test]
fn global_types_are_compared() {
    assert!(global_types_compatible(ValType::ExternRef, 0x6F, None, ValType::ExternRef, None, true));
    assert!(!global_types_compatible(ValType::ExternRef, 0x6F, None, ValType::FuncRef, None, false));
    assert!(global_types_compatible(ValType::FuncRef, 0x70, None, ValType::TypedFuncRef, Some(0), false));
    assert!(!global_types_compatible(ValType::FuncRef, 0x70, None, ValType::TypedFuncRef, Some(0), true));
    assert_eq!(decode_valtype_byte(0x7C), Some(ValType::F64));
    assert_eq!(decode_valtype_byte(0x00), None);
    assert!(ref_types_compatible(ValType::FuncRef, ValType::TypedFuncRef));
    assert!(!ref_types_compatible(ValType::FuncRef, ValType::ExternRef));
    assert!(value_matches_type(Value::I64(1), ValType::I64));
    assert!(!value_matches_type(Value::I64(1), ValType::I32));
    assert!(value_matches_type(Value::NullRef, ValType::FuncRef));
}

/// An instance that imports the given host function; `memory` says whether it has a
/// page of memory.
fn hosted(field: &str, memory: bool) -> WasmInstance {
    let mut sections = vec![
        section(1, &list(&[func_type(&[I32, I32, I32], &[I32])])),
        section(2, &list(&[import("atos", field, &[0x00, 0])])),
    ];
    if memory {
        sections.push(section(5, &list(&[vec![0x00, 1]])));
    }
    match WasmInstance::new(decode(&module(&sections)).expect("it decodes"), 123) {
        Ok(i) => i,
        Err(e) => panic!("{e:?}"),
    }
}

#[test]
fn host_functions_are_resolved_by_name() {
    let known = [
        ("sys_yield", HostFunc::SysYield),
        ("sys_send", HostFunc::SysSend),
        ("sys_recv", HostFunc::SysRecv),
        ("sys_exit", HostFunc::SysExit),
        ("sys_energy_get", HostFunc::SysEnergyGet),
        ("log", HostFunc::Log),
        ("other", HostFunc::Unknown),
    ];
    for (field, f) in known {
        assert_eq!(resolve_import(hosted(field, false).module(), 0), f);
    }
    assert_eq!(resolve_import(&library(), 0), HostFunc::Unknown);
    assert_eq!(resolve_import(&library(), 1), HostFunc::Log);
    assert_eq!(resolve_import(&library(), 7), HostFunc::Unknown);
}

#[test]
fn host_calls_are_answered() {
    let args = |a: i32, b: i32, c: i32| [Value::I32(a), Value::I32(b), Value::I32(c)];
    assert_eq!(handle_host_call(&mut hosted("sys_yield", false), 0, &[], 0), Ok(Some(Value::I32(0))));
    assert_eq!(handle_host_call(&mut hosted("sys_energy_get", false), 0, &[], 0), Ok(Some(Value::I64(123))));
    assert_eq!(handle_host_call(&mut hosted("other", false), 0, &[], 0), Err(WasmError::ImportNotFound(0)));
    for field in ["sys_send", "sys_recv"] {
        let mut inst = hosted(field, true);
        assert_eq!(handle_host_call(&mut inst, 0, &args(1, 65_530, 6), 3), Ok(Some(Value::I32(0))));
        assert_eq!(handle_host_call(&mut inst, 0, &args(1, 65_530, 7), 3), Err(WasmError::MemoryOutOfBounds));
        assert_eq!(handle_host_call(&mut inst, 0, &args(1, -1, 1), 3), Err(WasmError::MemoryOutOfBounds));
        assert_eq!(handle_host_call(&mut inst, 0, &args(1, 0, -1), 3), Err(WasmError::MemoryOutOfBounds));
    }
    assert_eq!(handle_host_call(&mut hosted("log", true), 0, &args(0, 4, 0), 2), Ok(None));
    assert_eq!(handle_host_call(&mut hosted("log", false), 0, &args(0, 4, 0), 2), Err(WasmError::MemoryOutOfBounds));
    let mut inst = hosted("sys_exit", false);
    assert_eq!(handle_host_call(&mut inst, 0, &args(9, 0, 0), 1), Ok(Some(Value::I32(9))));
    assert!(inst.finished);
}

#[test]
fn tags_are_the_same_by_import() {
    let m = decode(&module(&[
        section(1, &list(&[func_type(&[I32], &[])])),
        section(
            2,
            &list(&[
                import("env", "tag", &[0x04, 0x00, 0]),
                import("env", "tag", &[0x04, 0x00, 0]),
                import("env", "gat", &[0x04, 0x00, 0]),
            ]),
        ),
    ]))
    .expect("it decodes");
    assert!(tags_match(&m, 0, 1));
    assert!(!tags_match(&m, 0, 2));
    assert!(tags_match(&m, 2, 2));
    assert_eq!(tag_type_idx(&m, 2), Some(0));
    assert_eq!(tag_type_idx(&m, 3), None);
    assert_eq!(tag_param_count(&m, 0), 1);
}
