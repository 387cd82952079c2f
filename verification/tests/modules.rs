use wasm::decode_code::decode_code_section;
use wasm::decode_sections::{decode_export_section, decode_import_section, decode_memory_section};
use wasm::decode_types::{decode_type_section, decode_valtype_gc_aware, decode_valtype_gc_aware_with_limit};
use wasm::decoder::decode;
use wasm::gc_types::{GcTypeDef, StorageType, SubTypeInfo};
use wasm::init_expr::scan_init_expr_info;
use wasm::instance::{copy_function_from_module, find_or_add_func_type};
use wasm::instantiate::can_instantiate;
use wasm::linker::type_indices_equivalent;
use wasm::machine::{ExecResult, GcObject, WasmInstance};
use wasm::module::{FuncDef, FuncTypeDef, WasmModule};
use wasm::scan::scan_legacy_try;
use wasm::types::{RuntimeClass, ValType, Value, WasmError};

const I32: u8 = 0x7F;

fn leb(mut v: u32) -> Vec<u8> {
    let mut out = Vec::new();
    loop {
        let b = (v % 128) as u8;
        v /= 128;
        if v == 0 {
            out.push(b);
            return out;
        }
        out.push(b + 128);
    }
}

fn section(id: u8, body: &[u8]) -> Vec<u8> {
    let mut out = vec![id];
    out.extend(leb(body.len() as u32));
    out.extend(body);
    out
}

fn list(items: &[Vec<u8>]) -> Vec<u8> {
    let mut out = leb(items.len() as u32);
    for i in items {
        out.extend(i);
    }
    out
}

fn module(sections: &[Vec<u8>]) -> Vec<u8> {
    let mut out = vec![0x00, 0x61, 0x73, 0x6D, 0x01, 0x00, 0x00, 0x00];
    for s in sections {
        out.extend(s);
    }
    out
}

fn func_type(params: &[u8], results: &[u8]) -> Vec<u8> {
    let mut out = vec![0x60];
    out.extend(leb(params.len() as u32));
    out.extend(params);
    out.extend(leb(results.len() as u32));
    out.extend(results);
    out
}

/// A function body; `locals` are groups of a count and a type.
fn body(locals: &[(u32, u8)], code: &[u8]) -> Vec<u8> {
    let mut inner = leb(locals.len() as u32);
    for (n, t) in locals {
        inner.extend(leb(*n));
        inner.push(*t);
    }
    inner.extend(code);
    inner.push(0x0B);
    let mut out = leb(inner.len() as u32);
    out.extend(inner);
    out
}

fn instance(bytes: &[u8], fuel: u64) -> WasmInstance {
    let m = decode(bytes).expect("the module decodes");
    match WasmInstance::with_class(m, fuel, RuntimeClass::Full) {
        Ok(i) => i,
        Err(e) => panic!("{e:?}"),
    }
}

fn returned(r: ExecResult) -> Value {
    match r {
        ExecResult::Returned(v) => v,
        other => panic!("{other:?}"),
    }
}

/// A module of types only.
fn types(entries: &[Vec<u8>]) -> WasmModule {
    decode(&module(&[section(1, &list(entries))])).expect("the types decode")
}

/// The end of a legacy `try` block without handlers.
fn try_end(code: &[u8]) -> usize {
    let mut pos = 0;
    match scan_legacy_try(code, &mut pos, false) {
        Ok((handlers, label)) => assert_eq!((handlers.len(), label), (0, u32::MAX)),
        Err(e) => panic!("{e:?}"),
    }
    pos
}

#[test]
fn immediates_in_a_legacy_try_are_skipped() {
    assert_eq!(try_end(&[0x3F, 0x00, 0x0B]), 3);
    assert_eq!(try_end(&[0x40, 0x00, 0x0B]), 3);
    assert_eq!(try_end(&[0x1C, 0x01, 0x7F, 0x0B]), 4);
    assert_eq!(try_end(&[0xD5, 0x0B, 0x0B]), 3);
    assert_eq!(try_end(&[0xD6, 0x0B, 0x0B]), 3);
    assert_eq!(try_end(&[0x28, 0x02, 0x0B, 0x0B]), 4);
    assert_eq!(try_end(&[0x43, 0x0B, 0x0B, 0x0B, 0x0B, 0x0B]), 6);
    assert_eq!(try_end(&[[0xFD, 0x0D].as_slice(), &[0x0B; 17]].concat()), 19);
    assert_eq!(try_end(&[0xFB, 0x02, 0x0B, 0x0B, 0x0B]), 5);
    assert_eq!(try_end(&[0xFB, 0x1E, 0x0B]), 3);
    assert_eq!(try_end(&[0xFC, 0x10, 0x0B, 0x0B]), 4);
    assert_eq!(try_end(&[0xFE, 0x10, 0x02, 0x0B, 0x0B]), 5);
}

#[test]
fn the_first_memory_is_noted() {
    let two = [2, 1, 0x61, 1, 0x62, 2, 4, 1, 1, 0x61, 1, 0x63, 2, 0, 1];
    let mut m = WasmModule::new();
    let mut pos = 0;
    assert_eq!(decode_import_section(&two, &mut pos, &mut m), Ok(()));
    assert_eq!((pos, m.memories.len()), (15, 2));
    assert!(m.memories[0].is_memory64 && !m.memories[1].is_memory64);
    assert!(m.is_memory64);
    let mut pos = 0;
    assert_eq!(decode_memory_section(&[1, 8, 1, 0], &mut pos, &mut m), Ok(()));
    assert_eq!(m.memories[2].page_size_log2, Some(0));
    assert!(m.is_memory64);
    assert_eq!(m.page_size_log2, None);
    let mut alone = WasmModule::new();
    let mut pos = 0;
    assert_eq!(decode_memory_section(&[1, 8, 1, 0], &mut pos, &mut alone), Ok(()));
    assert_eq!(alone.page_size_log2, Some(0));
}

#[test]
fn added_signatures_have_their_entries() {
    let mut m = types(&[func_type(&[], &[])]);
    let mut ft = FuncTypeDef::empty();
    ft.param_count = 1;
    assert_eq!(find_or_add_func_type(&mut m, &ft), 1);
    assert_eq!((m.func_types.len(), m.gc_types.len(), m.sub_types.len()), (2, 2, 2));
    assert!(matches!(m.gc_types[1], GcTypeDef::Func));
    let info = m.sub_types[1];
    assert_eq!((info.supertype, info.is_final), (None, true));
    assert_eq!((info.rec_group_start, info.rec_group_size), (1, 1));
    assert!(type_indices_equivalent(&m, 1, &m, 1));

    let src = decode(&module(&[
        section(1, &list(&[func_type(&[I32], &[I32])])),
        section(3, &list(&[vec![0]])),
        section(10, &list(&[body(&[], &[0x20, 0])])),
    ]))
    .expect("it decodes");
    assert_eq!(copy_function_from_module(&mut m, &src, 0), 0);
    assert_eq!((m.func_types.len(), m.gc_types.len(), m.sub_types.len()), (3, 3, 3));
}

#[test]
fn short_reference_types_turn_object_types_on() {
    for (byte, t) in [(0x73, ValType::NullFuncRef), (0x72, ValType::NullExternRef), (0x71, ValType::NoneRef)] {
        let mut m = WasmModule::new();
        let mut pos = 0;
        assert_eq!(decode_valtype_gc_aware(&[byte], &mut pos, &mut m), Ok(t));
        assert_eq!((pos, m.gc_enabled), (1, true));
    }
    for byte in [0x7F, 0x7B, 0x70, 0x6F] {
        let mut m = WasmModule::new();
        let mut pos = 0;
        assert!(decode_valtype_gc_aware(&[byte], &mut pos, &mut m).is_ok());
        assert!(!m.gc_enabled);
    }
}

#[test]
fn types_that_refer_to_themselves_are_noted_outside_groups() {
    let itself = vec![0x5F, 1, 0x63, 0x00, 0x00];
    assert!(types(&[itself.clone()]).has_self_ref_types);
    let group = [vec![0x4E, 1], itself].concat();
    assert!(!types(&[group]).has_self_ref_types);
}

#[test]
fn bodies_are_read_into_any_module() {
    let mut m = WasmModule::new();
    m.func_types.push(FuncTypeDef::empty());
    m.functions.push(FuncDef::empty());
    let mut pos = 0;
    let r = decode_code_section(&[1, 6, 1, 2, 0x7E, 0x01, 0x01, 0x0B], &mut pos, 8, &mut m);
    assert_eq!((r, pos), (Ok(()), 8));
    assert_eq!(m.code, vec![0x01, 0x01, 0x0B]);
    let f = &m.functions[0];
    assert_eq!((f.code_offset, f.code_len, f.local_count), (0, 3, 2));
    assert_eq!(f.locals[0..2], [ValType::I64, ValType::I64]);
    assert_eq!(f.non_nullable_locals, vec![false, false]);
    assert!(!m.code_uses_data_count);
}

#[test]
fn instructions_that_name_data_are_found() {
    let uses = |code: &[u8]| {
        let mut m = WasmModule::new();
        m.functions.push(FuncDef::empty());
        let bytes = list(&[body(&[], code)]);
        let mut pos = 0;
        assert_eq!(decode_code_section(&bytes, &mut pos, bytes.len(), &mut m), Ok(()));
        m.code_uses_data_count
    };
    assert!(uses(&[0x41, 0, 0x41, 0, 0x41, 0, 0xFC, 8, 0, 0]));
    assert!(uses(&[0xFC, 9, 0]));
    assert!(!uses(&[0x41, 0xFC, 0x08, 0x1A]));
    assert!(!uses(&[0xFC, 11, 0]));
    // The flags of the load announce a memory index, which counts only with several memories.
    assert!(uses(&[0x28, 0x40, 0, 0xFC, 8, 0, 0]));
    assert!(uses(&[0x28, 0x40, 1, 0x41, 0xFC, 8, 0, 0]));
    assert!(!uses(&[0x28, 0x02, 0xFC, 8, 0x1A]));
    let bytes = module(&[
        section(1, &list(&[func_type(&[], &[])])),
        section(3, &list(&[vec![0]])),
        section(10, &list(&[body(&[], &[0x28, 0x40, 0, 0xFC, 8, 0, 0])])),
    ]);
    assert!(matches!(decode(&bytes), Err(WasmError::InvalidSection)));
}

#[test]
fn failed_readings_leave_what_was_read() {
    // A second type of no known kind.
    let mut m = WasmModule::new();
    let mut pos = 0;
    let r = decode_type_section(&[2, 0x60, 1, I32, 0, 0x50, 0, 0x11], &mut pos, &mut m);
    assert_eq!((r, pos), (Err(WasmError::InvalidSection), 8));
    assert_eq!((m.func_types.len(), m.gc_types.len(), m.sub_types.len()), (1, 1, 1));
    assert!(m.gc_enabled);
    // A type index past the types.
    let mut m = WasmModule::new();
    let mut pos = 0;
    let r = decode_valtype_gc_aware_with_limit(&[0x63, 5], &mut pos, &mut m, 1);
    assert_eq!((r, pos, m.gc_enabled), (Err(WasmError::TypeMismatch), 2, true));
    // An imported memory with unknown flags.
    let mut m = WasmModule::new();
    let mut pos = 0;
    let r = decode_import_section(&[1, 1, 0x61, 1, 0x62, 2, 0x10, 1], &mut pos, &mut m);
    assert_eq!(r, Err(WasmError::InvalidSection));
    assert_eq!((m.has_memory, m.memory_count, m.memories.len(), m.imports.len()), (true, 1, 0, 0));
    assert_eq!(m.names, b"ab".to_vec());
    // An export without an index.
    let mut m = WasmModule::new();
    let mut pos = 0;
    let r = decode_export_section(&[2, 1, 0x61, 0, 0, 1, 0x62, 0], &mut pos, &mut m);
    assert_eq!((r, pos), (Err(WasmError::UnexpectedEnd), 8));
    assert_eq!((m.exports.len(), m.names.len()), (1, 2));
    // More locals than there is room for.
    let mut m = WasmModule::new();
    m.functions.push(FuncDef::empty());
    let bytes = list(&[body(&[(3, 0x7E), (1_000_000, 0x7D)], &[])]);
    let mut pos = 0;
    let r = decode_code_section(&bytes, &mut pos, bytes.len(), &mut m);
    assert_eq!(r, Err(WasmError::TooManyFunctions));
    let f = &m.functions[0];
    assert_eq!((f.local_count, f.code_len, m.code.len()), (0, 0, 0));
    assert_eq!(f.locals[2..4], [ValType::I64, ValType::F32]);
    assert_eq!(f.non_nullable_locals.len(), f.locals.len());
}

#[test]
fn clones_are_alike() {
    let m = decode(&module(&[
        section(1, &list(&[vec![0x5F, 2, I32, 1, 0x78, 0], func_type(&[], &[])])),
        section(3, &list(&[vec![1]])),
        section(4, &list(&[vec![0x40, 0, 0x70, 0, 2, 0xD0, 0x70, 0x0B]])),
        section(6, &list(&[vec![I32, 1, 0x41, 7, 0x0B]])),
        section(9, &list(&[[vec![5, 0x70], list(&[vec![0xD2, 0, 0x0B]])].concat()])),
        section(10, &list(&[body(&[(2, I32)], &[])])),
    ]))
    .expect("it decodes");
    match (m.gc_types[0].clone(), m.gc_types[1].clone()) {
        (GcTypeDef::Struct { field_types, field_muts }, GcTypeDef::Func) => {
            assert_eq!(field_types, vec![StorageType::Val(ValType::I32), StorageType::I8]);
            assert_eq!(field_muts, vec![true, false]);
        },
        other => panic!("{other:?}"),
    }
    let (f, g) = (&m.functions[0], m.functions[0].clone());
    assert_eq!((f.type_idx, f.code_offset, f.code_len), (g.type_idx, g.code_offset, g.code_len));
    assert_eq!((f.local_count, f.locals, &f.non_nullable_locals), (g.local_count, g.locals, &g.non_nullable_locals));
    let t = m.tables[0].clone();
    assert_eq!((t.min, t.init_expr_bytes), (2, Some(vec![0xD0, 0x70, 0x0B])));
    let v = m.globals[0].clone();
    assert_eq!((v.mutable, v.init_value, v.init_expr_bytes), (true, Value::I32(7), vec![0x41, 7, 0x0B]));
    let e = m.element_segments[0].clone();
    assert_eq!((e.func_indices, e.item_expr_bytes), (vec![0], vec![vec![0xD2, 0, 0x0B]]));
    let o = GcObject::Array { type_idx: 3, elements: vec![Value::I32(1), Value::NullRef] };
    match o.clone() {
        GcObject::Array { type_idx, elements } => {
            assert_eq!((type_idx, elements), (3, vec![Value::I32(1), Value::NullRef]));
        },
        other => panic!("{other:?}"),
    }
    let none = SubTypeInfo::default();
    assert_eq!((none.supertype, none.is_final, none.rec_group_size), (None, false, 0));
}

#[test]
fn vector_instructions_are_not_constant() {
    let constant = [[0xFD, 12].as_slice(), &[0; 16], &[0x0B]].concat();
    assert!(!scan_init_expr_info(&constant, 0).has_non_const);
    let other = [[0xFD, 13].as_slice(), &[0; 16], &[0x0B]].concat();
    assert!(scan_init_expr_info(&other, 0).has_non_const);
}

#[test]
fn an_index_past_the_last_memory_stands_for_the_first() {
    let code = [0x41, 0, 0x41, 42, 0x36, 2, 0, 0x3F, 9];
    let inst_bytes = module(&[
        section(1, &list(&[func_type(&[], &[I32])])),
        section(3, &list(&[vec![0]])),
        section(5, &[1, 0, 3]),
        section(10, &list(&[body(&[], &code)])),
    ]);
    let mut inst = instance(&inst_bytes, 100);
    assert_eq!(inst.mem_size(0), 3 * 65536);
    assert_eq!(inst.mem_size(7), 3 * 65536);
    assert_eq!(returned(inst.call_func(0, &[])), Value::I32(3));
    assert_eq!(inst.mem_read(7, 0, 1).map(|b| b.to_vec()), Ok(vec![42]));
    let empty = instance(&module(&[]), 0);
    assert_eq!(empty.mem_size(0), 0);
}

#[test]
fn items_that_are_expressions_hold_their_values() {
    let code = [0x41, 0, 0x41, 0, 0x41, 2, 0xFC, 12, 0, 0, 0x41, 1, 0x25, 0];
    let bytes = module(&[
        section(1, &list(&[vec![0x5F, 0], func_type(&[], &[0x6B])])),
        section(3, &list(&[vec![1]])),
        section(4, &list(&[vec![0x6B, 0, 2]])),
        section(9, &list(&[[vec![5, 0x6B], list(&[vec![0xD0, 0x6B, 0x0B], vec![0xFB, 1, 0, 0x0B]])].concat()])),
        section(10, &list(&[body(&[], &code)])),
    ]);
    let mut inst = instance(&bytes, 100);
    assert_eq!(inst.module.element_segments[0].func_indices, vec![u32::MAX, 0x8000_0000]);
    assert_eq!(inst.elem_gc_values[0], vec![Value::NullRef, Value::GcRef(0)]);
    assert_eq!(returned(inst.call_func(0, &[])), Value::GcRef(0));
    assert_eq!(inst.tables[0], vec![None, Some(0x8000_0000)]);
}

#[test]
fn members_of_equivalent_groups_are_equivalent() {
    let pair = |first: Vec<u8>| [vec![0x4E, 2], first, vec![0x5F, 1, 0x63, 0x00, 0x00]].concat();
    let shifted = |first: Vec<u8>| [vec![0x4E, 2], first, vec![0x5F, 1, 0x63, 0x01, 0x00]].concat();
    let a = types(&[pair(vec![0x5F, 1, 0x63, 0x01, 0x00])]);
    let b = types(&[func_type(&[], &[]), shifted(vec![0x5F, 1, 0x63, 0x02, 0x00])]);
    assert_eq!(a.sub_types.iter().map(|s| s.rec_group_size).collect::<Vec<_>>(), vec![2, 2]);
    assert!(type_indices_equivalent(&a, 0, &b, 1));
    assert!(type_indices_equivalent(&a, 1, &b, 2));
    assert!(!type_indices_equivalent(&a, 0, &b, 2));
    for i in 0..2 {
        assert!(type_indices_equivalent(&a, i, &a, i));
        assert!(type_indices_equivalent(&b, i + 1, &a, i));
    }
    let c = types(&[func_type(&[], &[]), shifted(vec![0x5F, 1, 0x64, 0x02, 0x00])]);
    assert!(!type_indices_equivalent(&a, 0, &c, 1));
    assert!(!type_indices_equivalent(&a, 1, &c, 2));
}

#[test]
fn malformed_modules_are_told_apart() {
    let mut m = types(&[func_type(&[I32], &[])]);
    assert!(can_instantiate(&m));
    m.func_types[0].param_count = 255;
    assert!(!can_instantiate(&m));
    let mut m = WasmModule::new();
    let mut f = FuncDef::empty();
    f.code_len = 1;
    m.functions.push(f);
    assert!(!can_instantiate(&m));
    m.code.push(0x0B);
    assert!(can_instantiate(&m));
}
