use wasm::decode_types::{
    decode_reftype_from_stream, decode_reftype_real, decode_storage_type, decode_valtype, decode_valtype_from_stream,
    skip_storage_type,
};
use wasm::decoder::decode;
use wasm::gc_types::StorageType;
use wasm::init_expr::skip_init_expr;
use wasm::machine::CallFrame;
use wasm::module::{ExportDef, FuncDef, FuncTypeDef, ImportDef, WasmModule};
use wasm::types::{ValType, Value, WasmError};

const I32: u8 = 0x7F;
const I64: u8 = 0x7E;

fn leb(mut v: u32) -> Vec<u8> {
    let mut out = Vec::new();
    loop {
        let b = (v % 128) as u8;
        v /= 128;
        if v == 0 {
            out.push(b);
            return out;
        }
        out.push(b + 128);
    }
}

fn section(id: u8, body: &[u8]) -> Vec<u8> {
    let mut out = vec![id];
    out.extend(leb(body.len() as u32));
    out.extend(body);
    out
}

fn list(items: &[Vec<u8>]) -> Vec<u8> {
    let mut out = leb(items.len() as u32);
    for i in items {
        out.extend(i);
    }
    out
}

fn module(sections: &[Vec<u8>]) -> Vec<u8> {
    let mut out = vec![0x00, 0x61, 0x73, 0x6D, 0x01, 0x00, 0x00, 0x00];
    for s in sections {
        out.extend(s);
    }
    out
}

fn func_type(params: &[u8], results: &[u8]) -> Vec<u8> {
    let mut out = vec![0x60];
    out.extend(leb(params.len() as u32));
    out.extend(params);
    out.extend(leb(results.len() as u32));
    out.extend(results);
    out
}

/// A function body; `locals` are groups of a count and a type.
fn body(locals: &[(u32, u8)], code: &[u8]) -> Vec<u8> {
    let mut inner = leb(locals.len() as u32);
    for (n, t) in locals {
        inner.extend(leb(*n));
        inner.push(*t);
    }
    inner.extend(code);
    inner.push(0x0B);
    let mut out = leb(inner.len() as u32);
    out.extend(inner);
    out
}

fn error(bytes: &[u8]) -> WasmError {
    match decode(bytes) {
        Err(e) => e,
        Ok(_) => panic!("the module decodes"),
    }
}

#[test]
fn the_header_is_checked() {
    assert_eq!(error(&[]), WasmError::InvalidMagic);
    assert_eq!(error(&[0x00, 0x61, 0x73, 0x6E, 0x01, 0x00, 0x00, 0x00]), WasmError::InvalidMagic);
    assert_eq!(error(&[0x00, 0x61, 0x73, 0x6D, 0x02, 0x00, 0x00, 0x00]), WasmError::UnsupportedVersion);
    let m = decode(&module(&[])).expect("an empty module");
    assert_eq!((m.func_types.len(), m.functions.len(), m.start_func), (0, 0, None));
}

#[test]
fn sections_come_in_order_and_once() {
    let types = section(1, &list(&[]));
    let memories = section(5, &list(&[]));
    assert_eq!(error(&module(&[memories.clone(), types.clone()])), WasmError::InvalidSection);
    assert_eq!(error(&module(&[types.clone(), types.clone()])), WasmError::InvalidSection);
    assert_eq!(error(&module(&[section(14, &[])])), WasmError::InvalidSection);
    let custom = section(0, &[1, b'x', 1, 2, 3]);
    assert!(decode(&module(&[custom.clone(), types, custom.clone(), memories, custom])).is_ok());
}

#[test]
fn sections_fill_their_length() {
    assert_eq!(error(&module(&[section(1, &[0, 0])])), WasmError::InvalidSection);
    assert_eq!(error(&module(&[vec![1, 9, 0]])), WasmError::UnexpectedEnd);
    assert_eq!(error(&module(&[vec![1]])), WasmError::UnexpectedEnd);
}

#[test]
fn custom_sections_have_a_name() {
    assert_eq!(error(&module(&[section(0, &[1, 0xFF])])), WasmError::MalformedUtf8);
    assert_eq!(error(&module(&[section(0, &[5, b'a'])])), WasmError::UnexpectedEnd);
}

#[test]
fn data_counts_are_held_to() {
    let passive = section(11, &list(&[vec![0x01, 1, 7]]));
    let memory = section(5, &list(&[vec![0x00, 1]]));
    assert!(decode(&module(&[memory.clone(), section(12, &[1]), passive.clone()])).is_ok());
    assert_eq!(error(&module(&[memory.clone(), section(12, &[2]), passive])), WasmError::InvalidSection);
    assert_eq!(error(&module(&[memory, section(12, &[1])])), WasmError::InvalidSection);
}

#[test]
fn code_that_needs_a_data_count_has_one() {
    let parts = |with_count: bool| {
        let mut s = vec![
            section(1, &list(&[func_type(&[], &[])])),
            section(3, &list(&[vec![0]])),
            section(5, &list(&[vec![0x00, 1]])),
        ];
        if with_count {
            s.push(section(12, &[1]));
        }
        s.push(section(10, &list(&[body(&[], &[0xFC, 9, 0])])));
        s.push(section(11, &list(&[vec![0x01, 1, 7]])));
        module(&s)
    };
    assert!(decode(&parts(true)).is_ok());
    assert_eq!(error(&parts(false)), WasmError::InvalidSection);
}

#[test]
fn bodies_belong_to_functions() {
    let types = section(1, &list(&[func_type(&[], &[])]));
    let declared = section(3, &list(&[vec![0]]));
    let bodies = section(10, &list(&[body(&[], &[]), body(&[], &[])]));
    assert_eq!(error(&module(&[types, declared, bodies])), WasmError::FunctionNotFound(1));
}

#[test]
fn a_decoded_module_holds_what_was_written() {
    let m = decode(&module(&[
        section(1, &list(&[func_type(&[I32, I64], &[I32])])),
        section(3, &list(&[vec![0]])),
        section(4, &list(&[vec![0x70, 0x01, 2, 9]])),
        section(5, &list(&[vec![0x01, 1, 3]])),
        section(6, &list(&[vec![I64, 0x01, 0x42, 0x7B, 0x0B]])),
        section(10, &list(&[body(&[(2, I32), (1, I64)], &[0x20, 0])])),
    ]))
    .expect("it decodes");
    assert_eq!((m.func_types[0].param_count, m.func_types[0].params[1]), (2, ValType::I64));
    assert_eq!((m.tables[0].min, m.tables[0].max), (2, Some(9)));
    assert_eq!((m.memories[0].min_pages, m.memories[0].max_pages), (1, 3));
    assert!(m.has_memory);
    assert_eq!((m.globals[0].mutable, m.globals[0].init_value), (true, Value::I64(-5)));
    let f = &m.functions[0];
    assert_eq!((f.local_count, f.locals[0], f.locals[2]), (3, ValType::I32, ValType::I64));
    assert_eq!(&m.code[f.code_offset..f.code_offset + f.code_len], &[0x20, 0, 0x0B]);
}

#[test]
fn types_belong_to_groups() {
    let m = decode(&module(&[section(
        1,
        &list(&[
            func_type(&[], &[]),
            [vec![0x4E, 2], vec![0x5F, 1, 0x63, 0x02, 0x01], vec![0x5F, 1, 0x63, 0x01, 0x01]].concat(),
        ]),
    )]))
    .expect("it decodes");
    assert_eq!(m.sub_types.len(), 3);
    assert_eq!((m.sub_types[0].rec_group_start, m.sub_types[0].rec_group_size), (0, 1));
    assert_eq!((m.sub_types[2].rec_group_start, m.sub_types[2].rec_group_size), (1, 2));
    assert!(m.gc_enabled);
}

#[test]
fn value_types_are_read() {
    assert_eq!(decode_valtype(0x7F), Ok(ValType::I32));
    assert_eq!(decode_valtype(0x01), Err(WasmError::TypeMismatch));
    let mut pos = 0;
    assert_eq!(decode_valtype_from_stream(&[0x64, 0x70], &mut pos), Ok(ValType::NonNullableFuncRef));
    assert_eq!(pos, 2);
    pos = 0;
    assert_eq!(decode_storage_type(&[0x78], &mut pos), Ok(StorageType::I8));
    pos = 0;
    assert_eq!(skip_storage_type(&[0x63, 0x05], &mut pos), Ok(()));
    assert_eq!(pos, 2);
    pos = 0;
    assert_eq!(decode_reftype_real(&[0x6F], &mut pos), Ok(ValType::ExternRef));
    pos = 0;
    assert_eq!(decode_reftype_from_stream(&[0x7F], &mut pos), Err(WasmError::TypeMismatch));
    assert_eq!(StorageType::I16.unpack(), ValType::I32);
}

#[test]
fn initializers_are_skipped() {
    let mut pos = 0;
    assert_eq!(skip_init_expr(&[0x41, 0x80, 0x01, 0x0B, 0x00], &mut pos), Ok(()));
    assert_eq!(pos, 4);
    pos = 0;
    assert_eq!(skip_init_expr(&[0x41], &mut pos), Err(WasmError::UnexpectedEnd));
}

#[test]
fn blank_definitions() {
    assert_eq!(FuncTypeDef::empty().param_count, 0);
    assert_eq!((FuncDef::empty().code_len, FuncDef::empty().local_count), (0, 0));
    assert_eq!(ImportDef::empty().module_name_len, 0);
    assert_eq!(ExportDef::empty().name_len, 0);
    assert_eq!(CallFrame::zero().local_count, 0);
    assert_eq!(WasmModule::new().code.len(), 0);
}
