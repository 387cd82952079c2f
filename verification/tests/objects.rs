use wasm::const_eval::eval_gc_const_expr;
use wasm::decoder::decode;
use wasm::init_expr::{eval_init_expr_with_globals, scan_init_expr_info};
use wasm::machine::{ExecResult, GcObject, WasmInstance};
use wasm::types::{RuntimeClass, ValType, Value, WasmError};

const I32: u8 = 0x7F;

fn leb(mut v: u32) -> Vec<u8> {
    let mut out = Vec::new();
    loop {
        let b = (v % 128) as u8;
        v /= 128;
        if v == 0 {
            out.push(b);
            return out;
        }
        out.push(b + 128);
    }
}

fn section(id: u8, body: &[u8]) -> Vec<u8> {
    let mut out = vec![id];
    out.extend(leb(body.len() as u32));
    out.extend(body);
    out
}

fn list(items: &[Vec<u8>]) -> Vec<u8> {
    let mut out = leb(items.len() as u32);
    for i in items {
        out.extend(i);
    }
    out
}

fn module(sections: &[Vec<u8>]) -> Vec<u8> {
    let mut out = vec![0x00, 0x61, 0x73, 0x6D, 0x01, 0x00, 0x00, 0x00];
    for s in sections {
        out.extend(s);
    }
    out
}

fn func_type(params: &[u8], results: &[u8]) -> Vec<u8> {
    let mut out = vec![0x60];
    out.extend(leb(params.len() as u32));
    out.extend(params);
    out.extend(leb(results.len() as u32));
    out.extend(results);
    out
}

/// A function body; `locals` are groups of a count and a type.
fn body(locals: &[(u32, u8)], code: &[u8]) -> Vec<u8> {
    let mut inner = leb(locals.len() as u32);
    for (n, t) in locals {
        inner.extend(leb(*n));
        inner.push(*t);
    }
    inner.extend(code);
    inner.push(0x0B);
    let mut out = leb(inner.len() as u32);
    out.extend(inner);
    out
}

fn instance(bytes: &[u8], fuel: u64) -> WasmInstance {
    let m = decode(bytes).expect("the module decodes");
    match WasmInstance::with_class(m, fuel, RuntimeClass::Full) {
        Ok(i) => i,
        Err(e) => panic!("{e:?}"),
    }
}

fn returned(r: ExecResult) -> Value {
    match r {
        ExecResult::Returned(v) => v,
        other => panic!("{other:?}"),
    }
}

fn trapped(r: ExecResult) -> WasmError {
    match r {
        ExecResult::Trap(e) => e,
        other => panic!("{other:?}"),
    }
}

/// Types: a struct of a byte and a word, an array of words, an array of bytes, a
/// function type with the given result, and a substruct of the struct.
fn objects(result: u8, code: &[u8]) -> WasmInstance {
    let bytes = module(&[
        section(
            1,
            &list(&[
                vec![0x50, 0x00, 0x5F, 2, 0x78, 0x01, 0x7F, 0x01],
                vec![0x5E, 0x7F, 0x01],
                vec![0x5E, 0x78, 0x01],
                func_type(&[], &[result]),
                vec![0x4F, 0x01, 0, 0x5F, 2, 0x78, 0x01, 0x7F, 0x01],
            ]),
        ),
        section(3, &list(&[vec![3]])),
        section(12, &[1]),
        section(10, &list(&[body(&[(1, 0x6E)], code)])),
        section(11, &list(&[[vec![0x01, 8], vec![1, 0, 0, 0, 2, 0, 0, 0]].concat()])),
    ]);
    instance(&bytes, 1_000)
}

fn eval(code: &[u8]) -> ExecResult {
    objects(I32, code).call_func(0, &[])
}

#[test]
fn fields_are_read_back() {
    // struct.new (300, 7), field 0 without and with sign, field 1
    assert_eq!(returned(eval(&[0x41, 0xAC, 0x02, 0x41, 7, 0xFB, 0, 0, 0xFB, 4, 0, 0])), Value::I32(44));
    assert_eq!(returned(eval(&[0x41, 0xFF, 0x01, 0x41, 7, 0xFB, 0, 0, 0xFB, 3, 0, 0])), Value::I32(-1));
    assert_eq!(returned(eval(&[0x41, 0, 0x41, 7, 0xFB, 0, 0, 0xFB, 2, 0, 1])), Value::I32(7));
    // struct.new_default, set field 1 to 9
    let code = [0xFB, 1, 0, 0x22, 0, 0x41, 9, 0xFB, 5, 0, 1, 0x20, 0, 0xFB, 2, 0, 1];
    assert_eq!(returned(eval(&code)), Value::I32(9));
}

#[test]
fn null_objects_trap() {
    assert_eq!(trapped(eval(&[0xD0, 0x6B, 0xFB, 2, 0, 1])), WasmError::NullStructReference);
    assert_eq!(trapped(eval(&[0xD0, 0x6A, 0xFB, 15])), WasmError::NullArrayReference);
    assert_eq!(trapped(eval(&[0xD0, 0x6C, 0xFB, 29])), WasmError::NullI31Reference);
    assert_eq!(trapped(eval(&[0xD0, 0x6E, 0xD4, 0x1A, 0x41, 0])), WasmError::NullReference);
}

#[test]
fn elements_are_read_back() {
    // array.new 5 x 3, length and element
    assert_eq!(returned(eval(&[0x41, 5, 0x41, 3, 0xFB, 6, 1, 0xFB, 15])), Value::I32(3));
    assert_eq!(returned(eval(&[0x41, 5, 0x41, 3, 0xFB, 6, 1, 0x41, 2, 0xFB, 11, 1])), Value::I32(5));
    // array.new_fixed 1, 2, 3; set element 1 to 8
    let code = [
        0x41, 1, 0x41, 2, 0x41, 3, 0xFB, 8, 1, 3, 0x22, 0, 0x41, 1, 0x41, 8, 0xFB, 14, 1, 0x20, 0, 0x41, 1, 0xFB, 11,
        1,
    ];
    assert_eq!(returned(eval(&code)), Value::I32(8));
    assert_eq!(
        trapped(eval(&[0x41, 5, 0x41, 3, 0xFB, 6, 1, 0x41, 3, 0xFB, 11, 1])),
        WasmError::ArrayOutOfBounds
    );
}

#[test]
fn arrays_are_made_of_data() {
    let code = [0x41, 0, 0x41, 2, 0xFB, 9, 1, 0, 0x41, 1, 0xFB, 11, 1];
    assert_eq!(returned(eval(&code)), Value::I32(2));
    let code = [0x41, 4, 0x41, 2, 0xFB, 9, 1, 0, 0x41, 1, 0xFB, 11, 1];
    assert!(matches!(eval(&code), ExecResult::Trap(_)));
}

#[test]
fn arrays_are_filled_and_copied() {
    let code = [
        0x41, 4, 0xFB, 7, 1, 0x22, 0, 0x41, 1, 0x41, 6, 0x41, 2, 0xFB, 16, 1, 0x20, 0, 0x41, 2, 0xFB, 11, 1,
    ];
    assert_eq!(returned(eval(&code)), Value::I32(6));
    let code = [
        0x41, 1, 0x41, 2, 0x41, 3, 0xFB, 8, 1, 3, 0x22, 0, 0x41, 0, 0x20, 0, 0x41, 1, 0x41, 2, 0xFB, 17, 1, 1, 0x20,
        0, 0x41, 0, 0xFB, 11, 1,
    ];
    assert_eq!(returned(eval(&code)), Value::I32(2));
}

#[test]
fn types_of_objects_are_tested() {
    // a substruct is a struct, a struct is no substruct, null only where allowed
    assert_eq!(returned(eval(&[0xFB, 1, 4, 0xFB, 20, 0])), Value::I32(1));
    assert_eq!(returned(eval(&[0xFB, 1, 0, 0xFB, 20, 4])), Value::I32(0));
    assert_eq!(returned(eval(&[0xD0, 0x6B, 0xFB, 20, 0])), Value::I32(0));
    assert_eq!(returned(eval(&[0xD0, 0x6B, 0xFB, 21, 0])), Value::I32(1));
    assert_eq!(trapped(eval(&[0xFB, 1, 0, 0xFB, 22, 4, 0x1A, 0x41, 0])), WasmError::CastFailure);
    assert_eq!(returned(eval(&[0xFB, 1, 4, 0xFB, 22, 0, 0xFB, 2, 0, 1])), Value::I32(0));
}

#[test]
fn small_integers_are_references() {
    assert_eq!(returned(eval(&[0x41, 0x7F, 0xFB, 28, 0xFB, 29])), Value::I32(-1));
    assert_eq!(returned(eval(&[0x41, 0x7F, 0xFB, 28, 0xFB, 30])), Value::I32(0x7FFF_FFFF));
}

#[test]
fn references_are_compared() {
    assert_eq!(returned(eval(&[0xFB, 1, 0, 0x22, 0, 0x20, 0, 0xD3])), Value::I32(1));
    assert_eq!(returned(eval(&[0xFB, 1, 0, 0xFB, 1, 0, 0xD3])), Value::I32(0));
    assert_eq!(returned(eval(&[0xD0, 0x6E, 0xD1])), Value::I32(1));
}

#[test]
fn branches_on_null() {
    let code = [0x02, 0x40, 0xD0, 0x6E, 0xD5, 0, 0x1A, 0x41, 1, 0x0F, 0x0B, 0x41, 2];
    assert_eq!(returned(eval(&code)), Value::I32(2));
    let code = [0x02, 0x6E, 0xFB, 1, 0, 0xD6, 0, 0x41, 1, 0x0F, 0x0B, 0x1A, 0x41, 3];
    assert_eq!(returned(eval(&code)), Value::I32(3));
}

#[test]
fn unknown_object_instructions_trap() {
    assert_eq!(trapped(eval(&[0xFB, 99])), WasmError::UnsupportedProposal);
}

#[test]
fn constant_expressions_make_objects() {
    let bytes = module(&[
        section(1, &list(&[vec![0x5F, 2, 0x78, 0x01, 0x7F, 0x01], vec![0x5E, 0x7F, 0x01]])),
        section(
            6,
            &list(&[
                vec![0x63, 0x6B, 0x00, 0x41, 0xAC, 0x02, 0x41, 5, 0xFB, 0, 0, 0x0B],
                vec![0x63, 0x6A, 0x00, 0x41, 7, 0x41, 3, 0xFB, 6, 1, 0x0B],
            ]),
        ),
    ]);
    let inst = instance(&bytes, 0);
    assert_eq!(inst.globals, vec![Value::GcRef(0), Value::GcRef(1)]);
    assert_eq!(inst.gc_heap.len(), 2);
    match &inst.gc_heap[0] {
        GcObject::Struct { type_idx, fields } => {
            assert_eq!((*type_idx, fields), (0, &vec![Value::I32(44), Value::I32(5)]));
        }
        other => panic!("{other:?}"),
    }
    assert_eq!(inst.gc_heap[1].type_idx(), 1);
}

#[test]
fn constant_expressions_are_evaluated() {
    let m = decode(&module(&[])).unwrap();
    let globals = vec![Value::I32(30)];
    let mut heap = Vec::new();
    let sum = [0x23, 0, 0x41, 12, 0x6A, 0x0B];
    assert_eq!(eval_gc_const_expr(&m, &globals, &mut heap, &sum), Some(Value::I32(42)));
    assert_eq!(eval_gc_const_expr(&m, &globals, &mut heap, &[0xD2, 5, 0x0B]), Some(Value::I32(5)));
    assert_eq!(eval_gc_const_expr(&m, &globals, &mut heap, &[0x01, 0x0B]), None);
    assert_eq!(eval_gc_const_expr(&m, &globals, &mut heap, &[0x41, 1]), None);
    assert_eq!(eval_gc_const_expr(&m, &globals, &mut heap, &[0x0B]), None);
    assert!(heap.is_empty());
    let mut pos = 0;
    assert_eq!(eval_init_expr_with_globals(&sum, &mut pos, &globals), Ok(Value::I32(42)));
    assert_eq!(pos, 6);
}

#[test]
fn initializers_are_described() {
    let info = scan_init_expr_info(&[0x23, 3, 0x41, 1, 0x6A, 0x0B], 0);
    assert_eq!((info.global_ref, info.stack_depth, info.has_non_const), (Some(3), 1, false));
    let info = scan_init_expr_info(&[0xD2, 4, 0x0B], 0);
    assert_eq!((info.func_ref, info.result_type), (Some(4), Some(ValType::TypedFuncRef)));
    assert!(scan_init_expr_info(&[0x20, 0, 0x0B], 0).has_non_const);
}
