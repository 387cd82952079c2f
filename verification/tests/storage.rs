use wasm::decoder::decode;
use wasm::instantiate::initial_globals;
use wasm::machine::{ExecResult, WasmInstance};
use wasm::types::{RuntimeClass, Value, WasmError};

const I32: u8 = 0x7F;
const I64: u8 = 0x7E;

fn leb(mut v: u32) -> Vec<u8> {
    let mut out = Vec::new();
    loop {
        let b = (v % 128) as u8;
        v /= 128;
        if v == 0 {
            out.push(b);
            return out;
        }
        out.push(b + 128);
    }
}

fn section(id: u8, body: &[u8]) -> Vec<u8> {
    let mut out = vec![id];
    out.extend(leb(body.len() as u32));
    out.extend(body);
    out
}

fn list(items: &[Vec<u8>]) -> Vec<u8> {
    let mut out = leb(items.len() as u32);
    for i in items {
        out.extend(i);
    }
    out
}

fn module(sections: &[Vec<u8>]) -> Vec<u8> {
    let mut out = vec![0x00, 0x61, 0x73, 0x6D, 0x01, 0x00, 0x00, 0x00];
    for s in sections {
        out.extend(s);
    }
    out
}

fn func_type(params: &[u8], results: &[u8]) -> Vec<u8> {
    let mut out = vec![0x60];
    out.extend(leb(params.len() as u32));
    out.extend(params);
    out.extend(leb(results.len() as u32));
    out.extend(results);
    out
}

/// A function body; `locals` are groups of a count and a type.
fn body(locals: &[(u32, u8)], code: &[u8]) -> Vec<u8> {
    let mut inner = leb(locals.len() as u32);
    for (n, t) in locals {
        inner.extend(leb(*n));
        inner.push(*t);
    }
    inner.extend(code);
    inner.push(0x0B);
    let mut out = leb(inner.len() as u32);
    out.extend(inner);
    out
}

fn instance(bytes: &[u8], fuel: u64) -> WasmInstance {
    let m = decode(bytes).expect("the module decodes");
    match WasmInstance::with_class(m, fuel, RuntimeClass::Full) {
        Ok(i) => i,
        Err(e) => panic!("{e:?}"),
    }
}

fn returned(r: ExecResult) -> Value {
    match r {
        ExecResult::Returned(v) => v,
        other => panic!("{other:?}"),
    }
}

fn trapped(r: ExecResult) -> WasmError {
    match r {
        ExecResult::Trap(e) => e,
        other => panic!("{other:?}"),
    }
}

/// An instance with one page of memory, a data segment "wasm" at 8, a passive segment
/// "data", and one function.
fn with_memory(params: &[u8], results: &[u8], code: &[u8]) -> WasmInstance {
    let bytes = module(&[
        section(1, &list(&[func_type(params, results)])),
        section(3, &list(&[vec![0]])),
        section(5, &list(&[vec![0x01, 1, 2]])),
        section(12, &[2]),
        section(10, &list(&[body(&[], code)])),
        section(
            11,
            &list(&[
                [vec![0x00, 0x41, 8, 0x0B, 4], b"wasm".to_vec()].concat(),
                [vec![0x01, 4], b"data".to_vec()].concat(),
            ]),
        ),
    ]);
    instance(&bytes, 1_000)
}

fn run(params: &[u8], results: &[u8], code: &[u8], args: &[Value]) -> ExecResult {
    with_memory(params, results, code).call_func(0, args)
}

#[test]
fn loads_read_what_stores_wrote() {
    let code = [0x41, 16, 0x42, 0x7E, 0x37, 3, 0, 0x41, 16, 0x29, 3, 0];
    assert_eq!(returned(run(&[], &[I64], &code, &[])), Value::I64(-2));
    let code = [0x41, 16, 0x41, 0x7F, 0x3A, 0, 0, 0x41, 16, 0x2D, 0, 0];
    assert_eq!(returned(run(&[], &[I32], &code, &[])), Value::I32(255));
    let code = [0x41, 16, 0x41, 0x7F, 0x3A, 0, 0, 0x41, 16, 0x2C, 0, 0];
    assert_eq!(returned(run(&[], &[I32], &code, &[])), Value::I32(-1));
    let code = [0x41, 16, 0x42, 0x7F, 0x3D, 1, 0, 0x41, 16, 0x33, 1, 0];
    assert_eq!(returned(run(&[], &[I64], &code, &[])), Value::I64(0xFFFF));
}

#[test]
fn data_segments_are_in_memory() {
    let code = [0x41, 0, 0x28, 2, 8];
    assert_eq!(returned(run(&[], &[I32], &code, &[])), Value::I32(i32::from_le_bytes(*b"wasm")));
}

#[test]
fn accesses_beyond_memory_trap() {
    let load = [0x20, 0, 0x28, 2, 0];
    assert_eq!(returned(run(&[I32], &[I32], &load, &[Value::I32(65_532)])), Value::I32(0));
    assert_eq!(trapped(run(&[I32], &[I32], &load, &[Value::I32(65_533)])), WasmError::MemoryOutOfBounds);
    assert_eq!(trapped(run(&[I32], &[I32], &load, &[Value::I32(-1)])), WasmError::MemoryOutOfBounds);
    let store = [0x20, 0, 0x41, 1, 0x36, 2, 4, 0x41, 0];
    assert_eq!(trapped(run(&[I32], &[I32], &store, &[Value::I32(65_530)])), WasmError::MemoryOutOfBounds);
}

#[test]
fn memory_grows_up_to_its_maximum() {
    let code = [0x41, 1, 0x40, 0, 0x1A, 0x3F, 0];
    assert_eq!(returned(run(&[], &[I32], &code, &[])), Value::I32(2));
    let code = [0x41, 2, 0x40, 0];
    assert_eq!(returned(run(&[], &[I32], &code, &[])), Value::I32(-1));
    let mut inst = with_memory(&[], &[I32], &[0x41, 1, 0x40, 0]);
    assert_eq!(returned(inst.call_func(0, &[])), Value::I32(1));
    assert_eq!(inst.get_memory_size(0), Some(131_072));
    assert_eq!(&inst.get_memory(0).unwrap()[8..12], b"wasm");
    assert_eq!(inst.get_memory_size(1), None);
}

#[test]
fn bytes_are_filled_and_copied() {
    // fill 4 bytes at 32 with 0xAB, copy them to 34, read at 34
    let code = [
        0x41, 32, 0x41, 0xAB, 0x01, 0x41, 4, 0xFC, 11, 0, 0x41, 34, 0x41, 32, 0x41, 4, 0xFC, 10, 0, 0, 0x41, 34, 0x28,
        2, 0,
    ];
    assert_eq!(returned(run(&[], &[I32], &code, &[])), Value::I32(0xABAB_ABABu32 as i32));
    // overlapping copy of "wasm" by one byte
    let code = [0x41, 9, 0x41, 8, 0x41, 4, 0xFC, 10, 0, 0, 0x41, 9, 0x28, 2, 0];
    assert_eq!(returned(run(&[], &[I32], &code, &[])), Value::I32(i32::from_le_bytes(*b"wasm")));
    let code = [0x41, 0x7F, 0x41, 0, 0x41, 4, 0xFC, 11, 0, 0x41, 0];
    assert_eq!(trapped(run(&[], &[I32], &code, &[])), WasmError::MemoryOutOfBounds);
}

#[test]
fn passive_segments_are_copied_until_dropped() {
    let code = [0x41, 0, 0x41, 0, 0x41, 4, 0xFC, 8, 1, 0, 0x41, 0, 0x28, 2, 0];
    assert_eq!(returned(run(&[], &[I32], &code, &[])), Value::I32(i32::from_le_bytes(*b"data")));
    let code = [0xFC, 9, 1, 0x41, 0, 0x41, 0, 0x41, 4, 0xFC, 8, 1, 0, 0x41, 0];
    assert_eq!(trapped(run(&[], &[I32], &code, &[])), WasmError::MemoryOutOfBounds);
    let code = [0xFC, 9, 1, 0x41, 0, 0x41, 0, 0x41, 0, 0xFC, 8, 1, 0, 0x41, 5];
    assert_eq!(returned(run(&[], &[I32], &code, &[])), Value::I32(5));
}

#[test]
fn atomic_operations_return_the_old_value() {
    // add 3 to the word at 8, then load it
    let code = [0x41, 8, 0x41, 3, 0xFE, 0x1E, 2, 0, 0x1A, 0x41, 8, 0xFE, 0x10, 2, 0];
    assert_eq!(returned(run(&[], &[I32], &code, &[])), Value::I32(i32::from_le_bytes(*b"wasm") + 3));
    // compare and exchange
    let code = [0x41, 0, 0x41, 0, 0x41, 9, 0xFE, 0x48, 2, 0, 0x1A, 0x41, 0, 0x28, 2, 0];
    assert_eq!(returned(run(&[], &[I32], &code, &[])), Value::I32(9));
    let code = [0x41, 2, 0xFE, 0x10, 2, 0];
    assert_eq!(trapped(run(&[], &[I32], &code, &[])), WasmError::UnalignedAtomic);
}

#[test]
fn segments_that_do_not_fit_are_refused() {
    let bytes = module(&[
        section(5, &list(&[vec![0x00, 1]])),
        section(11, &list(&[[vec![0x00, 0x41, 0xFE, 0xFF, 0x03, 0x0B, 4], b"wasm".to_vec()].concat()])),
    ]);
    match WasmInstance::new(decode(&bytes).unwrap(), 0) {
        Err(e) => assert_eq!(e, WasmError::MemoryOutOfBounds),
        Ok(_) => panic!("the segment does not fit"),
    }
    let bytes = module(&[
        section(4, &list(&[vec![0x70, 0x00, 1]])),
        section(9, &list(&[vec![0x00, 0x41, 1, 0x0B, 1, 0]])),
    ]);
    match WasmInstance::new(decode(&bytes).unwrap(), 0) {
        Err(e) => assert_eq!(e, WasmError::TableIndexOutOfBounds),
        Ok(_) => panic!("the segment does not fit"),
    }
    let bytes = module(&[
        section(4, &list(&[vec![0x70, 0x00, 1]])),
        section(9, &list(&[vec![0x00, 0x41, 0, 0x0B, 1, 5]])),
    ]);
    match WasmInstance::new(decode(&bytes).unwrap(), 0) {
        Err(e) => assert_eq!(e, WasmError::UndefinedElement),
        Ok(_) => panic!("there is no such function"),
    }
}

#[test]
fn a_new_instance_is_idle() {
    let m = decode(&module(&[section(5, &list(&[vec![0x00, 1]]))])).unwrap();
    let inst = match WasmInstance::new(m, 77) {
        Ok(i) => i,
        Err(e) => panic!("{e:?}"),
    };
    assert_eq!(inst.get_fuel(), 77);
    assert_eq!(inst.runtime_class, RuntimeClass::ProofGrade);
    assert_eq!((inst.stack_ptr, inst.call_depth, inst.block_depth), (0, 0, 0));
    assert_eq!(inst.get_memory_size(0), Some(65_536));
    assert!(!inst.finished);
}

#[test]
fn globals_may_read_globals_before_them() {
    let bytes = module(&[section(
        6,
        &list(&[
            vec![I32, 0x00, 0x41, 40, 0x0B],
            vec![I32, 0x00, 0x23, 0, 0x41, 2, 0x6A, 0x0B],
            [vec![0x7D, 0x00, 0x43], 1.5f32.to_le_bytes().to_vec(), vec![0x0B]].concat(),
            vec![0x7D, 0x00, 0x23, 2, 0x0B],
        ]),
    )]);
    let inst = instance(&bytes, 0);
    assert_eq!(inst.globals[1], Value::I32(42));
    assert_eq!(inst.globals[3], Value::F32(1.5f32.to_bits()));
}

/// A module with two globals of type `f32`: the first starts with `a`, the second adds `b`
/// to it.
fn adding_globals(a: f32, b: f32) -> Vec<u8> {
    section(
        6,
        &list(&[
            [vec![0x7D, 0x00, 0x43], a.to_le_bytes().to_vec(), vec![0x0B]].concat(),
            [vec![0x7D, 0x00, 0x23, 0, 0x43], b.to_le_bytes().to_vec(), vec![0x0B]].concat(),
        ]),
    )
}

#[test]
fn sums_of_floats_are_asked_for() {
    let bytes = module(&[adding_globals(2.0, 1.5)]);
    let m = decode(&bytes).unwrap();
    let (first, second) = (Value::F32(2.0f32.to_bits()), Value::F32(1.5f32.to_bits()));
    assert_eq!(initial_globals(&m, &[]), Err((second, first)));
    let sum = Value::F32((2.0f32 + 1.5f32).to_bits());
    assert_eq!(initial_globals(&m, &[sum]), Ok(vec![first, sum]));
    for class in [RuntimeClass::Full, RuntimeClass::ProofGrade] {
        match WasmInstance::with_sums(decode(&bytes).unwrap(), 0, class, &[sum]) {
            Ok(inst) => assert_eq!(inst.globals, vec![first, sum]),
            Err(e) => panic!("{e:?}"),
        }
    }
}

#[test]
fn sums_with_zero_need_no_embedder() {
    let bytes = module(&[adding_globals(2.0, 0.0)]);
    assert!(initial_globals(&decode(&bytes).unwrap(), &[]).is_ok());
    let inst = instance(&bytes, 0);
    assert_eq!(inst.globals[1], Value::F32(2.0f32.to_bits()));
}

#[test]
fn only_segments_stop_an_instance() {
    let table = section(4, &list(&[vec![0x70, 0x00, 1]]));
    let memory = section(5, &list(&[vec![0x00, 1]]));
    let elements = |offset: u8, item: u8| section(9, &list(&[vec![0x00, 0x41, offset, 0x0B, 1, item]]));
    let data = |memory: u8| section(11, &list(&[vec![0x02, memory, 0x41, 0, 0x0B, 1, 0]]));
    let globals = adding_globals(2.0, 1.5);
    let sum = Value::F32(3.5f32.to_bits());
    let made = |parts: &[Vec<u8>], class: RuntimeClass| {
        let m = decode(&module(parts)).unwrap();
        WasmInstance::with_sums(m, 5, class, &[sum]).map(|i| i.get_fuel())
    };
    for class in [RuntimeClass::Full, RuntimeClass::ProofGrade] {
        assert_eq!(made(&[table.clone(), memory.clone(), globals.clone()], class), Ok(5));
        // Elements come before data, and the first fault counts.
        let parts = [table.clone(), memory.clone(), globals.clone(), elements(1, 9), data(1)];
        assert_eq!(made(&parts, class), Err(WasmError::TableIndexOutOfBounds));
        let parts = [table.clone(), memory.clone(), globals.clone(), elements(0, 9), data(1)];
        assert_eq!(made(&parts, class), Err(WasmError::UndefinedElement));
        let parts = [memory.clone(), globals.clone(), data(1)];
        assert_eq!(made(&parts, class), Err(WasmError::MemoryOutOfBounds));
        let parts = [memory.clone(), globals.clone(), data(0)];
        assert_eq!(made(&parts, class), Ok(5));
    }
}

#[test]
fn immutable_globals_stay() {
    let bytes = module(&[
        section(1, &list(&[func_type(&[], &[])])),
        section(3, &list(&[vec![0], vec![0]])),
        section(6, &list(&[vec![I32, 0x00, 0x41, 1, 0x0B]])),
        section(10, &list(&[body(&[], &[0x41, 2, 0x24, 0]), body(&[], &[0x23, 9, 0x1A])])),
    ]);
    let mut inst = instance(&bytes, 100);
    assert_eq!(trapped(inst.call_func(0, &[])), WasmError::ImmutableGlobal);
    assert_eq!(inst.globals[0], Value::I32(1));
    assert_eq!(trapped(inst.call_func(1, &[])), WasmError::GlobalIndexOutOfBounds);
}

/// An instance with a table of four slots that holds function 0 in slot 1.
fn with_table(results: &[u8], code: &[u8]) -> WasmInstance {
    let bytes = module(&[
        section(1, &list(&[func_type(&[], results)])),
        section(3, &list(&[vec![0]])),
        section(4, &list(&[vec![0x70, 0x01, 4, 6]])),
        section(9, &list(&[vec![0x00, 0x41, 1, 0x0B, 1, 0], vec![0x01, 0x00, 2, 0, 0]])),
        section(10, &list(&[body(&[], code)])),
    ]);
    instance(&bytes, 1_000)
}

#[test]
fn table_slots_are_read_and_written() {
    let mut inst = with_table(&[I32], &[0x41, 1, 0x25, 0]);
    assert_eq!(returned(inst.call_func(0, &[])), Value::I32(0));
    let mut inst = with_table(&[I32], &[0x41, 0, 0x25, 0, 0xD1]);
    assert_eq!(returned(inst.call_func(0, &[])), Value::I32(1));
    let mut inst = with_table(&[I32], &[0x41, 2, 0x41, 1, 0x25, 0, 0x26, 0, 0x41, 0]);
    assert_eq!(returned(inst.call_func(0, &[])), Value::I32(0));
    assert_eq!(inst.tables[0], vec![None, Some(0), Some(0), None]);
    let mut inst = with_table(&[I32], &[0x41, 4, 0x25, 0, 0xD1]);
    assert_eq!(trapped(inst.call_func(0, &[])), WasmError::TableIndexOutOfBounds);
}

#[test]
fn tables_grow_and_are_filled() {
    let mut inst = with_table(&[I32], &[0xD0, 0x70, 0x41, 2, 0xFC, 15, 0]);
    assert_eq!(returned(inst.call_func(0, &[])), Value::I32(4));
    assert_eq!(inst.tables[0].len(), 6);
    let mut inst = with_table(&[I32], &[0xD0, 0x70, 0x41, 3, 0xFC, 15, 0]);
    assert_eq!(returned(inst.call_func(0, &[])), Value::I32(-1));
    let mut inst = with_table(&[I32], &[0x41, 2, 0xD2, 0, 0x41, 2, 0xFC, 17, 0, 0xFC, 16, 0]);
    assert_eq!(returned(inst.call_func(0, &[])), Value::I32(4));
    assert_eq!(inst.tables[0], vec![None, Some(0), Some(0), Some(0)]);
}

#[test]
fn element_segments_are_copied_until_dropped() {
    let mut inst = with_table(&[I32], &[0x41, 2, 0x41, 0, 0x41, 2, 0xFC, 12, 1, 0, 0x41, 0]);
    assert_eq!(returned(inst.call_func(0, &[])), Value::I32(0));
    assert_eq!(inst.tables[0], vec![None, Some(0), Some(0), Some(0)]);
    let mut inst = with_table(&[I32], &[0xFC, 13, 1, 0x41, 2, 0x41, 0, 0x41, 2, 0xFC, 12, 1, 0, 0x41, 0]);
    assert!(matches!(inst.call_func(0, &[]), ExecResult::Trap(_)));
    let mut inst = with_table(&[I32], &[0x41, 0, 0x41, 1, 0x41, 3, 0xFC, 14, 0, 0, 0x41, 0]);
    assert_eq!(returned(inst.call_func(0, &[])), Value::I32(0));
    assert_eq!(inst.tables[0], vec![Some(0), None, None, None]);
}
