use wasm::decoder::decode;
use wasm::machine::{ExecResult, FloatCall, WasmInstance};
use wasm::types::{RuntimeClass, Value, WasmError, V128};

const I32: u8 = 0x7F;
const I64: u8 = 0x7E;

fn leb(mut v: u32) -> Vec<u8> {
    let mut out = Vec::new();
    loop {
        let b = (v % 128) as u8;
        v /= 128;
        if v == 0 {
            out.push(b);
            return out;
        }
        out.push(b + 128);
    }
}

fn section(id: u8, body: &[u8]) -> Vec<u8> {
    let mut out = vec![id];
    out.extend(leb(body.len() as u32));
    out.extend(body);
    out
}

fn list(items: &[Vec<u8>]) -> Vec<u8> {
    let mut out = leb(items.len() as u32);
    for i in items {
        out.extend(i);
    }
    out
}

fn module(sections: &[Vec<u8>]) -> Vec<u8> {
    let mut out = vec![0x00, 0x61, 0x73, 0x6D, 0x01, 0x00, 0x00, 0x00];
    for s in sections {
        out.extend(s);
    }
    out
}

fn func_type(params: &[u8], results: &[u8]) -> Vec<u8> {
    let mut out = vec![0x60];
    out.extend(leb(params.len() as u32));
    out.extend(params);
    out.extend(leb(results.len() as u32));
    out.extend(results);
    out
}

/// A function body; `locals` are groups of a count and a type.
fn body(locals: &[(u32, u8)], code: &[u8]) -> Vec<u8> {
    let mut inner = leb(locals.len() as u32);
    for (n, t) in locals {
        inner.extend(leb(*n));
        inner.push(*t);
    }
    inner.extend(code);
    inner.push(0x0B);
    let mut out = leb(inner.len() as u32);
    out.extend(inner);
    out
}

fn instance(bytes: &[u8], fuel: u64) -> WasmInstance {
    let m = decode(bytes).expect("the module decodes");
    match WasmInstance::with_class(m, fuel, RuntimeClass::Full) {
        Ok(i) => i,
        Err(e) => panic!("{e:?}"),
    }
}

fn returned(r: ExecResult) -> Value {
    match r {
        ExecResult::Returned(v) => v,
        other => panic!("{other:?}"),
    }
}

fn trapped(r: ExecResult) -> WasmError {
    match r {
        ExecResult::Trap(e) => e,
        other => panic!("{other:?}"),
    }
}

const V: u8 = 0x7B;

/// Runs code with two vector parameters.
fn run(result: u8, a: [u8; 16], b: [u8; 16], code: &[u8]) -> ExecResult {
    let bytes = module(&[
        section(1, &list(&[func_type(&[V, V], &[result])])),
        section(3, &list(&[vec![0]])),
        section(5, &list(&[vec![0x00, 1]])),
        section(10, &list(&[body(&[], code)])),
    ]);
    instance(&bytes, 1_000).call_func(0, &[Value::V128(V128(a)), Value::V128(V128(b))])
}

fn vector(r: ExecResult) -> [u8; 16] {
    match returned(r) {
        Value::V128(v) => v.0,
        other => panic!("{other:?}"),
    }
}

/// The code of an instruction on both parameters.
fn on_both(op: u32) -> Vec<u8> {
    let mut code = vec![0x20, 0, 0x20, 1, 0xFD];
    code.extend(leb(op));
    code
}

fn on_first(op: u32) -> Vec<u8> {
    let mut code = vec![0x20, 0, 0xFD];
    code.extend(leb(op));
    code
}

fn two(op: u32, a: [u8; 16], b: [u8; 16]) -> [u8; 16] {
    vector(run(V, a, b, &on_both(op)))
}

fn one(op: u32, a: [u8; 16]) -> [u8; 16] {
    vector(run(V, a, a, &on_first(op)))
}

fn words(x: [i32; 4]) -> [u8; 16] {
    let mut out = [0; 16];
    for i in 0..4 {
        out[4 * i..4 * i + 4].copy_from_slice(&x[i].to_le_bytes());
    }
    out
}

fn halves(x: [i16; 8]) -> [u8; 16] {
    let mut out = [0; 16];
    for i in 0..8 {
        out[2 * i..2 * i + 2].copy_from_slice(&x[i].to_le_bytes());
    }
    out
}

fn longs(x: [i64; 2]) -> [u8; 16] {
    let mut out = [0; 16];
    for i in 0..2 {
        out[8 * i..8 * i + 8].copy_from_slice(&x[i].to_le_bytes());
    }
    out
}

fn singles(x: [f32; 4]) -> [u8; 16] {
    words(x.map(|f| f.to_bits() as i32))
}

const COUNT: [u8; 16] = [0, 1, 2, 3, 4, 5, 6, 7, 8, 9, 10, 11, 12, 13, 14, 15];

#[test]
fn lanes_are_added_on_their_own() {
    assert_eq!(two(0x6E, [255; 16], [2; 16]), [1; 16]);
    assert_eq!(two(0x6F, [127; 16], [1; 16]), [127; 16]);
    assert_eq!(two(0x70, [250; 16], [10; 16]), [255; 16]);
    assert_eq!(two(0x73, [5; 16], [10; 16]), [0; 16]);
    assert_eq!(two(0xAE, words([1, -1, i32::MAX, 0]), words([1, 1, 1, 0])), words([2, 0, i32::MIN, 0]));
    assert_eq!(two(0xCE, longs([i64::MAX, 1]), longs([1, 2])), longs([i64::MIN, 3]));
}

#[test]
fn lanes_are_multiplied() {
    assert_eq!(two(0x95, halves([300; 8]), halves([300; 8])), halves([90_000u32 as i16; 8]));
    assert_eq!(two(0xB5, words([7; 4]), words([-6; 4])), words([-42; 4]));
    assert_eq!(two(0xD5, longs([1 << 40, 3]), longs([1 << 30, 4])), longs([0, 12]));
    assert_eq!(two(0xBA, halves([1, 2, 3, 4, 5, 6, 7, 8]), halves([1; 8])), words([3, 7, 11, 15]));
    assert_eq!(two(0x82, halves([i16::MIN; 8]), halves([i16::MIN; 8])), halves([i16::MAX; 8]));
    assert_eq!(two(0x9C, [255; 16], [2; 16]), halves([-2; 8]));
    assert_eq!(two(0x9E, [255; 16], [2; 16]), halves([510; 8]));
}

#[test]
fn lanes_are_compared() {
    assert_eq!(two(0x23, COUNT, [3; 16])[3], 0xFF);
    assert_eq!(two(0x23, COUNT, [3; 16])[4], 0);
    assert_eq!(two(0x25, [0x80; 16], [0; 16]), [0xFF; 16]);
    assert_eq!(two(0x26, [0x80; 16], [0; 16]), [0; 16]);
    assert_eq!(two(0x41, singles([1.0, f32::NAN, 0.0, 2.0]), singles([1.0, f32::NAN, -0.0, 3.0])), words([-1, 0, -1, 0]));
    assert_eq!(two(0xD9, longs([5, -5]), longs([4, 4])), longs([-1, 0]));
}

#[test]
fn extremes_of_lanes() {
    assert_eq!(two(0x76, [0x80; 16], [1; 16]), [0x80; 16]);
    assert_eq!(two(0x77, [0x80; 16], [1; 16]), [1; 16]);
    assert_eq!(two(0x7B, [1; 16], [2; 16]), [2; 16]);
    assert_eq!(
        two(0xE8, singles([1.0, -0.0, 3.0, -4.0]), singles([2.0, 0.0, 1.0, -5.0])),
        singles([1.0, -0.0, 1.0, -5.0])
    );
    assert_eq!(two(0xEA, singles([2.0; 4]), singles([1.0; 4])), singles([1.0; 4]));
}

#[test]
fn lanes_are_shifted_modulo_their_width() {
    let mut code = vec![0x20, 0, 0x41, 9, 0xFD];
    code.extend(leb(0x6B));
    assert_eq!(vector(run(V, [1; 16], [0; 16], &code)), [2; 16]);
    let mut code = vec![0x20, 0, 0x41, 1, 0xFD];
    code.extend(leb(0x6C));
    assert_eq!(vector(run(V, [0x80; 16], [0; 16], &code)), [0xC0; 16]);
    let mut code = vec![0x20, 0, 0x41, 1, 0xFD];
    code.extend(leb(0x6D));
    assert_eq!(vector(run(V, [0x80; 16], [0; 16], &code)), [0x40; 16]);
}

#[test]
fn lanes_are_narrowed_and_widened() {
    let narrowed = two(0x65, halves([300, -300, 1, 2, 3, 4, 5, 6]), halves([0; 8]));
    assert_eq!(narrowed, [127, 0x80, 1, 2, 3, 4, 5, 6, 0, 0, 0, 0, 0, 0, 0, 0]);
    let narrowed = two(0x66, halves([300, -300, 1, 2, 3, 4, 5, 6]), halves([0; 8]));
    assert_eq!(narrowed[..2], [255, 0]);
    assert_eq!(one(0x87, [0xFF; 16]), halves([-1; 8]));
    assert_eq!(one(0x89, [0xFF; 16]), halves([255; 8]));
    assert_eq!(one(0x8A, COUNT), halves([8, 9, 10, 11, 12, 13, 14, 15]));
    assert_eq!(one(0x7C, COUNT), halves([1, 5, 9, 13, 17, 21, 25, 29]));
}

#[test]
fn bits_are_combined() {
    assert_eq!(one(0x4D, [0x0F; 16]), [0xF0; 16]);
    assert_eq!(two(0x4E, [0x0F; 16], [0x3C; 16]), [0x0C; 16]);
    assert_eq!(two(0x4F, [0x0F; 16], [0x3C; 16]), [0x03; 16]);
    assert_eq!(two(0x50, [0x0F; 16], [0x30; 16]), [0x3F; 16]);
    assert_eq!(two(0x51, [0x0F; 16], [0x3C; 16]), [0x33; 16]);
    let code = [0x20, 0, 0x20, 1, 0x20, 0, 0xFD, 0x52];
    assert_eq!(vector(run(V, [0x0F; 16], [0x3C; 16], &code)), [0x3F; 16]);
}

#[test]
fn vectors_are_tested() {
    let t = |op: u32, a: [u8; 16]| returned(run(I32, a, a, &on_first(op)));
    assert_eq!(t(0x53, [0; 16]), Value::I32(0));
    assert_eq!(t(0x53, COUNT), Value::I32(1));
    assert_eq!(t(0x63, COUNT), Value::I32(0));
    assert_eq!(t(0x63, [1; 16]), Value::I32(1));
    assert_eq!(t(0x64, [0x80; 16]), Value::I32(0xFFFF));
    assert_eq!(t(0xA4, words([-1, 0, -1, 0])), Value::I32(5));
}

#[test]
fn bytes_are_shuffled_and_swizzled() {
    let mut code = vec![0x20, 0, 0x20, 1, 0xFD, 0x0D];
    code.extend([31, 30, 29, 28, 27, 26, 25, 24, 7, 6, 5, 4, 3, 2, 1, 0]);
    let b: [u8; 16] = COUNT.map(|x| x + 100);
    let r = vector(run(V, COUNT, b, &code));
    assert_eq!(r, [115, 114, 113, 112, 111, 110, 109, 108, 7, 6, 5, 4, 3, 2, 1, 0]);
    let mut picks = [0u8; 16];
    picks[0] = 15;
    picks[1] = 16;
    let r = two(0x0E, b, picks);
    assert_eq!((r[0], r[1], r[2]), (115, 0, 100));
}

#[test]
fn lanes_are_read_replaced_and_repeated() {
    let lane = |op: u32, l: u8, a: [u8; 16]| {
        let mut code = on_first(op);
        code.push(l);
        let result = if op == 0x1D { I64 } else { I32 };
        returned(run(result, a, a, &code))
    };
    assert_eq!(lane(0x15, 2, [0xFF; 16]), Value::I32(-1));
    assert_eq!(lane(0x16, 2, [0xFF; 16]), Value::I32(255));
    assert_eq!(lane(0x1B, 1, words([1, 2, 3, 4])), Value::I32(2));
    assert_eq!(lane(0x1D, 1, longs([5, -6])), Value::I64(-6));
    let code = [0x20, 0, 0x41, 9, 0xFD, 0x17, 3];
    let r = vector(run(V, [0; 16], [0; 16], &code));
    assert_eq!((r[2], r[3], r[4]), (0, 9, 0));
    let code = [0x41, 0x7F, 0xFD, 0x11];
    assert_eq!(vector(run(V, [0; 16], [0; 16], &code)), [0xFF; 16]);
}

#[test]
fn vectors_are_stored_and_loaded() {
    let code = [0x41, 8, 0x20, 0, 0xFD, 0x0B, 4, 0, 0x41, 8, 0xFD, 0x00, 4, 0];
    assert_eq!(vector(run(V, COUNT, COUNT, &code)), COUNT);
    let code = [0x41, 8, 0x20, 0, 0xFD, 0x0B, 4, 0, 0x41, 8, 0xFD, 0x02, 3, 0];
    assert_eq!(vector(run(V, [0xFF; 16], COUNT, &code)), halves([255; 8]));
    let code = [0x41, 8, 0x20, 0, 0xFD, 0x0B, 4, 0, 0x41, 9, 0xFD, 0x07, 0, 0];
    assert_eq!(vector(run(V, COUNT, COUNT, &code)), [1; 16]);
    let code = [0x41, 8, 0x20, 0, 0xFD, 0x0B, 4, 0, 0x41, 8, 0xFD, 0x5C, 2, 0];
    assert_eq!(vector(run(V, COUNT, COUNT, &code)), [0, 1, 2, 3, 0, 0, 0, 0, 0, 0, 0, 0, 0, 0, 0, 0]);
    let code = [0x41, 8, 0x20, 0, 0xFD, 0x0B, 4, 0, 0x41, 10, 0x20, 1, 0xFD, 0x54, 0, 0, 5];
    let r = vector(run(V, COUNT, [0; 16], &code));
    assert_eq!((r[4], r[5]), (0, 2));
    let code = [0x41, 0xF8, 0xFF, 0x03, 0xFD, 0x00, 4, 0];
    assert_eq!(trapped(run(V, COUNT, COUNT, &code)), WasmError::MemoryOutOfBounds);
}

#[test]
fn vector_constants() {
    let mut code = vec![0xFD, 0x0C];
    code.extend(COUNT);
    assert_eq!(vector(run(V, [0; 16], [0; 16], &code)), COUNT);
}

#[test]
fn float_lanes_change_their_sign_and_are_truncated() {
    assert_eq!(one(0xE0, singles([-1.0, 1.0, -0.0, -2.5])), singles([1.0, 1.0, 0.0, 2.5]));
    assert_eq!(one(0xE1, singles([-1.0, 1.0, -0.0, -2.5])), singles([1.0, -1.0, 0.0, 2.5]));
    assert_eq!(one(0xF8, singles([-1.9, 1e20, f32::NAN, 7.0])), words([-1, i32::MAX, 0, 7]));
    assert_eq!(one(0xF9, singles([-1.9, 1e20, f32::NAN, 7.0])), words([0, -1, 0, 7]));
}

#[test]
fn float_lanes_are_asked_for() {
    match run(V, singles([1.0; 4]), singles([2.0; 4]), &on_both(0xE4)) {
        ExecResult::Float(FloatCall::Simd(op, a, b, c)) => {
            assert_eq!(op, 0xE4);
            assert_eq!((a.0, b.0, c.0), (singles([1.0; 4]), singles([2.0; 4]), [0; 16]));
        }
        other => panic!("{other:?}"),
    }
    match run(V, singles([f32::NAN; 4]), singles([2.0; 4]), &on_both(0x10E)) {
        ExecResult::Float(FloatCall::Simd(op, ..)) => assert_eq!(op, 0xE9),
        other => panic!("{other:?}"),
    }
}
