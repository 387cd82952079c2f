use wasm::decoder::decode;
use wasm::machine::{ExecResult, FloatCall, WasmInstance};
use wasm::types::{RuntimeClass, Value, WasmError};

const I32: u8 = 0x7F;
const I64: u8 = 0x7E;

fn leb(mut v: u32) -> Vec<u8> {
    let mut out = Vec::new();
    loop {
        let b = (v % 128) as u8;
        v /= 128;
        if v == 0 {
            out.push(b);
            return out;
        }
        out.push(b + 128);
    }
}

fn section(id: u8, body: &[u8]) -> Vec<u8> {
    let mut out = vec![id];
    out.extend(leb(body.len() as u32));
    out.extend(body);
    out
}

fn list(items: &[Vec<u8>]) -> Vec<u8> {
    let mut out = leb(items.len() as u32);
    for i in items {
        out.extend(i);
    }
    out
}

fn module(sections: &[Vec<u8>]) -> Vec<u8> {
    let mut out = vec![0x00, 0x61, 0x73, 0x6D, 0x01, 0x00, 0x00, 0x00];
    for s in sections {
        out.extend(s);
    }
    out
}

fn func_type(params: &[u8], results: &[u8]) -> Vec<u8> {
    let mut out = vec![0x60];
    out.extend(leb(params.len() as u32));
    out.extend(params);
    out.extend(leb(results.len() as u32));
    out.extend(results);
    out
}

/// A function body; `locals` are groups of a count and a type.
fn body(locals: &[(u32, u8)], code: &[u8]) -> Vec<u8> {
    let mut inner = leb(locals.len() as u32);
    for (n, t) in locals {
        inner.extend(leb(*n));
        inner.push(*t);
    }
    inner.extend(code);
    inner.push(0x0B);
    let mut out = leb(inner.len() as u32);
    out.extend(inner);
    out
}

fn instance(bytes: &[u8], fuel: u64) -> WasmInstance {
    let m = decode(bytes).expect("the module decodes");
    match WasmInstance::with_class(m, fuel, RuntimeClass::Full) {
        Ok(i) => i,
        Err(e) => panic!("{e:?}"),
    }
}

fn returned(r: ExecResult) -> Value {
    match r {
        ExecResult::Returned(v) => v,
        other => panic!("{other:?}"),
    }
}

fn trapped(r: ExecResult) -> WasmError {
    match r {
        ExecResult::Trap(e) => e,
        other => panic!("{other:?}"),
    }
}

/// Runs code that has no parameters and one result.
fn eval_in(class: RuntimeClass, result: u8, code: &[u8]) -> ExecResult {
    let bytes = module(&[
        section(1, &list(&[func_type(&[], &[result])])),
        section(3, &list(&[vec![0]])),
        section(10, &list(&[body(&[], code)])),
    ]);
    let m = decode(&bytes).expect("the module decodes");
    let mut inst = match WasmInstance::with_class(m, 1_000, class) {
        Ok(i) => i,
        Err(e) => panic!("{e:?}"),
    };
    inst.call_func(0, &[])
}

fn eval(result: u8, code: &[u8]) -> ExecResult {
    eval_in(RuntimeClass::Full, result, code)
}

fn i32s(v: i32) -> Vec<u8> {
    let mut out = vec![0x41];
    out.extend(signed(i64::from(v)));
    out
}

fn i64s(v: i64) -> Vec<u8> {
    let mut out = vec![0x42];
    out.extend(signed(v));
    out
}

fn f32s(v: f32) -> Vec<u8> {
    let mut out = vec![0x43];
    out.extend(v.to_bits().to_le_bytes());
    out
}

fn f64s(v: f64) -> Vec<u8> {
    let mut out = vec![0x44];
    out.extend(v.to_bits().to_le_bytes());
    out
}

fn signed(mut v: i64) -> Vec<u8> {
    let mut out = Vec::new();
    loop {
        let b = (v & 127) as u8;
        if (-64..64).contains(&v) {
            out.push(b);
            return out;
        }
        out.push(b + 128);
        v >>= 7;
    }
}

fn code(parts: &[Vec<u8>], op: u8) -> Vec<u8> {
    let mut out: Vec<u8> = parts.concat();
    out.push(op);
    out
}

fn int2(op: u8, a: i32, b: i32) -> ExecResult {
    eval(I32, &code(&[i32s(a), i32s(b)], op))
}

fn long2(op: u8, a: i64, b: i64) -> ExecResult {
    eval(I64, &code(&[i64s(a), i64s(b)], op))
}

#[test]
fn sums_and_products_wrap() {
    assert_eq!(returned(int2(0x6A, i32::MAX, 1)), Value::I32(i32::MIN));
    assert_eq!(returned(int2(0x6B, i32::MIN, 1)), Value::I32(i32::MAX));
    assert_eq!(returned(int2(0x6C, 0x1_0001, 0x1_0001)), Value::I32(0x2_0001));
    assert_eq!(returned(long2(0x7C, i64::MAX, 1)), Value::I64(i64::MIN));
    assert_eq!(returned(long2(0x7E, 1 << 33, 1 << 33)), Value::I64(0));
}

#[test]
fn division_rounds_to_zero() {
    assert_eq!(returned(int2(0x6D, -7, 2)), Value::I32(-3));
    assert_eq!(returned(int2(0x6F, -7, 2)), Value::I32(-1));
    assert_eq!(returned(int2(0x6E, -1, 2)), Value::I32(i32::MAX));
    assert_eq!(returned(int2(0x70, -1, 2)), Value::I32(1));
    assert_eq!(returned(long2(0x7F, -7, 2)), Value::I64(-3));
    assert_eq!(returned(long2(0x82, -1, 10)), Value::I64(5));
}

#[test]
fn division_traps() {
    for op in [0x6D, 0x6E, 0x6F, 0x70] {
        assert_eq!(trapped(int2(op, 1, 0)), WasmError::DivisionByZero);
    }
    for op in [0x7F, 0x80, 0x81, 0x82] {
        assert_eq!(trapped(long2(op, 1, 0)), WasmError::DivisionByZero);
    }
    assert_eq!(trapped(int2(0x6D, i32::MIN, -1)), WasmError::IntegerOverflow);
    assert_eq!(returned(int2(0x6F, i32::MIN, -1)), Value::I32(0));
    assert_eq!(trapped(long2(0x7F, i64::MIN, -1)), WasmError::IntegerOverflow);
}

#[test]
fn shifts_take_their_amount_modulo_the_width() {
    assert_eq!(returned(int2(0x74, 1, 33)), Value::I32(2));
    assert_eq!(returned(int2(0x75, -8, 1)), Value::I32(-4));
    assert_eq!(returned(int2(0x76, -8, 28)), Value::I32(15));
    assert_eq!(returned(long2(0x86, 1, 65)), Value::I64(2));
    assert_eq!(returned(long2(0x87, -8, 1)), Value::I64(-4));
}

#[test]
fn rotations_undo_each_other() {
    assert_eq!(returned(int2(0x77, 0x8000_0001u32 as i32, 4)), Value::I32(0x18));
    assert_eq!(returned(int2(0x78, 0x18, 4)), Value::I32(0x8000_0001u32 as i32));
    assert_eq!(returned(long2(0x89, 1, 63)), Value::I64(i64::MIN));
    assert_eq!(returned(long2(0x8A, i64::MIN, 63)), Value::I64(1));
}

#[test]
fn bits_are_counted() {
    let one = |op: u8, v: i32| returned(eval(I32, &code(&[i32s(v)], op)));
    assert_eq!(one(0x67, 1), Value::I32(31));
    assert_eq!(one(0x67, 0), Value::I32(32));
    assert_eq!(one(0x68, 0x10), Value::I32(4));
    assert_eq!(one(0x69, -1), Value::I32(32));
    let long = |op: u8, v: i64| returned(eval(I64, &code(&[i64s(v)], op)));
    assert_eq!(long(0x79, 1), Value::I64(63));
    assert_eq!(long(0x7A, 0), Value::I64(64));
    assert_eq!(long(0x7B, 0xFF), Value::I64(8));
}

#[test]
fn comparisons_give_zero_or_one() {
    assert_eq!(returned(int2(0x46, 3, 3)), Value::I32(1));
    assert_eq!(returned(int2(0x48, -1, 0)), Value::I32(1));
    assert_eq!(returned(int2(0x49, -1, 0)), Value::I32(0));
    assert_eq!(returned(eval(I32, &code(&[i64s(5), i64s(6)], 0x53))), Value::I32(1));
    assert_eq!(returned(eval(I32, &code(&[i32s(0)], 0x45))), Value::I32(1));
    assert_eq!(returned(eval(I32, &code(&[i64s(1)], 0x50))), Value::I32(0));
}

#[test]
fn integers_are_widened_and_wrapped() {
    assert_eq!(returned(eval(I32, &code(&[i64s(0x1_2345_6789)], 0xA7))), Value::I32(0x2345_6789));
    assert_eq!(returned(eval(I64, &code(&[i32s(-1)], 0xAC))), Value::I64(-1));
    assert_eq!(returned(eval(I64, &code(&[i32s(-1)], 0xAD))), Value::I64(0xFFFF_FFFF));
    assert_eq!(returned(eval(I32, &code(&[i32s(0x80)], 0xC0))), Value::I32(-128));
    assert_eq!(returned(eval(I32, &code(&[i32s(0x8000)], 0xC1))), Value::I32(-32_768));
    assert_eq!(returned(eval(I64, &code(&[i64s(0x8000_0000)], 0xC4))), Value::I64(-0x8000_0000));
}

#[test]
fn floats_compare_by_their_patterns() {
    let two = |op: u8, a: f32, b: f32| returned(eval(I32, &code(&[f32s(a), f32s(b)], op)));
    assert_eq!(two(0x5B, 0.0, -0.0), Value::I32(1));
    assert_eq!(two(0x5B, f32::NAN, f32::NAN), Value::I32(0));
    assert_eq!(two(0x5C, f32::NAN, 1.0), Value::I32(1));
    assert_eq!(two(0x5D, -1.0, 1.0), Value::I32(1));
    assert_eq!(two(0x5E, f32::INFINITY, f32::MAX), Value::I32(1));
    assert_eq!(returned(eval(I32, &code(&[f64s(-2.0), f64s(-1.0)], 0x63))), Value::I32(1));
}

#[test]
fn signs_of_floats_are_set_by_their_patterns() {
    assert_eq!(returned(eval(0x7D, &code(&[f32s(-1.5)], 0x8B))), Value::F32(1.5f32.to_bits()));
    assert_eq!(returned(eval(0x7D, &code(&[f32s(1.5)], 0x8C))), Value::F32((-1.5f32).to_bits()));
    assert_eq!(returned(eval(0x7D, &code(&[f32s(1.5), f32s(-0.0)], 0x98))), Value::F32((-1.5f32).to_bits()));
    assert_eq!(returned(eval(0x7C, &code(&[f64s(-1.5)], 0x99))), Value::F64(1.5f64.to_bits()));
}

#[test]
fn extremes_of_floats_respect_the_sign_of_zero() {
    assert_eq!(returned(eval(0x7D, &code(&[f32s(0.0), f32s(-0.0)], 0x96))), Value::F32((-0.0f32).to_bits()));
    assert_eq!(returned(eval(0x7D, &code(&[f32s(0.0), f32s(-0.0)], 0x97))), Value::F32(0.0f32.to_bits()));
    assert_eq!(returned(eval(0x7C, &code(&[f64s(3.0), f64s(-4.0)], 0xA4))), Value::F64((-4.0f64).to_bits()));
}

#[test]
fn float_arithmetic_is_asked_for() {
    match eval(0x7D, &code(&[f32s(1.0), f32s(2.0)], 0x92)) {
        ExecResult::Float(c) => {
            assert_eq!(c, FloatCall::Binary(0x92, Value::F32(1.0f32.to_bits()), Value::F32(2.0f32.to_bits())));
        }
        other => panic!("{other:?}"),
    }
    match eval(0x7C, &code(&[i32s(-3)], 0xB7)) {
        ExecResult::Float(c) => assert_eq!(c, FloatCall::Unary(0xB7, Value::I32(-3))),
        other => panic!("{other:?}"),
    }
    match eval(0x7D, &code(&[f32s(f32::NAN), f32s(2.0)], 0x96)) {
        ExecResult::Float(FloatCall::Binary(op, _, b)) => {
            assert_eq!((op, b), (0x92, Value::F32(2.0f32.to_bits())));
        }
        other => panic!("{other:?}"),
    }
}

#[test]
fn a_nan_is_quieted_without_arithmetic() {
    let signaling = f32::from_bits(0x7FA0_0000);
    assert_eq!(returned(eval(0x7D, &code(&[f32s(signaling)], 0x8E))), Value::F32(0x7FE0_0000));
}

#[test]
fn a_paused_run_goes_on_with_the_result() {
    let bytes = module(&[
        section(1, &list(&[func_type(&[], &[0x7D])])),
        section(3, &list(&[vec![0]])),
        section(10, &list(&[body(&[], &code(&[f32s(9.0)], 0x91))])),
    ]);
    let mut inst = instance(&bytes, 100);
    match inst.call_func(0, &[]) {
        ExecResult::Float(FloatCall::Unary(0x91, v)) => assert_eq!(v, Value::F32(9.0f32.to_bits())),
        other => panic!("{other:?}"),
    }
    let three = Value::F32(3.0f32.to_bits());
    assert_eq!(returned(inst.resume(Some(three))), three);
}

#[test]
fn truncation_traps_out_of_range() {
    let t = |op: u8, v: f32| eval(I32, &code(&[f32s(v)], op));
    assert_eq!(returned(t(0xA8, -3.9)), Value::I32(-3));
    assert_eq!(trapped(t(0xA8, f32::NAN)), WasmError::InvalidConversionToInteger);
    assert_eq!(trapped(t(0xA8, 2_147_483_648.0)), WasmError::IntegerOverflow);
    assert_eq!(returned(t(0xA8, -2_147_483_648.0)), Value::I32(i32::MIN));
    assert_eq!(trapped(t(0xA9, -1.0)), WasmError::IntegerOverflow);
    assert_eq!(returned(t(0xA9, -0.9)), Value::I32(0));
    assert_eq!(returned(eval(I64, &code(&[f64s(1e18)], 0xB0))), Value::I64(1_000_000_000_000_000_000));
}

#[test]
fn truncation_saturates() {
    let t = |sub: u8, v: f32| {
        let mut c = f32s(v);
        c.extend([0xFC, sub]);
        returned(eval(I32, &c))
    };
    assert_eq!(t(0, 1e10), Value::I32(i32::MAX));
    assert_eq!(t(0, -1e10), Value::I32(i32::MIN));
    assert_eq!(t(0, f32::NAN), Value::I32(0));
    assert_eq!(t(1, -5.0), Value::I32(0));
    assert_eq!(t(1, 4e9), Value::I32(4_000_000_000u32 as i32));
}

#[test]
fn patterns_are_reinterpreted() {
    assert_eq!(returned(eval(I32, &code(&[f32s(1.0)], 0xBC))), Value::I32(0x3F80_0000));
    assert_eq!(returned(eval(0x7D, &code(&[i32s(0x3F80_0000)], 0xBE))), Value::F32(1.0f32.to_bits()));
}

#[test]
fn the_deterministic_class_has_no_floats() {
    let r = eval_in(RuntimeClass::ProofGrade, 0x7D, &f32s(1.0));
    assert_eq!(trapped(r), WasmError::FloatsDisabled);
    let r = eval_in(RuntimeClass::ProofGrade, I32, &code(&[i32s(1), i32s(2)], 0x6A));
    assert_eq!(returned(r), Value::I32(3));
}

#[test]
fn wide_arithmetic_uses_128_bits() {
    let bytes = module(&[
        section(1, &list(&[func_type(&[], &[I64, I64])])),
        section(3, &list(&[vec![0]])),
        section(10, &list(&[body(&[], &[i64s(-1), i64s(0), i64s(1), i64s(0), vec![0xFC, 0x13]].concat())])),
    ]);
    let mut inst = instance(&bytes, 100);
    assert_eq!(returned(inst.call_func(0, &[])), Value::I64(0));
    assert_eq!(inst.stack[0], Value::I64(0));
    assert_eq!(inst.stack[1], Value::I64(1));
}

#[test]
fn unknown_opcodes_trap() {
    assert_eq!(trapped(eval(I32, &[0x27])), WasmError::InvalidOpcode(0x27));
    assert_eq!(trapped(eval(I32, &[0xFC, 0x7F])), WasmError::InvalidOpcode(0xFC));
    assert_eq!(trapped(eval(I32, &[0xFE, 0x7F])), WasmError::InvalidOpcode(0xFE));
    assert_eq!(trapped(eval(I32, &[0xFD, 0xFF, 0x7F])), WasmError::InvalidOpcode(0xFD));
    assert_eq!(trapped(eval(I32, &[0x6A])), WasmError::StackUnderflow);
}
