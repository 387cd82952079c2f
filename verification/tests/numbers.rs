use wasm::bytes::{read_u16, read_u32, read_u64};
use wasm::num::{i31_get_s, i31_get_u};
use wasm::reader::{
    decode_leb128_i32, decode_leb128_i64, decode_leb128_u32, decode_leb128_u64, peek_byte, read_byte, read_name,
    validate_utf8,
};
use wasm::types::{ValType, Value, WasmError, V128};

fn u32_at(bytes: &[u8]) -> (Result<u32, WasmError>, usize) {
    let mut pos = 0;
    let r = decode_leb128_u32(bytes, &mut pos);
    (r, pos)
}

fn i32_at(bytes: &[u8]) -> (Result<i32, WasmError>, usize) {
    let mut pos = 0;
    let r = decode_leb128_i32(bytes, &mut pos);
    (r, pos)
}

fn i64_at(bytes: &[u8]) -> (Result<i64, WasmError>, usize) {
    let mut pos = 0;
    let r = decode_leb128_i64(bytes, &mut pos);
    (r, pos)
}

fn unsigned(mut v: u64) -> Vec<u8> {
    let mut out = Vec::new();
    loop {
        let b = (v % 128) as u8;
        v /= 128;
        if v == 0 {
            out.push(b);
            return out;
        }
        out.push(b + 128);
    }
}

fn signed(mut v: i64) -> Vec<u8> {
    let mut out = Vec::new();
    loop {
        let b = (v & 127) as u8;
        if (-64..64).contains(&v) {
            out.push(b);
            return out;
        }
        out.push(b + 128);
        v >>= 7;
    }
}

#[test]
fn unsigned_numbers_are_read() {
    assert_eq!(u32_at(&[0x00]), (Ok(0), 1));
    assert_eq!(u32_at(&[0x7F]), (Ok(127), 1));
    assert_eq!(u32_at(&[0xE5, 0x8E, 0x26]), (Ok(624_485), 3));
    assert_eq!(u32_at(&[0xFF, 0xFF, 0xFF, 0xFF, 0x0F]), (Ok(u32::MAX), 5));
}

#[test]
fn padded_numbers_are_read() {
    assert_eq!(u32_at(&[0x80, 0x80, 0x00]), (Ok(0), 3));
    assert_eq!(i32_at(&[0xFF, 0xFF, 0x7F]), (Ok(-1), 3));
}

#[test]
fn numbers_out_of_range_are_refused() {
    assert_eq!(u32_at(&[0xFF, 0xFF, 0xFF, 0xFF, 0x10]).0, Err(WasmError::InvalidLEB128));
    assert_eq!(u32_at(&[0x80, 0x80, 0x80, 0x80, 0x80, 0x00]).0, Err(WasmError::InvalidLEB128));
    assert_eq!(i32_at(&[0x80, 0x80, 0x80, 0x80, 0x08]).0, Err(WasmError::InvalidLEB128));
    assert_eq!(i64_at(&[0x80, 0x80, 0x80, 0x80, 0x80, 0x80, 0x80, 0x80, 0x80, 0x01]).0, Err(WasmError::InvalidLEB128));
}

#[test]
fn cut_numbers_are_refused() {
    assert_eq!(u32_at(&[]), (Err(WasmError::UnexpectedEnd), 0));
    assert_eq!(u32_at(&[0x80]), (Err(WasmError::UnexpectedEnd), 1));
    assert_eq!(i32_at(&[0x80, 0x80]), (Err(WasmError::UnexpectedEnd), 2));
}

#[test]
fn signed_numbers_are_read() {
    assert_eq!(i32_at(&[0x7F]), (Ok(-1), 1));
    assert_eq!(i32_at(&[0xC0, 0xBB, 0x78]), (Ok(-123_456), 3));
    assert_eq!(i32_at(&[0x80, 0x80, 0x80, 0x80, 0x78]), (Ok(i32::MIN), 5));
    assert_eq!(i64_at(&[0x80, 0x80, 0x80, 0x80, 0x80, 0x80, 0x80, 0x80, 0x80, 0x7F]), (Ok(i64::MIN), 10));
}

#[test]
fn encoded_numbers_read_back() {
    for v in [0u64, 1, 127, 128, 16_383, 16_384, u64::from(u32::MAX), u64::MAX] {
        let b = unsigned(v);
        let mut pos = 0;
        assert_eq!(decode_leb128_u64(&b, &mut pos), Ok(v));
        assert_eq!(pos, b.len());
    }
    for v in [0i64, 63, 64, -64, -65, 8_191, -8_192, i64::MAX, i64::MIN] {
        let b = signed(v);
        assert_eq!(i64_at(&b), (Ok(v), b.len()));
    }
}

#[test]
fn bytes_are_read_in_order() {
    let bytes = [0x11, 0x22];
    let mut pos = 0;
    assert_eq!(peek_byte(&bytes, pos), Ok(0x11));
    assert_eq!(read_byte(&bytes, &mut pos), Ok(0x11));
    assert_eq!(read_byte(&bytes, &mut pos), Ok(0x22));
    assert_eq!(read_byte(&bytes, &mut pos), Err(WasmError::UnexpectedEnd));
    assert_eq!(pos, 2);
}

#[test]
fn little_endian_numbers_are_read() {
    let bytes = [0x01, 0x02, 0x03, 0x04, 0x05, 0x06, 0x07, 0x08];
    assert_eq!(read_u16(&bytes, 0), 0x0201);
    assert_eq!(read_u32(&bytes, 2), 0x0605_0403);
    assert_eq!(read_u64(&bytes, 0), 0x0807_0605_0403_0201);
}

#[test]
fn names_must_be_utf8() {
    assert_eq!(validate_utf8("gr\u{fc}n \u{1F600}".as_bytes()), Ok(()));
    assert_eq!(validate_utf8(&[0xC0, 0x80]), Err(WasmError::MalformedUtf8));
    assert_eq!(validate_utf8(&[0xED, 0xA0, 0x80]), Err(WasmError::MalformedUtf8));
    let mut pos = 0;
    assert_eq!(read_name(&[3, b'a', b'b', b'c', b'd'], &mut pos), Ok(&b"abc"[..]));
    assert_eq!(pos, 4);
    pos = 0;
    assert_eq!(read_name(&[3, b'a'], &mut pos), Err(WasmError::UnexpectedEnd));
    pos = 0;
    assert_eq!(read_name(&[1, 0xFF], &mut pos), Err(WasmError::MalformedUtf8));
}

#[test]
fn small_integers_keep_31_bits() {
    assert_eq!(i31_get_u(-1), 0x7FFF_FFFF);
    assert_eq!(i31_get_s(-1), -1);
    assert_eq!(i31_get_s(0x4000_0000), -0x4000_0000);
    assert_eq!(i31_get_u(0x4000_0000), 0x4000_0000);
}

#[test]
fn values_of_another_type_read_as_zero() {
    assert_eq!(Value::I32(7).as_i32(), 7);
    assert_eq!(Value::I64(7).as_i64(), 7);
    assert_eq!(Value::F32(7).as_i32(), 0);
    assert_eq!(Value::V128(V128([1; 16])).as_v128(), V128([1; 16]));
    assert_eq!(Value::default_for(ValType::I64), Value::I64(0));
    assert_eq!(Value::default_for(ValType::V128), Value::V128(V128([0; 16])));
}
