//! Byte reading, LEB128 integers and length-prefixed names.

use vstd::prelude::*;
use vstd::utf8::valid_utf8;
use crate::types::WasmError;

verus! {

/// What reading at a position gives: the value or the error, and the position reached.
pub type Parsed<T> = (Result<T, WasmError>, int);

/// The byte at `p`.
pub open spec fn byte_at(s: Seq<u8>, p: int) -> Parsed<u8> {
    if p >= s.len() {
        (Err(WasmError::UnexpectedEnd), p)
    } else {
        (Ok(s[p]), p + 1)
    }
}

/// `128` to the power `n`: the weight of the `n`-th group of seven bits.
pub open spec fn pow128(n: nat) -> nat
    decreases n,
{
    if n == 0 {
        1
    } else {
        128 * pow128((n - 1) as nat)
    }
}

/// The number whose base-128 digits, least significant first, are the low seven
/// bits of the `n` bytes at `p`.
pub open spec fn leb_digits(s: Seq<u8>, p: int, n: nat) -> nat
    decreases n,
{
    if n == 0 {
        0
    } else {
        leb_digits(s, p, (n - 1) as nat) + (s[p + n - 1] % 128) as nat * pow128((n - 1) as nat)
    }
}

/// An unsigned LEB128 integer at `p`, of which `n` bytes have been read. At most
/// `last + 1` bytes are allowed, and the last of them must be below `limit`.
pub open spec fn uleb(s: Seq<u8>, p: int, n: nat, last: nat, limit: int) -> Parsed<nat>
    decreases last - n,
{
    if p + n >= s.len() {
        (Err(WasmError::UnexpectedEnd), p + n)
    } else {
        let b = s[p + n];
        if n >= last && b >= limit {
            (Err(WasmError::InvalidLEB128), p + n + 1)
        } else if b < 128 || n >= last {
            (Ok(leb_digits(s, p, n + 1)), p + n + 1)
        } else {
            uleb(s, p, n + 1, last, limit)
        }
    }
}

/// The number in two's complement that the `n` groups of seven bits at `p` spell.
pub open spec fn leb_signed(s: Seq<u8>, p: int, n: nat) -> int {
    leb_digits(s, p, n) - if n > 0 && s[p + n - 1] % 128 >= 64 {
        pow128(n)
    } else {
        0
    }
}

/// A signed LEB128 integer at `p`, of which `n` bytes have been read. At most
/// `last + 1` bytes are allowed, and the last of them must be below `low` or
/// between `high` and 127: all its bits from the sign bit up are then equal.
pub open spec fn sleb(s: Seq<u8>, p: int, n: nat, last: nat, low: int, high: int) -> Parsed<int>
    decreases last - n,
{
    if p + n >= s.len() {
        (Err(WasmError::UnexpectedEnd), p + n)
    } else {
        let b = s[p + n];
        if n >= last && !(b < low || high <= b < 128) {
            (Err(WasmError::InvalidLEB128), p + n + 1)
        } else if b < 128 || n >= last {
            (Ok(leb_signed(s, p, n + 1)), p + n + 1)
        } else {
            sleb(s, p, n + 1, last, low, high)
        }
    }
}

/// The unsigned 32-bit LEB128 integer at `p`.
#[verifier::opaque]
pub open spec fn leb_u32(s: Seq<u8>, p: int) -> Parsed<u32> {
    let r = uleb(s, p, 0, 4, 16);
    match r.0 {
        Ok(v) => (Ok(v as u32), r.1),
        Err(e) => (Err(e), r.1),
    }
}

/// The unsigned 64-bit LEB128 integer at `p`.
#[verifier::opaque]
pub open spec fn leb_u64(s: Seq<u8>, p: int) -> Parsed<u64> {
    let r = uleb(s, p, 0, 9, 2);
    match r.0 {
        Ok(v) => (Ok(v as u64), r.1),
        Err(e) => (Err(e), r.1),
    }
}

/// The signed 32-bit LEB128 integer at `p`.
#[verifier::opaque]
pub open spec fn leb_i32(s: Seq<u8>, p: int) -> Parsed<i32> {
    let r = sleb(s, p, 0, 4, 8, 120);
    match r.0 {
        Ok(v) => (Ok(v as i32), r.1),
        Err(e) => (Err(e), r.1),
    }
}

/// The signed 64-bit LEB128 integer at `p`.
#[verifier::opaque]
pub open spec fn leb_i64(s: Seq<u8>, p: int) -> Parsed<i64> {
    let r = sleb(s, p, 0, 9, 1, 127);
    match r.0 {
        Ok(v) => (Ok(v as i64), r.1),
        Err(e) => (Err(e), r.1),
    }
}

/// A length-prefixed UTF-8 name at `p`.
#[verifier::opaque]
pub open spec fn name_at(s: Seq<u8>, p: int) -> Parsed<Seq<u8>> {
    let l = leb_u32(s, p);
    match l.0 {
        Err(e) => (Err(e), l.1),
        Ok(len) => if l.1 + len > s.len() {
            (Err(WasmError::UnexpectedEnd), l.1)
        } else if !valid_utf8(s.subrange(l.1, l.1 + len)) {
            (Err(WasmError::MalformedUtf8), l.1)
        } else {
            (Ok(s.subrange(l.1, l.1 + len)), l.1 + len)
        },
    }
}

proof fn uleb_bounds(s: Seq<u8>, p: int, n: nat, last: nat, limit: int)
    requires
        0 <= p,
    ensures
        uleb(s, p, n, last, limit).1 >= p + n,
        p + n <= s.len() ==> uleb(s, p, n, last, limit).1 <= s.len(),
        uleb(s, p, n, last, limit).0 is Ok ==> p + n < uleb(s, p, n, last, limit).1 <= s.len(),
    decreases last - n,
{
    if p + n < s.len() && s[p + n] >= 128 && n < last {
        uleb_bounds(s, p, n + 1, last, limit);
    }
}

proof fn sleb_bounds(s: Seq<u8>, p: int, n: nat, last: nat, low: int, high: int)
    requires
        0 <= p,
    ensures
        sleb(s, p, n, last, low, high).1 >= p + n,
        p + n <= s.len() ==> sleb(s, p, n, last, low, high).1 <= s.len(),
        sleb(s, p, n, last, low, high).0 is Ok ==> p + n < sleb(s, p, n, last, low, high).1 <= s.len(),
    decreases last - n,
{
    if p + n < s.len() && s[p + n] >= 128 && n < last {
        sleb_bounds(s, p, n + 1, last, low, high);
    }
}

/// Reading an unsigned 32-bit integer moves forward and stays within the bytes.
pub broadcast proof fn leb_u32_moves(s: Seq<u8>, p: int)
    requires
        0 <= p,
    ensures
        (#[trigger] leb_u32(s, p)).1 >= p,
        p <= s.len() ==> leb_u32(s, p).1 <= s.len(),
        leb_u32(s, p).0 is Ok ==> p < leb_u32(s, p).1 <= s.len(),
{
    reveal(leb_u32);
    uleb_bounds(s, p, 0, 4, 16);
}

/// Reading an unsigned 64-bit integer moves forward and stays within the bytes.
pub broadcast proof fn leb_u64_moves(s: Seq<u8>, p: int)
    requires
        0 <= p,
    ensures
        (#[trigger] leb_u64(s, p)).1 >= p,
        p <= s.len() ==> leb_u64(s, p).1 <= s.len(),
        leb_u64(s, p).0 is Ok ==> p < leb_u64(s, p).1 <= s.len(),
{
    reveal(leb_u64);
    uleb_bounds(s, p, 0, 9, 2);
}

/// Reading a signed 32-bit integer moves forward and stays within the bytes.
pub broadcast proof fn leb_i32_moves(s: Seq<u8>, p: int)
    requires
        0 <= p,
    ensures
        (#[trigger] leb_i32(s, p)).1 >= p,
        p <= s.len() ==> leb_i32(s, p).1 <= s.len(),
        leb_i32(s, p).0 is Ok ==> p < leb_i32(s, p).1 <= s.len(),
{
    reveal(leb_i32);
    sleb_bounds(s, p, 0, 4, 8, 120);
}

/// Reading a signed 64-bit integer moves forward and stays within the bytes.
pub broadcast proof fn leb_i64_moves(s: Seq<u8>, p: int)
    requires
        0 <= p,
    ensures
        (#[trigger] leb_i64(s, p)).1 >= p,
        p <= s.len() ==> leb_i64(s, p).1 <= s.len(),
        leb_i64(s, p).0 is Ok ==> p < leb_i64(s, p).1 <= s.len(),
{
    reveal(leb_i64);
    sleb_bounds(s, p, 0, 9, 1, 127);
}

pub broadcast group group_leb_moves {
    leb_u32_moves,
    leb_u64_moves,
    leb_i32_moves,
    leb_i64_moves,
}

/// Reads one byte.
pub fn read_byte(bytes: &[u8], pos: &mut usize) -> (r: Result<u8, WasmError>)
    ensures
        (r, *final(pos) as int) == byte_at(bytes@, *old(pos) as int),
{
    if *pos >= bytes.len() {
        return Err(WasmError::UnexpectedEnd);
    }
    let b: u8 = bytes[*pos];
    *pos = *pos + 1;
    Ok(b)
}

/// The byte at `pos`, which stays where it is.
pub fn peek_byte(bytes: &[u8], pos: usize) -> (r: Result<u8, WasmError>)
    ensures
        r == byte_at(bytes@, pos as int).0,
{
    if pos >= bytes.len() {
        return Err(WasmError::UnexpectedEnd);
    }
    Ok(bytes[pos])
}

proof fn digits_below(s: Seq<u8>, p: int, n: nat)
    ensures
        leb_digits(s, p, n) < pow128(n),
        pow128(n) >= 1,
    decreases n,
{
    if n > 0 {
        digits_below(s, p, (n - 1) as nat);
        let d = (s[p + n - 1] % 128) as nat;
        let w = pow128((n - 1) as nat);
        assert(d * w <= 127 * w) by (nonlinear_arith)
            requires
                d <= 127,
        ;
    }
}

proof fn pow128_values()
    ensures
        pow128(0) == 1,
        pow128(1) == 0x80,
        pow128(2) == 0x4000,
        pow128(3) == 0x20_0000,
        pow128(4) == 0x1000_0000,
        pow128(5) == 0x8_0000_0000,
        pow128(6) == 0x400_0000_0000,
        pow128(7) == 0x2_0000_0000_0000,
        pow128(8) == 0x100_0000_0000_0000,
        pow128(9) == 0x8000_0000_0000_0000,
        pow128(10) == 0x40_0000_0000_0000_0000,
{
    reveal_with_fuel(pow128, 11);
}

proof fn weights_grow(n: nat, m: nat)
    requires
        n <= m,
    ensures
        pow128(n) <= pow128(m),
    decreases m,
{
    if n < m {
        weights_grow(n, (m - 1) as nat);
    }
}

/// Reads an unsigned 32-bit LEB128 integer.
pub fn decode_leb128_u32(bytes: &[u8], pos: &mut usize) -> (r: Result<u32, WasmError>)
    ensures
        (r, *final(pos) as int) == leb_u32(bytes@, *old(pos) as int),
{
    reveal(leb_u32);
    let ghost s = bytes@;
    let ghost p = *pos as int;
    let mut value: u64 = 0;
    let mut weight: u64 = 1;
    let mut n: u32 = 0;
    proof {
        pow128_values();
    }
    loop
        invariant
            s == bytes@,
            0 <= p,
            n <= 4,
            *pos == p + n,
            weight == pow128(n as nat),
            value == leb_digits(s, p, n as nat),
            uleb(s, p, 0, 4, 16) == uleb(s, p, n as nat, 4, 16),
            p == *old(pos),
        decreases 4 - n,
    {
        proof {
            reveal(leb_u32);
            pow128_values();
            weights_grow(n as nat, 4);
            digits_below(s, p, n as nat);
        }
        if *pos >= bytes.len() {
            return Err(WasmError::UnexpectedEnd);
        }
        let byte: u8 = bytes[*pos];
        *pos = *pos + 1;
        if n == 4 && byte > 0x0F {
            return Err(WasmError::InvalidLEB128);
        }
        let digit: u64 = (byte % 128) as u64;
        assert(digit * weight <= 127 * weight) by (nonlinear_arith)
            requires
                digit <= 127,
        ;
        assert(n == 4 ==> digit * weight <= 15 * weight) by (nonlinear_arith)
            requires
                n == 4 ==> digit <= 15,
        ;
        value = value + digit * weight;
        assert(value == leb_digits(s, p, (n + 1) as nat));
        if byte < 128 {
            return Ok(value as u32);
        }
        weight = weight * 128;
        n = n + 1;
    }
}

/// Reads an unsigned 64-bit LEB128 integer.
pub fn decode_leb128_u64(bytes: &[u8], pos: &mut usize) -> (r: Result<u64, WasmError>)
    ensures
        (r, *final(pos) as int) == leb_u64(bytes@, *old(pos) as int),
{
    reveal(leb_u64);
    let ghost s = bytes@;
    let ghost p = *pos as int;
    let mut value: u128 = 0;
    let mut weight: u128 = 1;
    let mut n: u32 = 0;
    proof {
        pow128_values();
    }
    loop
        invariant
            s == bytes@,
            0 <= p,
            n <= 9,
            *pos == p + n,
            weight == pow128(n as nat),
            value == leb_digits(s, p, n as nat),
            uleb(s, p, 0, 9, 2) == uleb(s, p, n as nat, 9, 2),
            p == *old(pos),
        decreases 9 - n,
    {
        proof {
            reveal(leb_u64);
            pow128_values();
            weights_grow(n as nat, 9);
            digits_below(s, p, n as nat);
        }
        if *pos >= bytes.len() {
            return Err(WasmError::UnexpectedEnd);
        }
        let byte: u8 = bytes[*pos];
        *pos = *pos + 1;
        if n == 9 && byte > 0x01 {
            return Err(WasmError::InvalidLEB128);
        }
        let digit: u128 = (byte % 128) as u128;
        assert(digit * weight <= 127 * weight) by (nonlinear_arith)
            requires
                digit <= 127,
        ;
        assert(n == 9 ==> digit * weight <= weight) by (nonlinear_arith)
            requires
                n == 9 ==> digit <= 1,
        ;
        value = value + digit * weight;
        assert(value == leb_digits(s, p, (n + 1) as nat));
        if byte < 128 {
            return Ok(value as u64);
        }
        weight = weight * 128;
        n = n + 1;
    }
}

/// Reads a signed 32-bit LEB128 integer.
pub fn decode_leb128_i32(bytes: &[u8], pos: &mut usize) -> (r: Result<i32, WasmError>)
    ensures
        (r, *final(pos) as int) == leb_i32(bytes@, *old(pos) as int),
{
    reveal(leb_i32);
    let ghost s = bytes@;
    let ghost p = *pos as int;
    let mut value: i64 = 0;
    let mut weight: i64 = 1;
    let mut n: u32 = 0;
    proof {
        pow128_values();
    }
    loop
        invariant
            s == bytes@,
            0 <= p,
            n <= 4,
            *pos == p + n,
            weight == pow128(n as nat),
            value == leb_digits(s, p, n as nat),
            sleb(s, p, 0, 4, 8, 120) == sleb(s, p, n as nat, 4, 8, 120),
            p == *old(pos),
        decreases 4 - n,
    {
        proof {
            reveal(leb_i32);
            pow128_values();
            weights_grow(n as nat, 4);
            weights_grow((n + 1) as nat, 5);
            if n < 4 {
                weights_grow((n + 1) as nat, 4);
            }
            digits_below(s, p, n as nat);
            digits_below(s, p, (n + 1) as nat);
        }
        if *pos >= bytes.len() {
            return Err(WasmError::UnexpectedEnd);
        }
        let byte: u8 = bytes[*pos];
        *pos = *pos + 1;
        if n == 4 && !(byte < 8 || (byte >= 120 && byte < 128)) {
            return Err(WasmError::InvalidLEB128);
        }
        let digit: i64 = (byte % 128) as i64;
        assert(0 <= digit * weight <= 127 * weight) by (nonlinear_arith)
            requires
                0 <= digit <= 127,
                1 <= weight,
        ;
        assert(digit >= 120 ==> digit * weight >= 120 * weight) by (nonlinear_arith)
            requires
                1 <= weight,
        ;
        assert(digit < 8 ==> digit * weight <= 7 * weight) by (nonlinear_arith)
            requires
                1 <= weight,
        ;
        value = value + digit * weight;
        assert(value == leb_digits(s, p, (n + 1) as nat));
        weight = weight * 128;
        assert(weight == pow128((n + 1) as nat));
        if byte < 128 {
            if byte >= 64 {
                value = value - weight;
            }
            assert(value == leb_signed(s, p, (n + 1) as nat));
            assert(i32::MIN <= value <= i32::MAX);
            return Ok(value as i32);
        }
        n = n + 1;
    }
}

/// Reads a signed 64-bit LEB128 integer.
pub fn decode_leb128_i64(bytes: &[u8], pos: &mut usize) -> (r: Result<i64, WasmError>)
    ensures
        (r, *final(pos) as int) == leb_i64(bytes@, *old(pos) as int),
{
    reveal(leb_i64);
    let ghost s = bytes@;
    let ghost p = *pos as int;
    let mut value: i128 = 0;
    let mut weight: i128 = 1;
    let mut n: u32 = 0;
    proof {
        pow128_values();
    }
    loop
        invariant
            s == bytes@,
            0 <= p,
            n <= 9,
            *pos == p + n,
            weight == pow128(n as nat),
            value == leb_digits(s, p, n as nat),
            sleb(s, p, 0, 9, 1, 127) == sleb(s, p, n as nat, 9, 1, 127),
            p == *old(pos),
        decreases 9 - n,
    {
        proof {
            reveal(leb_i64);
            pow128_values();
            weights_grow(n as nat, 9);
            weights_grow((n + 1) as nat, 10);
            if n < 9 {
                weights_grow((n + 1) as nat, 9);
            }
            digits_below(s, p, n as nat);
            digits_below(s, p, (n + 1) as nat);
        }
        if *pos >= bytes.len() {
            return Err(WasmError::UnexpectedEnd);
        }
        let byte: u8 = bytes[*pos];
        *pos = *pos + 1;
        if n == 9 && byte != 0x00 && byte != 0x7F {
            return Err(WasmError::InvalidLEB128);
        }
        let digit: i128 = (byte % 128) as i128;
        assert(0 <= digit * weight <= 127 * weight) by (nonlinear_arith)
            requires
                0 <= digit <= 127,
                1 <= weight,
        ;
        assert(digit == 127 ==> digit * weight == 127 * weight) by (nonlinear_arith);
        assert(digit == 0 ==> digit * weight == 0) by (nonlinear_arith);
        value = value + digit * weight;
        assert(value == leb_digits(s, p, (n + 1) as nat));
        weight = weight * 128;
        assert(weight == pow128((n + 1) as nat));
        if byte < 128 {
            if byte >= 64 {
                value = value - weight;
            }
            assert(value == leb_signed(s, p, (n + 1) as nat));
            assert(i64::MIN <= value <= i64::MAX);
            return Ok(value as i64);
        }
        n = n + 1;
    }
}

// ---------------------------------------------------------------------------
// Encodings

/// The shortest unsigned LEB128 encoding of a number.
pub open spec fn uleb_bytes(v: nat) -> Seq<u8>
    decreases v,
{
    if v < 128 {
        seq![v as u8]
    } else {
        seq![(v % 128 + 128) as u8] + uleb_bytes(v / 128)
    }
}

/// The shortest signed LEB128 encoding of a number.
pub open spec fn sleb_bytes(v: int) -> Seq<u8>
    decreases
            if v < 0 {
                -v
            } else {
                v
            },
{
    if -64 <= v < 64 {
        seq![(v % 128) as u8]
    } else {
        seq![(v % 128 + 128) as u8] + sleb_bytes(v / 128)
    }
}

/// Whether `b` stands at `p`.
pub open spec fn stands_at(s: Seq<u8>, p: int, b: Seq<u8>) -> bool {
    p + b.len() <= s.len() && forall|i: int| 0 <= i < b.len() ==> #[trigger] s[p + i] == b[i]
}

proof fn rest_stands(s: Seq<u8>, p: int, first: u8, rest: Seq<u8>)
    requires
        stands_at(s, p, seq![first] + rest),
    ensures
        s[p] == first,
        stands_at(s, p + 1, rest),
{
    let b = seq![first] + rest;
    assert(s[p + 0] == b[0]);
    assert forall|i: int| 0 <= i < rest.len() implies #[trigger] s[p + 1 + i] == rest[i] by {
        assert(s[p + (i + 1)] == b[i + 1]);
    }
}

proof fn digits_join(v: int, d: int, w: int)
    ensures
        d + (v % 128) * w + (v / 128) * (128 * w) == d + v * w,
{
    assert(v == 128 * (v / 128) + v % 128);
    assert((v % 128) * w + (v / 128) * (128 * w) == (128 * (v / 128) + v % 128) * w) by (nonlinear_arith);
}

proof fn last_digit(limit: int, k: nat)
    requires
        k == 0,
    ensures
        limit * pow128(k) == limit,
{
    assert(pow128(k) == 1);
    assert(limit * 1 == limit);
}

proof fn uleb_reads(s: Seq<u8>, p: int, n: nat, v: nat, last: nat, limit: int)
    requires
        0 <= p,
        n <= last,
        2 <= limit <= 128,
        v < limit * pow128((last - n) as nat),
        stands_at(s, p + n, uleb_bytes(v)),
    ensures
        uleb(s, p, n, last, limit) == (
            Ok::<nat, WasmError>((leb_digits(s, p, n) + v * pow128(n)) as nat),
            p + n + uleb_bytes(v).len(),
        ),
    decreases v,
{
    let w = pow128(n);
    if v < 128 {
        assert(uleb_bytes(v)[0] == v as u8);
        assert(s[p + n + 0] == v as u8);
        if n == last {
            last_digit(limit, (last - n) as nat);
        }
        assert((s[p + n] % 128) as nat == v);
    } else {
        rest_stands(s, p + n, (v % 128 + 128) as u8, uleb_bytes(v / 128));
        if n == last {
            last_digit(limit, (last - n) as nat);
        }
        let k = (last - n - 1) as nat;
        assert(pow128((last - n) as nat) == 128 * pow128(k));
        assert(v / 128 < limit * pow128(k)) by (nonlinear_arith)
            requires
                v < limit * (128 * pow128(k)),
        ;
        assert(p + n + 1 == p + (n + 1));
        uleb_reads(s, p, n + 1, v / 128, last, limit);
        assert((s[p + n] % 128) as nat == v % 128);
        assert(pow128(n + 1) == 128 * w);
        digits_join(v as int, leb_digits(s, p, n) as int, w as int);
    }
}

proof fn sleb_reads(s: Seq<u8>, p: int, n: nat, v: int, last: nat, low: int)
    requires
        0 <= p,
        n <= last,
        1 <= low <= 64,
        -(low * pow128((last - n) as nat)) <= v < low * pow128((last - n) as nat),
        stands_at(s, p + n, sleb_bytes(v)),
    ensures
        sleb(s, p, n, last, low, 128 - low) == (
            Ok::<int, WasmError>(leb_digits(s, p, n) + v * pow128(n)),
            p + n + sleb_bytes(v).len(),
        ),
    decreases
            if v < 0 {
                -v
            } else {
                v
            },
{
    let w = pow128(n) as int;
    if -64 <= v < 64 {
        assert(sleb_bytes(v)[0] == (v % 128) as u8);
        assert(s[p + n + 0] == (v % 128) as u8);
        if n == last {
            last_digit(low, (last - n) as nat);
        }
        assert(pow128(n + 1) == 128 * pow128(n));
        assert((s[p + n] % 128) as nat == v % 128);
        if v < 0 {
            assert((v + 128) * w - 128 * w == v * w) by (nonlinear_arith);
        }
    } else {
        rest_stands(s, p + n, (v % 128 + 128) as u8, sleb_bytes(v / 128));
        if n == last {
            last_digit(low, (last - n) as nat);
        }
        let k = (last - n - 1) as nat;
        assert(pow128((last - n) as nat) == 128 * pow128(k));
        assert(-(low * pow128(k)) <= v / 128 < low * pow128(k)) by (nonlinear_arith)
            requires
                -(low * (128 * pow128(k))) <= v < low * (128 * pow128(k)),
        ;
        assert(p + n + 1 == p + (n + 1));
        sleb_reads(s, p, n + 1, v / 128, last, low);
        assert((s[p + n] % 128) as nat == v % 128);
        assert(pow128(n + 1) == 128 * pow128(n));
        digits_join(v, leb_digits(s, p, n) as int, w);
    }
}

/// Reading the encoding of an unsigned number gives the number, and ends where the
/// encoding ends.
pub proof fn unsigned_reads_back(s: Seq<u8>, p: int, x: u32, y: u64)
    requires
        0 <= p,
    ensures
        stands_at(s, p, uleb_bytes(x as nat)) ==> leb_u32(s, p) == (
            Ok::<u32, WasmError>(x),
            p + uleb_bytes(x as nat).len(),
        ),
        stands_at(s, p, uleb_bytes(y as nat)) ==> leb_u64(s, p) == (
            Ok::<u64, WasmError>(y),
            p + uleb_bytes(y as nat).len(),
        ),
{
    reveal(leb_u32);
    reveal(leb_u64);
    reveal_with_fuel(pow128, 11);
    assert(leb_digits(s, p, 0) == 0);
    if stands_at(s, p, uleb_bytes(x as nat)) {
        last_digit(x as int, 0);
        uleb_reads(s, p, 0, x as nat, 4, 16);
    }
    if stands_at(s, p, uleb_bytes(y as nat)) {
        last_digit(y as int, 0);
        uleb_reads(s, p, 0, y as nat, 9, 2);
    }
}

/// Reading the encoding of a signed number gives the number, and ends where the
/// encoding ends.
pub proof fn signed_reads_back(s: Seq<u8>, p: int, x: i32, y: i64)
    requires
        0 <= p,
    ensures
        stands_at(s, p, sleb_bytes(x as int)) ==> leb_i32(s, p) == (
            Ok::<i32, WasmError>(x),
            p + sleb_bytes(x as int).len(),
        ),
        stands_at(s, p, sleb_bytes(y as int)) ==> leb_i64(s, p) == (
            Ok::<i64, WasmError>(y),
            p + sleb_bytes(y as int).len(),
        ),
{
    reveal(leb_i32);
    reveal(leb_i64);
    reveal_with_fuel(pow128, 11);
    assert(leb_digits(s, p, 0) == 0);
    if stands_at(s, p, sleb_bytes(x as int)) {
        last_digit(x as int, 0);
        sleb_reads(s, p, 0, x as int, 4, 8);
    }
    if stands_at(s, p, sleb_bytes(y as int)) {
        last_digit(y as int, 0);
        sleb_reads(s, p, 0, y as int, 9, 1);
    }
}

/// Calls `core::str::from_utf8`: true exactly where the bytes are well-formed UTF-8.
#[verifier::external_body]
fn is_utf8(bytes: &[u8]) -> (r: bool)
    ensures
        r == valid_utf8(bytes@),
{
    core::str::from_utf8(bytes).is_ok()
}

/// Accepts well-formed UTF-8 only.
pub fn validate_utf8(bytes: &[u8]) -> (r: Result<(), WasmError>)
    ensures
        r == if valid_utf8(bytes@) {
            Ok::<(), WasmError>(())
        } else {
            Err(WasmError::MalformedUtf8)
        },
{
    if is_utf8(bytes) {
        Ok(())
    } else {
        Err(WasmError::MalformedUtf8)
    }
}

/// Reads a length-prefixed name and validates it as UTF-8.
pub fn read_name<'a>(bytes: &'a [u8], pos: &mut usize) -> (r: Result<&'a [u8], WasmError>)
    ensures
        *final(pos) == name_at(bytes@, *old(pos) as int).1,
        match r {
            Ok(name) => name_at(bytes@, *old(pos) as int).0 == Ok::<Seq<u8>, WasmError>(name@),
            Err(e) => name_at(bytes@, *old(pos) as int).0 == Err::<Seq<u8>, WasmError>(e),
        },
{
    broadcast use group_leb_moves;

    reveal(name_at);
    let len: usize = decode_leb128_u32(bytes, pos)? as usize;
    if len > bytes.len() - *pos {
        return Err(WasmError::UnexpectedEnd);
    }
    let name = vstd::slice::slice_subrange(bytes, *pos, *pos + len);
    validate_utf8(name)?;
    *pos = *pos + len;
    Ok(name)
}

} // verus!
