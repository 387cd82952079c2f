//! Constant expressions that may make heap objects.

use vstd::prelude::*;
use crate::bytes::{le_u32, le_u64, read_u32, read_u64};
use crate::gc_ops::{initial_fields, repeat, repeated};
use crate::heap::{elem_storage, field_storage, initial, initial_value, struct_fields, wrap_value, wrapped};
use crate::init_expr::{combine_values, const_arith32, set_top_value, value_combine, value_top};
use crate::machine::{least, GcObject, Object};
use crate::module::{group_views, views, Module, WasmModule};
use crate::num::{i31_get_s, i31_get_u, i31_signed, i31_unsigned};
use crate::reader::{
    decode_leb128_i32, decode_leb128_i64, decode_leb128_u32, group_leb_moves, leb_i32, leb_i64, leb_u32,
};
use crate::types::Value;

verus! {

broadcast use {group_leb_moves, group_views};

/// The heap and the operands during the evaluation of a constant expression.
#[verifier::ext_equal]
pub struct Evaluation {
    pub heap: Seq<Object>,
    pub stack: Seq<Value>,
}

impl Evaluation {
    pub open spec fn push(self, v: Value) -> Evaluation {
        Evaluation { stack: self.stack.push(v), ..self }
    }

    /// Drops `n` operands, or those there are.
    pub open spec fn drop_top(self, n: int) -> Evaluation {
        Evaluation { stack: self.stack.take(self.stack.len() - least(n, self.stack.len() as int)), ..self }
    }

    /// The operand `n` below the top, zero where there is none.
    pub open spec fn operand(self, n: int) -> Value {
        if n < self.stack.len() {
            self.stack[self.stack.len() - 1 - n]
        } else {
            Value::I32(0)
        }
    }

    /// The operands that `n` fields or elements are made of: those on top, in order.
    pub open spec fn operands(self, n: int) -> Seq<Value> {
        self.stack.skip(self.stack.len() - least(n, self.stack.len() as int))
    }

    /// Puts an object on the heap and pushes a reference to it.
    pub open spec fn allocate(self, o: Object) -> Evaluation {
        Evaluation { heap: self.heap.push(o), stack: self.stack.push(Value::GcRef(self.heap.len() as u32)) }
    }
}

/// The fields of a struct made of operands, filled up with zeros.
pub open spec fn made_fields(m: Module, ti: u32, operands: Seq<Value>) -> Seq<Value> {
    Seq::new(
        struct_fields(m, ti).len(),
        |i: int|
            wrapped(
                field_storage(m, ti, i),
                if i < operands.len() {
                    operands[i]
                } else {
                    Value::I32(0)
                },
            ),
    )
}

/// The elements of an array made of operands.
pub open spec fn made_elements(m: Module, ti: u32, operands: Seq<Value>) -> Seq<Value> {
    Seq::new(operands.len(), |i: int| wrapped(elem_storage(m, ti), operands[i]))
}

/// Makes the object that the instruction with this number describes, of the type
/// `ti`.
pub open spec fn made(m: Module, sub: u32, ti: u32, e: Evaluation) -> Evaluation {
    if sub == 0 {
        let n = struct_fields(m, ti).len() as int;
        e.drop_top(n).allocate(Object::Struct { type_idx: ti, fields: made_fields(m, ti, e.operands(n)) })
    } else if sub == 1 {
        e.allocate(Object::Struct { type_idx: ti, fields: initial_fields(struct_fields(m, ti)) })
    } else if sub == 6 {
        e.drop_top(2).allocate(
            Object::Array {
                type_idx: ti,
                elements: repeated(
                    wrapped(elem_storage(m, ti), e.operand(1)),
                    e.operand(0).i32_or_zero() as u32 as int,
                ),
            },
        )
    } else {
        e.drop_top(1).allocate(
            Object::Array {
                type_idx: ti,
                elements: repeated(initial(elem_storage(m, ti)), e.operand(0).i32_or_zero() as u32 as int),
            },
        )
    }
}

/// Evaluates the instruction with the prefix 0xFB and this number, `None` where it is
/// not constant. Immediates that cannot be read leave everything as it is.
pub open spec fn object_step(m: Module, s: Seq<u8>, p: int, sub: u32, e: Evaluation) -> (Option<Evaluation>, int) {
    if sub == 0 || sub == 1 || sub == 6 || sub == 7 {
        let t = leb_u32(s, p);
        match t.0 {
            Ok(ti) => (Some(made(m, sub, ti, e)), t.1),
            Err(_) => (Some(e), t.1),
        }
    } else if sub == 8 {
        let t = leb_u32(s, p);
        match t.0 {
            Ok(ti) => {
                let c = leb_u32(s, t.1);
                match c.0 {
                    Ok(n) => (
                        Some(
                            e.drop_top(n as int).allocate(
                                Object::Array { type_idx: ti, elements: made_elements(m, ti, e.operands(n as int)) },
                            ),
                        ),
                        c.1,
                    ),
                    Err(_) => (Some(e), c.1),
                }
            },
            Err(_) => (Some(e), t.1),
        }
    } else if 26 <= sub <= 28 {
        (Some(e), p)
    } else if sub == 29 {
        (Some(Evaluation { stack: value_top(e.stack, Value::I32(i31_signed(e.operand(0).i32_or_zero()))), ..e }), p)
    } else if sub == 30 {
        (Some(Evaluation { stack: value_top(e.stack, Value::I32(i31_unsigned(e.operand(0).i32_or_zero()))), ..e }), p)
    } else {
        (None, p)
    }
}

/// Evaluates the instruction whose opcode `op` has been read, `None` where it is not
/// constant or its bytes are missing.
pub open spec fn const_step(m: Module, globals: Seq<Value>, s: Seq<u8>, p: int, op: u8, e: Evaluation) -> (
    Option<Evaluation>,
    int,
) {
    match op {
        0x41 => {
            let r = leb_i32(s, p);
            match r.0 {
                Ok(v) => (Some(e.push(Value::I32(v))), r.1),
                Err(_) => (Some(e), r.1),
            }
        },
        0x42 => {
            let r = leb_i64(s, p);
            match r.0 {
                Ok(v) => (Some(e.push(Value::I64(v))), r.1),
                Err(_) => (Some(e), r.1),
            }
        },
        0x43 => if p + 4 > s.len() {
            (None, p)
        } else {
            (Some(e.push(Value::F32(le_u32(s, p)))), p + 4)
        },
        0x44 => if p + 8 > s.len() {
            (None, p)
        } else {
            (Some(e.push(Value::F64(le_u64(s, p)))), p + 8)
        },
        0x23 => {
            let r = leb_u32(s, p);
            match r.0 {
                Ok(i) => (
                    Some(
                        e.push(
                            if i < globals.len() {
                                globals[i as int]
                            } else {
                                Value::I32(0)
                            },
                        ),
                    ),
                    r.1,
                ),
                Err(_) => (Some(e), r.1),
            }
        },
        0xD0 => (Some(e.push(Value::NullRef)), leb_i32(s, p).1),
        0xD2 => {
            let r = leb_u32(s, p);
            match r.0 {
                Ok(f) => (Some(e.push(Value::I32(f as i32))), r.1),
                Err(_) => (Some(e), r.1),
            }
        },
        0xFB => {
            let r = leb_u32(s, p);
            match r.0 {
                Ok(sub) => object_step(m, s, r.1, sub, e),
                Err(_) => (Some(e), r.1),
            }
        },
        0x6A | 0x6B | 0x6C => (
            Some(
                Evaluation {
                    stack: value_combine(
                        e.stack,
                        Value::I32(const_arith32(op, e.operand(1).i32_or_zero(), e.operand(0).i32_or_zero())),
                    ),
                    ..e
                },
            ),
            p,
        ),
        _ => (None, p),
    }
}

/// Evaluates instructions from `p` on, up to the end marker: the heap afterwards, and
/// the value, `None` where the expression is not constant or leaves none.
pub open spec fn const_from(m: Module, globals: Seq<Value>, s: Seq<u8>, p: int, e: Evaluation) -> (
    Seq<Object>,
    Option<Value>,
)
    decreases s.len() - p,
{
    if p < 0 || p >= s.len() {
        (e.heap, None)
    } else if s[p] == 0x0B {
        (
            e.heap,
            if e.stack.len() > 0 {
                Some(e.stack.last())
            } else {
                None
            },
        )
    } else {
        let r = const_step(m, globals, s, p + 1, s[p], e);
        match r.0 {
            Some(next) => const_from(m, globals, s, r.1, next),
            None => (e.heap, None),
        }
    }
}

/// The heap after the evaluation of a constant expression, and its value.
#[verifier::opaque]
pub open spec fn const_value(m: Module, globals: Seq<Value>, s: Seq<u8>, heap: Seq<Object>) -> (
    Seq<Object>,
    Option<Value>,
) {
    const_from(m, globals, s, 0, Evaluation { heap, stack: Seq::empty() })
}

/// Evaluating a constant expression leaves the objects of the heap as they are.
pub proof fn evaluation_keeps_heap(m: Module, globals: Seq<Value>, s: Seq<u8>, heap: Seq<Object>)
    ensures
        heap.is_prefix_of(const_value(m, globals, s, heap).0),
{
    reveal(const_value);
    const_from_keeps_heap(m, globals, s, 0, Evaluation { heap, stack: Seq::empty() });
}

proof fn const_from_keeps_heap(m: Module, globals: Seq<Value>, s: Seq<u8>, p: int, e: Evaluation)
    ensures
        e.heap.is_prefix_of(const_from(m, globals, s, p, e).0),
    decreases s.len() - p,
{
    if 0 <= p < s.len() && s[p] != 0x0B {
        let r = const_step(m, globals, s, p + 1, s[p], e);
        if let Some(next) = r.0 {
            const_from_keeps_heap(m, globals, s, r.1, next);
        }
    }
}

// ---------------------------------------------------------------------------
// Execution

/// Puts an object on the heap and pushes a reference to it.
fn allocate(heap: &mut Vec<GcObject>, stack: &mut Vec<Value>, o: GcObject)
    ensures
        views(final(heap)@) == views(old(heap)@).push(o@),
        final(stack)@ == old(stack)@.push(Value::GcRef(old(heap)@.len() as u32)),
{
    let h: u32 = heap.len() as u32;
    heap.push(o);
    stack.push(Value::GcRef(h));
}

/// The operand `n` below the top, zero where there is none.
fn operand(stack: &Vec<Value>, n: usize) -> (r: Value)
    ensures
        forall|heap: Seq<Object>| r == #[trigger] (Evaluation { heap, stack: stack@ }).operand(n as int),
{
    let len: usize = stack.len();
    if n < len {
        stack[len - 1 - n]
    } else {
        Value::I32(0)
    }
}

/// Drops `n` operands, or those there are.
fn drop_top(stack: &mut Vec<Value>, n: usize)
    ensures
        final(stack)@ == old(stack)@.take(old(stack)@.len() - least(n as int, old(stack)@.len() as int)),
{
    let len: usize = stack.len();
    stack.truncate(
        if n <= len {
            len - n
        } else {
            0
        },
    );
    assert(stack@ =~= old(stack)@.take(old(stack)@.len() - least(n as int, old(stack)@.len() as int)));
}

/// The fields of a struct made of the operands on top.
fn make_fields(module: &WasmModule, ti: u32, stack: &Vec<Value>) -> (r: Vec<Value>)
    ensures
        forall|heap: Seq<Object>|
            r@ == made_fields(
                module@,
                ti,
                #[trigger] (Evaluation { heap, stack: stack@ }).operands(struct_fields(module@, ti).len() as int),
            ),
{
    let n: usize = module.struct_field_count(ti);
    let len: usize = stack.len();
    let k: usize = if n <= len {
        n
    } else {
        len
    };
    let ghost top = stack@.skip(len - k);
    let mut fields: Vec<Value> = Vec::new();
    let mut i: usize = 0;
    while i < n
        invariant
            i <= n,
            n == struct_fields(module@, ti).len(),
            len == stack@.len(),
            k <= len,
            k <= n,
            top == stack@.skip(len - k),
            fields@.len() == i,
            forall|j: int| 0 <= j < i ==> #[trigger] fields@[j] == made_fields(module@, ti, top)[j],
        decreases n - i,
    {
        let v = if i < k {
            stack[len - k + i]
        } else {
            Value::I32(0)
        };
        fields.push(wrap_value(module.struct_field_storage(ti, i), v));
        i = i + 1;
    }
    assert(fields@ =~= made_fields(module@, ti, top));
    fields
}

/// The fields that a struct starts with.
fn start_fields(module: &WasmModule, ti: u32) -> (r: Vec<Value>)
    ensures
        r@ == initial_fields(struct_fields(module@, ti)),
{
    let n: usize = module.struct_field_count(ti);
    let mut fields: Vec<Value> = Vec::new();
    let mut i: usize = 0;
    while i < n
        invariant
            i <= n,
            n == struct_fields(module@, ti).len(),
            fields@.len() == i,
            forall|j: int| 0 <= j < i ==> #[trigger] fields@[j] == initial_fields(struct_fields(module@, ti))[j],
        decreases n - i,
    {
        fields.push(initial_value(module.struct_field_storage(ti, i)));
        i = i + 1;
    }
    assert(fields@ =~= initial_fields(struct_fields(module@, ti)));
    fields
}

/// The elements of an array made of the `n` operands on top.
fn make_elements(module: &WasmModule, ti: u32, stack: &Vec<Value>, n: usize) -> (r: Vec<Value>)
    ensures
        forall|heap: Seq<Object>|
            r@ == made_elements(module@, ti, #[trigger] (Evaluation { heap, stack: stack@ }).operands(n as int)),
{
    let len: usize = stack.len();
    let k: usize = if n <= len {
        n
    } else {
        len
    };
    let ghost top = stack@.skip(len - k);
    let st = module.array_elem_storage(ti);
    let mut elements: Vec<Value> = Vec::new();
    let mut i: usize = 0;
    while i < k
        invariant
            i <= k,
            len == stack@.len(),
            k <= len,
            st == elem_storage(module@, ti),
            top == stack@.skip(len - k),
            elements@.len() == i,
            forall|j: int| 0 <= j < i ==> #[trigger] elements@[j] == made_elements(module@, ti, top)[j],
        decreases k - i,
    {
        elements.push(wrap_value(st, stack[len - k + i]));
        i = i + 1;
    }
    assert(elements@ =~= made_elements(module@, ti, top));
    elements
}

/// Makes the object that the instruction with this number describes.
fn make(module: &WasmModule, sub: u32, ti: u32, heap: &mut Vec<GcObject>, stack: &mut Vec<Value>)
    requires
        sub == 0 || sub == 1 || sub == 6 || sub == 7,
    ensures
        (Evaluation { heap: views(final(heap)@), stack: final(stack)@ }) == made(
            module@,
            sub,
            ti,
            Evaluation { heap: views(old(heap)@), stack: old(stack)@ },
        ),
{
    let ghost e = Evaluation { heap: views(heap@), stack: stack@ };
    match sub {
        0 => {
            let n: usize = module.struct_field_count(ti);
            let fields = make_fields(module, ti, stack);
            assert(fields@ == made_fields(module@, ti, e.operands(n as int)));
            drop_top(stack, n);
            allocate(heap, stack, GcObject::Struct { type_idx: ti, fields });
        },
        1 => {
            let fields = start_fields(module, ti);
            allocate(heap, stack, GcObject::Struct { type_idx: ti, fields });
        },
        6 => {
            let n: u32 = operand(stack, 0).as_i32() as u32;
            let v = operand(stack, 1);
            assert(n == e.operand(0).i32_or_zero() as u32 && v == e.operand(1));
            drop_top(stack, 2);
            let elements = repeat(wrap_value(module.array_elem_storage(ti), v), n as usize);
            allocate(heap, stack, GcObject::Array { type_idx: ti, elements });
        },
        _ => {
            let n: u32 = operand(stack, 0).as_i32() as u32;
            assert(n == e.operand(0).i32_or_zero() as u32);
            drop_top(stack, 1);
            let elements = repeat(initial_value(module.array_elem_storage(ti)), n as usize);
            allocate(heap, stack, GcObject::Array { type_idx: ti, elements });
        },
    }
}

/// Evaluates an instruction with the prefix 0xFB. Returns whether it is constant.
fn eval_object_step(
    module: &WasmModule,
    bytes: &[u8],
    pos: &mut usize,
    sub: u32,
    heap: &mut Vec<GcObject>,
    stack: &mut Vec<Value>,
) -> (r: bool)
    ensures
        ({
            let s = object_step(
                module@,
                bytes@,
                *old(pos) as int,
                sub,
                Evaluation { heap: views(old(heap)@), stack: old(stack)@ },
            );
            &&& *final(pos) == s.1
            &&& r == (s.0 is Some)
            &&& r ==> s.0 == Some(Evaluation { heap: views(final(heap)@), stack: final(stack)@ })
            &&& !r ==> views(final(heap)@) == views(old(heap)@)
        }),
{
    let ghost e = Evaluation { heap: views(heap@), stack: stack@ };
    match sub {
        0 | 1 | 6 | 7 => {
            if let Ok(ti) = decode_leb128_u32(bytes, pos) {
                make(module, sub, ti, heap, stack);
            }
            true
        },
        8 => {
            if let Ok(ti) = decode_leb128_u32(bytes, pos) {
                if let Ok(n) = decode_leb128_u32(bytes, pos) {
                    let elements = make_elements(module, ti, stack, n as usize);
                    assert(elements@ == made_elements(module@, ti, e.operands(n as int)));
                    drop_top(stack, n as usize);
                    allocate(heap, stack, GcObject::Array { type_idx: ti, elements });
                }
            }
            true
        },
        26 | 27 | 28 => true,
        29 => {
            let v: i32 = operand(stack, 0).as_i32();
            assert(v == e.operand(0).i32_or_zero());
            set_top_value(stack, Value::I32(i31_get_s(v)));
            true
        },
        30 => {
            let v: i32 = operand(stack, 0).as_i32();
            assert(v == e.operand(0).i32_or_zero());
            set_top_value(stack, Value::I32(i31_get_u(v)));
            true
        },
        _ => false,
    }
}

/// Evaluates the instruction whose opcode has been read. Returns whether it is
/// constant and its bytes are there.
fn eval_const_step(
    module: &WasmModule,
    globals: &Vec<Value>,
    bytes: &[u8],
    pos: &mut usize,
    op: u8,
    heap: &mut Vec<GcObject>,
    stack: &mut Vec<Value>,
) -> (r: bool)
    ensures
        ({
            let s = const_step(
                module@,
                globals@,
                bytes@,
                *old(pos) as int,
                op,
                Evaluation { heap: views(old(heap)@), stack: old(stack)@ },
            );
            &&& *final(pos) == s.1
            &&& r == (s.0 is Some)
            &&& r ==> s.0 == Some(Evaluation { heap: views(final(heap)@), stack: final(stack)@ })
            &&& !r ==> views(final(heap)@) == views(old(heap)@)
        }),
{
    let ghost e = Evaluation { heap: views(heap@), stack: stack@ };
    match op {
        0x41 => {
            if let Ok(v) = decode_leb128_i32(bytes, pos) {
                stack.push(Value::I32(v));
            }
            true
        },
        0x42 => {
            if let Ok(v) = decode_leb128_i64(bytes, pos) {
                stack.push(Value::I64(v));
            }
            true
        },
        0x43 => {
            if *pos > bytes.len() || bytes.len() - *pos < 4 {
                return false;
            }
            stack.push(Value::F32(read_u32(bytes, *pos)));
            *pos = *pos + 4;
            true
        },
        0x44 => {
            if *pos > bytes.len() || bytes.len() - *pos < 8 {
                return false;
            }
            stack.push(Value::F64(read_u64(bytes, *pos)));
            *pos = *pos + 8;
            true
        },
        0x23 => {
            if let Ok(i) = decode_leb128_u32(bytes, pos) {
                stack.push(
                    if (i as usize) < globals.len() {
                        globals[i as usize]
                    } else {
                        Value::I32(0)
                    },
                );
            }
            true
        },
        0xD0 => {
            let _ht = decode_leb128_i32(bytes, pos);
            stack.push(Value::NullRef);
            true
        },
        0xD2 => {
            if let Ok(f) = decode_leb128_u32(bytes, pos) {
                stack.push(Value::I32(f as i32));
            }
            true
        },
        0xFB => {
            if let Ok(sub) = decode_leb128_u32(bytes, pos) {
                return eval_object_step(module, bytes, pos, sub, heap, stack);
            }
            true
        },
        0x6A | 0x6B | 0x6C => {
            let b: i32 = operand(stack, 0).as_i32();
            let a: i32 = operand(stack, 1).as_i32();
            assert(b == e.operand(0).i32_or_zero() && a == e.operand(1).i32_or_zero());
            let v: i32 = if op == 0x6A {
                a.wrapping_add(b)
            } else if op == 0x6B {
                a.wrapping_sub(b)
            } else {
                a.wrapping_mul(b)
            };
            combine_values(stack, Value::I32(v));
            true
        },
        _ => false,
    }
}

/// Evaluates a constant expression that may make heap objects. Returns `None` where it
/// is not constant or leaves no value.
pub fn eval_gc_const_expr(
    module: &WasmModule,
    globals: &Vec<Value>,
    heap: &mut Vec<GcObject>,
    bytes: &[u8],
) -> (r: Option<Value>)
    ensures
        (views(final(heap)@), r) == const_value(module@, globals@, bytes@, views(old(heap)@)),
{
    reveal(const_value);
    let mut pos: usize = 0;
    let mut stack: Vec<Value> = Vec::new();
    assert(stack@ =~= Seq::<Value>::empty());
    loop
        invariant
            const_from(
                module@,
                globals@,
                bytes@,
                0,
                Evaluation { heap: views(old(heap)@), stack: Seq::empty() },
            ) == const_from(
                module@,
                globals@,
                bytes@,
                pos as int,
                Evaluation { heap: views(heap@), stack: stack@ },
            ),
        decreases bytes@.len() - pos,
    {
        reveal(const_value);
        if pos >= bytes.len() {
            return None;
        }
        let op: u8 = bytes[pos];
        pos = pos + 1;
        if op == 0x0B {
            return stack.pop();
        }
        if !eval_const_step(module, globals, bytes, &mut pos, op, heap, &mut stack) {
            return None;
        }
    }
}

} // verus!
