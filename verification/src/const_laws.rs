//! What constant expressions make on the heap, and what sums with zero come to.

use vstd::prelude::*;
use crate::const_eval::{object_step, Evaluation};
use crate::float_laws::{fields_agree, no_number, quantity, size};
use crate::gc_types::{GcType, StorageType};
use crate::instantiate::easy_sum;
use crate::machine::Object;
use crate::module::Module;
use crate::object_laws::{initial_is_blank, is_blank, is_kept, read_is_read};
use crate::reader::leb_u32;
use crate::scalar_laws::{casts32, unsigned32};
use crate::types::{Value, WasmError};

verus! {

/// Whether `r` is the evaluation `e` with `n` operands replaced by a reference to a new object.
pub open spec fn adds_object(e: Evaluation, n: int, r: Evaluation, o: Object) -> bool {
    &&& r.heap == e.heap.push(o)
    &&& r.stack == e.stack.take(e.stack.len() - n).push(Value::GcRef(e.heap.len() as u32))
}

/// Whether this type index names a struct type with these fields.
pub open spec fn is_struct_type(m: Module, ti: u32, types: Seq<StorageType>) -> bool {
    &&& ti < m.gc_types.len()
    &&& m.gc_types[ti as int] is Struct
    &&& m.gc_types[ti as int]->Struct_field_types == types
}

/// Whether this type index names an array type with these elements.
pub open spec fn is_array_type(m: Module, ti: u32, st: StorageType) -> bool {
    &&& ti < m.gc_types.len()
    &&& m.gc_types[ti as int] is Array
    &&& m.gc_types[ti as int]->Array_elem_type == st
}

/// A constant struct takes its fields from the operands, the last from the top, cut where they
/// are packed; one by default has zeros and nulls.
pub proof fn constant_structs(
    m: Module,
    s: Seq<u8>,
    p: int,
    sub: u32,
    e: Evaluation,
    ti: u32,
    at: int,
    types: Seq<StorageType>,
    i: int,
)
    requires
        sub == 0 || sub == 1,
        leb_u32(s, p) == (Ok::<u32, WasmError>(ti), at),
        is_struct_type(m, ti, types),
        types.len() <= e.stack.len(),
        0 <= i < types.len(),
    ensures
        ({
            let r = object_step(m, s, p, sub, e).0->Some_0;
            let n = types.len() as int;
            let o = r.heap.last();
            &&& object_step(m, s, p, sub, e).0 is Some && object_step(m, s, p, sub, e).1 == at
            &&& adds_object(
                e,
                if sub == 0 {
                    n
                } else {
                    0
                },
                r,
                o,
            )
            &&& o is Struct && o->Struct_type_idx == ti && o->Struct_fields.len() == n
            &&& sub == 0 ==> is_kept(types[i], e.stack[e.stack.len() - n + i], o->Struct_fields[i])
            &&& sub == 1 ==> is_blank(types[i], o->Struct_fields[i])
        }),
{
    initial_is_blank(types[i]);
    read_is_read(types[i], e.stack[e.stack.len() - types.len() + i], false);
    assert(e.stack.take(e.stack.len() as int) =~= e.stack);
}

/// A constant array repeats its operand, cut where elements are packed, or a zero or null, as
/// often as the operand on top says.
pub proof fn constant_arrays(
    m: Module,
    s: Seq<u8>,
    p: int,
    sub: u32,
    e: Evaluation,
    ti: u32,
    at: int,
    st: StorageType,
    n: i32,
    i: int,
)
    requires
        sub == 6 || sub == 7,
        leb_u32(s, p) == (Ok::<u32, WasmError>(ti), at),
        is_array_type(m, ti, st),
        e.stack.len() >= 2,
        e.stack.last() == Value::I32(n),
        0 <= i < unsigned32(n),
    ensures
        ({
            let r = object_step(m, s, p, sub, e).0->Some_0;
            let o = r.heap.last();
            &&& object_step(m, s, p, sub, e).0 is Some && object_step(m, s, p, sub, e).1 == at
            &&& adds_object(
                e,
                if sub == 6 {
                    2
                } else {
                    1
                },
                r,
                o,
            )
            &&& o is Array && o->Array_type_idx == ti && o->Array_elements.len() == unsigned32(n)
            &&& sub == 6 ==> is_kept(st, e.stack[e.stack.len() - 2], o->Array_elements[i])
            &&& sub == 7 ==> is_blank(st, o->Array_elements[i])
        }),
{
    casts32(n, 0);
    initial_is_blank(st);
    read_is_read(st, e.stack[e.stack.len() - 2], false);
}

/// A constant array of fixed length takes its elements from the operands, the last from the top.
pub proof fn constant_fixed_arrays(
    m: Module,
    s: Seq<u8>,
    p: int,
    e: Evaluation,
    ti: u32,
    q: int,
    n: u32,
    at: int,
    st: StorageType,
    i: int,
)
    requires
        leb_u32(s, p) == (Ok::<u32, WasmError>(ti), q),
        leb_u32(s, q) == (Ok::<u32, WasmError>(n), at),
        is_array_type(m, ti, st),
        n <= e.stack.len(),
        0 <= i < n,
    ensures
        ({
            let r = object_step(m, s, p, 8, e).0->Some_0;
            let o = r.heap.last();
            &&& object_step(m, s, p, 8, e).0 is Some && object_step(m, s, p, 8, e).1 == at
            &&& adds_object(e, n as int, r, o)
            &&& o is Array && o->Array_type_idx == ti && o->Array_elements.len() == n
            &&& is_kept(st, e.stack[e.stack.len() - n + i], o->Array_elements[i])
        }),
{
    read_is_read(st, e.stack[e.stack.len() - n + i], false);
}

/// Conversions and `ref.i31` leave a constant as it is, `i31.get` reads its low 31 bits with or
/// without a sign, and the other instructions on objects are not constant.
pub proof fn constant_references(m: Module, s: Seq<u8>, p: int, sub: u32, e: Evaluation, x: i32)
    requires
        e.stack.len() > 0,
        e.stack.last() == Value::I32(x),
    ensures
        26 <= sub <= 28 ==> object_step(m, s, p, sub, e) == (Some(e), p),
        sub == 29 || sub == 30 ==> {
            let r = object_step(m, s, p, sub, e).0->Some_0;
            let y = r.stack.last()->I32_0;
            &&& object_step(m, s, p, sub, e).0 is Some && r.heap == e.heap
            &&& r.stack == e.stack.drop_last().push(Value::I32(y))
            &&& (y - x) % 0x8000_0000 == 0
            &&& sub == 29 ==> -0x4000_0000 <= y < 0x4000_0000
            &&& sub == 30 ==> 0 <= y
        },
        2 <= sub <= 5 || 9 <= sub <= 25 || sub > 30 ==> object_step(m, s, p, sub, e).0 is None,
{
    if sub == 29 || sub == 30 {
        let r = object_step(m, s, p, sub, e).0->Some_0;
        assert(r.stack =~= e.stack.drop_last().push(Value::I32(r.stack.last()->I32_0)));
    }
}

/// A sum that is known without floating-point arithmetic is the sum of the numbers, one of which
/// is zero, or no number where one of them is none.
pub proof fn easy_sums_are_sums(a: u64, b: u64, wide: bool)
    requires
        wide || (a <= 0xFFFF_FFFF && b <= 0xFFFF_FFFF),
    ensures
        ({
            let (x, y) = (a as int, b as int);
            let r = easy_sum(a, b, wide);
            &&& no_number(x, wide) || no_number(y, wide) ==> r is Some && no_number(r->Some_0 as int, wide)
            &&& !no_number(x, wide) && !no_number(y, wide) ==> {
                &&& r is Some <==> size(x, wide) == 0 || size(y, wide) == 0
                &&& r matches Some(z) ==> quantity(z as int, wide) == quantity(x, wide) + quantity(y, wide)
            }
        }),
{
    fields_agree(a, wide);
    fields_agree(b, wide);
    if no_number(a as int, wide) {
        fields_agree(crate::float_bits::quieted(a, wide), wide);
    } else if no_number(b as int, wide) {
        fields_agree(crate::float_bits::quieted(b, wide), wide);
    } else if size(a as int, wide) == 0 && size(b as int, wide) == 0 {
        fields_agree(0, wide);
        fields_agree(crate::float_bits::sign_bit(wide), wide);
    }
}

} // verus!
