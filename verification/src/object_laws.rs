//! What the instructions on structs and arrays make, read and write.

use vstd::prelude::*;
use crate::bytes::{le_u16, le_u32, le_u64};
use crate::gc_ops::gc_instruction;
use crate::gc_types::{GcType, StorageType};
use crate::machine::{Machine, Object, Outcome, Store};
use crate::memory_laws::{number_at, numbers_unfold};
use crate::reader::leb_u32;
use crate::scalar_laws::{casts32, casts64, unsigned32, unsigned64};
use crate::situation::{consumed, faces_prefixed, operand, replaced, result_of, step_executes, traps, yields_at};
use crate::step::{instruction, step};
use crate::types::{ValType, Value, WasmError, MAX_STACK};

verus! {

proof fn enters_gc(m: Machine, sub: u32, at: int)
    requires
        faces_prefixed(m, 0xFB, sub, at),
    ensures
        step(m) == crate::calls::carried_out(gc_instruction(Machine { pc: at, fuel: (m.fuel - 1) as u64, ..m }, sub)),
{
    reveal(instruction);
    step_executes(m, 0xFB);
}

/// Whether the machine stands before the instruction with this number, whose one immediate
/// is this index.
pub open spec fn faces_index(m: Machine, sub: u32, p: int, ti: u32, at: int) -> bool {
    &&& faces_prefixed(m, 0xFB, sub, p)
    &&& leb_u32(m.store.module.code, p) == (Ok::<u32, WasmError>(ti), at)
}

/// Whether the machine stands before the instruction with this number, whose two immediates
/// are these indices.
pub open spec fn faces_indices(m: Machine, sub: u32, p: int, ti: u32, q: int, k: u32, at: int) -> bool {
    &&& faces_index(m, sub, p, ti, q)
    &&& leb_u32(m.store.module.code, q) == (Ok::<u32, WasmError>(k), at)
}

/// Whether the next instruction, which ends at `pc`, replaces `n` operands by a reference
/// to one new object, and changes nothing else.
pub open spec fn makes(m: Machine, n: int, pc: int) -> bool {
    step(m) == (
        Machine {
            store: Store { heap: m.store.heap.push(made(m)), ..m.store },
            ..replaced(m, n, Value::GcRef(m.store.heap.len() as u32), pc)
        },
        Outcome::Completed,
    )
}

/// The object that the next instruction adds to the heap.
pub open spec fn made(m: Machine) -> Object {
    step(m).0.store.heap[m.store.heap.len() as int]
}

/// Whether the next instruction, which ends at `pc`, takes `n` operands and changes nothing
/// else but one object.
pub open spec fn changes(m: Machine, h: u32, n: int, pc: int) -> bool {
    step(m) == (
        Machine {
            store: Store {
                heap: m.store.heap.update(h as int, step(m).0.store.heap[h as int]),
                ..m.store
            },
            ..consumed(m, n, pc)
        },
        Outcome::Completed,
    )
}

/// The elements of the array with this number, before the next instruction.
pub open spec fn elements(m: Machine, h: u32) -> Seq<Value> {
    m.store.heap[h as int]->Array_elements
}

/// The elements of the array with this number, after the next instruction.
pub open spec fn elements_after(m: Machine, h: u32) -> Seq<Value> {
    step(m).0.store.heap[h as int]->Array_elements
}

/// Whether this reference leads to an array.
pub open spec fn is_array(m: Machine, h: u32) -> bool {
    h < m.store.heap.len() && m.store.heap[h as int] is Array
}

/// Whether the next instruction leaves an array with its type and its length.
pub open spec fn same_shape(m: Machine, h: u32) -> bool {
    &&& step(m).0.store.heap[h as int] is Array
    &&& step(m).0.store.heap[h as int]->Array_type_idx == m.store.heap[h as int]->Array_type_idx
    &&& elements_after(m, h).len() == elements(m, h).len()
}

/// Whether a value is what storage of this type starts with.
pub open spec fn is_blank(st: StorageType, v: Value) -> bool {
    match st {
        StorageType::I8 => v == Value::I32(0),
        StorageType::I16 => v == Value::I32(0),
        StorageType::Val(t) => is_zero(t, v),
        StorageType::RefType(t, _) => is_zero(t, v),
    }
}

/// Whether a value is the zero or the null of this type.
pub open spec fn is_zero(t: ValType, v: Value) -> bool {
    match t {
        ValType::I32 => v == Value::I32(0),
        ValType::I64 => v == Value::I64(0),
        ValType::F32 => v == Value::F32(0),
        ValType::F64 => v == Value::F64(0),
        ValType::V128 => v is V128 && forall|i: int| 0 <= i < 16 ==> #[trigger] v->V128_0.0@[i] == 0,
        _ => v == Value::NullRef,
    }
}

/// What the values of a packed storage type are taken modulo.
pub open spec fn packed_span(st: StorageType) -> int {
    if st == StorageType::I8 {
        0x100
    } else {
        0x1_0000
    }
}

/// Whether storage of this type keeps fewer bits than a value has.
pub open spec fn is_packed(st: StorageType) -> bool {
    st == StorageType::I8 || st == StorageType::I16
}

/// Whether `r` is what a read of storage that holds `v` gives: the value itself, or of
/// packed storage the number in the signed or unsigned range that agrees with it in the
/// bits kept.
pub open spec fn is_read(st: StorageType, v: Value, signed: bool, r: Value) -> bool {
    if is_packed(st) && v is I32 {
        let n = packed_span(st);
        &&& r is I32
        &&& unsigned32(r->I32_0) % n == unsigned32(v->I32_0) % n
        &&& signed ==> -n / 2 <= r->I32_0 < n / 2
        &&& !signed ==> 0 <= r->I32_0 < n
    } else {
        !is_packed(st) ==> r == v
    }
}

/// Whether `r` is what a write of `v` leaves in storage of this type.
pub open spec fn is_kept(st: StorageType, v: Value, r: Value) -> bool {
    is_read(st, v, false, r)
}

proof fn packed_bits(x: i32)
    ensures
        0 <= (x & 0xFF) < 0x100,
        0 <= (x & 0xFFFF) < 0x1_0000,
        unsigned32(x & 0xFF) % 0x100 == unsigned32(x) % 0x100,
        unsigned32(x & 0xFFFF) % 0x1_0000 == unsigned32(x) % 0x1_0000,
        unsigned32((x as i8) as i32) % 0x100 == unsigned32(x) % 0x100,
        unsigned32((x as i16) as i32) % 0x1_0000 == unsigned32(x) % 0x1_0000,
{
    casts32(x, 0);
    casts32(x & 0xFF, 0);
    casts32(x & 0xFFFF, 0);
    casts32((x as i8) as i32, 0);
    casts32((x as i16) as i32, 0);
    assert(0 <= (x & 0xFF) < 0x100 && 0 <= (x & 0xFFFF) < 0x1_0000 && (x & 0xFF) as u32 % 0x100 == x as u32 % 0x100
        && (x & 0xFFFF) as u32 % 0x1_0000 == x as u32 % 0x1_0000 && ((x as i8) as i32) as u32 % 0x100 == x as u32
        % 0x100 && ((x as i16) as i32) as u32 % 0x1_0000 == x as u32 % 0x1_0000) by (bit_vector);
}

pub(crate) proof fn read_is_read(st: StorageType, v: Value, signed: bool)
    ensures
        is_read(st, v, signed, crate::heap::extended(Some(st), v, signed)),
        is_kept(st, v, crate::heap::wrapped(Some(st), v)),
{
    if v is I32 {
        packed_bits(v->I32_0);
    }
}

pub(crate) proof fn initial_is_blank(st: StorageType)
    ensures
        is_blank(st, crate::heap::initial(Some(st))),
{
    let t = st.unpacked();
    if t == ValType::V128 {
        crate::types::v128_bytes_kept(Seq::new(16, |i: int| 0u8));
    }
}

// ---------------------------------------------------------------------------
// Structs

/// `struct.new` collects its fields from the stack, the last field from the top.
pub proof fn struct_new_collects(m: Machine, p: int, ti: u32, at: int, types: Seq<StorageType>, muts: Seq<bool>)
    requires
        faces_index(m, 0, p, ti, at),
        ti < m.store.module.gc_types.len(),
        m.store.module.gc_types[ti as int] == (GcType::Struct { field_types: types, field_muts: muts }),
        m.stack_ptr >= types.len(),
        m.stack_ptr < MAX_STACK || types.len() > 0,
    ensures
        makes(m, types.len() as int, at),
        made(m) is Struct,
        made(m)->Struct_type_idx == ti,
        made(m)->Struct_fields.len() == types.len(),
        forall|i: int|
            0 <= i < types.len() ==> #[trigger] made(m)->Struct_fields[i] == operand(m, types.len() - 1 - i),
{
    enters_gc(m, 0, p);
    assert(step(m).0 =~= Machine {
        store: Store { heap: m.store.heap.push(made(m)), ..m.store },
        ..replaced(m, types.len() as int, Value::GcRef(m.store.heap.len() as u32), at)
    });
}

/// `struct.new_default` makes a struct whose fields are all zero or null.
pub proof fn struct_new_default_is_blank(
    m: Machine,
    p: int,
    ti: u32,
    at: int,
    types: Seq<StorageType>,
    muts: Seq<bool>,
)
    requires
        faces_index(m, 1, p, ti, at),
        ti < m.store.module.gc_types.len(),
        m.store.module.gc_types[ti as int] == (GcType::Struct { field_types: types, field_muts: muts }),
        m.stack_ptr < MAX_STACK,
    ensures
        makes(m, 0, at),
        made(m) is Struct,
        made(m)->Struct_type_idx == ti,
        made(m)->Struct_fields.len() == types.len(),
        forall|i: int| 0 <= i < types.len() ==> is_blank(types[i], #[trigger] made(m)->Struct_fields[i]),
{
    enters_gc(m, 1, p);
    assert(step(m).0 =~= Machine {
        store: Store { heap: m.store.heap.push(made(m)), ..m.store },
        ..replaced(m, 0, Value::GcRef(m.store.heap.len() as u32), at)
    });
    assert forall|i: int| 0 <= i < types.len() implies is_blank(types[i], #[trigger] made(m)->Struct_fields[i]) by {
        initial_is_blank(types[i]);
    }
}

/// `struct.get` reads the field that it names, widened where the field is packed; it fails
/// on a null reference, on an array and past the fields.
pub proof fn struct_get_reads(
    m: Machine,
    sub: u32,
    p: int,
    ti: u32,
    q: int,
    fi: u32,
    at: int,
    types: Seq<StorageType>,
    muts: Seq<bool>,
)
    requires
        2 <= sub <= 4,
        faces_indices(m, sub, p, ti, q, fi, at),
        ti < m.store.module.gc_types.len(),
        m.store.module.gc_types[ti as int] == (GcType::Struct { field_types: types, field_muts: muts }),
        fi < types.len(),
        m.stack_ptr >= 1,
    ensures
        operand(m, 0) == Value::NullRef ==> traps(m, WasmError::NullStructReference),
        operand(m, 0) matches Value::GcRef(h) ==> h < m.store.heap.len() ==> match m.store.heap[h as int] {
            Object::Struct { fields, .. } => if fi < fields.len() {
                yields_at(m, 1, result_of(m, 1), at) && is_read(types[fi as int], fields[fi as int], sub == 3, result_of(m, 1))
            } else {
                traps(m, WasmError::OutOfBounds)
            },
            _ => traps(m, WasmError::TypeMismatch),
        },
{
    enters_gc(m, sub, p);
    if let Value::GcRef(h) = operand(m, 0) {
        if h < m.store.heap.len() {
            if let Object::Struct { type_idx, fields } = m.store.heap[h as int] {
                if fi < fields.len() {
                    read_is_read(types[fi as int], fields[fi as int], sub == 3);
                    assert(step(m).0 =~= replaced(m, 1, result_of(m, 1), at));
                }
            }
        }
    }
}

/// `struct.set` writes the field that it names, cut where the field is packed, and leaves
/// the other fields and the other objects.
pub proof fn struct_set_writes(
    m: Machine,
    p: int,
    ti: u32,
    q: int,
    fi: u32,
    at: int,
    types: Seq<StorageType>,
    muts: Seq<bool>,
    h: u32,
    kind: u32,
    fields: Seq<Value>,
)
    requires
        faces_indices(m, 5, p, ti, q, fi, at),
        ti < m.store.module.gc_types.len(),
        m.store.module.gc_types[ti as int] == (GcType::Struct { field_types: types, field_muts: muts }),
        fi < types.len(),
        m.stack_ptr >= 2,
        operand(m, 1) == Value::GcRef(h),
        h < m.store.heap.len(),
        m.store.heap[h as int] == (Object::Struct { type_idx: kind, fields }),
    ensures
        fi >= fields.len() ==> traps(m, WasmError::OutOfBounds),
        fi < fields.len() ==> {
            let o = step(m).0.store.heap[h as int];
            &&& changes(m, h, 2, at)
            &&& o is Struct && o->Struct_type_idx == kind && o->Struct_fields.len() == fields.len()
            &&& is_kept(types[fi as int], operand(m, 0), o->Struct_fields[fi as int])
            &&& forall|j: int| 0 <= j < fields.len() && j != fi ==> #[trigger] o->Struct_fields[j] == fields[j]
        },
{
    enters_gc(m, 5, p);
    if fi < fields.len() {
        read_is_read(types[fi as int], operand(m, 0), false);
        let o = step(m).0.store.heap[h as int];
        assert(step(m).0 =~= Machine {
            store: Store { heap: m.store.heap.update(h as int, o), ..m.store },
            ..consumed(m, 2, at)
        });
    }
}

// ---------------------------------------------------------------------------
// Arrays

/// Whether this type index names an array type whose elements are stored so.
pub open spec fn holds(m: Machine, ti: u32, st: StorageType) -> bool {
    &&& ti < m.store.module.gc_types.len()
    &&& m.store.module.gc_types[ti as int] is Array
    &&& m.store.module.gc_types[ti as int]->Array_elem_type == st
}

/// `array.new` makes an array of as many copies of its operand as it is asked for.
pub proof fn array_new_repeats(m: Machine, p: int, ti: u32, at: int, n: i32)
    requires
        faces_index(m, 6, p, ti, at),
        m.stack_ptr >= 2,
        operand(m, 0) == Value::I32(n),
    ensures
        makes(m, 2, at),
        made(m) is Array,
        made(m)->Array_type_idx == ti,
        made(m)->Array_elements.len() == unsigned32(n),
        forall|i: int| 0 <= i < unsigned32(n) ==> #[trigger] made(m)->Array_elements[i] == operand(m, 1),
{
    enters_gc(m, 6, p);
    casts32(n, 0);
    assert(step(m).0 =~= Machine {
        store: Store { heap: m.store.heap.push(made(m)), ..m.store },
        ..replaced(m, 2, Value::GcRef(m.store.heap.len() as u32), at)
    });
}

/// `array.new_default` makes an array of as many zeros or nulls as it is asked for.
pub proof fn array_new_default_is_blank(m: Machine, p: int, ti: u32, at: int, n: i32, st: StorageType)
    requires
        faces_index(m, 7, p, ti, at),
        holds(m, ti, st),
        m.stack_ptr >= 1,
        operand(m, 0) == Value::I32(n),
    ensures
        makes(m, 1, at),
        made(m) is Array,
        made(m)->Array_type_idx == ti,
        made(m)->Array_elements.len() == unsigned32(n),
        forall|i: int| 0 <= i < unsigned32(n) ==> is_blank(st, #[trigger] made(m)->Array_elements[i]),
{
    enters_gc(m, 7, p);
    casts32(n, 0);
    initial_is_blank(st);
    assert(step(m).0 =~= Machine {
        store: Store { heap: m.store.heap.push(made(m)), ..m.store },
        ..replaced(m, 1, Value::GcRef(m.store.heap.len() as u32), at)
    });
}

/// `array.new_fixed` collects its elements from the stack, the last from the top.
pub proof fn array_new_fixed_collects(m: Machine, p: int, ti: u32, q: int, n: u32, at: int)
    requires
        faces_indices(m, 8, p, ti, q, n, at),
        m.stack_ptr >= n,
        m.stack_ptr < MAX_STACK || n > 0,
    ensures
        makes(m, n as int, at),
        made(m) is Array,
        made(m)->Array_type_idx == ti,
        made(m)->Array_elements.len() == n,
        forall|i: int| 0 <= i < n ==> #[trigger] made(m)->Array_elements[i] == operand(m, n - 1 - i),
{
    enters_gc(m, 8, p);
    assert(step(m).0 =~= Machine {
        store: Store { heap: m.store.heap.push(made(m)), ..m.store },
        ..replaced(m, n as int, Value::GcRef(m.store.heap.len() as u32), at)
    });
}

/// Bytes that an element takes in a data segment.
pub open spec fn bytes_of_element(st: StorageType) -> int {
    match st {
        StorageType::I8 => 1,
        StorageType::I16 => 2,
        StorageType::Val(ValType::I64) => 8,
        StorageType::Val(ValType::F64) => 8,
        _ => 4,
    }
}

/// Whether `v` is the element whose bytes hold the unsigned number `x`.
pub open spec fn is_element(st: StorageType, x: int, v: Value) -> bool {
    match st {
        StorageType::Val(ValType::I64) => v is I64 && unsigned64(v->I64_0) == x,
        StorageType::Val(ValType::F64) => v is F64 && v->F64_0 == x,
        StorageType::Val(ValType::F32) => v is F32 && v->F32_0 == x,
        _ => v is I32 && unsigned32(v->I32_0) == x,
    }
}

/// Where the bytes of element `i` stand, from this place of a data segment on.
pub open spec fn element_at(m: Machine, di: u32, offset: int, st: StorageType, i: int) -> int {
    m.store.module.data_segments[di as int].data_offset + offset + i * bytes_of_element(st)
}

/// Whether `vals` are so many elements from this place of a data segment on.
pub open spec fn from_data(m: Machine, di: u32, offset: int, st: StorageType, n: int, vals: Seq<Value>) -> bool {
    &&& vals.len() == n
    &&& forall|i: int|
        0 <= i < n ==> is_element(
            st,
            number_at(m.store.module.code, element_at(m, di, offset, st, i), bytes_of_element(st)),
            #[trigger] vals[i],
        )
}

/// Bytes that a data segment still has: none once it is dropped.
pub open spec fn bytes_left(m: Machine, di: u32) -> int {
    if di < m.store.dropped_data.len() && m.store.dropped_data[di as int] {
        0
    } else {
        m.store.module.data_segments[di as int].data_len as int
    }
}

proof fn element_is_element(s: Seq<u8>, p: int, st: StorageType)
    requires
        0 <= p,
        p + bytes_of_element(st) <= s.len(),
    ensures
        is_element(st, number_at(s, p, bytes_of_element(st)), crate::heap::elem_value(s, p, Some(st))),
{
    numbers_unfold(s, p);
    casts32(0, le_u32(s, p));
    casts64(0, le_u64(s, p));
    casts32(s[p] as i32, 0);
    casts32(le_u16(s, p) as i32, 0);
}

proof fn elements_from_data(m: Machine, ti: u32, di: u32, offset: u32, n: u32, st: StorageType)
    requires
        m.valid(),
        holds(m, ti, st),
        di < m.store.module.data_segments.len(),
        m.store.module.data_segments[di as int].within(m.store.module.code.len() as int),
    ensures
        offset + n * bytes_of_element(st) <= bytes_left(m, di) ==> (m.store.data_elements(ti, di, offset, n) matches Ok(
            vals,
        ) && from_data(m, di, offset as int, st, n as int, vals)),
        offset + n * bytes_of_element(st) > bytes_left(m, di) ==> m.store.data_elements(ti, di, offset, n) == Err::<
            Seq<Value>,
            WasmError,
        >(WasmError::MemoryOutOfBounds),
{
    let w = bytes_of_element(st);
    if offset + n * w <= bytes_left(m, di) {
        let vals = m.store.data_elements(ti, di, offset, n)->Ok_0;
        assert forall|i: int| 0 <= i < n implies is_element(
            st,
            number_at(m.store.module.code, element_at(m, di, offset as int, st, i), w),
            #[trigger] vals[i],
        ) by {
            assert(0 <= i * w && i * w + w <= n * w) by (nonlinear_arith)
                requires
                    0 <= i < n,
                    w > 0,
            ;
            element_is_element(m.store.module.code, element_at(m, di, offset as int, st, i), st);
        }
    }
}

/// `array.new_data` makes an array of the elements whose bytes stand in a data segment, from
/// the offset asked for on.
pub proof fn array_new_data_reads(
    m: Machine,
    p: int,
    ti: u32,
    q: int,
    di: u32,
    at: int,
    st: StorageType,
    offset: i32,
    n: i32,
)
    requires
        faces_indices(m, 9, p, ti, q, di, at),
        holds(m, ti, st),
        di < m.store.module.data_segments.len(),
        m.store.module.data_segments[di as int].within(m.store.module.code.len() as int),
        m.stack_ptr >= 2,
        operand(m, 1) == Value::I32(offset),
        operand(m, 0) == Value::I32(n),
    ensures
        unsigned32(offset) + unsigned32(n) * bytes_of_element(st) > bytes_left(m, di) ==> traps(
            m,
            WasmError::MemoryOutOfBounds,
        ),
        unsigned32(offset) + unsigned32(n) * bytes_of_element(st) <= bytes_left(m, di) ==> {
            &&& makes(m, 2, at)
            &&& made(m) is Array && made(m)->Array_type_idx == ti
            &&& from_data(m, di, unsigned32(offset), st, unsigned32(n), made(m)->Array_elements)
        },
{
    enters_gc(m, 9, p);
    casts32(n, 0);
    casts32(offset, 0);
    elements_from_data(m, ti, di, offset as u32, n as u32, st);
    if unsigned32(offset) + unsigned32(n) * bytes_of_element(st) <= bytes_left(m, di) {
        assert(step(m).0 =~= Machine {
            store: Store { heap: m.store.heap.push(made(m)), ..m.store },
            ..replaced(m, 2, Value::GcRef(m.store.heap.len() as u32), at)
        });
    }
}

/// `array.get` reads the element that it is asked for, widened where elements are packed; it
/// fails on a null reference, on a struct and past the end.
pub proof fn array_get_reads(m: Machine, sub: u32, p: int, ti: u32, at: int, st: StorageType, i: i32)
    requires
        11 <= sub <= 13,
        faces_index(m, sub, p, ti, at),
        holds(m, ti, st),
        m.stack_ptr >= 2,
        operand(m, 0) == Value::I32(i),
    ensures
        operand(m, 1) == Value::NullRef ==> traps(m, WasmError::NullArrayReference),
        operand(m, 1) matches Value::GcRef(h) ==> h < m.store.heap.len() ==> if !is_array(m, h) {
            traps(m, WasmError::TypeMismatch)
        } else if unsigned32(i) >= elements(m, h).len() {
            traps(m, WasmError::ArrayOutOfBounds)
        } else {
            yields_at(m, 2, result_of(m, 2), at) && is_read(st, elements(m, h)[unsigned32(i)], sub == 12, result_of(m, 2))
        },
{
    enters_gc(m, sub, p);
    casts32(i, 0);
    if let Value::GcRef(h) = operand(m, 1) {
        if is_array(m, h) && unsigned32(i) < elements(m, h).len() {
            read_is_read(st, elements(m, h)[unsigned32(i)], sub == 12);
            assert(step(m).0 =~= replaced(m, 2, result_of(m, 2), at));
        }
    }
}

/// `array.set` writes the element that it is asked for, cut where elements are packed, and
/// leaves the others.
pub proof fn array_set_writes(m: Machine, p: int, ti: u32, at: int, st: StorageType, h: u32, i: i32)
    requires
        faces_index(m, 14, p, ti, at),
        holds(m, ti, st),
        m.stack_ptr >= 3,
        operand(m, 2) == Value::GcRef(h),
        operand(m, 1) == Value::I32(i),
        is_array(m, h),
    ensures
        unsigned32(i) >= elements(m, h).len() ==> traps(m, WasmError::ArrayOutOfBounds),
        unsigned32(i) < elements(m, h).len() ==> {
            &&& changes(m, h, 3, at) && same_shape(m, h)
            &&& is_kept(st, operand(m, 0), elements_after(m, h)[unsigned32(i)])
            &&& forall|j: int|
                0 <= j < elements(m, h).len() && j != unsigned32(i) ==> #[trigger] elements_after(m, h)[j] == elements(
                    m,
                    h,
                )[j]
        },
{
    enters_gc(m, 14, p);
    casts32(i, 0);
    if unsigned32(i) < elements(m, h).len() {
        read_is_read(st, operand(m, 0), false);
        let o = step(m).0.store.heap[h as int];
        assert(step(m).0 =~= Machine {
            store: Store { heap: m.store.heap.update(h as int, o), ..m.store },
            ..consumed(m, 3, at)
        });
    }
}

/// `array.len` counts the elements.
pub proof fn array_len_counts(m: Machine, at: int)
    requires
        faces_prefixed(m, 0xFB, 15, at),
        m.stack_ptr >= 1,
    ensures
        operand(m, 0) == Value::NullRef ==> traps(m, WasmError::NullArrayReference),
        operand(m, 0) matches Value::GcRef(h) ==> is_array(m, h) && elements(m, h).len() <= u32::MAX ==> {
            &&& yields_at(m, 1, result_of(m, 1), at)
            &&& result_of(m, 1) is I32
            &&& unsigned32(result_of(m, 1)->I32_0) == elements(m, h).len()
        },
{
    enters_gc(m, 15, at);
    if let Value::GcRef(h) = operand(m, 0) {
        if is_array(m, h) && elements(m, h).len() <= u32::MAX {
            let n = elements(m, h).len();
            casts32(0, n as u32);
            casts32(n as i32, 0);
            assert(step(m).0 =~= replaced(m, 1, result_of(m, 1), at));
        }
    }
}

/// `array.fill` writes its operand to as many elements as it is asked for, cut where elements
/// are packed, and leaves the others.
pub proof fn array_fill_fills(m: Machine, p: int, ti: u32, at: int, st: StorageType, h: u32, d: i32, n: i32)
    requires
        faces_index(m, 16, p, ti, at),
        holds(m, ti, st),
        m.stack_ptr >= 4,
        operand(m, 3) == Value::GcRef(h),
        operand(m, 2) == Value::I32(d),
        operand(m, 0) == Value::I32(n),
        is_array(m, h),
    ensures
        unsigned32(d) + unsigned32(n) > elements(m, h).len() ==> traps(m, WasmError::ArrayOutOfBounds),
        unsigned32(d) + unsigned32(n) <= elements(m, h).len() ==> {
            &&& changes(m, h, 4, at) && same_shape(m, h)
            &&& forall|j: int|
                0 <= j < elements(m, h).len() ==> if unsigned32(d) <= j < unsigned32(d) + unsigned32(n) {
                    is_kept(st, operand(m, 1), #[trigger] elements_after(m, h)[j])
                } else {
                    elements_after(m, h)[j] == elements(m, h)[j]
                }
        },
{
    enters_gc(m, 16, p);
    casts32(d, 0);
    casts32(n, 0);
    if unsigned32(d) + unsigned32(n) <= elements(m, h).len() {
        read_is_read(st, operand(m, 1), false);
        let o = step(m).0.store.heap[h as int];
        assert(step(m).0 =~= Machine {
            store: Store { heap: m.store.heap.update(h as int, o), ..m.store },
            ..consumed(m, 4, at)
        });
    }
}

/// `array.copy` copies elements as they were before, from one array to another or within
/// one, and leaves the others.
pub proof fn array_copy_copies(
    m: Machine,
    p: int,
    tj: u32,
    q: int,
    ti: u32,
    at: int,
    h: u32,
    d: i32,
    k: u32,
    s: i32,
    n: i32,
)
    requires
        faces_indices(m, 17, p, tj, q, ti, at),
        m.stack_ptr >= 5,
        operand(m, 4) == Value::GcRef(h),
        operand(m, 3) == Value::I32(d),
        operand(m, 2) == Value::GcRef(k),
        operand(m, 1) == Value::I32(s),
        operand(m, 0) == Value::I32(n),
        is_array(m, h),
        is_array(m, k),
    ensures
        unsigned32(d) + unsigned32(n) > elements(m, h).len() || unsigned32(s) + unsigned32(n) > elements(m, k).len()
            ==> traps(m, WasmError::ArrayOutOfBounds),
        unsigned32(d) + unsigned32(n) <= elements(m, h).len() && unsigned32(s) + unsigned32(n) <= elements(m, k).len()
            ==> {
            &&& changes(m, h, 5, at) && same_shape(m, h)
            &&& forall|j: int|
                0 <= j < elements(m, h).len() ==> #[trigger] elements_after(m, h)[j] == if unsigned32(d) <= j
                    < unsigned32(d) + unsigned32(n) {
                    elements(m, k)[unsigned32(s) + j - unsigned32(d)]
                } else {
                    elements(m, h)[j]
                }
        },
{
    enters_gc(m, 17, p);
    casts32(d, 0);
    casts32(s, 0);
    casts32(n, 0);
    if unsigned32(d) + unsigned32(n) <= elements(m, h).len() && unsigned32(s) + unsigned32(n) <= elements(m, k).len() {
        let o = step(m).0.store.heap[h as int];
        assert(step(m).0 =~= Machine {
            store: Store { heap: m.store.heap.update(h as int, o), ..m.store },
            ..consumed(m, 5, at)
        });
    }
}

/// `array.init_data` writes the elements whose bytes stand in a data segment, from the offset
/// asked for on, and leaves the others.
pub proof fn array_init_data_writes(
    m: Machine,
    p: int,
    ti: u32,
    q: int,
    di: u32,
    at: int,
    st: StorageType,
    h: u32,
    d: i32,
    s: i32,
    n: i32,
)
    requires
        faces_indices(m, 18, p, ti, q, di, at),
        holds(m, ti, st),
        di < m.store.module.data_segments.len(),
        m.store.module.data_segments[di as int].within(m.store.module.code.len() as int),
        m.stack_ptr >= 4,
        operand(m, 3) == Value::GcRef(h),
        operand(m, 2) == Value::I32(d),
        operand(m, 1) == Value::I32(s),
        operand(m, 0) == Value::I32(n),
        is_array(m, h),
    ensures
        unsigned32(d) + unsigned32(n) > elements(m, h).len() ==> traps(m, WasmError::ArrayOutOfBounds),
        unsigned32(d) + unsigned32(n) <= elements(m, h).len() ==> if unsigned32(s) + unsigned32(n) * bytes_of_element(st)
            > bytes_left(m, di) {
            traps(m, WasmError::MemoryOutOfBounds)
        } else {
            &&& changes(m, h, 4, at) && same_shape(m, h)
            &&& from_data(
                m,
                di,
                unsigned32(s),
                st,
                unsigned32(n),
                elements_after(m, h).subrange(unsigned32(d), unsigned32(d) + unsigned32(n)),
            )
            &&& forall|j: int|
                0 <= j < unsigned32(d) || unsigned32(d) + unsigned32(n) <= j < elements(m, h).len()
                    ==> #[trigger] elements_after(m, h)[j] == elements(m, h)[j]
        },
{
    enters_gc(m, 18, p);
    casts32(d, 0);
    casts32(s, 0);
    casts32(n, 0);
    elements_from_data(m, ti, di, s as u32, n as u32, st);
    if unsigned32(d) + unsigned32(n) <= elements(m, h).len() && unsigned32(s) + unsigned32(n) * bytes_of_element(st)
        <= bytes_left(m, di) {
        let vals = m.store.data_elements(ti, di, s as u32, n as u32)->Ok_0;
        let o = step(m).0.store.heap[h as int];
        assert(step(m).0 =~= Machine {
            store: Store { heap: m.store.heap.update(h as int, o), ..m.store },
            ..consumed(m, 4, at)
        });
        assert(elements_after(m, h).subrange(unsigned32(d), unsigned32(d) + unsigned32(n)) =~= vals);
    }
}

/// Items that an element segment still has: none once it is dropped.
pub open spec fn items_left(m: Machine, ei: u32) -> int {
    if ei < m.store.dropped_elems.len() && m.store.dropped_elems[ei as int] {
        0
    } else {
        m.store.module.element_segments[ei as int].func_indices.len() as int
    }
}

/// Whether `v` is the reference that item `i` of a segment of function indices stands for.
pub open spec fn is_item(m: Machine, ei: u32, i: int, v: Value) -> bool {
    let f = m.store.module.element_segments[ei as int].func_indices[i];
    if f == u32::MAX {
        v == Value::NullRef
    } else {
        v is I32 && unsigned32(v->I32_0) == f
    }
}

/// `array.new_elem` makes an array of the items of an element segment, from the offset asked
/// for on. Items that were computed beforehand are taken as they are.
pub proof fn array_new_elem_reads(m: Machine, p: int, ti: u32, q: int, ei: u32, at: int, s: i32, n: i32)
    requires
        faces_indices(m, 10, p, ti, q, ei, at),
        ei < m.store.module.element_segments.len(),
        m.stack_ptr >= 2,
        operand(m, 1) == Value::I32(s),
        operand(m, 0) == Value::I32(n),
    ensures
        unsigned32(s) + unsigned32(n) > items_left(m, ei) ==> traps(m, WasmError::TableIndexOutOfBounds),
        unsigned32(s) + unsigned32(n) <= items_left(m, ei) ==> {
            &&& makes(m, 2, at)
            &&& made(m) is Array && made(m)->Array_type_idx == ti
            &&& made(m)->Array_elements.len() == unsigned32(n)
            &&& ei >= m.store.elem_values.len() || m.store.elem_values[ei as int].len() == 0 ==> forall|i: int|
                0 <= i < unsigned32(n) ==> is_item(m, ei, unsigned32(s) + i, #[trigger] made(m)->Array_elements[i])
            &&& ei < m.store.elem_values.len() && unsigned32(s) + unsigned32(n) <= m.store.elem_values[ei as int].len()
                ==> forall|i: int|
                0 <= i < unsigned32(n) ==> #[trigger] made(m)->Array_elements[i] == m.store.elem_values[ei as int][
                unsigned32(s) + i]
        },
{
    enters_gc(m, 10, p);
    casts32(s, 0);
    casts32(n, 0);
    if unsigned32(s) + unsigned32(n) <= items_left(m, ei) {
        assert(step(m).0 =~= Machine {
            store: Store { heap: m.store.heap.push(made(m)), ..m.store },
            ..replaced(m, 2, Value::GcRef(m.store.heap.len() as u32), at)
        });
        if ei >= m.store.elem_values.len() || m.store.elem_values[ei as int].len() == 0 {
            assert forall|i: int| 0 <= i < unsigned32(n) implies is_item(
                m,
                ei,
                unsigned32(s) + i,
                #[trigger] made(m)->Array_elements[i],
            ) by {
                casts32(0, m.store.module.element_segments[ei as int].func_indices[unsigned32(s) + i]);
            }
        }
    }
}

/// `array.init_elem` writes the items that `array.new_elem` would take, and leaves the
/// others.
pub proof fn array_init_elem_writes(
    m: Machine,
    p: int,
    ti: u32,
    q: int,
    ei: u32,
    at: int,
    h: u32,
    d: i32,
    s: i32,
    n: i32,
)
    requires
        faces_indices(m, 19, p, ti, q, ei, at),
        ei < m.store.module.element_segments.len(),
        ei >= m.store.elem_values.len() || m.store.elem_values[ei as int].len() == 0,
        m.stack_ptr >= 4,
        operand(m, 3) == Value::GcRef(h),
        operand(m, 2) == Value::I32(d),
        operand(m, 1) == Value::I32(s),
        operand(m, 0) == Value::I32(n),
        is_array(m, h),
    ensures
        unsigned32(d) + unsigned32(n) > elements(m, h).len() ==> traps(m, WasmError::ArrayOutOfBounds),
        unsigned32(d) + unsigned32(n) <= elements(m, h).len() ==> if unsigned32(s) + unsigned32(n) > items_left(m, ei) {
            traps(m, WasmError::TableIndexOutOfBounds)
        } else {
            &&& changes(m, h, 4, at) && same_shape(m, h)
            &&& forall|j: int|
                0 <= j < elements(m, h).len() ==> if unsigned32(d) <= j < unsigned32(d) + unsigned32(n) {
                    is_item(m, ei, unsigned32(s) + j - unsigned32(d), #[trigger] elements_after(m, h)[j])
                } else {
                    elements_after(m, h)[j] == elements(m, h)[j]
                }
        },
{
    enters_gc(m, 19, p);
    casts32(d, 0);
    casts32(s, 0);
    casts32(n, 0);
    if unsigned32(d) + unsigned32(n) <= elements(m, h).len() && unsigned32(s) + unsigned32(n) <= items_left(m, ei) {
        let o = step(m).0.store.heap[h as int];
        assert(step(m).0 =~= Machine {
            store: Store { heap: m.store.heap.update(h as int, o), ..m.store },
            ..consumed(m, 4, at)
        });
        assert forall|j: int| unsigned32(d) <= j < unsigned32(d) + unsigned32(n) implies is_item(
            m,
            ei,
            unsigned32(s) + j - unsigned32(d),
            #[trigger] elements_after(m, h)[j],
        ) by {
            casts32(0, m.store.module.element_segments[ei as int].func_indices[unsigned32(s) + j - unsigned32(d)]);
        }
    }
}

// ---------------------------------------------------------------------------
// References

/// `ref.i31` leaves its operand, and `i31.get` reads its low 31 bits, with or without a
/// sign; both readings agree with the operand in these bits.
pub proof fn i31_gets(m: Machine, sub: u32, at: int, x: i32)
    requires
        28 <= sub <= 30,
        faces_prefixed(m, 0xFB, sub, at),
        m.stack_ptr >= 1,
        operand(m, 0) == Value::I32(x),
    ensures
        sub == 28 ==> step(m) == (consumed(m, 0, at), Outcome::Completed),
        sub > 28 ==> {
            let r = result_of(m, 1)->I32_0;
            &&& yields_at(m, 1, Value::I32(r), at)
            &&& (r - x) % 0x8000_0000 == 0
            &&& sub == 29 ==> -0x4000_0000 <= r < 0x4000_0000
            &&& sub == 30 ==> 0 <= r
        },
{
    enters_gc(m, sub, at);
    if sub > 28 {
        let r = result_of(m, 1)->I32_0;
        assert(step(m).0 =~= replaced(m, 1, Value::I32(r), at));
    }
}

/// `i31.get` of a null reference fails.
pub proof fn i31_of_null(m: Machine, sub: u32, at: int)
    requires
        sub == 29 || sub == 30,
        faces_prefixed(m, 0xFB, sub, at),
        m.stack_ptr >= 1,
        operand(m, 0) == Value::NullRef,
    ensures
        traps(m, WasmError::NullI31Reference),
{
    enters_gc(m, sub, at);
}

/// Conversions between internal and external references keep null, and wrap any other
/// reference in a new object that holds it.
pub proof fn conversions_wrap(m: Machine, sub: u32, at: int)
    requires
        sub == 26 || sub == 27,
        faces_prefixed(m, 0xFB, sub, at),
        m.stack_ptr >= 1,
    ensures
        operand(m, 0) == Value::NullRef || operand(m, 0) == Value::I32(-1i32) ==> yields_at(m, 1, Value::NullRef, at),
        operand(m, 0) != Value::NullRef && operand(m, 0) != Value::I32(-1i32) ==> {
            &&& makes(m, 1, at)
            &&& made(m) == if sub == 26 {
                Object::Internalized { value: operand(m, 0) }
            } else {
                Object::Externalized { value: operand(m, 0) }
            }
        },
{
    enters_gc(m, sub, at);
    if operand(m, 0) == Value::NullRef || operand(m, 0) == Value::I32(-1i32) {
        assert(step(m).0 =~= replaced(m, 1, Value::NullRef, at));
    } else {
        assert(step(m).0 =~= Machine {
            store: Store { heap: m.store.heap.push(made(m)), ..m.store },
            ..replaced(m, 1, Value::GcRef(m.store.heap.len() as u32), at)
        });
    }
}

} // verus!
