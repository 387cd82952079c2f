//! Instructions on the garbage-collected heap.

use vstd::prelude::*;
use crate::calls::branch;
use crate::gc_types::{GcTypeDef, StorageType};
use crate::heap::{
    elem_storage, extend_value, extended, field_storage, initial, initial_value, ref_matches, struct_fields,
    wrap_value, wrapped,
};
use crate::machine::{follow, splice, Done, GcObject, Machine, Object, Store, WasmInstance};
use crate::module::group_views;
use crate::num::{i31_get_s, i31_get_u, i31_signed, i31_unsigned};
use crate::types::{Value, WasmError};

verus! {

broadcast use group_views;

/// Puts an object on the heap and pushes a reference to it.
pub open spec fn allocated(m: Machine, o: Object) -> Done<()> {
    m.with_store(Store { heap: m.store.heap.push(o), ..m.store }).push(Value::GcRef(m.store.heap.len() as u32))
}

/// The object that a reference leads to; `null` is the failure where there is none.
pub open spec fn target(m: Machine, v: Value, null: WasmError) -> Done<u32> {
    match v {
        Value::GcRef(h) if h < m.store.heap.len() => (m, Ok(h)),
        _ => (m, Err(null)),
    }
}

/// The fields of a struct.
pub open spec fn fields_of(m: Machine, h: u32) -> Done<Seq<Value>> {
    match m.store.heap[h as int] {
        Object::Struct { fields, .. } => (m, Ok(fields)),
        _ => (m, Err(WasmError::TypeMismatch)),
    }
}

/// The elements of an array.
pub open spec fn elements_of(m: Machine, h: u32) -> Done<Seq<Value>> {
    match m.store.heap[h as int] {
        Object::Array { elements, .. } => (m, Ok(elements)),
        _ => (m, Err(WasmError::TypeMismatch)),
    }
}

/// The object with values written from `at` on.
pub open spec fn overwritten(o: Object, at: int, vals: Seq<Value>) -> Object {
    match o {
        Object::Struct { type_idx, fields } => Object::Struct { type_idx, fields: splice(fields, at, vals) },
        Object::Array { type_idx, elements } => Object::Array { type_idx, elements: splice(elements, at, vals) },
        _ => o,
    }
}

/// Writes values into an object.
pub open spec fn written(m: Machine, h: u32, at: int, vals: Seq<Value>) -> Machine {
    m.with_store(
        Store {
            heap: m.store.heap.update(h as int, overwritten(m.store.heap[h as int], at, vals)),
            ..m.store
        },
    )
}

/// Whether `n` items from `at` on lie within `len`.
pub open spec fn checked(m: Machine, at: int, n: int, len: nat, error: WasmError) -> Done<()> {
    if at + n > len {
        (m, Err(error))
    } else {
        (m, Ok(()))
    }
}

pub open spec fn i31_get(m: Machine, signed: bool) -> Done<()> {
    follow(
        m.pop(),
        |m: Machine, v: Value|
            if v == Value::NullRef {
                (m, Err(WasmError::NullI31Reference))
            } else if signed {
                m.push(Value::I32(i31_signed(v.i32_or_zero())))
            } else {
                m.push(Value::I32(i31_unsigned(v.i32_or_zero())))
            },
    )
}

pub open spec fn struct_new(m: Machine) -> Done<()> {
    follow(
        m.read_u32(),
        |m: Machine, ti: u32|
            follow(
                m.pop_many(struct_fields(m.store.module, ti).len() as int),
                |m: Machine, fields: Seq<Value>| allocated(m, Object::Struct { type_idx: ti, fields }),
            ),
    )
}

/// The fields that a struct starts with.
pub open spec fn initial_fields(st: Seq<StorageType>) -> Seq<Value> {
    Seq::new(st.len(), |i: int| initial(Some(st[i])))
}

pub open spec fn struct_new_default(m: Machine) -> Done<()> {
    follow(
        m.read_u32(),
        |m: Machine, ti: u32|
            allocated(
                m,
                Object::Struct { type_idx: ti, fields: initial_fields(struct_fields(m.store.module, ti)) },
            ),
    )
}

pub open spec fn struct_get(m: Machine, signed: bool) -> Done<()> {
    follow(
        m.read_u32(),
        |m: Machine, ti: u32|
            follow(
                m.read_u32(),
                |m: Machine, fi: u32|
                    follow(
                        m.pop(),
                        |m: Machine, v: Value|
                            follow(
                                target(m, v, WasmError::NullStructReference),
                                |m: Machine, h: u32|
                                    follow(
                                        fields_of(m, h),
                                        |m: Machine, fields: Seq<Value>|
                                            follow(
                                                checked(m, fi as int, 1, fields.len(), WasmError::OutOfBounds),
                                                |m: Machine, u: ()|
                                                    m.push(
                                                        extended(
                                                            field_storage(m.store.module, ti, fi as int),
                                                            fields[fi as int],
                                                            signed,
                                                        ),
                                                    ),
                                            ),
                                    ),
                            ),
                    ),
            ),
    )
}

pub open spec fn struct_set(m: Machine) -> Done<()> {
    follow(
        m.read_u32(),
        |m: Machine, ti: u32|
            follow(
                m.read_u32(),
                |m: Machine, fi: u32|
                    follow(
                        m.pop(),
                        |m: Machine, x: Value|
                            follow(
                                m.pop(),
                                |m: Machine, v: Value|
                                    follow(
                                        target(m, v, WasmError::NullStructReference),
                                        |m: Machine, h: u32|
                                            follow(
                                                fields_of(m, h),
                                                |m: Machine, fields: Seq<Value>|
                                                    follow(
                                                        checked(
                                                            m,
                                                            fi as int,
                                                            1,
                                                            fields.len(),
                                                            WasmError::OutOfBounds,
                                                        ),
                                                        |m: Machine, u: ()|
                                                            (
                                                                written(
                                                                    m,
                                                                    h,
                                                                    fi as int,
                                                                    seq![
                                                                        wrapped(
                                                                            field_storage(m.store.module, ti, fi as int),
                                                                            x,
                                                                        ),
                                                                    ],
                                                                ),
                                                                Ok(()),
                                                            ),
                                                    ),
                                            ),
                                    ),
                            ),
                    ),
            ),
    )
}

/// `n` times the same value.
pub open spec fn repeated(v: Value, n: int) -> Seq<Value> {
    Seq::new(n as nat, |i: int| v)
}

pub open spec fn array_new(m: Machine) -> Done<()> {
    follow(
        m.read_u32(),
        |m: Machine, ti: u32|
            follow(
                m.pop_i32(),
                |m: Machine, n: i32|
                    follow(
                        m.pop(),
                        |m: Machine, v: Value|
                            allocated(m, Object::Array { type_idx: ti, elements: repeated(v, n as u32 as int) }),
                    ),
            ),
    )
}

pub open spec fn array_new_default(m: Machine) -> Done<()> {
    follow(
        m.read_u32(),
        |m: Machine, ti: u32|
            follow(
                m.pop_i32(),
                |m: Machine, n: i32|
                    allocated(
                        m,
                        Object::Array {
                            type_idx: ti,
                            elements: repeated(initial(elem_storage(m.store.module, ti)), n as u32 as int),
                        },
                    ),
            ),
    )
}

pub open spec fn array_new_fixed(m: Machine) -> Done<()> {
    follow(
        m.read_u32(),
        |m: Machine, ti: u32|
            follow(
                m.read_u32(),
                |m: Machine, n: u32|
                    follow(
                        m.pop_many(n as int),
                        |m: Machine, elements: Seq<Value>| allocated(m, Object::Array { type_idx: ti, elements }),
                    ),
            ),
    )
}

/// Elements of a segment: of a data segment, or else of an element segment.
pub open spec fn segment(m: Machine, data: bool, ti: u32, si: u32, offset: u32, n: u32) -> Done<Seq<Value>> {
    if data {
        (m, m.store.data_elements(ti, si, offset, n))
    } else {
        (m, m.store.elem_elements(si, offset, n))
    }
}

pub open spec fn array_new_segment(m: Machine, data: bool) -> Done<()> {
    follow(
        m.read_u32(),
        |m: Machine, ti: u32|
            follow(
                m.read_u32(),
                |m: Machine, si: u32|
                    follow(
                        m.pop_i32(),
                        |m: Machine, n: i32|
                            follow(
                                m.pop_i32(),
                                |m: Machine, offset: i32|
                                    follow(
                                        segment(m, data, ti, si, offset as u32, n as u32),
                                        |m: Machine, elements: Seq<Value>|
                                            allocated(m, Object::Array { type_idx: ti, elements }),
                                    ),
                            ),
                    ),
            ),
    )
}

pub open spec fn array_get(m: Machine, signed: bool) -> Done<()> {
    follow(
        m.read_u32(),
        |m: Machine, ti: u32|
            follow(
                m.pop_i32(),
                |m: Machine, i: i32|
                    follow(
                        m.pop(),
                        |m: Machine, v: Value|
                            follow(
                                target(m, v, WasmError::NullArrayReference),
                                |m: Machine, h: u32|
                                    follow(
                                        elements_of(m, h),
                                        |m: Machine, elements: Seq<Value>|
                                            follow(
                                                checked(
                                                    m,
                                                    i as u32 as int,
                                                    1,
                                                    elements.len(),
                                                    WasmError::ArrayOutOfBounds,
                                                ),
                                                |m: Machine, u: ()|
                                                    m.push(
                                                        extended(
                                                            elem_storage(m.store.module, ti),
                                                            elements[i as u32 as int],
                                                            signed,
                                                        ),
                                                    ),
                                            ),
                                    ),
                            ),
                    ),
            ),
    )
}

/// Writes values into an array, from `at` on.
pub open spec fn array_write(m: Machine, v: Value, at: u32, vals: Seq<Value>) -> Done<()> {
    follow(
        target(m, v, WasmError::NullArrayReference),
        |m: Machine, h: u32|
            follow(
                elements_of(m, h),
                |m: Machine, elements: Seq<Value>|
                    follow(
                        checked(m, at as int, vals.len() as int, elements.len(), WasmError::ArrayOutOfBounds),
                        |m: Machine, u: ()| (written(m, h, at as int, vals), Ok(())),
                    ),
            ),
    )
}

pub open spec fn array_set(m: Machine) -> Done<()> {
    follow(
        m.read_u32(),
        |m: Machine, ti: u32|
            follow(
                m.pop(),
                |m: Machine, x: Value|
                    follow(
                        m.pop_i32(),
                        |m: Machine, i: i32|
                            follow(
                                m.pop(),
                                |m: Machine, v: Value|
                                    array_write(
                                        m,
                                        v,
                                        i as u32,
                                        seq![wrapped(elem_storage(m.store.module, ti), x)],
                                    ),
                            ),
                    ),
            ),
    )
}

pub open spec fn array_len(m: Machine) -> Done<()> {
    follow(
        m.pop(),
        |m: Machine, v: Value|
            follow(
                target(m, v, WasmError::NullArrayReference),
                |m: Machine, h: u32|
                    follow(
                        elements_of(m, h),
                        |m: Machine, elements: Seq<Value>| m.push(Value::I32(elements.len() as i32)),
                    ),
            ),
    )
}

pub open spec fn array_fill(m: Machine) -> Done<()> {
    follow(
        m.read_u32(),
        |m: Machine, ti: u32|
            follow(
                m.pop_i32(),
                |m: Machine, n: i32|
                    follow(
                        m.pop(),
                        |m: Machine, x: Value|
                            follow(
                                m.pop_i32(),
                                |m: Machine, offset: i32|
                                    follow(
                                        m.pop(),
                                        |m: Machine, v: Value|
                                            array_write(
                                                m,
                                                v,
                                                offset as u32,
                                                repeated(
                                                    wrapped(elem_storage(m.store.module, ti), x),
                                                    n as u32 as int,
                                                ),
                                            ),
                                    ),
                            ),
                    ),
            ),
    )
}

/// Copies `n` elements from one array to another, or within one.
pub open spec fn array_move(m: Machine, dst: Value, dst_at: u32, src: Value, src_at: u32, n: u32) -> Done<()> {
    follow(
        target(m, src, WasmError::NullArrayReference),
        |m: Machine, s: u32|
            follow(
                target(m, dst, WasmError::NullArrayReference),
                |m: Machine, d: u32|
                    follow(
                        elements_of(m, d),
                        |m: Machine, to: Seq<Value>|
                            follow(
                                checked(m, dst_at as int, n as int, to.len(), WasmError::ArrayOutOfBounds),
                                |m: Machine, u: ()|
                                    follow(
                                        elements_of(m, s),
                                        |m: Machine, from: Seq<Value>|
                                            follow(
                                                checked(
                                                    m,
                                                    src_at as int,
                                                    n as int,
                                                    from.len(),
                                                    WasmError::ArrayOutOfBounds,
                                                ),
                                                |m: Machine, u: ()|
                                                    (
                                                        written(
                                                            m,
                                                            d,
                                                            dst_at as int,
                                                            from.subrange(src_at as int, src_at + n),
                                                        ),
                                                        Ok(()),
                                                    ),
                                            ),
                                    ),
                            ),
                    ),
            ),
    )
}

pub open spec fn array_copy(m: Machine) -> Done<()> {
    follow(
        m.read_u32(),
        |m: Machine, dst_type: u32|
            follow(
                m.read_u32(),
                |m: Machine, src_type: u32|
                    follow(
                        m.pop_i32(),
                        |m: Machine, n: i32|
                            follow(
                                m.pop_i32(),
                                |m: Machine, src_at: i32|
                                    follow(
                                        m.pop(),
                                        |m: Machine, src: Value|
                                            follow(
                                                m.pop_i32(),
                                                |m: Machine, dst_at: i32|
                                                    follow(
                                                        m.pop(),
                                                        |m: Machine, dst: Value|
                                                            array_move(
                                                                m,
                                                                dst,
                                                                dst_at as u32,
                                                                src,
                                                                src_at as u32,
                                                                n as u32,
                                                            ),
                                                    ),
                                            ),
                                    ),
                            ),
                    ),
            ),
    )
}

/// Copies `n` elements of a segment into an array. The array's bounds are tested
/// first.
pub open spec fn array_load(m: Machine, data: bool, ti: u32, si: u32, v: Value, at: u32, offset: u32, n: u32) -> Done<()> {
    follow(
        target(m, v, WasmError::NullArrayReference),
        |m: Machine, h: u32|
            follow(
                elements_of(m, h),
                |m: Machine, elements: Seq<Value>|
                    follow(
                        checked(m, at as int, n as int, elements.len(), WasmError::ArrayOutOfBounds),
                        |m: Machine, u: ()|
                            follow(
                                segment(m, data, ti, si, offset, n),
                                |m: Machine, vals: Seq<Value>| (written(m, h, at as int, vals), Ok(())),
                            ),
                    ),
            ),
    )
}

pub open spec fn array_init(m: Machine, data: bool) -> Done<()> {
    follow(
        m.read_u32(),
        |m: Machine, ti: u32|
            follow(
                m.read_u32(),
                |m: Machine, si: u32|
                    follow(
                        m.pop_i32(),
                        |m: Machine, n: i32|
                            follow(
                                m.pop_i32(),
                                |m: Machine, offset: i32|
                                    follow(
                                        m.pop_i32(),
                                        |m: Machine, at: i32|
                                            follow(
                                                m.pop(),
                                                |m: Machine, v: Value|
                                                    array_load(
                                                        m,
                                                        data,
                                                        ti,
                                                        si,
                                                        v,
                                                        at as u32,
                                                        offset as u32,
                                                        n as u32,
                                                    ),
                                            ),
                                    ),
                            ),
                    ),
            ),
    )
}

pub open spec fn ref_test(m: Machine, nullable: bool) -> Done<()> {
    follow(
        m.read_i32(),
        |m: Machine, ht: i32|
            follow(
                m.pop(),
                |m: Machine, v: Value|
                    m.push(
                        Value::I32(
                            if ref_matches(m.store, v, ht, nullable) {
                                1
                            } else {
                                0
                            },
                        ),
                    ),
            ),
    )
}

pub open spec fn ref_cast(m: Machine, nullable: bool) -> Done<()> {
    follow(
        m.read_i32(),
        |m: Machine, ht: i32|
            follow(
                m.pop(),
                |m: Machine, v: Value|
                    if ref_matches(m.store, v, ht, nullable) {
                        m.push(v)
                    } else {
                        (m, Err(WasmError::CastFailure))
                    },
            ),
    )
}

/// Branches where a cast would succeed, or, with `fail`, where it would fail. Bit one
/// of the flags admits null.
pub open spec fn branch_on_cast(m: Machine, fail: bool) -> Done<()> {
    follow(
        m.read_byte(),
        |m: Machine, flags: u8|
            follow(
                m.read_u32(),
                |m: Machine, label: u32|
                    follow(
                        m.read_i32(),
                        |m: Machine, from: i32|
                            follow(
                                m.read_i32(),
                                |m: Machine, to: i32|
                                    follow(
                                        m.pop(),
                                        |m: Machine, v: Value|
                                            follow(
                                                m.push(v),
                                                |n: Machine, u: ()|
                                                    if ref_matches(m.store, v, to, (flags / 2) % 2 == 1) != fail {
                                                        branch(n, label)
                                                    } else {
                                                        (n, Ok(()))
                                                    },
                                            ),
                                    ),
                            ),
                    ),
            ),
    )
}

/// Converts between external and internal references.
pub open spec fn converted(m: Machine, inward: bool) -> Done<()> {
    follow(
        m.pop(),
        |m: Machine, v: Value|
            if v == Value::NullRef || v == Value::I32(-1i32) {
                m.push(Value::NullRef)
            } else if inward {
                allocated(m, Object::Internalized { value: v })
            } else {
                allocated(m, Object::Externalized { value: v })
            },
    )
}

/// Executes the instruction with the prefix 0xFB and this number.
pub open spec fn gc_instruction(m: Machine, sub: u32) -> Done<()> {
    match sub {
        0 => struct_new(m),
        1 => struct_new_default(m),
        2 => struct_get(m, false),
        3 => struct_get(m, true),
        4 => struct_get(m, false),
        5 => struct_set(m),
        6 => array_new(m),
        7 => array_new_default(m),
        8 => array_new_fixed(m),
        9 => array_new_segment(m, true),
        10 => array_new_segment(m, false),
        11 => array_get(m, false),
        12 => array_get(m, true),
        13 => array_get(m, false),
        14 => array_set(m),
        15 => array_len(m),
        16 => array_fill(m),
        17 => array_copy(m),
        18 => array_init(m, true),
        19 => array_init(m, false),
        20 => ref_test(m, false),
        21 => ref_test(m, true),
        22 => ref_cast(m, false),
        23 => ref_cast(m, true),
        24 => branch_on_cast(m, false),
        25 => branch_on_cast(m, true),
        26 => converted(m, true),
        27 => converted(m, false),
        28 => (m, Ok(())),
        29 => i31_get(m, true),
        30 => i31_get(m, false),
        _ => (m, Err(WasmError::UnsupportedProposal)),
    }
}

/// What is written to a field or element is read back, and nothing else of the object
/// changes.
pub proof fn written_is_read_back(m: Machine, h: u32, at: int, v: Value)
    requires
        h < m.store.heap.len(),
    ensures
        fields_of(m, h).1 matches Ok(fields) ==> 0 <= at < fields.len() ==> fields_of(written(m, h, at, seq![v]), h).1
            == Ok::<Seq<Value>, WasmError>(fields.update(at, v)),
        elements_of(m, h).1 matches Ok(elements) ==> 0 <= at < elements.len() ==> elements_of(
            written(m, h, at, seq![v]),
            h,
        ).1 == Ok::<Seq<Value>, WasmError>(elements.update(at, v)),
{
    if let Ok(fields) = fields_of(m, h).1 {
        if 0 <= at < fields.len() {
            assert(splice(fields, at, seq![v]) =~= fields.update(at, v));
        }
    }
    if let Ok(elements) = elements_of(m, h).1 {
        if 0 <= at < elements.len() {
            assert(splice(elements, at, seq![v]) =~= elements.update(at, v));
        }
    }
}

/// The reference to a new object leads to it, and objects made before stay as they are.
pub proof fn allocated_is_reached(m: Machine, o: Object, h: u32)
    requires
        m.valid(),
        m.store.heap.len() < u32::MAX,
        allocated(m, o).1 is Ok,
        h < m.store.heap.len(),
    ensures
        ({
            let r = allocated(m, o).0;
            let v = r.pop().1->Ok_0;
            &&& target(r, v, WasmError::NullReference).1 == Ok::<u32, WasmError>(m.store.heap.len() as u32)
            &&& r.store.heap[m.store.heap.len() as int] == o
            &&& r.store.heap[h as int] == m.store.heap[h as int]
        }),
{
}

// ---------------------------------------------------------------------------
// Execution

/// Writes values from `at` on.
fn write_values(to: &mut Vec<Value>, at: usize, vals: &[Value])
    requires
        at + vals@.len() <= old(to)@.len(),
    ensures
        final(to)@ == splice(old(to)@, at as int, vals@),
{
    let len: usize = to.len();
    let mut i: usize = 0;
    while i < vals.len()
        invariant
            i <= vals@.len(),
            at + vals@.len() <= len,
            to@.len() == len,
            to@ == splice(old(to)@, at as int, vals@.take(i as int)),
        decreases vals@.len() - i,
    {
        to[at + i] = vals[i];
        i = i + 1;
    }
    assert(vals@.take(i as int) =~= vals@);
}

impl GcObject {
    /// Writes values into a struct or an array.
    fn overwrite(&mut self, at: usize, vals: &[Value])
        requires
            match old(self)@ {
                Object::Struct { fields, .. } => at + vals@.len() <= fields.len(),
                Object::Array { elements, .. } => at + vals@.len() <= elements.len(),
                _ => true,
            },
        ensures
            final(self)@ == overwritten(old(self)@, at as int, vals@),
    {
        match self {
            GcObject::Struct { fields, .. } => write_values(fields, at, vals),
            GcObject::Array { elements, .. } => write_values(elements, at, vals),
            _ => {},
        }
    }
}

/// `n` times the same value.
pub(crate) fn repeat(v: Value, n: usize) -> (r: Vec<Value>)
    ensures
        r@ == repeated(v, n as int),
{
    let mut r: Vec<Value> = Vec::new();
    let mut i: usize = 0;
    while i < n
        invariant
            i <= n,
            r@ == repeated(v, i as int),
        decreases n - i,
    {
        r.push(v);
        i = i + 1;
        assert(r@ =~= repeated(v, i as int));
    }
    r
}

impl WasmInstance {
    fn allocate(&mut self, o: GcObject) -> (r: Result<(), WasmError>)
        requires
            old(self).wf(),
        ensures
            (final(self)@, r) == allocated(old(self)@, o@),
            final(self).wf(),
    {
        let h: u32 = self.gc_heap.len() as u32;
        self.gc_heap.push(o);
        self.push(Value::GcRef(h))
    }

    /// The object that a reference leads to.
    fn heap_target(&self, v: Value, null: WasmError) -> (r: Result<u32, WasmError>)
        ensures
            (self@, r) == target(self@, v, null),
            r matches Ok(h) ==> h < self.gc_heap@.len(),
    {
        match v {
            Value::GcRef(h) => {
                if (h as usize) < self.gc_heap.len() {
                    Ok(h)
                } else {
                    Err(null)
                }
            },
            _ => Err(null),
        }
    }

    /// The fields of a struct.
    fn struct_at(&self, h: u32) -> (r: Result<&Vec<Value>, WasmError>)
        requires
            h < self.gc_heap@.len(),
        ensures
            match r {
                Ok(f) => fields_of(self@, h) == (self@, Ok::<Seq<Value>, WasmError>(f@)),
                Err(e) => fields_of(self@, h) == (self@, Err::<Seq<Value>, WasmError>(e)),
            },
    {
        assert(self@.store.heap[h as int] == self.gc_heap@[h as int]@);
        match &self.gc_heap[h as usize] {
            GcObject::Struct { fields, .. } => Ok(fields),
            _ => Err(WasmError::TypeMismatch),
        }
    }

    /// The elements of an array.
    fn array_at(&self, h: u32) -> (r: Result<&Vec<Value>, WasmError>)
        requires
            h < self.gc_heap@.len(),
        ensures
            match r {
                Ok(f) => elements_of(self@, h) == (self@, Ok::<Seq<Value>, WasmError>(f@)),
                Err(e) => elements_of(self@, h) == (self@, Err::<Seq<Value>, WasmError>(e)),
            },
    {
        assert(self@.store.heap[h as int] == self.gc_heap@[h as int]@);
        match &self.gc_heap[h as usize] {
            GcObject::Array { elements, .. } => Ok(elements),
            _ => Err(WasmError::TypeMismatch),
        }
    }

    /// Writes values into a struct or an array.
    fn write_object(&mut self, h: u32, at: usize, vals: &[Value])
        requires
            old(self).wf(),
            h < old(self).gc_heap@.len(),
            match old(self).gc_heap@[h as int]@ {
                Object::Struct { fields, .. } => at + vals@.len() <= fields.len(),
                Object::Array { elements, .. } => at + vals@.len() <= elements.len(),
                _ => true,
            },
        ensures
            final(self)@ == written(old(self)@, h, at as int, vals@),
            final(self).wf(),
    {
        assert(self@.store.heap[h as int] == self.gc_heap@[h as int]@);
        self.gc_heap[h as usize].overwrite(at, vals);
    }

    fn exec_i31_get(&mut self, signed: bool) -> (r: Result<(), WasmError>)
        requires
            old(self).wf(),
        ensures
            (final(self)@, r) == i31_get(old(self)@, signed),
            final(self).wf(),
    {
        let v = self.pop()?;
        match v {
            Value::NullRef => Err(WasmError::NullI31Reference),
            _ => {
                let x: i32 = v.as_i32();
                if signed {
                    self.push(Value::I32(i31_get_s(x)))
                } else {
                    self.push(Value::I32(i31_get_u(x)))
                }
            },
        }
    }

    fn exec_struct_new(&mut self) -> (r: Result<(), WasmError>)
        requires
            old(self).wf(),
        ensures
            (final(self)@, r) == struct_new(old(self)@),
            final(self).wf(),
    {
        let ti: u32 = self.read_leb128_u32()?;
        let n: usize = self.module.struct_field_count(ti);
        let fields = self.pop_list(n)?;
        self.allocate(GcObject::Struct { type_idx: ti, fields })
    }

    fn exec_struct_new_default(&mut self) -> (r: Result<(), WasmError>)
        requires
            old(self).wf(),
        ensures
            (final(self)@, r) == struct_new_default(old(self)@),
            final(self).wf(),
    {
        let ti: u32 = self.read_leb128_u32()?;
        let n: usize = self.module.struct_field_count(ti);
        let ghost st = struct_fields(self@.store.module, ti);
        let mut fields: Vec<Value> = Vec::new();
        let mut i: usize = 0;
        while i < n
            invariant
                i <= n,
                n == st.len(),
                st == struct_fields(self.module@, ti),
                fields@ == initial_fields(st.take(i as int)),
            decreases n - i,
        {
            fields.push(self.initial_field(ti, i));
            i = i + 1;
            assert(fields@ =~= initial_fields(st.take(i as int)));
        }
        assert(st.take(i as int) =~= st);
        self.allocate(GcObject::Struct { type_idx: ti, fields })
    }

    /// The value that a field starts with.
    pub fn initial_field(&self, ti: u32, fi: usize) -> (r: Value)
        requires
            fi < struct_fields(self.module@, ti).len(),
        ensures
            r == initial(Some(struct_fields(self.module@, ti)[fi as int])),
    {
        match &self.module.gc_types[ti as usize] {
            GcTypeDef::Struct { field_types, .. } => initial_value(Some(field_types[fi])),
            _ => Value::I32(0),
        }
    }

    fn exec_struct_get(&mut self, signed: bool) -> (r: Result<(), WasmError>)
        requires
            old(self).wf(),
        ensures
            (final(self)@, r) == struct_get(old(self)@, signed),
            final(self).wf(),
    {
        let ti: u32 = self.read_leb128_u32()?;
        let fi: u32 = self.read_leb128_u32()?;
        let v = self.pop()?;
        let h: u32 = self.heap_target(v, WasmError::NullStructReference)?;
        let fields = self.struct_at(h)?;
        if fi as usize >= fields.len() {
            return Err(WasmError::OutOfBounds);
        }
        let x = extend_value(self.module.struct_field_storage(ti, fi as usize), fields[fi as usize], signed);
        self.push(x)
    }

    fn exec_struct_set(&mut self) -> (r: Result<(), WasmError>)
        requires
            old(self).wf(),
        ensures
            (final(self)@, r) == struct_set(old(self)@),
            final(self).wf(),
    {
        let ti: u32 = self.read_leb128_u32()?;
        let fi: u32 = self.read_leb128_u32()?;
        let x = self.pop()?;
        let v = self.pop()?;
        let h: u32 = self.heap_target(v, WasmError::NullStructReference)?;
        let fields = self.struct_at(h)?;
        if fi as usize >= fields.len() {
            return Err(WasmError::OutOfBounds);
        }
        let w = wrap_value(self.module.struct_field_storage(ti, fi as usize), x);
        let one = vec![w];
        assert(one@ =~= seq![w]);
        self.write_object(h, fi as usize, one.as_slice());
        Ok(())
    }

    fn exec_array_new(&mut self) -> (r: Result<(), WasmError>)
        requires
            old(self).wf(),
        ensures
            (final(self)@, r) == array_new(old(self)@),
            final(self).wf(),
    {
        let ti: u32 = self.read_leb128_u32()?;
        let n: u32 = self.pop_i32()? as u32;
        let v = self.pop()?;
        let elements = repeat(v, n as usize);
        self.allocate(GcObject::Array { type_idx: ti, elements })
    }

    fn exec_array_new_default(&mut self) -> (r: Result<(), WasmError>)
        requires
            old(self).wf(),
        ensures
            (final(self)@, r) == array_new_default(old(self)@),
            final(self).wf(),
    {
        let ti: u32 = self.read_leb128_u32()?;
        let n: u32 = self.pop_i32()? as u32;
        let v = initial_value(self.module.array_elem_storage(ti));
        let elements = repeat(v, n as usize);
        self.allocate(GcObject::Array { type_idx: ti, elements })
    }

    fn exec_array_new_fixed(&mut self) -> (r: Result<(), WasmError>)
        requires
            old(self).wf(),
        ensures
            (final(self)@, r) == array_new_fixed(old(self)@),
            final(self).wf(),
    {
        let ti: u32 = self.read_leb128_u32()?;
        let n: u32 = self.read_leb128_u32()?;
        let elements = self.pop_list(n as usize)?;
        self.allocate(GcObject::Array { type_idx: ti, elements })
    }

    /// Elements of a segment.
    fn segment_elements(&self, data: bool, ti: u32, si: u32, offset: u32, n: u32) -> (r: Result<Vec<Value>, WasmError>)
        requires
            self.wf(),
        ensures
            match r {
                Ok(v) => segment(self@, data, ti, si, offset, n) == (self@, Ok::<Seq<Value>, WasmError>(v@)) && v@.len()
                    == n,
                Err(e) => segment(self@, data, ti, si, offset, n) == (self@, Err::<Seq<Value>, WasmError>(e)),
            },
    {
        if data {
            self.gc_array_from_data(ti, si, offset, n)
        } else {
            self.gc_array_from_elem(si, offset, n)
        }
    }

    fn exec_array_new_segment(&mut self, data: bool) -> (r: Result<(), WasmError>)
        requires
            old(self).wf(),
        ensures
            (final(self)@, r) == array_new_segment(old(self)@, data),
            final(self).wf(),
    {
        let ti: u32 = self.read_leb128_u32()?;
        let si: u32 = self.read_leb128_u32()?;
        let n: u32 = self.pop_i32()? as u32;
        let offset: u32 = self.pop_i32()? as u32;
        let elements = self.segment_elements(data, ti, si, offset, n)?;
        self.allocate(GcObject::Array { type_idx: ti, elements })
    }

    fn exec_array_get(&mut self, signed: bool) -> (r: Result<(), WasmError>)
        requires
            old(self).wf(),
        ensures
            (final(self)@, r) == array_get(old(self)@, signed),
            final(self).wf(),
    {
        let ti: u32 = self.read_leb128_u32()?;
        let i: u32 = self.pop_i32()? as u32;
        let v = self.pop()?;
        let h: u32 = self.heap_target(v, WasmError::NullArrayReference)?;
        let elements = self.array_at(h)?;
        if i as usize >= elements.len() {
            return Err(WasmError::ArrayOutOfBounds);
        }
        let x = extend_value(self.module.array_elem_storage(ti), elements[i as usize], signed);
        self.push(x)
    }

    /// Writes values into an array, from `at` on.
    fn write_array(&mut self, v: Value, at: u32, vals: &[Value]) -> (r: Result<(), WasmError>)
        requires
            old(self).wf(),
        ensures
            (final(self)@, r) == array_write(old(self)@, v, at, vals@),
            final(self).wf(),
    {
        let h: u32 = self.heap_target(v, WasmError::NullArrayReference)?;
        let len: usize = self.array_at(h)?.len();
        if vals.len() > len || at as usize > len - vals.len() {
            return Err(WasmError::ArrayOutOfBounds);
        }
        self.write_object(h, at as usize, vals);
        Ok(())
    }

    fn exec_array_set(&mut self) -> (r: Result<(), WasmError>)
        requires
            old(self).wf(),
        ensures
            (final(self)@, r) == array_set(old(self)@),
            final(self).wf(),
    {
        let ti: u32 = self.read_leb128_u32()?;
        let x = self.pop()?;
        let i: u32 = self.pop_i32()? as u32;
        let v = self.pop()?;
        let w = wrap_value(self.module.array_elem_storage(ti), x);
        let one = vec![w];
        assert(one@ =~= seq![w]);
        self.write_array(v, i, one.as_slice())
    }

    fn exec_array_len(&mut self) -> (r: Result<(), WasmError>)
        requires
            old(self).wf(),
        ensures
            (final(self)@, r) == array_len(old(self)@),
            final(self).wf(),
    {
        let v = self.pop()?;
        let h: u32 = self.heap_target(v, WasmError::NullArrayReference)?;
        let len: usize = self.array_at(h)?.len();
        self.push(Value::I32(len as i32))
    }

    fn exec_array_fill(&mut self) -> (r: Result<(), WasmError>)
        requires
            old(self).wf(),
        ensures
            (final(self)@, r) == array_fill(old(self)@),
            final(self).wf(),
    {
        let ti: u32 = self.read_leb128_u32()?;
        let n: u32 = self.pop_i32()? as u32;
        let x = self.pop()?;
        let offset: u32 = self.pop_i32()? as u32;
        let v = self.pop()?;
        let w = wrap_value(self.module.array_elem_storage(ti), x);
        let h: u32 = self.heap_target(v, WasmError::NullArrayReference)?;
        let len: usize = self.array_at(h)?.len();
        if n as usize > len || offset as usize > len - n as usize {
            return Err(WasmError::ArrayOutOfBounds);
        }
        let vals = repeat(w, n as usize);
        self.write_object(h, offset as usize, vals.as_slice());
        Ok(())
    }

    /// Copies elements from one array to another, or within one.
    fn move_elements(&mut self, dst: Value, dst_at: u32, src: Value, src_at: u32, n: u32) -> (r: Result<(), WasmError>)
        requires
            old(self).wf(),
        ensures
            (final(self)@, r) == array_move(old(self)@, dst, dst_at, src, src_at, n),
            final(self).wf(),
    {
        let s: u32 = self.heap_target(src, WasmError::NullArrayReference)?;
        let d: u32 = self.heap_target(dst, WasmError::NullArrayReference)?;
        let to_len: usize = self.array_at(d)?.len();
        if n as usize > to_len || dst_at as usize > to_len - n as usize {
            return Err(WasmError::ArrayOutOfBounds);
        }
        let from = self.array_at(s)?;
        if n as usize > from.len() || src_at as usize > from.len() - n as usize {
            return Err(WasmError::ArrayOutOfBounds);
        }
        let ghost all = from@;
        let mut vals: Vec<Value> = Vec::new();
        let mut i: usize = 0;
        while i < n as usize
            invariant
                i <= n,
                from@ == all,
                src_at + n <= all.len() <= usize::MAX,
                vals@ == all.subrange(src_at as int, src_at + i),
            decreases n - i,
        {
            vals.push(from[src_at as usize + i]);
            i = i + 1;
            assert(vals@ =~= all.subrange(src_at as int, src_at + i));
        }
        self.write_object(d, dst_at as usize, vals.as_slice());
        Ok(())
    }

    fn exec_array_copy(&mut self) -> (r: Result<(), WasmError>)
        requires
            old(self).wf(),
        ensures
            (final(self)@, r) == array_copy(old(self)@),
            final(self).wf(),
    {
        self.read_leb128_u32()?;
        self.read_leb128_u32()?;
        let n: u32 = self.pop_i32()? as u32;
        let src_at: u32 = self.pop_i32()? as u32;
        let src = self.pop()?;
        let dst_at: u32 = self.pop_i32()? as u32;
        let dst = self.pop()?;
        self.move_elements(dst, dst_at, src, src_at, n)
    }

    /// Copies elements of a segment into an array.
    fn load_array(&mut self, data: bool, ti: u32, si: u32, v: Value, at: u32, offset: u32, n: u32) -> (r: Result<
        (),
        WasmError,
    >)
        requires
            old(self).wf(),
        ensures
            (final(self)@, r) == array_load(old(self)@, data, ti, si, v, at, offset, n),
            final(self).wf(),
    {
        let h: u32 = self.heap_target(v, WasmError::NullArrayReference)?;
        let len: usize = self.array_at(h)?.len();
        if n as usize > len || at as usize > len - n as usize {
            return Err(WasmError::ArrayOutOfBounds);
        }
        let vals = self.segment_elements(data, ti, si, offset, n)?;
        self.write_object(h, at as usize, vals.as_slice());
        Ok(())
    }

    fn exec_array_init(&mut self, data: bool) -> (r: Result<(), WasmError>)
        requires
            old(self).wf(),
        ensures
            (final(self)@, r) == array_init(old(self)@, data),
            final(self).wf(),
    {
        let ti: u32 = self.read_leb128_u32()?;
        let si: u32 = self.read_leb128_u32()?;
        let n: u32 = self.pop_i32()? as u32;
        let offset: u32 = self.pop_i32()? as u32;
        let at: u32 = self.pop_i32()? as u32;
        let v = self.pop()?;
        self.load_array(data, ti, si, v, at, offset, n)
    }

    fn exec_ref_test(&mut self, nullable: bool) -> (r: Result<(), WasmError>)
        requires
            old(self).wf(),
        ensures
            (final(self)@, r) == ref_test(old(self)@, nullable),
            final(self).wf(),
    {
        let ht: i32 = self.read_leb128_i32()?;
        let v = self.pop()?;
        if self.gc_ref_test(v, ht, nullable) {
            self.push(Value::I32(1))
        } else {
            self.push(Value::I32(0))
        }
    }

    fn exec_ref_cast(&mut self, nullable: bool) -> (r: Result<(), WasmError>)
        requires
            old(self).wf(),
        ensures
            (final(self)@, r) == ref_cast(old(self)@, nullable),
            final(self).wf(),
    {
        let ht: i32 = self.read_leb128_i32()?;
        let v = self.pop()?;
        if self.gc_ref_test(v, ht, nullable) {
            self.push(v)
        } else {
            Err(WasmError::CastFailure)
        }
    }

    fn exec_branch_on_cast(&mut self, fail: bool) -> (r: Result<(), WasmError>)
        requires
            old(self).wf(),
        ensures
            (final(self)@, r) == branch_on_cast(old(self)@, fail),
            final(self).wf(),
    {
        let flags: u8 = self.read_byte()?;
        let label: u32 = self.read_leb128_u32()?;
        self.read_leb128_i32()?;
        let to: i32 = self.read_leb128_i32()?;
        let v = self.pop()?;
        let matched: bool = self.gc_ref_test(v, to, (flags / 2) % 2 == 1);
        self.push(v)?;
        if matched != fail {
            self.branch(label)
        } else {
            Ok(())
        }
    }

    fn exec_convert(&mut self, inward: bool) -> (r: Result<(), WasmError>)
        requires
            old(self).wf(),
        ensures
            (final(self)@, r) == converted(old(self)@, inward),
            final(self).wf(),
    {
        let v = self.pop()?;
        let null: bool = match v {
            Value::NullRef => true,
            Value::I32(x) => x == -1,
            _ => false,
        };
        if null {
            self.push(Value::NullRef)
        } else if inward {
            self.allocate(GcObject::Internalized { value: v })
        } else {
            self.allocate(GcObject::Externalized { value: v })
        }
    }

    /// Executes the instruction with the prefix 0xFB and this number.
    pub fn exec_gc(&mut self, sub: u32) -> (r: Result<(), WasmError>)
        requires
            old(self).wf(),
        ensures
            (final(self)@, r) == gc_instruction(old(self)@, sub),
            final(self).wf(),
    {
        match sub {
            0 => self.exec_struct_new(),
            1 => self.exec_struct_new_default(),
            2 => self.exec_struct_get(false),
            3 => self.exec_struct_get(true),
            4 => self.exec_struct_get(false),
            5 => self.exec_struct_set(),
            6 => self.exec_array_new(),
            7 => self.exec_array_new_default(),
            8 => self.exec_array_new_fixed(),
            9 => self.exec_array_new_segment(true),
            10 => self.exec_array_new_segment(false),
            11 => self.exec_array_get(false),
            12 => self.exec_array_get(true),
            13 => self.exec_array_get(false),
            14 => self.exec_array_set(),
            15 => self.exec_array_len(),
            16 => self.exec_array_fill(),
            17 => self.exec_array_copy(),
            18 => self.exec_array_init(true),
            19 => self.exec_array_init(false),
            20 => self.exec_ref_test(false),
            21 => self.exec_ref_test(true),
            22 => self.exec_ref_cast(false),
            23 => self.exec_ref_cast(true),
            24 => self.exec_branch_on_cast(false),
            25 => self.exec_branch_on_cast(true),
            26 => self.exec_convert(true),
            27 => self.exec_convert(false),
            28 => Ok(()),
            29 => self.exec_i31_get(true),
            30 => self.exec_i31_get(false),
            _ => Err(WasmError::UnsupportedProposal),
        }
    }
}

} // verus!
