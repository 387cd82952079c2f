//! The garbage-collected heap: storage, segments as array contents, and type tests.

use vstd::prelude::*;
use crate::bytes::{le_u16, le_u32, le_u64, read_u16, read_u32, read_u64};
use crate::gc_types::{GcType, GcTypeDef, StorageType};
use crate::linker::{equivalent, func_types_match, sub_type, type_indices_equivalent, MAX_SUPERTYPE_STEPS};
use crate::machine::{GcObject, Object, Store, WasmInstance};
use crate::module::{group_views, Module, WasmModule};
use crate::types::{ValType, Value, WasmError};

verus! {

broadcast use group_views;

/// The fields of a struct type; none where the type is no struct.
pub open spec fn struct_fields(m: Module, ti: u32) -> Seq<StorageType> {
    if ti < m.gc_types.len() {
        match m.gc_types[ti as int] {
            GcType::Struct { field_types, .. } => field_types,
            _ => Seq::empty(),
        }
    } else {
        Seq::empty()
    }
}

/// How a field of a struct type is stored.
pub open spec fn field_storage(m: Module, ti: u32, fi: int) -> Option<StorageType> {
    if 0 <= fi < struct_fields(m, ti).len() {
        Some(struct_fields(m, ti)[fi])
    } else {
        None
    }
}

/// How the elements of an array type are stored.
pub open spec fn elem_storage(m: Module, ti: u32) -> Option<StorageType> {
    if ti < m.gc_types.len() {
        match m.gc_types[ti as int] {
            GcType::Array { elem_type, .. } => Some(elem_type),
            _ => None,
        }
    } else {
        None
    }
}

/// The value that storage starts with.
pub open spec fn initial(st: Option<StorageType>) -> Value {
    match st {
        Some(t) => Value::zero_of(t.unpacked()),
        None => Value::I32(0),
    }
}

/// What storing a value keeps of it: packed storage keeps the low bits.
pub open spec fn wrapped(st: Option<StorageType>, v: Value) -> Value {
    match st {
        Some(StorageType::I8) => Value::I32(v.i32_or_zero() & 0xFF),
        Some(StorageType::I16) => Value::I32(v.i32_or_zero() & 0xFFFF),
        _ => v,
    }
}

/// What reading storage makes of the value held: packed storage is widened.
pub open spec fn extended(st: Option<StorageType>, v: Value, signed: bool) -> Value {
    match st {
        Some(StorageType::I8) => if signed {
            Value::I32((v.i32_or_zero() as i8) as i32)
        } else {
            Value::I32(v.i32_or_zero() & 0xFF)
        },
        Some(StorageType::I16) => if signed {
            Value::I32((v.i32_or_zero() as i16) as i32)
        } else {
            Value::I32(v.i32_or_zero() & 0xFFFF)
        },
        _ => v,
    }
}

/// A wrapped value reads back, without a sign, as it was wrapped.
pub proof fn wrapped_reads_back(st: Option<StorageType>, v: Value)
    ensures
        extended(st, wrapped(st, v), false) == wrapped(st, v),
        wrapped(st, wrapped(st, v)) == wrapped(st, v),
{
    let x = v.i32_or_zero();
    assert((x & 0xFF) & 0xFF == x & 0xFF) by (bit_vector);
    assert((x & 0xFFFF) & 0xFFFF == x & 0xFFFF) by (bit_vector);
}

/// Reading packed storage with a sign does not depend on whether the value was
/// wrapped before.
pub proof fn wrapping_keeps_signed_read(st: Option<StorageType>, v: Value)
    ensures
        extended(st, wrapped(st, v), true) == extended(st, v, true),
{
    let x = v.i32_or_zero();
    assert((x & 0xFF) as i8 == x as i8) by (bit_vector);
    assert((x & 0xFFFF) as i16 == x as i16) by (bit_vector);
}

// ---------------------------------------------------------------------------
// Segments

/// Bytes that an element of an array takes in a data segment.
pub open spec fn elem_size(st: Option<StorageType>) -> int {
    match st {
        Some(StorageType::I8) => 1,
        Some(StorageType::I16) => 2,
        Some(StorageType::Val(ValType::I64)) => 8,
        Some(StorageType::Val(ValType::F64)) => 8,
        _ => 4,
    }
}

/// The element that the bytes at `p` hold.
pub open spec fn elem_value(s: Seq<u8>, p: int, st: Option<StorageType>) -> Value {
    match st {
        Some(StorageType::I8) => Value::I32(s[p] as i32),
        Some(StorageType::I16) => Value::I32(le_u16(s, p) as i32),
        Some(StorageType::Val(ValType::F32)) => Value::F32(le_u32(s, p)),
        Some(StorageType::Val(ValType::I64)) => Value::I64(le_u64(s, p) as i64),
        Some(StorageType::Val(ValType::F64)) => Value::F64(le_u64(s, p)),
        _ => Value::I32(le_u32(s, p) as i32),
    }
}

impl Store {
    /// Whether a data segment has been dropped.
    pub open spec fn data_dropped(self, di: int) -> bool {
        di < self.dropped_data.len() && self.dropped_data[di]
    }

    /// Whether an element segment has been dropped.
    pub open spec fn elem_dropped(self, ei: int) -> bool {
        ei < self.dropped_elems.len() && self.dropped_elems[ei]
    }

    /// `length` array elements from `offset` of a data segment. A dropped segment has
    /// no bytes.
    pub open spec fn data_elements(self, ti: u32, di: u32, offset: u32, length: u32) -> Result<Seq<Value>, WasmError> {
        let st = elem_storage(self.module, ti);
        let size = elem_size(st);
        if di >= self.module.data_segments.len() {
            Err(WasmError::MemoryOutOfBounds)
        } else {
            let seg = self.module.data_segments[di as int];
            let len = if self.data_dropped(di as int) {
                0
            } else {
                seg.data_len as int
            };
            if offset + length * size > len {
                Err(WasmError::MemoryOutOfBounds)
            } else {
                Ok(
                    Seq::new(
                        length as nat,
                        |i: int| elem_value(self.module.code, seg.data_offset + offset + i * size, st),
                    ),
                )
            }
        }
    }

    /// The value of item `i` of an element segment.
    pub open spec fn elem_item(self, ei: int, i: int) -> Value {
        if ei < self.elem_values.len() && self.elem_values[ei].len() > 0 {
            if i < self.elem_values[ei].len() {
                self.elem_values[ei][i]
            } else {
                Value::NullRef
            }
        } else {
            let f = self.module.element_segments[ei].func_indices[i];
            if f == u32::MAX {
                Value::NullRef
            } else {
                Value::I32(f as i32)
            }
        }
    }

    /// `length` array elements from `offset` of an element segment. A dropped segment
    /// has no items.
    pub open spec fn elem_elements(self, ei: u32, offset: u32, length: u32) -> Result<Seq<Value>, WasmError> {
        if ei >= self.module.element_segments.len() {
            Err(WasmError::TableIndexOutOfBounds)
        } else {
            let len = if self.elem_dropped(ei as int) {
                0
            } else {
                self.module.element_segments[ei as int].func_indices.len()
            };
            if offset + length > len {
                Err(WasmError::TableIndexOutOfBounds)
            } else {
                Ok(Seq::new(length as nat, |i: int| self.elem_item(ei as int, offset + i)))
            }
        }
    }
}

// ---------------------------------------------------------------------------
// Type tests

/// Whether two types of one module are equal or equivalent.
pub open spec fn types_agree(m: Module, a: u32, b: u32) -> bool {
    a == b || equivalent(m, a, m, b)
}

/// Whether a proper supertype of `a`, at most `n` steps up, is `b` or equivalent to it.
pub open spec fn inherits(m: Module, a: u32, b: u32, n: nat) -> bool
    decreases n,
{
    if n == 0 {
        false
    } else {
        match sub_type(m, a as int) {
            Some(info) => match info.supertype {
                Some(p) => types_agree(m, p, b) || inherits(m, p, b, (n - 1) as nat),
                None => false,
            },
            None => false,
        }
    }
}

/// Whether the type `a` is a subtype of `b`.
pub open spec fn is_subtype(m: Module, a: u32, b: u32) -> bool {
    types_agree(m, a, b) || inherits(m, a, b, MAX_SUPERTYPE_STEPS as nat)
}

/// The type index of a function, imported or defined.
pub open spec fn func_type_of(m: Module, f: u32) -> Option<u32> {
    let imported = m.imported_funcs();
    if f < imported.len() {
        Some(imported[f as int])
    } else if f - imported.len() < m.functions.len() {
        Some(m.functions[f - imported.len()].type_idx)
    } else {
        None
    }
}

/// Whether a reference matches a heap type. Heap types are negative for abstract
/// types, else type indices. An `i32` stands for a 31-bit integer or a function, minus
/// one for null.
pub open spec fn ref_matches(s: Store, v: Value, ht: i32, nullable: bool) -> bool {
    match v {
        Value::NullRef => nullable,
        Value::I32(x) => if x == -1 {
            nullable
        } else if ht == -18 || ht == -19 || ht == -20 || ht == -16 {
            true
        } else if ht >= 0 && x >= 0 {
            func_type_of(s.module, x as u32) matches Some(t) && is_subtype(s.module, t, ht as u32)
        } else {
            false
        },
        Value::GcRef(h) => if h >= s.heap.len() {
            false
        } else {
            match s.heap[h as int] {
                Object::Internalized { .. } => ht == -18,
                Object::Externalized { .. } => ht == -17,
                Object::Struct { type_idx, .. } => ht == -18 || ht == -19 || ht == -21 || (ht >= 0 && is_subtype(
                    s.module,
                    type_idx,
                    ht as u32,
                )),
                Object::Array { type_idx, .. } => ht == -18 || ht == -19 || ht == -22 || (ht >= 0 && is_subtype(
                    s.module,
                    type_idx,
                    ht as u32,
                )),
            }
        },
        _ => false,
    }
}

/// Every type is a subtype of itself.
pub proof fn is_subtype_reflexive(m: Module, a: u32)
    ensures
        is_subtype(m, a, a),
{
}

/// A type is a subtype of the supertype that it declares.
pub proof fn declared_supertype(m: Module, a: u32)
    requires
        a < m.sub_types.len(),
        m.sub_types[a as int].supertype is Some,
    ensures
        is_subtype(m, a, m.sub_types[a as int].supertype->Some_0),
{
}

/// A null reference matches a heap type exactly where null is admitted.
pub proof fn null_matches_nullable(s: Store, ht: i32, nullable: bool)
    ensures
        ref_matches(s, Value::NullRef, ht, nullable) == nullable,
{
}

// ---------------------------------------------------------------------------
// Execution

/// The value that storage starts with.
pub fn initial_value(st: Option<StorageType>) -> (r: Value)
    ensures
        r == initial(st),
{
    match st {
        Some(t) => Value::default_for(t.unpack()),
        None => Value::I32(0),
    }
}

/// What storing a value keeps of it.
pub fn wrap_value(st: Option<StorageType>, v: Value) -> (r: Value)
    ensures
        r == wrapped(st, v),
{
    match st {
        Some(StorageType::I8) => Value::I32(v.as_i32() & 0xFF),
        Some(StorageType::I16) => Value::I32(v.as_i32() & 0xFFFF),
        _ => v,
    }
}

/// What reading storage makes of the value held.
pub fn extend_value(st: Option<StorageType>, v: Value, signed: bool) -> (r: Value)
    ensures
        r == extended(st, v, signed),
{
    match st {
        Some(StorageType::I8) => if signed {
            Value::I32((v.as_i32() as i8) as i32)
        } else {
            Value::I32(v.as_i32() & 0xFF)
        },
        Some(StorageType::I16) => if signed {
            Value::I32((v.as_i32() as i16) as i32)
        } else {
            Value::I32(v.as_i32() & 0xFFFF)
        },
        _ => v,
    }
}

/// Bytes that an element of an array takes in a data segment.
fn size_of_elem(st: Option<StorageType>) -> (r: u64)
    ensures
        r == elem_size(st),
        1 <= r <= 8,
{
    match st {
        Some(StorageType::I8) => 1,
        Some(StorageType::I16) => 2,
        Some(StorageType::Val(ValType::I64)) => 8,
        Some(StorageType::Val(ValType::F64)) => 8,
        _ => 4,
    }
}

/// The element that the bytes at `p` hold.
fn read_elem(bytes: &[u8], p: usize, st: Option<StorageType>) -> (r: Value)
    requires
        p + elem_size(st) <= bytes@.len(),
    ensures
        r == elem_value(bytes@, p as int, st),
{
    match st {
        Some(StorageType::I8) => Value::I32(bytes[p] as i32),
        Some(StorageType::I16) => Value::I32(read_u16(bytes, p) as i32),
        Some(StorageType::Val(ValType::F32)) => Value::F32(read_u32(bytes, p)),
        Some(StorageType::Val(ValType::I64)) => Value::I64(read_u64(bytes, p) as i64),
        Some(StorageType::Val(ValType::F64)) => Value::F64(read_u64(bytes, p)),
        _ => Value::I32(read_u32(bytes, p) as i32),
    }
}

impl WasmModule {
    /// The number of fields of a struct type; none where the type is no struct.
    pub fn struct_field_count(&self, ti: u32) -> (r: usize)
        ensures
            r == struct_fields(self@, ti).len(),
    {
        if (ti as usize) < self.gc_types.len() {
            match &self.gc_types[ti as usize] {
                GcTypeDef::Struct { field_types, .. } => field_types.len(),
                _ => 0,
            }
        } else {
            0
        }
    }

    /// How a field of a struct type is stored.
    pub fn struct_field_storage(&self, ti: u32, fi: usize) -> (r: Option<StorageType>)
        ensures
            r == field_storage(self@, ti, fi as int),
    {
        if (ti as usize) < self.gc_types.len() {
            match &self.gc_types[ti as usize] {
                GcTypeDef::Struct { field_types, .. } => {
                    if fi < field_types.len() {
                        Some(field_types[fi])
                    } else {
                        None
                    }
                },
                _ => None,
            }
        } else {
            None
        }
    }

    /// How the elements of an array type are stored.
    pub fn array_elem_storage(&self, ti: u32) -> (r: Option<StorageType>)
        ensures
            r == elem_storage(self@, ti),
    {
        if (ti as usize) < self.gc_types.len() {
            match &self.gc_types[ti as usize] {
                GcTypeDef::Array { elem_type, .. } => Some(*elem_type),
                _ => None,
            }
        } else {
            None
        }
    }

    /// The type index of a function, imported or defined.
    pub fn func_type_index(&self, f: u32) -> (r: Option<u32>)
        ensures
            r == func_type_of(self@, f),
    {
        match self.func_import_type(f) {
            Some(t) => Some(t),
            None => {
                let li: usize = f as usize - self.func_import_count();
                if li < self.functions.len() {
                    Some(self.functions[li].type_idx)
                } else {
                    None
                }
            },
        }
    }

    /// Whether two type indices name the same signature.
    pub fn types_structurally_equal(&self, a: u32, b: u32) -> (r: bool)
        requires
            self.wf(),
        ensures
            r == (a < self@.func_types.len() && b < self@.func_types.len() && self@.func_types[a as int]
                == self@.func_types[b as int]),
    {
        if a as usize >= self.func_types.len() || b as usize >= self.func_types.len() {
            return false;
        }
        assert(self.func_types@[a as int].wf() && self.func_types@[b as int].wf());
        func_types_match(&self.func_types[a as usize], &self.func_types[b as usize])
    }

    /// Whether two types are equal or equivalent.
    pub fn gc_types_equivalent(&self, a: u32, b: u32) -> (r: bool)
        requires
            self.wf(),
        ensures
            r == types_agree(self@, a, b),
    {
        a == b || type_indices_equivalent(self, a, self, b)
    }

    /// Whether the type `a` is a subtype of `b`.
    pub fn gc_is_subtype(&self, a: u32, b: u32) -> (r: bool)
        requires
            self.wf(),
        ensures
            r == is_subtype(self@, a, b),
    {
        if self.gc_types_equivalent(a, b) {
            return true;
        }
        let mut current: u32 = a;
        let mut i: u32 = 0;
        while i < MAX_SUPERTYPE_STEPS
            invariant
                self.wf(),
                i <= MAX_SUPERTYPE_STEPS,
                is_subtype(self@, a, b) == inherits(self@, current, b, (MAX_SUPERTYPE_STEPS - i) as nat),
            decreases MAX_SUPERTYPE_STEPS - i,
        {
            if (current as usize) >= self.sub_types.len() {
                return false;
            }
            match self.sub_types[current as usize].supertype {
                Some(parent) => {
                    if self.gc_types_equivalent(parent, b) {
                        return true;
                    }
                    current = parent;
                },
                None => {
                    return false;
                },
            }
            i = i + 1;
        }
        false
    }
}

impl WasmInstance {
    /// Array elements from a data segment.
    pub fn gc_array_from_data(&self, ti: u32, di: u32, offset: u32, length: u32) -> (r: Result<Vec<Value>, WasmError>)
        requires
            self.wf(),
        ensures
            match r {
                Ok(v) => self@.store.data_elements(ti, di, offset, length) == Ok::<Seq<Value>, WasmError>(v@),
                Err(e) => self@.store.data_elements(ti, di, offset, length) == Err::<Seq<Value>, WasmError>(e),
            },
    {
        if (di as usize) >= self.module.data_segments.len() {
            return Err(WasmError::MemoryOutOfBounds);
        }
        let seg = self.module.data_segments[di as usize];
        assert(seg.within(self.module.code@.len() as int));
        let dropped: bool = (di as usize) < self.dropped_data.len() && self.dropped_data[di as usize];
        let len: u64 = if dropped {
            0
        } else {
            seg.data_len as u64
        };
        let st = self.module.array_elem_storage(ti);
        let size: u64 = size_of_elem(st);
        assert(0 <= length * size <= 0xFFFF_FFFF * 8) by (nonlinear_arith)
            requires
                0 <= length <= 0xFFFF_FFFF,
                0 <= size <= 8,
        ;
        if offset as u64 + length as u64 * size > len {
            return Err(WasmError::MemoryOutOfBounds);
        }
        let mut v: Vec<Value> = Vec::new();
        let mut i: u32 = 0;
        let base: usize = seg.data_offset + offset as usize;
        while i < length
            invariant
                i <= length,
                self.wf(),
                size == elem_size(st),
                1 <= size <= 8,
                base + length * size <= self.module.code@.len(),
                v@ == Seq::new(i as nat, |k: int| elem_value(self.module.code@, base + k * size, st)),
            decreases length - i,
        {
            assert(0 <= i * size && i * size + size <= length * size) by (nonlinear_arith)
                requires
                    0 <= i < length,
                    0 <= size,
            ;
            let p: usize = base + (i as u64 * size) as usize;
            v.push(read_elem(self.module.code.as_slice(), p, st));
            i = i + 1;
            assert(v@ =~= Seq::new(i as nat, |k: int| elem_value(self.module.code@, base + k * size, st)));
        }
        assert(v@ =~= Seq::new(
            length as nat,
            |k: int| elem_value(self@.store.module.code, seg.data_offset + offset + k * elem_size(st), st),
        ));
        Ok(v)
    }

    /// Array elements from an element segment.
    pub fn gc_array_from_elem(&self, ei: u32, offset: u32, length: u32) -> (r: Result<Vec<Value>, WasmError>)
        requires
            self.wf(),
        ensures
            match r {
                Ok(v) => self@.store.elem_elements(ei, offset, length) == Ok::<Seq<Value>, WasmError>(v@),
                Err(e) => self@.store.elem_elements(ei, offset, length) == Err::<Seq<Value>, WasmError>(e),
            },
    {
        if (ei as usize) >= self.module.element_segments.len() {
            return Err(WasmError::TableIndexOutOfBounds);
        }
        let dropped: bool = (ei as usize) < self.dropped_elems.len() && self.dropped_elems[ei as usize];
        let total: usize = self.module.element_segments[ei as usize].func_indices.len();
        let len: u64 = if dropped {
            0
        } else {
            total as u64
        };
        if offset as u64 + length as u64 > len {
            return Err(WasmError::TableIndexOutOfBounds);
        }
        let evaluated: bool = (ei as usize) < self.elem_gc_values.len() && self.elem_gc_values[ei as usize].len() > 0;
        let mut v: Vec<Value> = Vec::new();
        let mut i: u32 = 0;
        while i < length
            invariant
                i <= length,
                self.wf(),
                ei < self.module.element_segments@.len(),
                evaluated == (ei < self.elem_gc_values@.len() && self.elem_gc_values@[ei as int]@.len() > 0),
                offset + length <= self.module.element_segments@[ei as int].func_indices@.len() <= usize::MAX,
                v@ == Seq::new(i as nat, |k: int| self@.store.elem_item(ei as int, offset + k)),
            decreases length - i,
        {
            let at: usize = offset as usize + i as usize;
            let x = if evaluated {
                if at < self.elem_gc_values[ei as usize].len() {
                    self.elem_gc_values[ei as usize][at]
                } else {
                    Value::NullRef
                }
            } else {
                let f: u32 = self.module.element_segments[ei as usize].func_indices[at];
                if f == u32::MAX {
                    Value::NullRef
                } else {
                    Value::I32(f as i32)
                }
            };
            assert(x == self@.store.elem_item(ei as int, offset + i));
            v.push(x);
            i = i + 1;
            assert(v@ =~= Seq::new(i as nat, |k: int| self@.store.elem_item(ei as int, offset + k)));
        }
        Ok(v)
    }

    /// Whether a reference matches a heap type.
    pub fn gc_ref_test(&self, v: Value, ht: i32, nullable: bool) -> (r: bool)
        requires
            self.wf(),
        ensures
            r == ref_matches(self@.store, v, ht, nullable),
    {
        match v {
            Value::NullRef => nullable,
            Value::I32(x) => {
                if x == -1 {
                    nullable
                } else if ht == -18 || ht == -19 || ht == -20 || ht == -16 {
                    true
                } else if ht >= 0 && x >= 0 {
                    match self.module.func_type_index(x as u32) {
                        Some(t) => self.module.gc_is_subtype(t, ht as u32),
                        None => false,
                    }
                } else {
                    false
                }
            },
            Value::GcRef(h) => {
                if (h as usize) >= self.gc_heap.len() {
                    return false;
                }
                assert(self@.store.heap[h as int] == self.gc_heap@[h as int]@);
                match &self.gc_heap[h as usize] {
                    GcObject::Internalized { .. } => ht == -18,
                    GcObject::Externalized { .. } => ht == -17,
                    GcObject::Struct { type_idx, .. } => {
                        ht == -18 || ht == -19 || ht == -21 || (ht >= 0 && self.module.gc_is_subtype(
                            *type_idx,
                            ht as u32,
                        ))
                    },
                    GcObject::Array { type_idx, .. } => {
                        ht == -18 || ht == -19 || ht == -22 || (ht >= 0 && self.module.gc_is_subtype(
                            *type_idx,
                            ht as u32,
                        ))
                    },
                }
            },
            _ => false,
        }
    }
}

} // verus!
