//! What makes types of two modules equivalent and one a subtype of another, and which
//! imports fit which exports.

use vstd::prelude::*;
use crate::gc_types::{GcType, StorageType};
use crate::heap::{inherits, is_subtype};
use crate::linker::{
    byte_type, descends, equivalence_by_groups, equivalent, global_fits, is_funcref, same_member, subtype,
    value_fits,
};
use crate::module::Module;
use crate::types::{ValType, Value};

verus! {

/// Whether a type stands in the recursion group that it is said to.
pub open spec fn in_its_group(m: Module, i: u32) -> bool {
    &&& i < m.sub_types.len()
    &&& m.sub_types[i as int].rec_group_start <= i
    &&& i < m.sub_types[i as int].rec_group_start + m.sub_types[i as int].rec_group_size
}

/// Whether storage of these types keeps the same kind of value.
pub open spec fn same_kind(x: StorageType, y: StorageType) -> bool {
    match x {
        StorageType::I8 => y == StorageType::I8,
        StorageType::I16 => y == StorageType::I16,
        StorageType::Val(t) => y == StorageType::Val(t),
        StorageType::RefType(t, _) => y is RefType && y->RefType_0 == t,
    }
}

/// Equivalent types have the same signature, the same finality, and both or neither a
/// supertype; they are both structs with fields of the same kinds and mutability, both arrays
/// with elements of the same kind and mutability, or both neither.
pub proof fn equivalent_types_look_alike(a: Module, i: u32, b: Module, j: u32)
    requires
        in_its_group(a, i),
        in_its_group(b, j),
        equivalent(a, i, b, j),
        i < a.gc_types.len(),
        j < b.gc_types.len(),
    ensures
        i < a.func_types.len(),
        j < b.func_types.len(),
        a.func_types[i as int] == b.func_types[j as int],
        a.sub_types[i as int].is_final == b.sub_types[j as int].is_final,
        a.sub_types[i as int].supertype is Some == b.sub_types[j as int].supertype is Some,
        a.sub_types[i as int].rec_group_size == b.sub_types[j as int].rec_group_size,
        match a.gc_types[i as int] {
            GcType::Func => b.gc_types[j as int] is Func,
            GcType::Struct { field_types, field_muts } => {
                &&& b.gc_types[j as int] is Struct
                &&& b.gc_types[j as int]->Struct_field_types.len() == field_types.len()
                &&& b.gc_types[j as int]->Struct_field_muts == field_muts
                &&& forall|k: int|
                    0 <= k < field_types.len() ==> same_kind(
                        #[trigger] field_types[k],
                        b.gc_types[j as int]->Struct_field_types[k],
                    )
            },
            GcType::Array { elem_type, elem_mutable } => {
                &&& b.gc_types[j as int] is Array
                &&& b.gc_types[j as int]->Array_elem_mutable == elem_mutable
                &&& same_kind(elem_type, b.gc_types[j as int]->Array_elem_type)
            },
        },
{
    equivalence_by_groups(a, i, b, j);
    let (x, y) = (a.sub_types[i as int], b.sub_types[j as int]);
    let rel = crate::linker::relation(a, b, crate::linker::enough(a, b));
    let k = i - x.rec_group_start;
    assert(same_member(a, x.rec_group_start, b, y.rec_group_start, x.rec_group_size, k, rel));
}

/// References within the groups of equivalent types go to the same members, and references
/// out of them to equivalent types.
pub proof fn equivalent_types_refer_alike(a: Module, i: u32, b: Module, j: u32, p: u32, q: u32)
    requires
        in_its_group(a, i),
        in_its_group(b, j),
        equivalent(a, i, b, j),
        a.sub_types[i as int].supertype == Some(p),
        b.sub_types[j as int].supertype == Some(q),
    ensures
        ({
            let (s, n) = (a.sub_types[i as int].rec_group_start, a.sub_types[i as int].rec_group_size);
            let (t, o) = (b.sub_types[j as int].rec_group_start, b.sub_types[j as int].rec_group_size);
            &&& (s <= p < s + n) == (t <= q < t + o)
            &&& s <= p < s + n ==> p - s == q - t
            &&& !(s <= p < s + n) ==> equivalent(a, p, b, q)
        }),
{
    equivalence_by_groups(a, i, b, j);
    let (x, y) = (a.sub_types[i as int], b.sub_types[j as int]);
    let rel = crate::linker::relation(a, b, crate::linker::enough(a, b));
    let k = i - x.rec_group_start;
    assert(same_member(a, x.rec_group_start, b, y.rec_group_start, x.rec_group_size, k, rel));
}

// ---------------------------------------------------------------------------
// Subtypes

/// The type so many declared supertypes up, where there are as many.
pub open spec fn ancestor(m: Module, i: u32, n: nat) -> Option<u32>
    decreases n,
{
    if n == 0 {
        Some(i)
    } else if i < m.sub_types.len() && m.sub_types[i as int].supertype is Some {
        ancestor(m, m.sub_types[i as int].supertype->Some_0, (n - 1) as nat)
    } else {
        None
    }
}

/// Whether a proper ancestor, at most so many steps up, is one of these.
pub open spec fn ancestor_among(m: Module, i: u32, n: nat, found: spec_fn(u32) -> bool) -> bool {
    exists|k: nat| 1 <= k <= n && #[trigger] ancestor(m, i, k) is Some && found(ancestor(m, i, k)->Some_0)
}

proof fn ancestors_shift(m: Module, i: u32, n: nat, found: spec_fn(u32) -> bool)
    requires
        n > 0,
        i < m.sub_types.len(),
        m.sub_types[i as int].supertype is Some,
    ensures
        ({
            let p = m.sub_types[i as int].supertype->Some_0;
            ancestor_among(m, i, n, found) == (found(p) || ancestor_among(m, p, (n - 1) as nat, found))
        }),
{
    let p = m.sub_types[i as int].supertype->Some_0;
    assert(ancestor(m, p, 0) == Some(p));
    assert(ancestor(m, i, 1) == ancestor(m, p, 0));
    if ancestor_among(m, i, n, found) {
        let k = choose|k: nat|
            1 <= k <= n && #[trigger] ancestor(m, i, k) is Some && found(ancestor(m, i, k)->Some_0);
        assert(ancestor(m, i, k) == ancestor(m, p, (k - 1) as nat));
    }
    if ancestor_among(m, p, (n - 1) as nat, found) {
        let k = choose|k: nat|
            1 <= k <= n - 1 && #[trigger] ancestor(m, p, k) is Some && found(ancestor(m, p, k)->Some_0);
        assert(ancestor(m, i, k + 1) == ancestor(m, p, k));
    }
}

proof fn orphan_has_no_ancestor(m: Module, i: u32, n: nat, found: spec_fn(u32) -> bool)
    requires
        i >= m.sub_types.len() || m.sub_types[i as int].supertype is None,
    ensures
        !ancestor_among(m, i, n, found),
{
    assert forall|k: nat| 1 <= k <= n implies #[trigger] ancestor(m, i, k) is None by {}
}

proof fn descent_is_ancestry(a: Module, src: u32, b: Module, dst: u32, n: nat)
    ensures
        descends(a, src, b, dst, n) == ancestor_among(a, src, n, |p: u32| equivalent(a, p, b, dst)),
    decreases n,
{
    let found = |p: u32| equivalent(a, p, b, dst);
    if n > 0 {
        if src < a.sub_types.len() && a.sub_types[src as int].supertype is Some {
            let p = a.sub_types[src as int].supertype->Some_0;
            ancestors_shift(a, src, n, found);
            descent_is_ancestry(a, p, b, dst, (n - 1) as nat);
        } else {
            orphan_has_no_ancestor(a, src, n, found);
        }
    }
}

proof fn inheritance_is_ancestry(m: Module, a: u32, b: u32, n: nat)
    ensures
        inherits(m, a, b, n) == ancestor_among(m, a, n, |p: u32| p == b || equivalent(m, p, m, b)),
    decreases n,
{
    let found = |p: u32| p == b || equivalent(m, p, m, b);
    if n > 0 {
        if a < m.sub_types.len() && m.sub_types[a as int].supertype is Some {
            let p = m.sub_types[a as int].supertype->Some_0;
            ancestors_shift(m, a, n, found);
            inheritance_is_ancestry(m, p, b, (n - 1) as nat);
        } else {
            orphan_has_no_ancestor(m, a, n, found);
        }
    }
}

/// A type is a subtype of one of another module exactly where it, or a type that it descends
/// from by at most a hundred declared supertypes, is equivalent to it.
pub proof fn subtypes_descend(a: Module, src: u32, b: Module, dst: u32)
    ensures
        subtype(a, src, b, dst) <==> exists|k: nat|
            k <= 100 && #[trigger] ancestor(a, src, k) is Some && equivalent(a, ancestor(a, src, k)->Some_0, b, dst),
{
    descent_is_ancestry(a, src, b, dst, 100);
    assert(ancestor(a, src, 0) == Some(src));
}

/// Within one module the same holds, a type being a subtype of itself too.
pub proof fn heap_subtypes_descend(m: Module, a: u32, b: u32)
    ensures
        is_subtype(m, a, b) <==> exists|k: nat|
            k <= 100 && #[trigger] ancestor(m, a, k) is Some && (ancestor(m, a, k) == Some(b) || equivalent(
                m,
                ancestor(m, a, k)->Some_0,
                m,
                b,
            )),
{
    inheritance_is_ancestry(m, a, b, 100);
    assert(ancestor(m, a, 0) == Some(a));
}

// ---------------------------------------------------------------------------
// Imports

/// A long integer, a float or a vector fits its own type and no other, and nothing else fits
/// these types.
pub proof fn numbers_fit_their_type(v: Value, t: ValType)
    requires
        v is I64 || v is F32 || v is F64 || v is V128 || t == ValType::I64 || t == ValType::F32 || t == ValType::F64
            || t == ValType::V128,
    ensures
        value_fits(v, t) <==> {
            ||| v is I64 && t == ValType::I64
            ||| v is F32 && t == ValType::F32
            ||| v is F64 && t == ValType::F64
            ||| v is V128 && t == ValType::V128
        },
{
}

/// References are held as integers: whatever an integer fits, null fits, and the other way
/// round. These are the integers themselves and the types of references that start as null,
/// except references to exceptions.
pub proof fn integers_fit_as_null_does(x: i32, t: ValType)
    ensures
        value_fits(Value::I32(x), t) == value_fits(Value::NullRef, t),
        value_fits(Value::I32(x), t) <==> t == ValType::I32 || t == ValType::FuncRef || t == ValType::ExternRef || t
            == ValType::TypedFuncRef || t == ValType::NonNullableFuncRef || t == ValType::NullableTypedFuncRef,
        forall|h: u32| #[trigger] value_fits(Value::GcRef(h), t) ==> value_fits(Value::NullRef, t),
        forall|h: u32| #[trigger]
            value_fits(Value::GcRef(h), t) <==> t == ValType::I32 || t == ValType::FuncRef || t == ValType::ExternRef,
{
}

/// Whether a global of this reference type may hold null.
pub open spec fn may_be_null(t: ValType) -> bool {
    t == ValType::FuncRef || t == ValType::NullableTypedFuncRef || t == ValType::ExternRef
}

/// A global fits an import of just its type, mutable or not.
pub proof fn globals_fit_themselves(t: ValType, b: u8, mutable: bool)
    requires
        t == ValType::FuncRef || t == ValType::ExternRef,
        b == if t == ValType::FuncRef {
            0x70u8
        } else {
            0x6Fu8
        },
    ensures
        global_fits(t, b, None, t, None, mutable),
{
}

/// A global that may be null never fits an import of function references or of a concrete type
/// that excludes null; a mutable one that excludes null does not fit an import that admits it.
pub proof fn imports_keep_null_out(
    import_type: ValType,
    import_byte: u8,
    import_heap: Option<i32>,
    export_type: ValType,
    export_heap: Option<i32>,
    mutable: bool,
)
    requires
        global_fits(import_type, import_byte, import_heap, export_type, export_heap, mutable),
        export_type != ValType::ExternRef,
    ensures
        import_byte == 0x64 || import_type == ValType::TypedFuncRef || import_type == ValType::NonNullableFuncRef
            ==> !may_be_null(export_type),
        mutable && !(import_byte == 0x64 || import_type == ValType::TypedFuncRef || import_type
            == ValType::NonNullableFuncRef) ==> may_be_null(export_type),
{
}

/// Imports of function references are bound to function references, imports of external
/// references to external ones, and imports of a type index to that index.
pub proof fn imports_keep_families_apart(
    import_type: ValType,
    import_byte: u8,
    import_heap: Option<i32>,
    export_type: ValType,
    export_heap: Option<i32>,
    mutable: bool,
)
    requires
        global_fits(import_type, import_byte, import_heap, export_type, export_heap, mutable),
    ensures
        import_type == ValType::FuncRef && import_byte == 0x70 ==> is_funcref(export_type),
        import_type == ValType::ExternRef && import_byte == 0x6F ==> export_type == ValType::ExternRef,
        (import_byte == 0x63 || import_byte == 0x64) && !is_funcref(import_type) && import_type != ValType::ExternRef
            ==> {
            &&& import_heap is Some
            &&& import_heap->Some_0 == -16 ==> is_funcref(export_type)
            &&& import_heap->Some_0 == -17 ==> export_type == ValType::ExternRef
            &&& import_heap->Some_0 >= 0 ==> export_heap == import_heap
            &&& import_heap->Some_0 < 0 ==> import_heap->Some_0 == -16 || import_heap->Some_0 == -17
        },
        !is_funcref(import_type) && import_type != ValType::ExternRef ==> import_byte == 0x63 || import_byte == 0x64,
{
}

/// Bytes that stand for value types stand for different ones, except that both references
/// with a heap type are held as integers.
pub proof fn type_bytes_differ(a: u8, b: u8)
    requires
        byte_type(a) is Some,
        byte_type(a) == byte_type(b),
        a != b,
    ensures
        a == 0x7F || a == 0x63 || a == 0x64,
        b == 0x7F || b == 0x63 || b == 0x64,
        byte_type(a) == Some(ValType::I32),
{
}

} // verus!
