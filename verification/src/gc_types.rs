//! Type definitions of the garbage-collection proposal.

use vstd::prelude::*;
use crate::types::{copied, ValType};

verus! {

/// How a struct field or an array element is stored. Packed integers are narrower
/// than any value type.
#[derive(Debug, Clone, Copy, PartialEq, Eq, Structural)]
pub enum StorageType {
    I8,
    I16,
    Val(ValType),
    /// A reference to the concrete heap type with this index.
    RefType(ValType, u32),
}

impl StorageType {
    /// The value type that a read of this storage gives: packed integers widen to `i32`.
    pub open spec fn unpacked(self) -> ValType {
        match self {
            StorageType::I8 => ValType::I32,
            StorageType::I16 => ValType::I32,
            StorageType::Val(vt) => vt,
            StorageType::RefType(vt, _) => vt,
        }
    }

    /// The value type that a read of this storage gives: packed integers widen to `i32`.
    pub fn unpack(self) -> (r: ValType)
        ensures
            r == self.unpacked(),
    {
        match self {
            StorageType::I8 | StorageType::I16 => ValType::I32,
            StorageType::Val(vt) => vt,
            StorageType::RefType(vt, _) => vt,
        }
    }
}

/// The composite type at a type index.
#[derive(Debug)]
pub enum GcTypeDef {
    /// A function type, whose signature stands among the function types.
    Func,
    /// A struct: the storage and mutability of each field.
    Struct { field_types: Vec<StorageType>, field_muts: Vec<bool> },
    /// An array: the storage and mutability of its elements.
    Array { elem_type: StorageType, elem_mutable: bool },
}

/// Model of [`GcTypeDef`].
#[verifier::ext_equal]
pub enum GcType {
    Func,
    Struct { field_types: Seq<StorageType>, field_muts: Seq<bool> },
    Array { elem_type: StorageType, elem_mutable: bool },
}

impl View for GcTypeDef {
    type V = GcType;

    open spec fn view(&self) -> GcType {
        match *self {
            GcTypeDef::Func => GcType::Func,
            GcTypeDef::Struct { field_types, field_muts } => GcType::Struct {
                field_types: field_types@,
                field_muts: field_muts@,
            },
            GcTypeDef::Array { elem_type, elem_mutable } => GcType::Array { elem_type, elem_mutable },
        }
    }
}

impl Clone for GcTypeDef {
    fn clone(&self) -> (r: Self)
        ensures
            r@ == self@,
    {
        match self {
            GcTypeDef::Func => GcTypeDef::Func,
            GcTypeDef::Struct { field_types, field_muts } => GcTypeDef::Struct {
                field_types: copied(field_types),
                field_muts: copied(field_muts),
            },
            GcTypeDef::Array { elem_type, elem_mutable } => GcTypeDef::Array {
                elem_type: *elem_type,
                elem_mutable: *elem_mutable,
            },
        }
    }
}

/// Where a type stands in the subtype hierarchy and in its recursion group.
#[derive(Debug, Clone, Copy, PartialEq, Eq)]
pub struct SubTypeInfo {
    pub supertype: Option<u32>,
    pub is_final: bool,
    /// First type index of the recursion group.
    pub rec_group_start: u32,
    /// Number of types in the recursion group.
    pub rec_group_size: u32,
}

impl Default for SubTypeInfo {
    fn default() -> (r: Self)
        ensures
            r == (SubTypeInfo { supertype: None, is_final: false, rec_group_start: 0, rec_group_size: 0 }),
    {
        SubTypeInfo { supertype: None, is_final: false, rec_group_start: 0, rec_group_size: 0 }
    }
}

} // verus!
