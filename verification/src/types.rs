//! Value types, runtime values, errors and the engine's static limits.

use vstd::prelude::*;

verus! {

/// Bytes in one linear-memory page.
pub const WASM_PAGE_SIZE: usize = 65_536;

/// Most parameters a function type may declare.
pub const MAX_PARAMS: usize = 32;

/// Most results a function type may declare.
pub const MAX_RESULTS: usize = 32;

/// Most locals whose types a function body records.
pub const MAX_LOCALS: usize = 256;

/// Most functions in one module.
pub const MAX_FUNCTIONS: usize = 4_096;

/// Most imports in one module.
pub const MAX_IMPORTS: usize = 1_024;

/// Most exports in one module.
pub const MAX_EXPORTS: usize = 4_096;

/// Most globals in one module.
pub const MAX_GLOBALS: usize = 1_024;

/// Most element segments in one module.
pub const MAX_ELEMENT_SEGMENTS: usize = 1_024;

/// Most data segments in one module.
pub const MAX_DATA_SEGMENTS: usize = 1_024;

/// Most bytes of function bodies and data segments together.
pub const MAX_CODE_SIZE: usize = 16_777_216;

/// Slots of the operand stack.
pub const MAX_STACK: usize = 65_536;

/// Most nested calls.
pub const MAX_CALL_DEPTH: usize = 1_024;

/// Most nested blocks over all active calls.
pub const MAX_BLOCK_DEPTH: usize = 4_096;

/// Most pages a linear memory may hold.
pub const MAX_MEMORY_PAGES: usize = 65_536;

/// Most entries a table may hold.
pub const MAX_TABLE_SIZE: usize = 10_000_000;

/// A value type.
#[derive(Debug, Clone, Copy, PartialEq, Eq, Structural)]
pub enum ValType {
    I32,
    I64,
    F32,
    F64,
    V128,
    FuncRef,
    ExternRef,
    AnyRef,
    NullableAnyRef,
    EqRef,
    NullableEqRef,
    I31Ref,
    StructRef,
    NullableStructRef,
    ArrayRef,
    NullableArrayRef,
    NoneRef,
    NullFuncRef,
    NullExternRef,
    ExnRef,
    TypedFuncRef,
    NonNullableFuncRef,
    NullableTypedFuncRef,
}

/// A 128-bit vector, as its sixteen bytes in memory order.
#[derive(Debug, Clone, Copy, PartialEq, Eq)]
pub struct V128(pub [u8; 16]);

/// The vector whose bytes are the first sixteen of `s`.
pub open spec fn v128_of(s: Seq<u8>) -> V128 {
    V128(
        [
            s[0], s[1], s[2], s[3], s[4], s[5], s[6], s[7],
            s[8], s[9], s[10], s[11], s[12], s[13], s[14], s[15],
        ],
    )
}

/// A vector is determined by its bytes.
pub broadcast proof fn v128_from_own_bytes(v: V128)
    ensures
        v128_of(#[trigger] v.0@) == v,
{
    assert(v128_of(v.0@).0 =~= v.0);
}

/// Building a vector from sixteen bytes keeps them.
pub broadcast proof fn v128_bytes_kept(s: Seq<u8>)
    requires
        s.len() == 16,
    ensures
        (#[trigger] v128_of(s)).0@ == s,
{
    assert(v128_of(s).0@ =~= s);
}

impl V128 {
    /// The all-zero vector.
    pub fn zero() -> (r: V128)
        ensures
            r == v128_of(Seq::new(16, |i: int| 0u8)),
    {
        let v = V128([0u8; 16]);
        proof {
            assert(v.0@ =~= Seq::new(16, |i: int| 0u8));
            v128_from_own_bytes(v);
        }
        v
    }
}

/// A runtime value. The two floating-point variants hold the IEEE 754 bit pattern.
#[derive(Debug, Clone, Copy, PartialEq, Eq)]
pub enum Value {
    I32(i32),
    I64(i64),
    F32(u32),
    F64(u64),
    V128(V128),
    /// The null reference.
    NullRef,
    /// A reference to an object of the garbage-collected heap, by index.
    GcRef(u32),
}

impl Value {
    /// The `i32` held, zero where the value is of another type.
    pub open spec fn i32_or_zero(self) -> i32 {
        match self {
            Value::I32(v) => v,
            _ => 0,
        }
    }

    /// The `i64` held, zero where the value is of another type.
    pub open spec fn i64_or_zero(self) -> i64 {
        match self {
            Value::I64(v) => v,
            _ => 0,
        }
    }

    /// The single-precision bit pattern held, zero where the value is of another type.
    pub open spec fn f32_or_zero(self) -> u32 {
        match self {
            Value::F32(v) => v,
            _ => 0,
        }
    }

    /// The double-precision bit pattern held, zero where the value is of another type.
    pub open spec fn f64_or_zero(self) -> u64 {
        match self {
            Value::F64(v) => v,
            _ => 0,
        }
    }

    /// The vector held, all zero where the value is of another type.
    pub open spec fn v128_or_zero(self) -> V128 {
        match self {
            Value::V128(v) => v,
            _ => v128_of(Seq::new(16, |i: int| 0u8)),
        }
    }

    pub fn as_i32(self) -> (r: i32)
        ensures
            r == self.i32_or_zero(),
    {
        match self {
            Value::I32(v) => v,
            _ => 0,
        }
    }

    pub fn as_i64(self) -> (r: i64)
        ensures
            r == self.i64_or_zero(),
    {
        match self {
            Value::I64(v) => v,
            _ => 0,
        }
    }

    pub fn as_f32(self) -> (r: u32)
        ensures
            r == self.f32_or_zero(),
    {
        match self {
            Value::F32(v) => v,
            _ => 0,
        }
    }

    pub fn as_f64(self) -> (r: u64)
        ensures
            r == self.f64_or_zero(),
    {
        match self {
            Value::F64(v) => v,
            _ => 0,
        }
    }

    pub fn as_v128(self) -> (r: V128)
        ensures
            r == self.v128_or_zero(),
    {
        match self {
            Value::V128(v) => v,
            _ => V128::zero(),
        }
    }

    /// The value a local, field or element of type `t` starts with.
    pub open spec fn zero_of(t: ValType) -> Value {
        match t {
            ValType::I32 => Value::I32(0),
            ValType::I64 => Value::I64(0),
            ValType::F32 => Value::F32(0),
            ValType::F64 => Value::F64(0),
            ValType::V128 => Value::V128(v128_of(Seq::new(16, |i: int| 0u8))),
            _ => Value::NullRef,
        }
    }

    /// The value a local, field or element of type `t` starts with.
    pub fn default_for(t: ValType) -> (r: Value)
        ensures
            r == Value::zero_of(t),
    {
        match t {
            ValType::I32 => Value::I32(0),
            ValType::I64 => Value::I64(0),
            ValType::F32 => Value::F32(0),
            ValType::F64 => Value::F64(0),
            ValType::V128 => Value::V128(V128::zero()),
            _ => Value::NullRef,
        }
    }
}

/// What can go wrong while decoding, instantiating or running a module.
#[derive(Debug, Clone, Copy, PartialEq, Eq, Structural)]
pub enum WasmError {
    InvalidMagic,
    UnsupportedVersion,
    UnexpectedEnd,
    InvalidLEB128,
    MalformedUtf8,
    InvalidSection,
    TypeMismatch,
    TooManyFunctions,
    TooManyImports,
    FunctionNotFound(u32),
    ImportNotFound(u32),
    CodeTooLarge,
    MemoryOutOfBounds,
    UnalignedAtomic,
    TableIndexOutOfBounds,
    UndefinedElement,
    UninitializedElement(u32),
    IndirectCallTypeMismatch,
    StackOverflow,
    StackUnderflow,
    OutOfBounds,
    CallStackOverflow,
    BranchDepthExceeded,
    InvalidBlockType,
    UnreachableExecuted,
    NullReference,
    NullFunctionReference,
    NullI31Reference,
    NullStructReference,
    NullArrayReference,
    ArrayOutOfBounds,
    CastFailure,
    UnsupportedProposal,
    UncaughtException,
    GlobalIndexOutOfBounds,
    ImmutableGlobal,
    DivisionByZero,
    IntegerOverflow,
    FloatsDisabled,
    InvalidConversionToInteger,
    InvalidOpcode(u8),
}

/// Which instructions an instance may run.
#[derive(Debug, Clone, Copy, PartialEq, Eq, Structural)]
pub enum RuntimeClass {
    /// Deterministic: every scalar floating-point instruction traps.
    ProofGrade,
    /// Floating point is allowed.
    Full,
}

/// The class of an instance made without naming one.
pub const DEFAULT_RUNTIME_CLASS: RuntimeClass = RuntimeClass::ProofGrade;

/// A copy of a list.
pub fn copied<T: Copy>(list: &Vec<T>) -> (r: Vec<T>)
    ensures
        r@ == list@,
{
    let mut r: Vec<T> = Vec::new();
    while r.len() < list.len()
        invariant
            r@.len() <= list@.len(),
            r@ == list@.take(r@.len() as int),
        decreases list@.len() - r@.len(),
    {
        let x: T = list[r.len()];
        r.push(x);
        assert(r@ =~= list@.take(r@.len() as int));
    }
    assert(list@.take(r@.len() as int) =~= list@);
    r
}

} // verus!
