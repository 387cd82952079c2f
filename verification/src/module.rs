//! The decoded module: its structures, their models and look-ups on them.

use vstd::prelude::*;
use crate::gc_types::{GcType, GcTypeDef, SubTypeInfo};
use crate::types::{copied, ValType, Value, MAX_LOCALS, MAX_PARAMS, MAX_RESULTS};

verus! {

/// The models of the elements of `s`.
pub open spec fn views<T: View>(s: Seq<T>) -> Seq<T::V> {
    Seq::new(s.len(), |i: int| s[i]@)
}

pub broadcast proof fn views_push<T: View>(s: Seq<T>, x: T)
    ensures
        #[trigger] views(s.push(x)) == views(s).push(x@),
{
    assert(views(s.push(x)) =~= views(s).push(x@));
}

pub broadcast proof fn views_empty<T: View>()
    ensures
        #[trigger] views(Seq::<T>::empty()) == Seq::<T::V>::empty(),
{
    assert(views(Seq::<T>::empty()) =~= Seq::<T::V>::empty());
}

pub broadcast proof fn views_update<T: View>(s: Seq<T>, i: int, x: T)
    requires
        0 <= i < s.len(),
    ensures
        #[trigger] views(s.update(i, x)) == views(s).update(i, x@),
{
    assert(views(s.update(i, x)) =~= views(s).update(i, x@));
}

pub broadcast group group_views {
    views_push,
    views_empty,
    views_update,
}

/// A function signature.
#[derive(Clone, Copy)]
pub struct FuncTypeDef {
    pub param_count: u8,
    pub params: [ValType; MAX_PARAMS],
    pub result_count: u8,
    pub results: [ValType; MAX_RESULTS],
}

/// Model of [`FuncTypeDef`].
#[verifier::ext_equal]
pub struct FuncType {
    pub params: Seq<ValType>,
    pub results: Seq<ValType>,
}

impl View for FuncTypeDef {
    type V = FuncType;

    open spec fn view(&self) -> FuncType {
        FuncType {
            params: self.params@.take(self.param_count as int),
            results: self.results@.take(self.result_count as int),
        }
    }
}

impl FuncTypeDef {
    /// The counts stay within the arrays.
    pub open spec fn wf(self) -> bool {
        self.param_count <= MAX_PARAMS && self.result_count <= MAX_RESULTS
    }

    /// The signature without parameters and results.
    pub fn empty() -> (r: Self)
        ensures
            r.wf(),
            r@ == (FuncType { params: Seq::empty(), results: Seq::empty() }),
            r.params@ == Seq::new(MAX_PARAMS as nat, |i: int| ValType::I32),
            r.results@ == Seq::new(MAX_RESULTS as nat, |i: int| ValType::I32),
    {
        let r = FuncTypeDef {
            param_count: 0,
            params: [ValType::I32; MAX_PARAMS],
            result_count: 0,
            results: [ValType::I32; MAX_RESULTS],
        };
        assert(r.params@ =~= Seq::new(MAX_PARAMS as nat, |i: int| ValType::I32));
        assert(r.results@ =~= Seq::new(MAX_RESULTS as nat, |i: int| ValType::I32));
        assert(r@ =~= (FuncType { params: Seq::empty(), results: Seq::empty() }));
        r
    }
}

/// A function body.
pub struct FuncDef {
    pub type_idx: u32,
    pub code_offset: usize,
    pub code_len: usize,
    pub local_count: u16,
    pub locals: [ValType; MAX_LOCALS],
    /// Which declared locals are of a non-nullable reference type.
    pub non_nullable_locals: Vec<bool>,
}

/// Model of [`FuncDef`].
#[verifier::ext_equal]
pub struct Func {
    pub type_idx: u32,
    pub code_offset: usize,
    pub code_len: usize,
    pub local_count: u16,
    pub locals: Seq<ValType>,
    pub non_nullable_locals: Seq<bool>,
}

impl View for FuncDef {
    type V = Func;

    open spec fn view(&self) -> Func {
        Func {
            type_idx: self.type_idx,
            code_offset: self.code_offset,
            code_len: self.code_len,
            local_count: self.local_count,
            locals: self.locals@,
            non_nullable_locals: self.non_nullable_locals@,
        }
    }
}

impl Clone for FuncDef {
    fn clone(&self) -> (r: Self)
        ensures
            r@ == self@,
    {
        FuncDef {
            type_idx: self.type_idx,
            code_offset: self.code_offset,
            code_len: self.code_len,
            local_count: self.local_count,
            locals: self.locals,
            non_nullable_locals: copied(&self.non_nullable_locals),
        }
    }
}

impl Func {
    /// The body with no code and no locals.
    pub open spec fn none() -> Func {
        Func {
            type_idx: 0,
            code_offset: 0,
            code_len: 0,
            local_count: 0,
            locals: Seq::new(MAX_LOCALS as nat, |i: int| ValType::I32),
            non_nullable_locals: Seq::empty(),
        }
    }
}

impl FuncDef {
    /// The locals fit in the array, and the code lies within the first `len` code
    /// bytes.
    pub open spec fn within(self, len: int) -> bool {
        self.local_count <= MAX_LOCALS && self.code_offset + self.code_len <= len
    }

    /// The body with no code and no locals.
    pub fn empty() -> (r: Self)
        ensures
            r@ == Func::none(),
            r.within(0),
    {
        let r = FuncDef {
            type_idx: 0,
            code_offset: 0,
            code_len: 0,
            local_count: 0,
            locals: [ValType::I32; MAX_LOCALS],
            non_nullable_locals: Vec::new(),
        };
        assert(r@ =~= Func::none());
        r
    }
}

/// What an import brings in.
#[derive(Debug, Clone, Copy, PartialEq, Eq)]
pub enum ImportKind {
    /// A function, with its type index.
    Func(u32),
    /// A table, with its element type.
    Table(ValType),
    Memory,
    /// A global: value-type byte, mutability, heap type of a reference.
    Global(u8, bool, Option<i32>),
    /// An exception tag, with its type index.
    Tag(u32),
}

/// An import. The names are ranges of the module's name bytes.
#[derive(Debug, Clone, Copy, PartialEq, Eq)]
pub struct ImportDef {
    pub module_name_offset: usize,
    pub module_name_len: usize,
    pub field_name_offset: usize,
    pub field_name_len: usize,
    pub kind: ImportKind,
}

impl ImportDef {
    pub fn empty() -> (r: Self)
        ensures
            r == (ImportDef {
                module_name_offset: 0,
                module_name_len: 0,
                field_name_offset: 0,
                field_name_len: 0,
                kind: ImportKind::Func(0),
            }),
    {
        ImportDef {
            module_name_offset: 0,
            module_name_len: 0,
            field_name_offset: 0,
            field_name_len: 0,
            kind: ImportKind::Func(0),
        }
    }
}

/// What an export makes visible.
#[derive(Debug, Clone, Copy, PartialEq, Eq)]
pub enum ExportKind {
    Func(u32),
    Table(u32),
    Memory(u32),
    Global(u32),
    Tag(u32),
}

/// An export. The name is a range of the module's name bytes.
#[derive(Debug, Clone, Copy, PartialEq, Eq)]
pub struct ExportDef {
    pub name_offset: usize,
    pub name_len: usize,
    pub kind: ExportKind,
}

impl ExportDef {
    pub fn empty() -> (r: Self)
        ensures
            r == (ExportDef { name_offset: 0, name_len: 0, kind: ExportKind::Func(0) }),
    {
        ExportDef { name_offset: 0, name_len: 0, kind: ExportKind::Func(0) }
    }
}

/// A global variable.
pub struct GlobalDef {
    pub val_type: ValType,
    pub mutable: bool,
    pub init_value: Value,
    /// The global that the initializer reads, if it reads one.
    pub init_global_ref: Option<u32>,
    /// The type that the initializer produces.
    pub init_expr_type: Option<ValType>,
    /// How many values the initializer leaves.
    pub init_expr_stack_depth: u32,
    /// The function that the initializer refers to, if any.
    pub init_func_ref: Option<u32>,
    /// The initializer's bytes, for evaluation once the heap exists.
    pub init_expr_bytes: Vec<u8>,
    /// Heap type of a reference: negative for an abstract one, else a type index.
    pub heap_type: Option<i32>,
    /// Whether the initializer holds an instruction that is not constant.
    pub has_non_const: bool,
}

/// Model of [`GlobalDef`].
#[verifier::ext_equal]
pub struct Global {
    pub val_type: ValType,
    pub mutable: bool,
    pub init_value: Value,
    pub init_global_ref: Option<u32>,
    pub init_expr_type: Option<ValType>,
    pub init_expr_stack_depth: u32,
    pub init_func_ref: Option<u32>,
    pub init_expr_bytes: Seq<u8>,
    pub heap_type: Option<i32>,
    pub has_non_const: bool,
}

impl View for GlobalDef {
    type V = Global;

    open spec fn view(&self) -> Global {
        Global {
            val_type: self.val_type,
            mutable: self.mutable,
            init_value: self.init_value,
            init_global_ref: self.init_global_ref,
            init_expr_type: self.init_expr_type,
            init_expr_stack_depth: self.init_expr_stack_depth,
            init_func_ref: self.init_func_ref,
            init_expr_bytes: self.init_expr_bytes@,
            heap_type: self.heap_type,
            has_non_const: self.has_non_const,
        }
    }
}

impl Clone for GlobalDef {
    fn clone(&self) -> (r: Self)
        ensures
            r@ == self@,
    {
        GlobalDef {
            val_type: self.val_type,
            mutable: self.mutable,
            init_value: self.init_value,
            init_global_ref: self.init_global_ref,
            init_expr_type: self.init_expr_type,
            init_expr_stack_depth: self.init_expr_stack_depth,
            init_func_ref: self.init_func_ref,
            init_expr_bytes: copied(&self.init_expr_bytes),
            heap_type: self.heap_type,
            has_non_const: self.has_non_const,
        }
    }
}

/// A table.
pub struct TableDef {
    pub min: u32,
    pub max: Option<u32>,
    pub elem_type: ValType,
    /// Whether indices are 64 bits wide.
    pub is_table64: bool,
    /// Initializer of every slot, if the table has one.
    pub init_expr_bytes: Option<Vec<u8>>,
    /// Whether the element type excludes null.
    pub is_non_nullable: bool,
}

/// Model of [`TableDef`].
#[verifier::ext_equal]
pub struct Table {
    pub min: u32,
    pub max: Option<u32>,
    pub elem_type: ValType,
    pub is_table64: bool,
    pub init_expr_bytes: Option<Seq<u8>>,
    pub is_non_nullable: bool,
}

impl View for TableDef {
    type V = Table;

    open spec fn view(&self) -> Table {
        Table {
            min: self.min,
            max: self.max,
            elem_type: self.elem_type,
            is_table64: self.is_table64,
            init_expr_bytes: match self.init_expr_bytes {
                Some(v) => Some(v@),
                None => None,
            },
            is_non_nullable: self.is_non_nullable,
        }
    }
}

impl Clone for TableDef {
    fn clone(&self) -> (r: Self)
        ensures
            r@ == self@,
    {
        TableDef {
            min: self.min,
            max: self.max,
            elem_type: self.elem_type,
            is_table64: self.is_table64,
            init_expr_bytes: match &self.init_expr_bytes {
                Some(v) => Some(copied(v)),
                None => None,
            },
            is_non_nullable: self.is_non_nullable,
        }
    }
}

/// A linear memory, imported or defined.
#[derive(Debug, Clone, Copy, PartialEq, Eq)]
pub struct MemoryDef {
    pub min_pages: u32,
    pub max_pages: u32,
    pub has_max: bool,
    pub is_memory64: bool,
    pub is_shared: bool,
    pub page_size_log2: Option<u32>,
}

impl MemoryDef {
    /// The page size is below two to the 64.
    pub open spec fn wf(self) -> bool {
        self.page_size_log2 matches Some(l) ==> l < 64
    }
}

/// What scanning an initializer finds out for validation.
#[derive(Debug, Clone, Copy, PartialEq, Eq)]
pub struct InitExprInfo {
    /// The highest global index read.
    pub global_ref: Option<u32>,
    /// The type of the result, where it can be told.
    pub result_type: Option<ValType>,
    /// How many values are left.
    pub stack_depth: u32,
    /// Whether an instruction is not constant.
    pub has_non_const: bool,
    /// Whether a mutable global is read. A scan does not know the globals and leaves it
    /// unset.
    pub has_mutable_global: bool,
    /// The first function referred to.
    pub func_ref: Option<u32>,
}

impl InitExprInfo {
    /// The information about an initializer of which nothing has been read.
    pub open spec fn nothing() -> InitExprInfo {
        InitExprInfo {
            global_ref: None,
            result_type: None,
            stack_depth: 0,
            has_non_const: false,
            has_mutable_global: false,
            func_ref: None,
        }
    }
}

impl Default for InitExprInfo {
    fn default() -> (r: Self)
        ensures
            r == InitExprInfo::nothing(),
    {
        InitExprInfo {
            global_ref: None,
            result_type: None,
            stack_depth: 0,
            has_non_const: false,
            has_mutable_global: false,
            func_ref: None,
        }
    }
}

/// A data segment. Its bytes are a range of the module's code bytes.
#[derive(Debug, Clone, Copy, PartialEq, Eq)]
pub struct DataSegment {
    pub memory_idx: u32,
    pub offset: u32,
    pub is_active: bool,
    pub data_offset: usize,
    pub data_len: usize,
    pub offset_expr_info: InitExprInfo,
    /// Range of the offset initializer in the binary.
    pub offset_expr_range: (usize, usize),
}

impl DataSegment {
    /// The bytes lie within the first `len` code bytes.
    pub open spec fn within(self, len: int) -> bool {
        self.data_offset + self.data_len <= len
    }
}

/// When an element segment is used.
#[derive(Debug, Clone, Copy, PartialEq, Eq, Structural)]
pub enum ElemMode {
    Active,
    Passive,
    Declarative,
}

/// An element segment.
pub struct ElementSegment {
    pub table_idx: u32,
    pub offset: u32,
    pub func_indices: Vec<u32>,
    pub mode: ElemMode,
    pub elem_type: ValType,
    pub offset_expr_info: InitExprInfo,
    /// Of each item that is an expression, what scanning it found.
    pub item_expr_infos: Vec<InitExprInfo>,
    /// Range of the offset initializer in the binary.
    pub offset_expr_range: (usize, usize),
    /// Of each item that is an expression, its bytes.
    pub item_expr_bytes: Vec<Vec<u8>>,
}

/// Model of [`ElementSegment`].
#[verifier::ext_equal]
pub struct Element {
    pub table_idx: u32,
    pub offset: u32,
    pub func_indices: Seq<u32>,
    pub mode: ElemMode,
    pub elem_type: ValType,
    pub offset_expr_info: InitExprInfo,
    pub item_expr_infos: Seq<InitExprInfo>,
    pub offset_expr_range: (usize, usize),
    pub item_expr_bytes: Seq<Seq<u8>>,
}

impl View for ElementSegment {
    type V = Element;

    open spec fn view(&self) -> Element {
        Element {
            table_idx: self.table_idx,
            offset: self.offset,
            func_indices: self.func_indices@,
            mode: self.mode,
            elem_type: self.elem_type,
            offset_expr_info: self.offset_expr_info,
            item_expr_infos: self.item_expr_infos@,
            offset_expr_range: self.offset_expr_range,
            item_expr_bytes: views(self.item_expr_bytes@),
        }
    }
}

/// A copy of a list of lists of bytes.
fn copied_lists(lists: &Vec<Vec<u8>>) -> (r: Vec<Vec<u8>>)
    ensures
        views(r@) == views(lists@),
{
    let mut r: Vec<Vec<u8>> = Vec::new();
    while r.len() < lists.len()
        invariant
            r@.len() <= lists@.len(),
            forall|i: int| 0 <= i < r@.len() ==> (#[trigger] r@[i])@ == lists@[i]@,
        decreases lists@.len() - r@.len(),
    {
        r.push(copied(&lists[r.len()]));
    }
    assert(views(r@) =~= views(lists@));
    r
}

impl Clone for ElementSegment {
    fn clone(&self) -> (r: Self)
        ensures
            r@ == self@,
    {
        ElementSegment {
            table_idx: self.table_idx,
            offset: self.offset,
            func_indices: copied(&self.func_indices),
            mode: self.mode,
            elem_type: self.elem_type,
            offset_expr_info: self.offset_expr_info,
            item_expr_infos: copied(&self.item_expr_infos),
            offset_expr_range: self.offset_expr_range,
            item_expr_bytes: copied_lists(&self.item_expr_bytes),
        }
    }
}

/// A decoded module.
pub struct WasmModule {
    pub func_types: Vec<FuncTypeDef>,
    pub functions: Vec<FuncDef>,
    pub imports: Vec<ImportDef>,
    pub exports: Vec<ExportDef>,
    pub globals: Vec<GlobalDef>,
    pub tables: Vec<TableDef>,
    pub memories: Vec<MemoryDef>,
    pub data_segments: Vec<DataSegment>,
    pub element_segments: Vec<ElementSegment>,
    pub start_func: Option<u32>,
    pub has_memory: bool,
    pub has_memory_max: bool,
    pub memory_count: u32,
    pub memory_min_pages: u32,
    pub memory_max_pages: u32,
    /// Whether the first memory is addressed with 64 bits.
    pub is_memory64: bool,
    /// Custom page size of the first memory.
    pub page_size_log2: Option<u32>,
    pub gc_enabled: bool,
    /// Whether a type outside any recursion group forms one of its own.
    pub implicit_rec_enabled: bool,
    pub multi_memory_enabled: bool,
    pub reject_multi_table: bool,
    /// Value of the data-count section, where there is one.
    pub data_count: Option<u32>,
    /// Whether the code drops or copies data segments.
    pub code_uses_data_count: bool,
    /// Type index of each exception tag.
    pub tag_types: Vec<u32>,
    /// Composite types, one for each type index.
    pub gc_types: Vec<GcTypeDef>,
    /// Subtype information, one for each type index.
    pub sub_types: Vec<SubTypeInfo>,
    /// Whether a type outside a recursion group refers to itself.
    pub has_self_ref_types: bool,
    /// Function bodies and data bytes.
    pub code: Vec<u8>,
    /// Import and export names.
    pub names: Vec<u8>,
}

/// Model of [`WasmModule`].
#[verifier::ext_equal]
pub struct Module {
    pub func_types: Seq<FuncType>,
    pub functions: Seq<Func>,
    pub imports: Seq<ImportDef>,
    pub exports: Seq<ExportDef>,
    pub globals: Seq<Global>,
    pub tables: Seq<Table>,
    pub memories: Seq<MemoryDef>,
    pub data_segments: Seq<DataSegment>,
    pub element_segments: Seq<Element>,
    pub start_func: Option<u32>,
    pub has_memory: bool,
    pub has_memory_max: bool,
    pub memory_count: u32,
    pub memory_min_pages: u32,
    pub memory_max_pages: u32,
    pub is_memory64: bool,
    pub page_size_log2: Option<u32>,
    pub gc_enabled: bool,
    pub implicit_rec_enabled: bool,
    pub multi_memory_enabled: bool,
    pub reject_multi_table: bool,
    pub data_count: Option<u32>,
    pub code_uses_data_count: bool,
    pub tag_types: Seq<u32>,
    pub gc_types: Seq<GcType>,
    pub sub_types: Seq<SubTypeInfo>,
    pub has_self_ref_types: bool,
    pub code: Seq<u8>,
    pub names: Seq<u8>,
}

impl View for WasmModule {
    type V = Module;

    open spec fn view(&self) -> Module {
        Module {
            func_types: views(self.func_types@),
            functions: views(self.functions@),
            imports: self.imports@,
            exports: self.exports@,
            globals: views(self.globals@),
            tables: views(self.tables@),
            memories: self.memories@,
            data_segments: self.data_segments@,
            element_segments: views(self.element_segments@),
            start_func: self.start_func,
            has_memory: self.has_memory,
            has_memory_max: self.has_memory_max,
            memory_count: self.memory_count,
            memory_min_pages: self.memory_min_pages,
            memory_max_pages: self.memory_max_pages,
            is_memory64: self.is_memory64,
            page_size_log2: self.page_size_log2,
            gc_enabled: self.gc_enabled,
            implicit_rec_enabled: self.implicit_rec_enabled,
            multi_memory_enabled: self.multi_memory_enabled,
            reject_multi_table: self.reject_multi_table,
            data_count: self.data_count,
            code_uses_data_count: self.code_uses_data_count,
            tag_types: self.tag_types@,
            gc_types: views(self.gc_types@),
            sub_types: self.sub_types@,
            has_self_ref_types: self.has_self_ref_types,
            code: self.code@,
            names: self.names@,
        }
    }
}

impl WasmModule {
    /// Every signature and function stays within its arrays, page sizes can be
    /// shifted to, and functions and data segments lie within the code bytes.
    pub open spec fn wf(self) -> bool {
        &&& forall|i: int| 0 <= i < self.func_types@.len() ==> (#[trigger] self.func_types@[i]).wf()
        &&& forall|i: int|
            0 <= i < self.functions@.len() ==> (#[trigger] self.functions@[i]).within(self.code@.len() as int)
        &&& forall|i: int| 0 <= i < self.memories@.len() ==> (#[trigger] self.memories@[i]).wf()
        &&& forall|i: int|
            0 <= i < self.data_segments@.len() ==> (#[trigger] self.data_segments@[i]).within(self.code@.len() as int)
    }

    /// Each type index has a signature, a composite type and subtype information.
    pub open spec fn aligned(self) -> bool {
        &&& self.gc_types@.len() == self.func_types@.len()
        &&& self.sub_types@.len() == self.func_types@.len()
    }

    /// What holds of every decoded module.
    pub open spec fn complete(self) -> bool {
        self.wf() && self.aligned()
    }
}

impl WasmModule {
    /// Whether every signature stays within its arrays, and every page size can be
    /// shifted to.
    fn types_fit(&self) -> (r: bool)
        ensures
            r == ((forall|i: int| 0 <= i < self.func_types@.len() ==> (#[trigger] self.func_types@[i]).wf())
                && forall|i: int| 0 <= i < self.memories@.len() ==> (#[trigger] self.memories@[i]).wf()),
    {
        let mut i: usize = 0;
        while i < self.func_types.len()
            invariant
                i <= self.func_types@.len(),
                forall|k: int| 0 <= k < i ==> (#[trigger] self.func_types@[k]).wf(),
            decreases self.func_types@.len() - i,
        {
            let t = &self.func_types[i];
            if t.param_count as usize > MAX_PARAMS || t.result_count as usize > MAX_RESULTS {
                assert(!self.func_types@[i as int].wf());
                return false;
            }
            i = i + 1;
        }
        let mut j: usize = 0;
        while j < self.memories.len()
            invariant
                j <= self.memories@.len(),
                forall|k: int| 0 <= k < j ==> (#[trigger] self.memories@[k]).wf(),
            decreases self.memories@.len() - j,
        {
            if let Some(l) = self.memories[j].page_size_log2 {
                if l >= 64 {
                    assert(!self.memories@[j as int].wf());
                    return false;
                }
            }
            j = j + 1;
        }
        true
    }

    /// Whether every function stays within its array, and functions and data segments
    /// lie within the code bytes.
    fn code_fits(&self) -> (r: bool)
        ensures
            r == ((forall|i: int|
                0 <= i < self.functions@.len() ==> (#[trigger] self.functions@[i]).within(self.code@.len() as int))
                && forall|i: int|
                0 <= i < self.data_segments@.len() ==> (#[trigger] self.data_segments@[i]).within(
                    self.code@.len() as int,
                )),
    {
        let len: usize = self.code.len();
        let mut i: usize = 0;
        while i < self.functions.len()
            invariant
                i <= self.functions@.len(),
                len == self.code@.len(),
                forall|k: int| 0 <= k < i ==> (#[trigger] self.functions@[k]).within(len as int),
            decreases self.functions@.len() - i,
        {
            let f = &self.functions[i];
            if f.local_count as usize > MAX_LOCALS || f.code_offset > len || f.code_len > len - f.code_offset {
                assert(!self.functions@[i as int].within(len as int));
                return false;
            }
            i = i + 1;
        }
        let mut j: usize = 0;
        while j < self.data_segments.len()
            invariant
                j <= self.data_segments@.len(),
                len == self.code@.len(),
                forall|k: int| 0 <= k < j ==> (#[trigger] self.data_segments@[k]).within(len as int),
            decreases self.data_segments@.len() - j,
        {
            let d = &self.data_segments[j];
            if d.data_offset > len || d.data_len > len - d.data_offset {
                assert(!self.data_segments@[j as int].within(len as int));
                return false;
            }
            j = j + 1;
        }
        true
    }

    /// Whether the module is well-formed, as every decoded module is.
    pub fn well_formed(&self) -> (r: bool)
        ensures
            r == self.wf(),
    {
        self.types_fit() && self.code_fits()
    }
}

impl Module {
    /// Each type index has a signature, a composite type and subtype information.
    pub open spec fn aligned(self) -> bool {
        &&& self.gc_types.len() == self.func_types.len()
        &&& self.sub_types.len() == self.func_types.len()
    }

    /// The module that nothing has been read into.
    pub open spec fn none() -> Module {
        Module {
            func_types: Seq::empty(),
            functions: Seq::empty(),
            imports: Seq::empty(),
            exports: Seq::empty(),
            globals: Seq::empty(),
            tables: Seq::empty(),
            memories: Seq::empty(),
            data_segments: Seq::empty(),
            element_segments: Seq::empty(),
            start_func: None,
            has_memory: false,
            has_memory_max: false,
            memory_count: 0,
            memory_min_pages: 0,
            memory_max_pages: 0,
            is_memory64: false,
            page_size_log2: None,
            gc_enabled: false,
            implicit_rec_enabled: false,
            multi_memory_enabled: false,
            reject_multi_table: false,
            data_count: None,
            code_uses_data_count: false,
            tag_types: Seq::empty(),
            gc_types: Seq::empty(),
            sub_types: Seq::empty(),
            has_self_ref_types: false,
            code: Seq::empty(),
            names: Seq::empty(),
        }
    }

    /// The bytes of the name at `offset`, cut to the end of the name bytes.
    pub open spec fn name(self, offset: int, len: int) -> Seq<u8> {
        let end = if offset + len <= self.names.len() {
            offset + len
        } else {
            self.names.len() as int
        };
        let start = if offset <= end {
            offset
        } else {
            end
        };
        self.names.subrange(start, end)
    }

    /// The function imports' type indices, in order.
    pub open spec fn imported_funcs(self) -> Seq<u32> {
        imported_func_types(self.imports)
    }
}

/// The type indices of the function imports among `imports`, in order.
pub open spec fn imported_func_types(imports: Seq<ImportDef>) -> Seq<u32>
    decreases imports.len(),
{
    if imports.len() == 0 {
        Seq::empty()
    } else {
        let rest = imported_func_types(imports.drop_last());
        match imports.last().kind {
            ImportKind::Func(ti) => rest.push(ti),
            _ => rest,
        }
    }
}

/// The function that the first of `exports[from..]` with this name exports.
pub open spec fn exported_func(m: Module, name: Seq<u8>, from: int) -> Option<u32>
    decreases m.exports.len() - from,
{
    if from >= m.exports.len() {
        None
    } else {
        let e = m.exports[from];
        match e.kind {
            ExportKind::Func(idx) if m.name(e.name_offset as int, e.name_len as int) == name => Some(idx),
            _ => exported_func(m, name, from + 1),
        }
    }
}

/// The functions among the first imports come first among all imported functions.
pub proof fn imported_prefix(imports: Seq<ImportDef>, i: int)
    requires
        0 <= i <= imports.len(),
    ensures
        imported_func_types(imports.take(i)).len() <= i,
        imported_func_types(imports.take(i)).is_prefix_of(imported_func_types(imports)),
    decreases imports.len() - i,
{
    if i < imports.len() {
        imported_prefix(imports, i + 1);
        assert(imports.take(i + 1).drop_last() =~= imports.take(i));
        assert(imported_func_types(imports.take(i)).is_prefix_of(imported_func_types(imports.take(i + 1))));
        imported_at_most(imports.take(i));
    } else {
        assert(imports.take(i) =~= imports);
        imported_at_most(imports);
    }
}

/// No more functions are imported than there are imports.
pub proof fn imported_at_most(imports: Seq<ImportDef>)
    ensures
        imported_func_types(imports).len() <= imports.len(),
    decreases imports.len(),
{
    if imports.len() > 0 {
        imported_at_most(imports.drop_last());
    }
}

/// Compares two byte strings.
pub fn bytes_equal(a: &[u8], b: &[u8]) -> (r: bool)
    ensures
        r == (a@ == b@),
{
    if a.len() != b.len() {
        return false;
    }
    let mut i: usize = 0;
    while i < a.len()
        invariant
            a@.len() == b@.len(),
            i <= a@.len(),
            forall|j: int| 0 <= j < i ==> a@[j] == b@[j],
        decreases a@.len() - i,
    {
        if a[i] != b[i] {
            return false;
        }
        i = i + 1;
    }
    assert(a@ =~= b@);
    true
}

impl WasmModule {
    /// A module that nothing has been read into.
    pub fn new() -> (r: Self)
        ensures
            r@ == Module::none(),
            r.complete(),
    {
        broadcast use group_views;

        let r = WasmModule {
            func_types: Vec::new(),
            functions: Vec::new(),
            imports: Vec::new(),
            exports: Vec::new(),
            globals: Vec::new(),
            tables: Vec::new(),
            memories: Vec::new(),
            data_segments: Vec::new(),
            element_segments: Vec::new(),
            start_func: None,
            has_memory: false,
            has_memory_max: false,
            memory_count: 0,
            memory_min_pages: 0,
            memory_max_pages: 0,
            is_memory64: false,
            page_size_log2: None,
            gc_enabled: false,
            implicit_rec_enabled: false,
            multi_memory_enabled: false,
            reject_multi_table: false,
            data_count: None,
            code_uses_data_count: false,
            tag_types: Vec::new(),
            gc_types: Vec::new(),
            sub_types: Vec::new(),
            has_self_ref_types: false,
            code: Vec::new(),
            names: Vec::new(),
        };
        r
    }

    /// The bytes of the name at `offset`, cut to the end of the name bytes.
    pub fn get_name(&self, offset: usize, len: usize) -> (r: &[u8])
        ensures
            r@ == self@.name(offset as int, len as int),
    {
        let total: usize = self.names.len();
        let end: usize = if offset <= total && len <= total - offset {
            offset + len
        } else {
            total
        };
        let start: usize = if offset <= end {
            offset
        } else {
            end
        };
        vstd::slice::slice_subrange(self.names.as_slice(), start, end)
    }

    /// The number of function imports.
    pub fn func_import_count(&self) -> (r: usize)
        ensures
            r == self@.imported_funcs().len(),
    {
        let mut count: usize = 0;
        let mut i: usize = 0;
        while i < self.imports.len()
            invariant
                i <= self.imports@.len(),
                count == imported_func_types(self.imports@.take(i as int)).len(),
                count <= i,
            decreases self.imports@.len() - i,
        {
            assert(self.imports@.take(i + 1).drop_last() =~= self.imports@.take(i as int));
            match self.imports[i].kind {
                ImportKind::Func(_) => {
                    count = count + 1;
                },
                _ => {},
            }
            i = i + 1;
        }
        assert(self.imports@.take(i as int) =~= self.imports@);
        count
    }

    /// The type index of the function import numbered `func_idx`.
    pub fn func_import_type(&self, func_idx: u32) -> (r: Option<u32>)
        ensures
            r == if func_idx < self@.imported_funcs().len() {
                Some(self@.imported_funcs()[func_idx as int])
            } else {
                None
            },
    {
        let mut count: u32 = 0;
        let mut i: usize = 0;
        while i < self.imports.len()
            invariant
                i <= self.imports@.len(),
                count == imported_func_types(self.imports@.take(i as int)).len(),
                count <= func_idx,
            decreases self.imports@.len() - i,
        {
            proof {
                assert(self.imports@.take(i + 1).drop_last() =~= self.imports@.take(i as int));
                imported_prefix(self.imports@, i + 1);
            }
            match self.imports[i].kind {
                ImportKind::Func(ti) => {
                    if count == func_idx {
                        proof {
                            let upto = imported_func_types(self.imports@.take(i + 1));
                            let all = imported_func_types(self.imports@);
                            assert(upto[count as int] == ti);
                            assert(upto == all.subrange(0, upto.len() as int));
                        }
                        return Some(ti);
                    }
                    count = count + 1;
                },
                _ => {},
            }
            i = i + 1;
        }
        assert(self.imports@.take(i as int) =~= self.imports@);
        None
    }

    /// The function exported under `name`.
    pub fn find_export_func(&self, name: &[u8]) -> (r: Option<u32>)
        ensures
            r == exported_func(self@, name@, 0),
    {
        let mut i: usize = 0;
        while i < self.exports.len()
            invariant
                i <= self.exports@.len(),
                exported_func(self@, name@, 0) == exported_func(self@, name@, i as int),
            decreases self.exports@.len() - i,
        {
            let e = self.exports[i];
            match e.kind {
                ExportKind::Func(idx) => {
                    let own = self.get_name(e.name_offset, e.name_len);
                    if bytes_equal(own, name) {
                        return Some(idx);
                    }
                },
                _ => {},
            }
            i = i + 1;
        }
        None
    }
}

} // verus!
