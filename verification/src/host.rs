//! The functions that a host offers, and how calls of them are answered.

use vstd::prelude::*;
use vstd::utf8::encode_utf8;
use crate::instance::{nth_function_import, nth_import};
use crate::machine::{Done, Machine, WasmInstance};
use crate::module::{bytes_equal, ImportDef, Module, WasmModule};
use crate::types::{Value, WasmError};

verus! {

/// A host function.
#[derive(Debug, Clone, Copy, PartialEq, Eq, Structural)]
pub enum HostFunc {
    SysYield,
    SysSend,
    SysRecv,
    SysExit,
    SysEnergyGet,
    Log,
    Unknown,
}

/// The host function with a name in a module of host functions.
pub open spec fn host_func(module: Seq<u8>, field: Seq<u8>) -> HostFunc {
    if module != encode_utf8("atos"@) {
        HostFunc::Unknown
    } else if field == encode_utf8("sys_yield"@) {
        HostFunc::SysYield
    } else if field == encode_utf8("sys_send"@) {
        HostFunc::SysSend
    } else if field == encode_utf8("sys_recv"@) {
        HostFunc::SysRecv
    } else if field == encode_utf8("sys_exit"@) {
        HostFunc::SysExit
    } else if field == encode_utf8("sys_energy_get"@) {
        HostFunc::SysEnergyGet
    } else if field == encode_utf8("log"@) {
        HostFunc::Log
    } else {
        HostFunc::Unknown
    }
}

/// The host function that an import of a function stands for.
pub open spec fn resolved(m: Module, f: u32) -> HostFunc {
    match nth_import(m.imports, 0, f as int) {
        None => HostFunc::Unknown,
        Some(d) => host_func(
            m.name(d.module_name_offset as int, d.module_name_len as int),
            m.name(d.field_name_offset as int, d.field_name_len as int),
        ),
    }
}

/// The host function that the function import numbered `func_idx` stands for.
pub fn resolve_import(module: &WasmModule, func_idx: u32) -> (r: HostFunc)
    ensures
        r == resolved(module@, func_idx),
{
    let imp = match nth_function_import(module, func_idx) {
        Some(d) => *d,
        None => {
            return HostFunc::Unknown;
        },
    };
    let from = module.get_name(imp.module_name_offset, imp.module_name_len);
    let field = module.get_name(imp.field_name_offset, imp.field_name_len);
    if !bytes_equal(from, "atos".as_bytes()) {
        HostFunc::Unknown
    } else if bytes_equal(field, "sys_yield".as_bytes()) {
        HostFunc::SysYield
    } else if bytes_equal(field, "sys_send".as_bytes()) {
        HostFunc::SysSend
    } else if bytes_equal(field, "sys_recv".as_bytes()) {
        HostFunc::SysRecv
    } else if bytes_equal(field, "sys_exit".as_bytes()) {
        HostFunc::SysExit
    } else if bytes_equal(field, "sys_energy_get".as_bytes()) {
        HostFunc::SysEnergyGet
    } else if bytes_equal(field, "log".as_bytes()) {
        HostFunc::Log
    } else {
        HostFunc::Unknown
    }
}

/// How many arguments a host function reads.
pub open spec fn arity(f: HostFunc) -> int {
    match f {
        HostFunc::SysSend | HostFunc::SysRecv => 3,
        HostFunc::SysExit => 1,
        HostFunc::Log => 2,
        _ => 0,
    }
}

/// Whether a call can be answered: it has the arguments that its function reads, and
/// where these name bytes to be read, even none, there is a memory.
pub open spec fn answerable(m: Machine, import_idx: u32, args: Seq<Value>) -> bool {
    let f = resolved(m.store.module, import_idx);
    &&& args.len() >= arity(f)
    &&& f == HostFunc::SysSend && in_memory(m, args[1], args[2]) ==> m.store.memories.len() > 0
    &&& f == HostFunc::Log && in_memory(m, args[0], args[1]) ==> m.store.memories.len() > 0
}

/// Whether `len` bytes at `ptr` lie in the first memory.
pub open spec fn in_memory(m: Machine, ptr: Value, len: Value) -> bool {
    let p = ptr.i32_or_zero();
    let n = len.i32_or_zero();
    0 <= p && 0 <= n && p + n <= m.store.mem_size(0)
}

/// The answer where bytes have to lie in the first memory.
pub open spec fn answered_in_memory(m: Machine, ptr: Value, len: Value, answer: Option<Value>) -> Done<Option<Value>> {
    if in_memory(m, ptr, len) {
        (m, Ok(answer))
    } else {
        (m, Err(WasmError::MemoryOutOfBounds))
    }
}

/// The answer to a call of a host function.
pub open spec fn answered(m: Machine, import_idx: u32, args: Seq<Value>) -> Done<Option<Value>> {
    match resolved(m.store.module, import_idx) {
        HostFunc::SysYield => (m, Ok(Some(Value::I32(0)))),
        HostFunc::SysSend | HostFunc::SysRecv => answered_in_memory(m, args[1], args[2], Some(Value::I32(0))),
        HostFunc::SysExit => (Machine { finished: true, ..m }, Ok(Some(Value::I32(args[0].i32_or_zero())))),
        HostFunc::SysEnergyGet => (m, Ok(Some(Value::I64(m.fuel as i64)))),
        HostFunc::Log => answered_in_memory(m, args[0], args[1], None),
        HostFunc::Unknown => (m, Err(WasmError::ImportNotFound(import_idx))),
    }
}

/// Whether `len` bytes at `ptr` lie in the first memory.
fn lies_in_memory(instance: &WasmInstance, ptr: Value, len: Value) -> (r: bool)
    requires
        instance.wf(),
    ensures
        r == in_memory(instance@, ptr, len),
{
    let p: i32 = ptr.as_i32();
    let n: i32 = len.as_i32();
    if p < 0 || n < 0 {
        return false;
    }
    let size: usize = instance.mem_size(0);
    p as usize <= size && n as usize <= size - p as usize
}

/// Answers a call of a host function, as far as the host itself has nothing to do: it
/// checks that the bytes concerned lie in memory, and gives the result. A call of an
/// unknown function fails.
pub fn handle_host_call(instance: &mut WasmInstance, import_idx: u32, args: &[Value], _arg_count: u8) -> (r: Result<
    Option<Value>,
    WasmError,
>)
    requires
        old(instance).wf(),
        answerable(old(instance)@, import_idx, args@),
    ensures
        (final(instance)@, r) == answered(old(instance)@, import_idx, args@),
        final(instance).wf(),
{
    match resolve_import(&instance.module, import_idx) {
        HostFunc::SysYield => Ok(Some(Value::I32(0))),
        HostFunc::SysSend | HostFunc::SysRecv => if lies_in_memory(instance, args[1], args[2]) {
            Ok(Some(Value::I32(0)))
        } else {
            Err(WasmError::MemoryOutOfBounds)
        },
        HostFunc::SysExit => {
            instance.set_finished(true);
            Ok(Some(Value::I32(args[0].as_i32())))
        },
        HostFunc::SysEnergyGet => Ok(Some(Value::I64(instance.get_fuel() as i64))),
        HostFunc::Log => if lies_in_memory(instance, args[0], args[1]) {
            Ok(None)
        } else {
            Err(WasmError::MemoryOutOfBounds)
        },
        HostFunc::Unknown => Err(WasmError::ImportNotFound(import_idx)),
    }
}

/// Answering a call changes nothing of the instance but whether it has finished, and
/// that only where the call asks to exit.
pub proof fn answering_changes_little(m: Machine, import_idx: u32, args: Seq<Value>)
    ensures
        answered(m, import_idx, args).0 == (Machine { finished: answered(m, import_idx, args).0.finished, ..m }),
        resolved(m.store.module, import_idx) != HostFunc::SysExit ==> answered(m, import_idx, args).0 == m,
{
}

impl WasmModule {
    /// The imports, in order.
    pub fn get_imports(&self) -> (r: &[ImportDef])
        ensures
            r@ == self@.imports,
    {
        self.imports.as_slice()
    }
}

impl WasmInstance {
    /// The module of the instance.
    pub fn module(&self) -> (r: &WasmModule)
        ensures
            *r == self.module,
    {
        &self.module
    }

    /// The size of a memory.
    pub fn get_memory_size(&self, idx: usize) -> (r: Option<usize>)
        requires
            self.wf(),
        ensures
            match r {
                Some(n) => idx < self@.store.memories.len() && n == self@.store.memories[idx as int].len(),
                None => idx >= self@.store.memories.len(),
            },
    {
        if idx < self.memory_sizes.len() {
            assert(self.memory_sizes@[idx as int] == self.memories@[idx as int]@.len());
            Some(self.memory_sizes[idx])
        } else {
            None
        }
    }

    /// The bytes of a memory.
    pub fn get_memory(&self, idx: usize) -> (r: Option<&[u8]>)
        ensures
            match r {
                Some(b) => idx < self@.store.memories.len() && b@ == self@.store.memories[idx as int],
                None => idx >= self@.store.memories.len(),
            },
    {
        if idx < self.memories.len() {
            Some(self.memories[idx].as_slice())
        } else {
            None
        }
    }

    /// Sets whether the run is over.
    pub fn set_finished(&mut self, finished: bool)
        requires
            old(self).wf(),
        ensures
            final(self)@ == (Machine { finished, ..old(self)@ }),
            final(self).wf(),
    {
        self.finished = finished;
    }

    /// The fuel that is left.
    pub fn get_fuel(&self) -> (r: u64)
        ensures
            r == self@.fuel,
    {
        self.fuel
    }
}

} // verus!
