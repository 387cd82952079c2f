//! What calls of the functions of the host are answered.

use vstd::prelude::*;
use vstd::utf8::encode_utf8;
use crate::host::{answered, resolved, HostFunc};
use crate::instance::nth_import;
use crate::machine::Machine;
use crate::module::{ImportDef, Module};
use crate::types::{Value, WasmError};

verus! {

/// Whether the function import with this number is this one.
pub open spec fn is_import(m: Module, f: u32, d: ImportDef) -> bool {
    nth_import(m.imports, 0, f as int) == Some(d)
}

/// Whether the names of an import are these.
pub open spec fn named(m: Module, d: ImportDef, module: Seq<u8>, field: Seq<u8>) -> bool {
    &&& m.name(d.module_name_offset as int, d.module_name_len as int) == module
    &&& m.name(d.field_name_offset as int, d.field_name_len as int) == field
}

/// Imports with the same names are the same function of the host, in whatever module and
/// under whatever number they stand.
pub proof fn names_decide(
    a: Module,
    f: u32,
    d: ImportDef,
    b: Module,
    g: u32,
    e: ImportDef,
    module: Seq<u8>,
    field: Seq<u8>,
)
    requires
        is_import(a, f, d),
        is_import(b, g, e),
        named(a, d, module, field),
        named(b, e, module, field),
    ensures
        resolved(a, f) == resolved(b, g),
{
}

/// A function that the host knows has one name: imports that are the same known function have
/// the same names.
pub proof fn known_functions_have_one_name(
    a: Module,
    f: u32,
    d: ImportDef,
    b: Module,
    g: u32,
    e: ImportDef,
    module: Seq<u8>,
    field: Seq<u8>,
)
    requires
        is_import(a, f, d),
        is_import(b, g, e),
        named(a, d, module, field),
        resolved(a, f) == resolved(b, g),
        resolved(a, f) != HostFunc::Unknown,
    ensures
        named(b, e, module, field),
{
}

/// Calls of `sys_yield` and of `sys_energy_get` are answered zero and the fuel that is left,
/// and change nothing.
pub proof fn questions_are_answered(m: Machine, f: u32, d: ImportDef, args: Seq<Value>)
    requires
        is_import(m.store.module, f, d),
    ensures
        named(m.store.module, d, encode_utf8("atos"@), encode_utf8("sys_yield"@)) ==> answered(m, f, args) == (
            m,
            Ok::<Option<Value>, WasmError>(Some(Value::I32(0))),
        ),
        named(m.store.module, d, encode_utf8("atos"@), encode_utf8("sys_energy_get"@)) && m.fuel <= i64::MAX ==> {
            &&& answered(m, f, args).0 == m
            &&& answered(m, f, args).1 is Ok
            &&& answered(m, f, args).1->Ok_0 is Some
            &&& answered(m, f, args).1->Ok_0->Some_0 is I64
            &&& answered(m, f, args).1->Ok_0->Some_0->I64_0 == m.fuel
        },
{
    names_differ();
}

/// A call of `sys_exit` ends the run with the code that it is given.
pub proof fn exit_ends_the_run(m: Machine, f: u32, d: ImportDef, args: Seq<Value>, code: i32)
    requires
        is_import(m.store.module, f, d),
        named(m.store.module, d, encode_utf8("atos"@), encode_utf8("sys_exit"@)),
        args.len() > 0,
        args[0] == Value::I32(code),
    ensures
        answered(m, f, args) == (
            Machine { finished: true, ..m },
            Ok::<Option<Value>, WasmError>(Some(Value::I32(code))),
        ),
{
    names_differ();
}

/// Calls of `sys_send`, `sys_recv` and `log` are answered where the bytes that they name lie
/// in the first memory, and fail elsewhere. The pointer and the length are the last two
/// arguments.
pub proof fn buffers_must_lie_in_memory(m: Machine, f: u32, d: ImportDef, args: Seq<Value>, p: i32, n: i32)
    requires
        is_import(m.store.module, f, d),
        m.store.memories.len() > 0,
        ({
            let log = named(m.store.module, d, encode_utf8("atos"@), encode_utf8("log"@));
            let k: int = if log { 0 } else { 1 };
            &&& log || named(m.store.module, d, encode_utf8("atos"@), encode_utf8("sys_send"@)) || named(
                m.store.module,
                d,
                encode_utf8("atos"@),
                encode_utf8("sys_recv"@),
            )
            &&& args.len() == k + 2
            &&& args[k] == Value::I32(p)
            &&& args[k + 1] == Value::I32(n)
        }),
    ensures
        ({
            let log = named(m.store.module, d, encode_utf8("atos"@), encode_utf8("log"@));
            &&& answered(m, f, args).0 == m
            &&& answered(m, f, args).1 == if p >= 0 && n >= 0 && p + n <= m.store.memories[0].len() {
                Ok::<Option<Value>, WasmError>(
                    if log {
                        None
                    } else {
                        Some(Value::I32(0))
                    },
                )
            } else {
                Err(WasmError::MemoryOutOfBounds)
            }
        }),
{
    names_differ();
}

/// A call of anything else is refused, with the number of the import.
pub proof fn unknown_functions_are_refused(m: Machine, f: u32, d: ImportDef, args: Seq<Value>)
    requires
        is_import(m.store.module, f, d),
        m.store.module.name(d.module_name_offset as int, d.module_name_len as int) != encode_utf8("atos"@),
    ensures
        answered(m, f, args) == (m, Err::<Option<Value>, WasmError>(WasmError::ImportNotFound(f))),
{
}

/// The names of the functions differ in their length or in a byte.
proof fn names_differ()
    ensures
        encode_utf8("sys_yield"@) != encode_utf8("sys_send"@),
        encode_utf8("sys_yield"@) != encode_utf8("sys_recv"@),
        encode_utf8("sys_yield"@) != encode_utf8("sys_exit"@),
        encode_utf8("sys_yield"@) != encode_utf8("sys_energy_get"@),
        encode_utf8("sys_yield"@) != encode_utf8("log"@),
        encode_utf8("sys_send"@) != encode_utf8("sys_recv"@),
        encode_utf8("sys_send"@) != encode_utf8("sys_exit"@),
        encode_utf8("sys_send"@) != encode_utf8("sys_energy_get"@),
        encode_utf8("sys_send"@) != encode_utf8("log"@),
        encode_utf8("sys_recv"@) != encode_utf8("sys_exit"@),
        encode_utf8("sys_recv"@) != encode_utf8("sys_energy_get"@),
        encode_utf8("sys_recv"@) != encode_utf8("log"@),
        encode_utf8("sys_exit"@) != encode_utf8("sys_energy_get"@),
        encode_utf8("sys_exit"@) != encode_utf8("log"@),
        encode_utf8("sys_energy_get"@) != encode_utf8("log"@),
{
    reveal_strlit("sys_yield");
    reveal_strlit("sys_send");
    reveal_strlit("sys_recv");
    reveal_strlit("sys_exit");
    reveal_strlit("sys_energy_get");
    reveal_strlit("log");
    vstd::utf8::encode_utf8_decode_utf8("sys_yield"@);
    vstd::utf8::encode_utf8_decode_utf8("sys_send"@);
    vstd::utf8::encode_utf8_decode_utf8("sys_recv"@);
    vstd::utf8::encode_utf8_decode_utf8("sys_exit"@);
    vstd::utf8::encode_utf8_decode_utf8("sys_energy_get"@);
    vstd::utf8::encode_utf8_decode_utf8("log"@);
    assert("sys_yield"@.len() == 9 && "sys_send"@.len() == 8 && "sys_recv"@.len() == 8 && "sys_exit"@.len() == 8);
    assert("sys_energy_get"@.len() == 14 && "log"@.len() == 3);
    assert("sys_send"@[4] == 's' && "sys_recv"@[4] == 'r' && "sys_exit"@[4] == 'e');
}

} // verus!
