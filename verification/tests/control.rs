use wasm::decoder::decode;
use wasm::machine::{ExecResult, WasmInstance};
use wasm::scan::{scan_legacy_try, skip_to_end};
use wasm::types::{RuntimeClass, Value, WasmError};

const I32: u8 = 0x7F;
const I64: u8 = 0x7E;

fn leb(mut v: u32) -> Vec<u8> {
    let mut out = Vec::new();
    loop {
        let b = (v % 128) as u8;
        v /= 128;
        if v == 0 {
            out.push(b);
            return out;
        }
        out.push(b + 128);
    }
}

fn section(id: u8, body: &[u8]) -> Vec<u8> {
    let mut out = vec![id];
    out.extend(leb(body.len() as u32));
    out.extend(body);
    out
}

fn list(items: &[Vec<u8>]) -> Vec<u8> {
    let mut out = leb(items.len() as u32);
    for i in items {
        out.extend(i);
    }
    out
}

fn module(sections: &[Vec<u8>]) -> Vec<u8> {
    let mut out = vec![0x00, 0x61, 0x73, 0x6D, 0x01, 0x00, 0x00, 0x00];
    for s in sections {
        out.extend(s);
    }
    out
}

fn func_type(params: &[u8], results: &[u8]) -> Vec<u8> {
    let mut out = vec![0x60];
    out.extend(leb(params.len() as u32));
    out.extend(params);
    out.extend(leb(results.len() as u32));
    out.extend(results);
    out
}

/// A function body; `locals` are groups of a count and a type.
fn body(locals: &[(u32, u8)], code: &[u8]) -> Vec<u8> {
    let mut inner = leb(locals.len() as u32);
    for (n, t) in locals {
        inner.extend(leb(*n));
        inner.push(*t);
    }
    inner.extend(code);
    inner.push(0x0B);
    let mut out = leb(inner.len() as u32);
    out.extend(inner);
    out
}

fn instance(bytes: &[u8], fuel: u64) -> WasmInstance {
    let m = decode(bytes).expect("the module decodes");
    match WasmInstance::with_class(m, fuel, RuntimeClass::Full) {
        Ok(i) => i,
        Err(e) => panic!("{e:?}"),
    }
}

fn returned(r: ExecResult) -> Value {
    match r {
        ExecResult::Returned(v) => v,
        other => panic!("{other:?}"),
    }
}

fn trapped(r: ExecResult) -> WasmError {
    match r {
        ExecResult::Trap(e) => e,
        other => panic!("{other:?}"),
    }
}

/// An instance with these functions, each a type, groups of locals and code.
fn program(types: &[Vec<u8>], funcs: &[(u8, &[(u32, u8)], &[u8])], fuel: u64) -> WasmInstance {
    let bytes = module(&[
        section(1, &list(types)),
        section(3, &list(&funcs.iter().map(|f| vec![f.0]).collect::<Vec<_>>())),
        section(10, &list(&funcs.iter().map(|f| body(f.1, f.2)).collect::<Vec<_>>())),
    ]);
    instance(&bytes, fuel)
}

fn one(code: &[u8], fuel: u64) -> WasmInstance {
    program(&[func_type(&[I32], &[I32])], &[(0, &[], code)], fuel)
}

#[test]
fn a_loop_counts_down() {
    // The sum of the numbers up to the argument.
    let code = [
        0x03, 0x40, // loop
        0x20, 0, 0x20, 1, 0x6A, 0x21, 1, // local 1 += local 0
        0x20, 0, 0x41, 1, 0x6B, 0x22, 0, // local 0 -= 1
        0x0D, 0, // br_if 0
        0x0B, 0x20, 1,
    ];
    let mut inst = program(&[func_type(&[I32], &[I32])], &[(0, &[(1, I32)], &code)], 10_000);
    assert_eq!(returned(inst.call_func(0, &[Value::I32(10)])), Value::I32(55));
}

#[test]
fn a_conditional_takes_one_arm() {
    let code = [0x20, 0, 0x04, I32, 0x41, 10, 0x05, 0x41, 20, 0x0B];
    let mut inst = one(&code, 1_000);
    assert_eq!(returned(inst.call_func(0, &[Value::I32(1)])), Value::I32(10));
    assert_eq!(returned(inst.call_func(0, &[Value::I32(0)])), Value::I32(20));
}

#[test]
fn a_conditional_without_second_arm_is_skipped() {
    let code = [0x20, 0, 0x04, 0x40, 0x41, 7, 0x21, 0, 0x0B, 0x20, 0];
    let mut inst = one(&code, 1_000);
    assert_eq!(returned(inst.call_func(0, &[Value::I32(0)])), Value::I32(0));
    assert_eq!(returned(inst.call_func(0, &[Value::I32(5)])), Value::I32(7));
}

#[test]
fn a_branch_table_selects_a_label() {
    let code = [
        0x02, 0x40, 0x02, 0x40, 0x02, 0x40, 0x20, 0, 0x0E, 2, 0, 1, 2, 0x0B, 0x41, 10, 0x0F, 0x0B, 0x41, 11, 0x0F,
        0x0B, 0x41, 12,
    ];
    let mut inst = one(&code, 1_000);
    assert_eq!(returned(inst.call_func(0, &[Value::I32(0)])), Value::I32(10));
    assert_eq!(returned(inst.call_func(0, &[Value::I32(1)])), Value::I32(11));
    assert_eq!(returned(inst.call_func(0, &[Value::I32(2)])), Value::I32(12));
    assert_eq!(returned(inst.call_func(0, &[Value::I32(-1)])), Value::I32(12));
}

#[test]
fn a_branch_carries_values_and_drops_the_rest() {
    let code = [0x02, I32, 0x41, 1, 0x41, 2, 0x41, 3, 0x0C, 0, 0x0B];
    let mut inst = one(&code, 1_000);
    assert_eq!(returned(inst.call_func(0, &[Value::I32(0)])), Value::I32(3));
    assert_eq!(inst.stack_ptr, 1);
}

#[test]
fn branches_too_far_out_trap() {
    let mut inst = one(&[0x0C, 5], 1_000);
    assert_eq!(trapped(inst.call_func(0, &[Value::I32(0)])), WasmError::BranchDepthExceeded);
}

#[test]
fn functions_call_each_other() {
    // Fibonacci numbers.
    let code = [
        0x20, 0, 0x41, 2, 0x48, 0x04, I32, 0x20, 0, 0x05, 0x20, 0, 0x41, 1, 0x6B, 0x10, 0, 0x20, 0, 0x41, 2, 0x6B,
        0x10, 0, 0x6A, 0x0B,
    ];
    let mut inst = one(&code, 100_000);
    assert_eq!(returned(inst.call_func(0, &[Value::I32(10)])), Value::I32(55));
}

#[test]
fn endless_recursion_traps() {
    let mut inst = one(&[0x20, 0, 0x10, 0], 1_000_000);
    assert_eq!(trapped(inst.call_func(0, &[Value::I32(0)])), WasmError::CallStackOverflow);
}

#[test]
fn tail_calls_do_not_deepen_the_stack() {
    let code = [
        0x20, 0, 0x45, 0x04, I32, 0x41, 42, 0x05, 0x20, 0, 0x41, 1, 0x6B, 0x12, 0, 0x0B,
    ];
    let mut inst = one(&code, 1_000_000);
    assert_eq!(returned(inst.call_func(0, &[Value::I32(5_000)])), Value::I32(42));
}

#[test]
fn each_instruction_takes_one_unit_of_fuel() {
    let code = [0x41, 1, 0x41, 2, 0x6A];
    let mut inst = program(&[func_type(&[], &[I32])], &[(0, &[], &code)], 100);
    assert_eq!(returned(inst.call_func(0, &[])), Value::I32(3));
    let used = 100 - inst.fuel;
    let mut exact = program(&[func_type(&[], &[I32])], &[(0, &[], &code)], used);
    assert_eq!(returned(exact.call_func(0, &[])), Value::I32(3));
    assert_eq!(exact.fuel, 0);
    let mut short = program(&[func_type(&[], &[I32])], &[(0, &[], &code)], used - 1);
    assert!(matches!(short.call_func(0, &[]), ExecResult::OutOfFuel));
}

#[test]
fn a_run_out_of_fuel_goes_on_with_more() {
    let code = [0x41, 1, 0x41, 2, 0x6A];
    let mut inst = program(&[func_type(&[], &[I32])], &[(0, &[], &code)], 2);
    assert!(matches!(inst.call_func(0, &[]), ExecResult::OutOfFuel));
    assert!(matches!(inst.run(), ExecResult::OutOfFuel));
    inst.fuel = 100;
    assert_eq!(returned(inst.run()), Value::I32(3));
}

/// Counts the argument down to zero in a loop.
fn countdown(fuel: u64) -> WasmInstance {
    let code = [0x03, 0x40, 0x20, 0, 0x41, 1, 0x6B, 0x22, 0, 0x0D, 0, 0x0B, 0x20, 0];
    one(&code, fuel)
}

#[test]
fn a_run_in_parts_ends_as_the_whole_run_does() {
    let mut whole = countdown(1000);
    assert_eq!(returned(whole.call_func(0, &[Value::I32(5)])), Value::I32(0));
    for part in 1..12 {
        let mut inst = countdown(part);
        let mut given = part;
        let mut r = inst.call_func(0, &[Value::I32(5)]);
        while matches!(r, ExecResult::OutOfFuel) {
            assert_eq!(inst.fuel, 0);
            inst.fuel = part;
            given += part;
            r = inst.run();
        }
        assert_eq!(returned(r), Value::I32(0));
        assert_eq!(given - inst.fuel, 1000 - whole.fuel);
        assert_eq!(inst.pc, whole.pc);
        assert_eq!(inst.stack_ptr, whole.stack_ptr);
    }
}

#[test]
fn more_fuel_than_needed_is_left() {
    let mut less = countdown(100);
    let mut more = countdown(150);
    assert_eq!(returned(less.call_func(0, &[Value::I32(2)])), Value::I32(0));
    assert_eq!(returned(more.call_func(0, &[Value::I32(2)])), Value::I32(0));
    assert_eq!(more.fuel, less.fuel + 50);
}

#[test]
fn unreachable_traps() {
    let mut inst = one(&[0x00], 10);
    assert_eq!(trapped(inst.call_func(0, &[Value::I32(0)])), WasmError::UnreachableExecuted);
}

#[test]
fn missing_functions_and_arguments_trap() {
    let mut inst = one(&[0x20, 0], 100);
    assert_eq!(trapped(inst.call_func(7, &[])), WasmError::FunctionNotFound(7));
    assert_eq!(trapped(inst.call_func(0, &[])), WasmError::StackUnderflow);
    let mut inst = one(&[0x20, 9], 100);
    assert_eq!(trapped(inst.call_func(0, &[Value::I32(1)])), WasmError::OutOfBounds);
}

#[test]
fn locals_start_at_zero() {
    let mut inst = program(&[func_type(&[], &[I64])], &[(0, &[(2, I32), (1, I64)], &[0x20, 2])], 100);
    assert_eq!(returned(inst.call_func(0, &[])), Value::I64(0));
}

#[test]
fn a_tee_keeps_the_value() {
    let mut inst = one(&[0x41, 5, 0x22, 0, 0x20, 0, 0x6A], 100);
    assert_eq!(returned(inst.call_func(0, &[Value::I32(1)])), Value::I32(10));
}

#[test]
fn select_takes_the_first_where_the_condition_holds() {
    let mut inst = one(&[0x41, 1, 0x41, 2, 0x20, 0, 0x1B], 100);
    assert_eq!(returned(inst.call_func(0, &[Value::I32(1)])), Value::I32(1));
    assert_eq!(returned(inst.call_func(0, &[Value::I32(0)])), Value::I32(2));
}

/// Two functions in a table of three slots, called through it by index.
fn table_program(op: u8) -> WasmInstance {
    let bytes = module(&[
        section(1, &list(&[func_type(&[], &[I32]), func_type(&[I32], &[I32]), func_type(&[], &[I64])])),
        section(3, &list(&[vec![0], vec![2], vec![1]])),
        section(4, &list(&[vec![0x70, 0x00, 3]])),
        section(9, &list(&[vec![0x00, 0x41, 0, 0x0B, 2, 0, 1]])),
        section(
            10,
            &list(&[
                body(&[], &[0x41, 11]),
                body(&[], &[0x42, 12]),
                body(&[], &[0x20, 0, op, 0, 0]),
            ]),
        ),
    ]);
    instance(&bytes, 1_000)
}

#[test]
fn indirect_calls_go_through_a_table() {
    for op in [0x11, 0x13] {
        let mut inst = table_program(op);
        assert_eq!(returned(inst.call_func(2, &[Value::I32(0)])), Value::I32(11));
        assert_eq!(trapped(inst.call_func(2, &[Value::I32(1)])), WasmError::IndirectCallTypeMismatch);
        assert_eq!(trapped(inst.call_func(2, &[Value::I32(2)])), WasmError::UninitializedElement(2));
        assert_eq!(trapped(inst.call_func(2, &[Value::I32(3)])), WasmError::UndefinedElement);
        assert_eq!(trapped(inst.call_func(2, &[Value::I32(-1)])), WasmError::UndefinedElement);
    }
}

#[test]
fn calls_through_references() {
    let types = [func_type(&[], &[I32])];
    let mut inst = program(&types, &[(0, &[], &[0x41, 9]), (0, &[], &[0xD2, 0, 0x14, 0])], 100);
    assert_eq!(returned(inst.call_func(1, &[])), Value::I32(9));
    let mut inst = program(&types, &[(0, &[], &[0x41, 9]), (0, &[], &[0xD0, 0x70, 0x15, 0])], 100);
    assert_eq!(trapped(inst.call_func(1, &[])), WasmError::NullFunctionReference);
}

/// A module that imports a function of one parameter and adds one to its result.
fn importing() -> WasmInstance {
    let bytes = module(&[
        section(1, &list(&[func_type(&[I32], &[I32])])),
        section(2, &list(&[[vec![3], b"env".to_vec(), vec![3], b"inc".to_vec(), vec![0x00, 0]].concat()])),
        section(3, &list(&[vec![0]])),
        section(10, &list(&[body(&[], &[0x20, 0, 0x10, 0, 0x41, 1, 0x6A])])),
    ]);
    instance(&bytes, 1_000)
}

#[test]
fn a_host_call_pauses_the_run() {
    let mut inst = importing();
    match inst.call_func(1, &[Value::I32(5)]) {
        ExecResult::HostCall(import, args, count) => {
            assert_eq!((import, args[0], count), (0, Value::I32(5), 1));
        }
        other => panic!("{other:?}"),
    }
    assert_eq!(returned(inst.resume(Some(Value::I32(41)))), Value::I32(42));
}

#[test]
fn an_imported_function_is_asked_for_at_once() {
    let mut inst = importing();
    assert!(matches!(inst.call_func(0, &[Value::I32(3)]), ExecResult::HostCall(0, _, 1)));
}

/// One tag with an `i32`; the function throws it inside what `code` opens.
fn throwing(code: &[u8]) -> WasmInstance {
    let bytes = module(&[
        section(1, &list(&[func_type(&[], &[I32]), func_type(&[I32], &[])])),
        section(3, &list(&[vec![0], vec![1]])),
        section(13, &list(&[vec![0x00, 1]])),
        section(10, &list(&[body(&[], code), body(&[], &[0x20, 0, 0x08, 0])])),
    ]);
    instance(&bytes, 1_000)
}

#[test]
fn a_catch_clause_receives_the_values() {
    // block (result i32) { try_table (catch 0 -> label 0) { throw } unreachable }
    let code = [0x02, I32, 0x1F, 0x40, 1, 0x00, 0, 0, 0x41, 33, 0x08, 0, 0x0B, 0x00, 0x0B];
    assert_eq!(returned(throwing(&code).call_func(0, &[])), Value::I32(33));
}

#[test]
fn an_exception_leaves_the_calls_that_do_not_catch_it() {
    let code = [0x02, I32, 0x1F, 0x40, 1, 0x00, 0, 0, 0x41, 34, 0x10, 1, 0x0B, 0x00, 0x0B];
    assert_eq!(returned(throwing(&code).call_func(0, &[])), Value::I32(34));
}

#[test]
fn an_uncaught_exception_ends_the_run() {
    let mut inst = throwing(&[0x41, 35, 0x08, 0]);
    match inst.call_func(0, &[]) {
        ExecResult::Exception(tag, values) => assert_eq!((tag, values), (0, vec![Value::I32(35)])),
        other => panic!("{other:?}"),
    }
}

#[test]
fn a_legacy_handler_receives_the_values() {
    // try (result i32) { throw } catch 0 { +1 }
    let code = [0x06, I32, 0x41, 20, 0x08, 0, 0x07, 0, 0x41, 1, 0x6A, 0x0B];
    assert_eq!(returned(throwing(&code).call_func(0, &[])), Value::I32(21));
}

#[test]
fn a_legacy_handler_is_skipped_without_exception() {
    let code = [0x06, I32, 0x41, 20, 0x19, 0x41, 7, 0x0B];
    assert_eq!(returned(throwing(&code).call_func(0, &[])), Value::I32(20));
}

#[test]
fn a_rethrown_exception_reaches_the_next_handler() {
    // try { try { throw } catch_all { rethrow 0 } } catch 0 {}
    let code = [0x06, I32, 0x06, I32, 0x41, 8, 0x08, 0, 0x19, 0x09, 0, 0x0B, 0x07, 0, 0x0B];
    assert_eq!(returned(throwing(&code).call_func(0, &[])), Value::I32(8));
}

#[test]
fn a_host_exception_is_caught() {
    let bytes = module(&[
        section(1, &list(&[func_type(&[], &[I32]), func_type(&[I32], &[])])),
        section(2, &list(&[[vec![1], b"m".to_vec(), vec![1], b"f".to_vec(), vec![0x00, 0]].concat()])),
        section(3, &list(&[vec![0]])),
        section(13, &list(&[vec![0x00, 1]])),
        section(
            10,
            &list(&[body(&[], &[0x02, I32, 0x1F, 0x40, 1, 0x00, 0, 0, 0x10, 0, 0x1A, 0x0B, 0x00, 0x0B])]),
        ),
    ]);
    let mut inst = instance(&bytes, 1_000);
    assert!(matches!(inst.call_func(1, &[]), ExecResult::HostCall(0, _, 0)));
    assert_eq!(returned(inst.resume_with_exception(0, vec![Value::I32(77)])), Value::I32(77));
}

#[test]
fn a_host_exception_that_nothing_catches_is_returned() {
    let mut inst = importing();
    assert!(matches!(inst.call_func(1, &[Value::I32(5)]), ExecResult::HostCall(..)));
    assert!(matches!(inst.resume_with_exception(3, vec![]), ExecResult::Exception(3, _)));
}

#[test]
fn the_start_function_runs_first() {
    let bytes = module(&[
        section(1, &list(&[func_type(&[], &[]), func_type(&[], &[I32])])),
        section(3, &list(&[vec![0], vec![1]])),
        section(6, &list(&[vec![I32, 0x01, 0x41, 0, 0x0B]])),
        section(8, &[0]),
        section(10, &list(&[body(&[], &[0x41, 6, 0x24, 0]), body(&[], &[0x23, 0])])),
    ]);
    let mut inst = instance(&bytes, 1_000);
    assert!(matches!(inst.run_start(), ExecResult::Completed));
    assert_eq!(inst.globals[0], Value::I32(6));
    assert_eq!(returned(inst.call_func(1, &[])), Value::I32(6));
}

#[test]
fn a_module_without_start_function_completes() {
    assert!(matches!(one(&[0x20, 0], 1).run_start(), ExecResult::Completed));
}

#[test]
fn the_stack_of_operands_is_bounded() {
    // loop { push; br 0 } with a loop that keeps its operand
    let code = [0x03, 0x40, 0x41, 1, 0x10, 0, 0x0B, 0x41, 0];
    let mut inst = one(&code, 1_000_000);
    assert_eq!(trapped(inst.call_func(0, &[Value::I32(0)])), WasmError::CallStackOverflow);
    let mut full = one(&[0x20, 0], 1_000);
    full.stack_ptr = full.stack.len();
    assert_eq!(full.push(Value::I32(1)), Err(WasmError::StackOverflow));
}

#[test]
fn pushed_values_are_popped_in_reverse() {
    let mut inst = one(&[0x20, 0], 1_000);
    assert_eq!(inst.push(Value::I32(1)), Ok(()));
    assert_eq!(inst.push(Value::I64(2)), Ok(()));
    assert_eq!(inst.pop_i64(), Ok(2));
    assert_eq!(inst.pop_i32(), Ok(1));
    assert_eq!(inst.pop(), Err(WasmError::StackUnderflow));
}

#[test]
fn ends_of_blocks_are_found() {
    // nested block, then else and end at the outer level
    let code = [0x02, 0x40, 0x01, 0x0B, 0x05, 0x41, 0x80, 0x01, 0x0B];
    let mut pos = 0;
    assert_eq!(skip_to_end(&code, &mut pos, false), Ok(()));
    assert_eq!(pos, 5);
    assert_eq!(skip_to_end(&code, &mut pos, false), Ok(()));
    assert_eq!(pos, 9);
    assert_eq!(skip_to_end(&code, &mut pos, false), Err(WasmError::UnexpectedEnd));
}

#[test]
fn handlers_of_a_legacy_try_are_found() {
    let code = [0x01, 0x07, 3, 0x01, 0x19, 0x01, 0x0B];
    let mut pos = 0;
    match scan_legacy_try(&code, &mut pos, false) {
        Ok((handlers, label)) => {
            assert_eq!(handlers.len(), 2);
            assert_eq!((handlers[0].handler_pc, handlers[0].tag_idx), (3, 3));
            assert_eq!((handlers[1].handler_pc, handlers[1].tag_idx), (5, u32::MAX));
            assert_eq!(label, u32::MAX);
        }
        Err(e) => panic!("{e:?}"),
    }
    assert_eq!(pos, 7);
    pos = 0;
    match scan_legacy_try(&[0x01, 0x18, 2], &mut pos, false) {
        Ok((handlers, label)) => assert_eq!((handlers.len(), label), (0, 2)),
        Err(e) => panic!("{e:?}"),
    }
}

#[test]
fn a_null_reference_is_not_called() {
    let types = [func_type(&[], &[I32])];
    for call in [0x14, 0x15] {
        let mut inst = program(&types, &[(0, &[], &[0x41, 9]), (0, &[], &[0xD0, 0x70, call, 0])], 100);
        assert_eq!(trapped(inst.call_func(1, &[])), WasmError::NullFunctionReference);
        let mut inst = program(&types, &[(0, &[], &[0x41, 9]), (0, &[], &[0xD2, 0, call, 0])], 100);
        assert_eq!(returned(inst.call_func(1, &[])), Value::I32(9));
    }
}
