//! What the instructions on heap objects and references decide.

use vstd::prelude::*;
use crate::control_laws::{branch_is_branched, branched, has_label};
use crate::gc_ops::gc_instruction;
use crate::machine::{Machine, Object, Outcome};
use crate::reader::{leb_i32, leb_u32};
use crate::scalar_laws::casts32;
use crate::situation::{consumed, faces_prefixed, operand, replaced, result_of, step_executes, traps, yields_at};
use crate::step::{instruction, step};
use crate::types::{Value, WasmError};

verus! {

proof fn enters_gc(m: Machine, sub: u32, at: int)
    requires
        faces_prefixed(m, 0xFB, sub, at),
    ensures
        step(m) == crate::calls::carried_out(gc_instruction(Machine { pc: at, fuel: (m.fuel - 1) as u64, ..m }, sub)),
{
    reveal(instruction);
    step_executes(m, 0xFB);
}

/// Whether the machine stands before a test or cast of a reference to this heap type.
pub open spec fn faces_type(m: Machine, sub: u32, p: int, ht: i32, at: int, v: Value) -> bool {
    &&& faces_prefixed(m, 0xFB, sub, p)
    &&& leb_i32(m.store.module.code, p) == (Ok::<i32, WasmError>(ht), at)
    &&& m.stack_ptr >= 1
    &&& operand(m, 0) == v
}

/// `ref.test` gives one where the reference matches and zero elsewhere, `ref.cast` passes
/// the reference on where it would and traps elsewhere: the two decide alike.
pub proof fn casts_follow_tests(m: Machine, n: Machine, nullable: bool, p: int, ht: i32, at: int, v: Value)
    requires
        faces_type(m, if nullable { 21 } else { 20 }, p, ht, at, v),
        faces_type(n, if nullable { 23 } else { 22 }, p, ht, at, v),
        m.store == n.store,
    ensures
        ({
            let x = result_of(m, 1)->I32_0;
            &&& yields_at(m, 1, Value::I32(x), at)
            &&& x == 0 || x == 1
            &&& x == 1 ==> yields_at(n, 1, v, at)
            &&& x == 0 ==> traps(n, WasmError::CastFailure)
        }),
{
    enters_gc(m, if nullable { 21 } else { 20 }, p);
    enters_gc(n, if nullable { 23 } else { 22 }, p);
    let x = result_of(m, 1)->I32_0;
    assert(step(m).0 =~= replaced(m, 1, Value::I32(x), at));
    if x == 1 {
        assert(step(n).0 =~= replaced(n, 1, v, at));
    }
}

/// A reference to a live object matches the abstract heap types as its kind says: `any`
/// (-18) unless it is an external reference, `eq` (-19) where it is a struct or an array,
/// `struct` (-21) exactly where it is a struct, `array` (-22) exactly where it is an array,
/// `extern` (-17) exactly where it stands for an internal one seen from outside, and no
/// other abstract type.
pub proof fn object_tests(m: Machine, sub: u32, p: int, ht: i32, at: int, h: u32)
    requires
        sub == 20 || sub == 21,
        faces_type(m, sub, p, ht, at, Value::GcRef(h)),
        h < m.store.heap.len(),
        ht < 0,
    ensures
        ({
            let x = result_of(m, 1)->I32_0;
            let o = m.store.heap[h as int];
            &&& yields_at(m, 1, Value::I32(x), at)
            &&& x == 0 || x == 1
            &&& ht == -18 ==> (x == 1 <==> !(o is Externalized))
            &&& ht == -19 ==> (x == 1 <==> o is Struct || o is Array)
            &&& ht == -21 ==> (x == 1 <==> o is Struct)
            &&& ht == -22 ==> (x == 1 <==> o is Array)
            &&& ht == -17 ==> (x == 1 <==> o is Externalized)
            &&& ht < -22 || ht > -17 || ht == -20 ==> x == 0
        }),
{
    enters_gc(m, sub, p);
    let x = result_of(m, 1)->I32_0;
    assert(step(m).0 =~= replaced(m, 1, Value::I32(x), at));
}

/// A struct or array matches the type that it was made with and the supertype that this
/// type declares; a converted reference matches no concrete type, and a reference past the
/// heap nothing.
pub proof fn object_matches_its_type(m: Machine, sub: u32, p: int, ht: i32, at: int, h: u32)
    requires
        sub == 20 || sub == 21,
        faces_type(m, sub, p, ht, at, Value::GcRef(h)),
        ht >= 0,
    ensures
        ({
            let x = result_of(m, 1)->I32_0;
            &&& yields_at(m, 1, Value::I32(x), at)
            &&& h >= m.store.heap.len() ==> x == 0
            &&& h < m.store.heap.len() ==> {
                let ti = match m.store.heap[h as int] {
                    Object::Struct { type_idx, .. } => Some(type_idx),
                    Object::Array { type_idx, .. } => Some(type_idx),
                    _ => None,
                };
                &&& ti == Some(ht as u32) ==> x == 1
                &&& ti is None ==> x == 0
                &&& ti is Some && ti->Some_0 < m.store.module.sub_types.len()
                    && m.store.module.sub_types[ti->Some_0 as int].supertype == Some(ht as u32) ==> x == 1
            }
        }),
{
    enters_gc(m, sub, p);
    let x = result_of(m, 1)->I32_0;
    assert(step(m).0 =~= replaced(m, 1, Value::I32(x), at));
    casts32(ht, 0);
    if h < m.store.heap.len() {
        let ti = m.store.heap[h as int].type_of();
        if ti < m.store.module.sub_types.len() && m.store.module.sub_types[ti as int].supertype is Some {
            crate::heap::declared_supertype(m.store.module, ti);
        }
    }
}

/// A null reference, which may also be held as minus one, matches exactly where null is
/// admitted, whatever the heap type.
pub proof fn null_tests(m: Machine, sub: u32, p: int, ht: i32, at: int, v: Value)
    requires
        sub == 20 || sub == 21,
        v == Value::NullRef || v == Value::I32(-1i32),
        faces_type(m, sub, p, ht, at, v),
    ensures
        yields_at(
            m,
            1,
            Value::I32(
                if sub == 21 {
                    1
                } else {
                    0
                },
            ),
            at,
        ),
{
    enters_gc(m, sub, p);
    let x = result_of(m, 1)->I32_0;
    assert(step(m).0 =~= replaced(m, 1, Value::I32(x), at));
}

/// An integer other than minus one stands for a 31-bit integer or a function: it matches
/// `any`, `eq`, `i31` and `func`, and no other abstract type.
pub proof fn integer_tests(m: Machine, sub: u32, p: int, ht: i32, at: int, v: i32)
    requires
        sub == 20 || sub == 21,
        v != -1,
        ht < 0,
        faces_type(m, sub, p, ht, at, Value::I32(v)),
    ensures
        yields_at(
            m,
            1,
            Value::I32(
                if ht == -18 || ht == -19 || ht == -20 || ht == -16 {
                    1
                } else {
                    0
                },
            ),
            at,
        ),
{
    enters_gc(m, sub, p);
    let x = result_of(m, 1)->I32_0;
    assert(step(m).0 =~= replaced(m, 1, Value::I32(x), at));
}

/// `br_on_cast` branches where `ref.test` of the target type would give one, and
/// `br_on_cast_fail` where it would give zero; both leave the reference on the stack. The
/// second bit of the flags says whether null is admitted.
pub proof fn cast_branches_follow_tests(
    m: Machine,
    fail: bool,
    p: int,
    flags: u8,
    label: u32,
    q: int,
    from: i32,
    o: int,
    to: i32,
    at: int,
    n: Machine,
    np: int,
    end: int,
    v: Value,
)
    requires
        faces_prefixed(m, 0xFB, if fail { 25 } else { 24 }, p),
        p < m.store.module.code.len(),
        m.store.module.code[p] == flags,
        leb_u32(m.store.module.code, p + 1) == (Ok::<u32, WasmError>(label), q),
        leb_i32(m.store.module.code, q) == (Ok::<i32, WasmError>(from), o),
        leb_i32(m.store.module.code, o) == (Ok::<i32, WasmError>(to), at),
        m.stack_ptr >= 1,
        operand(m, 0) == v,
        faces_type(n, if (flags / 2) % 2 == 1 { 21 } else { 20 }, np, to, end, v),
        m.store == n.store,
        has_label(consumed(m, 0, at), label),
    ensures
        ({
            let passes = result_of(n, 1) == Value::I32(1);
            &&& step(m).1 == Outcome::Completed
            &&& passes != fail ==> branched(consumed(m, 0, at), label, step(m).0)
            &&& passes == fail ==> step(m).0 == consumed(m, 0, at)
        }),
{
    enters_gc(m, if fail { 25 } else { 24 }, p);
    enters_gc(n, if (flags / 2) % 2 == 1 { 21 } else { 20 }, np);
    let whole = consumed(m, 0, at);
    assert(consumed(m, 1, at).push(v).0 =~= whole);
    branch_is_branched(whole, label);
}

} // verus!
