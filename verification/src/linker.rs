//! Import validation and comparison of types across modules.

use vstd::prelude::*;
use crate::gc_types::{GcType, GcTypeDef, StorageType, SubTypeInfo};
use crate::module::{FuncTypeDef, Module, WasmModule};
use crate::types::{ValType, Value};

verus! {

/// Most steps up a chain of supertypes.
pub const MAX_SUPERTYPE_STEPS: u32 = 100;

/// Whether `idx` lies in the recursion group that starts at `start`.
pub open spec fn in_group(idx: u32, start: u32, size: u32) -> bool {
    start <= idx < start + size
}

/// Whether two references, each from a type in its own recursion group, agree: they
/// name the same member of the groups, or types outside that `rel` relates.
pub open spec fn same_reference(
    x: u32,
    start_a: u32,
    y: u32,
    start_b: u32,
    size: u32,
    rel: spec_fn(u32, u32) -> bool,
) -> bool {
    if in_group(x, start_a, size) && in_group(y, start_b, size) {
        x - start_a == y - start_b
    } else {
        !in_group(x, start_a, size) && !in_group(y, start_b, size) && rel(x, y)
    }
}

/// Whether two storage types agree.
pub open spec fn same_storage(
    x: StorageType,
    start_a: u32,
    y: StorageType,
    start_b: u32,
    size: u32,
    rel: spec_fn(u32, u32) -> bool,
) -> bool {
    match (x, y) {
        (StorageType::I8, StorageType::I8) => true,
        (StorageType::I16, StorageType::I16) => true,
        (StorageType::Val(v), StorageType::Val(w)) => v == w,
        (StorageType::RefType(v, i), StorageType::RefType(w, j)) => v == w && same_reference(
            i,
            start_a,
            j,
            start_b,
            size,
            rel,
        ),
        _ => false,
    }
}

/// Whether the fields of two structs agree.
pub open spec fn same_fields(
    s: Seq<StorageType>,
    start_a: u32,
    t: Seq<StorageType>,
    start_b: u32,
    size: u32,
    rel: spec_fn(u32, u32) -> bool,
) -> bool {
    forall|k: int| 0 <= k < s.len() ==> same_storage(#[trigger] s[k], start_a, t[k], start_b, size, rel)
}

/// Whether two composite types agree.
pub open spec fn same_composite(
    x: GcType,
    start_a: u32,
    y: GcType,
    start_b: u32,
    size: u32,
    rel: spec_fn(u32, u32) -> bool,
) -> bool {
    match (x, y) {
        (GcType::Func, GcType::Func) => true,
        (
            GcType::Struct { field_types: s, field_muts: sm },
            GcType::Struct { field_types: t, field_muts: tm },
        ) => {
            &&& s.len() == t.len()
            &&& sm == tm
            &&& same_fields(s, start_a, t, start_b, size, rel)
        },
        (
            GcType::Array { elem_type: s, elem_mutable: sm },
            GcType::Array { elem_type: t, elem_mutable: tm },
        ) => sm == tm && same_storage(s, start_a, t, start_b, size, rel),
        _ => false,
    }
}

/// The composite type at an index, where there is one.
pub open spec fn composite(m: Module, idx: int) -> Option<GcType> {
    if idx < m.gc_types.len() {
        Some(m.gc_types[idx])
    } else {
        None
    }
}

/// The subtype information at an index, where there is one.
pub open spec fn sub_type(m: Module, idx: int) -> Option<SubTypeInfo> {
    if idx < m.sub_types.len() {
        Some(m.sub_types[idx])
    } else {
        None
    }
}

/// Whether two places in the subtype hierarchy agree.
pub open spec fn same_place(
    x: SubTypeInfo,
    start_a: u32,
    y: SubTypeInfo,
    start_b: u32,
    size: u32,
    rel: spec_fn(u32, u32) -> bool,
) -> bool {
    x.is_final == y.is_final && match (x.supertype, y.supertype) {
        (None, None) => true,
        (Some(p), Some(q)) => same_reference(p, start_a, q, start_b, size, rel),
        _ => false,
    }
}

/// Whether the members numbered `k` of two recursion groups agree.
pub open spec fn same_member(
    a: Module,
    start_a: u32,
    b: Module,
    start_b: u32,
    size: u32,
    k: int,
    rel: spec_fn(u32, u32) -> bool,
) -> bool {
    let i = start_a + k;
    let j = start_b + k;
    &&& i < a.func_types.len()
    &&& j < b.func_types.len()
    &&& a.func_types[i] == b.func_types[j]
    &&& match (composite(a, i), composite(b, j)) {
        (None, None) => true,
        (Some(x), Some(y)) => same_composite(x, start_a, y, start_b, size, rel),
        _ => false,
    }
    &&& match (sub_type(a, i), sub_type(b, j)) {
        (Some(x), Some(y)) => same_place(x, start_a, y, start_b, size, rel),
        _ => true,
    }
}

/// Whether all members of two recursion groups agree.
pub open spec fn same_groups(
    a: Module,
    start_a: u32,
    b: Module,
    start_b: u32,
    size: u32,
    rel: spec_fn(u32, u32) -> bool,
) -> bool {
    forall|k: int| 0 <= k < size ==> #[trigger] same_member(a, start_a, b, start_b, size, k, rel)
}

/// Whether two types are equivalent as far as `depth` references show: they stand at
/// the same position in recursion groups of the same size whose members agree. A type
/// without subtype information is compared by its signature.
pub open spec fn equivalent_within(a: Module, i: u32, b: Module, j: u32, depth: nat) -> bool
    decreases depth, 0int,
{
    if depth == 0 {
        true
    } else {
        match (sub_type(a, i as int), sub_type(b, j as int)) {
            (Some(x), Some(y)) => {
                &&& x.rec_group_size == y.rec_group_size
                &&& i - x.rec_group_start == j - y.rec_group_start
                &&& same_groups(
                    a,
                    x.rec_group_start,
                    b,
                    y.rec_group_start,
                    x.rec_group_size,
                    relation(a, b, (depth - 1) as nat),
                )
            },
            _ => {
                &&& i < a.func_types.len()
                &&& j < b.func_types.len()
                &&& a.func_types[i as int] == b.func_types[j as int]
            },
        }
    }
}

/// The relation that `equivalent_within` is between the types of two modules.
pub open spec fn relation(a: Module, b: Module, depth: nat) -> spec_fn(u32, u32) -> bool
    decreases depth, 1int,
{
    |p: u32, q: u32| equivalent_within(a, p, b, q, depth)
}

/// More references than a chain of comparisons can follow without coming back to a
/// pair of types that is being compared.
pub open spec fn enough(a: Module, b: Module) -> nat {
    a.sub_types.len() * b.sub_types.len() + 1
}

/// Whether two types, each of its own module, are equivalent.
pub open spec fn equivalent(a: Module, i: u32, b: Module, j: u32) -> bool {
    equivalent_within(a, i, b, j, enough(a, b))
}

/// Whether a proper supertype of `src`, at most `n` steps up, is equivalent to `dst`.
pub open spec fn descends(a: Module, src: u32, b: Module, dst: u32, n: nat) -> bool
    decreases n,
{
    if n == 0 {
        false
    } else {
        match sub_type(a, src as int) {
            Some(info) => match info.supertype {
                Some(p) => equivalent(a, p, b, dst) || descends(a, p, b, dst, (n - 1) as nat),
                None => false,
            },
            None => false,
        }
    }
}

/// Whether `src` is a subtype of `dst`, each of its own module.
pub open spec fn subtype(a: Module, src: u32, b: Module, dst: u32) -> bool {
    equivalent(a, src, b, dst) || descends(a, src, b, dst, MAX_SUPERTYPE_STEPS as nat)
}

// ---------------------------------------------------------------------------
// Laws

proof fn member_symmetric(
    a: Module,
    start_a: u32,
    b: Module,
    start_b: u32,
    size: u32,
    k: int,
    rel: spec_fn(u32, u32) -> bool,
    rev: spec_fn(u32, u32) -> bool,
)
    requires
        forall|p: u32, q: u32| #[trigger] rel(p, q) == rev(q, p),
        same_member(a, start_a, b, start_b, size, k, rel),
    ensures
        same_member(b, start_b, a, start_a, size, k, rev),
{
}

proof fn within_symmetric(a: Module, i: u32, b: Module, j: u32, depth: nat)
    requires
        equivalent_within(a, i, b, j, depth),
    ensures
        equivalent_within(b, j, a, i, depth),
    decreases depth,
{
    if depth > 0 {
        match (sub_type(a, i as int), sub_type(b, j as int)) {
            (Some(x), Some(y)) => {
                let d = (depth - 1) as nat;
                let rel = relation(a, b, d);
                let rev = relation(b, a, d);
                assert forall|p: u32, q: u32| #[trigger] rel(p, q) == rev(q, p) by {
                    if equivalent_within(a, p, b, q, d) {
                        within_symmetric(a, p, b, q, d);
                    }
                    if equivalent_within(b, q, a, p, d) {
                        within_symmetric(b, q, a, p, d);
                    }
                }
                assert forall|k: int| 0 <= k < y.rec_group_size implies #[trigger] same_member(
                    b,
                    y.rec_group_start,
                    a,
                    x.rec_group_start,
                    y.rec_group_size,
                    k,
                    rev,
                ) by {
                    assert(same_member(a, x.rec_group_start, b, y.rec_group_start, x.rec_group_size, k, rel));
                    member_symmetric(a, x.rec_group_start, b, y.rec_group_start, x.rec_group_size, k, rel, rev);
                }
            },
            _ => {},
        }
    }
}

/// Equivalence does not depend on the order of the types.
pub proof fn equivalent_symmetric(a: Module, i: u32, b: Module, j: u32)
    ensures
        equivalent(a, i, b, j) == equivalent(b, j, a, i),
{
    assert(enough(a, b) == enough(b, a)) by (nonlinear_arith)
        requires
            enough(a, b) == a.sub_types.len() * b.sub_types.len() + 1,
            enough(b, a) == b.sub_types.len() * a.sub_types.len() + 1,
    ;
    if equivalent(a, i, b, j) {
        within_symmetric(a, i, b, j, enough(a, b));
    }
    if equivalent(b, j, a, i) {
        within_symmetric(b, j, a, i, enough(b, a));
    }
}

/// Whether every type of a module has a signature, and every recursion group lies
/// within the types.
pub open spec fn groups_complete(m: Module) -> bool {
    forall|i: int|
        0 <= i < m.sub_types.len() ==> (#[trigger] m.sub_types[i]).rec_group_start + m.sub_types[i].rec_group_size
            <= m.func_types.len()
}

proof fn within_reflexive(m: Module, i: u32, depth: nat)
    requires
        groups_complete(m),
        m.sub_types.len() == m.func_types.len(),
        i < m.func_types.len(),
        references_known(m),
    ensures
        equivalent_within(m, i, m, i, depth),
    decreases depth,
{
    if depth > 0 {
        let x = m.sub_types[i as int];
        let d = (depth - 1) as nat;
        let rel = relation(m, m, d);
        assert forall|p: u32| p < m.func_types.len() implies #[trigger] rel(p, p) by {
            within_reflexive(m, p, d);
        }
        assert forall|k: int| 0 <= k < x.rec_group_size implies #[trigger] same_member(
            m,
            x.rec_group_start,
            m,
            x.rec_group_start,
            x.rec_group_size,
            k,
            rel,
        ) by {
            let at = x.rec_group_start + k;
            assert(type_references_known(m, at));
            match composite(m, at) {
                Some(GcType::Struct { field_types, field_muts }) => {
                    assert forall|f: int| 0 <= f < field_types.len() implies same_storage(
                        #[trigger] field_types[f],
                        x.rec_group_start,
                        field_types[f],
                        x.rec_group_start,
                        x.rec_group_size,
                        rel,
                    ) by {
                        assert(storage_known(m, field_types[f]));
                    }
                },
                _ => {},
            }
        }
    }
}

/// Whether the type that a storage refers to exists.
pub open spec fn storage_known(m: Module, s: StorageType) -> bool {
    s matches StorageType::RefType(_, i) ==> i < m.func_types.len()
}

/// Whether the types that the type at an index refers to exist.
pub open spec fn type_references_known(m: Module, idx: int) -> bool {
    &&& match composite(m, idx) {
        Some(GcType::Struct { field_types, .. }) => forall|f: int|
            0 <= f < field_types.len() ==> storage_known(m, #[trigger] field_types[f]),
        Some(GcType::Array { elem_type, .. }) => storage_known(m, elem_type),
        _ => true,
    }
    &&& match sub_type(m, idx) {
        Some(x) => x.supertype matches Some(p) ==> p < m.func_types.len(),
        None => true,
    }
}

/// Whether the types that a module's types refer to exist.
pub open spec fn references_known(m: Module) -> bool {
    forall|idx: int| 0 <= idx < m.func_types.len() ==> #[trigger] type_references_known(m, idx)
}

/// Every type of a module whose groups and references stay within its types is
/// equivalent to itself.
pub proof fn equivalent_reflexive(m: Module, i: u32)
    requires
        groups_complete(m),
        m.sub_types.len() == m.func_types.len(),
        i < m.func_types.len(),
        references_known(m),
    ensures
        equivalent(m, i, m, i),
{
    within_reflexive(m, i, enough(m, m));
}

/// How many of the first `n` types of `b` are equivalent to the type `i` of `a`, as
/// far as `depth` references show.
spec fn row(a: Module, i: u32, b: Module, depth: nat, n: nat) -> nat
    decreases n,
{
    if n == 0 {
        0
    } else {
        let rest = row(a, i, b, depth, (n - 1) as nat);
        if equivalent_within(a, i, b, (n - 1) as u32, depth) {
            rest + 1
        } else {
            rest
        }
    }
}

/// How many pairs of one of the first `m` types of `a` and a type of `b` are
/// equivalent, as far as `depth` references show.
spec fn pairs(a: Module, b: Module, depth: nat, m: nat) -> nat
    decreases m,
{
    if m == 0 {
        0
    } else {
        pairs(a, b, depth, (m - 1) as nat) + row(a, (m - 1) as u32, b, depth, b.sub_types.len())
    }
}

proof fn within_monotone(a: Module, i: u32, b: Module, j: u32, depth: nat)
    requires
        equivalent_within(a, i, b, j, depth + 1),
    ensures
        equivalent_within(a, i, b, j, depth),
    decreases depth,
{
    if depth > 0 {
        match (sub_type(a, i as int), sub_type(b, j as int)) {
            (Some(x), Some(y)) => {
                let d = (depth - 1) as nat;
                let rel = relation(a, b, depth);
                let weak = relation(a, b, d);
                assert forall|p: u32, q: u32| rel(p, q) implies #[trigger] weak(p, q) by {
                    within_monotone(a, p, b, q, d);
                }
                assert forall|k: int| 0 <= k < x.rec_group_size implies #[trigger] same_member(
                    a,
                    x.rec_group_start,
                    b,
                    y.rec_group_start,
                    x.rec_group_size,
                    k,
                    weak,
                ) by {
                    assert(same_member(a, x.rec_group_start, b, y.rec_group_start, x.rec_group_size, k, rel));
                }
            },
            _ => {},
        }
    }
}

proof fn row_shrinks(a: Module, i: u32, b: Module, depth: nat, n: nat)
    ensures
        row(a, i, b, depth + 1, n) <= row(a, i, b, depth, n) <= n,
        row(a, i, b, depth + 1, n) == row(a, i, b, depth, n) ==> forall|j: int|
            0 <= j < n ==> #[trigger] equivalent_within(a, i, b, j as u32, depth + 1) == equivalent_within(
                a,
                i,
                b,
                j as u32,
                depth,
            ),
    decreases n,
{
    if n > 0 {
        row_shrinks(a, i, b, depth, (n - 1) as nat);
        let j = (n - 1) as u32;
        if equivalent_within(a, i, b, j, depth + 1) {
            within_monotone(a, i, b, j, depth);
        }
    }
}

proof fn pairs_shrink(a: Module, b: Module, depth: nat, m: nat)
    ensures
        pairs(a, b, depth + 1, m) <= pairs(a, b, depth, m) <= m * b.sub_types.len(),
        pairs(a, b, depth + 1, m) == pairs(a, b, depth, m) ==> forall|i: int, j: int|
            0 <= i < m && 0 <= j < b.sub_types.len() ==> #[trigger] equivalent_within(
                a,
                i as u32,
                b,
                j as u32,
                depth + 1,
            ) == equivalent_within(a, i as u32, b, j as u32, depth),
    decreases m,
{
    if m > 0 {
        let n = b.sub_types.len();
        pairs_shrink(a, b, depth, (m - 1) as nat);
        row_shrinks(a, (m - 1) as u32, b, depth, n);
        assert((m - 1) * n + n == m * n) by (nonlinear_arith);
    } else {
        assert(0 * b.sub_types.len() == 0);
    }
}

/// Whether one more reference changes nothing.
spec fn settled(a: Module, b: Module, depth: nat) -> bool {
    forall|i: u32, j: u32| #[trigger]
        equivalent_within(a, i, b, j, depth + 1) == equivalent_within(a, i, b, j, depth)
}

proof fn settled_after(a: Module, b: Module, depth: nat, more: nat)
    requires
        settled(a, b, depth),
    ensures
        settled(a, b, depth + more),
    decreases more,
{
    if more > 0 {
        let e = depth + more;
        let d = (e - 1) as nat;
        settled_after(a, b, depth, (more - 1) as nat);
        assert(depth + (more - 1) as nat == d);
        let next = relation(a, b, e);
        let now = relation(a, b, d);
        assert forall|p: u32, q: u32| #[trigger] next(p, q) == now(p, q) by {
            assert(equivalent_within(a, p, b, q, d + 1) == equivalent_within(a, p, b, q, d));
            assert(d + 1 == e);
        }
        assert(next =~= now);
        assert(((e + 1) - 1) as nat == e);
        assert forall|i: u32, j: u32| #[trigger]
            equivalent_within(a, i, b, j, e + 1) == equivalent_within(a, i, b, j, e) by {
            assert(relation(a, b, ((e + 1) - 1) as nat) == relation(a, b, (e - 1) as nat));
        }
    }
}

proof fn settled_when_equal(a: Module, b: Module, depth: nat)
    requires
        depth > 0,
        pairs(a, b, depth + 1, a.sub_types.len()) == pairs(a, b, depth, a.sub_types.len()),
    ensures
        settled(a, b, depth),
{
    pairs_shrink(a, b, depth, a.sub_types.len());
    assert forall|i: u32, j: u32| #[trigger]
        equivalent_within(a, i, b, j, depth + 1) == equivalent_within(a, i, b, j, depth) by {
        if i < a.sub_types.len() && j < b.sub_types.len() {
            assert((i as int) as u32 == i && (j as int) as u32 == j);
            assert(equivalent_within(a, (i as int) as u32, b, (j as int) as u32, depth + 1) == equivalent_within(
                a,
                (i as int) as u32,
                b,
                (j as int) as u32,
                depth,
            ));
        }
    }
}

proof fn settles(a: Module, b: Module, depth: nat)
    requires
        depth > 0,
    ensures
        settled(a, b, depth) || pairs(a, b, depth + 1, a.sub_types.len()) + depth <= a.sub_types.len()
            * b.sub_types.len(),
    decreases depth,
{
    let m = a.sub_types.len();
    pairs_shrink(a, b, depth, m);
    if pairs(a, b, depth + 1, m) == pairs(a, b, depth, m) {
        settled_when_equal(a, b, depth);
    } else if depth > 1 {
        let d = (depth - 1) as nat;
        settles(a, b, d);
        if settled(a, b, d) {
            settled_after(a, b, d, 1);
        }
    }
}

/// Two types that both have subtype information are equivalent if and only if they
/// stand at the same position in recursion groups of the same size, and all members
/// of the groups agree, references out of the groups being to equivalent types.
pub proof fn equivalence_by_groups(a: Module, i: u32, b: Module, j: u32)
    requires
        i < a.sub_types.len(),
        j < b.sub_types.len(),
    ensures
        equivalent(a, i, b, j) <==> {
            let x = a.sub_types[i as int];
            let y = b.sub_types[j as int];
            &&& x.rec_group_size == y.rec_group_size
            &&& i - x.rec_group_start == j - y.rec_group_start
            &&& same_groups(
                a,
                x.rec_group_start,
                b,
                y.rec_group_start,
                x.rec_group_size,
                relation(a, b, enough(a, b)),
            )
        },
{
    let d = enough(a, b);
    settles(a, b, d);
    assert(settled(a, b, d));
    assert(equivalent_within(a, i, b, j, d + 1) == equivalent_within(a, i, b, j, d));
}

/// Equivalent types are subtypes of each other.
pub proof fn equivalent_types_are_subtypes(a: Module, i: u32, b: Module, j: u32)
    requires
        equivalent(a, i, b, j),
    ensures
        subtype(a, i, b, j),
        subtype(b, j, a, i),
{
    equivalent_symmetric(a, i, b, j);
}

/// A declared supertype that has an equivalent elsewhere is one there too.
pub proof fn supertype_is_inherited(a: Module, src: u32, b: Module, dst: u32)
    requires
        src < a.sub_types.len(),
        a.sub_types[src as int].supertype matches Some(p) && equivalent(a, p, b, dst),
    ensures
        subtype(a, src, b, dst),
{
    reveal_with_fuel(descends, 2);
}

// ---------------------------------------------------------------------------
// Comparison

/// Whether two signatures are identical.
pub fn func_types_match(a: &FuncTypeDef, b: &FuncTypeDef) -> (r: bool)
    requires
        a.wf(),
        b.wf(),
    ensures
        r == (a@ == b@),
{
    if a.param_count != b.param_count || a.result_count != b.result_count {
        assert(a@.params.len() == a.param_count && b@.params.len() == b.param_count);
        assert(a@.results.len() == a.result_count && b@.results.len() == b.result_count);
        return false;
    }
    let mut i: usize = 0;
    while i < a.param_count as usize
        invariant
            a.wf(),
            b.wf(),
            a.param_count == b.param_count,
            i <= a.param_count,
            forall|k: int| 0 <= k < i ==> a.params@[k] == b.params@[k],
        decreases a.param_count - i,
    {
        if a.params[i] != b.params[i] {
            assert(a@.params[i as int] != b@.params[i as int]);
            return false;
        }
        i = i + 1;
    }
    assert(a@.params =~= b@.params);
    let mut j: usize = 0;
    while j < a.result_count as usize
        invariant
            a.wf(),
            b.wf(),
            a.result_count == b.result_count,
            j <= a.result_count,
            forall|k: int| 0 <= k < j ==> a.results@[k] == b.results@[k],
        decreases a.result_count - j,
    {
        if a.results[j] != b.results[j] {
            assert(a@.results[j as int] != b@.results[j as int]);
            return false;
        }
        j = j + 1;
    }
    assert(a@.results =~= b@.results);
    true
}

/// Whether the signatures at two indices exist and are identical.
fn signatures_match(a: &WasmModule, i: u64, b: &WasmModule, j: u64) -> (r: bool)
    requires
        a.wf(),
        b.wf(),
    ensures
        r == (i < a@.func_types.len() && j < b@.func_types.len() && a@.func_types[i as int] == b@.func_types[j as int]),
{
    if i >= a.func_types.len() as u64 || j >= b.func_types.len() as u64 {
        return false;
    }
    assert(a.func_types@[i as int].wf() && b.func_types@[j as int].wf());
    func_types_match(&a.func_types[i as usize], &b.func_types[j as usize])
}

/// Whether an index lies in a recursion group.
fn group_holds(idx: u32, start: u32, size: u32) -> (r: bool)
    ensures
        r == in_group(idx, start, size),
{
    idx >= start && ((idx - start) < size)
}

/// Whether two references agree.
fn references_match(
    a: &WasmModule,
    x: u32,
    start_a: u32,
    b: &WasmModule,
    y: u32,
    start_b: u32,
    size: u32,
    depth: u128,
) -> (r: bool)
    requires
        a.wf(),
        b.wf(),
    ensures
        r == same_reference(
            x,
            start_a,
            y,
            start_b,
            size,
            relation(a@, b@, depth as nat),
        ),
    decreases depth, 1int,
{
    let inside_a: bool = group_holds(x, start_a, size);
    let inside_b: bool = group_holds(y, start_b, size);
    if inside_a && inside_b {
        x - start_a == y - start_b
    } else if !inside_a && !inside_b {
        indices_match(a, x, b, y, depth)
    } else {
        false
    }
}

/// Whether two storage types agree.
fn storages_match(
    a: &WasmModule,
    x: StorageType,
    start_a: u32,
    b: &WasmModule,
    y: StorageType,
    start_b: u32,
    size: u32,
    depth: u128,
) -> (r: bool)
    requires
        a.wf(),
        b.wf(),
    ensures
        r == same_storage(
            x,
            start_a,
            y,
            start_b,
            size,
            relation(a@, b@, depth as nat),
        ),
    decreases depth, 2int,
{
    match (x, y) {
        (StorageType::I8, StorageType::I8) => true,
        (StorageType::I16, StorageType::I16) => true,
        (StorageType::Val(v), StorageType::Val(w)) => v == w,
        (StorageType::RefType(v, i), StorageType::RefType(w, j)) => v == w && references_match(
            a,
            i,
            start_a,
            b,
            j,
            start_b,
            size,
            depth,
        ),
        _ => false,
    }
}

/// Whether two lists of flags are equal.
fn flags_equal(a: &Vec<bool>, b: &Vec<bool>) -> (r: bool)
    ensures
        r == (a@ == b@),
{
    if a.len() != b.len() {
        return false;
    }
    let mut i: usize = 0;
    while i < a.len()
        invariant
            i <= a@.len(),
            a@.len() == b@.len(),
            forall|k: int| 0 <= k < i ==> a@[k] == b@[k],
        decreases a@.len() - i,
    {
        if a[i] != b[i] {
            assert(a@[i as int] != b@[i as int]);
            return false;
        }
        i = i + 1;
    }
    assert(a@ =~= b@);
    true
}

/// Whether two lists of fields agree.
fn fields_match(
    a: &WasmModule,
    s: &Vec<StorageType>,
    start_a: u32,
    b: &WasmModule,
    t: &Vec<StorageType>,
    start_b: u32,
    size: u32,
    depth: u128,
) -> (r: bool)
    requires
        a.wf(),
        b.wf(),
        s@.len() == t@.len(),
    ensures
        r == same_fields(
            s@,
            start_a,
            t@,
            start_b,
            size,
            relation(a@, b@, depth as nat),
        ),
    decreases depth, 3int,
{
    let ghost rel = relation(a@, b@, depth as nat);
    let mut k: usize = 0;
    while k < s.len()
        invariant
            a.wf(),
            b.wf(),
            k <= s@.len(),
            s@.len() == t@.len(),
            rel == relation(a@, b@, depth as nat),
            forall|f: int| 0 <= f < k ==> same_storage(#[trigger] s@[f], start_a, t@[f], start_b, size, rel),
        decreases s@.len() - k,
    {
        if !storages_match(a, s[k], start_a, b, t[k], start_b, size, depth) {
            assert(!same_storage(s@[k as int], start_a, t@[k as int], start_b, size, rel));
            return false;
        }
        k = k + 1;
    }
    true
}

/// Whether two composite types agree.
fn composites_match(
    a: &WasmModule,
    x: &GcTypeDef,
    start_a: u32,
    b: &WasmModule,
    y: &GcTypeDef,
    start_b: u32,
    size: u32,
    depth: u128,
) -> (r: bool)
    requires
        a.wf(),
        b.wf(),
    ensures
        r == same_composite(
            x@,
            start_a,
            y@,
            start_b,
            size,
            relation(a@, b@, depth as nat),
        ),
    decreases depth, 4int,
{
    match (x, y) {
        (GcTypeDef::Func, GcTypeDef::Func) => true,
        (
            GcTypeDef::Struct { field_types: s, field_muts: sm },
            GcTypeDef::Struct { field_types: t, field_muts: tm },
        ) => {
            if s.len() != t.len() || !flags_equal(sm, tm) {
                false
            } else {
                fields_match(a, s, start_a, b, t, start_b, size, depth)
            }
        },
        (
            GcTypeDef::Array { elem_type: s, elem_mutable: sm },
            GcTypeDef::Array { elem_type: t, elem_mutable: tm },
        ) => *sm == *tm && storages_match(a, *s, start_a, b, *t, start_b, size, depth),
        _ => false,
    }
}

/// Whether two places in the subtype hierarchy agree.
fn places_match(
    a: &WasmModule,
    x: SubTypeInfo,
    start_a: u32,
    b: &WasmModule,
    y: SubTypeInfo,
    start_b: u32,
    size: u32,
    depth: u128,
) -> (r: bool)
    requires
        a.wf(),
        b.wf(),
    ensures
        r == same_place(
            x,
            start_a,
            y,
            start_b,
            size,
            relation(a@, b@, depth as nat),
        ),
    decreases depth, 2int,
{
    if x.is_final != y.is_final {
        return false;
    }
    match (x.supertype, y.supertype) {
        (None, None) => true,
        (Some(p), Some(q)) => references_match(a, p, start_a, b, q, start_b, size, depth),
        _ => false,
    }
}

/// Whether the members numbered `k` of two recursion groups agree.
fn members_match(
    a: &WasmModule,
    start_a: u32,
    b: &WasmModule,
    start_b: u32,
    size: u32,
    k: u32,
    depth: u128,
) -> (r: bool)
    requires
        a.wf(),
        b.wf(),
    ensures
        r == same_member(
            a@,
            start_a,
            b@,
            start_b,
            size,
            k as int,
            relation(a@, b@, depth as nat),
        ),
    decreases depth, 5int,
{
    let i: u64 = start_a as u64 + k as u64;
    let j: u64 = start_b as u64 + k as u64;
    if !signatures_match(a, i, b, j) {
        return false;
    }
    let has_a: bool = i < a.gc_types.len() as u64;
    let has_b: bool = j < b.gc_types.len() as u64;
    if has_a != has_b {
        return false;
    }
    if has_a {
        if !composites_match(
            a,
            &a.gc_types[i as usize],
            start_a,
            b,
            &b.gc_types[j as usize],
            start_b,
            size,
            depth,
        ) {
            return false;
        }
    }
    if i < a.sub_types.len() as u64 && j < b.sub_types.len() as u64 {
        places_match(a, a.sub_types[i as usize], start_a, b, b.sub_types[j as usize], start_b, size, depth)
    } else {
        true
    }
}

/// Whether two types are equivalent as far as `depth` references show.
fn indices_match(a: &WasmModule, i: u32, b: &WasmModule, j: u32, depth: u128) -> (r: bool)
    requires
        a.wf(),
        b.wf(),
    ensures
        r == equivalent_within(a@, i, b@, j, depth as nat),
    decreases depth, 0int,
{
    if depth == 0 {
        return true;
    }
    if (i as usize) < a.sub_types.len() && (j as usize) < b.sub_types.len() {
        let x = a.sub_types[i as usize];
        let y = b.sub_types[j as usize];
        if x.rec_group_size != y.rec_group_size {
            return false;
        }
        if i as i64 - x.rec_group_start as i64 != j as i64 - y.rec_group_start as i64 {
            return false;
        }
        let ghost rel = relation(a@, b@, (depth - 1) as nat);
        let mut k: u32 = 0;
        while k < x.rec_group_size
            invariant
                a.wf(),
                b.wf(),
                k <= x.rec_group_size,
                depth > 0,
                i < a.sub_types@.len() && x == a.sub_types@[i as int],
                j < b.sub_types@.len() && y == b.sub_types@[j as int],
                x.rec_group_size == y.rec_group_size,
                rel == relation(a@, b@, (depth - 1) as nat),
                forall|f: int|
                    0 <= f < k ==> #[trigger] same_member(
                        a@,
                        x.rec_group_start,
                        b@,
                        y.rec_group_start,
                        x.rec_group_size,
                        f,
                        rel,
                    ),
            decreases x.rec_group_size - k,
        {
            if !members_match(a, x.rec_group_start, b, y.rec_group_start, x.rec_group_size, k, depth - 1) {
                assert(!same_member(
                    a@,
                    x.rec_group_start,
                    b@,
                    y.rec_group_start,
                    x.rec_group_size,
                    k as int,
                    rel,
                ));
                return false;
            }
            k = k + 1;
        }
        true
    } else {
        signatures_match(a, i as u64, b, j as u64)
    }
}

/// More references than a chain of comparisons can follow.
fn enough_steps(a: &WasmModule, b: &WasmModule) -> (r: u128)
    ensures
        r == enough(a@, b@),
{
    let n: u64 = a.sub_types.len() as u64;
    let m: u64 = b.sub_types.len() as u64;
    assert(0 <= n * m <= 0xFFFF_FFFF_FFFF_FFFF * 0xFFFF_FFFF_FFFF_FFFF) by (nonlinear_arith)
        requires
            0 <= n <= 0xFFFF_FFFF_FFFF_FFFF,
            0 <= m <= 0xFFFF_FFFF_FFFF_FFFF,
    ;
    n as u128 * m as u128 + 1
}

/// Whether two type indices, each of its own module, stand for equivalent types: at
/// the same position in recursion groups of the same size, all of whose members
/// agree.
pub fn type_indices_equivalent(mod_a: &WasmModule, type_idx_a: u32, mod_b: &WasmModule, type_idx_b: u32) -> (r: bool)
    requires
        mod_a.wf(),
        mod_b.wf(),
    ensures
        r == equivalent(mod_a@, type_idx_a, mod_b@, type_idx_b),
{
    let depth: u128 = enough_steps(mod_a, mod_b);
    indices_match(mod_a, type_idx_a, mod_b, type_idx_b, depth)
}

/// Whether two storage types agree, each seen from a type in the recursion group that
/// starts at the given index.
pub fn cross_module_storage_eq(
    a: &StorageType,
    rg_a: u32,
    mod_a: &WasmModule,
    b: &StorageType,
    rg_b: u32,
    mod_b: &WasmModule,
    rg_size: u32,
) -> (r: bool)
    requires
        mod_a.wf(),
        mod_b.wf(),
    ensures
        r == same_storage(*a, rg_a, *b, rg_b, rg_size, relation(mod_a@, mod_b@, enough(mod_a@, mod_b@))),
{
    let depth: u128 = enough_steps(mod_a, mod_b);
    storages_match(mod_a, *a, rg_a, mod_b, *b, rg_b, rg_size, depth)
}

/// Whether the type `src` of one module is a subtype of the type `dst` of another.
pub fn cross_module_type_subtype(mod_src: &WasmModule, src: u32, mod_dst: &WasmModule, dst: u32) -> (r: bool)
    requires
        mod_src.wf(),
        mod_dst.wf(),
    ensures
        r == subtype(mod_src@, src, mod_dst@, dst),
{
    if type_indices_equivalent(mod_src, src, mod_dst, dst) {
        return true;
    }
    let mut current: u32 = src;
    let mut i: u32 = 0;
    while i < MAX_SUPERTYPE_STEPS
        invariant
            mod_src.wf(),
            mod_dst.wf(),
            i <= MAX_SUPERTYPE_STEPS,
            subtype(mod_src@, src, mod_dst@, dst) == descends(
                mod_src@,
                current,
                mod_dst@,
                dst,
                (MAX_SUPERTYPE_STEPS - i) as nat,
            ),
        decreases MAX_SUPERTYPE_STEPS - i,
    {
        if (current as usize) >= mod_src.sub_types.len() {
            return false;
        }
        match mod_src.sub_types[current as usize].supertype {
            Some(parent) => {
                if type_indices_equivalent(mod_src, parent, mod_dst, dst) {
                    return true;
                }
                current = parent;
            },
            None => {
                return false;
            },
        }
        i = i + 1;
    }
    false
}

// ---------------------------------------------------------------------------
// Values and value types

/// Whether a type is a reference to functions.
pub open spec fn is_funcref(t: ValType) -> bool {
    t == ValType::FuncRef || t == ValType::TypedFuncRef || t == ValType::NonNullableFuncRef || t
        == ValType::NullableTypedFuncRef
}

/// Whether a byte announces a reference with a heap type.
pub open spec fn is_ref_byte(b: u8) -> bool {
    b == 0x63 || b == 0x64
}

/// Whether a heap type is a type index.
pub open spec fn is_concrete(ht: Option<i32>) -> bool {
    ht matches Some(h) && h >= 0
}

/// What an imported global may be bound to. With `exact`, the nullabilities must be
/// equal; else the import may admit null where the export does not.
pub open spec fn nullability_fits(import_null: bool, export_null: bool, exact: bool) -> bool {
    if exact {
        import_null == export_null
    } else {
        import_null || !export_null
    }
}

/// Whether an import of a global of reference type may be bound to an export. A
/// mutable global must have exactly the type imported; an immutable one may have a
/// subtype.
pub open spec fn global_fits(
    import_type: ValType,
    import_byte: u8,
    import_heap: Option<i32>,
    export_type: ValType,
    export_heap: Option<i32>,
    mutable: bool,
) -> bool {
    let imports_func = is_funcref(import_type) || (is_ref_byte(import_byte) && import_heap == Some(-16i32));
    let imports_extern = import_type == ValType::ExternRef || (is_ref_byte(import_byte) && import_heap == Some(-17i32));
    let imports_concrete = is_ref_byte(import_byte) && is_concrete(import_heap);
    let import_null = import_byte != 0x64 && import_type != ValType::TypedFuncRef && import_type
        != ValType::NonNullableFuncRef;
    let export_null = export_type == ValType::FuncRef || export_type == ValType::NullableTypedFuncRef || export_type
        == ValType::ExternRef;
    let same_index = imports_concrete && is_concrete(export_heap) && import_heap == export_heap;
    if mutable {
        if imports_func && is_funcref(export_type) && !is_concrete(export_heap) {
            nullability_fits(import_null, export_null, true)
        } else if imports_extern && export_type == ValType::ExternRef {
            true
        } else {
            same_index && nullability_fits(import_null, export_null, true)
        }
    } else {
        if imports_func {
            is_funcref(export_type) && nullability_fits(import_null, export_null, false)
        } else if imports_extern {
            export_type == ValType::ExternRef
        } else {
            same_index && nullability_fits(import_null, export_null, false)
        }
    }
}

/// What fits a mutable import fits an immutable one, unless the import is read both as
/// a function reference and as another one.
pub proof fn mutable_fit_is_stricter(
    import_type: ValType,
    import_byte: u8,
    import_heap: Option<i32>,
    export_type: ValType,
    export_heap: Option<i32>,
)
    requires
        is_funcref(import_type) ==> !is_ref_byte(import_byte),
        import_type == ValType::ExternRef ==> !is_ref_byte(import_byte),
        global_fits(import_type, import_byte, import_heap, export_type, export_heap, true),
    ensures
        global_fits(import_type, import_byte, import_heap, export_type, export_heap, false),
{
}

/// The value type that a byte of the binary format stands for. References with a
/// heap type count as `i32`.
pub open spec fn byte_type(b: u8) -> Option<ValType> {
    match b {
        0x7F => Some(ValType::I32),
        0x7E => Some(ValType::I64),
        0x7D => Some(ValType::F32),
        0x7C => Some(ValType::F64),
        0x7B => Some(ValType::V128),
        0x70 => Some(ValType::FuncRef),
        0x6F => Some(ValType::ExternRef),
        0x63 | 0x64 => Some(ValType::I32),
        0x69 => Some(ValType::ExnRef),
        _ => None,
    }
}

/// Whether a value may be held where a type is expected. References are held as
/// `i32`, null or a heap reference.
pub open spec fn value_fits(v: Value, t: ValType) -> bool {
    match v {
        Value::I32(_) => t == ValType::I32 || t == ValType::ExternRef || is_funcref(t),
        Value::I64(_) => t == ValType::I64,
        Value::F32(_) => t == ValType::F32,
        Value::F64(_) => t == ValType::F64,
        Value::V128(_) => t == ValType::V128,
        Value::NullRef => t == ValType::I32 || t == ValType::ExternRef || is_funcref(t),
        Value::GcRef(_) => t == ValType::I32 || t == ValType::FuncRef || t == ValType::ExternRef,
    }
}

/// The initial value of a number, vector, function or external reference type fits
/// the type.
pub proof fn initial_value_fits(t: ValType)
    requires
        t == ValType::I32 || t == ValType::I64 || t == ValType::F32 || t == ValType::F64 || t == ValType::V128
            || t == ValType::ExternRef || is_funcref(t),
    ensures
        value_fits(Value::zero_of(t), t),
{
}

fn is_funcref_family(t: ValType) -> (r: bool)
    ensures
        r == is_funcref(t),
{
    match t {
        ValType::FuncRef | ValType::TypedFuncRef | ValType::NonNullableFuncRef | ValType::NullableTypedFuncRef => true,
        _ => false,
    }
}

/// Whether an import of a global of reference type may be bound to an export. Heap
/// types are negative for abstract types, else type indices.
pub fn global_types_compatible(
    import_val_type: ValType,
    import_byte: u8,
    import_heap_type: Option<i32>,
    export_val_type: ValType,
    export_heap_type: Option<i32>,
    mutable: bool,
) -> (r: bool)
    ensures
        r == global_fits(
            import_val_type,
            import_byte,
            import_heap_type,
            export_val_type,
            export_heap_type,
            mutable,
        ),
{
    let ref_byte: bool = import_byte == 0x63 || import_byte == 0x64;
    let (import_abstract_func, import_abstract_extern, import_index) = match import_heap_type {
        Some(h) => (ref_byte && h == -16, ref_byte && h == -17, ref_byte && h >= 0),
        None => (false, false, false),
    };
    let imports_func: bool = is_funcref_family(import_val_type) || import_abstract_func;
    let imports_extern: bool = import_val_type == ValType::ExternRef || import_abstract_extern;
    let import_null: bool = import_byte != 0x64 && import_val_type != ValType::TypedFuncRef && import_val_type
        != ValType::NonNullableFuncRef;
    let export_concrete: bool = match export_heap_type {
        Some(h) => h >= 0,
        None => false,
    };
    let export_null: bool = export_val_type == ValType::FuncRef || export_val_type == ValType::NullableTypedFuncRef
        || export_val_type == ValType::ExternRef;
    let same_index: bool = match (import_heap_type, export_heap_type) {
        (Some(g), Some(h)) => import_index && export_concrete && g == h,
        _ => false,
    };
    if mutable {
        if imports_func && is_funcref_family(export_val_type) && !export_concrete {
            return import_null == export_null;
        }
        if imports_extern && export_val_type == ValType::ExternRef {
            return true;
        }
        return same_index && import_null == export_null;
    }
    if imports_func {
        return is_funcref_family(export_val_type) && (import_null || !export_null);
    }
    if imports_extern {
        return export_val_type == ValType::ExternRef;
    }
    same_index && (import_null || !export_null)
}

/// The value type that a byte of the binary format stands for.
pub fn decode_valtype_byte(byte: u8) -> (r: Option<ValType>)
    ensures
        r == byte_type(byte),
{
    match byte {
        0x7F => Some(ValType::I32),
        0x7E => Some(ValType::I64),
        0x7D => Some(ValType::F32),
        0x7C => Some(ValType::F64),
        0x7B => Some(ValType::V128),
        0x70 => Some(ValType::FuncRef),
        0x6F => Some(ValType::ExternRef),
        0x63 | 0x64 => Some(ValType::I32),
        0x69 => Some(ValType::ExnRef),
        _ => None,
    }
}

/// Whether two reference types may stand for each other in an import: both refer to
/// functions, or both are external.
pub fn ref_types_compatible(a: ValType, b: ValType) -> (r: bool)
    ensures
        r == ((is_funcref(a) && is_funcref(b)) || (a == ValType::ExternRef && b == ValType::ExternRef)),
{
    (is_funcref_family(a) && is_funcref_family(b)) || (a == ValType::ExternRef && b == ValType::ExternRef)
}

/// Whether a value may be held where a type is expected.
pub fn value_matches_type(value: Value, val_type: ValType) -> (r: bool)
    ensures
        r == value_fits(value, val_type),
{
    match value {
        Value::I32(_) => val_type == ValType::I32 || val_type == ValType::ExternRef || is_funcref_family(val_type),
        Value::I64(_) => val_type == ValType::I64,
        Value::F32(_) => val_type == ValType::F32,
        Value::F64(_) => val_type == ValType::F64,
        Value::V128(_) => val_type == ValType::V128,
        Value::NullRef => val_type == ValType::I32 || val_type == ValType::ExternRef || is_funcref_family(val_type),
        Value::GcRef(_) => val_type == ValType::I32 || val_type == ValType::FuncRef || val_type
            == ValType::ExternRef,
    }
}

} // verus!
