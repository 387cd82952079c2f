//! What the sections of a binary leave in the module, and what a binary must start with.

use vstd::prelude::*;
use crate::decode_sections::functions_at;
use crate::decoder::{decoded, section_contents, tags_at};
use crate::module::{Func, Module};
use crate::reader::leb_u32;
use crate::types::WasmError;

verus! {

/// A binary starts with a zero byte, the letters `asm` and the version one; anything shorter or
/// else is refused.
pub proof fn binaries_start_with_their_magic(s: Seq<u8>)
    ensures
        decoded(s) is Ok ==> {
            &&& s.len() >= 8
            &&& s[0] == 0x00 && s[1] == 0x61 && s[2] == 0x73 && s[3] == 0x6D
            &&& s[4] == 0x01 && s[5] == 0x00 && s[6] == 0x00 && s[7] == 0x00
        },
        s.len() < 8 ==> decoded(s) == Err::<Module, WasmError>(WasmError::InvalidMagic),
        s.len() >= 8 && s[0] == 0x00 && s[1] == 0x61 && s[2] == 0x73 && s[3] == 0x6D && !(s[4] == 0x01 && s[5] == 0x00
            && s[6] == 0x00 && s[7] == 0x00) ==> decoded(s) == Err::<Module, WasmError>(WasmError::UnsupportedVersion),
{
    if s.len() >= 8 {
        let (a, b) = (s.take(4), s.subrange(4, 8));
        let (c, d) = (seq![0x00u8, 0x61u8, 0x73u8, 0x6Du8], seq![0x01u8, 0x00u8, 0x00u8, 0x00u8]);
        assert(a[0] == s[0] && a[1] == s[1] && a[2] == s[2] && a[3] == s[3]);
        assert(b[0] == s[4] && b[1] == s[5] && b[2] == s[6] && b[3] == s[7]);
        assert(c[0] == 0x00 && c[1] == 0x61 && c[2] == 0x73 && c[3] == 0x6D);
        assert(d[0] == 0x01 && d[1] == 0x00 && d[2] == 0x00 && d[3] == 0x00);
        if s[0] == 0x00 && s[1] == 0x61 && s[2] == 0x73 && s[3] == 0x6D {
            assert(a =~= c);
        }
    }
}

/// A module whose code names data segments announces how many there are.
pub proof fn data_segments_are_announced(s: Seq<u8>)
    requires
        decoded(s) is Ok,
    ensures
        decoded(s)->Ok_0.code_uses_data_count ==> decoded(s)->Ok_0.data_count is Some,
        decoded(s)->Ok_0.data_count matches Some(n) ==> n == 0 || n == decoded(s)->Ok_0.data_segments.len(),
{
}

/// The start section names the start function, the data count section the number of data
/// segments; a custom section leaves the module as it is.
pub proof fn small_sections_are_written(s: Seq<u8>, p: int, end: int, m: Module, x: u32, q: int)
    requires
        leb_u32(s, p) == (Ok::<u32, WasmError>(x), q),
    ensures
        section_contents(s, p, end, 8, m) == (
            Ok::<Module, (WasmError, Module)>(Module { start_func: Some(x), ..m }),
            q,
        ),
        section_contents(s, p, end, 12, m) == (
            Ok::<Module, (WasmError, Module)>(Module { data_count: Some(x), ..m }),
            q,
        ),
        section_contents(s, p, end, 0, m).0 is Ok ==> section_contents(s, p, end, 0, m) == (
            Ok::<Module, (WasmError, Module)>(m),
            end,
        ),
        q + x > end ==> section_contents(s, p, end, 0, m).0 is Err,
{
    reveal(section_contents);
}

/// Functions are declared by the indices of their types, in order.
pub proof fn functions_are_declared(s: Seq<u8>, p: int, n: nat, m: Module, ti: u32, q: int)
    requires
        n > 0,
        leb_u32(s, p) == (Ok::<u32, WasmError>(ti), q),
    ensures
        ({
            let f = Func { type_idx: ti, ..Func::none() };
            functions_at(s, p, n, m) == functions_at(
                s,
                q,
                (n - 1) as nat,
                Module { functions: m.functions.push(f), ..m },
            )
        }),
        functions_at(s, p, 0, m) == (Ok::<Module, (WasmError, Module)>(m), p),
{
}

/// Tags are declared by one byte and the index of their type, in order; a type with results is
/// refused.
pub proof fn tags_are_declared(s: Seq<u8>, p: int, n: nat, m: Module, ti: u32, q: int)
    requires
        n > 0,
        0 <= p < s.len(),
        leb_u32(s, p + 1) == (Ok::<u32, WasmError>(ti), q),
        ti < m.func_types.len(),
    ensures
        m.func_types[ti as int].results.len() == 0 ==> tags_at(s, p, n, m) == tags_at(
            s,
            q,
            (n - 1) as nat,
            Module { tag_types: m.tag_types.push(ti), ..m },
        ),
        m.func_types[ti as int].results.len() > 0 ==> tags_at(s, p, n, m).0 is Err,
{
}

} // verus!
