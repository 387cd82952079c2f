//! Decoding of a whole binary module.

use vstd::prelude::*;
use vstd::utf8::valid_utf8;
use crate::decode_code::{code_section, decode_code_section};
use crate::decode_sections::{
    decode_export_section, decode_function_section, decode_import_section, decode_memory_section, export_section,
    function_section, import_section, memory_section,
};
use crate::decode_segments::{
    data_count_section, data_section, decode_data_count_section, decode_data_section, decode_element_section,
    decode_global_section, decode_start_section, decode_table_section, element_section, global_section,
    start_section, table_section,
};
use crate::decode_types::{decode_type_section, type_section, yields, Reading};
use crate::module::{group_views, Module, WasmModule};
use crate::reader::{byte_at, decode_leb128_u32, group_leb_moves, leb_u32, read_byte, validate_utf8, Parsed};
use crate::types::WasmError;

verus! {

broadcast use {group_leb_moves, group_views};

const SECTION_TYPE: u8 = 1;

const SECTION_IMPORT: u8 = 2;

const SECTION_FUNCTION: u8 = 3;

const SECTION_TABLE: u8 = 4;

const SECTION_MEMORY: u8 = 5;

const SECTION_GLOBAL: u8 = 6;

const SECTION_EXPORT: u8 = 7;

const SECTION_START: u8 = 8;

const SECTION_ELEMENT: u8 = 9;

const SECTION_CODE: u8 = 10;

const SECTION_DATA: u8 = 11;

const SECTION_DATA_COUNT: u8 = 12;

const SECTION_TAG: u8 = 13;

/// Where a section stands in the canonical order: tags between memories and
/// globals, the data count between elements and code.
pub open spec fn canonical_order(id: u8) -> u8 {
    match id {
        0 => 0,
        1 => 1,
        2 => 2,
        3 => 3,
        4 => 4,
        5 => 5,
        13 => 6,
        6 => 7,
        7 => 8,
        8 => 9,
        9 => 10,
        12 => 11,
        10 => 12,
        11 => 13,
        _ => 255,
    }
}

/// `n` exception tags at `p`. A tag's type, where the module has it, has no results.
pub open spec fn tags_at(s: Seq<u8>, p: int, n: nat, m: Module) -> Reading<Module>
    decreases n,
{
    if n == 0 {
        (Ok(m), p)
    } else {
        let a = byte_at(s, p);
        match a.0 {
            Err(e) => (Err((e, m)), a.1),
            Ok(_) => {
                let r = leb_u32(s, a.1);
                match r.0 {
                    Err(e) => (Err((e, m)), r.1),
                    Ok(ti) => if ti < m.func_types.len() && m.func_types[ti as int].results.len() > 0 {
                        (Err((WasmError::TypeMismatch, m)), r.1)
                    } else {
                        tags_at(s, r.1, (n - 1) as nat, Module { tag_types: m.tag_types.push(ti), ..m })
                    },
                }
            },
        }
    }
}

/// The tag section at `p`.
pub open spec fn tag_section(s: Seq<u8>, p: int, m: Module) -> Reading<Module> {
    let c = leb_u32(s, p);
    match c.0 {
        Err(e) => (Err((e, m)), c.1),
        Ok(count) => tags_at(s, c.1, count as nat, m),
    }
}

/// A custom section between `p` and `end`: its name is checked, the rest is skipped.
pub open spec fn custom_section(s: Seq<u8>, p: int, end: int, m: Module) -> Reading<Module> {
    let l = leb_u32(s, p);
    match l.0 {
        Err(e) => (Err((e, m)), l.1),
        Ok(len) => if l.1 + len > end {
            (Err((WasmError::UnexpectedEnd, m)), l.1)
        } else if !valid_utf8(s.subrange(l.1, l.1 + len)) {
            (Err((WasmError::MalformedUtf8, m)), l.1)
        } else {
            (Ok(m), end)
        },
    }
}

/// The contents of the section numbered `id`, between `p` and `end`.
#[verifier::opaque]
pub open spec fn section_contents(s: Seq<u8>, p: int, end: int, id: u8, m: Module) -> Reading<Module> {
    match id {
        0 => custom_section(s, p, end, m),
        1 => type_section(s, p, m),
        2 => import_section(s, p, m),
        3 => function_section(s, p, m),
        4 => table_section(s, p, m),
        5 => memory_section(s, p, m),
        6 => global_section(s, p, m),
        7 => export_section(s, p, m),
        8 => start_section(s, p, m),
        9 => element_section(s, p, m),
        10 => code_section(s, p, end, m),
        11 => data_section(s, p, m),
        12 => data_count_section(s, p, m),
        _ => tag_section(s, p, m),
    }
}

/// The header of a section at `p`, where `last` is the last section before it that
/// was not custom: its number, and where its contents end.
pub open spec fn section_header(s: Seq<u8>, p: int, last: u8) -> Parsed<(u8, int)> {
    let b = byte_at(s, p);
    match b.0 {
        Err(e) => (Err(e), b.1),
        Ok(id) => if id > 13 || (id != 0 && canonical_order(id) <= canonical_order(last)) {
            (Err(WasmError::InvalidSection), b.1)
        } else {
            let l = leb_u32(s, b.1);
            match l.0 {
                Err(e) => (Err(e), l.1),
                Ok(len) => if l.1 + len > s.len() {
                    (Err(WasmError::UnexpectedEnd), l.1)
                } else {
                    (Ok((id, l.1 + len)), l.1)
                },
            }
        },
    }
}

/// The sections from `p` on, read into `m`, and whether a data section is among
/// them or was before. Each fills its announced length exactly.
pub open spec fn sections_from(s: Seq<u8>, p: int, m: Module, last: u8, has_data: bool) -> Result<
    (Module, bool),
    WasmError,
>
    decreases s.len() - p,
{
    if p < 0 || p >= s.len() {
        Ok((m, has_data))
    } else {
        let h = section_header(s, p, last);
        match h.0 {
            Err(e) => Err(e),
            Ok((id, end)) => {
                let c = section_contents(s, h.1, end, id, m);
                match c.0 {
                    Err((e, _)) => Err(e),
                    Ok(m2) => if id != 0 && c.1 != end {
                        Err(WasmError::InvalidSection)
                    } else {
                        sections_from(
                            s,
                            end,
                            m2,
                            if id == 0 {
                                last
                            } else {
                                id
                            },
                            has_data || id == 11,
                        )
                    },
                }
            },
        }
    }
}

/// Whether the announced number of data segments fits the module.
pub open spec fn data_count_fits(m: Module, has_data: bool) -> bool {
    match m.data_count {
        Some(n) => n == if has_data {
            m.data_segments.len()
        } else {
            0
        },
        None => !m.code_uses_data_count,
    }
}

/// The module that a binary spells.
pub open spec fn decoded(s: Seq<u8>) -> Result<Module, WasmError> {
    if s.len() < 8 || s.take(4) != seq![0x00u8, 0x61u8, 0x73u8, 0x6Du8] {
        Err(WasmError::InvalidMagic)
    } else if s.subrange(4, 8) != seq![0x01u8, 0x00u8, 0x00u8, 0x00u8] {
        Err(WasmError::UnsupportedVersion)
    } else {
        match sections_from(s, 8, Module::none(), 0, false) {
            Err(e) => Err(e),
            Ok((m, has_data)) => if data_count_fits(m, has_data) {
                Ok(m)
            } else {
                Err(WasmError::InvalidSection)
            },
        }
    }
}

/// The numbers of the sections from `p` on that are not custom.
pub open spec fn section_ids(s: Seq<u8>, p: int, last: u8) -> Seq<u8>
    decreases s.len() - p,
{
    if p < 0 || p >= s.len() {
        Seq::empty()
    } else {
        let h = section_header(s, p, last);
        match h.0 {
            Err(_) => Seq::empty(),
            Ok((id, end)) => if id == 0 {
                section_ids(s, end, last)
            } else {
                seq![id] + section_ids(s, end, id)
            },
        }
    }
}

/// Whether sections come after `last` in the canonical order, and in this order among
/// themselves.
spec fn ordered_after(ids: Seq<u8>, last: u8) -> bool {
    &&& forall|i: int| 0 <= i < ids.len() ==> canonical_order(last) < canonical_order(#[trigger] ids[i])
    &&& forall|i: int, j: int|
        0 <= i < j < ids.len() ==> canonical_order(#[trigger] ids[i]) < canonical_order(#[trigger] ids[j])
}

proof fn ordered_with_first(id: u8, rest: Seq<u8>, last: u8)
    requires
        canonical_order(last) < canonical_order(id),
        ordered_after(rest, id),
    ensures
        ordered_after(seq![id] + rest, last),
{
    let all = seq![id] + rest;
    assert forall|i: int| 0 <= i < all.len() implies canonical_order(last) < canonical_order(#[trigger] all[i]) by {
        if i > 0 {
            assert(all[i] == rest[i - 1]);
        }
    }
    assert forall|i: int, j: int| 0 <= i < j < all.len() implies canonical_order(#[trigger] all[i]) < canonical_order(
        #[trigger] all[j],
    ) by {
        assert(all[j] == rest[j - 1]);
        if i > 0 {
            assert(all[i] == rest[i - 1]);
        }
    }
}

proof fn ids_ordered(s: Seq<u8>, p: int, last: u8)
    ensures
        ordered_after(section_ids(s, p, last), last),
    decreases s.len() - p,
{
    if 0 <= p < s.len() {
        if let Ok((id, end)) = section_header(s, p, last).0 {
            if id == 0 {
                ids_ordered(s, end, last);
            } else {
                ids_ordered(s, end, id);
                ordered_with_first(id, section_ids(s, end, id), last);
            }
        }
    }
}

/// The sections of a binary, as far as their headers can be read, come in the canonical
/// order, each at most once.
pub proof fn sections_are_ordered(s: Seq<u8>, i: int, j: int)
    requires
        0 <= i < j < section_ids(s, 8, 0).len(),
    ensures
        canonical_order(section_ids(s, 8, 0)[i]) < canonical_order(section_ids(s, 8, 0)[j]),
        section_ids(s, 8, 0)[i] != section_ids(s, 8, 0)[j],
{
    ids_ordered(s, 8, 0);
}

/// Of a binary that decodes, the header of every section can be read: the sections end
/// where the binary ends.
pub proof fn decoded_is_read_to_the_end(s: Seq<u8>)
    requires
        decoded(s) is Ok,
    ensures
        sections_end(s, 8, 0) == s.len(),
{
    sections_end_at_end(s, 8, Module::none(), 0, false);
}

/// Where the sections from `p` on end, as far as their headers can be read.
pub open spec fn sections_end(s: Seq<u8>, p: int, last: u8) -> int
    decreases s.len() - p,
{
    if p < 0 || p >= s.len() {
        p
    } else {
        let h = section_header(s, p, last);
        match h.0 {
            Err(_) => p,
            Ok((id, end)) => sections_end(
                s,
                end,
                if id == 0 {
                    last
                } else {
                    id
                },
            ),
        }
    }
}

proof fn sections_end_at_end(s: Seq<u8>, p: int, m: Module, last: u8, has_data: bool)
    requires
        0 <= p <= s.len(),
        sections_from(s, p, m, last, has_data) is Ok,
    ensures
        sections_end(s, p, last) == s.len(),
    decreases s.len() - p,
{
    if p < s.len() {
        let h = section_header(s, p, last);
        if let Ok((id, end)) = h.0 {
            let c = section_contents(s, h.1, end, id, m);
            if let Ok(m2) = c.0 {
                sections_end_at_end(
                    s,
                    end,
                    m2,
                    if id == 0 {
                        last
                    } else {
                        id
                    },
                    has_data || id == 11,
                );
            }
        }
    }
}

/// Where a section stands in the canonical order.
fn section_order(id: u8) -> (r: u8)
    ensures
        r == canonical_order(id),
{
    match id {
        0 => 0,
        SECTION_TYPE => 1,
        SECTION_IMPORT => 2,
        SECTION_FUNCTION => 3,
        SECTION_TABLE => 4,
        SECTION_MEMORY => 5,
        SECTION_TAG => 6,
        SECTION_GLOBAL => 7,
        SECTION_EXPORT => 8,
        SECTION_START => 9,
        SECTION_ELEMENT => 10,
        SECTION_DATA_COUNT => 11,
        SECTION_CODE => 12,
        SECTION_DATA => 13,
        _ => 255,
    }
}

/// Reads the tag section.
fn decode_tag_section(bytes: &[u8], pos: &mut usize, module: &mut WasmModule) -> (r: Result<(), WasmError>)
    requires
        old(module).wf(),
    ensures
        yields(r, *final(pos), *final(module), tag_section(bytes@, *old(pos) as int, old(module)@)),
        final(module).wf(),
        old(module).aligned() ==> final(module).aligned(),
{
    let count: u32 = decode_leb128_u32(bytes, pos)?;
    let mut i: u32 = 0;
    while i < count
        invariant
            i <= count,
            module.wf(),
            old(module).aligned() ==> module.aligned(),
            tag_section(bytes@, *old(pos) as int, old(module)@) == tags_at(
                bytes@,
                *pos as int,
                (count - i) as nat,
                module@,
            ),
        decreases count - i,
    {
        let _attribute: u8 = read_byte(bytes, pos)?;
        let ti: u32 = decode_leb128_u32(bytes, pos)?;
        if (ti as usize) < module.func_types.len() {
            assert(module.func_types@[ti as int].wf());
            if module.func_types[ti as usize].result_count > 0 {
                return Err(WasmError::TypeMismatch);
            }
        }
        module.tag_types.push(ti);
        i = i + 1;
    }
    Ok(())
}

/// Checks the name of a custom section and skips the rest of it.
fn skip_custom_section(bytes: &[u8], pos: &mut usize, end: usize, module: &WasmModule) -> (r: Result<(), WasmError>)
    requires
        end <= bytes@.len(),
    ensures
        yields(r, *final(pos), *module, custom_section(bytes@, *old(pos) as int, end as int, module@)),
{
    let len: usize = decode_leb128_u32(bytes, pos)? as usize;
    if *pos > end || len > end - *pos {
        return Err(WasmError::UnexpectedEnd);
    }
    validate_utf8(vstd::slice::slice_subrange(bytes, *pos, *pos + len))?;
    *pos = end;
    Ok(())
}

/// Reads the contents of a section.
fn decode_section(bytes: &[u8], pos: &mut usize, end: usize, id: u8, module: &mut WasmModule) -> (r: Result<
    (),
    WasmError,
>)
    requires
        old(module).wf(),
        end <= bytes@.len(),
        id <= 13,
    ensures
        yields(
            r,
            *final(pos),
            *final(module),
            section_contents(bytes@, *old(pos) as int, end as int, id, old(module)@),
        ),
        final(module).wf(),
        old(module).aligned() ==> final(module).aligned(),
{
    reveal(section_contents);
    match id {
        0 => skip_custom_section(bytes, pos, end, module),
        SECTION_TYPE => decode_type_section(bytes, pos, module),
        SECTION_IMPORT => decode_import_section(bytes, pos, module),
        SECTION_FUNCTION => decode_function_section(bytes, pos, module),
        SECTION_TABLE => decode_table_section(bytes, pos, module),
        SECTION_MEMORY => decode_memory_section(bytes, pos, module),
        SECTION_GLOBAL => decode_global_section(bytes, pos, module),
        SECTION_EXPORT => decode_export_section(bytes, pos, module),
        SECTION_START => decode_start_section(bytes, pos, module),
        SECTION_ELEMENT => decode_element_section(bytes, pos, module),
        SECTION_CODE => decode_code_section(bytes, pos, end, module),
        SECTION_DATA => decode_data_section(bytes, pos, module),
        SECTION_DATA_COUNT => decode_data_count_section(bytes, pos, module),
        _ => decode_tag_section(bytes, pos, module),
    }
}

/// Reads the header of a section.
fn decode_section_header(bytes: &[u8], pos: &mut usize, last: u8) -> (r: Result<(u8, usize), WasmError>)
    ensures
        ({
            let e = section_header(bytes@, *old(pos) as int, last);
            &&& *final(pos) == e.1
            &&& match r {
                Ok(h) => e.0 == Ok::<(u8, int), WasmError>((h.0, h.1 as int)),
                Err(x) => e.0 == Err::<(u8, int), WasmError>(x),
            }
        }),
        r matches Ok(h) ==> h.0 <= 13 && *old(pos) < *final(pos) <= h.1 <= bytes@.len(),
{
    let id: u8 = read_byte(bytes, pos)?;
    if id > SECTION_TAG {
        return Err(WasmError::InvalidSection);
    }
    if id != 0 && section_order(id) <= section_order(last) {
        return Err(WasmError::InvalidSection);
    }
    let len: usize = decode_leb128_u32(bytes, pos)? as usize;
    if len > bytes.len() - *pos {
        return Err(WasmError::UnexpectedEnd);
    }
    Ok((id, *pos + len))
}

/// Checks the magic number and the version.
fn check_preamble(bytes: &[u8]) -> (r: Result<(), WasmError>)
    ensures
        r == if bytes@.len() < 8 || bytes@.take(4) != seq![0x00u8, 0x61u8, 0x73u8, 0x6Du8] {
            Err::<(), WasmError>(WasmError::InvalidMagic)
        } else if bytes@.subrange(4, 8) != seq![0x01u8, 0x00u8, 0x00u8, 0x00u8] {
            Err(WasmError::UnsupportedVersion)
        } else {
            Ok(())
        },
{
    if bytes.len() < 8 {
        return Err(WasmError::InvalidMagic);
    }
    proof {
        let m = bytes@.take(4);
        let v = bytes@.subrange(4, 8);
        assert(m[0] == bytes@[0] && m[1] == bytes@[1] && m[2] == bytes@[2] && m[3] == bytes@[3]);
        assert(v[0] == bytes@[4] && v[1] == bytes@[5] && v[2] == bytes@[6] && v[3] == bytes@[7]);
        if bytes@[0] == 0x00 && bytes@[1] == 0x61 && bytes@[2] == 0x73 && bytes@[3] == 0x6D {
            assert(m =~= seq![0x00u8, 0x61u8, 0x73u8, 0x6Du8]);
        }
        if bytes@[4] == 0x01 && bytes@[5] == 0x00 && bytes@[6] == 0x00 && bytes@[7] == 0x00 {
            assert(v =~= seq![0x01u8, 0x00u8, 0x00u8, 0x00u8]);
        }
    }
    if bytes[0] != 0x00 || bytes[1] != 0x61 || bytes[2] != 0x73 || bytes[3] != 0x6D {
        return Err(WasmError::InvalidMagic);
    }
    if bytes[4] != 0x01 || bytes[5] != 0x00 || bytes[6] != 0x00 || bytes[7] != 0x00 {
        return Err(WasmError::UnsupportedVersion);
    }
    Ok(())
}

/// Decodes a binary module.
pub fn decode(bytes: &[u8]) -> (r: Result<WasmModule, WasmError>)
    ensures
        match r {
            Ok(m) => decoded(bytes@) == Ok::<Module, WasmError>(m@) && m.complete(),
            Err(e) => decoded(bytes@) == Err::<Module, WasmError>(e),
        },
{
    check_preamble(bytes)?;
    let mut module = WasmModule::new();
    let mut pos: usize = 8;
    let mut last: u8 = 0;
    let mut has_data: bool = false;
    let ghost all = sections_from(bytes@, 8, Module::none(), 0, false);
    while pos < bytes.len()
        invariant
            module.complete(),
            all == sections_from(bytes@, pos as int, module@, last, has_data),
            decoded(bytes@) == match all {
                Err(e) => Err::<Module, WasmError>(e),
                Ok((m, d)) => if data_count_fits(m, d) {
                    Ok(m)
                } else {
                    Err(WasmError::InvalidSection)
                },
            },
        decreases bytes@.len() - pos,
    {
        let (id, end) = decode_section_header(bytes, &mut pos, last)?;
        decode_section(bytes, &mut pos, end, id, &mut module)?;
        if id != 0 {
            if pos != end {
                return Err(WasmError::InvalidSection);
            }
            last = id;
        }
        if id == SECTION_DATA {
            has_data = true;
        }
        pos = end;
    }
    match module.data_count {
        Some(n) => {
            if has_data {
                if module.data_segments.len() != n as usize {
                    return Err(WasmError::InvalidSection);
                }
            } else if n != 0 {
                return Err(WasmError::InvalidSection);
            }
        },
        None => {
            if module.code_uses_data_count {
                return Err(WasmError::InvalidSection);
            }
        },
    }
    Ok(module)
}

} // verus!
