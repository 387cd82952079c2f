//! A WebAssembly decoder and interpreter.

use vstd::prelude::*;

pub mod atomic_laws;
pub mod atomics;
pub mod block_laws;
pub mod blocks;
pub mod bulk;
pub mod bytes;
pub mod call_laws;
pub mod calls;
pub mod coherence;
pub mod const_eval;
pub mod const_laws;
pub mod control_laws;
pub mod decode_code;
pub mod decode_laws;
pub mod decode_sections;
pub mod decode_segments;
pub mod decode_types;
pub mod decoder;
pub mod exception_laws;
pub mod exceptions;
pub mod float_bits;
pub mod float_lane_laws;
pub mod float_laws;
pub mod gc_ops;
pub mod gc_types;
pub mod heap;
pub mod heap_laws;
pub mod host;
pub mod host_laws;
pub mod immediates;
pub mod init_expr;
pub mod instance;
pub mod instantiate;
pub mod lane_laws;
pub mod lanes;
pub mod legacy_laws;
pub mod link_laws;
pub mod linker;
pub mod machine;
pub mod memory;
pub mod memory_laws;
pub mod metering;
pub mod module;
pub mod movement_laws;
pub mod num;
pub mod numeric;
pub mod plain;
pub mod object_laws;
pub mod program;
pub mod reader;
pub mod run;
pub mod scalar_laws;
pub mod scan;
pub mod scan_laws;
pub mod section_laws;
pub mod simd;
pub mod situation;
pub mod start_laws;
pub mod step;
pub mod table_laws;
pub mod transfers;
pub mod type_laws;
pub mod types;
pub mod vector_laws;
pub mod wide_laws;

verus! {
}
