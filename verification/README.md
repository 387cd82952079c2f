# wasm

A WebAssembly decoder, linker and interpreter whose behaviour is stated and proved with
Verus.

The interpreter executes one instruction at a time and pays for each with a unit of
fuel. When the fuel runs out, when an imported function is called or when a
floating-point result is needed, the run pauses and the embedder goes on with it.

## Layout

`src/` is the library. Every function in it is verified but two, which call the standard
library and whose contracts are taken on trust: `is_utf8` in `reader`
(`core::str::from_utf8`) and `text_of` in `instance` (`String::from_utf8_lossy`).

| Modules | What they hold |
| --- | --- |
| `types`, `gc_types`, `module` | values, types, errors and the decoded module |
| `bytes`, `num`, `reader` | byte order, numbers of a given width, LEB128 |
| `decode_types`, `decode_sections`, `decode_segments`, `decode_code`, `decoder` | the sections of a module and the module as a whole |
| `immediates`, `scan`, `init_expr` | the lengths of instructions, the ends of blocks, initializers |
| `machine` | the state of an instance and its mathematical model `Machine` |
| `float_bits`, `numeric`, `lanes` | arithmetic on patterns of bits, on integers and on the lanes of vectors |
| `memory`, `bulk`, `atomics`, `heap`, `gc_ops`, `simd`, `plain`, `blocks`, `calls`, `exceptions`, `transfers` | the instructions, by what they work on |
| `step`, `run` | one instruction, and a run of them |
| `const_eval`, `instantiate` | constant expressions on the heap, new instances |
| `linker`, `instance`, `host` | what crosses the border of a module |
| `coherence`, `program`, `metering` | what holds of every decoded module, what no instruction changes, and what fuel decides |

Each instruction is a function on `Machine`: from a state to the next state and a
result. The contract of the executable function says that it does the same to the
instance.

`app/` is the embedder: it loads a module, runs it, answers host calls and computes
with floating-point numbers.

`tests/` runs the library on concrete modules.
