# compile

A code generator from WebAssembly to AArch64 machine code, written in Verus.

- `src/codegen/aarch64/native.rs`: encoders of single AArch64 instructions,
  each with the word it produces and the error for each bad operand.
- `src/codegen/aarch64/mod.rs`: function prologue and epilogue (saved
  registers, stack slots of locals), the translation of WebAssembly
  instructions, and `Generator`, which produces the machine code of a body.
- `src/codegen/aarch64/laws.rs`: properties of the generated code, such as
  the epilogue restoring the saved registers in reverse order.
- `src/wasm.rs`, `src/ir.rs`, `src/parse.rs`, `src/lib.rs`: decoding a module
  with `parity-wasm` into the bodies that code generation reads, and the
  `Compiler` interface; `src/compiler/` holds the first, smaller interface.
- `src/memory.rs`: the first-fit free list of the kernel heap.
- `src/evaluation.rs`: the function whose call the kernel times.
- `app/main.rs`: a command line driver.
