//! Parsing of WebAssembly binaries.
use vstd::prelude::*;

use super::ir::Module;
use crate::wasm::wasm_code_section;

verus! {

/// Decodes the bytes of a module; `Err` where they are no module.
pub fn parse(buf: &[u8]) -> (r: Result<Module, ()>)
    ensures
        match wasm_code_section(buf@) {
            None => r is Err,
            Some(code) => r matches Ok(m) && m@ == code,
        },
{
    Module::parse_buffer(buf)
}

} // verus!
