//! Intermediate representation of a WebAssembly module.
use vstd::prelude::*;

use crate::ir::code_model;
use crate::wasm::{decode_code_section, wasm_code_section, BodyModel, FunctionBody};

verus! {

/// Intermediate representation of a WebAssembly module: the bodies of its
/// code section, where it has one.
#[derive(Debug)]
pub struct Module {
    inner: Option<Vec<FunctionBody>>,
}

impl View for Module {
    type V = Option<Seq<BodyModel>>;

    closed spec fn view(&self) -> Option<Seq<BodyModel>> {
        code_model(self.inner)
    }
}

impl Module {
    pub fn new(module: Option<Vec<FunctionBody>>) -> (m: Module)
        ensures
            m@ == code_model(module),
    {
        Module { inner: module }
    }

    /// Decodes the bytes of a module; `Err` where they are no module.
    pub fn parse_buffer(buf: &[u8]) -> (r: Result<Module, ()>)
        ensures
            match wasm_code_section(buf@) {
                None => r is Err,
                Some(code) => r matches Ok(m) && m@ == code,
            },
    {
        match decode_code_section(buf) {
            Ok(code) => Ok(Module::new(code)),
            Err(_) => Err(()),
        }
    }
}

} // verus!
