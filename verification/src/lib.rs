//! A WebAssembly to AArch64 code generator.
use vstd::prelude::*;

pub mod codegen;
pub mod compiler;
pub mod err;
pub mod evaluation;
pub mod ir;
pub mod memory;
pub mod parse;
pub mod wasm;

use crate::err::Error;
use crate::ir::{module_generate_spec, parse_spec, Module};
use crate::wasm::{wasm_code_section, BodyModel};

verus! {

/// Compiles one WebAssembly module.
pub struct Compiler {
    module: Module,
}

impl View for Compiler {
    type V = Option<Seq<BodyModel>>;

    /// The bodies of the module's code section.
    closed spec fn view(&self) -> Option<Seq<BodyModel>> {
        self.module@
    }
}

impl Compiler {
    pub fn new(module: Module) -> (c: Compiler)
        ensures
            c@ == module@,
    {
        Compiler { module }
    }

    /// A compiler for the module in `binary`; `Failure` where the bytes are
    /// no module.
    pub fn parse(binary: &[u8]) -> (r: Result<Compiler, Error>)
        ensures
            match wasm_code_section(binary@) {
                None => r matches Err(e) && e == Error::Failure,
                Some(code) => r matches Ok(c) && c@ == code,
            },
    {
        match parse::parse(binary) {
            Ok(module) => Ok(Compiler::new(module)),
            Err(e) => Err(e),
        }
    }

    /// The machine code of the module.
    pub fn generate(&self) -> (r: Result<Vec<u8>, Error>)
        ensures
            match r {
                Ok(v) => module_generate_spec(self@) == Ok::<Seq<u8>, Error>(v@),
                Err(e) => module_generate_spec(self@) == Err::<Seq<u8>, Error>(e),
            },
    {
        self.module.generate()
    }
}

} // verus!
