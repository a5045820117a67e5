//! The first version of the compiler interface, which parses a module and
//! generates no code yet.
use vstd::prelude::*;

pub mod ir;
pub mod parse;

use self::ir::Module;
use crate::wasm::{wasm_code_section, BodyModel};

verus! {

/// Compiles one WebAssembly module.
pub struct Compiler {
    module: Module,
}

impl View for Compiler {
    type V = Option<Seq<BodyModel>>;

    closed spec fn view(&self) -> Option<Seq<BodyModel>> {
        self.module@
    }
}

impl Compiler {
    pub fn new(module: Module) -> (c: Compiler)
        ensures
            c@ == module@,
    {
        Compiler { module }
    }

    /// A compiler for the module in `binary`; `Err` where the bytes are no
    /// module.
    pub fn parse(binary: &[u8]) -> (r: Result<Compiler, ()>)
        ensures
            match wasm_code_section(binary@) {
                None => r is Err,
                Some(code) => r matches Ok(c) && c@ == code,
            },
    {
        match parse::parse(binary) {
            Ok(module) => Ok(Compiler::new(module)),
            Err(e) => Err(e),
        }
    }

    /// The machine code of the module: none yet.
    pub fn generate(&self) -> (r: Vec<u8>)
        ensures
            r@.len() == 0,
    {
        Vec::new()
    }
}

} // verus!
