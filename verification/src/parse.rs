//! Parsing of WebAssembly binaries.
use vstd::prelude::*;

use crate::err::Error;
use crate::ir::{parse_spec, Module};

verus! {

/// Decodes the bytes of a module.
pub fn parse(buf: &[u8]) -> (r: Result<Module, Error>)
    ensures
        parse_spec(r, buf@),
{
    Module::parse(buf)
}

} // verus!
