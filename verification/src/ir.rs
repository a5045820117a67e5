//! Intermediate representation of a WebAssembly module.
use vstd::prelude::*;

use crate::err::Error;
use crate::wasm::{decode_code_section, wasm_code_section, BodyModel, FunctionBody};

verus! {

/// The function bodies of a code section, taken by their contents.
pub open spec fn code_model(code: Option<Vec<FunctionBody>>) -> Option<Seq<BodyModel>> {
    match code {
        None => None,
        Some(v) => Some(v@.map_values(|b: FunctionBody| b@)),
    }
}

/// What generating a module gives: a module without a code section is an
/// error; a module without function bodies gives no code; a body cannot be
/// translated yet, so any body is an error.
pub open spec fn module_generate_spec(code: Option<Seq<BodyModel>>) -> Result<Seq<u8>, Error> {
    match code {
        None => Err(Error::Failure),
        Some(bodies) => if bodies.len() == 0 {
            Ok(Seq::empty())
        } else {
            Err(Error::Failure)
        },
    }
}

/// What parsing the bytes of a module gives: the module with the bodies of
/// its code section, or `Failure` where the bytes are no module.
pub open spec fn parse_spec(r: Result<Module, Error>, bytes: Seq<u8>) -> bool {
    match wasm_code_section(bytes) {
        None => r matches Err(e) && e == Error::Failure,
        Some(code) => r matches Ok(m) && m@ == code,
    }
}

/// Intermediate representation of a WebAssembly module: the bodies of its
/// code section, where it has one.
#[derive(Debug)]
pub struct Module {
    code: Option<Vec<FunctionBody>>,
}

impl View for Module {
    type V = Option<Seq<BodyModel>>;

    closed spec fn view(&self) -> Option<Seq<BodyModel>> {
        code_model(self.code)
    }
}

impl Module {
    pub fn new(code: Option<Vec<FunctionBody>>) -> (m: Module)
        ensures
            m@ == code_model(code),
    {
        Module { code }
    }

    /// Decodes the bytes of a module.
    pub fn parse(buf: &[u8]) -> (r: Result<Module, Error>)
        ensures
            parse_spec(r, buf@),
    {
        match decode_code_section(buf) {
            Ok(code) => Ok(Module::new(code)),
            Err(_) => Err(Error::Failure),
        }
    }

    /// The machine code of all function bodies, one after the other.
    pub fn generate(&self) -> (r: Result<Vec<u8>, Error>)
        ensures
            match r {
                Ok(v) => module_generate_spec(self@) == Ok::<Seq<u8>, Error>(v@),
                Err(e) => module_generate_spec(self@) == Err::<Seq<u8>, Error>(e),
            },
    {
        let bodies = match &self.code {
            Some(b) => b,
            None => return Err(Error::Failure),
        };
        let mut v: Vec<u8> = Vec::new();
        let n = bodies.len();
        assert(self@ == Some(bodies@.map_values(|b: FunctionBody| b@)));
        for i in 0..n
            invariant
                n == bodies@.len(),
                n > 0 ==> module_generate_spec(self@) == Err::<Seq<u8>, Error>(Error::Failure),
                i == 0,
                v@.len() == 0,
        {
            match generate_func(&bodies[i]) {
                Ok(mut bin) => v.append(&mut bin),
                Err(e) => return Err(e),
            }
        }
        assert(v@ =~= Seq::<u8>::empty());
        Ok(v)
    }
}

/// The machine code of one function body: not available yet.
fn generate_func(body: &FunctionBody) -> (r: Result<Vec<u8>, Error>)
    ensures
        r matches Err(e) && e == Error::Failure,
{
    Err(Error::Failure)
}

} // verus!
