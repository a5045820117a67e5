//! The parts of a WebAssembly module that code generation reads.
use vstd::prelude::*;

use parity_wasm::elements::Instruction as WasmInstruction;
use parity_wasm::elements::Module as WasmModule;

verus! {

/// A run of local variables of one function declared together.
#[derive(Debug, Clone, Copy, PartialEq, Eq, Structural)]
pub struct Local {
    pub count: u32,
}

impl Local {
    pub fn new(count: u32) -> (l: Local)
        ensures
            l.count == count,
    {
        Local { count }
    }

    /// The number of locals in the run.
    pub fn count(&self) -> (c: u32)
        ensures
            c == self.count,
    {
        self.count
    }
}

/// One WebAssembly instruction, as far as code generation tells them apart.
/// `Other` holds the printed form of any instruction that has no translation.
#[derive(Debug)]
pub enum Instr {
    I32Const(i32),
    I32Add,
    GetLocal(u32),
    SetLocal(u32),
    End,
    Other(String),
}

impl Instr {
    /// A copy of the instruction.
    pub fn copy(&self) -> (r: Instr)
        ensures
            r == *self,
    {
        match self {
            Instr::I32Const(x) => Instr::I32Const(*x),
            Instr::I32Add => Instr::I32Add,
            Instr::GetLocal(l) => Instr::GetLocal(*l),
            Instr::SetLocal(l) => Instr::SetLocal(*l),
            Instr::End => Instr::End,
            Instr::Other(s) => Instr::Other(s.clone()),
        }
    }
}

/// The body of one function: its local declarations and its instructions.
#[derive(Debug)]
pub struct FunctionBody {
    pub locals: Vec<Local>,
    pub code: Vec<Instr>,
}

/// The contents of a function body.
pub struct BodyModel {
    pub locals: Seq<Local>,
    pub code: Seq<Instr>,
}

impl View for FunctionBody {
    type V = BodyModel;

    open spec fn view(&self) -> BodyModel {
        BodyModel { locals: self.locals@, code: self.code@ }
    }
}

impl FunctionBody {
    pub fn new(locals: Vec<Local>, code: Vec<Instr>) -> (b: FunctionBody)
        ensures
            b.locals@ == locals@,
            b.code@ == code@,
    {
        FunctionBody { locals, code }
    }

    /// A copy of the body.
    pub fn copy(&self) -> (r: FunctionBody)
        ensures
            r@ == self@,
    {
        let mut locals: Vec<Local> = Vec::new();
        let mut code: Vec<Instr> = Vec::new();
        let n = self.locals.len();
        for i in 0..n
            invariant
                n == self.locals@.len(),
                locals@ == self.locals@.take(i as int),
        {
            locals.push(self.locals[i]);
            assert(self.locals@.take(i + 1) =~= self.locals@.take(i as int).push(self.locals@[i as int]));
        }
        let m = self.code.len();
        for i in 0..m
            invariant
                m == self.code@.len(),
                code@ == self.code@.take(i as int),
        {
            code.push(self.code[i].copy());
            assert(self.code@.take(i + 1) =~= self.code@.take(i as int).push(self.code@[i as int]));
        }
        assert(self.locals@.take(n as int) =~= self.locals@);
        assert(self.code@.take(m as int) =~= self.code@);
        FunctionBody { locals, code }
    }
}

/// What decoding the bytes of a module gives: `None` where the bytes are no
/// module, else the function bodies of its code section, `None` where the
/// module has no code section.
pub uninterp spec fn wasm_code_section(bytes: Seq<u8>) -> Option<Option<Seq<BodyModel>>>;

/// The outcome of decoding, taken by the contents of the bodies.
pub open spec fn decoded_model(r: Result<Option<Vec<FunctionBody>>, ()>) -> Option<Option<Seq<BodyModel>>> {
    match r {
        Err(_) => None,
        Ok(None) => Some(None),
        Ok(Some(v)) => Some(Some(v@.map_values(|b: FunctionBody| b@))),
    }
}

/// Decodes `bytes` with `parity_wasm::deserialize_buffer` into a module and
/// reads the function bodies of its code section (`Module::code_section`,
/// `CodeSection::bodies`, `FuncBody::locals`, `FuncBody::code`). The contract
/// claims only that the outcome is a function of the bytes, named
/// `wasm_code_section`; the wasm binary format itself is not stated.
#[verifier::external_body]
pub fn decode_code_section(bytes: &[u8]) -> (r: Result<Option<Vec<FunctionBody>>, ()>)
    ensures
        decoded_model(r) == wasm_code_section(bytes@),
{
    let module: WasmModule = parity_wasm::deserialize_buffer(bytes).map_err(|_| ())?;
    Ok(module.code_section().map(|section| section.bodies().iter().map(|body| FunctionBody {
        locals: body.locals().iter().map(|l| Local { count: l.count() }).collect(),
        code: body.code().elements().iter().map(|i| match i {
            WasmInstruction::I32Const(x) => Instr::I32Const(*x),
            WasmInstruction::I32Add => Instr::I32Add,
            WasmInstruction::GetLocal(l) => Instr::GetLocal(*l),
            WasmInstruction::SetLocal(l) => Instr::SetLocal(*l),
            WasmInstruction::End => Instr::End,
            other => Instr::Other(format!("{:?}", other)),
        }).collect(),
    }).collect()))
}

} // verus!
