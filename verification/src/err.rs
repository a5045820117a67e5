//! Errors of the code generator.
use vstd::prelude::*;

verus! {

/// `parity_wasm::SerializationError`, the decoding error of `parity_wasm`,
/// made known to Verus as an opaque type; nothing about its values is
/// claimed.
#[verifier::external_type_specification]
#[verifier::external_body]
pub struct ExSerializationError(parity_wasm::SerializationError);

/// What can go wrong while parsing a module or generating native code.
#[derive(Debug)]
pub enum Error {
    /// The bytes are no module, or the module cannot be compiled.
    Failure,
    /// An immediate does not fit in its field.
    TooLargeI32(i32),
    /// The operand stack holds fewer values than an instruction takes.
    TooLittleI32(usize, i32),
    /// A register number above 31.
    InvalidRegister(u8),
    /// An offset that is no multiple of the given alignment.
    InvalidOffsetAlignment(u32, u32),
    /// What has no translation yet, with the instruction where there is one.
    NotImplemented(&'static str, Option<String>),
    /// No block is open.
    StackEmpty,
    /// The decoding error of `parity_wasm`.
    ParseFailure(parity_wasm::SerializationError),
}

} // verus!
