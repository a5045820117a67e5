//! Register numbers of the AArch64 general purpose register file.
use vstd::prelude::*;

verus! {

/// Frame pointer (x29).
pub const FP: u8 = 29;

/// Link register (x30); holds the return address.
pub const LR: u8 = 30;

/// Stack pointer; register number 31 in addressing contexts.
pub const SP: u8 = 31;

/// Zero register; register number 31 in data contexts.
pub const XZR: u8 = 31;

} // verus!
