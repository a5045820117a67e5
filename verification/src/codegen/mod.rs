//! Native code generation back ends.
use vstd::prelude::*;

pub mod aarch64;

verus! {

} // verus!
