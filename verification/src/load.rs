//! Loading the bytecode bundle.
//!
//! Parses a compiled bytecode artifact into a collection of named, unattached
//! programs. Creating the pinning directory, selecting the build profile and
//! reading the artifact's bytes are the caller's side of the boundary; this
//! layer receives the bytes and performs no attachment.

use vstd::prelude::*;

use crate::bpf::attached_program_names;
use crate::bpf::ebpf_load_object;
use crate::errors::LoadError;

verus! {

/// Parses `data`, a compiled bytecode artifact, into a bundle of named
/// programs addressable by name.
///
/// A freshly loaded bundle has no attached programs; a malformed or refused
/// artifact is reported as `BytecodeRejected`. No kernel hook point is
/// touched.
pub fn load_bpf(data: &[u8]) -> (r: Result<aya::Ebpf, LoadError>)
    ensures
        r matches Ok(b) ==> attached_program_names(b) == Set::<Seq<char>>::empty(),
        r matches Err(e) ==> e matches LoadError::BytecodeRejected(_),
{
    match ebpf_load_object(data) {
        Ok(b) => Ok(b),
        Err(e) => Err(LoadError::BytecodeRejected(e)),
    }
}

} // verus!
