//! Error taxonomy of the two public operations.
//!
//! Every error carries its kind and the underlying cause. Each is fatal to the
//! caller's startup: the enforcement system cannot run partially loaded. The
//! only deliberate non-error is the root-filesystem probe's negative verdict,
//! which merely skips the optional mount hook.

use vstd::prelude::*;

verus! {

/// Why loading the bytecode bundle failed.
#[derive(Debug)]
pub enum LoadError {
    /// The pinning directory could not be created (permissions, disk,
    /// invalid path).
    IOFailure(std::io::Error),
    /// The bytecode artifact is malformed or was refused by the kernel's
    /// loader.
    BytecodeRejected(aya::EbpfError),
}

/// Why an attach session failed.
#[derive(Debug)]
pub enum AttachError {
    /// The running kernel's type-layout snapshot could not be obtained.
    TypeInfoUnavailable(aya::BtfError),
    /// The bundle holds no program definition of the given name.
    ProgramNotFound(String),
    /// The kernel refused to load or attach the named program.
    ProgramOperationFailed(aya::programs::ProgramError),
}

} // verus!
