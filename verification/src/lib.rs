//! Loader for a kernel-resident policy-enforcement engine.
//!
//! The crate loads a precompiled kernel-bytecode bundle and attaches a fixed
//! set of scheduler-tracepoint and LSM-hook programs into the running kernel.
//! The mount hook is attached only when the root filesystem supports mount
//! policies; that decision is made by inspecting the init process's mount
//! metadata.

pub mod attach;
pub mod bpf;
pub mod errors;
pub mod load;
pub mod probe;
pub mod table;

pub use attach::attach_programs;
pub use attach::AttachReport;
pub use attach::AttachmentOutcome;
pub use errors::AttachError;
pub use errors::LoadError;
pub use load::load_bpf;
pub use probe::mount_policy_supported;
pub use table::program_table;
pub use table::HookKind;
pub use table::ProgramEntry;
