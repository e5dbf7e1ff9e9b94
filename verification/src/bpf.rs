//! The trusted boundary to the kernel's eBPF interfaces.
//!
//! Everything here is a declaration of, or a thin wrapper around, the aya
//! crate: parsing the bytecode bundle, reading the kernel's type layout, and
//! loading and attaching single named programs. The contracts state what the
//! aya source shows of each call; the attach-session logic is verified against
//! them.

use vstd::prelude::*;

use crate::errors::AttachError;

verus! {

#[verifier::external_type_specification]
#[verifier::external_body]
pub struct ExEbpf(aya::Ebpf);

#[verifier::external_type_specification]
#[verifier::external_body]
pub struct ExBtf(aya::Btf);

#[verifier::external_type_specification]
#[verifier::external_body]
pub struct ExEbpfError(aya::EbpfError);

#[verifier::external_type_specification]
#[verifier::external_body]
pub struct ExBtfError(aya::BtfError);

#[verifier::external_type_specification]
#[verifier::external_body]
pub struct ExProgramError(aya::programs::ProgramError);

#[verifier::external_type_specification]
#[verifier::external_body]
pub struct ExIoError(std::io::Error);

/// The names of the program definitions a bytecode bundle holds. The set is
/// fixed when the bundle is parsed; lookups, loads and attachments never
/// change it.
pub uninterp spec fn bundle_program_names(b: aya::Ebpf) -> Set<Seq<char>>;

/// The names of the bundle's programs that are currently attached to their
/// kernel hook points.
pub uninterp spec fn attached_program_names(b: aya::Ebpf) -> Set<Seq<char>>;

/// Relies on aya::Ebpf::load: parses eBPF object code into a collection of
/// named, not yet attached programs, or reports why the artifact was refused.
#[verifier::external_body]
pub(crate) fn ebpf_load_object(data: &[u8]) -> (r: Result<aya::Ebpf, aya::EbpfError>)
    ensures
        r matches Ok(b) ==> attached_program_names(b) == Set::<Seq<char>>::empty(),
{
    aya::Ebpf::load(data)
}

/// Relies on aya::Btf::from_sys_fs: reads the running kernel's exposed
/// type-layout snapshot; whether it succeeds depends on the environment.
#[verifier::external_body]
pub(crate) fn btf_from_sys_fs() -> (r: Result<aya::Btf, aya::BtfError>) {
    aya::Btf::from_sys_fs()
}

/// Relies on aya::Ebpf::program_mut (name lookup), on TryFrom<&mut Program>
/// for &mut BtfTracePoint (program-kind check), and on
/// aya::programs::BtfTracePoint::load (verifies the program against the given
/// kernel type layout and loads it). None of the three changes which programs
/// the bundle holds or which are attached.
#[verifier::external_body]
pub(crate) fn load_sched_tracepoint(bpf: &mut aya::Ebpf, name: &str, btf: &aya::Btf) -> (r: Result<
    (),
    AttachError,
>)
    ensures
        bundle_program_names(*final(bpf)) == bundle_program_names(*old(bpf)),
        attached_program_names(*final(bpf)) == attached_program_names(*old(bpf)),
        (r matches Err(AttachError::ProgramNotFound(_))) <==> !bundle_program_names(
            *old(bpf),
        ).contains(name@),
        r matches Err(AttachError::ProgramNotFound(n)) ==> n@ == name@,
        r matches Err(e) ==> (e matches AttachError::ProgramNotFound(_)
            || e matches AttachError::ProgramOperationFailed(_)),
{
    match bpf.program_mut(name) {
        None => Err(AttachError::ProgramNotFound(name.to_string())),
        Some(p) => {
            let conv: Result<&mut aya::programs::BtfTracePoint, aya::programs::ProgramError> =
                p.try_into();
            match conv {
                Ok(prog) => prog.load(name, btf).map_err(AttachError::ProgramOperationFailed),
                Err(e) => Err(AttachError::ProgramOperationFailed(e)),
            }
        },
    }
}

/// Relies on aya::Ebpf::program_mut, on TryFrom<&mut Program> for &mut Lsm,
/// and on aya::programs::Lsm::load; as for the tracepoint kind, neither the
/// bundle's names nor its attachments change.
#[verifier::external_body]
pub(crate) fn load_lsm_hook(bpf: &mut aya::Ebpf, name: &str, btf: &aya::Btf) -> (r: Result<
    (),
    AttachError,
>)
    ensures
        bundle_program_names(*final(bpf)) == bundle_program_names(*old(bpf)),
        attached_program_names(*final(bpf)) == attached_program_names(*old(bpf)),
        (r matches Err(AttachError::ProgramNotFound(_))) <==> !bundle_program_names(
            *old(bpf),
        ).contains(name@),
        r matches Err(AttachError::ProgramNotFound(n)) ==> n@ == name@,
        r matches Err(e) ==> (e matches AttachError::ProgramNotFound(_)
            || e matches AttachError::ProgramOperationFailed(_)),
{
    match bpf.program_mut(name) {
        None => Err(AttachError::ProgramNotFound(name.to_string())),
        Some(p) => {
            let conv: Result<&mut aya::programs::Lsm, aya::programs::ProgramError> = p.try_into();
            match conv {
                Ok(prog) => prog.load(name, btf).map_err(AttachError::ProgramOperationFailed),
                Err(e) => Err(AttachError::ProgramOperationFailed(e)),
            }
        },
    }
}

/// Relies on aya::Ebpf::program_mut, on TryFrom<&mut Program> for
/// &mut BtfTracePoint, and on aya::programs::BtfTracePoint::attach: on success
/// the named program is attached to its tracepoint; on failure no new
/// attachment is made.
#[verifier::external_body]
pub(crate) fn attach_sched_tracepoint(bpf: &mut aya::Ebpf, name: &str) -> (r: Result<
    (),
    AttachError,
>)
    ensures
        bundle_program_names(*final(bpf)) == bundle_program_names(*old(bpf)),
        r matches Ok(_) ==> attached_program_names(*final(bpf)) == attached_program_names(
            *old(bpf),
        ).insert(name@),
        r matches Err(_) ==> attached_program_names(*final(bpf)) == attached_program_names(
            *old(bpf),
        ),
        (r matches Err(AttachError::ProgramNotFound(_))) <==> !bundle_program_names(
            *old(bpf),
        ).contains(name@),
        r matches Err(AttachError::ProgramNotFound(n)) ==> n@ == name@,
        r matches Err(e) ==> (e matches AttachError::ProgramNotFound(_)
            || e matches AttachError::ProgramOperationFailed(_)),
{
    match bpf.program_mut(name) {
        None => Err(AttachError::ProgramNotFound(name.to_string())),
        Some(p) => {
            let conv: Result<&mut aya::programs::BtfTracePoint, aya::programs::ProgramError> =
                p.try_into();
            match conv {
                Ok(prog) => match prog.attach() {
                    Ok(_link) => Ok(()),
                    Err(e) => Err(AttachError::ProgramOperationFailed(e)),
                },
                Err(e) => Err(AttachError::ProgramOperationFailed(e)),
            }
        },
    }
}

/// Relies on aya::Ebpf::program_mut, on TryFrom<&mut Program> for &mut Lsm,
/// and on aya::programs::Lsm::attach: on success the named program is attached
/// to its LSM hook point; on failure no new attachment is made.
#[verifier::external_body]
pub(crate) fn attach_lsm_hook(bpf: &mut aya::Ebpf, name: &str) -> (r: Result<(), AttachError>)
    ensures
        bundle_program_names(*final(bpf)) == bundle_program_names(*old(bpf)),
        r matches Ok(_) ==> attached_program_names(*final(bpf)) == attached_program_names(
            *old(bpf),
        ).insert(name@),
        r matches Err(_) ==> attached_program_names(*final(bpf)) == attached_program_names(
            *old(bpf),
        ),
        (r matches Err(AttachError::ProgramNotFound(_))) <==> !bundle_program_names(
            *old(bpf),
        ).contains(name@),
        r matches Err(AttachError::ProgramNotFound(n)) ==> n@ == name@,
        r matches Err(e) ==> (e matches AttachError::ProgramNotFound(_)
            || e matches AttachError::ProgramOperationFailed(_)),
{
    match bpf.program_mut(name) {
        None => Err(AttachError::ProgramNotFound(name.to_string())),
        Some(p) => {
            let conv: Result<&mut aya::programs::Lsm, aya::programs::ProgramError> = p.try_into();
            match conv {
                Ok(prog) => match prog.attach() {
                    Ok(_link) => Ok(()),
                    Err(e) => Err(AttachError::ProgramOperationFailed(e)),
                },
                Err(e) => Err(AttachError::ProgramOperationFailed(e)),
            }
        },
    }
}

} // verus!
