//! The attach session: drives the fixed, ordered program table through
//! Load then Attach against the running kernel.
//!
//! The session obtains the kernel's type-layout snapshot once, evaluates the
//! root-filesystem probe for the one conditional entry, and then walks the
//! table in order. The first failure of a mandatory step aborts the rest of
//! the sequence; nothing is rolled back, so programs already attached stay
//! attached even when the session as a whole reports failure.

use vstd::prelude::*;

use crate::bpf::attach_lsm_hook;
use crate::bpf::attach_sched_tracepoint;
use crate::bpf::attached_program_names;
use crate::bpf::btf_from_sys_fs;
use crate::bpf::bundle_program_names;
use crate::bpf::load_lsm_hook;
use crate::bpf::load_sched_tracepoint;
use crate::errors::AttachError;
use crate::probe::mount_policy_supported;
use crate::probe::spec_mount_policy_supported;
use crate::table::lemma_table_names_distinct;
use crate::table::mount_hook_index;
use crate::table::program_table;
use crate::table::table_kind;
use crate::table::table_len;
use crate::table::table_name;
use crate::table::table_required;
use crate::table::HookKind;

verus! {

/// What became of one table entry during a completed session.
#[derive(Clone, Copy, Debug, PartialEq, Eq, Structural)]
pub enum AttachmentOutcome {
    /// The program was loaded against the kernel's type layout and attached
    /// to its hook point.
    Attached,
    /// The program was left alone because its precondition did not hold (the
    /// mount hook on an unsupported root filesystem).
    Skipped,
    /// A load or attach step on the program was refused; a session that
    /// completes never reports this outcome.
    Failed,
}

/// The per-program outcomes of a completed attach session, in table order.
pub struct AttachReport {
    pub outcomes: Vec<AttachmentOutcome>,
}

/// Whether mount-policy support was detected, from the probe's input.
pub open spec fn mount_supported_of(mountinfo: Option<Vec<u8>>) -> bool {
    spec_mount_policy_supported(mountinfo.deep_view())
}

/// Whether the table entry at position `i` takes part in a session with the
/// given probe verdict.
pub open spec fn entry_active(i: int, sup: bool) -> bool {
    table_required(i) || sup
}

/// The names of the active table entries before position `i`: the largest set
/// of programs a session with verdict `sup` may have attached once it has
/// passed position `i`.
pub open spec fn active_names_before(i: int, sup: bool) -> Set<Seq<char>>
    decreases i,
{
    if i <= 0 {
        Set::empty()
    } else if entry_active(i - 1, sup) {
        active_names_before(i - 1, sup).insert(table_name(i - 1))
    } else {
        active_names_before(i - 1, sup)
    }
}

proof fn lemma_union_mono(a: Set<Seq<char>>, b: Set<Seq<char>>, s1: Set<Seq<char>>, s2: Set<Seq<char>>)
    requires
        a.subset_of(b.union(s1)),
        s1.subset_of(s2),
    ensures
        a.subset_of(b.union(s2)),
{
    assert forall|n: Seq<char>| a.contains(n) implies b.union(s2).contains(n) by {
        assert(b.union(s1).contains(n));
    }
}

pub proof fn lemma_active_names_grow(i: int, j: int, sup: bool)
    requires
        0 <= j <= i,
    ensures
        active_names_before(j, sup).subset_of(active_names_before(i, sup)),
    decreases i,
{
    if j < i {
        lemma_active_names_grow(i - 1, j, sup);
    }
}

/// When mount policies are unsupported the mount hook's name is active at no
/// position, so no session may attach it.
pub proof fn lemma_mount_name_inactive(i: int, sup: bool)
    requires
        !sup,
    ensures
        !active_names_before(i, sup).contains(table_name(mount_hook_index())),
    decreases i,
{
    lemma_table_names_distinct();
    if i > 0 {
        lemma_mount_name_inactive(i - 1, sup);
    }
}

/// No program at or after position `j` of the fixed order is in the set of
/// names a session may have attached before reaching position `i <= j`: after
/// a failure at position `i`, no later program was newly attached.
pub proof fn lemma_prefix_excludes_later(i: int, j: int, sup: bool)
    requires
        0 <= i <= j < table_len(),
    ensures
        !active_names_before(i, sup).contains(table_name(j)),
    decreases i,
{
    lemma_table_names_distinct();
    if i > 0 {
        lemma_prefix_excludes_later(i - 1, j, sup);
    }
}

/// How many entries of a report were skipped.
pub open spec fn skipped_count(s: Seq<AttachmentOutcome>) -> int
    decreases s.len(),
{
    if s.len() == 0 {
        0
    } else {
        skipped_count(s.drop_last()) + (if s.last() == AttachmentOutcome::Skipped {
            1int
        } else {
            0int
        })
    }
}

/// A session that completes without mount-policy support skips exactly one
/// program: the mount hook.
pub proof fn lemma_exactly_one_skip(outcomes: Seq<AttachmentOutcome>, sup: bool)
    requires
        !sup,
        outcomes.len() == table_len(),
        forall|i: int| 0 <= i < table_len() ==> ((#[trigger] outcomes[i])
            == AttachmentOutcome::Skipped <==> !entry_active(i, sup)),
    ensures
        skipped_count(outcomes) == 1,
{
    reveal_with_fuel(skipped_count, 10);
    assert(outcomes[4] == AttachmentOutcome::Skipped);
    assert(skipped_count(outcomes.subrange(0, 4)) == 0) by {
        reveal_with_fuel(skipped_count, 5);
        assert(outcomes.subrange(0, 4).drop_last() =~= outcomes.subrange(0, 3));
        assert(outcomes.subrange(0, 3).drop_last() =~= outcomes.subrange(0, 2));
        assert(outcomes.subrange(0, 2).drop_last() =~= outcomes.subrange(0, 1));
        assert(outcomes.subrange(0, 1).drop_last() =~= outcomes.subrange(0, 0));
    }
    assert(outcomes.subrange(0, 5).drop_last() =~= outcomes.subrange(0, 4));
    assert(skipped_count(outcomes.subrange(0, 5)) == 1);
    assert(outcomes.subrange(0, 6).drop_last() =~= outcomes.subrange(0, 5));
    assert(skipped_count(outcomes.subrange(0, 6)) == 1);
    assert(outcomes.subrange(0, 7).drop_last() =~= outcomes.subrange(0, 6));
    assert(skipped_count(outcomes.subrange(0, 7)) == 1);
    assert(outcomes.subrange(0, 8).drop_last() =~= outcomes.subrange(0, 7));
    assert(skipped_count(outcomes.subrange(0, 8)) == 1);
    assert(outcomes.subrange(0, 9).drop_last() =~= outcomes.subrange(0, 8));
    assert(outcomes.subrange(0, 9) =~= outcomes);
    assert(skipped_count(outcomes) == 1);
}

/// A session that completes with mount-policy support skips nothing.
pub proof fn lemma_no_skip(outcomes: Seq<AttachmentOutcome>, sup: bool)
    requires
        sup,
        outcomes.len() == table_len(),
        forall|i: int| 0 <= i < table_len() ==> ((#[trigger] outcomes[i])
            == AttachmentOutcome::Skipped <==> !entry_active(i, sup)),
    ensures
        skipped_count(outcomes) == 0,
{
    reveal_with_fuel(skipped_count, 10);
    assert(outcomes.subrange(0, 1).drop_last() =~= outcomes.subrange(0, 0));
    assert(outcomes.subrange(0, 2).drop_last() =~= outcomes.subrange(0, 1));
    assert(outcomes.subrange(0, 3).drop_last() =~= outcomes.subrange(0, 2));
    assert(outcomes.subrange(0, 4).drop_last() =~= outcomes.subrange(0, 3));
    assert(outcomes.subrange(0, 5).drop_last() =~= outcomes.subrange(0, 4));
    assert(outcomes.subrange(0, 6).drop_last() =~= outcomes.subrange(0, 5));
    assert(outcomes.subrange(0, 7).drop_last() =~= outcomes.subrange(0, 6));
    assert(outcomes.subrange(0, 8).drop_last() =~= outcomes.subrange(0, 7));
    assert(outcomes.subrange(0, 9).drop_last() =~= outcomes.subrange(0, 8));
    assert(outcomes.subrange(0, 9) =~= outcomes);
    assert(skipped_count(outcomes.subrange(0, 1)) == 0);
    assert(skipped_count(outcomes.subrange(0, 2)) == 0);
    assert(skipped_count(outcomes.subrange(0, 3)) == 0);
    assert(skipped_count(outcomes.subrange(0, 4)) == 0);
    assert(skipped_count(outcomes.subrange(0, 5)) == 0);
    assert(skipped_count(outcomes.subrange(0, 6)) == 0);
    assert(skipped_count(outcomes.subrange(0, 7)) == 0);
    assert(skipped_count(outcomes.subrange(0, 8)) == 0);
    assert(skipped_count(outcomes) == 0);
}

/// Drives every program of the fixed table through Load then Attach, in
/// order, against the running kernel's type layout.
///
/// `mountinfo` is the init process's mount-metadata listing (`None` when it
/// could not be read); immediately before the mount hook the session
/// evaluates the root-filesystem probe on it and skips that one entry when
/// mount policies are unsupported. The first failure on any other entry
/// aborts the remaining sequence with the step's error; programs already
/// attached stay attached.
pub fn attach_programs(bpf: &mut aya::Ebpf, mountinfo: &Option<Vec<u8>>) -> (r: Result<
    AttachReport,
    AttachError,
>)
    ensures
        bundle_program_names(*final(bpf)) == bundle_program_names(*old(bpf)),
        attached_program_names(*old(bpf)).subset_of(attached_program_names(*final(bpf))),
        attached_program_names(*final(bpf)).subset_of(
            attached_program_names(*old(bpf)).union(
                active_names_before(table_len(), mount_supported_of(*mountinfo)),
            ),
        ),
        r matches Ok(rep) ==> rep.outcomes@.len() == table_len(),
        r matches Ok(rep) ==> forall|i: int|
            0 <= i < table_len() ==> ((#[trigger] rep.outcomes@[i]) == AttachmentOutcome::Skipped
                <==> !entry_active(i, mount_supported_of(*mountinfo))),
        r matches Ok(rep) ==> forall|i: int|
            0 <= i < table_len() && entry_active(i, mount_supported_of(*mountinfo)) ==> (
            #[trigger] rep.outcomes@[i]) == AttachmentOutcome::Attached && attached_program_names(
                *final(bpf),
            ).contains(table_name(i)) && bundle_program_names(*old(bpf)).contains(table_name(i)),
        (exists|i: int|
            0 <= i < table_len() && entry_active(i, mount_supported_of(*mountinfo))
                && !bundle_program_names(*old(bpf)).contains(#[trigger] table_name(i)))
            ==> r matches Err(_),
        r matches Err(AttachError::ProgramNotFound(n)) ==> exists|i: int|
            0 <= i < table_len() && entry_active(i, mount_supported_of(*mountinfo)) && (
            #[trigger] table_name(i)) == n@ && !bundle_program_names(*old(bpf)).contains(n@) && (
            forall|j: int|
                0 <= j < i && entry_active(j, mount_supported_of(*mountinfo))
                    ==> bundle_program_names(*old(bpf)).contains(#[trigger] table_name(j)))
            && attached_program_names(*final(bpf)).subset_of(
                attached_program_names(*old(bpf)).union(
                    active_names_before(i, mount_supported_of(*mountinfo)),
                ),
            ),
        r matches Err(AttachError::TypeInfoUnavailable(_)) ==> attached_program_names(
            *final(bpf),
        ) == attached_program_names(*old(bpf)),
        !mount_supported_of(*mountinfo) && !attached_program_names(*old(bpf)).contains(
            table_name(mount_hook_index()),
        ) ==> !attached_program_names(*final(bpf)).contains(table_name(mount_hook_index())),
        r matches Ok(rep) ==> forall|i: int|
            0 <= i < table_len() ==> (#[trigger] rep.outcomes@[i]) != AttachmentOutcome::Failed,
        r matches Ok(rep) ==> skipped_count(rep.outcomes@) == (
        if mount_supported_of(*mountinfo) {
            0int
        } else {
            1int
        }),
{
    let ghost sup = mount_supported_of(*mountinfo);
    let btf = match btf_from_sys_fs() {
        Ok(b) => b,
        Err(e) => {
            proof {
                if !sup {
                    lemma_mount_name_inactive(table_len(), sup);
                }
            }
            return Err(AttachError::TypeInfoUnavailable(e));
        },
    };
    let supported = mount_policy_supported(mountinfo);
    let table = program_table();
    let mut outcomes: Vec<AttachmentOutcome> = Vec::new();
    let mut idx: usize = 0;
    while idx < 9
        invariant
            idx <= 9,
            table_len() == 9,
            sup == mount_supported_of(*mountinfo),
            supported == sup,
            table@.len() == 9,
            forall|i: int| 0 <= i < 9 ==> (#[trigger] table@[i]).name@ == table_name(i),
            forall|i: int| 0 <= i < 9 ==> (#[trigger] table@[i]).kind == table_kind(i),
            forall|i: int| 0 <= i < 9 ==> (#[trigger] table@[i]).required == table_required(i),
            bundle_program_names(*bpf) == bundle_program_names(*old(bpf)),
            attached_program_names(*old(bpf)).subset_of(attached_program_names(*bpf)),
            attached_program_names(*bpf).subset_of(
                attached_program_names(*old(bpf)).union(active_names_before(idx as int, sup)),
            ),
            forall|j: int|
                0 <= j < idx && entry_active(j, sup) ==> bundle_program_names(*old(bpf)).contains(
                    #[trigger] table_name(j),
                ),
            forall|j: int|
                0 <= j < idx && entry_active(j, sup) ==> attached_program_names(*bpf).contains(
                    #[trigger] table_name(j),
                ),
            outcomes@.len() == idx,
            forall|j: int|
                0 <= j < idx ==> ((#[trigger] outcomes@[j]) == AttachmentOutcome::Skipped
                    <==> !entry_active(j, sup)),
            forall|j: int|
                0 <= j < idx && entry_active(j, sup) ==> (#[trigger] outcomes@[j])
                    == AttachmentOutcome::Attached,
        decreases 9 - idx,
    {
        let entry = table[idx];
        if entry.required || supported {
            let load_result = match entry.kind {
                HookKind::SchedTracepoint => load_sched_tracepoint(bpf, entry.name, &btf),
                HookKind::LsmHook => load_lsm_hook(bpf, entry.name, &btf),
            };
            match load_result {
                Err(e) => {
                    proof {
                        lemma_active_names_grow(table_len(), idx as int, sup);
                        lemma_union_mono(
                            attached_program_names(*bpf),
                            attached_program_names(*old(bpf)),
                            active_names_before(idx as int, sup),
                            active_names_before(table_len(), sup),
                        );
                        if !sup {
                            lemma_mount_name_inactive(table_len(), sup);
                        }
                        assert(e matches AttachError::ProgramNotFound(n) ==> entry_active(
                            idx as int,
                            sup,
                        ) && table_name(idx as int) == n@ && !bundle_program_names(
                            *old(bpf),
                        ).contains(n@));
                    }
                    return Err(e);
                },
                Ok(_) => {},
            }
            let attach_result = match entry.kind {
                HookKind::SchedTracepoint => attach_sched_tracepoint(bpf, entry.name),
                HookKind::LsmHook => attach_lsm_hook(bpf, entry.name),
            };
            match attach_result {
                Err(e) => {
                    proof {
                        assert(!(e matches AttachError::ProgramNotFound(_)));
                        lemma_active_names_grow(table_len(), idx as int, sup);
                        lemma_union_mono(
                            attached_program_names(*bpf),
                            attached_program_names(*old(bpf)),
                            active_names_before(idx as int, sup),
                            active_names_before(table_len(), sup),
                        );
                        if !sup {
                            lemma_mount_name_inactive(table_len(), sup);
                        }
                    }
                    return Err(e);
                },
                Ok(_) => {},
            }
            outcomes.push(AttachmentOutcome::Attached);
            proof {
                assert(active_names_before(idx + 1 as int, sup) == active_names_before(
                    idx as int,
                    sup,
                ).insert(table_name(idx as int)));
                assert(attached_program_names(*bpf).subset_of(
                    attached_program_names(*old(bpf)).union(
                        active_names_before(idx + 1 as int, sup),
                    ),
                ));
            }
        } else {
            outcomes.push(AttachmentOutcome::Skipped);
            proof {
                assert(active_names_before(idx + 1 as int, sup) == active_names_before(
                    idx as int,
                    sup,
                ));
            }
        }
        idx = idx + 1;
    }
    proof {
        if !sup {
            lemma_mount_name_inactive(table_len(), sup);
            lemma_exactly_one_skip(outcomes@, sup);
        } else {
            lemma_no_skip(outcomes@, sup);
        }
    }
    Ok(AttachReport { outcomes })
}

} // verus!
