//! The fixed, ordered table of kernel programs that an attach session drives.
//!
//! Order and membership are fixed: three scheduler tracepoints, then the LSM
//! hooks. Exactly one entry, the mount hook, is optional; it is attached only
//! when the root-filesystem probe reports support.

use vstd::prelude::*;

verus! {

/// The kind of kernel hook point a program attaches to.
#[derive(Clone, Copy, Debug, PartialEq, Eq, Structural)]
pub enum HookKind {
    /// A scheduler tracepoint, verified against kernel type metadata.
    SchedTracepoint,
    /// A Linux-Security-Module hook.
    LsmHook,
}

/// One row of the fixed program table.
#[derive(Clone, Copy, Debug)]
pub struct ProgramEntry {
    /// The program's name inside the bytecode bundle, which is also the name
    /// of its kernel hook point.
    pub name: &'static str,
    /// The kind of hook point the program attaches to.
    pub kind: HookKind,
    /// Whether the program is mandatory; the one optional entry is the mount
    /// hook, attached only when mount policies are supported.
    pub required: bool,
}

/// The number of programs in the fixed table.
pub open spec fn table_len() -> int {
    9
}

/// The position of the conditional mount hook in the fixed order.
pub open spec fn mount_hook_index() -> int {
    4
}

/// The name of the program at position `i` of the fixed order.
pub open spec fn table_name(i: int) -> Seq<char> {
    if i == 0 {
        "sched_process_fork"@
    } else if i == 1 {
        "sched_process_exec"@
    } else if i == 2 {
        "sched_process_exit"@
    } else if i == 3 {
        "syslog"@
    } else if i == 4 {
        "sb_mount"@
    } else if i == 5 {
        "task_fix_setuid"@
    } else if i == 6 {
        "file_open"@
    } else if i == 7 {
        "socket_sendmsg"@
    } else {
        "socket_recvmsg"@
    }
}

/// The hook kind of the program at position `i`.
pub open spec fn table_kind(i: int) -> HookKind {
    if 0 <= i < 3 {
        HookKind::SchedTracepoint
    } else {
        HookKind::LsmHook
    }
}

/// Whether the program at position `i` is mandatory.
pub open spec fn table_required(i: int) -> bool {
    i != mount_hook_index()
}

/// The nine table names are pairwise distinct.
pub proof fn lemma_table_names_distinct()
    ensures
        forall|i: int, j: int|
            0 <= i < table_len() && 0 <= j < table_len() && i != j ==> #[trigger] table_name(i)
                != #[trigger] table_name(j),
{
    reveal_strlit("sched_process_fork");
    reveal_strlit("sched_process_exec");
    reveal_strlit("sched_process_exit");
    reveal_strlit("syslog");
    reveal_strlit("sb_mount");
    reveal_strlit("task_fix_setuid");
    reveal_strlit("file_open");
    reveal_strlit("socket_sendmsg");
    reveal_strlit("socket_recvmsg");
    assert(table_name(0).len() == 18);
    assert(table_name(1).len() == 18);
    assert(table_name(2).len() == 18);
    assert(table_name(3).len() == 6);
    assert(table_name(4).len() == 8);
    assert(table_name(5).len() == 15);
    assert(table_name(6).len() == 9);
    assert(table_name(7).len() == 14);
    assert(table_name(8).len() == 14);
    assert(table_name(0)[14] == 'f');
    assert(table_name(1)[14] == 'e');
    assert(table_name(2)[14] == 'e');
    assert(table_name(1)[16] == 'e');
    assert(table_name(2)[16] == 'i');
    assert(table_name(7)[7] == 's');
    assert(table_name(8)[7] == 'r');
}

/// Builds the fixed program table, in attachment order.
pub fn program_table() -> (t: Vec<ProgramEntry>)
    ensures
        t@.len() == table_len(),
        forall|i: int| 0 <= i < table_len() ==> (#[trigger] t@[i]).name@ == table_name(i),
        forall|i: int| 0 <= i < table_len() ==> (#[trigger] t@[i]).kind == table_kind(i),
        forall|i: int| 0 <= i < table_len() ==> (#[trigger] t@[i]).required == table_required(i),
{
    let mut t: Vec<ProgramEntry> = Vec::new();
    t.push(ProgramEntry {
        name: "sched_process_fork",
        kind: HookKind::SchedTracepoint,
        required: true,
    });
    t.push(ProgramEntry {
        name: "sched_process_exec",
        kind: HookKind::SchedTracepoint,
        required: true,
    });
    t.push(ProgramEntry {
        name: "sched_process_exit",
        kind: HookKind::SchedTracepoint,
        required: true,
    });
    t.push(ProgramEntry { name: "syslog", kind: HookKind::LsmHook, required: true });
    t.push(ProgramEntry { name: "sb_mount", kind: HookKind::LsmHook, required: false });
    t.push(ProgramEntry { name: "task_fix_setuid", kind: HookKind::LsmHook, required: true });
    t.push(ProgramEntry { name: "file_open", kind: HookKind::LsmHook, required: true });
    t.push(ProgramEntry { name: "socket_sendmsg", kind: HookKind::LsmHook, required: true });
    t.push(ProgramEntry { name: "socket_recvmsg", kind: HookKind::LsmHook, required: true });
    t
}

} // verus!
