use lockc::program_table;
use lockc::AttachError;
use lockc::HookKind;
use lockc::LoadError;

#[test]
fn table_has_fixed_order() {
    let t = program_table();
    let names: Vec<&'static str> = t.iter().map(|e| e.name).collect();
    assert_eq!(
        names,
        vec![
            "sched_process_fork",
            "sched_process_exec",
            "sched_process_exit",
            "syslog",
            "sb_mount",
            "task_fix_setuid",
            "file_open",
            "socket_sendmsg",
            "socket_recvmsg",
        ]
    );
}

#[test]
fn table_kinds_and_conditionality() {
    let t = program_table();
    for (i, e) in t.iter().enumerate() {
        if i < 3 {
            assert_eq!(e.kind, HookKind::SchedTracepoint);
        } else {
            assert_eq!(e.kind, HookKind::LsmHook);
        }
        assert_eq!(e.required, e.name != "sb_mount");
    }
}

#[test]
fn load_rejects_empty_artifact() {
    let r = lockc::load_bpf(&[]);
    assert!(matches!(r, Err(LoadError::BytecodeRejected(_))));
}

#[test]
fn load_rejects_malformed_artifact() {
    let junk: Vec<u8> = vec![0x13, 0x37, 0x00, 0xff, 0x7f, 0x45, 0x4c, 0x46];
    let r = lockc::load_bpf(&junk);
    assert!(matches!(r, Err(LoadError::BytecodeRejected(_))));
}

/// A syntactically valid but empty 64-bit eBPF relocatable object: an ELF
/// header announcing no program headers and no sections.
fn empty_bpf_object() -> Vec<u8> {
    let mut elf = vec![
        0x7f, 0x45, 0x4c, 0x46, // magic
        2,    // 64-bit
        1,    // little-endian
        1,    // header version
        0,    // System V ABI
        0, 0, 0, 0, 0, 0, 0, 0, // padding
        1, 0, // relocatable
        0xf7, 0, // BPF machine
        1, 0, 0, 0, // file version
    ];
    elf.extend_from_slice(&[0u8; 8]); // entry point
    elf.extend_from_slice(&[0u8; 8]); // program header offset
    elf.extend_from_slice(&[0u8; 8]); // section header offset
    elf.extend_from_slice(&[0, 0, 0, 0]); // flags
    elf.extend_from_slice(&[64, 0]); // header size
    elf.extend_from_slice(&[0, 0, 0, 0]); // program header entry size/count
    elf.extend_from_slice(&[0, 0, 0, 0]); // section header entry size/count
    elf.extend_from_slice(&[0, 0]); // section name string table index
    assert_eq!(elf.len(), 64);
    elf
}

#[test]
fn attach_fails_without_mandatory_programs() {
    match lockc::load_bpf(&empty_bpf_object()) {
        Ok(mut bpf) => {
            let r = lockc::attach_programs(&mut bpf, &None);
            match r {
                Ok(_) => panic!("attach succeeded without any program definition"),
                Err(AttachError::ProgramNotFound(name)) => {
                    assert_eq!(name, "sched_process_fork");
                }
                Err(AttachError::TypeInfoUnavailable(_)) => {
                    // the running kernel exposes no type-layout snapshot here
                }
                Err(AttachError::ProgramOperationFailed(e)) => {
                    panic!("no program operation should have been attempted: {e:?}");
                }
            }
        }
        Err(e) => {
            // the loader may refuse an object with no sections at all
            assert!(matches!(e, LoadError::BytecodeRejected(_)));
        }
    }
}
