use lockc::mount_policy_supported;

fn listing(text: &str) -> Option<Vec<u8>> {
    Some(text.as_bytes().to_vec())
}

#[test]
fn probe_true_on_btrfs_root() {
    let m = listing("25 30 0:5 / / rw,relatime shared:1 - btrfs /dev/sda1 rw");
    assert!(mount_policy_supported(&m));
}

#[test]
fn probe_false_on_ext4_root() {
    let m = listing("25 30 0:5 / / rw,relatime shared:1 - ext4 /dev/sda1 rw");
    assert!(!mount_policy_supported(&m));
}

#[test]
fn probe_false_on_missing_listing() {
    assert!(!mount_policy_supported(&None));
}

#[test]
fn probe_false_on_empty_listing() {
    let m = listing("");
    assert!(!mount_policy_supported(&m));
}

#[test]
fn probe_false_without_root_entry() {
    let m = listing(
        "22 25 0:21 0:21 /proc rw,nosuid shared:12 - proc proc rw\n\
         23 25 0:22 0:22 /sys rw,nosuid shared:13 - sysfs sysfs rw",
    );
    assert!(!mount_policy_supported(&m));
}

#[test]
fn probe_finds_root_entry_among_others() {
    let m = listing(
        "22 25 0:21 / /proc rw,nosuid shared:12 - proc proc rw\n\
         25 30 0:5 / / rw,relatime shared:1 - btrfs /dev/sda1 rw\n\
         23 25 0:22 / /sys rw,nosuid shared:13 - sysfs sysfs rw",
    );
    assert!(mount_policy_supported(&m));
}

#[test]
fn probe_uses_first_root_entry() {
    let m = listing(
        "25 30 0:5 / / rw,relatime shared:1 - ext4 /dev/sda1 rw\n\
         26 30 0:6 / / rw,relatime shared:2 - btrfs /dev/sdb1 rw",
    );
    assert!(!mount_policy_supported(&m));
}

#[test]
fn probe_false_without_separator_token() {
    let m = listing("25 30 0:5 / / rw,relatime shared:1 btrfs /dev/sda1 rw");
    assert!(!mount_policy_supported(&m));
}

#[test]
fn probe_reads_kind_field_not_device_name() {
    let m = listing("25 30 0:5 / / rw,relatime shared:1 - ext4 /dev/btrfs-disk rw");
    assert!(!mount_policy_supported(&m));
}

#[test]
fn probe_true_without_optional_fields() {
    let m = listing("25 30 0:5 / / rw - btrfs /dev/sda1 rw");
    assert!(mount_policy_supported(&m));
}

#[test]
fn probe_false_when_separator_ends_line() {
    let m = listing("25 30 0:5 / / rw,relatime shared:1 -");
    assert!(!mount_policy_supported(&m));
}

#[test]
fn probe_false_on_short_root_line() {
    let m = listing("25 30 0:5 /");
    assert!(!mount_policy_supported(&m));
}

#[test]
fn probe_true_with_trailing_newline() {
    let m = listing("25 30 0:5 / / rw,relatime shared:1 - btrfs /dev/sda1 rw\n");
    assert!(mount_policy_supported(&m));
}

#[test]
fn probe_reads_mount_point_not_subvolume_root() {
    let m = listing("25 30 0:5 /subvol / rw - btrfs /dev/sda1 rw");
    assert!(mount_policy_supported(&m));
}
