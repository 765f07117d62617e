use osedax_core::device::mounts::{parse_mount_line, parse_mounts};
use osedax_core::device::sysfs::{
    build_device, detect_usb, disks_from_sysfs, is_partition_of, is_pseudo_device, mounts_for,
    parse_octal_byte, unescape_mount, SysfsDisk,
};

#[test]
fn whole_disk_vs_partition_naming() {
    // Pure string logic: partition suffixes on both naming schemes.
    assert!(is_partition_of("sda", "sda1"));
    assert!(is_partition_of("sda", "sda15"));
    assert!(!is_partition_of("sda", "sda")); // the disk itself
    assert!(!is_partition_of("sda", "sdb1")); // different disk
    assert!(is_partition_of("nvme0n1", "nvme0n1p1"));
    assert!(!is_partition_of("nvme0n1", "nvme0n1")); // the disk itself
    assert!(!is_partition_of("nvme0n1", "nvme0n1x")); // not a partition suffix
    // NVMe requires the `p` separator: nvme0n11 is a DIFFERENT namespace.
    assert!(!is_partition_of("nvme0n1", "nvme0n11"));
    assert!(!is_partition_of("nvme0n1", "nvme0n12"));
    assert!(is_partition_of("mmcblk0", "mmcblk0p2"));
    assert!(!is_partition_of("mmcblk0", "mmcblk01"));
}

#[test]
fn pseudo_devices_are_filtered() {
    for n in ["loop0", "sr0", "ram3", "dm-0", "md0", "zram0"] {
        assert!(is_pseudo_device(n), "{n} should be pseudo");
    }
    for n in ["sda", "nvme0n1", "vdb"] {
        assert!(!is_pseudo_device(n), "{n} should not be pseudo");
    }
}

#[test]
fn unescapes_octal_mount_paths() {
    // /proc/mounts encodes a space as \040.
    assert_eq!(unescape_mount("/mnt/my\\040disk"), b"/mnt/my disk".to_vec());
    assert_eq!(unescape_mount("/mnt/plain"), b"/mnt/plain".to_vec());
}

#[test]
fn unescape_preserves_non_ascii_utf8() {
    // A mount path with BOTH an escaped space and non-ASCII UTF-8 keeps the
    // multi-byte characters intact.
    assert_eq!(
        unescape_mount("/media/José\\040photos"),
        "/media/José photos".as_bytes().to_vec(),
    );
    // Arabic label, escaped space.
    assert_eq!(
        unescape_mount("/mnt/قرص\\040صلب"),
        "/mnt/قرص صلب".as_bytes().to_vec(),
    );
}

#[test]
fn octal_byte_parsing_is_strict() {
    assert_eq!(parse_octal_byte(b"040"), Some(0x20)); // space
    assert_eq!(parse_octal_byte(b"377"), Some(0xFF)); // max byte
    assert_eq!(parse_octal_byte(b"400"), None); // 256, out of u8 range
    assert_eq!(parse_octal_byte(b"08a"), None); // '8' not octal
    assert_eq!(parse_octal_byte(b"04"), None); // too short
}

#[test]
fn mounts_for_matches_disk_and_partitions_only() {
    let mounts = vec![
        ("sda1".to_string(), b"/".to_vec()),
        ("sda2".to_string(), b"/home".to_vec()),
        ("sdb1".to_string(), b"/mnt/usb".to_vec()),
    ];
    let got = mounts_for("sda", &mounts);
    assert_eq!(got.len(), 2);
    assert!(got.iter().any(|m| m.path == b"/".to_vec()));
    assert!(got.iter().any(|m| m.path == b"/home".to_vec()));
}

// ---- further cases ----

#[test]
fn unescape_keeps_malformed_escapes() {
    assert_eq!(unescape_mount("a\\400b"), b"a\\400b".to_vec()); // 256 does not fit
    assert_eq!(unescape_mount("a\\04"), b"a\\04".to_vec()); // too short at the end
    assert_eq!(unescape_mount("\\134\\011"), b"\\\t".to_vec());
    assert_eq!(unescape_mount(""), Vec::<u8>::new());
}

#[test]
fn mounts_follow_the_disk_naming_scheme() {
    let mounts = vec![
        ("nvme0n1p1".to_string(), b"/boot".to_vec()),
        ("nvme0n11".to_string(), b"/other".to_vec()),
        ("nvme0n1".to_string(), b"/whole".to_vec()),
    ];
    let got: Vec<Vec<u8>> = mounts_for("nvme0n1", &mounts).into_iter().map(|m| m.path).collect();
    assert_eq!(got, vec![b"/boot".to_vec(), b"/whole".to_vec()]);
}

#[test]
fn parses_proc_mounts_lines() {
    let content = "sysfs /sys sysfs rw 0 0\n/dev/sda1 / ext4 rw 0 0\n\n/dev/sdb1 /run/media/me/MY\\040STICK vfat rw 0 0\r\n/dev/nvme0n1p2\t/home btrfs rw 0 0";
    let got = parse_mounts(content);
    assert_eq!(
        got,
        vec![
            ("sda1".to_string(), b"/".to_vec()),
            ("sdb1".to_string(), b"/run/media/me/MY STICK".to_vec()),
            ("nvme0n1p2".to_string(), b"/home".to_vec()),
        ]
    );
    assert_eq!(parse_mounts(""), Vec::new());
    assert_eq!(parse_mount_line("/dev/sda"), None); // no mount field
    assert_eq!(parse_mount_line("  /dev/sdc1   /mnt  x"), Some(("sdc1".to_string(), b"/mnt".to_vec())));
    // Unicode whitespace separates fields too.
    assert_eq!(
        parse_mount_line("/dev/sdd1\u{a0}/mnt/a"),
        Some(("sdd1".to_string(), b"/mnt/a".to_vec()))
    );
}

fn disk(name: &str, size: &str) -> SysfsDisk {
    SysfsDisk {
        name: name.to_string(),
        is_whole_disk: true,
        size: Some(format!("{size}\n")),
        logical_block_size: Some("4096\n".to_string()),
        physical_block_size: None,
        removable: Some("1\n".to_string()),
        read_only: Some("0\n".to_string()),
        model: Some("  Cruzer Blade  \n".to_string()),
        device_chain: Some(
            ["/", "sys", "devices", "pci0000:00", "0000:00:14.0", "usb2", "2-1", "host6"]
                .iter()
                .map(|s| s.to_string())
                .collect(),
        ),
        has_device: true,
    }
}

#[test]
fn builds_a_device_from_sysfs_attributes() {
    let mounts = vec![("sdb1".to_string(), b"/run/media/me/STICK".to_vec())];
    let d = build_device(&disk("sdb", "31266816"), &mounts).unwrap();
    assert_eq!(d.path, b"/dev/sdb".to_vec());
    assert_eq!(d.size, 31266816 * 512);
    assert_eq!(d.logical_block_size, 4096);
    assert_eq!(d.physical_block_size, 4096); // falls back to logical
    assert_eq!(d.model.as_deref(), Some("Cruzer Blade"));
    assert!(d.is_usb && d.is_removable && !d.is_system && !d.is_read_only);
    assert_eq!(d.mountpoints.len(), 1);
    assert!(d.is_safe_default_target());

    let mut fixed = disk("sda", "+100");
    fixed.removable = None;
    fixed.logical_block_size = Some("huge".to_string());
    fixed.device_chain = None;
    let d = build_device(&fixed, &mounts).unwrap();
    assert_eq!(d.size, 100 * 512);
    assert_eq!(d.logical_block_size, 512);
    assert!(!d.is_usb && !d.is_removable && d.is_system);
    assert!(d.mountpoints.is_empty());

    let mut virt = disk("vda", "8");
    virt.removable = Some("0".to_string());
    virt.has_device = false;
    assert!(!build_device(&virt, &mounts).unwrap().is_system);

    assert!(build_device(&disk("sdc", "12x"), &mounts).is_none());
    assert!(build_device(&disk("sdc", "-1"), &mounts).is_none());
    assert!(build_device(&disk("sdc", "18446744073709551616"), &mounts).is_none());
    let mut no_size = disk("sdc", "1");
    no_size.size = None;
    assert!(build_device(&no_size, &mounts).is_none());
}

#[test]
fn usb_is_detected_by_a_hub_segment_only() {
    let chain = |segs: &[&str]| Some(segs.iter().map(|s| s.to_string()).collect::<Vec<_>>());
    assert!(detect_usb(&chain(&["/", "sys", "devices", "usb1", "1-2"])));
    assert!(detect_usb(&chain(&["/", "usb"])));
    assert!(!detect_usb(&chain(&["/", "sys", "devices", "usbcore"])));
    assert!(!detect_usb(&chain(&["/", "sys", "devices", "ata1", "host0"])));
    assert!(!detect_usb(&None));
}

#[test]
fn disks_are_whole_real_and_sorted_by_path() {
    let mut part = disk("sdb1", "10");
    part.is_whole_disk = false;
    let mut unreadable = disk("sdd", "1");
    unreadable.size = None;
    let entries = vec![
        disk("sdc", "10"),
        disk("loop0", "10"),
        part,
        disk("nvme0n1", "10"),
        unreadable,
        disk("sda", "10"),
        disk("zram0", "10"),
    ];
    let got: Vec<Vec<u8>> = disks_from_sysfs(&entries, &Vec::new()).into_iter().map(|d| d.path).collect();
    assert_eq!(
        got,
        vec![b"/dev/nvme0n1".to_vec(), b"/dev/sda".to_vec(), b"/dev/sdc".to_vec()]
    );
}
