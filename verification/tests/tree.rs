use osedax_core::detect::magic::{
    Compression, FilesystemHint, EL_TORITO_BRVD_OFFSET, EL_TORITO_ID, ISO9660_MAGIC,
    ISO9660_MAGIC_OFFSET, ISO_SECTOR, MBR_PARTITION_TABLE_OFFSET, MBR_SIG_OFFSET, UDF_NSR03,
    VRS_START,
};
use osedax_core::detect::tree::{
    bsd_warning, classify, guess_bsd_flavor, inspect, BsdFlavor, ImageKind, IsoHybrid, HEAD_LEN,
};
use osedax_core::detect::DETECTION_HEAD_LEN;

fn blank_head() -> Vec<u8> {
    vec![0u8; HEAD_LEN]
}

/// Write the ISO 9660 "CD001" identifier into a head buffer.
fn make_iso(buf: &mut [u8]) {
    buf[ISO9660_MAGIC_OFFSET..ISO9660_MAGIC_OFFSET + 5].copy_from_slice(&ISO9660_MAGIC);
}

/// Write a valid MBR signature plus one used partition entry.
fn add_mbr_partition(buf: &mut [u8], part_type: u8) {
    buf[MBR_SIG_OFFSET] = 0x55;
    buf[MBR_SIG_OFFSET + 1] = 0xAA;
    let e = MBR_PARTITION_TABLE_OFFSET;
    buf[e] = 0x80;
    buf[e + 4] = part_type;
    buf[e + 8..e + 12].copy_from_slice(&2048u32.to_le_bytes());
    buf[e + 12..e + 16].copy_from_slice(&1_000_000u32.to_le_bytes());
}

#[test]
fn compression_wins_first() {
    // Even if ISO bytes are present later, a compression wrapper at offset 0
    // must be reported first.
    let mut buf = blank_head();
    make_iso(&mut buf);
    buf[0..2].copy_from_slice(&[0x1F, 0x8B]);
    assert_eq!(classify(&buf), ImageKind::Compressed(Compression::Gzip));
}

#[test]
fn plain_iso_is_optical_only() {
    let mut buf = blank_head();
    make_iso(&mut buf);
    assert_eq!(
        classify(&buf),
        ImageKind::Iso {
            hybrid: IsoHybrid::OpticalOnly,
            udf: false,
            el_torito: false,
        }
    );
}

#[test]
fn optical_only_is_not_dd_writable() {
    assert!(!IsoHybrid::OpticalOnly.is_dd_writable());
    assert!(IsoHybrid::BiosHybrid.is_dd_writable());
    assert!(IsoHybrid::UefiHybrid.is_dd_writable());
}

#[test]
fn bios_hybrid_iso_is_dd_writable() {
    let mut buf = blank_head();
    make_iso(&mut buf);
    add_mbr_partition(&mut buf, 0x83); // ordinary Linux partition
    match classify(&buf) {
        ImageKind::Iso { hybrid, .. } => {
            assert_eq!(hybrid, IsoHybrid::BiosHybrid);
            assert!(hybrid.is_dd_writable());
        }
        other => panic!("expected Iso, got {other:?}"),
    }
}

#[test]
fn iso_with_gpt_protective_mbr_is_uefi_hybrid() {
    let mut buf = blank_head();
    make_iso(&mut buf);
    // Only a GPT-protective (0xEE) entry, no ordinary partition => UEFI hybrid.
    buf[MBR_SIG_OFFSET] = 0x55;
    buf[MBR_SIG_OFFSET + 1] = 0xAA;
    let e = MBR_PARTITION_TABLE_OFFSET;
    buf[e + 4] = 0xEE;
    buf[e + 8..e + 12].copy_from_slice(&1u32.to_le_bytes());
    buf[e + 12..e + 16].copy_from_slice(&1u32.to_le_bytes());
    match classify(&buf) {
        ImageKind::Iso { hybrid, .. } => assert_eq!(hybrid, IsoHybrid::UefiHybrid),
        other => panic!("expected Iso, got {other:?}"),
    }
}

#[test]
fn detects_el_torito_in_iso() {
    let mut buf = blank_head();
    make_iso(&mut buf);
    let o = EL_TORITO_BRVD_OFFSET;
    buf[o] = 0x00;
    buf[o + 1..o + 6].copy_from_slice(&ISO9660_MAGIC);
    buf[o + 7..o + 7 + EL_TORITO_ID.len()].copy_from_slice(&EL_TORITO_ID);
    match classify(&buf) {
        ImageKind::Iso { el_torito, .. } => assert!(el_torito),
        other => panic!("expected Iso, got {other:?}"),
    }
}

#[test]
fn gpt_disk_image() {
    let mut buf = blank_head();
    buf[512..520].copy_from_slice(b"EFI PART");
    assert_eq!(classify(&buf), ImageKind::DiskImage { gpt: true });
}

#[test]
fn mbr_disk_image() {
    let mut buf = blank_head();
    add_mbr_partition(&mut buf, 0x83);
    assert_eq!(classify(&buf), ImageKind::DiskImage { gpt: false });
}

#[test]
fn bare_ntfs_filesystem() {
    let mut buf = blank_head();
    buf[0] = 0xEB;
    buf[2] = 0x90;
    buf[3..11].copy_from_slice(b"NTFS    ");
    buf[MBR_SIG_OFFSET] = 0x55;
    buf[MBR_SIG_OFFSET + 1] = 0xAA;
    assert_eq!(
        classify(&buf),
        ImageKind::BareFilesystem(FilesystemHint::Ntfs)
    );
}

#[test]
fn raw_wim_file() {
    let mut buf = blank_head();
    buf[0..8].copy_from_slice(b"MSWIM\0\0\0");
    assert_eq!(classify(&buf), ImageKind::Wim);
}

#[test]
fn unknown_when_nothing_matches() {
    assert_eq!(classify(&blank_head()), ImageKind::Unknown);
}

#[test]
fn total_on_tiny_buffers() {
    // Must never panic regardless of how short the input is.
    for len in 0..600 {
        let _ = classify(&vec![0u8; len]);
    }
}

// ---- further cases ----

#[test]
fn iso_with_both_bios_partition_and_gpt_is_dual_hybrid() {
    let mut buf = blank_head();
    make_iso(&mut buf);
    add_mbr_partition(&mut buf, 0x83);
    buf[512..520].copy_from_slice(b"EFI PART");
    match classify(&buf) {
        ImageKind::Iso { hybrid, .. } => assert_eq!(hybrid, IsoHybrid::BiosAndUefiHybrid),
        other => panic!("expected Iso, got {other:?}"),
    }
}

#[test]
fn esp_marker_alone_is_uefi_even_when_unused() {
    // An 0xEF type byte with no extent still marks UEFI boot.
    let mut buf = blank_head();
    make_iso(&mut buf);
    buf[MBR_SIG_OFFSET] = 0x55;
    buf[MBR_SIG_OFFSET + 1] = 0xAA;
    buf[MBR_PARTITION_TABLE_OFFSET + 16 + 4] = 0xEF;
    match classify(&buf) {
        ImageKind::Iso { hybrid, .. } => assert_eq!(hybrid, IsoHybrid::UefiHybrid),
        other => panic!("expected Iso, got {other:?}"),
    }
}

#[test]
fn partition_entries_without_signature_do_not_count() {
    let mut buf = blank_head();
    make_iso(&mut buf);
    add_mbr_partition(&mut buf, 0x83);
    buf[MBR_SIG_OFFSET] = 0;
    match classify(&buf) {
        ImageKind::Iso { hybrid, .. } => assert_eq!(hybrid, IsoHybrid::OpticalOnly),
        other => panic!("expected Iso, got {other:?}"),
    }
}

#[test]
fn udf_only_image_is_an_iso() {
    let mut buf = vec![0u8; DETECTION_HEAD_LEN];
    let off = VRS_START + 5 * ISO_SECTOR + 1;
    buf[off..off + 5].copy_from_slice(&UDF_NSR03);
    assert_eq!(
        classify(&buf),
        ImageKind::Iso { hybrid: IsoHybrid::OpticalOnly, udf: true, el_torito: false }
    );
    // That descriptor lies beyond HEAD_LEN: a 40 KiB head does not see it.
    assert_eq!(classify(&buf[..HEAD_LEN]), ImageKind::Unknown);
}

#[test]
fn wim_is_checked_before_partition_tables() {
    let mut buf = blank_head();
    buf[0..8].copy_from_slice(b"WLPWM\0\0\0");
    buf[512..520].copy_from_slice(b"EFI PART");
    assert_eq!(classify(&buf), ImageKind::Wim);
}

#[test]
fn fat_and_ext_bare_filesystems() {
    let mut buf = blank_head();
    buf[0] = 0xEB;
    buf[2] = 0x90;
    buf[MBR_SIG_OFFSET] = 0x55;
    buf[MBR_SIG_OFFSET + 1] = 0xAA;
    assert_eq!(classify(&buf), ImageKind::BareFilesystem(FilesystemHint::Fat));
    let mut buf = blank_head();
    buf[1080] = 0x53;
    buf[1081] = 0xEF;
    assert_eq!(classify(&buf), ImageKind::BareFilesystem(FilesystemHint::Ext));
}

#[test]
fn longer_heads_classify_like_their_detection_prefix() {
    let mut buf = vec![0u8; DETECTION_HEAD_LEN + 4096];
    make_iso(&mut buf);
    // Bytes past the detection head are never read.
    buf[DETECTION_HEAD_LEN..DETECTION_HEAD_LEN + 5].copy_from_slice(&UDF_NSR03);
    assert_eq!(classify(&buf), classify(&buf[..DETECTION_HEAD_LEN]));
}

#[test]
fn guesses_bsd_flavor_case_insensitively() {
    assert_eq!(guess_bsd_flavor("FreeBSD-14.1-RELEASE-amd64-disc1.iso"), BsdFlavor::FreeBsd);
    assert_eq!(guess_bsd_flavor("OpenBSD/amd64 7.9 Install CD"), BsdFlavor::OpenBsd);
    assert_eq!(guess_bsd_flavor("NetBSD-10.0-amd64.iso"), BsdFlavor::NetBsd);
    assert_eq!(guess_bsd_flavor("dfly-x86_64-6.4.0_REL.iso"), BsdFlavor::DragonFly);
    assert_eq!(guess_bsd_flavor("DragonFly"), BsdFlavor::DragonFly);
    assert_eq!(guess_bsd_flavor("install79.iso"), BsdFlavor::OpenBsd);
    assert_eq!(guess_bsd_flavor(""), BsdFlavor::Unknown);
    // FreeBSD is checked before the others.
    assert_eq!(guess_bsd_flavor("netbsd-or-freebsd"), BsdFlavor::FreeBsd);
    // Non-ASCII text around the name does not hide it.
    assert_eq!(guess_bsd_flavor("Ünïcödé NETBSD ✓"), BsdFlavor::NetBsd);
}

#[test]
fn guesses_bsd_flavor_from_release_file_names() {
    // FreeBSD's optical releases.
    assert_eq!(guess_bsd_flavor("14.1-RELEASE-amd64-disc1.iso"), BsdFlavor::FreeBsd);
    assert_eq!(guess_bsd_flavor("14.1-RELEASE-amd64-DVD1.iso"), BsdFlavor::FreeBsd);
    assert_eq!(guess_bsd_flavor("14.1-RELEASE-amd64-bootonly.iso"), BsdFlavor::FreeBsd);
    // OpenBSD's numbered ISOs.
    assert_eq!(guess_bsd_flavor("INSTALL79.ISO"), BsdFlavor::OpenBsd);
    assert_eq!(guess_bsd_flavor("cd79.iso"), BsdFlavor::OpenBsd);
    // Exactly two digits, then ".iso".
    assert_eq!(guess_bsd_flavor("install7.iso"), BsdFlavor::Unknown);
    assert_eq!(guess_bsd_flavor("install791.iso"), BsdFlavor::Unknown);
    assert_eq!(guess_bsd_flavor("install79.img"), BsdFlavor::Unknown);
    // A flavor named outright wins over the file-name patterns.
    assert_eq!(guess_bsd_flavor("NetBSD-disc1.iso"), BsdFlavor::NetBsd);
    assert_eq!(guess_bsd_flavor("dfly install79.iso"), BsdFlavor::DragonFly);
    // The disc names come before the numbered ISOs.
    assert_eq!(guess_bsd_flavor("install79.iso disc1"), BsdFlavor::FreeBsd);
}

#[test]
fn bsd_message_names_flavor_only_when_known() {
    let mut buf = blank_head();
    make_iso(&mut buf);
    let kind = classify(&buf);
    for (name, known) in [
        ("FreeBSD.iso", true),
        ("install79.iso", true),
        ("NetBSD-10.0-amd64.iso", true),
        ("dfly-x86_64-6.4.0_REL.iso", true),
        ("mystery.iso", false),
    ] {
        let w = bsd_warning(&kind, name).unwrap();
        assert!(w.message.contains(w.flavor.usb_image_hint()));
        assert!(w.message.ends_with("Write this ISO to USB anyway?"));
        assert_eq!(w.message.contains("It looks like"), known);
    }
}

#[test]
fn bsd_warning_only_for_optical_only_isos() {
    let mut buf = blank_head();
    make_iso(&mut buf);
    let kind = classify(&buf);
    let w = bsd_warning(&kind, "FreeBSD-14.1-RELEASE-amd64-disc1.iso").unwrap();
    assert_eq!(w.flavor, BsdFlavor::FreeBsd);
    assert_eq!(
        w.message,
        "This is an ISO-9660 image with no hybrid partition table or EFI boot entry, so writing it \
         raw to USB will most likely produce a non-bootable stick. It looks like a FreeBSD install \
         ISO. For USB, use FreeBSD-<ver>-<arch>-memstick.img instead. Write this ISO to USB anyway?"
    );
    let w = bsd_warning(&kind, "mystery.iso").unwrap();
    assert_eq!(w.flavor, BsdFlavor::Unknown);
    assert_eq!(
        w.message,
        "This is an ISO-9660 image with no hybrid partition table or EFI boot entry, so writing it \
         raw to USB will most likely produce a non-bootable stick. For USB, use the vendor's \
         dedicated USB (.img/memstick) image instead. Write this ISO to USB anyway?"
    );

    add_mbr_partition(&mut buf, 0x83);
    assert_eq!(bsd_warning(&classify(&buf), "FreeBSD.iso"), None);
    assert_eq!(bsd_warning(&ImageKind::Unknown, "FreeBSD.iso"), None);
    assert_eq!(bsd_warning(&ImageKind::Wim, "OpenBSD"), None);
}

#[test]
fn usb_image_hints_name_the_vendor_images() {
    assert_eq!(BsdFlavor::FreeBsd.usb_image_hint(), "FreeBSD-<ver>-<arch>-memstick.img");
    assert_eq!(BsdFlavor::OpenBsd.usb_image_hint(), "install<XX>.img (e.g. install79.img)");
    assert_eq!(
        BsdFlavor::NetBsd.usb_image_hint(),
        "the install.img.gz memstick image (decompress first)"
    );
    assert_eq!(
        BsdFlavor::DragonFly.usb_image_hint(),
        "dfly-<arch>-<ver>_REL.img.bz2 (decompress first)"
    );
}

#[test]
fn inspect_combines_kind_and_warning() {
    let mut buf = blank_head();
    make_iso(&mut buf);
    let v = inspect(&buf, "OpenBSD install79.iso");
    assert!(!v.is_dd_writable());
    let w = v.bsd_warning.unwrap();
    assert_eq!(w.flavor, BsdFlavor::OpenBsd);
    assert!(w.message.contains(" It looks like an OpenBSD install ISO."));
    assert!(w.message.contains("install<XX>.img (e.g. install79.img)"));

    add_mbr_partition(&mut buf, 0x83);
    let v = inspect(&buf, "");
    assert!(v.is_dd_writable());
    assert_eq!(v.bsd_warning, None);

    let v = inspect(&[0x28, 0xB5, 0x2F, 0xFD], "x.img.zst");
    assert_eq!(v.kind, ImageKind::Compressed(Compression::Zstd));
    assert!(!v.is_dd_writable());
    assert!(!inspect(b"MSWIM\0\0\0", "").is_dd_writable());
    assert!(!inspect(&blank_head(), "").is_dd_writable());
    let mut gpt = blank_head();
    gpt[512..520].copy_from_slice(b"EFI PART");
    assert!(inspect(&gpt, "").is_dd_writable());
}
