use osedax_core::detect::magic::{
    detect_compression, el_torito, has_gpt, has_iso9660, has_mbr_partition_table, has_udf,
    is_ext, is_fat_or_ntfs_bootsector, is_ntfs_bootsector, is_wim, mbr_partitions,
    mbr_signature, Compression, ElTorito, MbrPartition, EL_TORITO_BRVD_OFFSET, EL_TORITO_ID,
    EXT_MAGIC_OFFSET, GPT_HEADER_OFFSET_4K, GPT_HEADER_OFFSET_512, GPT_MAGIC, ISO9660_MAGIC,
    ISO9660_MAGIC_OFFSET, ISO_SECTOR, MBR_PARTITION_TABLE_OFFSET, MBR_SIG_OFFSET, UDF_NSR02,
    UDF_NSR03, UDF_TEA01, VRS_START, WIM_MAGIC, WIM_PIPABLE_MAGIC,
};

/// Build a zero-filled buffer of `len` bytes with `bytes` written at `at`.
fn buf_with(len: usize, at: usize, bytes: &[u8]) -> Vec<u8> {
    let mut v = vec![0u8; len];
    v[at..at + bytes.len()].copy_from_slice(bytes);
    v
}

// ---- compression ----

#[test]
fn detects_each_compression_magic() {
    assert_eq!(
        detect_compression(&[0x1F, 0x8B, 0x08]),
        Some(Compression::Gzip)
    );
    assert_eq!(
        detect_compression(&[0xFD, b'7', b'z', b'X', b'Z', 0x00]),
        Some(Compression::Xz)
    );
    assert_eq!(
        detect_compression(&[0x28, 0xB5, 0x2F, 0xFD]),
        Some(Compression::Zstd)
    );
    assert_eq!(detect_compression(b"BZh9"), Some(Compression::Bzip2));
    assert_eq!(
        detect_compression(&[0x04, 0x22, 0x4D, 0x18]),
        Some(Compression::Lz4)
    );
    assert_eq!(
        detect_compression(&[0x37, 0x7A, 0xBC, 0xAF, 0x27, 0x1C]),
        Some(Compression::SevenZip)
    );
}

#[test]
fn bzip2_requires_valid_block_size_digit() {
    assert_eq!(detect_compression(b"BZh0"), None); // '0' is not 1..=9
    assert_eq!(detect_compression(b"BZhx"), None);
    assert_eq!(detect_compression(b"BZh1"), Some(Compression::Bzip2));
}

#[test]
fn no_compression_on_plain_bytes() {
    assert_eq!(detect_compression(&[0x00, 0x01, 0x02, 0x03]), None);
    assert_eq!(detect_compression(&[]), None);
}

#[test]
fn seven_zip_is_not_streamable() {
    assert!(!Compression::SevenZip.is_streamable());
    assert!(Compression::Gzip.is_streamable());
}

// ---- ISO 9660 / UDF ----

#[test]
fn detects_iso9660_magic() {
    let buf = buf_with(40 * 1024, ISO9660_MAGIC_OFFSET, &ISO9660_MAGIC);
    assert!(has_iso9660(&buf));
}

#[test]
fn no_iso9660_when_absent_or_short() {
    assert!(!has_iso9660(&vec![0u8; 40 * 1024]));
    assert!(!has_iso9660(&[0u8; 100])); // too short to reach 0x8001
}

#[test]
fn detects_udf_nsr() {
    // NSR03 in the second VRS descriptor, magic at +1.
    let off = VRS_START + ISO_SECTOR + 1;
    let buf = buf_with(40 * 1024, off, &UDF_NSR03);
    assert!(has_udf(&buf));
}

#[test]
fn no_udf_without_nsr() {
    let buf = buf_with(40 * 1024, ISO9660_MAGIC_OFFSET, &ISO9660_MAGIC);
    assert!(!has_udf(&buf));
}

// ---- El Torito ----

#[test]
fn detects_el_torito_and_reads_catalog_lba() {
    let mut buf = vec![0u8; 40 * 1024];
    let o = EL_TORITO_BRVD_OFFSET;
    buf[o] = 0x00;
    buf[o + 1..o + 6].copy_from_slice(&ISO9660_MAGIC);
    buf[o + 7..o + 7 + EL_TORITO_ID.len()].copy_from_slice(&EL_TORITO_ID);
    buf[o + 71..o + 75].copy_from_slice(&0x1234u32.to_le_bytes());
    assert_eq!(
        el_torito(&buf),
        Some(ElTorito {
            catalog_lba: 0x1234
        })
    );
}

#[test]
fn no_el_torito_with_wrong_identifier() {
    let mut buf = vec![0u8; 40 * 1024];
    let o = EL_TORITO_BRVD_OFFSET;
    buf[o] = 0x00;
    buf[o + 1..o + 6].copy_from_slice(&ISO9660_MAGIC);
    // no "EL TORITO SPECIFICATION" text
    assert_eq!(el_torito(&buf), None);
}

// ---- MBR ----

#[test]
fn detects_mbr_signature() {
    let buf = buf_with(512, MBR_SIG_OFFSET, &[0x55, 0xAA]);
    assert!(mbr_signature(&buf));
}

#[test]
fn parses_mbr_partition_entry() {
    let mut buf = vec![0u8; 512];
    buf[MBR_SIG_OFFSET] = 0x55;
    buf[MBR_SIG_OFFSET + 1] = 0xAA;
    let e = MBR_PARTITION_TABLE_OFFSET;
    buf[e] = 0x80; // active
    buf[e + 4] = 0x83; // Linux
    buf[e + 8..e + 12].copy_from_slice(&2048u32.to_le_bytes());
    buf[e + 12..e + 16].copy_from_slice(&1_000_000u32.to_le_bytes());
    let parts = mbr_partitions(&buf).unwrap();
    assert_eq!(parts[0].status, 0x80);
    assert_eq!(parts[0].part_type, 0x83);
    assert_eq!(parts[0].start_lba, 2048);
    assert_eq!(parts[0].sectors, 1_000_000);
    assert!(parts[0].is_used());
    assert!(has_mbr_partition_table(&buf));
}

#[test]
fn signature_without_partitions_is_not_a_table() {
    // 0x55AA present but all entries empty (e.g. a bare FAT boot sector).
    let buf = buf_with(512, MBR_SIG_OFFSET, &[0x55, 0xAA]);
    assert!(mbr_signature(&buf));
    assert!(!has_mbr_partition_table(&buf));
}

#[test]
fn recognizes_gpt_protective_and_esp_types() {
    let mut p = MbrPartition {
        status: 0,
        part_type: 0xEE,
        start_lba: 1,
        sectors: 100,
    };
    assert!(p.is_gpt_protective());
    p.part_type = 0xEF;
    assert!(p.is_esp());
}

// ---- GPT ----

#[test]
fn detects_gpt_at_512_and_4k() {
    assert!(has_gpt(&buf_with(1024, GPT_HEADER_OFFSET_512, &GPT_MAGIC)));
    assert!(has_gpt(&buf_with(5000, GPT_HEADER_OFFSET_4K, &GPT_MAGIC)));
}

// ---- bare filesystems ----

#[test]
fn detects_fat_bootsector() {
    let mut buf = vec![0u8; 512];
    buf[0] = 0xEB;
    buf[2] = 0x90;
    buf[MBR_SIG_OFFSET] = 0x55;
    buf[MBR_SIG_OFFSET + 1] = 0xAA;
    assert!(is_fat_or_ntfs_bootsector(&buf));
    assert!(!is_ntfs_bootsector(&buf));
}

#[test]
fn detects_ntfs_bootsector() {
    let mut buf = vec![0u8; 512];
    buf[0] = 0xEB;
    buf[2] = 0x90;
    buf[3..11].copy_from_slice(b"NTFS    ");
    buf[MBR_SIG_OFFSET] = 0x55;
    buf[MBR_SIG_OFFSET + 1] = 0xAA;
    assert!(is_ntfs_bootsector(&buf));
}

#[test]
fn detects_ext_superblock() {
    assert!(is_ext(&buf_with(2048, EXT_MAGIC_OFFSET, &[0x53, 0xEF])));
    assert!(!is_ext(&vec![0u8; 2048]));
}

// ---- WIM ----

#[test]
fn detects_wim_magic() {
    assert!(is_wim(&WIM_MAGIC));
    assert!(is_wim(&WIM_PIPABLE_MAGIC));
    assert!(!is_wim(b"NOTAWIM!"));
    assert!(!is_wim(&[0u8; 4])); // too short
}

// ---- further cases ----

#[test]
fn compression_names() {
    assert_eq!(Compression::Gzip.name(), "gzip");
    assert_eq!(Compression::Xz.name(), "xz");
    assert_eq!(Compression::Zstd.name(), "zstd");
    assert_eq!(Compression::Bzip2.name(), "bzip2");
    assert_eq!(Compression::Lz4.name(), "lz4");
    assert_eq!(Compression::SevenZip.name(), "7z");
}

#[test]
fn truncated_magics_are_not_detected() {
    assert_eq!(detect_compression(&[0x1F]), None);
    assert_eq!(detect_compression(b"BZh"), None);
    assert_eq!(detect_compression(&[0xFD, b'7', b'z', b'X', b'Z']), None);
}

#[test]
fn udf_scan_reaches_the_sixteenth_descriptor_only() {
    // NSR02 in descriptor 15 (the last one scanned).
    let off = VRS_START + 15 * ISO_SECTOR + 1;
    assert!(has_udf(&buf_with(64 * 1024, off, &UDF_NSR02)));
    // Descriptor 16 is never looked at.
    let off = VRS_START + 16 * ISO_SECTOR + 1;
    assert!(!has_udf(&buf_with(70 * 1024, off, &UDF_NSR02)));
    // The scan stops at the first descriptor that does not fit.
    let off = VRS_START + 4 * ISO_SECTOR + 1;
    assert!(!has_udf(&buf_with(off + 4, 0, &[])));
    assert!(has_udf(&buf_with(off + 5, off, &UDF_NSR02)));
}

#[test]
fn udf_scan_stops_at_the_terminator() {
    let d0 = VRS_START + 1;
    let d1 = VRS_START + ISO_SECTOR + 1;
    // TEA01 ends the sequence: an NSR descriptor after it does not count.
    let mut buf = buf_with(64 * 1024, d0, &UDF_TEA01);
    buf[d1..d1 + 5].copy_from_slice(&UDF_NSR03);
    assert!(!has_udf(&buf));
    // An NSR descriptor before the terminator does.
    let mut buf = buf_with(64 * 1024, d0, &UDF_NSR03);
    buf[d1..d1 + 5].copy_from_slice(&UDF_TEA01);
    assert!(has_udf(&buf));
}

#[test]
fn el_torito_needs_the_whole_descriptor() {
    let mut buf = vec![0u8; EL_TORITO_BRVD_OFFSET + 75];
    let o = EL_TORITO_BRVD_OFFSET;
    buf[o + 1..o + 6].copy_from_slice(&ISO9660_MAGIC);
    buf[o + 7..o + 7 + EL_TORITO_ID.len()].copy_from_slice(&EL_TORITO_ID);
    buf[o + 71..o + 75].copy_from_slice(&0xA1B2C3D4u32.to_le_bytes());
    assert_eq!(el_torito(&buf), Some(ElTorito { catalog_lba: 0xA1B2C3D4 }));
    // One byte short of the catalog field.
    assert_eq!(el_torito(&buf[..buf.len() - 1]), None);
    // A non-zero descriptor type byte.
    buf[o] = 0x01;
    assert_eq!(el_torito(&buf), None);
}

#[test]
fn mbr_entries_are_read_little_endian_at_their_offsets() {
    let mut buf = vec![0u8; 510];
    let e = MBR_PARTITION_TABLE_OFFSET + 3 * 16;
    buf[e] = 0x80;
    buf[e + 4] = 0x0C;
    buf[e + 8..e + 12].copy_from_slice(&0x01020304u32.to_le_bytes());
    buf[e + 12..e + 16].copy_from_slice(&0xFFFFFFFFu32.to_le_bytes());
    let parts = mbr_partitions(&buf).unwrap();
    assert_eq!(
        parts[3],
        MbrPartition { status: 0x80, part_type: 0x0C, start_lba: 0x01020304, sectors: 0xFFFFFFFF }
    );
    assert!(!parts[0].is_used());
    // No signature at 510 (the buffer ends there), so no table.
    assert!(!has_mbr_partition_table(&buf));
    assert_eq!(mbr_partitions(&buf[..509]), None);
}

#[test]
fn typed_entry_without_extent_is_unused() {
    let p = MbrPartition { status: 0, part_type: 0x83, start_lba: 0, sectors: 0 };
    assert!(!p.is_used());
    let p = MbrPartition { status: 0, part_type: 0, start_lba: 5, sectors: 5 };
    assert!(!p.is_used());
}

#[test]
fn e9_jump_counts_as_boot_sector() {
    let mut buf = vec![0u8; 512];
    buf[0] = 0xE9;
    buf[MBR_SIG_OFFSET] = 0x55;
    buf[MBR_SIG_OFFSET + 1] = 0xAA;
    assert!(is_fat_or_ntfs_bootsector(&buf));
    // EB without the 90 NOP is no jump.
    buf[0] = 0xEB;
    assert!(!is_fat_or_ntfs_bootsector(&buf));
}
