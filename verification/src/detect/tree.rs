//! The image-detection decision tree.
//!
//! Given the head of an image, classify what it is and how it must be written.
//! The ordering is: compression first, then the ISO/UDF optical family (with
//! the hybrid branch), then raw WIM files, then raw disk images, then bare
//! filesystems, then unknown. Everything here is a pure function of a byte
//! slice, and each function's contract is the exact decision it makes.
use vstd::prelude::*;
use vstd::string::StringSliceAdditionalSpecFns;

use crate::detect::magic::{
    self, region_matches, spec_detect_compression, spec_el_torito, spec_has_gpt, spec_has_iso9660,
    spec_has_mbr_partition_table, spec_has_udf, spec_is_ext, spec_is_fat_or_ntfs_bootsector,
    spec_is_ntfs_bootsector, spec_is_wim, spec_mbr_entry, spec_mbr_signature, Compression,
    FilesystemHint, MbrPartition,
};

verus! {

/// How much of an image head the tree is usually handed: it covers the MBR
/// (0..512), GPT (512/4096), the ISO 9660 identifier and the El Torito
/// descriptor (0x8000..0x8800+). The UDF scan can look further, up to
/// `DETECTION_HEAD_LEN`.
pub const HEAD_LEN: usize = 40960;

/// Whether a detected ISO can be raw-written (dd) to USB and boot, or is
/// optical-only.
#[derive(Debug, Clone, Copy, PartialEq, Eq, Structural)]
pub enum IsoHybrid {
    /// Carries an MBR partition table with used entries: BIOS-hybrid, dd-able.
    BiosHybrid,
    /// Carries a GPT / ESP marker: UEFI-hybrid, dd-able.
    UefiHybrid,
    /// Both an MBR table and a GPT/ESP marker are present.
    BiosAndUefiHybrid,
    /// Plain ISO 9660 with no partition table: optical media only.
    OpticalOnly,
}

impl IsoHybrid {
    /// True if this ISO can be raw-written to USB and reasonably expected to boot.
    pub fn is_dd_writable(self) -> (r: bool)
        ensures
            r == !(self is OpticalOnly),
    {
        !matches!(self, IsoHybrid::OpticalOnly)
    }
}

/// The result of classifying an image head.
#[derive(Debug, Clone, Copy, PartialEq, Eq, Structural)]
pub enum ImageKind {
    /// A compression wrapper was detected; the inner image is unknown until the
    /// head is decompressed and re-classified.
    Compressed(Compression),
    /// An optical-filesystem image (ISO 9660 and/or UDF).
    Iso {
        hybrid: IsoHybrid,
        /// UDF present (modern large Windows ISOs; also UDF-bridge with CD001).
        udf: bool,
        /// El Torito boot catalog present.
        el_torito: bool,
    },
    /// A raw disk image with its own partition table.
    DiskImage {
        /// True if partitioned by GPT (else MBR).
        gpt: bool,
    },
    /// A partitionless image that is a bare filesystem at offset 0.
    BareFilesystem(FilesystemHint),
    /// A Windows Imaging Format file (a raw install.wim/.esd, not an ISO).
    Wim,
    /// None of the known signatures matched.
    Unknown,
}

/// An MBR entry that is a real legacy (BIOS) partition: used, and neither a
/// GPT-protective (0xEE) nor an ESP (0xEF) marker.
pub open spec fn is_bios_entry(e: MbrPartition) -> bool {
    e.spec_is_used() && !e.spec_is_gpt_protective() && !e.spec_is_esp()
}

/// An MBR entry that marks UEFI boot: 0xEE or 0xEF, whether or not it is used.
pub open spec fn is_uefi_marker_entry(e: MbrPartition) -> bool {
    e.spec_is_gpt_protective() || e.spec_is_esp()
}

/// The signed MBR carries a real BIOS partition.
pub open spec fn spec_has_bios_partition(head: Seq<u8>) -> bool {
    spec_mbr_signature(head) && exists|i: int|
        0 <= i < 4 && is_bios_entry(#[trigger] spec_mbr_entry(head, i))
}

/// The signed MBR carries a 0xEE or 0xEF entry.
pub open spec fn spec_has_mbr_efi_marker(head: Seq<u8>) -> bool {
    spec_mbr_signature(head) && exists|i: int|
        0 <= i < 4 && is_uefi_marker_entry(#[trigger] spec_mbr_entry(head, i))
}

/// The hybrid class of an ISO head: BIOS-bootable when the signed MBR has a
/// real legacy partition, UEFI-bootable when there is a GPT header or an
/// 0xEE/0xEF entry in the signed MBR.
pub open spec fn spec_classify_hybrid(head: Seq<u8>) -> IsoHybrid {
    let bios = spec_has_bios_partition(head);
    let gpt = spec_has_gpt(head) || spec_has_mbr_efi_marker(head);
    if bios && gpt {
        IsoHybrid::BiosAndUefiHybrid
    } else if gpt {
        IsoHybrid::UefiHybrid
    } else if bios {
        IsoHybrid::BiosHybrid
    } else {
        IsoHybrid::OpticalOnly
    }
}

/// The classification of an (uncompressed or compressed) image head.
pub open spec fn spec_classify(head: Seq<u8>) -> ImageKind {
    match spec_detect_compression(head) {
        Some(c) => ImageKind::Compressed(c),
        None => if spec_has_iso9660(head) || spec_has_udf(head) {
            ImageKind::Iso {
                hybrid: spec_classify_hybrid(head),
                udf: spec_has_udf(head),
                el_torito: spec_el_torito(head) is Some,
            }
        } else if spec_is_wim(head) {
            ImageKind::Wim
        } else if spec_has_gpt(head) {
            ImageKind::DiskImage { gpt: true }
        } else if spec_has_mbr_partition_table(head) {
            ImageKind::DiskImage { gpt: false }
        } else if spec_is_ntfs_bootsector(head) {
            ImageKind::BareFilesystem(FilesystemHint::Ntfs)
        } else if spec_is_fat_or_ntfs_bootsector(head) {
            ImageKind::BareFilesystem(FilesystemHint::Fat)
        } else if spec_is_ext(head) {
            ImageKind::BareFilesystem(FilesystemHint::Ext)
        } else {
            ImageKind::Unknown
        },
    }
}

/// Classify the head of an image.
///
/// Callers must handle [`ImageKind::Compressed`] by decompressing enough of the
/// head and calling this again on the inner bytes.
pub fn classify(head: &[u8]) -> (r: ImageKind)
    ensures
        r == spec_classify(head@),
{
    // STEP 0: compression wrapper (offset 0).
    if let Some(c) = magic::detect_compression(head) {
        return ImageKind::Compressed(c);
    }
    // STEP 1: ISO 9660 / UDF optical family.
    let iso = magic::has_iso9660(head);
    let udf = magic::has_udf(head);
    if iso || udf {
        let hybrid = classify_hybrid(head);
        let el_torito = magic::el_torito(head).is_some();
        return ImageKind::Iso { hybrid, udf, el_torito };
    }
    // STEP 2: raw install.wim/.esd (before generic disk-image checks, since a
    // WIM has no partition table and would otherwise fall through to Unknown).
    if magic::is_wim(head) {
        return ImageKind::Wim;
    }
    // STEP 3: raw disk image with a partition table.
    if magic::has_gpt(head) {
        return ImageKind::DiskImage { gpt: true };
    }
    if magic::has_mbr_partition_table(head) {
        return ImageKind::DiskImage { gpt: false };
    }
    // STEP 3b: bare filesystem at offset 0 (partitionless image).
    if magic::is_ntfs_bootsector(head) {
        return ImageKind::BareFilesystem(FilesystemHint::Ntfs);
    }
    if magic::is_fat_or_ntfs_bootsector(head) {
        return ImageKind::BareFilesystem(FilesystemHint::Fat);
    }
    if magic::is_ext(head) {
        return ImageKind::BareFilesystem(FilesystemHint::Ext);
    }
    // STEP 4: unknown.
    ImageKind::Unknown
}

/// Decide whether an ISO carries a partition table (dd-able) or is optical-only.
fn classify_hybrid(head: &[u8]) -> (r: IsoHybrid)
    ensures
        r == spec_classify_hybrid(head@),
{
    let signed = magic::mbr_signature(head);
    let parts = if signed {
        magic::mbr_partitions(head)
    } else {
        None
    };
    // A real BIOS partition is a used entry that isn't a pure UEFI/GPT marker:
    // 0xEE (GPT protective) and 0xEF (ESP marker) signal UEFI, not legacy boot.
    let mut bios = false;
    // A UEFI hybrid is signaled by a GPT header, a 0xEE protective entry, or an
    // 0xEF ESP marker in the MBR.
    let mut mbr_efi_marker = false;
    if let Some(p) = parts {
        let mut i: usize = 0;
        while i < 4
            invariant
                i <= 4,
                signed,
                spec_mbr_signature(head@),
                p@ == magic::spec_mbr_entries(head@),
                bios == exists|j: int| 0 <= j < i && is_bios_entry(#[trigger] spec_mbr_entry(head@, j)),
                mbr_efi_marker == exists|j: int|
                    0 <= j < i && is_uefi_marker_entry(#[trigger] spec_mbr_entry(head@, j)),
            decreases 4 - i,
        {
            let e = p[i];
            assert(e == spec_mbr_entry(head@, i as int));
            if e.is_used() && !e.is_gpt_protective() && !e.is_esp() {
                bios = true;
            }
            if e.is_gpt_protective() || e.is_esp() {
                mbr_efi_marker = true;
            }
            i += 1;
        }
    } else {
        proof {
            if signed {
                assert(magic::has_mbr_table_region(head@));
            }
        }
    }
    let gpt = magic::has_gpt(head) || mbr_efi_marker;
    if bios && gpt {
        IsoHybrid::BiosAndUefiHybrid
    } else if gpt {
        IsoHybrid::UefiHybrid
    } else if bios {
        IsoHybrid::BiosHybrid
    } else {
        IsoHybrid::OpticalOnly
    }
}

// ---- BSD optical-only warning -------------------------------------------------
/// Which BSD an optical-only ISO looks like, so the warning can name the exact
/// USB image the user should download instead.
#[derive(Debug, Clone, Copy, PartialEq, Eq, Structural)]
pub enum BsdFlavor {
    FreeBsd,
    OpenBsd,
    NetBsd,
    DragonFly,
    /// Optical-only, but no recognizable BSD name: a generic warning still applies.
    Unknown,
}

/// The vendor's dedicated USB image for a flavor, as named in the warning.
pub open spec fn spec_usb_image_hint(f: BsdFlavor) -> Seq<char> {
    match f {
        BsdFlavor::FreeBsd => "FreeBSD-<ver>-<arch>-memstick.img"@,
        BsdFlavor::OpenBsd => "install<XX>.img (e.g. install79.img)"@,
        BsdFlavor::NetBsd => "the install.img.gz memstick image (decompress first)"@,
        BsdFlavor::DragonFly => "dfly-<arch>-<ver>_REL.img.bz2 (decompress first)"@,
        BsdFlavor::Unknown => "the vendor's dedicated USB (.img/memstick) image"@,
    }
}

impl BsdFlavor {
    /// The vendor's dedicated USB image, for the warning message.
    pub fn usb_image_hint(self) -> (r: &'static str)
        ensures
            r@ == spec_usb_image_hint(self),
    {
        match self {
            BsdFlavor::FreeBsd => "FreeBSD-<ver>-<arch>-memstick.img",
            BsdFlavor::OpenBsd => "install<XX>.img (e.g. install79.img)",
            BsdFlavor::NetBsd => "the install.img.gz memstick image (decompress first)",
            BsdFlavor::DragonFly => "dfly-<arch>-<ver>_REL.img.bz2 (decompress first)",
            BsdFlavor::Unknown => "the vendor's dedicated USB (.img/memstick) image",
        }
    }
}

/// "freebsd"
pub const FREEBSD_NAME: [u8; 7] = [0x66, 0x72, 0x65, 0x65, 0x62, 0x73, 0x64];

/// "openbsd"
pub const OPENBSD_NAME: [u8; 7] = [0x6F, 0x70, 0x65, 0x6E, 0x62, 0x73, 0x64];

/// "netbsd"
pub const NETBSD_NAME: [u8; 6] = [0x6E, 0x65, 0x74, 0x62, 0x73, 0x64];

/// "dragonfly"
pub const DRAGONFLY_NAME: [u8; 9] = [0x64, 0x72, 0x61, 0x67, 0x6F, 0x6E, 0x66, 0x6C, 0x79];

/// "dfly"
pub const DFLY_NAME: [u8; 4] = [0x64, 0x66, 0x6C, 0x79];

/// "disc1" (FreeBSD's first install disc)
pub const DISC1_NAME: [u8; 5] = [0x64, 0x69, 0x73, 0x63, 0x31];

/// "dvd1" (FreeBSD's install DVD)
pub const DVD1_NAME: [u8; 4] = [0x64, 0x76, 0x64, 0x31];

/// "bootonly" (FreeBSD's network-install ISO)
pub const BOOTONLY_NAME: [u8; 8] = [0x62, 0x6F, 0x6F, 0x74, 0x6F, 0x6E, 0x6C, 0x79];

/// "install", the stem of OpenBSD's `installXX.iso`
pub const INSTALL_STEM: [u8; 7] = [0x69, 0x6E, 0x73, 0x74, 0x61, 0x6C, 0x6C];

/// "cd", the stem of OpenBSD's `cdXX.iso`
pub const CD_STEM: [u8; 2] = [0x63, 0x64];

/// ".iso"
pub const ISO_SUFFIX: [u8; 4] = [0x2E, 0x69, 0x73, 0x6F];

/// ASCII lower-casing of one byte; every other byte is left alone.
pub open spec fn ascii_lower(b: u8) -> u8 {
    if 0x41 <= b <= 0x5A {
        (b + 32) as u8
    } else {
        b
    }
}

/// The bytes of a string after ASCII lower-casing.
pub open spec fn ascii_lowered(s: Seq<u8>) -> Seq<u8> {
    s.map_values(|b: u8| ascii_lower(b))
}

/// An ISO's hybrid class: BIOS-bootable exactly when its signed MBR has a used
/// entry other than 0xEE/0xEF, UEFI-bootable exactly when it has a GPT header
/// or a 0xEE/0xEF entry in its signed MBR.
pub proof fn lemma_iso_hybrid_class(head: Seq<u8>)
    ensures
        spec_classify(head) matches ImageKind::Iso { hybrid, .. } ==> {
            let bios = spec_has_bios_partition(head);
            let uefi = spec_has_gpt(head) || spec_has_mbr_efi_marker(head);
            &&& (hybrid is BiosAndUefiHybrid <==> bios && uefi)
            &&& (hybrid is UefiHybrid <==> !bios && uefi)
            &&& (hybrid is BiosHybrid <==> bios && !uefi)
            &&& (hybrid is OpticalOnly <==> !bios && !uefi)
        },
{
}

/// A head that is not compressed, carries no ISO 9660/UDF signature and no WIM
/// magic, and has a GPT header ("EFI PART") at byte 512 or 4096, is a GPT disk
/// image, whatever its MBR holds: a signed protective MBR does not make it an
/// MBR image.
pub proof fn lemma_gpt_header_makes_gpt_disk_image(head: Seq<u8>)
    requires
        spec_detect_compression(head) is None,
        !spec_has_iso9660(head),
        !spec_has_udf(head),
        !spec_is_wim(head),
        region_matches(head, 512, magic::GPT_MAGIC@) || region_matches(
            head,
            4096,
            magic::GPT_MAGIC@,
        ),
    ensures
        spec_classify(head) == (ImageKind::DiskImage { gpt: true }),
{
}

/// An image reported as an MBR disk image has no GPT header at byte 512 or
/// 4096, and has the 0x55AA signature at byte 510 with at least one of its
/// four partition entries in use (a nonzero type and a nonzero extent).
pub proof fn lemma_mbr_disk_image_shape(head: Seq<u8>)
    ensures
        spec_classify(head) == (ImageKind::DiskImage { gpt: false }) ==> {
            &&& !region_matches(head, 512, magic::GPT_MAGIC@)
            &&& !region_matches(head, 4096, magic::GPT_MAGIC@)
            &&& region_matches(head, 510, seq![0x55u8, 0xAAu8])
            &&& exists|i: int|
                0 <= i < 4 && (#[trigger] spec_mbr_entry(head, i)).part_type != 0 && (spec_mbr_entry(
                    head,
                    i,
                ).start_lba != 0 || spec_mbr_entry(head, i).sectors != 0)
        },
{
    if spec_classify(head) == (ImageKind::DiskImage { gpt: false }) {
        assert(magic::MBR_SIGNATURE@ =~= seq![0x55u8, 0xAAu8]);
        assert(magic::any_mbr_entry_used(head));
        let i = choose|i: int| 0 <= i < 4 && (#[trigger] spec_mbr_entry(head, i)).spec_is_used();
        assert(spec_mbr_entry(head, i).spec_is_used());
    }
}

/// A head that is not compressed, not an ISO and not a WIM, has no GPT header
/// and has a signed MBR with an entry in use, is an MBR disk image.
pub proof fn lemma_mbr_table_makes_mbr_disk_image(head: Seq<u8>, i: int)
    requires
        spec_detect_compression(head) is None,
        !spec_has_iso9660(head),
        !spec_has_udf(head),
        !spec_is_wim(head),
        !region_matches(head, 512, magic::GPT_MAGIC@),
        !region_matches(head, 4096, magic::GPT_MAGIC@),
        region_matches(head, 510, seq![0x55u8, 0xAAu8]),
        0 <= i < 4,
        spec_mbr_entry(head, i).part_type != 0,
        spec_mbr_entry(head, i).start_lba != 0 || spec_mbr_entry(head, i).sectors != 0,
    ensures
        spec_classify(head) == (ImageKind::DiskImage { gpt: false }),
{
    assert(magic::MBR_SIGNATURE@ =~= seq![0x55u8, 0xAAu8]);
    assert(spec_mbr_entry(head, i).spec_is_used());
    assert(magic::any_mbr_entry_used(head));
}

/// A raw WIM (`MSWIM\0\0\0` or `WLPWM\0\0\0` at offset 0) that is neither
/// compressed nor an ISO is reported as a WIM, before any partition-table check.
pub proof fn lemma_wim_magic_makes_wim(head: Seq<u8>)
    requires
        spec_detect_compression(head) is None,
        !spec_has_iso9660(head),
        !spec_has_udf(head),
        region_matches(head, 0, magic::WIM_MAGIC@) || region_matches(
            head,
            0,
            magic::WIM_PIPABLE_MAGIC@,
        ),
    ensures
        spec_classify(head) == ImageKind::Wim,
{
}

/// A bare filesystem has no partition table: no GPT header, and no signed MBR
/// with an entry in use. An NTFS one carries the `NTFS    ` OEM id at byte 3;
/// a FAT one a boot jump at byte 0 without it; an ext one the 0xEF53 magic at
/// byte 1080 and no boot sector.
pub proof fn lemma_bare_filesystem_shape(head: Seq<u8>)
    ensures
        spec_classify(head) is BareFilesystem ==> {
            &&& !region_matches(head, 512, magic::GPT_MAGIC@)
            &&& !region_matches(head, 4096, magic::GPT_MAGIC@)
            &&& !(region_matches(head, 510, seq![0x55u8, 0xAAu8]) && exists|i: int|
                0 <= i < 4 && (#[trigger] spec_mbr_entry(head, i)).part_type != 0 && (spec_mbr_entry(
                    head,
                    i,
                ).start_lba != 0 || spec_mbr_entry(head, i).sectors != 0))
        },
        spec_classify(head) == ImageKind::BareFilesystem(FilesystemHint::Ntfs) ==> region_matches(
            head,
            3,
            magic::NTFS_OEM_ID@,
        ),
        spec_classify(head) == ImageKind::BareFilesystem(FilesystemHint::Fat) ==> {
            &&& !region_matches(head, 3, magic::NTFS_OEM_ID@)
            &&& head.len() >= 3
            &&& ((head[0] == 0xEB && head[2] == 0x90) || head[0] == 0xE9)
        },
        spec_classify(head) == ImageKind::BareFilesystem(FilesystemHint::Ext) ==> region_matches(
            head,
            1080,
            magic::EXT_MAGIC@,
        ),
{
    assert(magic::MBR_SIGNATURE@ =~= seq![0x55u8, 0xAAu8]);
    if spec_classify(head) is BareFilesystem {
        if region_matches(head, 510, seq![0x55u8, 0xAAu8]) && exists|i: int|
            0 <= i < 4 && (#[trigger] spec_mbr_entry(head, i)).part_type != 0 && (spec_mbr_entry(
                head,
                i,
            ).start_lba != 0 || spec_mbr_entry(head, i).sectors != 0) {
            let i = choose|i: int|
                0 <= i < 4 && (#[trigger] spec_mbr_entry(head, i)).part_type != 0 && (spec_mbr_entry(
                    head,
                    i,
                ).start_lba != 0 || spec_mbr_entry(head, i).sectors != 0);
            assert(spec_mbr_entry(head, i).spec_is_used());
            assert(magic::any_mbr_entry_used(head));
        }
    }
}

/// An unknown head carries none of the signatures the tree looks for.
pub proof fn lemma_unknown_has_no_signature(head: Seq<u8>)
    ensures
        spec_classify(head) is Unknown ==> {
            &&& spec_detect_compression(head) is None
            &&& !spec_has_iso9660(head)
            &&& !spec_has_udf(head)
            &&& !region_matches(head, 0, magic::WIM_MAGIC@)
            &&& !region_matches(head, 512, magic::GPT_MAGIC@)
            &&& !region_matches(head, 4096, magic::GPT_MAGIC@)
            &&& !spec_has_mbr_partition_table(head)
            &&& !spec_is_fat_or_ntfs_bootsector(head)
            &&& !region_matches(head, 1080, magic::EXT_MAGIC@)
        },
{
}

/// An ISO's hybrid class read straight off its bytes. It is BIOS-bootable
/// exactly when the 0x55AA signature is at byte 510 and one of the four MBR
/// entries is in use (nonzero type, nonzero extent) with a type other than
/// 0xEE and 0xEF; UEFI-bootable exactly when "EFI PART" is at byte 512 or
/// 4096, or the signed MBR has an entry of type 0xEE or 0xEF.
pub proof fn lemma_iso_hybrid_from_bytes(head: Seq<u8>)
    ensures
        spec_classify(head) matches ImageKind::Iso { hybrid, .. } ==> {
            let signed = region_matches(head, 510, seq![0x55u8, 0xAAu8]);
            let bios = signed && exists|i: int|
                0 <= i < 4 && (#[trigger] spec_mbr_entry(head, i)).part_type != 0 && (spec_mbr_entry(
                    head,
                    i,
                ).start_lba != 0 || spec_mbr_entry(head, i).sectors != 0) && spec_mbr_entry(
                    head,
                    i,
                ).part_type != 0xEE && spec_mbr_entry(head, i).part_type != 0xEF;
            let uefi = region_matches(head, 512, magic::GPT_MAGIC@) || region_matches(
                head,
                4096,
                magic::GPT_MAGIC@,
            ) || (signed && exists|i: int|
                0 <= i < 4 && ((#[trigger] spec_mbr_entry(head, i)).part_type == 0xEE
                    || spec_mbr_entry(head, i).part_type == 0xEF));
            &&& (hybrid is BiosAndUefiHybrid <==> bios && uefi)
            &&& (hybrid is UefiHybrid <==> !bios && uefi)
            &&& (hybrid is BiosHybrid <==> bios && !uefi)
            &&& (hybrid is OpticalOnly <==> !bios && !uefi)
        },
{
    assert(magic::MBR_SIGNATURE@ =~= seq![0x55u8, 0xAAu8]);
}

/// The flavor a name gives, in terms of what it contains once ASCII letters
/// are lower-cased: `freebsd` always means FreeBSD; otherwise `openbsd` means
/// OpenBSD; otherwise `netbsd` NetBSD; otherwise `dragonfly` or `dfly`
/// DragonFly. A name that is recognized at all contains `bsd`, `dragonfly`
/// or `dfly`, a FreeBSD disc name or an OpenBSD numbered ISO.
pub proof fn lemma_bsd_flavor_by_name(name: Seq<u8>)
    ensures
        bytes_contain(ascii_lowered(name), seq![0x66u8, 0x72, 0x65, 0x65, 0x62, 0x73, 0x64])
            ==> spec_guess_bsd_flavor(name) == BsdFlavor::FreeBsd,
        !bytes_contain(ascii_lowered(name), seq![0x66u8, 0x72, 0x65, 0x65, 0x62, 0x73, 0x64])
            && bytes_contain(ascii_lowered(name), seq![0x6Fu8, 0x70, 0x65, 0x6E, 0x62, 0x73, 0x64])
            ==> spec_guess_bsd_flavor(name) == BsdFlavor::OpenBsd,
        spec_guess_bsd_flavor(name) == BsdFlavor::NetBsd ==> bytes_contain(
            ascii_lowered(name),
            seq![0x6Eu8, 0x65, 0x74, 0x62, 0x73, 0x64],
        ),
        spec_guess_bsd_flavor(name) == BsdFlavor::DragonFly ==> (bytes_contain(
            ascii_lowered(name),
            seq![0x64u8, 0x72, 0x61, 0x67, 0x6F, 0x6E, 0x66, 0x6C, 0x79],
        ) || bytes_contain(ascii_lowered(name), seq![0x64u8, 0x66, 0x6C, 0x79])),
        spec_guess_bsd_flavor(name) != BsdFlavor::Unknown ==> (bytes_contain(
            ascii_lowered(name),
            seq![0x62u8, 0x73, 0x64],
        ) || bytes_contain(
            ascii_lowered(name),
            seq![0x64u8, 0x72, 0x61, 0x67, 0x6F, 0x6E, 0x66, 0x6C, 0x79],
        ) || bytes_contain(ascii_lowered(name), seq![0x64u8, 0x66, 0x6C, 0x79]) || bytes_contain(
            ascii_lowered(name),
            seq![0x64u8, 0x69, 0x73, 0x63, 0x31],
        ) || bytes_contain(ascii_lowered(name), seq![0x64u8, 0x76, 0x64, 0x31]) || bytes_contain(
            ascii_lowered(name),
            seq![0x62u8, 0x6F, 0x6F, 0x74, 0x6F, 0x6E, 0x6C, 0x79],
        ) || bytes_contain_numbered_iso(ascii_lowered(name), INSTALL_STEM@)
            || bytes_contain_numbered_iso(ascii_lowered(name), CD_STEM@)),
{
    let s = ascii_lowered(name);
    assert(FREEBSD_NAME@ =~= seq![0x66u8, 0x72, 0x65, 0x65, 0x62, 0x73, 0x64]);
    assert(OPENBSD_NAME@ =~= seq![0x6Fu8, 0x70, 0x65, 0x6E, 0x62, 0x73, 0x64]);
    assert(NETBSD_NAME@ =~= seq![0x6Eu8, 0x65, 0x74, 0x62, 0x73, 0x64]);
    assert(DFLY_NAME@ =~= seq![0x64u8, 0x66, 0x6C, 0x79]);
    assert(DRAGONFLY_NAME@ =~= seq![0x64u8, 0x72, 0x61, 0x67, 0x6F, 0x6E, 0x66, 0x6C, 0x79]);
    assert(DISC1_NAME@ =~= seq![0x64u8, 0x69, 0x73, 0x63, 0x31]);
    assert(DVD1_NAME@ =~= seq![0x64u8, 0x76, 0x64, 0x31]);
    assert(BOOTONLY_NAME@ =~= seq![0x62u8, 0x6F, 0x6F, 0x74, 0x6F, 0x6E, 0x6C, 0x79]);
    let bsd = seq![0x62u8, 0x73, 0x64];
    if bytes_contain(s, FREEBSD_NAME@) {
        let i = choose|i: int| #[trigger] magic::region_matches(s, i, FREEBSD_NAME@);
        assert(s.subrange(i + 4, i + 7) =~= s.subrange(i, i + 7).subrange(4, 7));
        assert(FREEBSD_NAME@.subrange(4, 7) =~= bsd);
        assert(magic::region_matches(s, i + 4, bsd));
    } else if bytes_contain(s, OPENBSD_NAME@) {
        let i = choose|i: int| #[trigger] magic::region_matches(s, i, OPENBSD_NAME@);
        assert(s.subrange(i + 4, i + 7) =~= s.subrange(i, i + 7).subrange(4, 7));
        assert(OPENBSD_NAME@.subrange(4, 7) =~= bsd);
        assert(magic::region_matches(s, i + 4, bsd));
    } else if bytes_contain(s, NETBSD_NAME@) {
        let i = choose|i: int| #[trigger] magic::region_matches(s, i, NETBSD_NAME@);
        assert(s.subrange(i + 3, i + 6) =~= s.subrange(i, i + 6).subrange(3, 6));
        assert(NETBSD_NAME@.subrange(3, 6) =~= bsd);
        assert(magic::region_matches(s, i + 3, bsd));
    }
}

/// `needle` occurs somewhere in `hay`.
pub open spec fn bytes_contain(hay: Seq<u8>, needle: Seq<u8>) -> bool {
    exists|i: int| #[trigger] magic::region_matches(hay, i, needle)
}

/// An ASCII decimal digit.
pub open spec fn is_digit_byte(b: u8) -> bool {
    0x30 <= b <= 0x39
}

/// At offset `i` of `hay` stands `stem`, two decimal digits and `.iso`
/// (as in `install79.iso` or `cd79.iso`).
pub open spec fn numbered_iso_at(hay: Seq<u8>, i: int, stem: Seq<u8>) -> bool {
    let d = i + stem.len();
    &&& magic::region_matches(hay, i, stem)
    &&& magic::region_matches(hay, d + 2, ISO_SUFFIX@)
    &&& is_digit_byte(hay[d])
    &&& is_digit_byte(hay[d + 1])
}

/// `stem`, two decimal digits and `.iso` occur somewhere in `hay`.
pub open spec fn bytes_contain_numbered_iso(hay: Seq<u8>, stem: Seq<u8>) -> bool {
    exists|i: int| #[trigger] numbered_iso_at(hay, i, stem)
}

/// The flavor named by the (UTF-8 bytes of the) filename and/or label, looked
/// up case-insensitively: first the names themselves, in the order FreeBSD,
/// OpenBSD, NetBSD, DragonFly (`dragonfly` or `dfly`); then FreeBSD's disc
/// names (`disc1`, `dvd1`, `bootonly`); then OpenBSD's numbered ISOs
/// (`installXX.iso`, `cdXX.iso`).
pub open spec fn spec_guess_bsd_flavor(name_and_label: Seq<u8>) -> BsdFlavor {
    let s = ascii_lowered(name_and_label);
    if bytes_contain(s, FREEBSD_NAME@) {
        BsdFlavor::FreeBsd
    } else if bytes_contain(s, OPENBSD_NAME@) {
        BsdFlavor::OpenBsd
    } else if bytes_contain(s, NETBSD_NAME@) {
        BsdFlavor::NetBsd
    } else if bytes_contain(s, DRAGONFLY_NAME@) || bytes_contain(s, DFLY_NAME@) {
        BsdFlavor::DragonFly
    } else if bytes_contain(s, DISC1_NAME@) || bytes_contain(s, DVD1_NAME@) || bytes_contain(
        s,
        BOOTONLY_NAME@,
    ) {
        BsdFlavor::FreeBsd
    } else if bytes_contain_numbered_iso(s, INSTALL_STEM@) || bytes_contain_numbered_iso(
        s,
        CD_STEM@,
    ) {
        BsdFlavor::OpenBsd
    } else {
        BsdFlavor::Unknown
    }
}

fn to_ascii_lowercase_bytes(s: &[u8]) -> (r: Vec<u8>)
    ensures
        r@ == ascii_lowered(s@),
{
    let mut out: Vec<u8> = Vec::new();
    let mut i: usize = 0;
    while i < s.len()
        invariant
            i <= s.len(),
            out@ == ascii_lowered(s@.take(i as int)),
        decreases s.len() - i,
    {
        let b = s[i];
        let l = if 0x41 <= b && b <= 0x5A {
            b + 32
        } else {
            b
        };
        out.push(l);
        assert(s@.take(i + 1) =~= s@.take(i as int).push(b));
        assert(ascii_lowered(s@.take(i + 1)) =~= ascii_lowered(s@.take(i as int)).push(l));
        i += 1;
    }
    assert(s@.take(s.len() as int) =~= s@);
    out
}

fn contains_bytes(hay: &[u8], needle: &[u8]) -> (r: bool)
    ensures
        r == bytes_contain(hay@, needle@),
{
    let mut i: usize = 0;
    while i < hay.len()
        invariant
            i <= hay.len(),
            forall|j: int| 0 <= j < i ==> !magic::region_matches(hay@, j, needle@),
        decreases hay.len() - i,
    {
        if magic::region_eq(hay, i, needle) {
            return true;
        }
        i += 1;
    }
    // At i == hay.len() only an empty needle can still match.
    let last = magic::region_eq(hay, i, needle);
    assert forall|j: int| #![trigger magic::region_matches(hay@, j, needle@)]
        !(0 <= j <= hay.len()) implies !magic::region_matches(hay@, j, needle@) by {}
    last
}

fn contains_numbered_iso(hay: &[u8], stem: &[u8]) -> (r: bool)
    ensures
        r == bytes_contain_numbered_iso(hay@, stem@),
{
    let mut i: usize = 0;
    while i < hay.len()
        invariant
            i <= hay.len(),
            forall|j: int| 0 <= j < i ==> !numbered_iso_at(hay@, j, stem@),
        decreases hay.len() - i,
    {
        if magic::region_eq(hay, i, stem) {
            let d = i + stem.len();
            if hay.len() - d >= 6 && 0x30 <= hay[d] && hay[d] <= 0x39 && 0x30 <= hay[d + 1]
                && hay[d + 1] <= 0x39 && magic::region_eq(hay, d + 2, &ISO_SUFFIX) {
                assert(numbered_iso_at(hay@, i as int, stem@));
                return true;
            }
            assert(!numbered_iso_at(hay@, i as int, stem@));
        }
        i += 1;
    }
    assert forall|j: int| #![trigger numbered_iso_at(hay@, j, stem@)]
        !(0 <= j < hay.len()) implies !numbered_iso_at(hay@, j, stem@) by {}
    false
}

/// Guess the BSD flavor from an image's filename and/or volume label.
///
/// Matches, case-insensitively, the flavor names themselves (so `NetBSD-*.iso`,
/// `dfly-*_REL.iso` and labels like `OpenBSD/amd64 7.9 Install CD`), then the
/// FreeBSD disc names `disc1`/`dvd1`/`bootonly`, then OpenBSD's
/// `installXX.iso`/`cdXX.iso`.
pub fn guess_bsd_flavor(name_and_label: &str) -> (r: BsdFlavor)
    ensures
        r == spec_guess_bsd_flavor(name_and_label.spec_bytes()),
{
    let s = to_ascii_lowercase_bytes(name_and_label.as_bytes());
    if contains_bytes(s.as_slice(), &FREEBSD_NAME) {
        BsdFlavor::FreeBsd
    } else if contains_bytes(s.as_slice(), &OPENBSD_NAME) {
        BsdFlavor::OpenBsd
    } else if contains_bytes(s.as_slice(), &NETBSD_NAME) {
        BsdFlavor::NetBsd
    } else if contains_bytes(s.as_slice(), &DRAGONFLY_NAME) || contains_bytes(
        s.as_slice(),
        &DFLY_NAME,
    ) {
        BsdFlavor::DragonFly
    } else if contains_bytes(s.as_slice(), &DISC1_NAME) || contains_bytes(s.as_slice(), &DVD1_NAME)
        || contains_bytes(s.as_slice(), &BOOTONLY_NAME) {
        BsdFlavor::FreeBsd
    } else if contains_numbered_iso(s.as_slice(), &INSTALL_STEM) || contains_numbered_iso(
        s.as_slice(),
        &CD_STEM,
    ) {
        BsdFlavor::OpenBsd
    } else {
        BsdFlavor::Unknown
    }
}

/// A hard warning that an optical-only ISO is about to be written to USB and
/// will most likely not boot. Callers surface this and require explicit consent.
#[derive(Debug, Clone, PartialEq, Eq)]
pub struct BsdWarning {
    pub flavor: BsdFlavor,
    pub message: String,
}

/// The sentence that names the recognized flavor (empty when unrecognized).
pub open spec fn spec_flavor_sentence(f: BsdFlavor) -> Seq<char> {
    match f {
        BsdFlavor::Unknown => Seq::empty(),
        BsdFlavor::FreeBsd => " It looks like a FreeBSD install ISO."@,
        BsdFlavor::OpenBsd => " It looks like an OpenBSD install ISO."@,
        BsdFlavor::NetBsd => " It looks like a NetBSD install ISO."@,
        BsdFlavor::DragonFly => " It looks like a DragonFly BSD install ISO."@,
    }
}

/// The full warning text for a flavor.
pub open spec fn spec_bsd_message(f: BsdFlavor) -> Seq<char> {
    "This is an ISO-9660 image with no hybrid partition table or EFI boot entry, so writing it raw to USB will most likely produce a non-bootable stick."@
        + spec_flavor_sentence(f) + " For USB, use "@ + spec_usb_image_hint(f)
        + " instead. Write this ISO to USB anyway?"@
}

/// The kind is an ISO with no hybrid partition table.
pub open spec fn is_optical_only_iso(kind: ImageKind) -> bool {
    kind matches ImageKind::Iso { hybrid, .. } && hybrid is OpticalOnly
}

/// Produce a BSD warning if `kind` is an optical-only ISO. Returns `None` when
/// the image is dd-writable or isn't an ISO at all. `name_and_label` is the
/// filename and/or volume label, used only to name the right USB image.
pub fn bsd_warning(kind: &ImageKind, name_and_label: &str) -> (r: Option<BsdWarning>)
    ensures
        r is Some <==> is_optical_only_iso(*kind),
        r matches Some(w) ==> w.flavor == spec_guess_bsd_flavor(name_and_label.spec_bytes())
            && w.message@ == spec_bsd_message(w.flavor),
{
    let hybrid = match kind {
        ImageKind::Iso { hybrid, .. } => *hybrid,
        _ => {
            return None;
        },
    };
    if !matches!(hybrid, IsoHybrid::OpticalOnly) {
        return None;
    }
    let flavor = guess_bsd_flavor(name_and_label);
    let named = match flavor {
        BsdFlavor::Unknown => String::new(),
        BsdFlavor::FreeBsd => String::from_str(" It looks like a FreeBSD install ISO."),
        BsdFlavor::OpenBsd => String::from_str(" It looks like an OpenBSD install ISO."),
        BsdFlavor::NetBsd => String::from_str(" It looks like a NetBSD install ISO."),
        BsdFlavor::DragonFly => String::from_str(" It looks like a DragonFly BSD install ISO."),
    };
    let mut message = String::from_str(
        "This is an ISO-9660 image with no hybrid partition table or EFI boot entry, so writing it raw to USB will most likely produce a non-bootable stick.",
    );
    message.append(named.as_str());
    message.append(" For USB, use ");
    message.append(flavor.usb_image_hint());
    message.append(" instead. Write this ISO to USB anyway?");
    Some(BsdWarning { flavor, message })
}

// ---- top-level verdict ---------------------------------------------------------
/// The complete result of inspecting an image head: what it is, plus any
/// hard warning a caller must surface before writing.
#[derive(Debug, Clone, PartialEq, Eq)]
pub struct Verdict {
    pub kind: ImageKind,
    /// Present only for optical-only ISOs: a hard "this won't boot" warning.
    pub bsd_warning: Option<BsdWarning>,
}

/// A kind that can be raw-written to USB with a reasonable expectation of booting.
pub open spec fn spec_kind_is_dd_writable(kind: ImageKind) -> bool {
    match kind {
        ImageKind::Iso { hybrid, .. } => !(hybrid is OpticalOnly),
        ImageKind::DiskImage { .. } | ImageKind::BareFilesystem(_) => true,
        ImageKind::Compressed(_) | ImageKind::Wim | ImageKind::Unknown => false,
    }
}

impl Verdict {
    /// True if this image can be raw-written to USB with a reasonable
    /// expectation of booting. Compressed images return `false` here because
    /// the inner content must be decompressed and re-inspected first.
    pub fn is_dd_writable(&self) -> (r: bool)
        ensures
            r == spec_kind_is_dd_writable(self.kind),
    {
        match &self.kind {
            ImageKind::Iso { hybrid, .. } => hybrid.is_dd_writable(),
            ImageKind::DiskImage { .. } | ImageKind::BareFilesystem(_) => true,
            ImageKind::Compressed(_) | ImageKind::Wim | ImageKind::Unknown => false,
        }
    }
}

/// Inspect an image head and produce a [`Verdict`]. `name_and_label` is the
/// filename and/or volume label, used only to name the right USB image in a
/// BSD warning; pass an empty string if unknown.
pub fn inspect(head: &[u8], name_and_label: &str) -> (r: Verdict)
    ensures
        r.kind == spec_classify(head@),
        r.bsd_warning is Some <==> is_optical_only_iso(r.kind),
        r.bsd_warning matches Some(w) ==> w.flavor == spec_guess_bsd_flavor(
            name_and_label.spec_bytes(),
        ) && w.message@ == spec_bsd_message(w.flavor),
{
    let kind = classify(head);
    let bsd_warning = bsd_warning(&kind, name_and_label);
    Verdict { kind, bsd_warning }
}

// ---- laws -------------------------------------------------------------------------
/// A compression wrapper is reported before anything else: whatever follows
/// the magic at offset 0 (even a valid ISO), the head classifies as compressed.
pub proof fn lemma_compression_wins_first(head: Seq<u8>)
    ensures
        spec_detect_compression(head) matches Some(c) ==> spec_classify(head)
            == ImageKind::Compressed(c),
{
}

/// A head classifies as an ISO exactly when it is not compressed and carries an
/// ISO 9660 identifier or a UDF descriptor.
pub proof fn lemma_iso_iff_optical_signature(head: Seq<u8>)
    ensures
        spec_classify(head) is Iso <==> (spec_detect_compression(head) is None && (spec_has_iso9660(
            head,
        ) || spec_has_udf(head))),
{
}

/// An optical-only ISO, the one kind that gets the BSD warning, is never
/// reported as raw-writable.
pub proof fn lemma_warned_kinds_are_not_dd_writable(kind: ImageKind)
    ensures
        is_optical_only_iso(kind) ==> !spec_kind_is_dd_writable(kind),
{
}

/// A GPT-protective (0xEE) or ESP (0xEF) entry never makes an ISO
/// BIOS-hybrid on its own: with no GPT header and no other used entry, such
/// an ISO is UEFI-hybrid.
pub proof fn lemma_uefi_markers_are_not_bios(head: Seq<u8>)
    requires
        spec_mbr_signature(head),
        !spec_has_gpt(head),
        forall|i: int|
            0 <= i < 4 ==> !(#[trigger] spec_mbr_entry(head, i)).spec_is_used()
                || is_uefi_marker_entry(spec_mbr_entry(head, i)),
        exists|i: int| 0 <= i < 4 && is_uefi_marker_entry(#[trigger] spec_mbr_entry(head, i)),
    ensures
        spec_classify_hybrid(head) == IsoHybrid::UefiHybrid,
{
}

/// The window `[off, off + p.len())` lies in the first `n` bytes, so the
/// region test sees the same bytes in `b` and in its first `n` bytes.
proof fn lemma_region_in_prefix(b: Seq<u8>, n: int, off: int, p: Seq<u8>)
    requires
        n <= b.len(),
        0 <= off,
        off + p.len() <= n,
    ensures
        region_matches(b, off, p) == region_matches(b.take(n), off, p),
{
    assert(b.take(n).subrange(off, off + p.len()) =~= b.subrange(off, off + p.len()));
}

/// Classification reads nothing past the first `DETECTION_HEAD_LEN` bytes:
/// handing it a longer head changes nothing.
pub proof fn lemma_classify_reads_only_detection_head(head: Seq<u8>)
    requires
        head.len() >= crate::detect::DETECTION_HEAD_LEN,
    ensures
        spec_classify(head) == spec_classify(head.take(crate::detect::DETECTION_HEAD_LEN as int)),
{
    let n = crate::detect::DETECTION_HEAD_LEN as int;
    let t = head.take(n);
    // compression magics at offset 0
    lemma_region_in_prefix(head, n, 0, magic::XZ_MAGIC@);
    lemma_region_in_prefix(head, n, 0, magic::ZSTD_MAGIC@);
    lemma_region_in_prefix(head, n, 0, magic::SEVEN_ZIP_MAGIC@);
    lemma_region_in_prefix(head, n, 0, magic::LZ4_MAGIC@);
    lemma_region_in_prefix(head, n, 0, magic::GZIP_MAGIC@);
    lemma_region_in_prefix(head, n, 0, magic::BZIP2_MAGIC@);
    assert(spec_detect_compression(head) == spec_detect_compression(t));
    // optical family
    lemma_region_in_prefix(head, n, magic::ISO9660_MAGIC_OFFSET as int, magic::ISO9660_MAGIC@);
    assert forall|k: int| 0 <= k < magic::VRS_SCAN_DESCRIPTORS implies #[trigger] magic::vrs_has_nsr(
        head,
        k,
    ) == magic::vrs_has_nsr(t, k) && magic::vrs_is_terminator(head, k)
        == magic::vrs_is_terminator(t, k) by {
        lemma_region_in_prefix(head, n, magic::vrs_id_offset(k), magic::UDF_NSR02@);
        lemma_region_in_prefix(head, n, magic::vrs_id_offset(k), magic::UDF_NSR03@);
        lemma_region_in_prefix(head, n, magic::vrs_id_offset(k), magic::UDF_TEA01@);
    }
    assert forall|k: int| 0 <= k < magic::VRS_SCAN_DESCRIPTORS implies #[trigger]
        magic::vrs_nsr_before_terminator(head, k) == magic::vrs_nsr_before_terminator(t, k) by {
        assert(magic::vrs_has_nsr(head, k) == magic::vrs_has_nsr(t, k));
        assert forall|j: int| 0 <= j < k implies #[trigger] magic::vrs_is_terminator(head, j)
            == magic::vrs_is_terminator(t, j) by {
            assert(magic::vrs_has_nsr(head, j) == magic::vrs_has_nsr(t, j));
        }
        if magic::vrs_nsr_before_terminator(head, k) {
            assert forall|j: int| 0 <= j < k implies !#[trigger] magic::vrs_is_terminator(t, j) by {
                assert(!magic::vrs_is_terminator(head, j));
            }
        }
        if magic::vrs_nsr_before_terminator(t, k) {
            assert forall|j: int| 0 <= j < k implies !#[trigger] magic::vrs_is_terminator(head, j) by {
                assert(!magic::vrs_is_terminator(t, j));
            }
        }
    }
    assert(spec_has_udf(head) == spec_has_udf(t)) by {
        if spec_has_udf(head) {
            let k = choose|k: int|
                0 <= k < magic::VRS_SCAN_DESCRIPTORS && #[trigger] magic::vrs_nsr_before_terminator(
                    head,
                    k,
                );
            assert(magic::vrs_nsr_before_terminator(t, k));
        }
        if spec_has_udf(t) {
            let k = choose|k: int|
                0 <= k < magic::VRS_SCAN_DESCRIPTORS && #[trigger] magic::vrs_nsr_before_terminator(
                    t,
                    k,
                );
            assert(magic::vrs_nsr_before_terminator(head, k));
        }
    }
    let o = magic::EL_TORITO_BRVD_OFFSET as int;
    lemma_region_in_prefix(head, n, o + 1, magic::ISO9660_MAGIC@);
    lemma_region_in_prefix(head, n, o + 7, magic::EL_TORITO_ID@);
    assert(spec_el_torito(head) == spec_el_torito(t));
    // partition tables
    lemma_region_in_prefix(head, n, magic::MBR_SIG_OFFSET as int, magic::MBR_SIGNATURE@);
    lemma_region_in_prefix(head, n, magic::GPT_HEADER_OFFSET_512 as int, magic::GPT_MAGIC@);
    lemma_region_in_prefix(head, n, magic::GPT_HEADER_OFFSET_4K as int, magic::GPT_MAGIC@);
    assert forall|i: int| 0 <= i < 4 implies #[trigger] spec_mbr_entry(head, i) == spec_mbr_entry(
        t,
        i,
    ) by {}
    assert(spec_has_mbr_partition_table(head) == spec_has_mbr_partition_table(t)) by {
        if magic::any_mbr_entry_used(head) {
            let i = choose|i: int| 0 <= i < 4 && (#[trigger] spec_mbr_entry(head, i)).spec_is_used();
            assert(spec_mbr_entry(t, i).spec_is_used());
        }
        if magic::any_mbr_entry_used(t) {
            let i = choose|i: int| 0 <= i < 4 && (#[trigger] spec_mbr_entry(t, i)).spec_is_used();
            assert(spec_mbr_entry(head, i).spec_is_used());
        }
    }
    assert(spec_classify_hybrid(head) == spec_classify_hybrid(t)) by {
        if spec_has_bios_partition(head) {
            let i = choose|i: int| 0 <= i < 4 && is_bios_entry(#[trigger] spec_mbr_entry(head, i));
            assert(is_bios_entry(spec_mbr_entry(t, i)));
        }
        if spec_has_bios_partition(t) {
            let i = choose|i: int| 0 <= i < 4 && is_bios_entry(#[trigger] spec_mbr_entry(t, i));
            assert(is_bios_entry(spec_mbr_entry(head, i)));
        }
        if spec_has_mbr_efi_marker(head) {
            let i = choose|i: int| 0 <= i < 4 && is_uefi_marker_entry(#[trigger] spec_mbr_entry(head, i));
            assert(is_uefi_marker_entry(spec_mbr_entry(t, i)));
        }
        if spec_has_mbr_efi_marker(t) {
            let i = choose|i: int| 0 <= i < 4 && is_uefi_marker_entry(#[trigger] spec_mbr_entry(t, i));
            assert(is_uefi_marker_entry(spec_mbr_entry(head, i)));
        }
    }
    // WIM and bare filesystems
    lemma_region_in_prefix(head, n, 0, magic::WIM_MAGIC@);
    lemma_region_in_prefix(head, n, 0, magic::WIM_PIPABLE_MAGIC@);
    lemma_region_in_prefix(head, n, 3, magic::NTFS_OEM_ID@);
    lemma_region_in_prefix(head, n, magic::EXT_MAGIC_OFFSET as int, magic::EXT_MAGIC@);
    assert(spec_is_fat_or_ntfs_bootsector(head) == spec_is_fat_or_ntfs_bootsector(t));
}

/// `needle` occurs somewhere in `hay`.
pub open spec fn chars_contain(hay: Seq<char>, needle: Seq<char>) -> bool {
    exists|i: int|
        0 <= i && i + needle.len() <= hay.len() && #[trigger] hay.subrange(i, i + needle.len())
            == needle
}

/// `hay` ends with `tail`.
pub open spec fn chars_end_with(hay: Seq<char>, tail: Seq<char>) -> bool {
    tail.len() <= hay.len() && hay.subrange(hay.len() - tail.len(), hay.len() as int) == tail
}

/// No `I` in `s` is directly followed by a `t`.
spec fn no_it_pair(s: Seq<char>) -> bool {
    forall|k: int| 0 <= k < s.len() - 1 ==> !(#[trigger] s[k] == 'I' && s[k + 1] == 't')
}

proof fn lemma_no_it_pair_concat(x: Seq<char>, y: Seq<char>)
    requires
        no_it_pair(x),
        no_it_pair(y),
        x.len() == 0 || x.last() != 'I',
    ensures
        no_it_pair(x + y),
{
    let z = x + y;
    assert forall|k: int| 0 <= k < z.len() - 1 implies !(#[trigger] z[k] == 'I' && z[k + 1] == 't') by {
        if k + 1 < x.len() {
            assert(z[k] == x[k] && z[k + 1] == x[k + 1]);
        } else if k + 1 == x.len() {
            assert(z[k] == x.last());
        } else {
            assert(z[k] == y[k - x.len()] && z[k + 1] == y[k + 1 - x.len()]);
        }
    }
}

/// The BSD warning names the flavor's dedicated USB image, always ends by
/// asking for consent, and says which BSD the ISO looks like ("It looks
/// like ...") exactly when the flavor was recognized.
pub proof fn lemma_bsd_message_shape(f: BsdFlavor)
    ensures
        chars_contain(spec_bsd_message(f), spec_usb_image_hint(f)),
        chars_end_with(spec_bsd_message(f), "Write this ISO to USB anyway?"@),
        chars_contain(spec_bsd_message(f), "It looks like"@) <==> !(f is Unknown),
{
    reveal_strlit(
        "This is an ISO-9660 image with no hybrid partition table or EFI boot entry, so writing it raw to USB will most likely produce a non-bootable stick.",
    );
    reveal_strlit(" For USB, use ");
    reveal_strlit(" instead. Write this ISO to USB anyway?");
    reveal_strlit("Write this ISO to USB anyway?");
    reveal_strlit("It looks like");
    reveal_strlit(" It looks like a FreeBSD install ISO.");
    reveal_strlit(" It looks like an OpenBSD install ISO.");
    reveal_strlit(" It looks like a NetBSD install ISO.");
    reveal_strlit(" It looks like a DragonFly BSD install ISO.");
    reveal_strlit("FreeBSD-<ver>-<arch>-memstick.img");
    reveal_strlit("install<XX>.img (e.g. install79.img)");
    reveal_strlit("the install.img.gz memstick image (decompress first)");
    reveal_strlit("dfly-<arch>-<ver>_REL.img.bz2 (decompress first)");
    reveal_strlit("the vendor's dedicated USB (.img/memstick) image");
    let a = "This is an ISO-9660 image with no hybrid partition table or EFI boot entry, so writing it raw to USB will most likely produce a non-bootable stick."@;
    let fs = spec_flavor_sentence(f);
    let b = " For USB, use "@;
    let h = spec_usb_image_hint(f);
    let t = " instead. Write this ISO to USB anyway?"@;
    let q = "Write this ISO to USB anyway?"@;
    let needle = "It looks like"@;
    let m = spec_bsd_message(f);
    assert(m == a + fs + b + h + t);
    // the hint
    let ih: int = (a.len() + fs.len() + b.len()) as int;
    assert(m.subrange(ih, ih + h.len()) =~= h);
    // the closing question
    assert(t.subrange(t.len() - q.len(), t.len() as int) =~= q);
    assert(m.subrange(m.len() - q.len(), m.len() as int) =~= t.subrange(
        t.len() - q.len(),
        t.len() as int,
    ));
    // the flavor sentence
    if !(f is Unknown) {
        assert(fs.subrange(1, 1 + needle.len() as int) =~= needle);
        let ia: int = a.len() as int + 1;
        assert(m.subrange(ia, ia + needle.len()) =~= needle);
    } else {
        assert(fs =~= Seq::<char>::empty());
        assert(no_it_pair(a));
        assert(no_it_pair(b));
        assert(no_it_pair(h));
        assert(no_it_pair(t));
        lemma_no_it_pair_concat(a, fs);
        assert(a + fs =~= a);
        lemma_no_it_pair_concat(a + fs, b);
        lemma_no_it_pair_concat(a + fs + b, h);
        lemma_no_it_pair_concat(a + fs + b + h, t);
        if chars_contain(m, needle) {
            let i = choose|i: int|
                0 <= i && i + needle.len() <= m.len() && #[trigger] m.subrange(i, i + needle.len())
                    == needle;
            assert(m.subrange(i, i + needle.len())[0] == 'I');
            assert(m.subrange(i, i + needle.len())[1] == 't');
            assert(m[i] == 'I' && m[i + 1] == 't');
        }
    }
}

} // verus!
