//! Byte-signature probes for image/format detection.
//!
//! Every probe is a total function of an in-memory byte slice holding the head
//! of an image: an offset that falls outside the slice yields `false`/`None`,
//! never a panic. Each probe's contract states, over the slice's view, exactly
//! which bytes it reads and what it compares them to.
use vstd::prelude::*;

verus! {

// ---- Offsets & sizes ---------------------------------------------------------
/// ISO 9660 Primary Volume Descriptor identifier "CD001", at byte 32769 (0x8001).
pub const ISO9660_MAGIC_OFFSET: usize = 32769;

/// The ISO 9660 / UDF Volume Recognition Sequence starts at byte 32768 (0x8000).
pub const VRS_START: usize = 32768;

/// Each Volume Descriptor in the VRS is one 2048-byte logical sector.
pub const ISO_SECTOR: usize = 2048;

/// Number of VRS descriptors that the UDF scan looks at.
pub const VRS_SCAN_DESCRIPTORS: usize = 16;

/// El Torito Boot Record Volume Descriptor: LBA 17 = byte 34816 (0x8800).
pub const EL_TORITO_BRVD_OFFSET: usize = 34816;

/// Length of the part of the Boot Record Volume Descriptor that is read.
pub const EL_TORITO_BRVD_LEN: usize = 75;

/// MBR boot signature 0x55 0xAA lives at byte 510 (0x1FE).
pub const MBR_SIG_OFFSET: usize = 510;

/// MBR partition table (4 x 16-byte entries) starts at byte 446 (0x1BE).
pub const MBR_PARTITION_TABLE_OFFSET: usize = 446;

/// GPT header "EFI PART" at byte 512 on 512-byte-logical disks.
pub const GPT_HEADER_OFFSET_512: usize = 512;

/// GPT header "EFI PART" at byte 4096 on 4Kn disks.
pub const GPT_HEADER_OFFSET_4K: usize = 4096;

/// ext2/3/4 superblock magic (0xEF53, little-endian) at byte 1080 (0x438).
pub const EXT_MAGIC_OFFSET: usize = 1080;

// ---- Magic values -------------------------------------------------------------
/// "CD001"
pub const ISO9660_MAGIC: [u8; 5] = [0x43, 0x44, 0x30, 0x30, 0x31];

/// "NSR02"
pub const UDF_NSR02: [u8; 5] = [0x4E, 0x53, 0x52, 0x30, 0x32];

/// "NSR03"
pub const UDF_NSR03: [u8; 5] = [0x4E, 0x53, 0x52, 0x30, 0x33];

/// "BEA01"
pub const UDF_BEA01: [u8; 5] = [0x42, 0x45, 0x41, 0x30, 0x31];

/// "TEA01"
pub const UDF_TEA01: [u8; 5] = [0x54, 0x45, 0x41, 0x30, 0x31];

/// "EL TORITO SPECIFICATION"
pub const EL_TORITO_ID: [u8; 23] = [
    0x45, 0x4C, 0x20, 0x54, 0x4F, 0x52, 0x49, 0x54, 0x4F, 0x20, 0x53, 0x50, 0x45, 0x43, 0x49, 0x46,
    0x49, 0x43, 0x41, 0x54, 0x49, 0x4F, 0x4E,
];

/// "EFI PART"
pub const GPT_MAGIC: [u8; 8] = [0x45, 0x46, 0x49, 0x20, 0x50, 0x41, 0x52, 0x54];

/// WIM header magic "MSWIM\0\0\0". Shared by install.wim and install.esd.
pub const WIM_MAGIC: [u8; 8] = [0x4D, 0x53, 0x57, 0x49, 0x4D, 0x00, 0x00, 0x00];

/// wimlib pipable WIM variant "WLPWM\0\0\0".
pub const WIM_PIPABLE_MAGIC: [u8; 8] = [0x57, 0x4C, 0x50, 0x57, 0x4D, 0x00, 0x00, 0x00];

/// The MBR boot signature bytes.
pub const MBR_SIGNATURE: [u8; 2] = [0x55, 0xAA];

/// The ext2/3/4 superblock magic as stored on disk (0xEF53 little-endian).
pub const EXT_MAGIC: [u8; 2] = [0x53, 0xEF];

/// The OEM id of an NTFS boot sector, "NTFS    ".
pub const NTFS_OEM_ID: [u8; 8] = [0x4E, 0x54, 0x46, 0x53, 0x20, 0x20, 0x20, 0x20];

/// xz stream header.
pub const XZ_MAGIC: [u8; 6] = [0xFD, 0x37, 0x7A, 0x58, 0x5A, 0x00];

/// zstd frame magic.
pub const ZSTD_MAGIC: [u8; 4] = [0x28, 0xB5, 0x2F, 0xFD];

/// 7z archive signature.
pub const SEVEN_ZIP_MAGIC: [u8; 6] = [0x37, 0x7A, 0xBC, 0xAF, 0x27, 0x1C];

/// lz4 frame magic.
pub const LZ4_MAGIC: [u8; 4] = [0x04, 0x22, 0x4D, 0x18];

/// gzip member header (the method byte that follows is not checked).
pub const GZIP_MAGIC: [u8; 2] = [0x1F, 0x8B];

/// bzip2 stream header "BZh" (a block-size digit follows).
pub const BZIP2_MAGIC: [u8; 3] = [0x42, 0x5A, 0x68];

// ---- Generic byte-window model ------------------------------------------------
/// The `pat.len()` bytes of `buf` at `offset` exist and equal `pat`.
pub open spec fn region_matches(buf: Seq<u8>, offset: int, pat: Seq<u8>) -> bool {
    &&& 0 <= offset
    &&& offset + pat.len() <= buf.len()
    &&& buf.subrange(offset, offset + pat.len()) == pat
}

/// `buf` begins with `prefix`.
pub open spec fn starts_with(buf: Seq<u8>, prefix: Seq<u8>) -> bool {
    region_matches(buf, 0, prefix)
}

/// The little-endian `u32` stored at `buf[i..i + 4]`.
pub open spec fn le_u32_at(buf: Seq<u8>, i: int) -> u32 {
    (buf[i] + 256 * buf[i + 1] + 65536 * buf[i + 2] + 16777216 * buf[i + 3]) as u32
}

/// True if the `pat.len()` bytes of `buf` at `offset` exist and equal `pat`.
pub fn region_eq(buf: &[u8], offset: usize, pat: &[u8]) -> (r: bool)
    ensures
        r == region_matches(buf@, offset as int, pat@),
{
    if offset > buf.len() || pat.len() > buf.len() - offset {
        return false;
    }
    let mut i: usize = 0;
    while i < pat.len()
        invariant
            i <= pat.len(),
            offset + pat.len() <= buf.len(),
            forall|j: int| 0 <= j < i ==> buf@[offset + j] == pat@[j],
        decreases pat.len() - i,
    {
        if buf[offset + i] != pat[i] {
            assert(buf@.subrange(offset as int, offset + pat.len())[i as int] != pat@[i as int]);
            return false;
        }
        i += 1;
    }
    assert(buf@.subrange(offset as int, offset + pat.len()) =~= pat@);
    true
}

/// Read the little-endian `u32` at `buf[i..i + 4]`.
pub fn read_le_u32(buf: &[u8], i: usize) -> (r: u32)
    requires
        i + 4 <= buf@.len(),
    ensures
        r == le_u32_at(buf@, i as int),
{
    buf[i] as u32 + (buf[i + 1] as u32) * 256 + (buf[i + 2] as u32) * 65536 + (buf[i + 3] as u32)
        * 16777216
}

// ---- Compression wrappers (all at offset 0) -----------------------------------
/// A compression wrapper detected at the head of the stream.
///
/// Detection is by magic bytes, not file extension: a gzip stream named
/// `image.img` is still recognized as compressed.
#[derive(Debug, Clone, Copy, PartialEq, Eq, Structural)]
pub enum Compression {
    Gzip,
    Xz,
    Zstd,
    Bzip2,
    Lz4,
    /// 7z is a container archive, not a raw stream.
    SevenZip,
}

impl Compression {
    /// Human-readable name for messages.
    pub fn name(self) -> (r: &'static str)
        ensures
            r@ == (match self {
                Compression::Gzip => "gzip"@,
                Compression::Xz => "xz"@,
                Compression::Zstd => "zstd"@,
                Compression::Bzip2 => "bzip2"@,
                Compression::Lz4 => "lz4"@,
                Compression::SevenZip => "7z"@,
            }),
    {
        match self {
            Compression::Gzip => "gzip",
            Compression::Xz => "xz",
            Compression::Zstd => "zstd",
            Compression::Bzip2 => "bzip2",
            Compression::Lz4 => "lz4",
            Compression::SevenZip => "7z",
        }
    }

    /// True for stream formats that can be decompressed on the fly. 7z is a
    /// container (random-access archive), so it is not a streamable wrapper.
    pub fn is_streamable(self) -> (r: bool)
        ensures
            r == !(self is SevenZip),
    {
        !matches!(self, Compression::SevenZip)
    }
}

/// A bzip2 block-size digit, '1'..='9'.
pub open spec fn is_bzip2_level(b: u8) -> bool {
    0x31 <= b <= 0x39
}

/// The compression wrapper announced by the leading bytes, checked in the
/// order xz, zstd, 7z, lz4, gzip, bzip2.
pub open spec fn spec_detect_compression(head: Seq<u8>) -> Option<Compression> {
    if starts_with(head, XZ_MAGIC@) {
        Some(Compression::Xz)
    } else if starts_with(head, ZSTD_MAGIC@) {
        Some(Compression::Zstd)
    } else if starts_with(head, SEVEN_ZIP_MAGIC@) {
        Some(Compression::SevenZip)
    } else if starts_with(head, LZ4_MAGIC@) {
        Some(Compression::Lz4)
    } else if starts_with(head, GZIP_MAGIC@) {
        Some(Compression::Gzip)
    } else if starts_with(head, BZIP2_MAGIC@) && head.len() > 3 && is_bzip2_level(head[3]) {
        Some(Compression::Bzip2)
    } else {
        None
    }
}

/// Detect a compression wrapper by the leading magic bytes.
pub fn detect_compression(head: &[u8]) -> (r: Option<Compression>)
    ensures
        r == spec_detect_compression(head@),
{
    if region_eq(head, 0, &XZ_MAGIC) {
        return Some(Compression::Xz);
    }
    if region_eq(head, 0, &ZSTD_MAGIC) {
        return Some(Compression::Zstd);
    }
    if region_eq(head, 0, &SEVEN_ZIP_MAGIC) {
        return Some(Compression::SevenZip);
    }
    if region_eq(head, 0, &LZ4_MAGIC) {
        return Some(Compression::Lz4);
    }
    // gzip: 1F 8B, then a compression-method byte (08 = deflate in practice).
    if region_eq(head, 0, &GZIP_MAGIC) {
        return Some(Compression::Gzip);
    }
    // bzip2: "BZh" then a block-size digit '1'..='9'.
    if region_eq(head, 0, &BZIP2_MAGIC) && head.len() > 3 && 0x31 <= head[3] && head[3] <= 0x39 {
        return Some(Compression::Bzip2);
    }
    None
}

// ---- ISO 9660 / UDF ------------------------------------------------------------
/// The ISO 9660 Primary Volume Descriptor identifier is present.
pub open spec fn spec_has_iso9660(buf: Seq<u8>) -> bool {
    region_matches(buf, ISO9660_MAGIC_OFFSET as int, ISO9660_MAGIC@)
}

/// True if an ISO 9660 Primary Volume Descriptor identifier is present.
pub fn has_iso9660(buf: &[u8]) -> (r: bool)
    ensures
        r == spec_has_iso9660(buf@),
{
    region_eq(buf, ISO9660_MAGIC_OFFSET, &ISO9660_MAGIC)
}

/// Byte offset of the standard identifier of the `k`-th VRS descriptor.
pub open spec fn vrs_id_offset(k: int) -> int {
    VRS_START + k * ISO_SECTOR + 1
}

/// The `k`-th VRS descriptor carries a UDF NSR02 or NSR03 identifier.
pub open spec fn vrs_has_nsr(buf: Seq<u8>, k: int) -> bool {
    region_matches(buf, vrs_id_offset(k), UDF_NSR02@) || region_matches(
        buf,
        vrs_id_offset(k),
        UDF_NSR03@,
    )
}

/// The `k`-th VRS descriptor is a TEA01 terminator.
pub open spec fn vrs_is_terminator(buf: Seq<u8>, k: int) -> bool {
    region_matches(buf, vrs_id_offset(k), UDF_TEA01@)
}

/// The `k`-th VRS descriptor is a UDF NSR descriptor and no terminator comes
/// before it.
pub open spec fn vrs_nsr_before_terminator(buf: Seq<u8>, k: int) -> bool {
    vrs_has_nsr(buf, k) && forall|j: int| 0 <= j < k ==> !#[trigger] vrs_is_terminator(buf, j)
}

/// Walking the first 16 VRS descriptors, a UDF NSR descriptor comes before any
/// TEA01 terminator and before the walk runs off the end of `buf`.
pub open spec fn spec_has_udf(buf: Seq<u8>) -> bool {
    exists|k: int| 0 <= k < VRS_SCAN_DESCRIPTORS && #[trigger] vrs_nsr_before_terminator(buf, k)
}

/// Scan the Volume Recognition Sequence for a UDF NSR descriptor.
///
/// The VRS is a run of 2048-byte descriptors starting at 0x8000; each begins
/// with a 1-byte structure type followed by a 5-byte standard identifier. The
/// walk goes until a TEA01 terminator or a gap (the first descriptor that
/// does not fit in `buf`), and looks at no more than 16 descriptors.
pub fn has_udf(buf: &[u8]) -> (r: bool)
    ensures
        r == spec_has_udf(buf@),
{
    let mut k: usize = 0;
    while k < VRS_SCAN_DESCRIPTORS
        invariant
            k <= VRS_SCAN_DESCRIPTORS,
            forall|j: int| 0 <= j < k ==> !vrs_has_nsr(buf@, j),
            forall|j: int| 0 <= j < k ==> !#[trigger] vrs_is_terminator(buf@, j),
        decreases VRS_SCAN_DESCRIPTORS - k,
    {
        let off = VRS_START + k * ISO_SECTOR;
        if off + 1 > buf.len() || 5 > buf.len() - (off + 1) {
            // Every later descriptor lies further out, so none of them fits.
            assert forall|j: int| k <= j < VRS_SCAN_DESCRIPTORS implies !vrs_has_nsr(buf@, j) by {
                assert(vrs_id_offset(j) >= vrs_id_offset(k as int));
            }
            assert(!spec_has_udf(buf@));
            return false;
        }
        if region_eq(buf, off + 1, &UDF_NSR02) || region_eq(buf, off + 1, &UDF_NSR03) {
            assert(vrs_nsr_before_terminator(buf@, k as int));
            return true;
        }
        if region_eq(buf, off + 1, &UDF_TEA01) {
            // The walk ends here: nothing at or after a terminator counts.
            assert forall|j: int| 0 <= j < VRS_SCAN_DESCRIPTORS implies !#[trigger]
                vrs_nsr_before_terminator(buf@, j) by {
                if j > k {
                    assert(vrs_is_terminator(buf@, k as int));
                }
            }
            return false;
        }
        k += 1;
    }
    false
}

// ---- El Torito -----------------------------------------------------------------
/// El Torito boot information extracted from the Boot Record Volume Descriptor.
#[derive(Debug, Clone, Copy, PartialEq, Eq, Structural)]
pub struct ElTorito {
    /// LBA of the boot catalog (bytes 71..75 of the BRVD, LE u32).
    pub catalog_lba: u32,
}

/// The El Torito boot record at LBA 17, if the buffer holds one.
pub open spec fn spec_el_torito(buf: Seq<u8>) -> Option<ElTorito> {
    let o = EL_TORITO_BRVD_OFFSET as int;
    if o + EL_TORITO_BRVD_LEN <= buf.len() && buf[o] == 0 && region_matches(
        buf,
        o + 1,
        ISO9660_MAGIC@,
    ) && region_matches(buf, o + 7, EL_TORITO_ID@) {
        Some(ElTorito { catalog_lba: le_u32_at(buf, o + 71) })
    } else {
        None
    }
}

/// Each compression format is recognized by its own magic at offset 0 (the
/// magics are distinct, so the checking order never matters); bzip2 needs
/// "BZh" followed by a block-size digit `1` to `9`; without one of these
/// magics nothing is reported.
pub proof fn lemma_compression_magics(head: Seq<u8>)
    ensures
        starts_with(head, seq![0xFDu8, 0x37, 0x7A, 0x58, 0x5A, 0x00]) ==> spec_detect_compression(
            head,
        ) == Some(Compression::Xz),
        starts_with(head, seq![0x28u8, 0xB5, 0x2F, 0xFD]) ==> spec_detect_compression(head)
            == Some(Compression::Zstd),
        starts_with(head, seq![0x37u8, 0x7A, 0xBC, 0xAF, 0x27, 0x1C]) ==> spec_detect_compression(
            head,
        ) == Some(Compression::SevenZip),
        starts_with(head, seq![0x04u8, 0x22, 0x4D, 0x18]) ==> spec_detect_compression(head)
            == Some(Compression::Lz4),
        starts_with(head, seq![0x1Fu8, 0x8B]) ==> spec_detect_compression(head) == Some(
            Compression::Gzip,
        ),
        starts_with(head, seq![0x42u8, 0x5A, 0x68]) ==> (spec_detect_compression(head) == Some(
            Compression::Bzip2,
        ) <==> (head.len() > 3 && 0x31 <= head[3] <= 0x39)),
        spec_detect_compression(head) is Some ==> {
            ||| starts_with(head, seq![0xFDu8, 0x37, 0x7A, 0x58, 0x5A, 0x00])
            ||| starts_with(head, seq![0x28u8, 0xB5, 0x2F, 0xFD])
            ||| starts_with(head, seq![0x37u8, 0x7A, 0xBC, 0xAF, 0x27, 0x1C])
            ||| starts_with(head, seq![0x04u8, 0x22, 0x4D, 0x18])
            ||| starts_with(head, seq![0x1Fu8, 0x8B])
            ||| starts_with(head, seq![0x42u8, 0x5A, 0x68])
        },
{
    assert(XZ_MAGIC@ =~= seq![0xFDu8, 0x37, 0x7A, 0x58, 0x5A, 0x00]);
    assert(ZSTD_MAGIC@ =~= seq![0x28u8, 0xB5, 0x2F, 0xFD]);
    assert(SEVEN_ZIP_MAGIC@ =~= seq![0x37u8, 0x7A, 0xBC, 0xAF, 0x27, 0x1C]);
    assert(LZ4_MAGIC@ =~= seq![0x04u8, 0x22, 0x4D, 0x18]);
    assert(GZIP_MAGIC@ =~= seq![0x1Fu8, 0x8B]);
    assert(BZIP2_MAGIC@ =~= seq![0x42u8, 0x5A, 0x68]);
    if starts_with(head, seq![0x42u8, 0x5A, 0x68]) {
        assert(head[0] == head.subrange(0, 3)[0]);
    }
    if head.len() >= 2 {
        assert(head[0] == head.subrange(0, 2)[0]);
    }
    if head.len() >= 4 {
        assert(head[0] == head.subrange(0, 4)[0]);
        assert(head[0] == head.subrange(0, 3)[0]);
    }
    if head.len() >= 6 {
        assert(head[0] == head.subrange(0, 6)[0]);
        assert(head[0] == head.subrange(0, 4)[0]);
        assert(head[0] == head.subrange(0, 3)[0]);
        assert(head[0] == head.subrange(0, 2)[0]);
    }
}

/// The El Torito boot record is found exactly when the 75-byte descriptor at
/// byte 0x8800 fits, starts with type 0, "CD001" and "EL TORITO
/// SPECIFICATION", and its catalog LBA is the little-endian `u32` at bytes
/// 71..75 of the descriptor.
pub proof fn lemma_el_torito_record(buf: Seq<u8>)
    ensures
        spec_el_torito(buf) is Some <==> (0x8800 + 75 <= buf.len() && buf[0x8800int] == 0
            && region_matches(buf, 0x8801, ISO9660_MAGIC@) && region_matches(
            buf,
            0x8807,
            EL_TORITO_ID@,
        )),
        spec_el_torito(buf) matches Some(e) ==> e.catalog_lba == buf[0x8847int] + 256 * buf[0x8848int]
            + 65536 * buf[0x8849int] + 16777216 * buf[0x884Aint],
{
    if spec_el_torito(buf) is Some {
        let o = 0x8800int;
        let v = buf[o + 71] + 256 * buf[o + 72] + 65536 * buf[o + 73] + 16777216 * buf[o + 74];
        assert(0 <= v <= 0xFFFF_FFFF) by (nonlinear_arith)
            requires
                0 <= buf[o + 71] < 256,
                0 <= buf[o + 72] < 256,
                0 <= buf[o + 73] < 256,
                0 <= buf[o + 74] < 256,
                v == buf[o + 71] + 256 * buf[o + 72] + 65536 * buf[o + 73] + 16777216 * buf[o + 74],
        ;
    }
}

/// Detect the El Torito Boot Record Volume Descriptor at LBA 17.
///
/// Layout: byte 0 = 0x00, bytes 1..6 = "CD001", bytes 7..39 = the boot system
/// identifier "EL TORITO SPECIFICATION" (null-padded), bytes 71..75 = catalog LBA.
pub fn el_torito(buf: &[u8]) -> (r: Option<ElTorito>)
    ensures
        r == spec_el_torito(buf@),
{
    let o = EL_TORITO_BRVD_OFFSET;
    if buf.len() < o + EL_TORITO_BRVD_LEN {
        return None;
    }
    if buf[o] != 0x00 {
        return None;
    }
    if !region_eq(buf, o + 1, &ISO9660_MAGIC) {
        return None;
    }
    // The boot system identifier field is 32 bytes; match the leading id text.
    if !region_eq(buf, o + 7, &EL_TORITO_ID) {
        return None;
    }
    let catalog_lba = read_le_u32(buf, o + 71);
    Some(ElTorito { catalog_lba })
}

// ---- MBR -----------------------------------------------------------------------
/// A single MBR partition-table entry (16 bytes at 446 + i*16).
#[derive(Debug, Clone, Copy, PartialEq, Eq, Structural)]
pub struct MbrPartition {
    /// Status/bootable flag (0x80 = active).
    pub status: u8,
    /// Partition type byte (0xEE = GPT protective, 0xEF = ESP marker).
    pub part_type: u8,
    /// Starting LBA (LE u32 at entry offset +8).
    pub start_lba: u32,
    /// Sector count (LE u32 at entry offset +12).
    pub sectors: u32,
}

impl MbrPartition {
    /// The entry has a type and points somewhere.
    pub open spec fn spec_is_used(self) -> bool {
        self.part_type != 0 && (self.start_lba != 0 || self.sectors != 0)
    }

    /// The entry is a 0xEE GPT-protective partition.
    pub open spec fn spec_is_gpt_protective(self) -> bool {
        self.part_type == 0xEE
    }

    /// The entry is a 0xEF EFI System Partition marker.
    pub open spec fn spec_is_esp(self) -> bool {
        self.part_type == 0xEF
    }

    /// A non-empty entry points somewhere and has a type.
    pub fn is_used(&self) -> (r: bool)
        ensures
            r == self.spec_is_used(),
    {
        self.part_type != 0 && (self.start_lba != 0 || self.sectors != 0)
    }

    /// 0xEE: the protective partition that signals a GPT disk.
    pub fn is_gpt_protective(&self) -> (r: bool)
        ensures
            r == self.spec_is_gpt_protective(),
    {
        self.part_type == 0xEE
    }

    /// 0xEF: an EFI System Partition marker in the MBR (isohybrid UEFI).
    pub fn is_esp(&self) -> (r: bool)
        ensures
            r == self.spec_is_esp(),
    {
        self.part_type == 0xEF
    }
}

/// The 0x55AA boot signature is present at byte 510.
pub open spec fn spec_mbr_signature(buf: Seq<u8>) -> bool {
    region_matches(buf, MBR_SIG_OFFSET as int, MBR_SIGNATURE@)
}

/// True if the 0x55AA boot signature is present at byte 510.
pub fn mbr_signature(buf: &[u8]) -> (r: bool)
    ensures
        r == spec_mbr_signature(buf@),
{
    region_eq(buf, MBR_SIG_OFFSET, &MBR_SIGNATURE)
}

/// The buffer is long enough to hold the whole MBR partition table.
pub open spec fn has_mbr_table_region(buf: Seq<u8>) -> bool {
    MBR_PARTITION_TABLE_OFFSET + 64 <= buf.len()
}

/// The `i`-th MBR partition entry (0..4) as stored in `buf`.
pub open spec fn spec_mbr_entry(buf: Seq<u8>, i: int) -> MbrPartition {
    let e = MBR_PARTITION_TABLE_OFFSET + 16 * i;
    MbrPartition {
        status: buf[e],
        part_type: buf[e + 4],
        start_lba: le_u32_at(buf, e + 8),
        sectors: le_u32_at(buf, e + 12),
    }
}

/// The four partition entries, in table order.
pub open spec fn spec_mbr_entries(buf: Seq<u8>) -> Seq<MbrPartition> {
    seq![
        spec_mbr_entry(buf, 0),
        spec_mbr_entry(buf, 1),
        spec_mbr_entry(buf, 2),
        spec_mbr_entry(buf, 3),
    ]
}

fn read_mbr_entry(buf: &[u8], i: usize) -> (r: MbrPartition)
    requires
        i < 4,
        has_mbr_table_region(buf@),
    ensures
        r == spec_mbr_entry(buf@, i as int),
{
    let e = MBR_PARTITION_TABLE_OFFSET + 16 * i;
    MbrPartition {
        status: buf[e],
        part_type: buf[e + 4],
        start_lba: read_le_u32(buf, e + 8),
        sectors: read_le_u32(buf, e + 12),
    }
}

/// The MBR partition table as stored: it is read only when the 64 bytes at
/// byte 446 are present, and entry `i` (0..4) takes its status from byte
/// `446 + 16 i`, its type from byte `+4`, and its start LBA and sector count
/// from the little-endian `u32`s at `+8` and `+12`. An entry is in use when
/// it has a nonzero type and a nonzero start or length.
pub proof fn lemma_mbr_entries_layout(buf: Seq<u8>, i: int)
    requires
        0 <= i < 4,
        446 + 64 <= buf.len(),
    ensures
        has_mbr_table_region(buf),
        spec_mbr_entries(buf)[i].status == buf[446 + 16 * i],
        spec_mbr_entries(buf)[i].part_type == buf[446 + 16 * i + 4],
        spec_mbr_entries(buf)[i].start_lba == buf[446 + 16 * i + 8] + 256 * buf[446 + 16 * i + 9]
            + 65536 * buf[446 + 16 * i + 10] + 16777216 * buf[446 + 16 * i + 11],
        spec_mbr_entries(buf)[i].sectors == buf[446 + 16 * i + 12] + 256 * buf[446 + 16 * i + 13]
            + 65536 * buf[446 + 16 * i + 14] + 16777216 * buf[446 + 16 * i + 15],
        spec_mbr_entries(buf)[i].spec_is_used() <==> (buf[446 + 16 * i + 4] != 0 && (
        spec_mbr_entries(buf)[i].start_lba != 0 || spec_mbr_entries(buf)[i].sectors != 0)),
{
    let e = 446 + 16 * i;
    let a = buf[e + 8] + 256 * buf[e + 9] + 65536 * buf[e + 10] + 16777216 * buf[e + 11];
    let b = buf[e + 12] + 256 * buf[e + 13] + 65536 * buf[e + 14] + 16777216 * buf[e + 15];
    assert(0 <= a <= 0xFFFF_FFFF) by (nonlinear_arith)
        requires
            0 <= buf[e + 8] < 256,
            0 <= buf[e + 9] < 256,
            0 <= buf[e + 10] < 256,
            0 <= buf[e + 11] < 256,
            a == buf[e + 8] + 256 * buf[e + 9] + 65536 * buf[e + 10] + 16777216 * buf[e + 11],
    ;
    assert(0 <= b <= 0xFFFF_FFFF) by (nonlinear_arith)
        requires
            0 <= buf[e + 12] < 256,
            0 <= buf[e + 13] < 256,
            0 <= buf[e + 14] < 256,
            0 <= buf[e + 15] < 256,
            b == buf[e + 12] + 256 * buf[e + 13] + 65536 * buf[e + 14] + 16777216 * buf[e + 15],
    ;
    assert(spec_mbr_entries(buf)[i] == spec_mbr_entry(buf, i));
}

/// Parse the four MBR partition-table entries. Returns `None` if the buffer is
/// too short to contain the table.
pub fn mbr_partitions(buf: &[u8]) -> (r: Option<[MbrPartition; 4]>)
    ensures
        r is Some <==> has_mbr_table_region(buf@),
        r matches Some(p) ==> p@ == spec_mbr_entries(buf@),
{
    if buf.len() < MBR_PARTITION_TABLE_OFFSET + 64 {
        return None;
    }
    let out = [
        read_mbr_entry(buf, 0),
        read_mbr_entry(buf, 1),
        read_mbr_entry(buf, 2),
        read_mbr_entry(buf, 3),
    ];
    assert(out@ =~= spec_mbr_entries(buf@));
    Some(out)
}

/// At least one of the four partition entries is in use.
pub open spec fn any_mbr_entry_used(buf: Seq<u8>) -> bool {
    exists|i: int| 0 <= i < 4 && (#[trigger] spec_mbr_entry(buf, i)).spec_is_used()
}

/// A valid MBR (0x55AA) with at least one used partition entry.
pub open spec fn spec_has_mbr_partition_table(buf: Seq<u8>) -> bool {
    spec_mbr_signature(buf) && any_mbr_entry_used(buf)
}

/// True if there is a valid MBR (0x55AA) with at least one used partition entry.
pub fn has_mbr_partition_table(buf: &[u8]) -> (r: bool)
    ensures
        r == spec_has_mbr_partition_table(buf@),
{
    if !mbr_signature(buf) {
        return false;
    }
    match mbr_partitions(buf) {
        Some(p) => {
            let used = p[0].is_used() || p[1].is_used() || p[2].is_used() || p[3].is_used();
            proof {
                if used {
                    if p[0].spec_is_used() {
                        assert(spec_mbr_entry(buf@, 0).spec_is_used());
                    } else if p[1].spec_is_used() {
                        assert(spec_mbr_entry(buf@, 1).spec_is_used());
                    } else if p[2].spec_is_used() {
                        assert(spec_mbr_entry(buf@, 2).spec_is_used());
                    } else {
                        assert(spec_mbr_entry(buf@, 3).spec_is_used());
                    }
                } else {
                    assert forall|i: int| 0 <= i < 4 implies !(#[trigger] spec_mbr_entry(
                        buf@,
                        i,
                    )).spec_is_used() by {
                        assert(p@[i] == spec_mbr_entry(buf@, i));
                    }
                }
            }
            used
        },
        None => false,
    }
}

// ---- GPT -----------------------------------------------------------------------
/// A GPT header is present at byte 512 or at byte 4096.
pub open spec fn spec_has_gpt(buf: Seq<u8>) -> bool {
    region_matches(buf, GPT_HEADER_OFFSET_512 as int, GPT_MAGIC@) || region_matches(
        buf,
        GPT_HEADER_OFFSET_4K as int,
        GPT_MAGIC@,
    )
}

/// True if a GPT header ("EFI PART") is present at the given logical block size.
///
/// The primary GPT header sits at LBA 1: byte 512 on 512-byte-logical disks,
/// byte 4096 on 4Kn disks. Both common layouts are checked.
pub fn has_gpt(buf: &[u8]) -> (r: bool)
    ensures
        r == spec_has_gpt(buf@),
{
    region_eq(buf, GPT_HEADER_OFFSET_512, &GPT_MAGIC) || region_eq(
        buf,
        GPT_HEADER_OFFSET_4K,
        &GPT_MAGIC,
    )
}

// ---- Bare filesystems (image with no partition table) ---------------------------
/// A filesystem recognized directly at offset 0 (a partitionless fs image).
#[derive(Debug, Clone, Copy, PartialEq, Eq, Structural)]
pub enum FilesystemHint {
    Fat,
    Ntfs,
    Ext,
}

/// A jump instruction (EB xx 90 or E9 xx xx) at offset 0 and the 0x55AA
/// signature at byte 510.
pub open spec fn spec_is_fat_or_ntfs_bootsector(buf: Seq<u8>) -> bool {
    &&& buf.len() >= 3
    &&& ((buf[0] == 0xEB && buf[2] == 0x90) || buf[0] == 0xE9)
    &&& spec_mbr_signature(buf)
}

/// True if the head looks like a FAT/NTFS boot sector: a jump instruction
/// (EB xx 90 or E9 xx xx) at offset 0 plus the 0x55AA signature at 510.
pub fn is_fat_or_ntfs_bootsector(buf: &[u8]) -> (r: bool)
    ensures
        r == spec_is_fat_or_ntfs_bootsector(buf@),
{
    if buf.len() < 3 {
        return false;
    }
    let jump = (buf[0] == 0xEB && buf[2] == 0x90) || buf[0] == 0xE9;
    jump && mbr_signature(buf)
}

/// A FAT/NTFS boot sector whose OEM id at offset 3 is "NTFS    ".
pub open spec fn spec_is_ntfs_bootsector(buf: Seq<u8>) -> bool {
    spec_is_fat_or_ntfs_bootsector(buf) && region_matches(buf, 3, NTFS_OEM_ID@)
}

/// True if `buf` is an NTFS boot sector ("NTFS    " OEM id at offset 3).
pub fn is_ntfs_bootsector(buf: &[u8]) -> (r: bool)
    ensures
        r == spec_is_ntfs_bootsector(buf@),
{
    is_fat_or_ntfs_bootsector(buf) && region_eq(buf, 3, &NTFS_OEM_ID)
}

/// The ext2/3/4 superblock magic is at byte 1080.
pub open spec fn spec_is_ext(buf: Seq<u8>) -> bool {
    region_matches(buf, EXT_MAGIC_OFFSET as int, EXT_MAGIC@)
}

/// True if the ext2/3/4 superblock magic (0xEF53 LE) is at byte 1080.
pub fn is_ext(buf: &[u8]) -> (r: bool)
    ensures
        r == spec_is_ext(buf@),
{
    region_eq(buf, EXT_MAGIC_OFFSET, &EXT_MAGIC)
}

// ---- WIM -----------------------------------------------------------------------
/// The head starts with the 8-byte WIM magic or its pipable variant.
pub open spec fn spec_is_wim(buf: Seq<u8>) -> bool {
    starts_with(buf, WIM_MAGIC@) || starts_with(buf, WIM_PIPABLE_MAGIC@)
}

/// True if the head is a Windows Imaging Format file (install.wim/.esd).
///
/// Checked as the exact 8-byte magic (not a 4-byte "MSWM"): install.esd shares
/// the same magic as install.wim, differing only in compression flags.
pub fn is_wim(buf: &[u8]) -> (r: bool)
    ensures
        r == spec_is_wim(buf@),
{
    region_eq(buf, 0, &WIM_MAGIC) || region_eq(buf, 0, &WIM_PIPABLE_MAGIC)
}

} // verus!
