//! The `ImgReport` model: the single source of truth about an image.
//!
//! The scanner fills this in while walking an image; every downstream decision
//! (filesystem choice, partition scheme, boot method) reads from it through the
//! `is_*`/`has_*` predicates below, each of which is a pure function of the
//! report whose contract is its exact boolean formula.
use vstd::prelude::*;

verus! {

/// Maximum number of Windows install images tracked. Bounded at 4 because
/// `has_4gb_file`'s high nibble maps one flag bit per entry.
pub const MAX_WININST: usize = 4;

/// Number of tracked legacy c32 modules.
pub const NB_OLD_C32: usize = 2;

/// FAT32's per-file ceiling: 2^32 - 1 bytes. A single file at or above this
/// cannot live on FAT32 and forces either a WIM split or an NTFS target.
pub const FAT32_MAX_FILE: u64 = 4294967295;

/// Windows version quadruple.
#[derive(Debug, Clone, Copy, PartialEq, Eq, Structural)]
pub struct WinVer {
    pub major: u16,
    pub minor: u16,
    pub build: u16,
    pub revision: u16,
}

impl Default for WinVer {
    fn default() -> (r: Self)
        ensures
            r == (WinVer { major: 0, minor: 0, build: 0, revision: 0 }),
    {
        WinVer { major: 0, minor: 0, build: 0, revision: 0 }
    }
}

/// The kind of UEFI boot entry found.
#[derive(Debug, Clone, Copy, PartialEq, Eq, Structural)]
pub enum EfiBootType {
    /// A regular `boot<arch>.efi` loader.
    Main,
    /// A GRUB EFI loader.
    Grub,
    /// A Secure Boot MOK manager.
    MokManager,
    /// Windows `bootmgr.efi`.
    BootMgr,
}

/// One detected UEFI bootloader.
#[derive(Debug, Clone, PartialEq, Eq)]
pub struct EfiBootEntry {
    pub kind: EfiBootType,
    pub path: String,
}

/// Which filesystem a target should be formatted with.
#[derive(Debug, Clone, Copy, PartialEq, Eq, Structural)]
pub enum FsType {
    Fat16,
    Fat32,
    Ntfs,
    Udf,
    ExFat,
    Ext2,
    Ext3,
    Ext4,
}

impl FsType {
    /// One of the FAT filesystems.
    pub fn is_fat(self) -> (r: bool)
        ensures
            r == (self is Fat16 || self is Fat32),
    {
        matches!(self, FsType::Fat16 | FsType::Fat32)
    }

    /// One of the ext filesystems.
    pub fn is_ext(self) -> (r: bool)
        ensures
            r == (self is Ext2 || self is Ext3 || self is Ext4),
    {
        matches!(self, FsType::Ext2 | FsType::Ext3 | FsType::Ext4)
    }
}

/// Target firmware type.
#[derive(Debug, Clone, Copy, PartialEq, Eq, Structural)]
pub enum TargetType {
    Bios,
    Uefi,
}

/// Tri-state DD-bootability.
///
/// Modeled as an enum rather than a raw integer so the "forced" state (user
/// overrode a missing boot marker) can't be confused with "genuinely bootable".
#[derive(Debug, Clone, Copy, PartialEq, Eq, Structural)]
pub enum DdBootable {
    /// No 0x55AA boot marker; not raw-writable as a bootable image.
    No,
    /// A valid boot marker was found.
    Yes,
    /// No marker, but the user forced DD mode.
    Forced,
}

impl Default for DdBootable {
    fn default() -> (r: Self)
        ensures
            r == DdBootable::No,
    {
        DdBootable::No
    }
}

impl DdBootable {
    /// Bootable as a raw image: a boot marker was found, or DD mode was forced.
    pub open spec fn spec_is_bootable(self) -> bool {
        self is Yes || self is Forced
    }

    /// True when raw writing yields a bootable image (found or forced marker).
    pub fn is_bootable(self) -> (r: bool)
        ensures
            r == self.spec_is_bootable(),
    {
        matches!(self, DdBootable::Yes | DdBootable::Forced)
    }
}

// ---- has_efi bitmask -----------------------------------------------------------
/// bit 0: `bootmgr.efi` is present.
pub const EFI_BOOTMGR: u16 = 0x0001;

/// Mask of "regular" per-architecture EFI loaders: every bit except bit 0
/// (bootmgr.efi) and bit 15 (efi.img-only).
pub const EFI_REGULAR_MASK: u16 = 0x7FFE;

/// bit 14: broken-`bootx64.efi` symlink workaround marker.
pub const EFI_BROKEN_BOOTX64: u16 = 0x4000;

/// bit 15: the only EFI bootloader lives inside an `efi*.img`.
pub const EFI_IMG_ONLY: u16 = 0x8000;

// ---- has_grub2 bitmask ----------------------------------------------------------
/// bit 7 of `has_grub2`: an EFI GRUB loader is present. The low 7 bits encode
/// the BIOS GRUB directory variant (1 = /boot/grub, 2 = /boot/grub2).
pub const GRUB2_EFI: u8 = 0x80;

// ---- has_grub2_fs bitmask (filesystem drivers a GRUB build carries) --------------
pub const GRUB2_FS_FAT: u8 = 0x1;

pub const GRUB2_FS_EXFAT: u8 = 0x2;

pub const GRUB2_FS_NTFS: u8 = 0x4;

// ---- has_4gb_file packed byte -----------------------------------------------------
/// `has_4gb_file` low nibble is a saturating counter of files >= 4 GiB; the
/// high nibble flags which `install.{wim,esd,swm}` entry is oversized
/// (`0x10 << i`). The exact value `0x11` means "count == 1 AND that one file is
/// install.wim (entry 0)": the splittable-only case.
pub const FOURGB_SPLITTABLE_ONLY: u8 = 0x11;

/// WinPE architecture bits.
pub const WINPE_I386: u16 = 0x1;

pub const WINPE_AMD64: u16 = 0x2;

pub const WINPE_MININT: u16 = 0x4;

/// The full image report. Defaults to "nothing detected"; the scanner sets
/// fields as it walks the image.
#[derive(Debug, Clone)]
pub struct ImgReport {
    // --- identity / sizes ---
    pub label: String,
    pub image_size: u64,
    pub projected_size: u64,
    // --- top-level classification ---
    pub is_iso: bool,
    pub is_dd_bootable: DdBootable,
    pub is_vhd: bool,
    pub is_windows_img: bool,
    /// Force DD-only: ISO (file-copy) mode is known-broken for this image.
    pub disable_iso: bool,
    // --- Windows installer markers ---
    pub has_bootmgr: bool,
    pub has_bootmgr_efi: bool,
    /// Count of install.wim/.esd/.swm found under */sources.
    pub wininst_index: u8,
    pub wininst_path: Vec<String>,
    pub win_version: WinVer,
    pub winpe: u16,
    pub uses_minint: bool,
    // --- EFI / boot loaders ---
    pub has_efi: u16,
    pub efi_boot_entry: Vec<EfiBootEntry>,
    pub efi_img_path: String,
    // --- bootloader families ---
    pub has_grub2: u8,
    pub has_grub2_fs: u8,
    pub has_grub4dos: bool,
    /// Syslinux/Isolinux version (0 = none).
    pub sl_version: u16,
    pub has_kolibrios: bool,
    pub reactos_path: String,
    // --- filesystem-shaping facts ---
    pub has_4gb_file: u8,
    pub needs_ntfs: bool,
    pub uses_casper: bool,
    // --- misc ---
    pub has_md5sum: u8,
    pub rh8_derivative: bool,
}

impl Default for ImgReport {
    fn default() -> (r: Self)
        ensures
            r.label@ == Seq::<char>::empty(),
            r.image_size == 0,
            r.projected_size == 0,
            !r.is_iso,
            r.is_dd_bootable == DdBootable::No,
            !r.is_vhd,
            !r.is_windows_img,
            !r.disable_iso,
            !r.has_bootmgr,
            !r.has_bootmgr_efi,
            r.wininst_index == 0,
            r.wininst_path@.len() == 0,
            r.win_version == (WinVer { major: 0, minor: 0, build: 0, revision: 0 }),
            r.winpe == 0,
            !r.uses_minint,
            r.has_efi == 0,
            r.efi_boot_entry@.len() == 0,
            r.efi_img_path@ == Seq::<char>::empty(),
            r.has_grub2 == 0,
            r.has_grub2_fs == 0,
            !r.has_grub4dos,
            r.sl_version == 0,
            !r.has_kolibrios,
            r.reactos_path@ == Seq::<char>::empty(),
            r.has_4gb_file == 0,
            !r.needs_ntfs,
            !r.uses_casper,
            r.has_md5sum == 0,
            !r.rh8_derivative,
    {
        ImgReport {
            label: String::new(),
            image_size: 0,
            projected_size: 0,
            is_iso: false,
            is_dd_bootable: DdBootable::No,
            is_vhd: false,
            is_windows_img: false,
            disable_iso: false,
            has_bootmgr: false,
            has_bootmgr_efi: false,
            wininst_index: 0,
            wininst_path: Vec::new(),
            win_version: WinVer { major: 0, minor: 0, build: 0, revision: 0 },
            winpe: 0,
            uses_minint: false,
            has_efi: 0,
            efi_boot_entry: Vec::new(),
            efi_img_path: String::new(),
            has_grub2: 0,
            has_grub2_fs: 0,
            has_grub4dos: false,
            sl_version: 0,
            has_kolibrios: false,
            reactos_path: String::new(),
            has_4gb_file: 0,
            needs_ntfs: false,
            uses_casper: false,
            has_md5sum: 0,
            rh8_derivative: false,
        }
    }
}

impl ImgReport {
    // ---- the predicates as formulas over the report's fields ----
    /// KolibriOS was found.
    pub open spec fn spec_has_kolibrios(&self) -> bool {
        self.has_kolibrios
    }

    /// A ReactOS loader path was recorded.
    pub open spec fn spec_has_reactos(&self) -> bool {
        self.reactos_path@.len() != 0
    }

    /// GRUB 2 (any variant) or Grub4DOS was found.
    pub open spec fn spec_has_grub(&self) -> bool {
        self.has_grub2 != 0 || self.has_grub4dos
    }

    /// Syslinux/Isolinux was found.
    pub open spec fn spec_has_syslinux(&self) -> bool {
        self.sl_version != 0
    }

    /// bootmgr or bootmgr.efi was found.
    pub open spec fn spec_has_bootmgr(&self) -> bool {
        self.has_bootmgr || self.has_bootmgr_efi
    }

    /// A regular per-architecture EFI loader bit is set.
    pub open spec fn spec_has_regular_efi(&self) -> bool {
        self.has_efi & EFI_REGULAR_MASK != 0
    }

    /// At least one Windows installer image was found.
    pub open spec fn spec_has_wininst(&self) -> bool {
        self.wininst_index != 0
    }

    /// A WinPE architecture bit is set.
    pub open spec fn spec_has_winpe(&self) -> bool {
        self.winpe & (WINPE_I386 | WINPE_AMD64 | WINPE_MININT) != 0
    }

    /// A Windows medium: bootmgr, MININT or WinPE.
    pub open spec fn spec_has_windows(&self) -> bool {
        self.spec_has_bootmgr() || self.uses_minint || self.spec_has_winpe()
    }

    /// EFI is only bootmgr.efi and a Windows installer exists.
    pub open spec fn spec_has_win7_efi(&self) -> bool {
        self.has_efi == EFI_BOOTMGR && self.spec_has_wininst()
    }

    /// An EFI GRUB whose build carries no FAT driver.
    pub open spec fn spec_has_fatless_grub(&self) -> bool {
        (self.has_grub2 & GRUB2_EFI != 0) && (self.has_grub2_fs & GRUB2_FS_FAT == 0)
    }

    /// Windows 10 or later, with bootmgr.efi.
    pub open spec fn spec_is_windows_1x(&self) -> bool {
        self.has_bootmgr_efi && self.win_version.major >= 10
    }

    /// Windows 11 or later, with bootmgr.efi.
    pub open spec fn spec_is_windows_11(&self) -> bool {
        self.has_bootmgr_efi && self.win_version.major >= 11
    }

    /// Some EFI bootloader bit is set.
    pub open spec fn spec_is_efi_bootable(&self) -> bool {
        self.has_efi != 0
    }

    /// Some BIOS boot method was found.
    pub open spec fn spec_is_bios_bootable(&self) -> bool {
        self.spec_has_bootmgr() || self.spec_has_syslinux() || self.spec_has_winpe()
            || self.spec_has_grub() || self.spec_has_reactos() || self.spec_has_kolibrios()
    }

    /// Raw writing yields a bootable image.
    pub open spec fn spec_is_dd_bootable(&self) -> bool {
        self.is_dd_bootable.spec_is_bootable()
    }

    /// DD-bootable but not usable in ISO mode.
    pub open spec fn spec_is_dd_only(&self) -> bool {
        self.spec_is_dd_bootable() && (!self.is_iso || self.disable_iso)
    }

    /// Windows To Go is possible: bootmgr, EFI and an installer.
    pub open spec fn spec_has_wintogo(&self) -> bool {
        self.spec_has_bootmgr() && self.spec_is_efi_bootable() && self.spec_has_wininst()
    }

    /// A Linux live medium that can carry a persistence partition.
    pub open spec fn spec_has_persistence(&self) -> bool {
        (self.spec_has_syslinux() || self.spec_has_grub()) && !(self.spec_has_windows()
            || self.spec_has_reactos() || self.spec_has_kolibrios())
    }

    /// FAT32 is a viable target filesystem.
    pub open spec fn spec_is_fat32_compat(&self, allow_dual_uefi_bios: bool) -> bool {
        let clean = self.has_4gb_file == 0 && !self.spec_has_fatless_grub();
        let splittable = self.has_4gb_file == FOURGB_SPLITTABLE_ONLY && allow_dual_uefi_bios;
        (clean || splittable) && !self.needs_ntfs
    }

    /// Raw-writable, or some BIOS or EFI boot method is understood.
    pub open spec fn spec_is_supported(&self) -> bool {
        self.spec_is_dd_bootable() || self.spec_is_bios_bootable() || self.spec_is_efi_bootable()
    }

    // ---- boot-family predicates ----
    /// KolibriOS was found.
    pub fn has_kolibrios(&self) -> (r: bool)
        ensures
            r == self.spec_has_kolibrios(),
    {
        self.has_kolibrios
    }

    /// A ReactOS loader path was recorded.
    pub fn has_reactos(&self) -> (r: bool)
        ensures
            r == self.spec_has_reactos(),
    {
        !self.reactos_path.as_str().is_empty()
    }

    /// GRUB 2 (any variant) or Grub4DOS was found.
    pub fn has_grub(&self) -> (r: bool)
        ensures
            r == self.spec_has_grub(),
    {
        self.has_grub2 != 0 || self.has_grub4dos
    }

    /// Syslinux/Isolinux was found.
    pub fn has_syslinux(&self) -> (r: bool)
        ensures
            r == self.spec_has_syslinux(),
    {
        self.sl_version != 0
    }

    /// bootmgr (BIOS) or bootmgr.efi was found.
    pub fn has_bootmgr(&self) -> (r: bool)
        ensures
            r == self.spec_has_bootmgr(),
    {
        self.has_bootmgr || self.has_bootmgr_efi
    }

    /// A real per-arch EFI loader exists (bootmgr.efi and efi.img-only bits
    /// do not count).
    pub fn has_regular_efi(&self) -> (r: bool)
        ensures
            r == self.spec_has_regular_efi(),
    {
        self.has_efi & EFI_REGULAR_MASK != 0
    }

    /// At least one Windows installer image was found.
    pub fn has_wininst(&self) -> (r: bool)
        ensures
            r == self.spec_has_wininst(),
    {
        self.wininst_index != 0
    }

    /// A WinPE architecture bit is set.
    pub fn has_winpe(&self) -> (r: bool)
        ensures
            r == self.spec_has_winpe(),
    {
        self.winpe & (WINPE_I386 | WINPE_AMD64 | WINPE_MININT) != 0
    }

    /// A Windows medium: bootmgr, MININT or WinPE.
    pub fn has_windows(&self) -> (r: bool)
        ensures
            r == self.spec_has_windows(),
    {
        self.has_bootmgr() || self.uses_minint || self.has_winpe()
    }

    /// EFI is only bootmgr.efi and an installer exists: Win7 needs
    /// bootmgfw.efi extracted from install.wim.
    pub fn has_win7_efi(&self) -> (r: bool)
        ensures
            r == self.spec_has_win7_efi(),
    {
        self.has_efi == EFI_BOOTMGR && self.has_wininst()
    }

    /// EFI GRUB present but its build carries no FAT driver.
    pub fn has_fatless_grub(&self) -> (r: bool)
        ensures
            r == self.spec_has_fatless_grub(),
    {
        (self.has_grub2 & GRUB2_EFI != 0) && (self.has_grub2_fs & GRUB2_FS_FAT == 0)
    }

    /// Windows 10 or later (with bootmgr.efi).
    pub fn is_windows_1x(&self) -> (r: bool)
        ensures
            r == self.spec_is_windows_1x(),
    {
        self.has_bootmgr_efi && self.win_version.major >= 10
    }

    /// Windows 11 or later (with bootmgr.efi).
    pub fn is_windows_11(&self) -> (r: bool)
        ensures
            r == self.spec_is_windows_11(),
    {
        self.has_bootmgr_efi && self.win_version.major >= 11
    }

    /// Some EFI bootloader bit is set.
    pub fn is_efi_bootable(&self) -> (r: bool)
        ensures
            r == self.spec_is_efi_bootable(),
    {
        self.has_efi != 0
    }

    /// Some BIOS boot method was found.
    pub fn is_bios_bootable(&self) -> (r: bool)
        ensures
            r == self.spec_is_bios_bootable(),
    {
        self.has_bootmgr() || self.has_syslinux() || self.has_winpe() || self.has_grub()
            || self.has_reactos() || self.has_kolibrios()
    }

    /// Raw writing yields a bootable image.
    pub fn is_dd_bootable(&self) -> (r: bool)
        ensures
            r == self.spec_is_dd_bootable(),
    {
        self.is_dd_bootable.is_bootable()
    }

    /// DD-bootable but not usable in ISO mode.
    pub fn is_dd_only(&self) -> (r: bool)
        ensures
            r == self.spec_is_dd_only(),
    {
        self.is_dd_bootable.is_bootable() && (!self.is_iso || self.disable_iso)
    }

    /// Windows To Go: bootmgr, an EFI loader and an installer together.
    pub fn has_wintogo(&self) -> (r: bool)
        ensures
            r == self.spec_has_wintogo(),
    {
        self.has_bootmgr() && self.is_efi_bootable() && self.has_wininst()
    }

    /// Persistence applies to Syslinux/GRUB media that are not Windows,
    /// ReactOS or KolibriOS.
    pub fn has_persistence(&self) -> (r: bool)
        ensures
            r == self.spec_has_persistence(),
    {
        (self.has_syslinux() || self.has_grub()) && !(self.has_windows() || self.has_reactos()
            || self.has_kolibrios())
    }

    /// FAT32 is viable when there is no >=4 GiB file (and GRUB, if present, can
    /// read FAT), OR the only oversized file is a splittable install.wim and
    /// dual UEFI+BIOS is allowed (so the split will actually be applied), and
    /// never when the image requires NTFS.
    pub fn is_fat32_compat(&self, allow_dual_uefi_bios: bool) -> (r: bool)
        ensures
            r == self.spec_is_fat32_compat(allow_dual_uefi_bios),
    {
        let clean = self.has_4gb_file == 0 && !self.has_fatless_grub();
        let splittable = self.has_4gb_file == FOURGB_SPLITTABLE_ONLY && allow_dual_uefi_bios;
        (clean || splittable) && !self.needs_ntfs
    }

    /// Whether this image is supported at all: it must be raw-writable, or have
    /// a BIOS or EFI boot method that is understood.
    pub fn is_supported(&self) -> (r: bool)
        ensures
            r == self.spec_is_supported(),
    {
        self.is_dd_bootable() || self.is_bios_bootable() || self.is_efi_bootable()
    }
}

// ---- laws -------------------------------------------------------------------------
/// DD-only images are DD-bootable.
pub proof fn lemma_dd_only_is_dd_bootable(r: ImgReport)
    ensures
        r.spec_is_dd_only() ==> r.spec_is_dd_bootable(),
{
}

/// Windows To Go needs a Windows medium that boots by EFI and has an installer.
pub proof fn lemma_wintogo_is_efi_windows(r: ImgReport)
    ensures
        r.spec_has_wintogo() ==> r.spec_has_windows() && r.spec_is_efi_bootable()
            && r.spec_has_wininst(),
{
}

/// Persistence never applies to Windows, ReactOS or KolibriOS media.
pub proof fn lemma_persistence_excludes_windows(r: ImgReport)
    ensures
        r.spec_has_persistence() ==> !r.spec_has_windows() && !r.spec_has_reactos()
            && !r.spec_has_kolibrios(),
{
}

/// The Win7-EFI case (EFI is bootmgr.efi only) has no regular EFI loader.
pub proof fn lemma_win7_efi_has_no_regular_efi(r: ImgReport)
    ensures
        r.spec_has_win7_efi() ==> !r.spec_has_regular_efi(),
{
    let e = r.has_efi;
    assert(e == 0x0001 ==> e & 0x7FFE == 0) by (bit_vector);
}

/// A regular EFI loader makes the image EFI-bootable.
pub proof fn lemma_regular_efi_is_efi_bootable(r: ImgReport)
    ensures
        r.spec_has_regular_efi() ==> r.spec_is_efi_bootable(),
{
    let e = r.has_efi;
    assert(e & 0x7FFE != 0 ==> e != 0) by (bit_vector);
}

/// A fatless EFI GRUB is a GRUB.
pub proof fn lemma_fatless_grub_is_grub(r: ImgReport)
    ensures
        r.spec_has_fatless_grub() ==> r.spec_has_grub(),
{
    let g = r.has_grub2;
    assert(g & 0x80 != 0 ==> g != 0) by (bit_vector);
}

/// Windows 11 media are Windows 10-or-later media.
pub proof fn lemma_windows_11_is_windows_1x(r: ImgReport)
    ensures
        r.spec_is_windows_11() ==> r.spec_is_windows_1x(),
{
}

/// An image that needs NTFS is never FAT32-compatible, whatever is allowed.
pub proof fn lemma_needs_ntfs_vetoes_fat32(r: ImgReport, allow_dual_uefi_bios: bool)
    ensures
        r.needs_ntfs ==> !r.spec_is_fat32_compat(allow_dual_uefi_bios),
{
}

/// Allowing dual UEFI+BIOS never takes FAT32 compatibility away.
pub proof fn lemma_fat32_compat_monotone_in_dual_boot(r: ImgReport)
    ensures
        r.spec_is_fat32_compat(false) ==> r.spec_is_fat32_compat(true),
{
}

/// Any understood boot method (raw, BIOS or EFI) makes the image supported,
/// and nothing else does.
pub proof fn lemma_supported_iff_some_boot_method(r: ImgReport)
    ensures
        r.spec_is_supported() <==> (r.spec_is_dd_bootable() || r.spec_is_bios_bootable()
            || r.spec_is_efi_bootable()),
{
}

/// A forced DD mode counts as DD-bootable; only `No` does not.
pub proof fn lemma_forced_is_bootable(b: DdBootable)
    ensures
        b.spec_is_bootable() <==> !(b is No),
{
}

/// Each BIOS boot method alone makes the image BIOS-bootable, and so
/// supported: bootmgr (BIOS or EFI), Syslinux/Isolinux (`sl_version != 0`),
/// WinPE (an i386, amd64 or MININT bit), GRUB 2 or Grub4DOS, ReactOS (a
/// loader path) or KolibriOS. Without any of them the image is not
/// BIOS-bootable.
pub proof fn lemma_bios_boot_sources(r: ImgReport)
    ensures
        r.has_bootmgr ==> r.spec_is_bios_bootable(),
        r.has_bootmgr_efi ==> r.spec_is_bios_bootable(),
        r.sl_version != 0 ==> r.spec_is_bios_bootable(),
        r.winpe & 0x7 != 0 ==> r.spec_is_bios_bootable(),
        r.has_grub2 != 0 ==> r.spec_is_bios_bootable(),
        r.has_grub4dos ==> r.spec_is_bios_bootable(),
        r.reactos_path@.len() != 0 ==> r.spec_is_bios_bootable(),
        r.has_kolibrios ==> r.spec_is_bios_bootable(),
        r.spec_is_bios_bootable() ==> (r.has_bootmgr || r.has_bootmgr_efi || r.sl_version != 0
            || r.winpe & 0x7 != 0 || r.has_grub2 != 0 || r.has_grub4dos || r.reactos_path@.len()
            != 0 || r.has_kolibrios),
        r.spec_is_bios_bootable() ==> r.spec_is_supported(),
{
    let w = r.winpe;
    assert(w & (0x1u16 | 0x2u16 | 0x4u16) == w & 0x7u16) by (bit_vector);
}

/// FAT32 can hold the image only when no file reaches 4 GiB, or when the one
/// such file is install.wim (`has_4gb_file == 0x11`, splittable) and dual
/// UEFI+BIOS is allowed; never when NTFS is needed. With no large file, no
/// NTFS need and no FAT-less EFI GRUB, it can; so it can with the one
/// splittable install.wim when dual boot is allowed and NTFS is not needed.
pub proof fn lemma_fat32_compat_rules(r: ImgReport, allow_dual_uefi_bios: bool)
    ensures
        r.has_4gb_file != 0 && r.has_4gb_file != 0x11 ==> !r.spec_is_fat32_compat(
            allow_dual_uefi_bios,
        ),
        r.has_4gb_file == 0x11 && !allow_dual_uefi_bios ==> !r.spec_is_fat32_compat(
            allow_dual_uefi_bios,
        ),
        r.has_4gb_file == 0 && r.has_grub2 & 0x80 != 0 && r.has_grub2_fs & 0x1 == 0
            ==> !r.spec_is_fat32_compat(allow_dual_uefi_bios),
        r.has_4gb_file == 0 && !r.needs_ntfs && !(r.has_grub2 & 0x80 != 0 && r.has_grub2_fs & 0x1
            == 0) ==> r.spec_is_fat32_compat(allow_dual_uefi_bios),
        r.has_4gb_file == 0x11 && allow_dual_uefi_bios && !r.needs_ntfs ==> r.spec_is_fat32_compat(
            allow_dual_uefi_bios,
        ),
{
}

/// The remaining predicates over the report's fields: which boot markers,
/// loaders and installer records each one reads.
pub proof fn lemma_report_predicates_in_fields(r: ImgReport)
    ensures
        r.spec_has_kolibrios() <==> r.has_kolibrios,
        r.spec_has_reactos() <==> r.reactos_path@.len() != 0,
        r.spec_has_grub() <==> (r.has_grub2 != 0 || r.has_grub4dos),
        r.spec_has_syslinux() <==> r.sl_version != 0,
        r.spec_has_bootmgr() <==> (r.has_bootmgr || r.has_bootmgr_efi),
        r.spec_has_regular_efi() <==> r.has_efi & 0x7FFE != 0,
        r.spec_has_wininst() <==> r.wininst_index != 0,
        r.spec_has_winpe() <==> r.winpe & 0x7 != 0,
        r.spec_has_windows() <==> (r.has_bootmgr || r.has_bootmgr_efi || r.uses_minint || r.winpe
            & 0x7 != 0),
        r.spec_has_win7_efi() <==> (r.has_efi == 1 && r.wininst_index != 0),
        r.spec_has_fatless_grub() <==> (r.has_grub2 & 0x80 != 0 && r.has_grub2_fs & 0x1 == 0),
        r.spec_is_windows_1x() <==> (r.has_bootmgr_efi && r.win_version.major >= 10),
        r.spec_is_windows_11() <==> (r.has_bootmgr_efi && r.win_version.major >= 11),
        r.spec_is_efi_bootable() <==> r.has_efi != 0,
        r.spec_is_dd_bootable() <==> !(r.is_dd_bootable is No),
        r.spec_is_dd_only() <==> (!(r.is_dd_bootable is No) && (!r.is_iso || r.disable_iso)),
        r.spec_has_wintogo() <==> ((r.has_bootmgr || r.has_bootmgr_efi) && r.has_efi != 0
            && r.wininst_index != 0),
        r.spec_has_persistence() <==> ((r.sl_version != 0 || r.has_grub2 != 0 || r.has_grub4dos)
            && !(r.has_bootmgr || r.has_bootmgr_efi || r.uses_minint || r.winpe & 0x7 != 0)
            && r.reactos_path@.len() == 0 && !r.has_kolibrios),
        r.spec_is_supported() <==> (!(r.is_dd_bootable is No) || r.has_efi != 0 || r.has_bootmgr
            || r.has_bootmgr_efi || r.sl_version != 0 || r.winpe & 0x7 != 0 || r.has_grub2 != 0
            || r.has_grub4dos || r.reactos_path@.len() != 0 || r.has_kolibrios),
{
    let w = r.winpe;
    assert(w & (0x1u16 | 0x2u16 | 0x4u16) == w & 0x7u16) by (bit_vector);
}

} // verus!
