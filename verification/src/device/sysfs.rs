//! The decisions of Linux device enumeration, as pure functions of what was
//! read from `/sys/class/block` and `/proc/mounts`.
//!
//! Reading those files is left to the caller; everything decided on their
//! contents (which entries are whole disks worth offering, how a disk's
//! attributes become a [`Device`], which mounts belong to which disk, how
//! `/proc/mounts` escapes are decoded) is here.
use vstd::prelude::*;
use vstd::string::StringSliceAdditionalSpecFns;
use vstd::utf8::encode_utf8;

use crate::detect::magic::{region_eq, region_matches, starts_with};
use crate::device::{Device, MountPoint};
use crate::text::{parse_unsigned, spec_parse_unsigned, spec_trim, trim};

verus! {

// ---- device names ----------------------------------------------------------------
/// "loop"
pub const LOOP_PREFIX: [u8; 4] = [0x6C, 0x6F, 0x6F, 0x70];

/// "sr" (optical)
pub const SR_PREFIX: [u8; 2] = [0x73, 0x72];

/// "ram"
pub const RAM_PREFIX: [u8; 3] = [0x72, 0x61, 0x6D];

/// "dm-" (device-mapper)
pub const DM_PREFIX: [u8; 3] = [0x64, 0x6D, 0x2D];

/// "md" (software RAID)
pub const MD_PREFIX: [u8; 2] = [0x6D, 0x64];

/// "zram"
pub const ZRAM_PREFIX: [u8; 4] = [0x7A, 0x72, 0x61, 0x6D];

/// An ASCII decimal digit.
pub open spec fn is_ascii_digit(b: u8) -> bool {
    0x30 <= b <= 0x39
}

/// Every byte is an ASCII decimal digit.
pub open spec fn all_ascii_digits(s: Seq<u8>) -> bool {
    forall|i: int| 0 <= i < s.len() ==> is_ascii_digit(#[trigger] s[i])
}

/// The name (as UTF-8 bytes) is that of a kernel pseudo block device.
pub open spec fn spec_is_pseudo_device(name: Seq<u8>) -> bool {
    starts_with(name, LOOP_PREFIX@) || starts_with(name, SR_PREFIX@) || starts_with(name, RAM_PREFIX@)
        || starts_with(name, DM_PREFIX@) || starts_with(name, MD_PREFIX@) || starts_with(
        name,
        ZRAM_PREFIX@,
    )
}

/// Drop kernel pseudo-block-devices that are never flash targets: loop, optical
/// (`sr`), ram, device-mapper (`dm-`), software RAID (`md`) and zram devices.
pub fn is_pseudo_device(name: &str) -> (r: bool)
    ensures
        r == spec_is_pseudo_device(name.spec_bytes()),
{
    let b = name.as_bytes();
    region_eq(b, 0, &LOOP_PREFIX) || region_eq(b, 0, &SR_PREFIX) || region_eq(b, 0, &RAM_PREFIX)
        || region_eq(b, 0, &DM_PREFIX) || region_eq(b, 0, &MD_PREFIX) || region_eq(
        b,
        0,
        &ZRAM_PREFIX,
    )
}

fn all_digits(s: &[u8], from: usize) -> (r: bool)
    requires
        from <= s@.len(),
    ensures
        r == all_ascii_digits(s@.skip(from as int)),
{
    let mut i = from;
    while i < s.len()
        invariant
            from <= i <= s.len(),
            forall|j: int| from <= j < i ==> is_ascii_digit(#[trigger] s@[j]),
        decreases s.len() - i,
    {
        if !(0x30 <= s[i] && s[i] <= 0x39) {
            assert(!is_ascii_digit(s@.skip(from as int)[i - from]));
            return false;
        }
        i += 1;
    }
    assert forall|k: int| 0 <= k < s@.skip(from as int).len() implies is_ascii_digit(
        #[trigger] s@.skip(from as int)[k],
    ) by {
        assert(s@.skip(from as int)[k] == s@[from + k]);
    }
    true
}

/// `part` names a partition of the whole disk `disk` (both as UTF-8 bytes).
///
/// `sdX`-style disks take partitions by appending digits (`sda` -> `sda1`).
/// Disks whose name ends in a digit (`nvme0n1`, `mmcblk0`) need a `p` before
/// the partition number (`nvme0n1p1`); a digits-only suffix there names a
/// different device (`nvme0n11`), not a partition.
pub open spec fn spec_is_partition_of(disk: Seq<u8>, part: Seq<u8>) -> bool {
    starts_with(part, disk) && {
        let rest = part.skip(disk.len() as int);
        if disk.len() > 0 && is_ascii_digit(disk.last()) {
            rest.len() > 1 && rest[0] == 0x70 && all_ascii_digits(rest.skip(1))
        } else {
            rest.len() > 0 && all_ascii_digits(rest)
        }
    }
}

/// True if `part` names a partition of whole-disk `disk`.
pub fn is_partition_of(disk: &str, part: &str) -> (r: bool)
    ensures
        r == spec_is_partition_of(disk.spec_bytes(), part.spec_bytes()),
{
    let d = disk.as_bytes();
    let p = part.as_bytes();
    if !region_eq(p, 0, d) {
        return false;
    }
    let n = d.len();
    if n > 0 && 0x30 <= d[n - 1] && d[n - 1] <= 0x39 {
        if p.len() - n > 1 {
            assert(p@.skip(n as int).skip(1) =~= p@.skip(n + 1));
        }
        p.len() - n > 1 && p[n] == 0x70 && all_digits(p, n + 1)
    } else {
        p.len() > n && all_digits(p, n)
    }
}

// ---- /proc/mounts escapes ---------------------------------------------------------
/// An ASCII octal digit.
pub open spec fn is_octal_digit(b: u8) -> bool {
    0x30 <= b <= 0x37
}

/// The value of three octal digits, if they are octal digits and fit in a byte.
pub open spec fn spec_parse_octal_byte(triple: Seq<u8>) -> Option<u8> {
    if triple.len() == 3 && is_octal_digit(triple[0]) && is_octal_digit(triple[1])
        && is_octal_digit(triple[2]) {
        let v = (triple[0] - 0x30) * 64 + (triple[1] - 0x30) * 8 + (triple[2] - 0x30);
        if v <= 255 {
            Some(v as u8)
        } else {
            None
        }
    } else {
        None
    }
}

/// Parse exactly three octal ASCII digits (`0..=7`) into a byte, or `None`.
pub fn parse_octal_byte(triple: &[u8]) -> (r: Option<u8>)
    ensures
        r == spec_parse_octal_byte(triple@),
{
    if triple.len() != 3 {
        return None;
    }
    let mut val: u16 = 0;
    let mut i: usize = 0;
    while i < 3
        invariant
            i <= 3,
            triple@.len() == 3,
            forall|j: int| 0 <= j < i ==> is_octal_digit(#[trigger] triple@[j]),
            val == (if i == 0 {
                0
            } else if i == 1 {
                triple@[0] - 0x30
            } else if i == 2 {
                (triple@[0] - 0x30) * 8 + (triple@[1] - 0x30)
            } else {
                (triple@[0] - 0x30) * 64 + (triple@[1] - 0x30) * 8 + (triple@[2] - 0x30)
            }),
        decreases 3 - i,
    {
        let b = triple[i];
        if !(0x30 <= b && b <= 0x37) {
            return None;
        }
        val = val * 8 + (b - 0x30) as u16;
        i += 1;
    }
    if val <= 255 {
        Some(val as u8)
    } else {
        None
    }
}

/// Only three octal digits `0` to `7` read as a byte: any other byte, or any
/// other length, gives nothing; three octal digits give `64 a + 8 b + c`
/// when that fits in a byte, and nothing when it does not (`\400` and up).
pub proof fn lemma_octal_byte_digits(triple: Seq<u8>)
    ensures
        spec_parse_octal_byte(triple) is Some <==> (triple.len() == 3 && (forall|i: int|
            0 <= i < 3 ==> 0x30 <= #[trigger] triple[i] <= 0x37) && (triple[0] - 0x30) * 64
            + (triple[1] - 0x30) * 8 + (triple[2] - 0x30) <= 255),
        spec_parse_octal_byte(triple) matches Some(v) ==> v == (triple[0] - 0x30) * 64 + (triple[1]
            - 0x30) * 8 + (triple[2] - 0x30),
{
    if triple.len() == 3 && (forall|i: int| 0 <= i < 3 ==> 0x30 <= #[trigger] triple[i] <= 0x37) {
        assert(0x30 <= triple[0] <= 0x37);
        assert(0x30 <= triple[1] <= 0x37);
        assert(0x30 <= triple[2] <= 0x37);
    }
}

/// A backslash.
pub const BACKSLASH: u8 = 0x5C;

/// Decode the octal escapes (`\NNN`) of a `/proc/mounts` field, byte by byte.
/// A backslash that is not followed by three octal digits of a byte value is
/// kept as is.
pub open spec fn spec_unescape_mount(b: Seq<u8>) -> Seq<u8>
    decreases b.len(),
{
    if b.len() == 0 {
        Seq::empty()
    } else if b[0] == BACKSLASH && b.len() > 3 && spec_parse_octal_byte(b.subrange(1, 4)) is Some {
        seq![spec_parse_octal_byte(b.subrange(1, 4))->0] + spec_unescape_mount(b.skip(4))
    } else {
        seq![b[0]] + spec_unescape_mount(b.skip(1))
    }
}

/// Decoding goes left to right: a backslash followed by three octal digits of
/// a byte value becomes that byte, and any other byte is copied as is, before
/// the rest is decoded.
pub proof fn lemma_unescape_step(x: u8, rest: Seq<u8>, triple: Seq<u8>)
    requires
        triple.len() == 3,
    ensures
        spec_parse_octal_byte(triple) matches Some(v) ==> spec_unescape_mount(
            seq![BACKSLASH] + triple + rest,
        ) == seq![v] + spec_unescape_mount(rest),
        spec_parse_octal_byte(triple) is None ==> spec_unescape_mount(seq![BACKSLASH] + triple + rest)
            == seq![BACKSLASH] + spec_unescape_mount(triple + rest),
        x != BACKSLASH ==> spec_unescape_mount(seq![x] + rest) == seq![x] + spec_unescape_mount(rest),
{
    let e = seq![BACKSLASH] + triple + rest;
    assert(e.subrange(1, 4) =~= triple);
    assert(e.skip(4) =~= rest);
    assert(e.skip(1) =~= triple + rest);
    assert((seq![x] + rest).skip(1) =~= rest);
}

/// Decode a `/proc/mounts` field into a filesystem path (its raw bytes).
///
/// `/proc/mounts` escapes space, tab, newline, and backslash as octal `\NNN`.
/// Decoding works on bytes, so non-ASCII UTF-8 in a path is kept intact.
pub fn unescape_mount(s: &str) -> (r: Vec<u8>)
    ensures
        r@ == spec_unescape_mount(s.spec_bytes()),
{
    let bytes = s.as_bytes();
    let mut out: Vec<u8> = Vec::new();
    let mut i: usize = 0;
    assert(bytes@.skip(0) =~= bytes@);
    while i < bytes.len()
        invariant
            i <= bytes.len(),
            out@ + spec_unescape_mount(bytes@.skip(i as int)) == spec_unescape_mount(bytes@),
        decreases bytes.len() - i,
    {
        let ghost rest = bytes@.skip(i as int);
        if bytes[i] == BACKSLASH && bytes.len() - i > 3 {
            let triple = [bytes[i + 1], bytes[i + 2], bytes[i + 3]];
            assert(triple@ =~= rest.subrange(1, 4));
            if let Some(code) = parse_octal_byte(&triple) {
                out.push(code);
                assert(rest.skip(4) =~= bytes@.skip(i + 4));
                i += 4;
                continue;
            }
        }
        out.push(bytes[i]);
        assert(rest.skip(1) =~= bytes@.skip(i + 1));
        i += 1;
    }
    assert(out@ + spec_unescape_mount(bytes@.skip(i as int)) =~= out@);
    out
}

/// Partition naming, both schemes: a disk whose name does not end in a digit
/// (`sda`) has partitions named by appending digits (`sda1`, `sda15`); a disk
/// whose name ends in a digit (`nvme0n1`) has partitions named by appending
/// `p` and digits (`nvme0n1p2`). A name that does not start with the disk's
/// name is never one of its partitions.
pub proof fn lemma_partition_naming(disk: Seq<u8>, digits: Seq<u8>, other: Seq<u8>)
    requires
        disk.len() > 0,
        digits.len() > 0,
        forall|k: int| 0 <= k < digits.len() ==> 0x30 <= #[trigger] digits[k] <= 0x39,
    ensures
        !(0x30 <= disk.last() <= 0x39) ==> spec_is_partition_of(disk, disk + digits),
        (0x30 <= disk.last() <= 0x39) ==> spec_is_partition_of(disk, disk + seq![0x70u8] + digits),
        !(other.len() >= disk.len() && other.subrange(0, disk.len() as int) == disk)
            ==> !spec_is_partition_of(disk, other),
{
    let a = disk + digits;
    assert(a.subrange(0, disk.len() as int) =~= disk);
    assert(a.skip(disk.len() as int) =~= digits);
    let b = disk + seq![0x70u8] + digits;
    assert(b.subrange(0, disk.len() as int) =~= disk);
    assert(b.skip(disk.len() as int).skip(1) =~= digits);
    assert(b.skip(disk.len() as int)[0] == 0x70u8);
}

/// What is not a partition: for a disk whose name ends in a digit, its name
/// followed by a bare `p` (no number); for any disk, its name followed by a
/// suffix with a byte that is not a digit (after the `p`, where one is needed).
pub proof fn lemma_partition_suffix_must_be_numeric(disk: Seq<u8>, suffix: Seq<u8>, k: int)
    requires
        disk.len() > 0,
        0 <= k < suffix.len(),
        !(0x30 <= suffix[k] <= 0x39),
    ensures
        (0x30 <= disk.last() <= 0x39) ==> !spec_is_partition_of(disk, disk + seq![0x70u8]),
        (0x30 <= disk.last() <= 0x39) ==> !spec_is_partition_of(disk, disk + seq![0x70u8] + suffix),
        !(0x30 <= disk.last() <= 0x39) ==> !spec_is_partition_of(disk, disk + suffix),
{
    let a = disk + seq![0x70u8];
    assert(a.subrange(0, disk.len() as int) =~= disk);
    assert(a.skip(disk.len() as int) =~= seq![0x70u8]);
    let b = disk + seq![0x70u8] + suffix;
    assert(b.subrange(0, disk.len() as int) =~= disk);
    assert(b.skip(disk.len() as int).skip(1) =~= suffix);
    let c = disk + suffix;
    assert(c.subrange(0, disk.len() as int) =~= disk);
    assert(c.skip(disk.len() as int) =~= suffix);
    assert(!is_ascii_digit(suffix[k]));
}

/// No disk is a partition of itself.
pub proof fn lemma_disk_is_not_its_own_partition(disk: Seq<u8>)
    ensures
        !spec_is_partition_of(disk, disk),
{
    assert(disk.skip(disk.len() as int).len() == 0);
}

/// For a disk whose name ends in a digit, the name followed by digits alone
/// (`nvme0n1` -> `nvme0n11`) names another device, not a partition.
pub proof fn lemma_digit_suffix_is_another_device(disk: Seq<u8>, digits: Seq<u8>)
    requires
        disk.len() > 0,
        is_ascii_digit(disk.last()),
        all_ascii_digits(digits),
    ensures
        !spec_is_partition_of(disk, disk + digits),
{
    let part = disk + digits;
    assert(part.skip(disk.len() as int) =~= digits);
    if digits.len() > 0 {
        assert(is_ascii_digit(digits[0]));
    }
}

/// Every byte value written as three octal digits reads back as itself.
pub proof fn lemma_octal_byte_roundtrip(v: u8)
    ensures
        spec_parse_octal_byte(
            seq![(0x30 + v / 64) as u8, (0x30 + (v / 8) % 8) as u8, (0x30 + v % 8) as u8],
        ) == Some(v),
{
}

/// Text without backslashes is its own decoding.
pub proof fn lemma_unescape_without_backslash(b: Seq<u8>)
    requires
        forall|i: int| 0 <= i < b.len() ==> #[trigger] b[i] != BACKSLASH,
    ensures
        spec_unescape_mount(b) == b,
    decreases b.len(),
{
    if b.len() > 0 {
        let t = b.skip(1);
        assert forall|i: int| 0 <= i < t.len() implies #[trigger] t[i] != BACKSLASH by {
            assert(t[i] == b[i + 1]);
        }
        lemma_unescape_without_backslash(t);
        assert(seq![b[0]] + t =~= b);
    }
}

// ---- mounts of a disk ----------------------------------------------------------
/// A `/proc/mounts` entry (device name after `/dev/`, mount path) belongs to
/// the disk `name`: its device is the disk itself or one of its partitions.
pub open spec fn mount_belongs_to(name: Seq<u8>) -> spec_fn((String, Vec<u8>)) -> bool {
    |m: (String, Vec<u8>)|
        encode_utf8(m.0@) == name || spec_is_partition_of(name, encode_utf8(m.0@))
}

/// The mount paths of the entries that belong to the disk `name`, in order.
pub open spec fn spec_mounts_for(name: Seq<u8>, mounts: Seq<(String, Vec<u8>)>) -> Seq<Seq<u8>> {
    mounts.filter(mount_belongs_to(name)).map_values(|m: (String, Vec<u8>)| m.1@)
}

/// The paths of a list of mount points.
pub open spec fn mount_paths(mps: Seq<MountPoint>) -> Seq<Seq<u8>> {
    mps.map_values(|m: MountPoint| m.path@)
}

/// A `/proc/mounts` entry whose device is the disk itself or one of its
/// partitions gives the disk a mount point at the entry's path, and every mount
/// point path the disk gets is the path of such an entry.
pub proof fn lemma_mounts_for_membership(name: Seq<u8>, mounts: Seq<(String, Vec<u8>)>)
    ensures
        forall|j: int|
            0 <= j < mounts.len() && (encode_utf8(mounts[j].0@) == name || spec_is_partition_of(
                name,
                encode_utf8(mounts[j].0@),
            )) ==> spec_mounts_for(name, mounts).contains(#[trigger] mounts[j].1@),
        forall|path: Seq<u8>|
            #[trigger] spec_mounts_for(name, mounts).contains(path) ==> exists|j: int|
                0 <= j < mounts.len() && (encode_utf8(mounts[j].0@) == name || spec_is_partition_of(
                    name,
                    encode_utf8(mounts[j].0@),
                )) && mounts[j].1@ == path,
{
    let p = mount_belongs_to(name);
    let f = mounts.filter(p);
    let r = spec_mounts_for(name, mounts);
    assert forall|j: int|
        0 <= j < mounts.len() && (encode_utf8(mounts[j].0@) == name || spec_is_partition_of(
            name,
            encode_utf8(mounts[j].0@),
        )) implies r.contains(#[trigger] mounts[j].1@) by {
        assert(p(mounts[j]));
        mounts.lemma_filter_contains(p, j);
        let t = choose|t: int| 0 <= t < f.len() && f[t] == mounts[j];
        assert(r[t] == mounts[j].1@);
    }
    assert forall|path: Seq<u8>| #[trigger] spec_mounts_for(name, mounts).contains(path) implies exists|j: int|
        0 <= j < mounts.len() && (encode_utf8(mounts[j].0@) == name || spec_is_partition_of(
            name,
            encode_utf8(mounts[j].0@),
        )) && mounts[j].1@ == path by {
        let k = choose|k: int| 0 <= k < spec_mounts_for(name, mounts).len() && spec_mounts_for(name, mounts)[k] == path;
        let j = lemma_mount_point_source(name, mounts, k);
        assert(mounts[j].1@ == path);
    }
}

proof fn lemma_mount_point_source(name: Seq<u8>, mounts: Seq<(String, Vec<u8>)>, k: int) -> (j: int)
    requires
        0 <= k < spec_mounts_for(name, mounts).len(),
    ensures
        0 <= j < mounts.len(),
        encode_utf8(mounts[j].0@) == name || spec_is_partition_of(name, encode_utf8(mounts[j].0@)),
        mounts[j].1@ == spec_mounts_for(name, mounts)[k],
{
    let p = mount_belongs_to(name);
    let f = mounts.filter(p);
    mounts.lemma_filter_pred(p, k);
    assert(f.contains(f[k]));
    mounts.lemma_filter_contains_rev(p, f[k]);
    let j = choose|j: int| 0 <= j < mounts.len() && mounts[j] == f[k];
    assert(p(mounts[j]));
    j
}

/// Mount points belonging to a disk: any mount whose device node is the disk
/// itself or one of its partitions (`sda`, `sda1`, `nvme0n1p2`, ...).
pub fn mounts_for(name: &str, mounts: &Vec<(String, Vec<u8>)>) -> (r: Vec<MountPoint>)
    ensures
        mount_paths(r@) == spec_mounts_for(name.spec_bytes(), mounts@),
{
    let nb = name.as_bytes();
    let mut out: Vec<MountPoint> = Vec::new();
    let mut i: usize = 0;
    assert(mounts@.take(0).filter(mount_belongs_to(name.spec_bytes())) =~= Seq::<
        (String, Vec<u8>),
    >::empty()) by {
        reveal(Seq::filter);
    }
    while i < mounts.len()
        invariant
            i <= mounts@.len(),
            nb@ == name.spec_bytes(),
            mount_paths(out@) == mounts@.take(i as int).filter(mount_belongs_to(name.spec_bytes())).map_values(
                |m: (String, Vec<u8>)| m.1@,
            ),
        decreases mounts@.len() - i,
    {
        let m = &mounts[i];
        let dev = m.0.as_str();
        let db = dev.as_bytes();
        let belongs = crate::device::path::bytes_eq(db, nb) || is_partition_of(name, dev);
        let ghost before = mounts@.take(i as int);
        proof {
            assert(mounts@.take(i + 1) =~= before.push(mounts@[i as int]));
            before.lemma_filter_push(mounts@[i as int], mount_belongs_to(name.spec_bytes()));
        }
        if belongs {
            let ghost old_out = out@;
            out.push(MountPoint { path: vstd::slice::slice_to_vec(m.1.as_slice()) });
            assert(mount_paths(out@) =~= mount_paths(old_out).push(m.1@));
        }
        assert(mount_paths(out@) =~= mounts@.take(i + 1).filter(
            mount_belongs_to(name.spec_bytes()),
        ).map_values(|m: (String, Vec<u8>)| m.1@));
        i += 1;
    }
    assert(mounts@.take(mounts@.len() as int) =~= mounts@);
    out
}

// ---- building a Device from sysfs attributes ----------------------------------
/// "usb"
pub const USB_PREFIX: [u8; 3] = [0x75, 0x73, 0x62];

/// "/dev/"
pub const DEV_DIR: [u8; 5] = [0x2F, 0x64, 0x65, 0x76, 0x2F];

/// What was read from `/sys/class/block/<name>` for one entry. Each attribute
/// holds the raw contents of its file, or `None` if it could not be read.
#[derive(Debug, Clone)]
pub struct SysfsDisk {
    /// The entry's name (`sda`, `nvme0n1`, `sda1`, ...).
    pub name: String,
    /// The entry has no `partition` attribute file, so it is a whole disk.
    pub is_whole_disk: bool,
    /// `size`: the size in 512-byte sectors.
    pub size: Option<String>,
    /// `queue/logical_block_size`.
    pub logical_block_size: Option<String>,
    /// `queue/physical_block_size`.
    pub physical_block_size: Option<String>,
    /// `removable`.
    pub removable: Option<String>,
    /// `ro`.
    pub read_only: Option<String>,
    /// `device/model`.
    pub model: Option<String>,
    /// The components of the fully resolved `device` link (`/`, `sys`,
    /// `devices`, ...), or `None` if the link does not resolve.
    pub device_chain: Option<Vec<String>>,
    /// The `device` link exists, i.e. there is a backing physical device.
    pub has_device: bool,
}

/// The number held by an attribute file (surrounding whitespace ignored), if
/// it was read and parses as an unsigned number no larger than `max`.
pub open spec fn attr_value(a: Option<String>, max: nat) -> Option<nat> {
    match a {
        Some(s) => spec_parse_unsigned(spec_trim(s@), max),
        None => None,
    }
}

/// The attribute was read and holds `1` (surrounding whitespace ignored).
pub open spec fn attr_is_one(a: Option<String>) -> bool {
    match a {
        Some(s) => spec_trim(s@) == seq!['1'],
        None => false,
    }
}

/// A block size attribute as a `u32`, or `default` when missing or unparsable.
pub open spec fn block_size_or(a: Option<String>, default: u32) -> u32 {
    match attr_value(a, u32::MAX as nat) {
        Some(v) => v as u32,
        None => default,
    }
}

/// A path segment naming a USB root hub or bus: `usb` followed by digits only.
pub open spec fn is_usb_segment(seg: Seq<u8>) -> bool {
    starts_with(seg, USB_PREFIX@) && all_ascii_digits(seg.skip(3))
}

/// The resolved `device` link passes through a USB hub segment.
pub open spec fn spec_detect_usb(chain: Option<Vec<String>>) -> bool {
    match chain {
        Some(c) => exists|i: int| 0 <= i < c@.len() && is_usb_segment(#[trigger] encode_utf8(c@[i]@)),
        None => false,
    }
}

/// The essential `size` attribute was read and parses.
pub open spec fn spec_buildable(d: SysfsDisk) -> bool {
    attr_value(d.size, u64::MAX as nat) is Some
}

/// Building the device cannot overflow: the size in bytes fits in a `u64`.
pub open spec fn size_fits(d: SysfsDisk) -> bool {
    attr_value(d.size, u64::MAX as nat) matches Some(n) ==> n * 512 <= u64::MAX
}

/// `dev` is the device described by the sysfs entry `d`, with its mounts
/// taken from `mounts`.
#[verifier::opaque]
pub open spec fn built_from(dev: Device, d: SysfsDisk, mounts: Seq<(String, Vec<u8>)>) -> bool {
    &&& attr_value(d.size, u64::MAX as nat) matches Some(sectors) && dev.size == sectors * 512
    &&& dev.path@ == DEV_DIR@ + encode_utf8(d.name@)
    &&& dev.logical_block_size == block_size_or(d.logical_block_size, 512)
    &&& dev.physical_block_size == block_size_or(d.physical_block_size, dev.logical_block_size)
    &&& dev.is_removable == attr_is_one(d.removable)
    &&& dev.is_read_only == attr_is_one(d.read_only)
    &&& match d.model {
        Some(s) => dev.model matches Some(m) && m@ == spec_trim(s@),
        None => dev.model is None,
    }
    &&& dev.is_usb == spec_detect_usb(d.device_chain)
    &&& dev.is_system == (!dev.is_removable && d.has_device)
    &&& mount_paths(dev.mountpoints@) == spec_mounts_for(encode_utf8(d.name@), mounts)
}

/// What a device built from a sysfs entry holds, field by field, in terms of
/// the attribute files as read: its size is the `size` sector count (trimmed)
/// times 512; its path is `/dev/` and the entry's name; a block size is the
/// trimmed number when it parses and fits in a `u32`, else 512 (logical) or the
/// logical size (physical); it is removable, resp. read-only, exactly when
/// `removable`, resp. `ro`, was read and holds `1` once trimmed; its model is
/// the trimmed `device/model`; it is a system disk exactly when it is not
/// removable and has a backing device; it is USB-attached exactly when its
/// resolved `device` link has a `usb<digits>` segment.
pub proof fn lemma_built_device_fields(dev: Device, d: SysfsDisk, mounts: Seq<(String, Vec<u8>)>)
    requires
        built_from(dev, d, mounts),
    ensures
        d.size matches Some(s) && spec_parse_unsigned(spec_trim(s@), u64::MAX as nat) matches Some(
            n,
        ) && dev.size == n * 512,
        dev.path@ == seq![0x2Fu8, 0x64u8, 0x65u8, 0x76u8, 0x2Fu8] + encode_utf8(d.name@),
        dev.logical_block_size == (match d.logical_block_size {
            Some(s) => match spec_parse_unsigned(spec_trim(s@), u32::MAX as nat) {
                Some(v) => v as u32,
                None => 512u32,
            },
            None => 512u32,
        }),
        dev.physical_block_size == (match d.physical_block_size {
            Some(s) => match spec_parse_unsigned(spec_trim(s@), u32::MAX as nat) {
                Some(v) => v as u32,
                None => dev.logical_block_size,
            },
            None => dev.logical_block_size,
        }),
        dev.is_removable <==> (d.removable matches Some(s) && spec_trim(s@) == seq!['1']),
        dev.is_read_only <==> (d.read_only matches Some(s) && spec_trim(s@) == seq!['1']),
        d.model is None ==> dev.model is None,
        d.model matches Some(s) ==> (dev.model matches Some(m) && m@ == spec_trim(s@)),
        dev.is_system <==> (!dev.is_removable && d.has_device),
        dev.is_usb <==> (d.device_chain matches Some(c) && exists|i: int|
            0 <= i < c@.len() && {
                let seg = #[trigger] encode_utf8(c@[i]@);
                &&& seg.len() >= 3
                &&& seg[0] == 0x75 && seg[1] == 0x73 && seg[2] == 0x62
                &&& forall|k: int| 3 <= k < seg.len() ==> 0x30 <= #[trigger] seg[k] <= 0x39
            }),
{
    reveal(built_from);
    assert(DEV_DIR@ =~= seq![0x2Fu8, 0x64u8, 0x65u8, 0x76u8, 0x2Fu8]);
    if let Some(c) = d.device_chain {
        assert forall|i: int| 0 <= i < c@.len() implies is_usb_segment(
            #[trigger] encode_utf8(c@[i]@),
        ) == {
            let seg = encode_utf8(c@[i]@);
            &&& seg.len() >= 3
            &&& seg[0] == 0x75 && seg[1] == 0x73 && seg[2] == 0x62
            &&& forall|k: int| 3 <= k < seg.len() ==> 0x30 <= #[trigger] seg[k] <= 0x39
        } by {
            let seg = encode_utf8(c@[i]@);
            if seg.len() >= 3 {
                assert(seg.subrange(0, 3) =~= USB_PREFIX@ <==> (seg[0] == 0x75 && seg[1] == 0x73
                    && seg[2] == 0x62));
                assert forall|k: int| 3 <= k < seg.len() implies (is_ascii_digit(seg.skip(3)[k - 3])
                    <==> 0x30 <= #[trigger] seg[k] <= 0x39) by {}
                if all_ascii_digits(seg.skip(3)) {
                    assert forall|k: int| 3 <= k < seg.len() implies 0x30 <= #[trigger] seg[k]
                        <= 0x39 by {
                        assert(is_ascii_digit(seg.skip(3)[k - 3]));
                    }
                }
                if forall|k: int| 3 <= k < seg.len() ==> 0x30 <= #[trigger] seg[k] <= 0x39 {
                    assert forall|j: int| 0 <= j < seg.skip(3).len() implies is_ascii_digit(
                        #[trigger] seg.skip(3)[j],
                    ) by {
                        assert(seg.skip(3)[j] == seg[j + 3]);
                    }
                }
            }
        }
    }
}

fn read_number(a: &Option<String>, max: u64) -> (r: Option<u64>)
    ensures
        r matches Some(v) ==> attr_value(*a, max as nat) == Some(v as nat),
        r is None ==> attr_value(*a, max as nat) is None,
{
    match a {
        Some(s) => parse_unsigned(trim(s.as_str()), max),
        None => None,
    }
}

fn read_flag(a: &Option<String>) -> (r: bool)
    ensures
        r == attr_is_one(*a),
{
    match a {
        Some(s) => {
            let t = trim(s.as_str());
            let r = t.unicode_len() == 1 && t.get_char(0) == '1';
            proof {
                if r {
                    assert(t@ =~= seq!['1']);
                } else if t@ == seq!['1'] {
                    assert(t@.len() == 1);
                }
            }
            r
        },
        None => false,
    }
}

fn read_block_size(a: &Option<String>, default: u32) -> (r: u32)
    ensures
        r == block_size_or(*a, default),
{
    match read_number(a, 0xFFFF_FFFF) {
        Some(v) => v as u32,
        None => default,
    }
}

/// True if `seg` (the UTF-8 bytes of a path component) is `usb` followed by
/// digits only.
pub fn is_usb_segment_bytes(seg: &[u8]) -> (r: bool)
    ensures
        r == is_usb_segment(seg@),
{
    region_eq(seg, 0, &USB_PREFIX) && all_digits(seg, 3)
}

/// Detect USB attachment by the bus type, not the removable flag (which lies
/// for many USB SSDs): the fully resolved `device` link of a USB disk runs
/// through a USB root-hub segment (`usb1`, `usb2`, ...).
pub fn detect_usb(chain: &Option<Vec<String>>) -> (r: bool)
    ensures
        r == spec_detect_usb(*chain),
{
    match chain {
        Some(c) => {
            let mut i: usize = 0;
            while i < c.len()
                invariant
                    i <= c@.len(),
                    chain is Some && chain->0 == *c,
                    forall|j: int| 0 <= j < i ==> !is_usb_segment(#[trigger] encode_utf8(c@[j]@)),
                decreases c@.len() - i,
            {
                if is_usb_segment_bytes(c[i].as_str().as_bytes()) {
                    assert(is_usb_segment(encode_utf8(c@[i as int]@)));
                    return true;
                }
                i += 1;
            }
            false
        },
        None => false,
    }
}

fn append_bytes(out: &mut Vec<u8>, more: &[u8])
    ensures
        final(out)@ == old(out)@ + more@,
{
    let mut i: usize = 0;
    while i < more.len()
        invariant
            i <= more@.len(),
            out@ == old(out)@ + more@.take(i as int),
        decreases more@.len() - i,
    {
        out.push(more[i]);
        assert(more@.take(i + 1) =~= more@.take(i as int).push(more@[i as int]));
        i += 1;
    }
    assert(more@.take(more@.len() as int) =~= more@);
}

/// Build a [`Device`] from a disk's sysfs attributes. Returns `None` if the
/// essential attribute (size) can't be read or parsed.
///
/// The size is reported in 512-byte sectors regardless of the real sector
/// size. A missing logical block size defaults to 512 and a missing physical
/// one to the logical one. A fixed (non-removable) disk with a backing
/// physical device is treated as a system disk.
pub fn build_device(d: &SysfsDisk, mounts: &Vec<(String, Vec<u8>)>) -> (r: Option<Device>)
    requires
        size_fits(*d),
    ensures
        r is Some <==> spec_buildable(*d),
        r matches Some(dev) ==> built_from(dev, *d, mounts@),
{
    let sectors = match read_number(&d.size, 0xFFFF_FFFF_FFFF_FFFF) {
        Some(v) => v,
        None => {
            return None;
        },
    };
    let size = sectors * 512;
    let logical_block_size = read_block_size(&d.logical_block_size, 512);
    let physical_block_size = read_block_size(&d.physical_block_size, logical_block_size);
    let removable = read_flag(&d.removable);
    let read_only = read_flag(&d.read_only);
    let model = match &d.model {
        Some(s) => Some(String::from_str(trim(s.as_str()))),
        None => None,
    };
    let is_usb = detect_usb(&d.device_chain);
    let is_virtual = !d.has_device;
    // A fixed, non-virtual disk is treated as a system disk.
    let is_system = !removable && !is_virtual;
    let mut path: Vec<u8> = vstd::slice::slice_to_vec(&DEV_DIR);
    append_bytes(&mut path, d.name.as_str().as_bytes());
    let mountpoints = mounts_for(d.name.as_str(), mounts);
    let dev = Device {
            path,
            model,
            size,
            logical_block_size,
            physical_block_size,
            is_usb,
            is_removable: removable,
            is_system,
            is_read_only: read_only,
            mountpoints,
        };
    proof {
        reveal(built_from);
    }
    Some(dev)
}

// ---- choosing and ordering the disks -------------------------------------------
/// Byte strings in lexicographic order: `a` sorts strictly before `b`.
pub open spec fn lex_lt(a: Seq<u8>, b: Seq<u8>) -> bool
    decreases a.len(),
{
    if b.len() == 0 {
        false
    } else if a.len() == 0 {
        true
    } else if a[0] != b[0] {
        a[0] < b[0]
    } else {
        lex_lt(a.drop_first(), b.drop_first())
    }
}

/// No byte string sorts before itself.
pub proof fn lemma_lex_lt_irreflexive(a: Seq<u8>)
    ensures
        !lex_lt(a, a),
    decreases a.len(),
{
    if a.len() > 0 {
        lemma_lex_lt_irreflexive(a.drop_first());
    }
}

/// Lexicographic order is transitive.
pub proof fn lemma_lex_lt_transitive(a: Seq<u8>, b: Seq<u8>, c: Seq<u8>)
    requires
        lex_lt(a, b),
        lex_lt(b, c),
    ensures
        lex_lt(a, c),
    decreases a.len(),
{
    if a.len() > 0 && a[0] == b[0] && b[0] == c[0] {
        lemma_lex_lt_transitive(a.drop_first(), b.drop_first(), c.drop_first());
    }
}

proof fn lemma_lex_lt_skip(a: Seq<u8>, b: Seq<u8>, i: int)
    requires
        0 <= i <= a.len(),
        i <= b.len(),
        forall|j: int| 0 <= j < i ==> a[j] == b[j],
    ensures
        lex_lt(a, b) == lex_lt(a.skip(i), b.skip(i)),
    decreases i,
{
    if i == 0 {
        assert(a.skip(0) =~= a);
        assert(b.skip(0) =~= b);
    } else {
        lemma_lex_lt_skip(a.drop_first(), b.drop_first(), i - 1);
        assert(a.drop_first().skip(i - 1) =~= a.skip(i));
        assert(b.drop_first().skip(i - 1) =~= b.skip(i));
    }
}

/// Byte order of paths: a proper prefix sorts first, and otherwise the first
/// differing byte decides (the smaller byte sorts first).
pub proof fn lemma_lex_lt_order(a: Seq<u8>, b: Seq<u8>, i: int)
    requires
        0 <= i <= a.len(),
        i <= b.len(),
        forall|j: int| 0 <= j < i ==> a[j] == b[j],
    ensures
        i == a.len() && i < b.len() ==> lex_lt(a, b),
        i < a.len() && i < b.len() && a[i] < b[i] ==> lex_lt(a, b),
        i < a.len() && i < b.len() && a[i] > b[i] ==> !lex_lt(a, b),
        i == b.len() ==> !lex_lt(a, b),
{
    lemma_lex_lt_skip(a, b, i);
}

/// True if `a` sorts strictly before `b` (lexicographic byte order).
pub fn bytes_lt(a: &[u8], b: &[u8]) -> (r: bool)
    ensures
        r == lex_lt(a@, b@),
{
    let mut i: usize = 0;
    while i < a.len() && i < b.len() && a[i] == b[i]
        invariant
            i <= a@.len(),
            i <= b@.len(),
            forall|j: int| 0 <= j < i ==> a@[j] == b@[j],
        decreases a@.len() - i,
    {
        i += 1;
    }
    proof {
        lemma_lex_lt_skip(a@, b@, i as int);
    }
    if i == b.len() {
        false
    } else if i == a.len() {
        true
    } else {
        a[i] < b[i]
    }
}

/// Devices ordered by path: no device sorts before one that precedes it.
pub open spec fn sorted_by_path(devs: Seq<Device>) -> bool {
    forall|i: int, j: int|
        0 <= i < j < devs.len() ==> !lex_lt(#[trigger] devs[j].path@, #[trigger] devs[i].path@)
}

/// A sysfs entry that becomes a device: a whole disk, not a pseudo device,
/// with a readable size.
#[verifier::opaque]
pub open spec fn spec_is_selected(d: SysfsDisk) -> bool {
    d.is_whole_disk && !spec_is_pseudo_device(encode_utf8(d.name@)) && spec_buildable(d)
}

/// The selection test as a predicate on entries.
pub open spec fn selected() -> spec_fn(SysfsDisk) -> bool {
    |d: SysfsDisk| spec_is_selected(d)
}

/// The entries that become devices, in input order.
pub open spec fn selected_entries(entries: Seq<SysfsDisk>) -> Seq<SysfsDisk> {
    entries.filter(selected())
}

/// Every entry that would be built has a size in bytes that fits in a `u64`.
pub open spec fn sizes_fit(entries: Seq<SysfsDisk>) -> bool {
    forall|j: int|
        0 <= j < entries.len() && (#[trigger] entries[j]).is_whole_disk
            && !spec_is_pseudo_device(encode_utf8(entries[j].name@)) ==> size_fits(entries[j])
}

/// True if every entry that would be built has a size in bytes that fits in
/// a `u64` (the condition [`disks_from_sysfs`] needs).
pub fn check_sizes_fit(entries: &Vec<SysfsDisk>) -> (r: bool)
    ensures
        r == sizes_fit(entries@),
{
    let mut i: usize = 0;
    while i < entries.len()
        invariant
            i <= entries@.len(),
            forall|j: int|
                0 <= j < i && (#[trigger] entries@[j]).is_whole_disk && !spec_is_pseudo_device(
                    encode_utf8(entries@[j].name@),
                ) ==> size_fits(entries@[j]),
        decreases entries@.len() - i,
    {
        let e = &entries[i];
        if e.is_whole_disk && !is_pseudo_device(e.name.as_str()) {
            if let Some(n) = read_number(&e.size, 0xFFFF_FFFF_FFFF_FFFF) {
                if n > 0xFFFF_FFFF_FFFF_FFFF / 512 {
                    assert(!size_fits(entries@[i as int]));
                    return false;
                }
            }
        }
        i += 1;
    }
    true
}

/// Insert `dev` into a list sorted by path, after every device that does not
/// sort after it. Returns where it went.
fn insert_by_path(out: &mut Vec<Device>, dev: Device) -> (pos: usize)
    requires
        sorted_by_path(old(out)@),
    ensures
        pos <= old(out)@.len(),
        final(out)@ == old(out)@.insert(pos as int, dev),
        sorted_by_path(final(out)@),
{
    let mut pos: usize = 0;
    while pos < out.len() && !bytes_lt(dev.path.as_slice(), out[pos].path.as_slice())
        invariant
            pos <= out@.len(),
            out@ == old(out)@,
            forall|m: int| 0 <= m < pos ==> !lex_lt(dev.path@, #[trigger] out@[m].path@),
        decreases out@.len() - pos,
    {
        pos += 1;
    }
    let ghost old_out = out@;
    let ghost dpath = dev.path@;
    out.insert(pos, dev);
    proof {
        assert forall|a: int, b: int| 0 <= a < b < out@.len() implies !lex_lt(
            #[trigger] out@[b].path@,
            #[trigger] out@[a].path@,
        ) by {
            if b < pos {
                assert(out@[a] == old_out[a]);
                assert(out@[b] == old_out[b]);
            } else if b == pos {
                assert(out@[a] == old_out[a]);
            } else if a < pos {
                assert(out@[a] == old_out[a]);
                assert(out@[b] == old_out[b - 1]);
            } else if a == pos {
                assert(out@[b] == old_out[b - 1]);
                assert(lex_lt(dpath, old_out[pos as int].path@));
                if lex_lt(old_out[b - 1].path@, dpath) {
                    lemma_lex_lt_transitive(old_out[b - 1].path@, dpath, old_out[pos as int].path@);
                    if b - 1 == pos {
                        lemma_lex_lt_irreflexive(old_out[pos as int].path@);
                    }
                }
            } else {
                assert(out@[a] == old_out[a - 1]);
                assert(out@[b] == old_out[b - 1]);
            }
        }
    }
    pos
}

/// `src` and `dst` link the devices in `out` with the first `n` entries:
/// device `k` is built from entry `src[k]`, a selected one, and each selected
/// entry `j` is the source of device `dst[j]`.
pub open spec fn links(
    out: Seq<Device>,
    entries: Seq<SysfsDisk>,
    n: int,
    mounts: Seq<(String, Vec<u8>)>,
    src: Seq<int>,
    dst: Seq<int>,
) -> bool {
    &&& src.len() == out.len()
    &&& dst.len() == n
    &&& forall|k: int|
        0 <= k < out.len() ==> 0 <= #[trigger] src[k] < n && spec_is_selected(entries[src[k]])
            && built_from(out[k], entries[src[k]], mounts)
    &&& forall|j: int|
        0 <= j < n && spec_is_selected(entries[j]) ==> 0 <= #[trigger] dst[j] < out.len()
            && src[dst[j]] == j
}

/// Shift the device positions at or after `pos` up by one.
pub open spec fn shift_from(dst: Seq<int>, pos: int) -> Seq<int> {
    dst.map_values(|k: int| if k >= pos { k + 1 } else { k })
}

proof fn lemma_links_insert(
    old_out: Seq<Device>,
    pos: int,
    d: Device,
    entries: Seq<SysfsDisk>,
    i: int,
    mounts: Seq<(String, Vec<u8>)>,
    src: Seq<int>,
    dst: Seq<int>,
)
    requires
        0 <= i < entries.len(),
        0 <= pos <= old_out.len(),
        spec_is_selected(entries[i]),
        built_from(d, entries[i], mounts),
        links(old_out, entries, i, mounts, src, dst),
    ensures
        links(
            old_out.insert(pos, d),
            entries,
            i + 1,
            mounts,
            src.insert(pos, i),
            shift_from(dst, pos).push(pos),
        ),
{
    let out = old_out.insert(pos, d);
    let src2 = src.insert(pos, i);
    let dst2 = shift_from(dst, pos).push(pos);
    assert forall|k: int| 0 <= k < out.len() implies 0 <= #[trigger] src2[k] < i + 1
        && spec_is_selected(entries[src2[k]]) && built_from(out[k], entries[src2[k]], mounts) by {
        if k < pos {
            assert(src2[k] == src[k]);
            assert(out[k] == old_out[k]);
        } else if k > pos {
            assert(src2[k] == src[k - 1]);
            assert(out[k] == old_out[k - 1]);
        }
    }
    assert forall|j: int| 0 <= j < i + 1 && spec_is_selected(entries[j]) implies 0
        <= #[trigger] dst2[j] < out.len() && src2[dst2[j]] == j by {
        if j < i {
            let k = dst[j];
            if k >= pos {
                assert(dst2[j] == k + 1);
                assert(src2[k + 1] == src[k]);
            } else {
                assert(dst2[j] == k);
                assert(src2[k] == src[k]);
            }
        }
    }
}

/// The disks to offer from the entries of `/sys/class/block`: whole disks
/// only (never partitions), pseudo-devices (loop/optical/ram/...) dropped,
/// entries without a readable size skipped, sorted by device path.
///
/// Each returned device is built from a selected entry and each selected
/// entry gives a returned device; there are as many devices as selected
/// entries.
pub fn disks_from_sysfs(entries: &Vec<SysfsDisk>, mounts: &Vec<(String, Vec<u8>)>) -> (r: Vec<
    Device,
>)
    requires
        sizes_fit(entries@),
    ensures
        r@.len() == selected_entries(entries@).len(),
        sorted_by_path(r@),
        exists|src: Seq<int>, dst: Seq<int>|
            links(r@, entries@, entries@.len() as int, mounts@, src, dst),
{
    let mut out: Vec<Device> = Vec::new();
    let mut i: usize = 0;
    let ghost mut src: Seq<int> = Seq::empty();
    let ghost mut dst: Seq<int> = Seq::empty();
    assert(entries@.take(0).filter(selected()) =~= Seq::<SysfsDisk>::empty()) by {
        reveal(Seq::filter);
    }
    while i < entries.len()
        invariant
            i <= entries@.len(),
            sizes_fit(entries@),
            out@.len() == entries@.take(i as int).filter(selected()).len(),
            sorted_by_path(out@),
            links(out@, entries@, i as int, mounts@, src, dst),
        decreases entries@.len() - i,
    {
        let e = &entries[i];
        let ghost prefix = entries@.take(i as int);
        proof {
            assert(entries@.take(i + 1) =~= prefix.push(entries@[i as int]));
            prefix.lemma_filter_push(entries@[i as int], selected());
        }
        let mut built: Option<Device> = None;
        if e.is_whole_disk && !is_pseudo_device(e.name.as_str()) {
            assert(size_fits(entries@[i as int]));
            built = build_device(e, mounts);
        }
        assert(built is Some <==> spec_is_selected(entries@[i as int])) by {
            reveal(spec_is_selected);
        }
        if let Some(dev) = built {
            let ghost old_out = out@;
            let ghost d = dev;
            let pos = insert_by_path(&mut out, dev);
            proof {
                lemma_links_insert(old_out, pos as int, d, entries@, i as int, mounts@, src, dst);
                src = src.insert(pos as int, i as int);
                dst = shift_from(dst, pos as int).push(pos as int);
            }
        } else {
            proof {
                let dst2 = dst.push(0);
                assert forall|j: int| 0 <= j < i + 1 && spec_is_selected(entries@[j]) implies 0
                    <= #[trigger] dst2[j] < out@.len() && src[dst2[j]] == j by {
                    assert(dst2[j] == dst[j]);
                }
                dst = dst2;
            }
        }
        i += 1;
    }
    assert(entries@.take(entries@.len() as int) =~= entries@);
    assert(links(out@, entries@, entries@.len() as int, mounts@, src, dst));
    out
}

} // verus!
