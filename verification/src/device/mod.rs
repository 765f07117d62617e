//! Device model and write-safety checks.
//!
//! The safety logic (which drive may be written) is a pure function of a
//! [`Device`] value. Actual enumeration reads the system's device tables and
//! builds `Device` values from what it read; the decisions it makes on those
//! readings live in [`sysfs`].
pub mod mounts;
pub mod path;
pub mod safety;
pub mod sysfs;

pub use safety::{check_write_allowed, is_source_drive, WriteRefusal};

use vstd::prelude::*;

verus! {

/// A mount point of a device or one of its partitions.
#[derive(Debug, Clone, PartialEq, Eq)]
pub struct MountPoint {
    /// The mount path, as the raw bytes of a Unix path.
    pub path: Vec<u8>,
}

/// A platform-neutral view of a whole disk, produced by the per-OS enumeration
/// layer and consumed by the safety checks and the write pipeline.
///
/// Only whole disks (`/dev/sdb`, never `/dev/sdb1`) are offered as targets:
/// writing an image includes its own partition table.
#[derive(Debug, Clone, PartialEq, Eq)]
pub struct Device {
    /// The whole-disk node to open for writing (e.g. `/dev/sdb`), as path bytes.
    pub path: Vec<u8>,
    /// Human-readable model/description, for the picker UI.
    pub model: Option<String>,
    /// Total size in bytes.
    pub size: u64,
    /// Logical sector size (bytes).
    pub logical_block_size: u32,
    /// Physical sector size (bytes); may exceed logical on 512e/4Kn drives.
    pub physical_block_size: u32,
    /// Attached via USB (detected by bus type, not the unreliable removable flag).
    pub is_usb: bool,
    /// The OS/kernel reports this as removable media.
    pub is_removable: bool,
    /// Best-effort "this is a system/OS disk" flag from the enumeration layer.
    /// Refused by default, overridable only with force.
    pub is_system: bool,
    /// The device is read-only / write-protected.
    pub is_read_only: bool,
    /// Mount points of the device and its partitions (used by the source-drive check).
    pub mountpoints: Vec<MountPoint>,
}

impl Device {
    /// A removable USB disk that is neither the system disk nor read-only.
    pub open spec fn spec_is_safe_default_target(&self) -> bool {
        self.is_usb && self.is_removable && !self.is_system && !self.is_read_only
    }

    /// Whether this device is a sensible default to show in the picker: a
    /// removable, writable USB disk that isn't the system disk.
    pub fn is_safe_default_target(&self) -> (r: bool)
        ensures
            r == self.spec_is_safe_default_target(),
    {
        self.is_usb && self.is_removable && !self.is_system && !self.is_read_only
    }
}

} // verus!
