use osedax_core::device::safety::{check_write_allowed, is_source_drive, WriteRefusal};
use osedax_core::device::{Device, MountPoint};

/// A plain, writable, non-system USB stick with no mounted partitions.
fn usb_stick(size: u64) -> Device {
    Device {
        path: b"/dev/sdb".to_vec(),
        model: Some("Generic USB".into()),
        size,
        logical_block_size: 512,
        physical_block_size: 512,
        is_usb: true,
        is_removable: true,
        is_system: false,
        is_read_only: false,
        mountpoints: vec![],
    }
}

/// The mount points as given (none of these test paths resolve to anything else).
fn resolved(dev: &Device) -> Vec<Vec<u8>> {
    dev.mountpoints.iter().map(|m| m.path.clone()).collect()
}

fn check(dev: &Device, image: &str, size: u64, force: bool) -> Result<(), WriteRefusal> {
    check_write_allowed(dev, image.as_bytes(), &resolved(dev), size, force)
}

fn mount(path: &str) -> MountPoint {
    MountPoint { path: path.as_bytes().to_vec() }
}

const GB: u64 = 1024 * 1024 * 1024;

#[test]
fn allows_a_plain_large_enough_usb_stick() {
    let dev = usb_stick(16 * GB);
    assert_eq!(check(&dev, "/tmp/x.iso", 4 * GB, false), Ok(()));
}

#[test]
fn refuses_read_only_device() {
    let mut dev = usb_stick(16 * GB);
    dev.is_read_only = true;
    assert_eq!(check(&dev, "/tmp/x.iso", 4 * GB, false), Err(WriteRefusal::ReadOnly));
}

#[test]
fn refuses_device_smaller_than_image() {
    let dev = usb_stick(2 * GB);
    assert_eq!(
        check(&dev, "/tmp/x.iso", 4 * GB, false),
        Err(WriteRefusal::TooSmall {
            need: 4 * GB,
            have: 2 * GB,
        })
    );
}

#[test]
fn refuses_system_drive_but_force_overrides() {
    let mut dev = usb_stick(16 * GB);
    dev.is_system = true;
    assert_eq!(check(&dev, "/tmp/x.iso", 4 * GB, false), Err(WriteRefusal::SystemDrive));
    // Explicit force relaxes only the system-drive check.
    assert_eq!(check(&dev, "/tmp/x.iso", 4 * GB, true), Ok(()));
}

#[test]
fn source_on_target_is_refused_even_with_force() {
    // Image lives under a mount point of the target device.
    let mut dev = usb_stick(16 * GB);
    dev.mountpoints = vec![mount("/run/media/me/STICK")];
    let image = "/run/media/me/STICK/images/x.iso";
    assert_eq!(check(&dev, image, GB, false), Err(WriteRefusal::SourceOnTarget));
    // Force must NOT override a source-on-target refusal.
    assert_eq!(check(&dev, image, GB, true), Err(WriteRefusal::SourceOnTarget));
}

#[test]
fn source_on_target_beats_system_drive_in_ordering() {
    let mut dev = usb_stick(16 * GB);
    dev.is_system = true;
    dev.mountpoints = vec![mount("/run/media/me/STICK")];
    let image = "/run/media/me/STICK/x.iso";
    assert_eq!(check(&dev, image, GB, false), Err(WriteRefusal::SourceOnTarget));
}

#[test]
fn bare_root_mount_is_not_treated_as_source() {
    // A system disk mounted at `/` must NOT swallow every image path as
    // source-on-target.
    let mut dev = usb_stick(16 * GB);
    dev.is_system = true;
    dev.mountpoints = vec![mount("/")];
    let image = "/run/media/me/BACKUP/os.iso";
    assert!(!is_source_drive(&dev, image.as_bytes(), &resolved(&dev)));
    // Without force it's still refused, but for the RIGHT reason...
    assert_eq!(check(&dev, image, GB, false), Err(WriteRefusal::SystemDrive));
    // ...and force can override the system-drive refusal.
    assert_eq!(check(&dev, image, GB, true), Ok(()));
}

#[test]
fn read_only_beats_everything() {
    let mut dev = usb_stick(1); // too small
    dev.is_read_only = true;
    dev.is_system = true;
    dev.mountpoints = vec![mount("/run/media/me/STICK")];
    assert_eq!(
        check(&dev, "/run/media/me/STICK/x.iso", 4 * GB, false),
        Err(WriteRefusal::ReadOnly)
    );
}

#[test]
fn unrelated_mountpoint_is_not_source_drive() {
    let mut dev = usb_stick(16 * GB);
    dev.mountpoints = vec![mount("/run/media/me/OTHER")];
    // Image is elsewhere entirely.
    assert!(!is_source_drive(&dev, b"/home/me/x.iso", &resolved(&dev)));
    assert_eq!(check(&dev, "/home/me/x.iso", GB, false), Ok(()));
}

#[test]
fn safe_default_target_needs_usb_removable_nonsystem_writable() {
    assert!(usb_stick(16 * GB).is_safe_default_target());

    let mut internal = usb_stick(16 * GB);
    internal.is_usb = false;
    internal.is_removable = false;
    internal.is_system = true;
    assert!(!internal.is_safe_default_target());
}

// ---- further cases ----

#[test]
fn mount_prefix_is_matched_by_whole_components() {
    let mut dev = usb_stick(16 * GB);
    dev.mountpoints = vec![mount("/run/media/me")];
    assert!(!is_source_drive(&dev, b"/run/media/meSTICK/x.iso", &resolved(&dev)));
    assert!(is_source_drive(&dev, b"/run/media/me/x.iso", &resolved(&dev)));
    // Repeated and trailing slashes and `.` segments do not matter.
    dev.mountpoints = vec![mount("/run//media/./me/")];
    assert!(is_source_drive(&dev, b"/run/media/me//sub/./x.iso", &resolved(&dev)));
    // An image exactly at the mount point counts too.
    assert!(is_source_drive(&dev, b"/run/media/me", &resolved(&dev)));
}

#[test]
fn resolved_mount_paths_are_compared_but_root_is_judged_as_given() {
    let mut dev = usb_stick(16 * GB);
    dev.mountpoints = vec![mount("/media/link")];
    // The mount resolves elsewhere; the resolved path is what is compared.
    let resolved = vec![b"/srv/stick".to_vec()];
    assert!(is_source_drive(&dev, b"/srv/stick/x.iso", &resolved));
    assert!(!is_source_drive(&dev, b"/media/link/x.iso", &resolved));
    // A mount given as `//` is a root mount as well.
    dev.mountpoints = vec![mount("//")];
    assert!(!is_source_drive(&dev, b"/x.iso", &vec![b"/".to_vec()]));
}

#[test]
fn too_small_is_checked_before_system_drive() {
    let mut dev = usb_stick(GB);
    dev.is_system = true;
    assert_eq!(
        check(&dev, "/tmp/x.iso", GB + 1, true),
        Err(WriteRefusal::TooSmall { need: GB + 1, have: GB })
    );
    assert_eq!(check(&dev, "/tmp/x.iso", GB, true), Ok(()));
}
