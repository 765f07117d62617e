//! The write-safety guard: decide whether writing an image to a device is
//! allowed, and if not, exactly why.
//!
//! The checks run in a fixed order so the most dangerous, most certain
//! mistakes are reported first: read-only, then source-on-target (never
//! overridable), then too small, then system drive (the one refusal that
//! `force` relaxes).
use vstd::prelude::*;

use crate::device::path::{path_is_root, path_starts_with, spec_path_is_root, spec_path_starts_with};
use crate::device::{Device, MountPoint};

verus! {

/// Why a write was refused. Ordered roughly most-dangerous first.
#[derive(Debug, Clone, Copy, PartialEq, Eq, Structural)]
pub enum WriteRefusal {
    /// The device is write-protected.
    ReadOnly,
    /// The image being written physically lives on the target device. Never
    /// overridable.
    SourceOnTarget,
    /// The device is smaller than the image.
    TooSmall { need: u64, have: u64 },
    /// The device looks like a system/OS disk. Overridable only with explicit force.
    SystemDrive,
}

/// The image lies under the `i`-th mount point: the mount is not the bare
/// root `/`, and the image path starts with the mount's resolved path.
pub open spec fn image_under_mount(
    mounts: Seq<MountPoint>,
    resolved: Seq<Seq<u8>>,
    image: Seq<u8>,
    i: int,
) -> bool {
    !spec_path_is_root(mounts[i].path@) && spec_path_starts_with(image, resolved[i])
}

/// The image lies under one of the device's (non-root) mount points.
pub open spec fn spec_is_source_drive(
    device: Device,
    image: Seq<u8>,
    resolved: Seq<Seq<u8>>,
) -> bool {
    exists|i: int|
        0 <= i < device.mountpoints@.len() && #[trigger] image_under_mount(
            device.mountpoints@,
            resolved,
            image,
            i,
        )
}

/// The outcome of the write-safety guard.
pub open spec fn spec_check_write_allowed(
    device: Device,
    source_on_target: bool,
    image_size: u64,
    force: bool,
) -> Result<(), WriteRefusal> {
    if device.is_read_only {
        Err(WriteRefusal::ReadOnly)
    } else if source_on_target {
        Err(WriteRefusal::SourceOnTarget)
    } else if device.size < image_size {
        Err(WriteRefusal::TooSmall { need: image_size, have: device.size })
    } else if device.is_system && !force {
        Err(WriteRefusal::SystemDrive)
    } else {
        Ok(())
    }
}

/// The resolved mount paths, one per mount point of the device, as bytes.
pub open spec fn resolved_view(resolved_mounts: &Vec<Vec<u8>>) -> Seq<Seq<u8>> {
    resolved_mounts.deep_view()
}

/// True if `image_path` resides on `device` (under one of its mount points).
///
/// `image_path` and `resolved_mounts` are the canonical (symlink-free) forms of
/// the image path and of each of `device.mountpoints`, in the same order; where
/// a path could not be resolved its given form stands in. Comparison is by
/// whole path components, so a mount at `/run/media/me` does not match
/// `/run/media/meSTICK`.
///
/// A bare root mount (`/`, judged on the mount point as given) is ignored: it
/// is a prefix of every absolute path, so honoring it would flag any image as
/// living on the root device and make the `force` override of a system disk
/// unreachable. The root disk is protected by the `is_system` check instead.
pub fn is_source_drive(device: &Device, image_path: &[u8], resolved_mounts: &Vec<Vec<u8>>) -> (r:
    bool)
    requires
        resolved_mounts@.len() == device.mountpoints@.len(),
    ensures
        r == spec_is_source_drive(*device, image_path@, resolved_view(resolved_mounts)),
{
    let n = device.mountpoints.len();
    let mut i: usize = 0;
    while i < n
        invariant
            i <= n,
            n == device.mountpoints@.len(),
            resolved_mounts@.len() == n,
            forall|j: int|
                0 <= j < i ==> !#[trigger] image_under_mount(
                    device.mountpoints@,
                    resolved_view(resolved_mounts),
                    image_path@,
                    j,
                ),
        decreases n - i,
    {
        proof {
            crate::device::path::lemma_deep_view_bytes(*resolved_mounts, i as int);
        }
        // A bare root mount can't distinguish which device holds the file.
        if !path_is_root(device.mountpoints[i].path.as_slice()) && path_starts_with(
            image_path,
            resolved_mounts[i].as_slice(),
        ) {
            assert(image_under_mount(
                device.mountpoints@,
                resolved_view(resolved_mounts),
                image_path@,
                i as int,
            ));
            return true;
        }
        i += 1;
    }
    false
}

/// Decide whether the image at `image_path` (of `image_size` bytes) may be
/// written to `device`.
///
/// `image_path` and `resolved_mounts` are as for [`is_source_drive`]. Order
/// matters:
/// 1. `ReadOnly`: a write can't even begin.
/// 2. `SourceOnTarget`: the hardest, most certain refusal; checked before the
///    size and system checks so it can never be masked by them, and it ignores
///    `force` entirely.
/// 3. `TooSmall`: a physical impossibility.
/// 4. `SystemDrive`: the one soft refusal, overridable via `force`.
pub fn check_write_allowed(
    device: &Device,
    image_path: &[u8],
    resolved_mounts: &Vec<Vec<u8>>,
    image_size: u64,
    force: bool,
) -> (r: Result<(), WriteRefusal>)
    requires
        resolved_mounts@.len() == device.mountpoints@.len(),
    ensures
        r == spec_check_write_allowed(
            *device,
            spec_is_source_drive(*device, image_path@, resolved_view(resolved_mounts)),
            image_size,
            force,
        ),
{
    if device.is_read_only {
        return Err(WriteRefusal::ReadOnly);
    }
    if is_source_drive(device, image_path, resolved_mounts) {
        return Err(WriteRefusal::SourceOnTarget);
    }
    if device.size < image_size {
        return Err(WriteRefusal::TooSmall { need: image_size, have: device.size });
    }
    if device.is_system && !force {
        return Err(WriteRefusal::SystemDrive);
    }
    Ok(())
}

// ---- laws -------------------------------------------------------------------------
/// A read-only device is refused as read-only, before any other check.
pub proof fn lemma_read_only_beats_everything(
    device: Device,
    source_on_target: bool,
    image_size: u64,
    force: bool,
)
    ensures
        device.is_read_only ==> spec_check_write_allowed(device, source_on_target, image_size, force)
            == Err::<(), WriteRefusal>(WriteRefusal::ReadOnly),
{
}

/// A writable device that hosts the image is refused as source-on-target,
/// with or without force, whatever its size or system flag.
pub proof fn lemma_source_on_target_ignores_force(device: Device, image_size: u64, force: bool)
    ensures
        !device.is_read_only ==> spec_check_write_allowed(device, true, image_size, force) == Err::<
            (),
            WriteRefusal,
        >(WriteRefusal::SourceOnTarget),
{
}

/// Force relaxes the system-drive refusal and nothing else.
pub proof fn lemma_force_relaxes_only_system_drive(
    device: Device,
    source_on_target: bool,
    image_size: u64,
)
    ensures
        spec_check_write_allowed(device, source_on_target, image_size, true) == (if spec_check_write_allowed(
            device,
            source_on_target,
            image_size,
            false,
        ) == Err::<(), WriteRefusal>(WriteRefusal::SystemDrive) {
            Ok::<(), WriteRefusal>(())
        } else {
            spec_check_write_allowed(device, source_on_target, image_size, false)
        }),
{
}

/// An allowed write goes to a writable device that does not host the image,
/// is large enough, and is not a system disk unless forced.
pub proof fn lemma_allowed_write_is_safe(
    device: Device,
    source_on_target: bool,
    image_size: u64,
    force: bool,
)
    ensures
        spec_check_write_allowed(device, source_on_target, image_size, force) is Ok ==> {
            &&& !device.is_read_only
            &&& !source_on_target
            &&& image_size <= device.size
            &&& (!device.is_system || force)
        },
{
}

/// A device whose only mount points are bare root mounts never counts as
/// hosting the image, so force can still override its system-drive refusal.
pub proof fn lemma_root_mounts_never_host_the_image(
    device: Device,
    image: Seq<u8>,
    resolved: Seq<Seq<u8>>,
)
    requires
        forall|i: int|
            0 <= i < device.mountpoints@.len() ==> spec_path_is_root(
                #[trigger] device.mountpoints@[i].path@,
            ),
    ensures
        !spec_is_source_drive(device, image, resolved),
{
    assert forall|i: int| 0 <= i < device.mountpoints@.len() implies !#[trigger] image_under_mount(
        device.mountpoints@,
        resolved,
        image,
        i,
    ) by {
        assert(spec_path_is_root(device.mountpoints@[i].path@));
    }
}

/// A device hosts the image as soon as one of its mount points, not the bare
/// root, has a resolved path whose components start the image path's
/// components, whatever the other mount points are; and only then.
pub proof fn lemma_source_drive_iff_some_hosting_mount(
    device: Device,
    image: Seq<u8>,
    resolved: Seq<Seq<u8>>,
)
    ensures
        spec_is_source_drive(device, image, resolved) <==> exists|i: int|
            0 <= i < device.mountpoints@.len() && !spec_path_is_root(
                #[trigger] device.mountpoints@[i].path@,
            ) && spec_path_starts_with(image, resolved[i]),
{
    if spec_is_source_drive(device, image, resolved) {
        let i = choose|i: int|
            0 <= i < device.mountpoints@.len() && #[trigger] image_under_mount(
                device.mountpoints@,
                resolved,
                image,
                i,
            );
        assert(!spec_path_is_root(device.mountpoints@[i].path@));
    }
    if exists|i: int|
        0 <= i < device.mountpoints@.len() && !spec_path_is_root(
            #[trigger] device.mountpoints@[i].path@,
        ) && spec_path_starts_with(image, resolved[i]) {
        let i = choose|i: int|
            0 <= i < device.mountpoints@.len() && !spec_path_is_root(
                #[trigger] device.mountpoints@[i].path@,
            ) && spec_path_starts_with(image, resolved[i]);
        assert(image_under_mount(device.mountpoints@, resolved, image, i));
    }
}

/// Adding mount points (with their resolved paths) never makes a device stop
/// hosting the image.
pub proof fn lemma_source_drive_monotone_in_mounts(
    device: Device,
    more: Device,
    image: Seq<u8>,
    resolved: Seq<Seq<u8>>,
    more_resolved: Seq<Seq<u8>>,
)
    requires
        device.mountpoints@.len() == resolved.len(),
        more.mountpoints@.len() >= device.mountpoints@.len(),
        more.mountpoints@.subrange(0, device.mountpoints@.len() as int) == device.mountpoints@,
        more_resolved.len() >= resolved.len(),
        more_resolved.subrange(0, resolved.len() as int) == resolved,
        spec_is_source_drive(device, image, resolved),
    ensures
        spec_is_source_drive(more, image, more_resolved),
{
    lemma_source_drive_iff_some_hosting_mount(device, image, resolved);
    let i = choose|i: int|
        0 <= i < device.mountpoints@.len() && !spec_path_is_root(
            #[trigger] device.mountpoints@[i].path@,
        ) && spec_path_starts_with(image, resolved[i]);
    assert(more.mountpoints@[i] == more.mountpoints@.subrange(
        0,
        device.mountpoints@.len() as int,
    )[i]);
    assert(more_resolved[i] == more_resolved.subrange(0, resolved.len() as int)[i]);
    lemma_source_drive_iff_some_hosting_mount(more, image, more_resolved);
}

/// A writable device with a mount point (not the bare root) whose resolved
/// path is a component prefix of the image path refuses the write as
/// source-on-target, with or without force, whatever its size.
pub proof fn lemma_hosting_mount_refuses_write(
    device: Device,
    image: Seq<u8>,
    resolved: Seq<Seq<u8>>,
    i: int,
    image_size: u64,
    force: bool,
)
    requires
        !device.is_read_only,
        0 <= i < device.mountpoints@.len(),
        !spec_path_is_root(device.mountpoints@[i].path@),
        spec_path_starts_with(image, resolved[i]),
    ensures
        spec_check_write_allowed(
            device,
            spec_is_source_drive(device, image, resolved),
            image_size,
            force,
        ) == Err::<(), WriteRefusal>(WriteRefusal::SourceOnTarget),
{
    lemma_source_drive_iff_some_hosting_mount(device, image, resolved);
}

/// A writable device that does not host the image and is smaller than it is
/// refused as too small, reporting the image size as needed and the device
/// size as available, with or without force.
pub proof fn lemma_too_small_refusal(device: Device, image_size: u64, force: bool)
    requires
        !device.is_read_only,
        device.size < image_size,
    ensures
        spec_check_write_allowed(device, false, image_size, force) == Err::<(), WriteRefusal>(
            WriteRefusal::TooSmall { need: image_size, have: device.size },
        ),
{
}

/// A writable, large-enough device that does not host the image is refused
/// only as a system disk without force, and accepted otherwise.
pub proof fn lemma_fitting_write_outcome(device: Device, image_size: u64, force: bool)
    requires
        !device.is_read_only,
        image_size <= device.size,
    ensures
        spec_check_write_allowed(device, false, image_size, force) == (if device.is_system
            && !force {
            Err::<(), WriteRefusal>(WriteRefusal::SystemDrive)
        } else {
            Ok::<(), WriteRefusal>(())
        }),
{
}

} // verus!
