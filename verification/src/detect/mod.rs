//! Image detection: classify an image file's head bytes into an `ImageKind`
//! and populate an `ImgReport`, without ever touching a real device.
//!
//!   - [`magic`]      : total byte-signature probes (offsets, magic values).
//!   - [`img_report`] : the image report model and its `is_*`/`has_*` predicates.
//!   - [`tree`]       : the ordered decision tree that turns probes into a verdict.
pub mod img_report;
pub mod magic;
pub mod tree;

pub use img_report::ImgReport;
pub use magic::Compression;
pub use tree::{
    bsd_warning, classify, inspect, BsdFlavor, BsdWarning, ImageKind, IsoHybrid, Verdict,
};

use vstd::prelude::*;

verus! {

/// Bytes of the image head the detection tree needs. Covers every probe window
/// (the furthest is the last UDF descriptor the VRS scan reads, ending at byte
/// 63494); 64 KiB aligns to a common block size.
pub const DETECTION_HEAD_LEN: usize = 65536;

} // verus!
