//! The platform-neutral core of a USB image writer: image detection, the
//! device model and the write-safety checks.
pub mod detect;
pub mod device;
pub mod split;
pub mod text;

pub use detect::{ImageKind, ImgReport};
