//! Verified core of a USB autofill gadget: button click detection, the
//! stored text, its flash record, the FAT12 volume that exposes it, the
//! keyboard mapping that types it, and the mass-storage command logic.

pub mod bytes;
pub mod click;
pub mod endian;
pub mod fat;
pub mod keyboard;
pub mod medium;
pub mod msc;
pub mod persist;
pub mod text;
