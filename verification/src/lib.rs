//! A simulator of NOR flash and of the images, manifests and partition
//! tables that a swapping bootloader works on, with the scenarios that
//! exercise such a bootloader.

pub mod api;
pub mod area;
pub mod builder;
pub mod bytes;
pub mod caps;
pub mod checks;
pub mod crypto;
pub mod depends;
pub mod device;
pub mod flash;
pub mod image;
pub mod install;
pub mod multiflash;
pub mod pdump;
pub mod ptest;
pub mod room;
pub mod scenario;
pub mod scripts;
pub mod status;
pub mod text;
pub mod tlv;
