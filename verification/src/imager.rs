//! Assembles bootable machine images: kernel module closures, initramfs
//! archives, disk layouts and boot configuration.

use vstd::prelude::*;

pub mod apk;
pub mod arch;
pub mod boot;
pub mod cni;
pub mod codec;
pub mod cpio;
pub mod fetch;
pub mod image;
pub mod initramfs;
pub mod manifest;
pub mod modules;
pub mod pipeline;
pub mod prune;
pub mod rpi;
pub mod sdboot;
pub mod stage;
pub mod tree;

verus! {

/// Why a build step was refused.
#[derive(Debug, PartialEq, Eq)]
pub struct Error {
    pub message: String,
}

impl Error {
    /// The message, as shown to the user.
    pub fn to_string(&self) -> (r: String)
        ensures
            r@ == self.message@,
    {
        self.message.clone()
    }
}

} // verus!
