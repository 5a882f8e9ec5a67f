//! Guest loaders of the hypervisor boot path. Neither stage performs any
//! work in this release; they fix the interface the boot path calls.
use vstd::prelude::*;

verus! {

/// Wires UEFI firmware to the partition so that the guest boots through UEFI.
pub struct OvmfLoader;

impl OvmfLoader {
    pub fn new() -> (r: OvmfLoader) {
        OvmfLoader
    }

    /// Maps the firmware image and its variable store; no work yet.
    pub fn load(&self) {
    }
}

/// Prepares boot parameters and enters the kernel's 64-bit PVH entry point.
pub struct PvhLoader;

impl PvhLoader {
    pub fn new() -> (r: PvhLoader) {
        PvhLoader
    }

    /// Parses the kernel header and sets up boot parameters; no work yet.
    pub fn load(&self) {
    }
}

} // verus!
