//! Network backends of the hypervisor boot path. Neither performs any work in
//! this release; they fix the interface the boot path calls.
use vstd::prelude::*;

verus! {

/// Layer-2 presence through a dedicated adapter.
pub struct PassThroughNet;

impl PassThroughNet {
    pub fn new() -> (r: PassThroughNet) {
        PassThroughNet
    }

    /// Binds the adapter and bridges its frames; no work yet.
    pub fn start(&self) {
    }
}

/// Shared host address through an outbound socket proxy.
pub struct StealthNet;

impl StealthNet {
    pub fn new() -> (r: StealthNet) {
        StealthNet
    }

    /// Starts the proxy; no work yet.
    pub fn start(&self) {
    }
}

} // verus!
