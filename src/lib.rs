//! Control-plane runtime of a cooperative virtualization daemon: the byte ring
//! of the virtual terminal, the bit-exact layouts of the shared memory window,
//! the shared VBLK ring service, the bounded VBLK queue, the completion
//! bookkeeping of the control-operation reactor, the encoding of the device's
//! control requests, and the decisions of the tick loop and console bridge.
pub mod config;
pub mod console;
pub mod device;
pub mod header;
pub mod layout;
pub mod loader;
pub mod net;
pub mod profiles;
pub mod reactor;
pub mod ring;
pub mod tick;
pub mod vblk;
pub mod vblk_ring;
