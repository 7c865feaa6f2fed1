//! Virtio devices emulated for the guest over memory-mapped I/O.

pub mod desc_chain;
pub mod virtqueue;
pub mod net;
pub mod device;
pub mod fuse;
pub mod fs;
pub mod driver;
pub mod transport;
