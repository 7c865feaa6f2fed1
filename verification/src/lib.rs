//! Verified core of the Starina microkernel support libraries and of its
//! Linux compatibility layer: kernel ABI types, a virtio device model over
//! guest memory and the driver side of virtqueues, a small guest-facing
//! TCP/IP stack with port forwarding, a FUSE file system, and the guest
//! machine (its device tree, memory bus and exit handling).

pub mod text;
pub mod address;
pub mod error;
pub mod handle;
pub mod interrupt;
pub mod message;
pub mod poll;
pub mod timer;
pub mod syscall;
pub mod net;
pub mod bytes;
pub mod guest_memory;
pub mod virtio;
pub mod mmio;
pub mod fs;
pub mod fdt;
pub mod port_forward;
pub mod vcpu;
pub mod device_tree;
pub mod app_spec;
pub mod environ;
pub mod ipc;
pub mod loopback;
pub mod wasm_host;
pub mod boot;
pub mod command;
