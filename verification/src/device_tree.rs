//! The device tree the kernel hands to apps: the devices, each with its
//! compatible strings, the bus it sits on, its register windows and its
//! interrupts. The tree itself travels as JSON; the map of devices by name
//! is built where it is decoded.

use vstd::prelude::*;
use crate::interrupt::Irq;

verus! {

/// A device.
#[derive(Debug, Clone)]
pub struct DeviceNode {
    pub compatible: Vec<String>,
    pub bus: String,
    pub reg: Vec<Reg>,
    pub interrupts: Vec<InterruptDesc>,
}

/// How a device interrupts.
#[derive(Debug, Clone, Copy)]
pub enum InterruptDesc {
    Static(Irq),
}

/// A bus devices sit on.
#[derive(Debug, Clone, Copy, PartialEq, Eq, Structural)]
pub enum BusNode {
    NoMmu,
}

/// A register window: `size` bytes at `addr`.
#[derive(Debug, Clone, Copy, PartialEq, Eq, Structural)]
pub struct Reg {
    pub addr: u64,
    pub size: u64,
}

} // verus!
