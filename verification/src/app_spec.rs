//! What an app declares of itself: its name, the environment it expects
//! (devices, services, the I/O bus map) and the services it exports, in the
//! pre-compiled form the kernel loads apps with.

use vstd::prelude::*;

verus! {

/// An environment item an app asks for, as written in its manifest.
#[derive(Debug, Clone)]
pub enum EnvType {
    Service { service: String },
    DeviceTree { matches: Vec<String> },
    IoBusMap,
}

/// A service an app exports, as written in its manifest.
#[derive(Debug, Clone)]
pub enum ExportItem {
    Service { service: String },
}

/// An app's declaration, pre-compiled. The entry point is the address of
/// the app's start routine.
#[derive(Debug, Clone, Copy)]
pub struct ParsedAppSpec {
    pub name: &'static str,
    pub env: &'static [ParsedEnvItem],
    pub exports: &'static [ParsedExportItem],
    pub entrypoint: usize,
}

/// A device an app matches.
#[derive(Debug, Clone, Copy)]
pub enum ParsedDeviceMatch {
    Compatible(&'static str),
}

/// A named environment item.
#[derive(Debug, Clone, Copy)]
pub struct ParsedEnvItem {
    pub name: &'static str,
    pub ty: ParsedEnvType,
}

/// What an environment item is.
#[derive(Debug, Clone, Copy)]
pub enum ParsedEnvType {
    DeviceTree { matches: &'static [ParsedDeviceMatch] },
    IoBusMap,
    Service { service: &'static str },
}

/// A service an app exports.
#[derive(Debug, Clone, Copy)]
pub enum ParsedExportItem {
    Service { service: &'static str },
}

/// A device an app matches, in the earlier form of declarations.
#[derive(Debug, Clone, Copy)]
pub enum DeviceMatch {
    Compatible(&'static str),
}

/// A named environment item, in the earlier form of declarations.
#[derive(Debug, Clone, Copy)]
pub struct EnvItem {
    pub name: &'static str,
    pub ty: StaticEnvType,
}

/// What an environment item is, in the earlier form of declarations.
#[derive(Debug, Clone, Copy)]
pub enum StaticEnvType {
    DeviceTree { matches: &'static [DeviceMatch] },
    Service { service: &'static str },
}

} // verus!
