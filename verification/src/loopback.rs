//! Loop devices backed by a file: the device node of a loop device, and
//! the name of the backing file as the kernel's loop configuration holds
//! it.

use vstd::prelude::*;
use crate::text::{decimal, push_decimal, push_str};

verus! {

/// Why a loop device could not be set up.
#[derive(Debug, Clone, Copy, PartialEq, Eq, Structural)]
pub enum Error {
    /// The backing file cannot be opened.
    BackingFileNotFound,
    /// The loop device cannot be opened.
    LoopDeviceNotFound,
    /// The kernel refused the configuration, with this error number.
    ConfigureFailed(i32),
}

/// The longest backing-file name the configuration keeps (its field holds
/// 64 bytes with a terminating NUL).
pub const LOOP_FILE_NAME_MAX: usize = 63;

/// A loop device, by the path of its device node.
pub struct LoopDevice {
    pub device_path: String,
}

impl LoopDevice {
    /// The loop device with number `index`: `/dev/loop<index>`.
    pub fn new(index: u32) -> (r: LoopDevice)
        ensures
            r.device_path@ == "/dev/loop"@ + decimal(index as nat),
    {
        let mut device_path = String::new();
        push_str(&mut device_path, "/dev/loop");
        push_decimal(&mut device_path, index as u64);
        LoopDevice { device_path }
    }

    /// The path of the device node.
    pub fn device_path(&self) -> (r: &String)
        ensures
            r@ == self.device_path@,
    {
        &self.device_path
    }
}

/// The file-name field of the loop configuration for a backing file at
/// `path`: its first 63 bytes at most, then zeros.
pub fn loop_file_name(path: &[u8]) -> (r: [u8; 64])
    ensures
        forall|i: int|
            0 <= i < 64 ==> #[trigger] r@[i] == if i < path@.len() && i < LOOP_FILE_NAME_MAX {
                path@[i]
            } else {
                0u8
            },
{
    let mut name = [0u8; 64];
    let copy_len = if path.len() < LOOP_FILE_NAME_MAX {
        path.len()
    } else {
        LOOP_FILE_NAME_MAX
    };
    let mut i: usize = 0;
    while i < copy_len
        invariant
            i <= copy_len,
            copy_len <= path@.len(),
            copy_len <= LOOP_FILE_NAME_MAX,
            copy_len == path@.len() || copy_len == LOOP_FILE_NAME_MAX,
            name@.len() == 64,
            forall|j: int| 0 <= j < 64 ==> #[trigger] name@[j] == if j < i { path@[j] } else { 0u8 },
        decreases copy_len - i,
    {
        name[i] = path[i];
        i += 1;
    }
    name
}

} // verus!
