//! The environment an app starts with: a JSON document the kernel maps into
//! the app, decoded by the app into the type it expects.

use vstd::prelude::*;

verus! {

/// An app's environment, as the raw bytes of its JSON document.
#[derive(Debug, Clone, Copy)]
pub struct Environ {
    pub data: &'static [u8],
}

impl Environ {
    /// The environment held in `data`.
    pub fn from_raw(data: &'static [u8]) -> (r: Environ)
        ensures
            r.data@ == data@,
    {
        Environ { data }
    }

    /// The raw bytes of the environment.
    pub fn raw(&self) -> (r: &'static [u8])
        ensures
            r@ == self.data@,
    {
        self.data
    }
}

} // verus!
